use chattyrs::vec_db::db_handler::{close_messages, search_request};
use chattyrs::vec_db::vector::{tenant_key, tenant_of_key, DbVector, PointKey, RetrievedPoint, VectorError};
use chattyrs::vec_db::{DB_TOP_K, DB_VEC_LENGTH};

fn embedding(len: usize) -> Vec<u32> {
    (0..len).map(|i| (i as f32 * 0.5).to_bits()).collect()
}

fn stored(d: &DbVector) -> RetrievedPoint {
    RetrievedPoint {
        id: Some(PointKey::Num(d.message_id)),
        guild_id: Some(d.tenant_key()),
        message: Some(d.message.clone()),
        vector: Some(d.vector.clone()),
    }
}

#[test]
fn archived_message_is_found_by_its_tenant_only() {
    let g1: u64 = 1001;
    let g2: u64 = 2002;
    let d = DbVector::new(embedding(DB_VEC_LENGTH as usize), "hi".to_string(), 7, g1).unwrap();
    let points = vec![stored(&d)];
    assert_eq!(close_messages(&points, g1).unwrap(), vec!["hi".to_string()]);
    assert_eq!(close_messages(&points, g2).unwrap(), Vec::<String>::new());
}

#[test]
fn other_tenants_points_are_dropped_in_order() {
    let a = DbVector::new(embedding(DB_VEC_LENGTH as usize), "a".to_string(), 1, 5).unwrap();
    let b = DbVector::new(embedding(DB_VEC_LENGTH as usize), "b".to_string(), 2, 6).unwrap();
    let c = DbVector::new(embedding(DB_VEC_LENGTH as usize), "c".to_string(), 3, 5).unwrap();
    let points = vec![stored(&a), stored(&b), stored(&c)];
    assert_eq!(close_messages(&points, 5).unwrap(), vec!["a".to_string(), "c".to_string()]);
    assert_eq!(close_messages(&points, 6).unwrap(), vec!["b".to_string()]);
}

#[test]
fn wrong_dimension_is_refused_before_the_store() {
    let e = DbVector::new(embedding(3), "hi".to_string(), 7, 1).err();
    assert_eq!(e, Some(VectorError::WrongDimension { expected: DB_VEC_LENGTH, found: 3 }));
    let e = search_request(embedding(DB_VEC_LENGTH as usize + 1), 1).err();
    assert_eq!(
        e,
        Some(VectorError::WrongDimension { expected: DB_VEC_LENGTH, found: DB_VEC_LENGTH as usize + 1 })
    );
    assert!(matches!(search_request(Vec::new(), 1), Err(VectorError::WrongDimension { found: 0, .. })));
}

#[test]
fn search_request_is_scoped_and_bounded() {
    let r = search_request(embedding(DB_VEC_LENGTH as usize), 42).unwrap();
    assert_eq!(r.tenant_key, 42);
    assert_eq!(r.limit, DB_TOP_K);
    assert_eq!(DB_TOP_K, 10);
    assert_eq!(r.vector, embedding(DB_VEC_LENGTH as usize));
}

#[test]
fn tenant_key_round_trips_large_ids() {
    let big: u64 = u64::MAX - 3;
    assert_eq!(tenant_key(big), -4);
    assert_eq!(tenant_of_key(tenant_key(big)), big);
    assert_eq!(tenant_of_key(tenant_key(17)), 17);
}

#[test]
fn unreadable_points_fail_the_search() {
    let d = DbVector::new(embedding(DB_VEC_LENGTH as usize), "hi".to_string(), 7, 1).unwrap();
    let mut p = stored(&d);
    p.guild_id = None;
    assert_eq!(close_messages(&vec![p], 1).err(), Some(VectorError::MissingGuildId));
    let mut p = stored(&d);
    p.id = None;
    assert_eq!(close_messages(&vec![p], 1).err(), Some(VectorError::MissingId));
    let mut p = stored(&d);
    p.id = Some(PointKey::Uuid("x".to_string()));
    assert_eq!(close_messages(&vec![p], 1).err(), Some(VectorError::IdNotNumber));
    let mut p = stored(&d);
    p.vector = None;
    assert_eq!(close_messages(&vec![p], 1).err(), Some(VectorError::MissingVector));
    let mut p = stored(&d);
    p.message = None;
    assert_eq!(close_messages(&vec![stored(&d), p], 1).err(), Some(VectorError::MissingMessage));
}

#[test]
fn point_reads_back_as_archived_message() {
    let d = DbVector::new(embedding(DB_VEC_LENGTH as usize), "hi".to_string(), 9, u64::MAX).unwrap();
    let back = DbVector::try_from_point(stored(&d)).unwrap();
    assert_eq!(back.message, "hi");
    assert_eq!(back.message_id, 9);
    assert_eq!(back.guild_id, u64::MAX);
    assert_eq!(back.vector, d.vector);
}
