use vstd::prelude::*;

use super::vector::{
    point_error, spec_tenant_key, spec_tenant_of_key, tenant_key, tenant_of_key, DbVector,
    Embedding, PointKey, RetrievedPoint, VectorError,
};
use super::{DB_TOP_K, DB_VEC_LENGTH};
use crate::text::texts;

verus! {

/// A nearest-neighbour search as the store is asked to run it: only points
/// whose tenant payload equals `tenant_key` take part, and at most `limit`
/// come back, with their payloads and vectors.
pub struct SearchRequest {
    pub vector: Embedding,
    pub tenant_key: i64,
    pub limit: u64,
}

/// The search for the archived messages of a tenant nearest to an
/// embedding; an embedding that is not of the store's dimension is refused
/// before the store is reached.
pub fn search_request(vector: Embedding, guild_id: u64) -> (r: Result<SearchRequest, VectorError>)
    ensures
        vector.len() == DB_VEC_LENGTH ==> (r matches Ok(s) && s.vector@ == vector@ && s.tenant_key
            == spec_tenant_key(guild_id) && s.limit == DB_TOP_K),
        vector.len() != DB_VEC_LENGTH ==> r == Err::<SearchRequest, VectorError>(
            VectorError::WrongDimension { expected: DB_VEC_LENGTH, found: vector.len() },
        ),
{
    if vector.len() as u64 != DB_VEC_LENGTH {
        let found = vector.len();
        return Err(VectorError::WrongDimension { expected: DB_VEC_LENGTH, found });
    }
    Ok(SearchRequest { vector, tenant_key: tenant_key(guild_id), limit: DB_TOP_K })
}

/// A point whose tenant payload stands for the given tenant.
pub open spec fn tenant_matches(p: RetrievedPoint, guild_id: u64) -> bool {
    p.guild_id matches Some(k) && spec_tenant_of_key(k) == guild_id
}

/// The points of a tenant among those given, in the given order.
pub open spec fn kept_points(ps: Seq<RetrievedPoint>, guild_id: u64) -> Seq<RetrievedPoint>
    decreases ps.len(),
{
    if ps.len() == 0 {
        Seq::empty()
    } else {
        let rest = kept_points(ps.drop_last(), guild_id);
        if tenant_matches(ps.last(), guild_id) {
            rest.push(ps.last())
        } else {
            rest
        }
    }
}

/// The texts of the points of a tenant among those given, in the given order.
pub open spec fn kept_messages(ps: Seq<RetrievedPoint>, guild_id: u64) -> Seq<Seq<char>> {
    kept_points(ps, guild_id).map_values(|p: RetrievedPoint| p.message->0@)
}

/// Every point can be read as an archived message.
pub open spec fn all_readable(ps: Seq<RetrievedPoint>) -> bool {
    forall|j: int| 0 <= j < ps.len() ==> (#[trigger] point_error(ps[j])) is None
}

/// The error of the first point that cannot be read is `e`.
pub open spec fn first_error_is(ps: Seq<RetrievedPoint>, e: VectorError) -> bool {
    exists|i: int|
        0 <= i < ps.len() && all_readable(ps.take(i)) && #[trigger] point_error(ps[i]) == Some(e)
}

fn point_check(p: &RetrievedPoint) -> (r: Option<VectorError>)
    ensures
        r == point_error(*p),
{
    if p.guild_id.is_none() {
        Some(VectorError::MissingGuildId)
    } else {
        match &p.id {
            None => Some(VectorError::MissingId),
            Some(PointKey::Uuid(_)) => Some(VectorError::IdNotNumber),
            Some(PointKey::Num(_)) => {
                if p.vector.is_none() {
                    Some(VectorError::MissingVector)
                } else if p.message.is_none() {
                    Some(VectorError::MissingMessage)
                } else {
                    None
                }
            },
        }
    }
}

/// The texts of a tenant's archived messages among the points a search
/// handed back, nearest first. Points of any other tenant are left out
/// here too, so that isolation holds at the store's boundary whatever the
/// store did; a point that cannot be read fails the whole search.
pub fn close_messages(points: &Vec<RetrievedPoint>, guild_id: u64) -> (r: Result<
    Vec<String>,
    VectorError,
>)
    ensures
        all_readable(points@) ==> (r matches Ok(ms) && texts(ms@)
            == kept_messages(points@, guild_id)),
        r matches Ok(ms) ==> all_readable(points@) && texts(ms@) == kept_messages(
            points@,
            guild_id,
        ),
        r matches Err(e) ==> first_error_is(points@, e),
{
    let n = points.len();
    let mut out: Vec<String> = Vec::new();
    let mut i: usize = 0;
    while i < n
        invariant
            i <= n == points.len(),
            all_readable(points@.take(i as int)),
            texts(out@) == kept_messages(points@.take(i as int), guild_id),
        decreases n - i,
    {
        let p = &points[i];
        let ghost before = points@.take(i as int);
        let ghost after = points@.take(i + 1);
        assert(after.drop_last() =~= before);
        assert(after.last() == points@[i as int]);
        match point_check(p) {
            Some(e) => {
                assert(first_error_is(points@, e));
                return Err(e);
            },
            None => {},
        }
        let key = match p.guild_id {
            Some(k) => k,
            None => 0,
        };
        if tenant_of_key(key) == guild_id {
            let text = match &p.message {
                Some(m) => m.clone(),
                None => String::new(),
            };
            assert(tenant_matches(after.last(), guild_id));
            assert(kept_points(after, guild_id) == kept_points(before, guild_id).push(
                points@[i as int],
            ));
            assert(text@ == points@[i as int].message->0@);
            let ghost old_out = out@;
            out.push(text);
            let ghost kb = kept_points(before, guild_id);
            let ghost ka = kept_points(after, guild_id);
            assert(texts(old_out) == kept_messages(before, guild_id));
            assert(old_out.len() == texts(old_out).len());
            assert(old_out.len() == kb.len());
            assert(ka.len() == kb.len() + 1);
            assert(kept_messages(after, guild_id).len() == ka.len());
            assert forall|j: int| 0 <= j < out@.len() implies #[trigger] texts(out@)[j]
                == kept_messages(after, guild_id)[j] by {
                if j < old_out.len() {
                    assert(out@[j] == old_out[j]);
                    assert(texts(old_out)[j] == kept_messages(before, guild_id)[j]);
                    assert(ka[j] == kb[j]);
                } else {
                    assert(ka[j] == points@[i as int]);
                }
            }
            assert(texts(out@) =~= kept_messages(after, guild_id));
        } else {
            assert(texts(out@) =~= kept_messages(after, guild_id));
        }
        assert forall|j: int| 0 <= j < after.len() implies (#[trigger] point_error(after[j])) is None by {
            if j < i {
                assert(after[j] == before[j]);
            }
        }
        i = i + 1;
    }
    assert(points@.take(n as int) =~= points@);
    Ok(out)
}

/// What a search hands back for the point stored from an archived message.
pub open spec fn returned_from(p: RetrievedPoint, d: DbVector) -> bool {
    &&& p.id == Some(PointKey::Num(d.message_id))
    &&& p.guild_id == Some(spec_tenant_key(d.guild_id))
    &&& p.message matches Some(m) && m@ == d.message@
    &&& p.vector matches Some(v) && v@ == d.vector@
}

proof fn lemma_kept_of_tenant(ps: Seq<RetrievedPoint>, guild_id: u64)
    ensures
        forall|j: int|
            0 <= j < kept_points(ps, guild_id).len() ==> tenant_matches(
                #[trigger] kept_points(ps, guild_id)[j],
                guild_id,
            ),
    decreases ps.len(),
{
    if ps.len() > 0 {
        let rest = kept_points(ps.drop_last(), guild_id);
        lemma_kept_of_tenant(ps.drop_last(), guild_id);
        assert forall|j: int| 0 <= j < kept_points(ps, guild_id).len() implies tenant_matches(
            #[trigger] kept_points(ps, guild_id)[j],
            guild_id,
        ) by {
            if j < rest.len() {
                assert(kept_points(ps, guild_id)[j] == rest[j]);
            }
        }
    }
}

proof fn lemma_kept_contains(ps: Seq<RetrievedPoint>, i: int, guild_id: u64)
    requires
        0 <= i < ps.len(),
        tenant_matches(ps[i], guild_id),
    ensures
        kept_points(ps, guild_id).contains(ps[i]),
    decreases ps.len(),
{
    let rest = kept_points(ps.drop_last(), guild_id);
    if i == ps.len() - 1 {
        assert(kept_points(ps, guild_id).last() == ps[i]);
    } else {
        assert(ps.drop_last()[i] == ps[i]);
        lemma_kept_contains(ps.drop_last(), i, guild_id);
        let k = choose|k: int| 0 <= k < rest.len() && rest[k] == ps[i];
        if tenant_matches(ps.last(), guild_id) {
            assert(kept_points(ps, guild_id)[k] == ps[i]);
        }
    }
}

/// Retrieval keeps to the tenant asked for. Among the points a search hands
/// back, the one stored from an archived message of tenant `guild_id` is
/// kept, so its text is among those returned; one stored for any other
/// tenant is never kept, whatever the store handed back; and every kept
/// point is the asking tenant's.
pub proof fn lemma_retrieval_by_tenant(ps: Seq<RetrievedPoint>, i: int, d: DbVector, guild_id: u64)
    requires
        0 <= i < ps.len(),
        returned_from(ps[i], d),
    ensures
        d.guild_id == guild_id ==> kept_messages(ps, guild_id).contains(d.message@),
        d.guild_id != guild_id ==> !kept_points(ps, guild_id).contains(ps[i]),
        forall|j: int|
            0 <= j < kept_points(ps, guild_id).len() ==> tenant_matches(
                #[trigger] kept_points(ps, guild_id)[j],
                guild_id,
            ),
{
    super::vector::lemma_tenant_key_round_trip(d.guild_id);
    lemma_kept_of_tenant(ps, guild_id);
    if d.guild_id == guild_id {
        lemma_kept_contains(ps, i, guild_id);
        let kept = kept_points(ps, guild_id);
        let k = choose|k: int| 0 <= k < kept.len() && kept[k] == ps[i];
        assert(kept_messages(ps, guild_id)[k] == d.message@);
    }
}

} // verus!
