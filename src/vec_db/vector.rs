use vstd::prelude::*;

use super::DB_VEC_LENGTH;

verus! {

/// An embedding's components, each an IEEE-754 single-precision value
/// held by its bits.
pub type Embedding = Vec<u32>;

/// What can go wrong on the way to or from the vector store.
#[derive(Debug, PartialEq, Eq)]
pub enum VectorError {
    /// The embedding's length is not the store's dimension.
    WrongDimension { expected: u64, found: usize },
    /// A point came back without its tenant.
    MissingGuildId,
    /// A point came back without an id.
    MissingId,
    /// A point came back with an id that is not a number.
    IdNotNumber,
    /// A point came back without a single dense vector.
    MissingVector,
    /// A point came back without its text.
    MissingMessage,
    /// The store failed the call.
    Store(String),
}

/// An archived message: its embedding, its text, and the ids of the message
/// and of its tenant.
pub struct DbVector {
    pub vector: Embedding,
    pub message: String,
    pub message_id: u64,
    pub guild_id: u64,
}

/// The id of a point in the store.
#[derive(Debug, PartialEq, Eq)]
pub enum PointKey {
    Num(u64),
    Uuid(String),
}

/// A point as a search hands it back, each part present or not.
pub struct RetrievedPoint {
    pub id: Option<PointKey>,
    /// The tenant as the payload holds it.
    pub guild_id: Option<i64>,
    pub message: Option<String>,
    pub vector: Option<Embedding>,
}

/// The payload value that stands for a tenant: the id's 64 bits read as a
/// signed number, as the store keeps integers.
pub open spec fn spec_tenant_key(guild_id: u64) -> i64 {
    guild_id as i64
}

/// The tenant a payload value stands for.
pub open spec fn spec_tenant_of_key(key: i64) -> u64 {
    key as u64
}

/// The payload value that stands for a tenant.
pub fn tenant_key(guild_id: u64) -> (r: i64)
    ensures
        r == spec_tenant_key(guild_id),
{
    guild_id as i64
}

/// The tenant a payload value stands for.
pub fn tenant_of_key(key: i64) -> (r: u64)
    ensures
        r == spec_tenant_of_key(key),
{
    key as u64
}

/// Reading back the payload value of a tenant gives the tenant.
pub proof fn lemma_tenant_key_round_trip(guild_id: u64)
    ensures
        spec_tenant_of_key(spec_tenant_key(guild_id)) == guild_id,
{
    assert(((guild_id as i64) as u64) == guild_id) by (bit_vector);
}

/// The error a retrieved point gives when it cannot be read as an archived
/// message; the parts are looked at in a fixed order.
pub open spec fn point_error(p: RetrievedPoint) -> Option<VectorError> {
    if p.guild_id is None {
        Some(VectorError::MissingGuildId)
    } else if p.id is None {
        Some(VectorError::MissingId)
    } else if !(p.id->0 is Num) {
        Some(VectorError::IdNotNumber)
    } else if p.vector is None {
        Some(VectorError::MissingVector)
    } else if p.message is None {
        Some(VectorError::MissingMessage)
    } else {
        None
    }
}

impl DbVector {
    /// An archived message, from an embedding of the store's dimension;
    /// any other length is refused.
    pub fn new(vector: Embedding, message: String, message_id: u64, guild_id: u64) -> (r: Result<
        DbVector,
        VectorError,
    >)
        ensures
            vector.len() == DB_VEC_LENGTH ==> (r matches Ok(d) && d.vector@ == vector@
                && d.message@ == message@ && d.message_id == message_id && d.guild_id
                == guild_id),
            vector.len() != DB_VEC_LENGTH ==> r == Err::<DbVector, VectorError>(
                VectorError::WrongDimension { expected: DB_VEC_LENGTH, found: vector.len() },
            ),
    {
        if vector.len() as u64 != DB_VEC_LENGTH {
            let found = vector.len();
            return Err(VectorError::WrongDimension { expected: DB_VEC_LENGTH, found });
        }
        Ok(DbVector { vector, message, message_id, guild_id })
    }

    /// The archived message a retrieved point holds.
    pub fn try_from_point(p: RetrievedPoint) -> (r: Result<DbVector, VectorError>)
        ensures
            point_error(p) matches Some(e) ==> r == Err::<DbVector, VectorError>(e),
            point_error(p) is None ==> (r matches Ok(d) && d.vector@ == p.vector->0@
                && d.message@ == p.message->0@ && p.id == Some(PointKey::Num(d.message_id))
                && d.guild_id == spec_tenant_of_key(p.guild_id->0)),
    {
        let guild_id = match p.guild_id {
            Some(g) => tenant_of_key(g),
            None => {
                return Err(VectorError::MissingGuildId);
            },
        };
        let message_id = match p.id {
            Some(PointKey::Num(id)) => id,
            Some(PointKey::Uuid(_)) => {
                return Err(VectorError::IdNotNumber);
            },
            None => {
                return Err(VectorError::MissingId);
            },
        };
        let vector = match p.vector {
            Some(v) => v,
            None => {
                return Err(VectorError::MissingVector);
            },
        };
        let message = match p.message {
            Some(m) => m,
            None => {
                return Err(VectorError::MissingMessage);
            },
        };
        Ok(DbVector { vector, message, message_id, guild_id })
    }

    /// The payload value that stands for the message's tenant.
    pub fn tenant_key(&self) -> (r: i64)
        ensures
            r == spec_tenant_key(self.guild_id),
    {
        tenant_key(self.guild_id)
    }
}

} // verus!
