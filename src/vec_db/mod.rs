pub mod db_handler;
pub mod vector;

use vstd::prelude::*;

verus! {

/// Name of the collection that holds the archived messages.
pub const DB_COLLECTION_NAME: &'static str = "messages";

/// Length of every embedding, shared by the embedding model and the store.
pub const DB_VEC_LENGTH: u64 = 1024;

/// Most archived messages a search hands back.
pub const DB_TOP_K: u64 = 10;

} // verus!
