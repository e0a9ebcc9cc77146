use vstd::prelude::*;

use super::error::{Error, Result};
use crate::environment::LlmOptions;
use crate::vec_db::DB_VEC_LENGTH;

verus! {

/// Model used when the configuration names none.
pub const DEFAULT_MODEL: &'static str = "llama3";

/// Provider address used when the configuration names none.
pub const DEFAULT_BASE_URL: &'static str = "http://localhost:11434/api/generate";

/// Seed of every free-text completion, so that answers can be reproduced.
pub const COMPLETION_SEED: u64 = 123;

/// Top-k sampling bound of every free-text completion.
pub const COMPLETION_TOP_K: u64 = 20;

/// Seconds after which a call to the provider fails.
pub const REQUEST_TIMEOUT_SECS: u64 = 60;

/// The resolved settings of the language-model client.
pub struct LlmSettings {
    pub base_url: String,
    pub model: String,
    pub embed_model: String,
}

pub open spec fn or_default(o: Option<String>, d: Seq<char>) -> Seq<char> {
    match o {
        Some(s) => s@,
        None => d,
    }
}

impl LlmSettings {
    /// Settings from the configuration, with the defaults filled in.
    pub fn new(options: &LlmOptions) -> (r: LlmSettings)
        ensures
            r.model@ == or_default(options.model, DEFAULT_MODEL@),
            r.base_url@ == or_default(options.base_url, DEFAULT_BASE_URL@),
            r.embed_model@ == options.embed_model@,
    {
        let model = match &options.model {
            Some(m) => m.clone(),
            None => String::from_str(DEFAULT_MODEL),
        };
        let base_url = match &options.base_url {
            Some(u) => u.clone(),
            None => String::from_str(DEFAULT_BASE_URL),
        };
        LlmSettings { base_url, model, embed_model: options.embed_model.clone() }
    }

    /// Address of the embedding endpoint.
    pub fn embed_url(&self) -> (r: String)
        ensures
            r@ == self.base_url@ + "/embed"@,
    {
        self.base_url.clone().concat("/embed")
    }

    /// Address of the free-text completion endpoint.
    pub fn generate_url(&self) -> (r: String)
        ensures
            r@ == self.base_url@ + "/generate"@,
    {
        self.base_url.clone().concat("/generate")
    }

    /// Address of the multi-message completion endpoint.
    pub fn chat_url(&self) -> (r: String)
        ensures
            r@ == self.base_url@ + "/chat"@,
    {
        self.base_url.clone().concat("/chat")
    }
}

/// What a completion call yields once an empty answer is ruled out: an
/// empty text is never an answer.
pub fn checked_completion(outcome: Result<String>) -> (r: Result<String>)
    ensures
        match outcome {
            Ok(text) => if text@.len() == 0 {
                r == Err::<String, Error>(Error::EmptyResponseError)
            } else {
                r == Ok::<String, Error>(text)
            },
            Err(e) => r == Err::<String, Error>(e),
        },
{
    match outcome {
        Ok(text) => {
            if text.as_str().is_empty() {
                Err(Error::EmptyResponseError)
            } else {
                Ok(text)
            }
        },
        Err(e) => Err(e),
    }
}

/// What an embedding call yields once its length is checked: an embedding
/// whose length is not the store's dimension is a failed embedding.
pub fn checked_embedding(outcome: Result<Vec<u32>>) -> (r: Result<Vec<u32>>)
    ensures
        match outcome {
            Ok(v) => if v.len() == DB_VEC_LENGTH {
                r == Ok::<Vec<u32>, Error>(v)
            } else {
                r == Err::<Vec<u32>, Error>(
                    Error::EmbeddingFailed { expected: DB_VEC_LENGTH, found: v.len() },
                )
            },
            Err(e) => r == Err::<Vec<u32>, Error>(e),
        },
{
    match outcome {
        Ok(v) => {
            if v.len() as u64 == DB_VEC_LENGTH {
                Ok(v)
            } else {
                let found = v.len();
                Err(Error::EmbeddingFailed { expected: DB_VEC_LENGTH, found })
            }
        },
        Err(e) => Err(e),
    }
}

} // verus!
