use vstd::prelude::*;

verus! {

pub type Result<T> = core::result::Result<T, Error>;

/// What can go wrong between the bot and the language-model provider.
#[derive(Debug, PartialEq, Eq)]
pub enum Error {
    /// The HTTP client could not be set up.
    HTTPClientBuildFailed(String),
    /// The request did not reach the provider or got no answer.
    HTTPRequestFailed(String),
    /// The answer could not be read as the expected document.
    HTTPResponseParseFailed(String),
    /// The embedding the provider answered with is not of the store's dimension.
    EmbeddingFailed { expected: u64, found: usize },
    /// The provider answered with no text at all.
    EmptyResponseError,
}

} // verus!
