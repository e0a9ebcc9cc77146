use vstd::prelude::*;

use crate::llm;
use crate::llm::engine::checked_completion;

verus! {

/// Why the `ask` command could not answer.
#[derive(Debug, PartialEq, Eq)]
pub enum Error {
    Unanswerable,
    /// The command came without its question.
    MissingQuestion,
    /// The language model gave no answer.
    LlmEngineCompletionFailed(llm::error::Error),
}

impl From<llm::error::Error> for Error {
    fn from(value: llm::error::Error) -> (r: Self) {
        Error::LlmEngineCompletionFailed(value)
    }
}

impl vstd::std_specs::convert::FromSpecImpl<llm::error::Error> for Error {
    open spec fn obeys_from_spec() -> bool {
        true
    }

    open spec fn from_spec(v: llm::error::Error) -> Self {
        Error::LlmEngineCompletionFailed(v)
    }
}

/// The reply to a question: the question, set apart, above the answer.
pub open spec fn reply_text(question: Seq<char>, answer: Seq<char>) -> Seq<char> {
    "**Question**: *"@ + question + "*\n"@ + answer
}

/// The prompt sent for a question: the question itself, which must be there.
pub fn ask_prompt(question: Option<String>) -> (r: Result<String, Error>)
    ensures
        match question {
            Some(q) => r matches Ok(p) && p@ == q@,
            None => r == Err::<String, Error>(Error::MissingQuestion),
        },
{
    match question {
        Some(q) => Ok(q),
        None => Err(Error::MissingQuestion),
    }
}

/// The reply to a question, from what the completion call gave back; an
/// empty answer is an error, never a reply.
pub fn ask_reply(question: &str, completion: llm::error::Result<String>) -> (r: Result<String, Error>)
    ensures
        match completion {
            Ok(a) => if a@.len() == 0 {
                r == Err::<String, Error>(
                    Error::LlmEngineCompletionFailed(llm::error::Error::EmptyResponseError),
                )
            } else {
                r matches Ok(t) && t@ == reply_text(question@, a@)
            },
            Err(e) => r == Err::<String, Error>(Error::LlmEngineCompletionFailed(e)),
        },
{
    match checked_completion(completion) {
        Ok(answer) => {
            let mut text = String::from_str("**Question**: *");
            text.append(question);
            text.append("*\n");
            text.append(answer.as_str());
            Ok(text)
        },
        Err(e) => Err(Error::from(e)),
    }
}

} // verus!
