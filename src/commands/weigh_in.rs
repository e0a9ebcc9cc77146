use vstd::prelude::*;

use crate::context::{
    build_narrative, narrated, narrative_text, self_labelled, times_in_range, AssemblyError,
    HistoryMessage,
};
use crate::llm;
use crate::text::{joined_with, texts};
use crate::llm::engine::checked_completion;
use crate::llm::model::{LlmMessage, SystemMessage, UserMessage};
use crate::vec_db::db_handler::{
    all_readable, close_messages, first_error_is, kept_messages, search_request,
    SearchRequest,
};
use crate::vec_db::vector::{spec_tenant_key, Embedding, RetrievedPoint, VectorError};
use crate::vec_db::{DB_TOP_K, DB_VEC_LENGTH};

verus! {

/// Why the `weigh-in` command could not comment.
#[derive(Debug, PartialEq, Eq)]
pub enum Error {
    /// The channel's recent messages could not be read.
    GetChannelFailed(String),
    /// The language model failed or gave no answer.
    LlmError(llm::error::Error),
    /// The vector store could not be searched.
    VectorDB(VectorError),
    /// The command was not run inside a tenant, as in a direct message.
    MissingGuildID,
    /// The history gave nothing to comment on.
    Context(AssemblyError),
    /// The configured history length is more than the platform hands out at once.
    HistoryLimitTooLarge,
}

/// Opening of the block of retrieved messages in the system prompt.
pub const RETRIEVED_INTRO: &'static str = "Using RAG retrieval, the following messages may or may not contain relevant information of messages that were sent in the past.\nRETRIEVED_MESSAGES\n";

/// Close of the block of retrieved messages in the system prompt.
pub const RETRIEVED_OUTRO: &'static str = "\nEND_OF_RETRIEVED_MESSAGES";

/// The block that presents retrieved messages to the model; none when
/// nothing was retrieved.
pub open spec fn retrieved_block(ms: Seq<Seq<char>>) -> Option<Seq<char>> {
    if ms.len() == 0 {
        None
    } else {
        Some(RETRIEVED_INTRO@ + joined_with(ms, "\n"@) + RETRIEVED_OUTRO@)
    }
}

/// The system message: the configured prompt, a newline, then the block of
/// retrieved messages if there is one.
pub open spec fn system_text(system_prompt: Seq<char>, ms: Seq<Seq<char>>) -> Seq<char> {
    system_prompt + "\n"@ + match retrieved_block(ms) {
        Some(b) => b,
        None => Seq::empty(),
    }
}

/// A conversation of exactly one system message with the given text,
/// first, and then the narrative.
pub open spec fn is_context(messages: Seq<LlmMessage>, system: Seq<char>, narrative: UserMessage) -> bool {
    &&& messages.len() == 2
    &&& messages[0] matches LlmMessage::SystemMessage(s) && s.content@ == system
    &&& messages[1] == LlmMessage::UserMessage(narrative)
}

/// The block that presents retrieved messages to the model, or `None` when
/// there are none.
pub fn generate_relevant_message_prompt(messages: Vec<String>) -> (r: Option<String>)
    ensures
        match retrieved_block(texts(messages@)) {
            Some(b) => r matches Some(t) && t@ == b,
            None => r is None,
        },
{
    let n = messages.len();
    if n == 0 {
        return None;
    }
    let ghost ms = texts(messages@);
    let mut body = String::new();
    let mut i: usize = 0;
    while i < n
        invariant
            i <= n == messages.len(),
            ms == texts(messages@),
            body@ == joined_with(ms.take(i as int), "\n"@),
        decreases n - i,
    {
        assert(ms.take(i + 1).drop_last() =~= ms.take(i as int));
        if i > 0 {
            body.append("\n");
        }
        body.append(messages[i].as_str());
        i = i + 1;
        assert(ms.take(i as int).last() == ms[i - 1]);
        if i == 1 {
            assert(body@ =~= joined_with(ms.take(i as int), "\n"@));
        }
    }
    assert(ms.take(n as int) =~= ms);
    let mut text = String::from_str(RETRIEVED_INTRO);
    text.append(body.as_str());
    text.append(RETRIEVED_OUTRO);
    Some(text)
}

/// The conversation sent to the model: one system message first, with the
/// configured prompt and the retrieved messages, then the narrative.
pub fn compose_context(system_prompt: &str, relevant: Vec<String>, narrative: UserMessage) -> (r:
    Vec<LlmMessage>)
    ensures
        is_context(r@, system_text(system_prompt@, texts(relevant@)), narrative),
{
    let mut content = String::from_str(system_prompt);
    content.append("\n");
    match generate_relevant_message_prompt(relevant) {
        Some(block) => content.append(block.as_str()),
        None => {},
    }
    let system = LlmMessage::from(SystemMessage { content });
    let user = LlmMessage::from(narrative);
    let mut r: Vec<LlmMessage> = Vec::new();
    r.push(system);
    r.push(user);
    r
}

/// A `weigh-in` command about to read the channel's history. Its stages
/// follow one another strictly: history, embedding of the narrative, search
/// of the tenant's archive, completion; a failure at any stage ends it.
pub struct WeighIn {
    pub system_prompt: String,
    pub guild_id: u64,
    /// How many recent messages to read.
    pub history_limit: u8,
}

/// Waiting for the embedding of the narrative.
pub struct EmbedStage {
    pub system_prompt: String,
    pub guild_id: u64,
    pub narrative: UserMessage,
}

/// Waiting for the store to run `request`.
pub struct SearchStage {
    pub system_prompt: String,
    pub guild_id: u64,
    pub narrative: UserMessage,
    pub request: SearchRequest,
}

/// Waiting for the model to answer `messages`.
pub struct ChatStage {
    pub messages: Vec<LlmMessage>,
}

impl WeighIn {
    /// A `weigh-in` command run in a tenant; it needs one, and a history
    /// length the platform can hand out at once.
    pub fn new(system_prompt: String, guild_id: Option<u64>, max_message_count: usize) -> (r: Result<
        WeighIn,
        Error,
    >)
        ensures
            guild_id is None ==> r == Err::<WeighIn, Error>(Error::MissingGuildID),
            guild_id is Some && max_message_count >= 256 ==> r == Err::<WeighIn, Error>(
                Error::HistoryLimitTooLarge,
            ),
            guild_id is Some && max_message_count < 256 ==> (r matches Ok(w) && w.system_prompt@
                == system_prompt@ && w.guild_id == guild_id->0 && w.history_limit
                == max_message_count),
    {
        let guild_id = match guild_id {
            Some(g) => g,
            None => {
                return Err(Error::MissingGuildID);
            },
        };
        if max_message_count >= 256 {
            return Err(Error::HistoryLimitTooLarge);
        }
        Ok(WeighIn { system_prompt, guild_id, history_limit: max_message_count as u8 })
    }

    /// The next stage once the history, newest first, was read or not.
    pub fn with_history(self, history: core::result::Result<Vec<HistoryMessage>, String>) -> (r:
        Result<EmbedStage, Error>)
        ensures
            match history {
                Err(s) => r == Err::<EmbedStage, Error>(Error::GetChannelFailed(s)),
                Ok(h) => {
                    let told = narrated(self_labelled(h@));
                    &&& told.len() == 0 ==> r == Err::<EmbedStage, Error>(
                        Error::Context(AssemblyError::MissingContext),
                    )
                    &&& told.len() > 0 && !times_in_range(h@) ==> r == Err::<EmbedStage, Error>(
                        Error::Context(AssemblyError::InvalidTimestamp),
                    )
                    &&& told.len() > 0 && times_in_range(h@) ==> (r matches Ok(st)
                        && st.narrative.content@ == narrative_text(self_labelled(h@))
                        && st.system_prompt == self.system_prompt && st.guild_id == self.guild_id)
                },
            },
    {
        let h = match history {
            Ok(h) => h,
            Err(s) => {
                return Err(Error::GetChannelFailed(s));
            },
        };
        match build_narrative(&h) {
            Ok(narrative) => Ok(
                EmbedStage { system_prompt: self.system_prompt, guild_id: self.guild_id, narrative },
            ),
            Err(e) => Err(Error::Context(e)),
        }
    }
}

impl EmbedStage {
    /// The next stage once the narrative was embedded or not; an embedding
    /// not of the store's dimension never reaches the store.
    pub fn with_embedding(self, embedding: llm::error::Result<Embedding>) -> (r: Result<
        SearchStage,
        Error,
    >)
        ensures
            match embedding {
                Err(e) => r == Err::<SearchStage, Error>(Error::LlmError(e)),
                Ok(v) => if v.len() == DB_VEC_LENGTH {
                    r matches Ok(st) && st.request.vector@ == v@ && st.request.tenant_key
                        == spec_tenant_key(self.guild_id) && st.request.limit == DB_TOP_K
                        && st.system_prompt == self.system_prompt && st.narrative
                        == self.narrative && st.guild_id == self.guild_id
                } else {
                    r == Err::<SearchStage, Error>(
                        Error::VectorDB(
                            VectorError::WrongDimension { expected: DB_VEC_LENGTH, found: v.len() },
                        ),
                    )
                },
            },
    {
        let v = match embedding {
            Ok(v) => v,
            Err(e) => {
                return Err(Error::LlmError(e));
            },
        };
        match search_request(v, self.guild_id) {
            Ok(request) => Ok(
                SearchStage {
                    system_prompt: self.system_prompt,
                    guild_id: self.guild_id,
                    narrative: self.narrative,
                    request,
                },
            ),
            Err(e) => Err(Error::VectorDB(e)),
        }
    }
}

impl SearchStage {
    /// The next stage once the search ran or not: the tenant's retrieved
    /// texts join the system prompt.
    pub fn with_points(self, points: core::result::Result<Vec<RetrievedPoint>, String>) -> (r:
        Result<ChatStage, Error>)
        ensures
            match points {
                Err(s) => r == Err::<ChatStage, Error>(Error::VectorDB(VectorError::Store(s))),
                Ok(ps) => {
                    &&& all_readable(ps@) ==> (r matches Ok(st) && is_context(
                        st.messages@,
                        system_text(self.system_prompt@, kept_messages(ps@, self.guild_id)),
                        self.narrative,
                    ))
                    &&& r matches Ok(st) ==> all_readable(ps@) && is_context(
                        st.messages@,
                        system_text(self.system_prompt@, kept_messages(ps@, self.guild_id)),
                        self.narrative,
                    )
                    &&& r matches Err(Error::VectorDB(e)) ==> first_error_is(ps@, e)
                    &&& r matches Err(e) ==> e is VectorDB
                },
            },
    {
        let ps = match points {
            Ok(ps) => ps,
            Err(s) => {
                return Err(Error::VectorDB(VectorError::Store(s)));
            },
        };
        match close_messages(&ps, self.guild_id) {
            Ok(relevant) => {
                let messages = compose_context(
                    self.system_prompt.as_str(),
                    relevant,
                    self.narrative,
                );
                Ok(ChatStage { messages })
            },
            Err(e) => Err(Error::VectorDB(e)),
        }
    }
}

impl ChatStage {
    /// The command's reply once the model answered or not; an empty answer
    /// is an error, never a reply.
    pub fn with_completion(self, completion: llm::error::Result<String>) -> (r: Result<String, Error>)
        ensures
            match completion {
                Ok(a) => if a@.len() == 0 {
                    r == Err::<String, Error>(
                        Error::LlmError(llm::error::Error::EmptyResponseError),
                    )
                } else {
                    r == Ok::<String, Error>(a)
                },
                Err(e) => r == Err::<String, Error>(Error::LlmError(e)),
            },
    {
        match checked_completion(completion) {
            Ok(a) => Ok(a),
            Err(e) => Err(Error::LlmError(e)),
        }
    }
}

} // verus!
