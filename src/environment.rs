use vstd::prelude::*;

verus! {

/// Settings the bot runs with, loaded once at start.
pub struct Environment {
    pub discord_token: String,
    pub bot_name: String,
    pub llm: LlmOptions,
    pub memory: MemoryOptions,
    pub vdb: VectorDBOptions,
}

/// Where the language model lives and how it is prompted.
pub struct LlmOptions {
    pub model: Option<String>,
    pub base_url: Option<String>,
    pub system_prompt: String,
    pub embed_model: String,
}

/// Where the vector store lives.
pub struct VectorDBOptions {
    pub base_url: String,
}

/// How much recent history a command reads.
pub struct MemoryOptions {
    pub max_message_count: usize,
}

impl MemoryOptions {
    /// The history limit as the platform takes it, a count below 256;
    /// `None` when the configured count does not fit.
    pub fn history_limit(&self) -> (r: Option<u8>)
        ensures
            self.max_message_count < 256 ==> r == Some(self.max_message_count as u8),
            self.max_message_count >= 256 ==> r is None,
    {
        if self.max_message_count < 256 {
            Some(self.max_message_count as u8)
        } else {
            None
        }
    }
}

} // verus!
