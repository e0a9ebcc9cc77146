use vstd::prelude::*;

verus! {

/// Text written by a user, or a block of user messages put together.
pub struct UserMessage {
    pub content: String,
}

/// Text produced by the model.
pub struct AssistantMessage {
    pub content: String,
}

/// Instructions that frame the whole conversation.
pub struct SystemMessage {
    pub content: String,
}

/// A role-tagged message as the provider expects it: the variant is the
/// `role` field on the wire.
pub enum LlmMessage {
    UserMessage(UserMessage),
    AssistantMessage(AssistantMessage),
    SystemMessage(SystemMessage),
}

/// A conversation, oldest message first.
pub type LlmChat = Vec<LlmMessage>;

impl LlmMessage {
    pub open spec fn spec_content(&self) -> Seq<char> {
        match self {
            LlmMessage::UserMessage(m) => m.content@,
            LlmMessage::AssistantMessage(m) => m.content@,
            LlmMessage::SystemMessage(m) => m.content@,
        }
    }

    pub open spec fn spec_role(&self) -> Seq<char> {
        match self {
            LlmMessage::UserMessage(_) => seq!['u', 's', 'e', 'r'],
            LlmMessage::AssistantMessage(_) => seq!['a', 's', 's', 'i', 's', 't', 'a', 'n', 't'],
            LlmMessage::SystemMessage(_) => seq!['s', 'y', 's', 't', 'e', 'm'],
        }
    }

    /// The text the message carries.
    pub fn content(&self) -> (r: &str)
        ensures
            r@ == self.spec_content(),
    {
        match self {
            LlmMessage::UserMessage(m) => m.content.as_str(),
            LlmMessage::AssistantMessage(m) => m.content.as_str(),
            LlmMessage::SystemMessage(m) => m.content.as_str(),
        }
    }

    /// The value of the `role` field that the provider reads.
    pub fn role(&self) -> (r: &'static str)
        ensures
            r@ == self.spec_role(),
    {
        proof {
            reveal_strlit("user");
            reveal_strlit("assistant");
            reveal_strlit("system");
        }
        match self {
            LlmMessage::UserMessage(_) => "user",
            LlmMessage::AssistantMessage(_) => "assistant",
            LlmMessage::SystemMessage(_) => "system",
        }
    }
}

impl From<AssistantMessage> for LlmMessage {
    fn from(value: AssistantMessage) -> (r: Self) {
        LlmMessage::AssistantMessage(value)
    }
}

impl vstd::std_specs::convert::FromSpecImpl<AssistantMessage> for LlmMessage {
    open spec fn obeys_from_spec() -> bool {
        true
    }

    open spec fn from_spec(v: AssistantMessage) -> Self {
        LlmMessage::AssistantMessage(v)
    }
}

impl From<UserMessage> for LlmMessage {
    fn from(value: UserMessage) -> (r: Self) {
        LlmMessage::UserMessage(value)
    }
}

impl vstd::std_specs::convert::FromSpecImpl<UserMessage> for LlmMessage {
    open spec fn obeys_from_spec() -> bool {
        true
    }

    open spec fn from_spec(v: UserMessage) -> Self {
        LlmMessage::UserMessage(v)
    }
}

impl From<SystemMessage> for LlmMessage {
    fn from(value: SystemMessage) -> (r: Self) {
        LlmMessage::SystemMessage(value)
    }
}

impl vstd::std_specs::convert::FromSpecImpl<SystemMessage> for LlmMessage {
    open spec fn obeys_from_spec() -> bool {
        true
    }

    open spec fn from_spec(v: SystemMessage) -> Self {
        LlmMessage::SystemMessage(v)
    }
}

} // verus!
