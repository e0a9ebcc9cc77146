use vstd::prelude::*;

use crate::text::same_text;

verus! {

/// The commands the bot answers.
#[derive(Debug, Clone, Copy, PartialEq, Eq, Structural)]
pub enum CommandKind {
    /// A question answered by a single completion.
    Ask,
    /// A comment on the channel's recent messages, helped by retrieval.
    WeighIn,
}

/// The command a name stands for, if any.
pub fn command_kind(name: &str) -> (r: Option<CommandKind>)
    ensures
        name@ == "ask"@ ==> r == Some(CommandKind::Ask),
        name@ == "weigh-in"@ ==> r == Some(CommandKind::WeighIn),
        name@ != "ask"@ && name@ != "weigh-in"@ ==> r is None,
{
    proof {
        reveal_strlit("ask");
        reveal_strlit("weigh-in");
        assert("ask"@.len() != "weigh-in"@.len());
    }
    if same_text(name, "ask") {
        Some(CommandKind::Ask)
    } else if same_text(name, "weigh-in") {
        Some(CommandKind::WeighIn)
    } else {
        None
    }
}

/// The tenant an observed message is archived under: only a message not
/// written by a bot, and posted in a tenant, is archived.
pub fn archive_tenant(is_bot: bool, guild_id: Option<u64>) -> (r: Option<u64>)
    ensures
        r == (if is_bot {
            None
        } else {
            guild_id
        }),
{
    if is_bot {
        None
    } else {
        guild_id
    }
}

} // verus!
