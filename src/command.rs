//! Administrative commands: parsing a command message and deciding what it
//! does. Carrying the decision out (storage, sends) is left to the caller.

use vstd::prelude::*;

use crate::text::{decimal, join_words, joined, push_decimal, same_text, split_words, views, words};
use crate::user::User;

verus! {

/// The help text listing the commands.
pub const HELP_TEXT: &'static str = "These commands are supported:\n\n/help — display this text.\n/new — New conversation\n/text — Text responses\n/voice — Voice responses\n/broadcast — Broadcast message";

/// Reply to `new`.
pub const NEW_CONVERSATION_REPLY: &'static str = "New conversation started";

/// Reply to `text`.
pub const TEXT_MODE_REPLY: &'static str = "Text responses enabled";

/// Reply to `voice`.
pub const VOICE_MODE_REPLY: &'static str = "Voice responses enabled";

/// First part of the reply to `broadcast`, before the count.
pub const BROADCAST_REPLY_HEAD: &'static str = "Message successfully broadcaster for ";

/// Last part of the reply to `broadcast`, after the count.
pub const BROADCAST_REPLY_TAIL: &'static str = " users!";

/// The commands a user can give.
#[derive(Clone, Copy, Debug, PartialEq, Eq, Structural)]
pub enum Command {
    Help,
    New,
    Text,
    Voice,
    Broadcast,
}

/// The command spelled `name`, in lower case.
pub open spec fn command_named(name: Seq<char>) -> Option<Command> {
    if name == "help"@ {
        Some(Command::Help)
    } else if name == "new"@ {
        Some(Command::New)
    } else if name == "text"@ {
        Some(Command::Text)
    } else if name == "voice"@ {
        Some(Command::Voice)
    } else if name == "broadcast"@ {
        Some(Command::Broadcast)
    } else {
        None
    }
}

impl Command {
    /// The command spelled `s`; `None` for any other word.
    pub fn from_str(s: &str) -> (r: Option<Command>)
        ensures
            r == command_named(s@),
    {
        if same_text(s, "help") {
            Some(Command::Help)
        } else if same_text(s, "new") {
            Some(Command::New)
        } else if same_text(s, "text") {
            Some(Command::Text)
        } else if same_text(s, "voice") {
            Some(Command::Voice)
        } else if same_text(s, "broadcast") {
            Some(Command::Broadcast)
        } else {
            None
        }
    }
}

/// What a command message asks for.
#[derive(Debug)]
pub enum CommandAction {
    /// Send this text back.
    Reply(String),
    /// Delete the history of the sender's channel, then send `reply`.
    ClearHistory { reply: String },
    /// Store the sender's voice preference, reload the directory, then
    /// send `reply`.
    SetVoice { enabled: bool, reply: String },
    /// Send this text to every user with a known channel, then report the
    /// count.
    Broadcast(String),
    /// Unknown or empty command: nothing is sent.
    Ignore,
}

/// The words after the command marker.
pub open spec fn command_words(text: Seq<char>) -> Seq<Seq<char>> {
    words(text.subrange(1, text.len() as int))
}

/// `r` is what the command message `text` asks for: the first word after
/// the marker names the command, and `broadcast` sends the remaining words
/// joined by single spaces.
pub open spec fn is_action_for(text: Seq<char>, r: CommandAction) -> bool {
    let ws = command_words(text);
    if ws.len() == 0 {
        r is Ignore
    } else {
        match command_named(ws[0]) {
            None => r is Ignore,
            Some(Command::Help) => r matches CommandAction::Reply(m) && m@ == HELP_TEXT@,
            Some(Command::New) => r matches CommandAction::ClearHistory { reply } && reply@
                == NEW_CONVERSATION_REPLY@,
            Some(Command::Text) => r matches CommandAction::SetVoice { enabled, reply } && !enabled
                && reply@ == TEXT_MODE_REPLY@,
            Some(Command::Voice) => r matches CommandAction::SetVoice { enabled, reply } && enabled
                && reply@ == VOICE_MODE_REPLY@,
            Some(Command::Broadcast) => r matches CommandAction::Broadcast(m) && m@ == joined(
                ws.subrange(1, ws.len() as int),
            ),
        }
    }
}

/// Decides what the command message `text` asks for. Its first character
/// is the command marker.
pub fn plan_command(text: &str) -> (r: CommandAction)
    requires
        text@.len() > 0,
    ensures
        is_action_for(text@, r),
{
    let n = text.unicode_len();
    let line = text.substring_char(1, n);
    let ws = split_words(line);
    if ws.len() == 0 {
        return CommandAction::Ignore;
    }
    assert(views(ws@)[0] == ws@[0]@);
    match Command::from_str(ws[0].as_str()) {
        None => CommandAction::Ignore,
        Some(Command::Help) => CommandAction::Reply(String::from_str(HELP_TEXT)),
        Some(Command::New) => CommandAction::ClearHistory {
            reply: String::from_str(NEW_CONVERSATION_REPLY),
        },
        Some(Command::Text) => CommandAction::SetVoice {
            enabled: false,
            reply: String::from_str(TEXT_MODE_REPLY),
        },
        Some(Command::Voice) => CommandAction::SetVoice {
            enabled: true,
            reply: String::from_str(VOICE_MODE_REPLY),
        },
        Some(Command::Broadcast) => {
            let m = join_words(&ws, 1);
            assert(views(ws@.subrange(1, ws@.len() as int)) =~= views(ws@).subrange(
                1,
                ws@.len() as int,
            ));
            CommandAction::Broadcast(m)
        },
    }
}

/// The known channels of `users`, in directory order; users without one
/// are skipped.
pub open spec fn channels(users: Seq<User>) -> Seq<i64>
    decreases users.len(),
{
    if users.len() == 0 {
        seq![]
    } else {
        let rest = channels(users.drop_last());
        match users.last().chat_id {
            Some(c) => rest.push(c),
            None => rest,
        }
    }
}

/// The channels a broadcast goes to.
pub fn broadcast_recipients(users: &Vec<User>) -> (r: Vec<i64>)
    ensures
        r@ == channels(users@),
{
    let mut out: Vec<i64> = Vec::new();
    let mut i: usize = 0;
    while i < users.len()
        invariant
            i <= users@.len(),
            out@ == channels(users@.subrange(0, i as int)),
        decreases users@.len() - i,
    {
        assert(users@.subrange(0, i + 1).drop_last() =~= users@.subrange(0, i as int));
        match users[i].chat_id {
            Some(c) => out.push(c),
            None => {},
        }
        i = i + 1;
    }
    assert(users@.subrange(0, users@.len() as int) =~= users@);
    out
}

/// The reply that reports how many users a broadcast reached.
pub fn broadcast_summary(count: u64) -> (r: String)
    ensures
        r@ == BROADCAST_REPLY_HEAD@ + decimal(count as nat) + BROADCAST_REPLY_TAIL@,
{
    let mut out = String::from_str(BROADCAST_REPLY_HEAD);
    push_decimal(&mut out, count);
    out.append(BROADCAST_REPLY_TAIL);
    out
}

} // verus!
