//! The first decision on every inbound message: is the sender authorized,
//! and is the message a command or a conversational turn.

use vstd::prelude::*;

use crate::text::{blank, is_blank};
use crate::user::{first_named, none_named, position_of, User};

verus! {

/// The reply to a sender who is not in the directory.
pub const ACCESS_DENIED: &'static str = "Access denied";

/// The character that marks a command.
pub const COMMAND_MARKER: char = '/';

/// A message is a command iff it has text whose first character is the
/// marker; an empty text is no command.
pub open spec fn is_command(text: Option<Seq<char>>) -> bool {
    match text {
        Some(t) => t.len() > 0 && t[0] == COMMAND_MARKER,
        None => false,
    }
}

/// The view of an optional string.
pub open spec fn opt_view(text: Option<&str>) -> Option<Seq<char>> {
    match text {
        Some(t) => Some(t@),
        None => None,
    }
}

/// Whether a message with this text (or none) is a command.
pub fn is_command_message(text: Option<&str>) -> (r: bool)
    ensures
        r == is_command(opt_view(text)),
{
    match text {
        Some(t) => t.unicode_len() > 0 && t.get_char(0) == COMMAND_MARKER,
        None => false,
    }
}

/// Where an inbound message goes.
#[derive(Clone, Copy, Debug, PartialEq, Eq, Structural)]
pub enum Route {
    /// The sender is unknown: reply `ACCESS_DENIED` and do nothing else.
    Denied,
    /// A command from the user at this directory position.
    Command(usize),
    /// A conversational message from the user at this directory position.
    Conversation(usize),
}

/// The route of a message from `sender` (who may have no handle) with this
/// text (or none): the sender is resolved first, then the text classified.
pub open spec fn is_route_for(
    users: Seq<User>,
    sender: Option<Seq<char>>,
    text: Option<Seq<char>>,
    r: Route,
) -> bool {
    match sender {
        None => r == Route::Denied,
        Some(name) => if none_named(users, name) {
            r == Route::Denied
        } else {
            match r {
                Route::Denied => false,
                Route::Command(i) => is_command(text) && first_named(users, name, i as int),
                Route::Conversation(i) => !is_command(text) && first_named(users, name, i as int),
            }
        },
    }
}

/// Routes a message: authorizes `sender` against `users`, then tells a
/// command from a conversational message.
pub fn route(users: &Vec<User>, sender: Option<&str>, text: Option<&str>) -> (r: Route)
    ensures
        is_route_for(users@, opt_view(sender), opt_view(text), r),
{
    let name = match sender {
        Some(name) => name,
        None => return Route::Denied,
    };
    match position_of(users, name) {
        None => Route::Denied,
        Some(i) => if is_command_message(text) {
            Route::Command(i)
        } else {
            Route::Conversation(i)
        },
    }
}

/// The content of a conversational message: its text where it has one,
/// else its transcript, else nothing.
pub open spec fn raw_content(text: Option<Seq<char>>, transcript: Option<Seq<char>>) -> Seq<
    char,
> {
    match text {
        Some(t) => t,
        None => match transcript {
            Some(v) => v,
            None => Seq::empty(),
        },
    }
}

/// The content to answer, or `None` where it is blank and the message is
/// dropped.
pub fn select_content(text: Option<&str>, transcript: Option<&str>) -> (r: Option<String>)
    ensures
        r is None <==> is_blank(raw_content(opt_view(text), opt_view(transcript))),
        r matches Some(c) ==> c@ == raw_content(opt_view(text), opt_view(transcript)),
{
    let content: &str = match text {
        Some(t) => t,
        None => match transcript {
            Some(v) => v,
            None => "",
        },
    };
    proof {
        reveal_strlit("");
    }
    if blank(content) {
        None
    } else {
        Some(String::from_str(content))
    }
}

/// Whether the user's channel still has to be recorded: it is recorded
/// once, on the first message.
pub fn needs_channel(user: &User) -> (r: bool)
    ensures
        r == (user.chat_id is None),
{
    user.chat_id.is_none()
}

} // verus!
