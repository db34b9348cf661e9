//! The outcome of one conversational exchange: what the completion returned
//! and what goes into history and out to the user.

use vstd::prelude::*;

use crate::history::{
    appended, recent_of, ChatMessage, HistoryStore, Role, StorageError, StoredTurn,
};
use crate::persona::{build_history, greeting, instruction, PREAMBLE_LEN};
use crate::reply::{is_delivery_of, plan_delivery, Delivery, APOLOGY};
use crate::text::views;
use crate::user::User;

verus! {

/// Why a completion failed.
#[derive(Clone, Copy, Debug, PartialEq, Eq, Structural)]
pub enum CompletionError {
    /// The backend returned no candidate reply.
    NoChoice,
    /// The network or the backend failed.
    TransportError,
    /// A credential is missing.
    InvalidConfiguration,
}

/// The reply among the candidates the backend returned: the first one.
pub fn first_choice(choices: &Vec<String>) -> (r: Result<String, CompletionError>)
    ensures
        choices@.len() == 0 ==> r == Err::<String, CompletionError>(CompletionError::NoChoice),
        choices@.len() > 0 ==> (r matches Ok(c) && c@ == views(choices@)[0]),
{
    if choices.len() == 0 {
        Err(CompletionError::NoChoice)
    } else {
        Ok(choices[0].clone())
    }
}

/// What follows a completion.
#[derive(Debug)]
pub struct ReplyPlan {
    /// The assistant turn to record in history, if any.
    pub assistant_turn: Option<String>,
    /// What the user receives.
    pub delivery: Delivery,
}

/// Decides what follows a completion: a reply is recorded and delivered
/// (spoken where `voice` holds and it is no code listing); a failure is
/// recorded nowhere and answered with one apology.
pub fn plan_reply(outcome: &Result<String, CompletionError>, voice: bool) -> (r: ReplyPlan)
    ensures
        outcome matches Ok(c) ==> (r.assistant_turn matches Some(t) && t@ == c@ && is_delivery_of(
            c@,
            voice,
            r.delivery,
        )),
        outcome is Err ==> r.assistant_turn is None,
        outcome is Err ==> (r.delivery matches Delivery::Text(t) && t@ == APOLOGY@),
{
    match outcome {
        Ok(content) => ReplyPlan {
            assistant_turn: Some(content.clone()),
            delivery: plan_delivery(content.as_str(), voice),
        },
        Err(_) => ReplyPlan {
            assistant_turn: None,
            delivery: Delivery::Text(String::from_str(APOLOGY)),
        },
    }
}

/// How many recent turns of a channel go to the model.
pub const HISTORY_WINDOW: usize = 10;

/// `m` carries the role and the text of `t`.
pub open spec fn is_message_of(m: ChatMessage, t: StoredTurn) -> bool {
    m.role == t.role && m.content@ == t.content@
}

/// `r` carries the role and text of each turn of `turns`, in order.
pub open spec fn are_messages_of(r: Seq<ChatMessage>, turns: Seq<StoredTurn>) -> bool {
    r.len() == turns.len() && forall|i: int| 0 <= i < r.len() ==> is_message_of(
        #[trigger] r[i],
        turns[i],
    )
}

/// The turns as messages for the model.
pub fn to_messages(turns: &Vec<StoredTurn>) -> (r: Vec<ChatMessage>)
    ensures
        are_messages_of(r@, turns@),
{
    let mut out: Vec<ChatMessage> = Vec::new();
    let mut i: usize = 0;
    while i < turns.len()
        invariant
            i <= turns@.len(),
            are_messages_of(out@, turns@.subrange(0, i as int)),
        decreases turns@.len() - i,
    {
        out.push(ChatMessage { role: turns[i].role, content: turns[i].content.clone() });
        i = i + 1;
    }
    assert(turns@.subrange(0, turns@.len() as int) =~= turns@);
    out
}

/// `r` is the request for `user`: the persona preamble, then the recent
/// turns of the channel.
pub open spec fn is_request_for(r: Seq<ChatMessage>, user: User, turns: Seq<StoredTurn>) -> bool {
    &&& r.len() == turns.len() + PREAMBLE_LEN
    &&& r[0].role == Role::User
    &&& r[0].content@ == instruction(user.contact_name@, user.contact_form@)
    &&& r[1].role == Role::Assistant
    &&& r[1].content@ == greeting(user.contact_name@, user.contact_form@)
    &&& are_messages_of(r.subrange(PREAMBLE_LEN as int, r.len() as int), turns)
}

/// Records the user's turn `content` in channel `channel_id`, then builds
/// the request for the model: the preamble for `user` and the channel's
/// `HISTORY_WINDOW` most recent turns. Where the turn cannot be recorded
/// the request is built all the same.
pub fn prepare_request(
    store: &mut HistoryStore,
    channel_id: i64,
    user: &User,
    content: &str,
) -> (r: Vec<ChatMessage>)
    requires
        old(store).wf(),
    ensures
        final(store).wf(),
        !old(store).is_full() ==> appended(
            old(store).log(),
            final(store).log(),
            channel_id,
            Role::User,
            content@,
        ),
        old(store).is_full() ==> final(store).log() == old(store).log(),
        is_request_for(
            r@,
            *user,
            recent_of(final(store).log(), channel_id, HISTORY_WINDOW as nat),
        ),
{
    let _ = store.append(channel_id, Role::User, content);
    let turns = store.recent(channel_id, HISTORY_WINDOW);
    let messages = to_messages(&turns);
    let ghost given = messages@;
    let r = build_history(messages, user);
    assert(r@.subrange(PREAMBLE_LEN as int, r@.len() as int) == given);
    r
}

/// Records the assistant turn of `plan`, if it has one, in channel
/// `channel_id`.
pub fn record_reply(
    store: &mut HistoryStore,
    channel_id: i64,
    plan: &ReplyPlan,
) -> (r: Result<(), StorageError>)
    requires
        old(store).wf(),
    ensures
        final(store).wf(),
        plan.assistant_turn is None ==> final(store).log() == old(store).log() && r is Ok,
        plan.assistant_turn matches Some(t) ==> (r is Ok ==> appended(
            old(store).log(),
            final(store).log(),
            channel_id,
            Role::Assistant,
            t@,
        )),
        r is Err <==> (plan.assistant_turn is Some && old(store).is_full()),
        r is Err ==> final(store).log() == old(store).log(),
{
    match &plan.assistant_turn {
        Some(t) => store.append(channel_id, Role::Assistant, t.as_str()),
        None => Ok(()),
    }
}

} // verus!
