//! The persona preamble: two synthetic turns put before the real history so
//! that the model addresses the user as they asked.

use vstd::prelude::*;

use crate::history::{ChatMessage, Role};
use crate::user::User;

verus! {

/// How many synthetic turns come before the history.
pub const PREAMBLE_LEN: usize = 2;

/// The user-voiced instruction, around the name and the form of address.
pub const INSTRUCTION_HEAD: &'static str = "Называй меня ";

pub const INSTRUCTION_MIDDLE: &'static str = ". Говори со мной на ";

pub const INSTRUCTION_TAIL: &'static str = ", как будто мы с тобой давно знакомы";

/// The assistant-voiced acknowledgement, around the name and the form of
/// address.
pub const GREETING_HEAD: &'static str = "Привет, ";

pub const GREETING_MIDDLE: &'static str = "! Конечно, мы можем общаться на '";

pub const GREETING_TAIL: &'static str = "'. Как дела? Чем я могу тебе помочь? Меня зовут Валя";

/// The instruction text for a user called `name` who prefers `form`.
pub open spec fn instruction(name: Seq<char>, form: Seq<char>) -> Seq<char> {
    INSTRUCTION_HEAD@ + name + INSTRUCTION_MIDDLE@ + form + INSTRUCTION_TAIL@
}

/// The acknowledgement text for a user called `name` who prefers `form`.
pub open spec fn greeting(name: Seq<char>, form: Seq<char>) -> Seq<char> {
    GREETING_HEAD@ + name + GREETING_MIDDLE@ + form + GREETING_TAIL@
}

fn framed(head: &str, a: &String, middle: &str, b: &String, tail: &str) -> (r: String)
    ensures
        r@ == head@ + a@ + middle@ + b@ + tail@,
{
    let mut s = String::from_str(head);
    s.append(a.as_str());
    s.append(middle);
    s.append(b.as_str());
    s.append(tail);
    s
}

/// The history for the model: the instruction and the acknowledgement for
/// `user`, then `history` as it was.
pub fn build_history(history: Vec<ChatMessage>, user: &User) -> (r: Vec<ChatMessage>)
    ensures
        r@.len() == history@.len() + PREAMBLE_LEN,
        r@[0].role == Role::User,
        r@[0].content@ == instruction(user.contact_name@, user.contact_form@),
        r@[1].role == Role::Assistant,
        r@[1].content@ == greeting(user.contact_name@, user.contact_form@),
        r@.subrange(PREAMBLE_LEN as int, r@.len() as int) == history@,
{
    let mut history = history;
    let mut out: Vec<ChatMessage> = Vec::new();
    out.push(
        ChatMessage {
            role: Role::User,
            content: framed(
                INSTRUCTION_HEAD,
                &user.contact_name,
                INSTRUCTION_MIDDLE,
                &user.contact_form,
                INSTRUCTION_TAIL,
            ),
        },
    );
    out.push(
        ChatMessage {
            role: Role::Assistant,
            content: framed(
                GREETING_HEAD,
                &user.contact_name,
                GREETING_MIDDLE,
                &user.contact_form,
                GREETING_TAIL,
            ),
        },
    );
    let ghost given = history@;
    out.append(&mut history);
    assert(out@.subrange(2, out@.len() as int) =~= given);
    out
}

} // verus!
