//! Authorized users and the in-memory directory that holds them.

use vstd::prelude::*;

use crate::text::same_text;

verus! {

/// One authorized user and the preferences that shape the replies.
#[derive(Debug)]
pub struct User {
    /// The messaging handle; the key that lookups match exactly.
    pub user_name: String,
    /// The conversation channel, known once the user has written.
    pub chat_id: Option<i64>,
    /// How the assistant addresses the user.
    pub contact_name: String,
    /// The form of address (formal or informal) the user prefers.
    pub contact_form: String,
    /// Whether replies go out as synthesized speech.
    pub is_voice: bool,
}

impl Clone for User {
    fn clone(&self) -> (r: Self)
        ensures
            r == *self,
    {
        User {
            user_name: self.user_name.clone(),
            chat_id: self.chat_id,
            contact_name: self.contact_name.clone(),
            contact_form: self.contact_form.clone(),
            is_voice: self.is_voice,
        }
    }
}

/// `i` is the position of the first user in `users` named `name`.
pub open spec fn first_named(users: Seq<User>, name: Seq<char>, i: int) -> bool {
    &&& 0 <= i < users.len()
    &&& users[i].user_name@ == name
    &&& forall|j: int| 0 <= j < i ==> users[j].user_name@ != name
}

/// No user in `users` is named `name`.
pub open spec fn none_named(users: Seq<User>, name: Seq<char>) -> bool {
    forall|j: int| 0 <= j < users.len() ==> users[j].user_name@ != name
}

/// The position of the first user named `username`; names match exactly,
/// case included.
pub fn position_of(users: &Vec<User>, username: &str) -> (r: Option<usize>)
    ensures
        r matches Some(i) ==> first_named(users@, username@, i as int),
        r is None ==> none_named(users@, username@),
{
    let mut i: usize = 0;
    while i < users.len()
        invariant
            i <= users@.len(),
            forall|j: int| 0 <= j < i ==> users@[j].user_name@ != username@,
        decreases users@.len() - i,
    {
        if same_text(users[i].user_name.as_str(), username) {
            return Some(i);
        }
        i = i + 1;
    }
    None
}

/// The first user named `username`, if any.
pub fn find_user_by_username<'a>(users: &'a Vec<User>, username: &str) -> (r: Option<&'a User>)
    ensures
        r matches Some(u) ==> exists|i: int|
            first_named(users@, username@, i) && *u == #[trigger] users@[i],
        r is None ==> none_named(users@, username@),
{
    match position_of(users, username) {
        Some(i) => Some(&users[i]),
        None => None,
    }
}

/// The snapshot of authorized users that every exchange reads. A reload
/// replaces the whole list at once.
#[derive(Debug)]
pub struct State {
    pub users: Vec<User>,
}

impl State {
    /// A directory with no users.
    pub fn new() -> (r: State)
        ensures
            r.users@.len() == 0,
    {
        State { users: Vec::new() }
    }

    /// Replaces the snapshot with `users`, whole.
    pub fn reload(&mut self, users: Vec<User>)
        ensures
            final(self).users@ == users@,
    {
        self.users = users;
    }

    /// The first user named `username`, if any.
    pub fn find(&self, username: &str) -> (r: Option<&User>)
        ensures
            r matches Some(u) ==> exists|i: int|
                first_named(self.users@, username@, i) && *u == #[trigger] self.users@[i],
            r is None ==> none_named(self.users@, username@),
    {
        find_user_by_username(&self.users, username)
    }
}

} // verus!
