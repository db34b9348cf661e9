//! Conversation history: roles, turns, the window of recent turns handed to
//! the language model, and an append-only per-channel log.

use vstd::prelude::*;

use crate::text::same_text;

verus! {

/// Who spoke a turn.
#[derive(Clone, Copy, Debug, PartialEq, Eq, Structural)]
pub enum Role {
    System,
    Assistant,
    User,
}

/// The stored spelling of `role`.
pub open spec fn role_name(role: Role) -> Seq<char> {
    match role {
        Role::System => "system"@,
        Role::Assistant => "assistant"@,
        Role::User => "user"@,
    }
}

/// The stored spelling of `role`.
pub fn role_to_string(role: Role) -> (r: String)
    ensures
        r@ == role_name(role),
{
    match role {
        Role::System => String::from_str("system"),
        Role::Assistant => String::from_str("assistant"),
        Role::User => String::from_str("user"),
    }
}

/// The role spelled `s`; `None` where `s` spells none.
pub fn string_to_role(s: &str) -> (r: Option<Role>)
    ensures
        r matches Some(role) ==> role_name(role) == s@,
        r is None ==> forall|role: Role| role_name(role) != s@,
{
    if same_text(s, "system") {
        Some(Role::System)
    } else if same_text(s, "assistant") {
        Some(Role::Assistant)
    } else if same_text(s, "user") {
        Some(Role::User)
    } else {
        assert forall|role: Role| role_name(role) != s@ by {
            match role {
                Role::System => {},
                Role::Assistant => {},
                Role::User => {},
            }
        }
        None
    }
}

/// One message of a conversation as the language model receives it.
#[derive(Debug)]
pub struct ChatMessage {
    pub role: Role,
    pub content: String,
}

impl Clone for ChatMessage {
    fn clone(&self) -> (r: Self)
        ensures
            r == *self,
    {
        ChatMessage { role: self.role, content: self.content.clone() }
    }
}

/// One stored turn of a channel's history.
#[derive(Debug)]
pub struct StoredTurn {
    pub channel_id: i64,
    pub role: Role,
    pub content: String,
    /// Ordering key: later turns have larger values.
    pub created_at: u64,
}

impl Clone for StoredTurn {
    fn clone(&self) -> (r: Self)
        ensures
            r == *self,
    {
        StoredTurn {
            channel_id: self.channel_id,
            role: self.role,
            content: self.content.clone(),
            created_at: self.created_at,
        }
    }
}

/// Why a history operation failed.
#[derive(Clone, Copy, Debug, PartialEq, Eq, Structural)]
pub enum StorageError {
    /// The backing store reported a fault.
    Io,
    /// No ordering key is left for another turn.
    Full,
}

/// The turns are in chronological order: keys never decrease.
pub open spec fn is_chronological(s: Seq<StoredTurn>) -> bool {
    forall|i: int, j: int| 0 <= i < j < s.len() ==> s[i].created_at <= s[j].created_at
}

/// The turns are latest first: keys never increase.
pub open spec fn is_latest_first(s: Seq<StoredTurn>) -> bool {
    forall|i: int, j: int| 0 <= i < j < s.len() ==> s[i].created_at >= s[j].created_at
}

/// The chronological window of the first `limit` turns of a latest-first
/// fetch.
pub open spec fn window(latest_first: Seq<StoredTurn>, limit: nat) -> Seq<StoredTurn> {
    if latest_first.len() <= limit {
        latest_first.reverse()
    } else {
        latest_first.take(limit as int).reverse()
    }
}

/// Turns a fetch of a channel's turns, latest first, into the window of at
/// most `limit` turns in chronological order.
pub fn window_from_latest(latest_first: &Vec<StoredTurn>, limit: usize) -> (r: Vec<StoredTurn>)
    ensures
        r@ == window(latest_first@, limit as nat),
{
    let n = if latest_first.len() <= limit {
        latest_first.len()
    } else {
        limit
    };
    let mut out: Vec<StoredTurn> = Vec::new();
    let mut k: usize = n;
    while k > 0
        invariant
            k <= n <= latest_first@.len(),
            out@.len() == n - k,
            forall|t: int| 0 <= t < n - k ==> out@[t] == latest_first@[n - 1 - t],
        decreases k,
    {
        k = k - 1;
        out.push(latest_first[k].clone());
    }
    assert(out@ =~= window(latest_first@, limit as nat));
    out
}

/// The turns of `s` in channel `ch` (`keep`), or those in any other channel
/// (`!keep`), in their order.
pub open spec fn select(s: Seq<StoredTurn>, ch: i64, keep: bool) -> Seq<StoredTurn>
    decreases s.len(),
{
    if s.len() == 0 {
        seq![]
    } else {
        let rest = select(s.drop_last(), ch, keep);
        if (s.last().channel_id == ch) == keep {
            rest.push(s.last())
        } else {
            rest
        }
    }
}

/// The turns of channel `ch` in `s`.
pub open spec fn of_channel(s: Seq<StoredTurn>, ch: i64) -> Seq<StoredTurn> {
    select(s, ch, true)
}

/// The last `n` elements of `s`, or all of them where there are fewer.
pub open spec fn last_n(s: Seq<StoredTurn>, n: nat) -> Seq<StoredTurn> {
    if s.len() <= n {
        s
    } else {
        s.subrange(s.len() - n, s.len() as int)
    }
}

/// The `n` most recent turns of channel `ch` in `log`, oldest first.
pub open spec fn recent_of(log: Seq<StoredTurn>, ch: i64, n: nat) -> Seq<StoredTurn> {
    last_n(of_channel(log, ch), n)
}

/// `log` with every turn of channel `ch` deleted.
pub open spec fn cleared(log: Seq<StoredTurn>, ch: i64) -> Seq<StoredTurn> {
    select(log, ch, false)
}

/// `after` is `before` with one more turn at its end, of channel `ch`,
/// spoken by `role`, holding `content`.
pub open spec fn appended(
    before: Seq<StoredTurn>,
    after: Seq<StoredTurn>,
    ch: i64,
    role: Role,
    content: Seq<char>,
) -> bool {
    &&& after.len() == before.len() + 1
    &&& after.drop_last() == before
    &&& after.last().channel_id == ch
    &&& after.last().role == role
    &&& after.last().content@ == content
}

/// An append-only log of turns of all channels, with a bounded window
/// read per channel and deletion per channel.
#[derive(Debug)]
pub struct HistoryStore {
    turns: Vec<StoredTurn>,
    next_stamp: u64,
}

impl HistoryStore {
    /// All stored turns, oldest first.
    pub closed spec fn log(&self) -> Seq<StoredTurn> {
        self.turns@
    }

    /// Keys strictly increase along the log and stay below the next key.
    pub closed spec fn wf(&self) -> bool {
        &&& forall|i: int| 0 <= i < self.turns@.len() ==> self.turns@[i].created_at < self.next_stamp
        &&& forall|i: int, j: int|
            0 <= i < j < self.turns@.len() ==> self.turns@[i].created_at
                < self.turns@[j].created_at
    }

    /// Every ordering key has been used: no further turn can be appended.
    pub closed spec fn is_full(&self) -> bool {
        self.next_stamp == u64::MAX
    }

    /// An empty store.
    pub fn new() -> (r: HistoryStore)
        ensures
            r.wf(),
            r.log().len() == 0,
            !r.is_full(),
    {
        HistoryStore { turns: Vec::new(), next_stamp: 0 }
    }

    /// Appends a turn to channel `channel_id`, later than every stored turn.
    pub fn append(&mut self, channel_id: i64, role: Role, content: &str) -> (r: Result<
        (),
        StorageError,
    >)
        requires
            old(self).wf(),
        ensures
            final(self).wf(),
            r is Ok <==> !old(self).is_full(),
            r is Ok || r == Err::<(), StorageError>(StorageError::Full),
            r is Ok ==> appended(old(self).log(), final(self).log(), channel_id, role, content@),
            r is Err ==> final(self).log() == old(self).log(),
    {
        if self.next_stamp == u64::MAX {
            return Err(StorageError::Full);
        }
        let turn = StoredTurn {
            channel_id,
            role,
            content: String::from_str(content),
            created_at: self.next_stamp,
        };
        self.turns.push(turn);
        self.next_stamp = self.next_stamp + 1;
        assert(self.turns@.drop_last() =~= old(self).turns@);
        Ok(())
    }

    /// The at most `limit` most recent turns of `channel_id`, oldest first.
    pub fn recent(&self, channel_id: i64, limit: usize) -> (r: Vec<StoredTurn>)
        requires
            self.wf(),
        ensures
            r@ == recent_of(self.log(), channel_id, limit as nat),
    {
        let n = self.turns.len();
        let mut total: usize = 0;
        let mut i: usize = 0;
        while i < n
            invariant
                n == self.turns@.len(),
                i <= n,
                total as int == of_channel(self.turns@.subrange(0, i as int), channel_id).len(),
                total <= i,
            decreases n - i,
        {
            assert(self.turns@.subrange(0, i + 1).drop_last() =~= self.turns@.subrange(0, i as int));
            if self.turns[i].channel_id == channel_id {
                total = total + 1;
            }
            i = i + 1;
        }
        assert(self.turns@.subrange(0, n as int) =~= self.turns@);
        let skip = if total <= limit {
            0
        } else {
            total - limit
        };
        let mut out: Vec<StoredTurn> = Vec::new();
        let mut seen: usize = 0;
        let mut i: usize = 0;
        while i < n
            invariant
                n == self.turns@.len(),
                i <= n,
                seen as int == of_channel(self.turns@.subrange(0, i as int), channel_id).len(),
                seen <= i,
                out@ == of_channel(self.turns@.subrange(0, i as int), channel_id).subrange(
                    if seen < skip {
                        seen as int
                    } else {
                        skip as int
                    },
                    seen as int,
                ),
            decreases n - i,
        {
            let ghost pre = of_channel(self.turns@.subrange(0, i as int), channel_id);
            assert(self.turns@.subrange(0, i + 1).drop_last() =~= self.turns@.subrange(0, i as int));
            assert(self.turns@.subrange(0, i + 1).last() == self.turns@[i as int]);
            if self.turns[i].channel_id == channel_id {
                if seen >= skip {
                    out.push(self.turns[i].clone());
                }
                seen = seen + 1;
                let ghost post = of_channel(self.turns@.subrange(0, i + 1), channel_id);
                assert(post == pre.push(self.turns@[i as int]));
                if seen > skip {
                    assert(out@ =~= post.subrange(skip as int, seen as int));
                } else {
                    assert(out@ =~= post.subrange(seen as int, seen as int));
                }
            }
            i = i + 1;
        }
        assert(self.turns@.subrange(0, n as int) =~= self.turns@);
        assert(out@ =~= recent_of(self.log(), channel_id, limit as nat));
        out
    }

    /// Deletes every turn of `channel_id`; deleting from an empty history is
    /// no error.
    pub fn clear(&mut self, channel_id: i64)
        requires
            old(self).wf(),
        ensures
            final(self).wf(),
            final(self).log() == cleared(old(self).log(), channel_id),
    {
        let n = self.turns.len();
        let mut kept: Vec<StoredTurn> = Vec::new();
        let mut i: usize = 0;
        while i < n
            invariant
                n == self.turns@.len(),
                i <= n,
                kept@ == cleared(self.turns@.subrange(0, i as int), channel_id),
            decreases n - i,
        {
            assert(self.turns@.subrange(0, i + 1).drop_last() =~= self.turns@.subrange(0, i as int));
            assert(self.turns@.subrange(0, i + 1).last() == self.turns@[i as int]);
            if self.turns[i].channel_id != channel_id {
                kept.push(self.turns[i].clone());
            }
            i = i + 1;
        }
        assert(self.turns@.subrange(0, n as int) =~= self.turns@);
        proof {
            lemma_select_keeps_order(self.turns@, channel_id, false, self.next_stamp);
        }
        self.turns = kept;
    }
}

/// Every turn that `select` keeps comes from `s`, keys below `bound` stay
/// below it, and strictly increasing keys stay strictly increasing.
proof fn lemma_select_keeps_order(s: Seq<StoredTurn>, ch: i64, keep: bool, bound: u64)
    ensures
        forall|i: int| 0 <= i < select(s, ch, keep).len() ==> s.contains(#[trigger] select(s, ch, keep)[i]),
        (forall|i: int| 0 <= i < s.len() ==> s[i].created_at < bound) ==> forall|i: int|
            0 <= i < select(s, ch, keep).len() ==> #[trigger] select(s, ch, keep)[i].created_at < bound,
        (forall|i: int, j: int| 0 <= i < j < s.len() ==> s[i].created_at < s[j].created_at)
            ==> forall|i: int, j: int|
            0 <= i < j < select(s, ch, keep).len() ==> select(s, ch, keep)[i].created_at
                < select(s, ch, keep)[j].created_at,
    decreases s.len(),
{
    if s.len() > 0 {
        let p = s.drop_last();
        lemma_select_keeps_order(p, ch, keep, bound);
        let r = select(p, ch, keep);
        assert forall|i: int| 0 <= i < r.len() implies s.contains(#[trigger] r[i]) by {
            let k = choose|k: int| 0 <= k < p.len() && p[k] == r[i];
            assert(s[k] == r[i]);
        }
        if (forall|i: int, j: int| 0 <= i < j < s.len() ==> s[i].created_at < s[j].created_at) {
            assert forall|i: int, j: int| 0 <= i < j < p.len() implies p[i].created_at
                < p[j].created_at by {
                assert(s[i] == p[i] && s[j] == p[j]);
            }
            assert forall|i: int| 0 <= i < r.len() implies #[trigger] r[i].created_at
                < s.last().created_at by {
                let k = choose|k: int| 0 <= k < p.len() && p[k] == r[i];
                assert(s[k] == r[i]);
            }
        }
        if (forall|i: int| 0 <= i < s.len() ==> s[i].created_at < bound) {
            assert forall|i: int| 0 <= i < p.len() implies p[i].created_at < bound by {
                assert(s[i] == p[i]);
            }
        }
    }
}

/// A read of recent history never returns more than `n` turns, and returns
/// them in chronological order.
pub proof fn recent_is_bounded_and_chronological(h: &HistoryStore, ch: i64, n: nat)
    requires
        h.wf(),
    ensures
        recent_of(h.log(), ch, n).len() <= n,
        is_chronological(recent_of(h.log(), ch, n)),
{
    lemma_select_keeps_order(h.turns@, ch, true, h.next_stamp);
    let f = of_channel(h.log(), ch);
    let r = recent_of(h.log(), ch, n);
    assert forall|i: int, j: int| 0 <= i < j < r.len() implies r[i].created_at
        <= r[j].created_at by {
        if f.len() > n {
            assert(r[i] == f[f.len() - n + i] && r[j] == f[f.len() - n + j]);
        }
    }
}

/// The window made from a latest-first fetch holds at most `n` turns, in
/// chronological order.
pub proof fn window_is_bounded_and_chronological(latest_first: Seq<StoredTurn>, n: nat)
    requires
        is_latest_first(latest_first),
    ensures
        window(latest_first, n).len() <= n,
        is_chronological(window(latest_first, n)),
{
    let w = window(latest_first, n);
    let m = w.len();
    assert forall|i: int, j: int| 0 <= i < j < m implies w[i].created_at <= w[j].created_at by {
        assert(w[i] == latest_first[m - 1 - i] && w[j] == latest_first[m - 1 - j]);
    }
}

/// After clearing a channel, a read of its recent history is empty,
/// whatever the log held; other channels keep their turns.
pub proof fn clear_then_recent_is_empty(log: Seq<StoredTurn>, ch: i64, n: nat)
    ensures
        of_channel(cleared(log, ch), ch).len() == 0,
        recent_of(cleared(log, ch), ch, n).len() == 0,
        forall|d: i64| d != ch ==> of_channel(cleared(log, ch), d) == of_channel(log, d),
    decreases log.len(),
{
    if log.len() > 0 {
        let q = log.drop_last();
        let t = log.last();
        clear_then_recent_is_empty(q, ch, n);
        let c = cleared(log, ch);
        let p = cleared(q, ch);
        if t.channel_id != ch {
            assert(c == p.push(t));
            assert(c.drop_last() =~= p);
            assert(c.last() == t);
        } else {
            assert(c == p);
        }
        assert forall|d: i64| d != ch implies of_channel(c, d) == of_channel(log, d) by {
            assert(of_channel(p, d) == of_channel(q, d));
        }
    }
}

} // verus!
