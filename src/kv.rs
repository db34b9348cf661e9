//! A string key-value table: setting a key replaces its value, reading a
//! missing key is an error.

use vstd::prelude::*;

use crate::text::same_text;

verus! {

/// Why a read failed.
#[derive(Clone, Copy, Debug, PartialEq, Eq, Structural)]
pub enum KeyError {
    NotFound,
}

/// Key-value pairs, each key at most once.
#[derive(Debug)]
pub struct KeyStore {
    entries: Vec<(String, String)>,
}

/// Entry `i` of `e` holds key `k`.
pub open spec fn holds_key(e: Seq<(String, String)>, i: int, k: Seq<char>) -> bool {
    0 <= i < e.len() && e[i].0@ == k
}

impl View for KeyStore {
    type V = Map<Seq<char>, Seq<char>>;

    closed spec fn view(&self) -> Map<Seq<char>, Seq<char>> {
        Map::new(
            |k: Seq<char>| exists|i: int| holds_key(self.entries@, i, k),
            |k: Seq<char>| self.entries@[choose|i: int| holds_key(self.entries@, i, k)].1@,
        )
    }
}

impl KeyStore {
    /// No key occurs twice.
    pub closed spec fn wf(&self) -> bool {
        forall|i: int, j: int|
            0 <= i < self.entries@.len() && 0 <= j < self.entries@.len() && #[trigger] self.entries@[i].0@
                == #[trigger] self.entries@[j].0@ ==> i == j
    }

    /// An empty table.
    pub fn new() -> (r: KeyStore)
        ensures
            r.wf(),
            r@ == Map::<Seq<char>, Seq<char>>::empty(),
    {
        let r = KeyStore { entries: Vec::new() };
        assert(r@ =~= Map::<Seq<char>, Seq<char>>::empty());
        r
    }

    proof fn lemma_value_at(&self, i: int)
        requires
            self.wf(),
            0 <= i < self.entries@.len(),
        ensures
            self@.contains_key(self.entries@[i].0@),
            self@[self.entries@[i].0@] == self.entries@[i].1@,
    {
        let k = self.entries@[i].0@;
        assert(holds_key(self.entries@, i, k));
        let j = choose|j: int| holds_key(self.entries@, j, k);
        assert(self.entries@[j].0@ == self.entries@[i].0@);
    }

    fn position(&self, key: &str) -> (r: Option<usize>)
        ensures
            r matches Some(i) ==> holds_key(self.entries@, i as int, key@),
            r is None ==> forall|i: int| !holds_key(self.entries@, i, key@),
    {
        let mut i: usize = 0;
        while i < self.entries.len()
            invariant
                i <= self.entries@.len(),
                forall|j: int| 0 <= j < i ==> !holds_key(self.entries@, j, key@),
            decreases self.entries@.len() - i,
        {
            if same_text(self.entries[i].0.as_str(), key) {
                return Some(i);
            }
            i = i + 1;
        }
        None
    }
}

/// Sets `key` to `value`, replacing any value it had.
pub fn set_key(store: &mut KeyStore, key: &str, value: &str)
    requires
        old(store).wf(),
    ensures
        final(store).wf(),
        final(store)@ == old(store)@.insert(key@, value@),
{
    let ghost before = *store;
    let entry = (String::from_str(key), String::from_str(value));
    let ghost mut at: int = 0;
    match store.position(key) {
        Some(i) => {
            store.entries.set(i, entry);
            proof {
                at = i as int;
            }
            assert forall|a: int, b: int|
                0 <= a < store.entries@.len() && 0 <= b < store.entries@.len()
                    && #[trigger] store.entries@[a].0@ == #[trigger] store.entries@[b].0@ implies a
                == b by {
                if a != i as int && b != i as int {
                    assert(before.entries@[a] == store.entries@[a]);
                    assert(before.entries@[b] == store.entries@[b]);
                }
                if a == i as int && b != i as int {
                    assert(before.entries@[b] == store.entries@[b]);
                }
                if b == i as int && a != i as int {
                    assert(before.entries@[a] == store.entries@[a]);
                }
            }
        },
        None => {
            store.entries.push(entry);
            let ghost n: int = store.entries@.len() - 1;
            proof {
                at = n;
            }
            assert forall|a: int, b: int|
                0 <= a < store.entries@.len() && 0 <= b < store.entries@.len()
                    && #[trigger] store.entries@[a].0@ == #[trigger] store.entries@[b].0@ implies a
                == b by {
                if a < n && b < n {
                    assert(before.entries@[a] == store.entries@[a]);
                    assert(before.entries@[b] == store.entries@[b]);
                } else if a < n {
                    assert(before.entries@[a] == store.entries@[a]);
                    assert(holds_key(before.entries@, a, key@));
                } else if b < n {
                    assert(before.entries@[b] == store.entries@[b]);
                    assert(holds_key(before.entries@, b, key@));
                }
            }
        },
    }
    let ghost after = *store;
    assert forall|k: Seq<char>| #[trigger] after@.contains_key(k) == old(store)@.insert(
        key@,
        value@,
    ).contains_key(k) by {
        if after@.contains_key(k) {
            let j = choose|j: int| holds_key(after.entries@, j, k);
            if k != key@ {
                assert(after.entries@[j] == before.entries@[j]);
                assert(holds_key(before.entries@, j, k));
            }
        } else {
            if old(store)@.insert(key@, value@).contains_key(k) {
                if k == key@ {
                    assert(holds_key(after.entries@, at, k));
                } else {
                    let j = choose|j: int| holds_key(before.entries@, j, k);
                    assert(j < after.entries@.len() && after.entries@[j] == before.entries@[j]);
                    assert(holds_key(after.entries@, j, k));
                }
            }
        }
    }
    assert forall|k: Seq<char>| #[trigger] after@.contains_key(k) implies after@[k]
        == old(store)@.insert(key@, value@)[k] by {
        let j = choose|j: int| holds_key(after.entries@, j, k);
        after.lemma_value_at(j);
        if k != key@ {
            assert(after.entries@[j] == before.entries@[j]);
            before.lemma_value_at(j);
        }
    }
    assert(after@ =~= old(store)@.insert(key@, value@));
}

/// The value of `key`, or `NotFound` where the table has none.
pub fn get_key(store: &KeyStore, key: &String) -> (r: Result<String, KeyError>)
    requires
        store.wf(),
    ensures
        store@.contains_key(key@) ==> (r matches Ok(v) && v@ == store@[key@]),
        !store@.contains_key(key@) ==> r == Err::<String, KeyError>(KeyError::NotFound),
{
    match store.position(key.as_str()) {
        Some(i) => {
            proof {
                store.lemma_value_at(i as int);
            }
            Ok(store.entries[i].1.clone())
        },
        None => Err(KeyError::NotFound),
    }
}

} // verus!
