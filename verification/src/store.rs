//! A keyed log of recorded packets: each entry belongs to one proxied
//! connection (its server id) and is keyed by a packet id within it.
//! Entries keep the order in which their keys were first recorded; recording
//! under a key that is already present replaces that entry's value in place.
use vstd::prelude::*;
use crate::common_structs::{Duplicate, Id, IdView};

verus! {

/// One recorded value with the connection and packet id it was recorded under.
pub struct StoreEntry<V> {
    pub server_id: String,
    pub key: Id,
    pub value: V,
}

/// Recorded values keyed by `(server id, packet id)`.
pub struct LogStore<V> {
    entries: Vec<StoreEntry<V>>,
}

/// The entry at position `i` has key `(sid, key)`.
pub open spec fn entry_has_key<V>(s: Seq<StoreEntry<V>>, i: int, sid: Seq<char>, key: IdView) -> bool {
    s[i].server_id@ == sid && s[i].key@ == key
}

/// Some entry has key `(sid, key)`.
pub open spec fn has_key<V>(s: Seq<StoreEntry<V>>, sid: Seq<char>, key: IdView) -> bool {
    exists|i: int| 0 <= i < s.len() && entry_has_key(s, i, sid, key)
}

/// The position of the entry with key `(sid, key)`, when there is one.
pub open spec fn key_index<V>(s: Seq<StoreEntry<V>>, sid: Seq<char>, key: IdView) -> int {
    choose|i: int| 0 <= i < s.len() && entry_has_key(s, i, sid, key)
}

/// No two entries share a key.
pub open spec fn keys_unique<V>(s: Seq<StoreEntry<V>>) -> bool {
    forall|i: int, j: int|
        0 <= i < s.len() && 0 <= j < s.len() && i != j ==> !(#[trigger] s[i].server_id@
            == #[trigger] s[j].server_id@ && s[i].key@ == s[j].key@)
}

/// The value recorded under `(sid, key)`.
pub open spec fn lookup<V>(s: Seq<StoreEntry<V>>, sid: Seq<char>, key: IdView) -> Option<V> {
    if has_key(s, sid, key) {
        Some(s[key_index(s, sid, key)].value)
    } else {
        None
    }
}

/// `new` is `old` after recording `value` under `(server_id, key)`: the entry
/// with that key is replaced in place, or a new entry is appended.
pub open spec fn inserted<V>(
    old: Seq<StoreEntry<V>>,
    new: Seq<StoreEntry<V>>,
    server_id: String,
    key: Id,
    value: V,
) -> bool {
    if has_key(old, server_id@, key@) {
        new == old.update(key_index(old, server_id@, key@), StoreEntry { server_id, key, value })
    } else {
        new == old.push(StoreEntry { server_id, key, value })
    }
}

/// The entries that do not belong to connection `sid`.
pub open spec fn without_server<V>(s: Seq<StoreEntry<V>>, sid: Seq<char>) -> Seq<StoreEntry<V>> {
    s.filter(other_server(sid))
}

/// Entries that do not belong to connection `sid`.
pub open spec fn other_server<V>(sid: Seq<char>) -> spec_fn(StoreEntry<V>) -> bool {
    |e: StoreEntry<V>| e.server_id@ != sid
}

/// With unique keys, the entry found at `i` is the one `key_index` names.
pub proof fn lemma_key_index_unique<V>(s: Seq<StoreEntry<V>>, i: int, sid: Seq<char>, key: IdView)
    requires
        keys_unique(s),
        0 <= i < s.len(),
        entry_has_key(s, i, sid, key),
    ensures
        has_key(s, sid, key),
        key_index(s, sid, key) == i,
        lookup(s, sid, key) == Some(s[i].value),
{
    let k = key_index(s, sid, key);
    assert(0 <= k < s.len() && entry_has_key(s, k, sid, key));
    if k != i {
        assert(s[i].server_id@ == s[k].server_id@);
    }
}

/// Recording keeps keys unique, makes the recorded value the one found under
/// its key, and changes what is found under no other key.
pub proof fn lemma_inserted_lookup<V>(
    old: Seq<StoreEntry<V>>,
    new: Seq<StoreEntry<V>>,
    server_id: String,
    key: Id,
    value: V,
)
    requires
        keys_unique(old),
        inserted(old, new, server_id, key, value),
    ensures
        keys_unique(new),
        lookup(new, server_id@, key@) == Some(value),
        forall|sid: Seq<char>, k: IdView|
            !(sid == server_id@ && k == key@) ==> lookup(new, sid, k) == lookup(old, sid, k),
{
    let sid = server_id@;
    let kv = key@;
    if has_key(old, sid, kv) {
        let p = key_index(old, sid, kv);
        assert(entry_has_key(old, p, sid, kv));
        assert forall|i: int, j: int|
            0 <= i < new.len() && 0 <= j < new.len() && i != j implies !(
            #[trigger] new[i].server_id@ == #[trigger] new[j].server_id@ && new[i].key@
                == new[j].key@) by {
            if i == p {
                assert(old[i].server_id@ == sid && old[i].key@ == kv);
            } else if j == p {
                assert(old[j].server_id@ == sid && old[j].key@ == kv);
            }
        }
        lemma_key_index_unique(new, p, sid, kv);
        assert forall|s2: Seq<char>, k: IdView|
            !(s2 == sid && k == kv) implies lookup(new, s2, k) == lookup(old, s2, k) by {
            if has_key(old, s2, k) {
                let q = key_index(old, s2, k);
                assert(entry_has_key(old, q, s2, k));
                assert(q != p);
                assert(entry_has_key(new, q, s2, k));
                lemma_key_index_unique(new, q, s2, k);
            } else if has_key(new, s2, k) {
                let q = key_index(new, s2, k);
                assert(entry_has_key(new, q, s2, k));
                if q == p {
                    assert(false);
                } else {
                    assert(entry_has_key(old, q, s2, k));
                }
            }
        }
    } else {
        let n = old.len() as int;
        assert forall|i: int, j: int|
            0 <= i < new.len() && 0 <= j < new.len() && i != j implies !(
            #[trigger] new[i].server_id@ == #[trigger] new[j].server_id@ && new[i].key@
                == new[j].key@) by {
            if i == n {
                assert(!entry_has_key(old, j, sid, kv));
            } else if j == n {
                assert(!entry_has_key(old, i, sid, kv));
            }
        }
        lemma_key_index_unique(new, n, sid, kv);
        assert forall|s2: Seq<char>, k: IdView|
            !(s2 == sid && k == kv) implies lookup(new, s2, k) == lookup(old, s2, k) by {
            if has_key(old, s2, k) {
                let q = key_index(old, s2, k);
                assert(entry_has_key(old, q, s2, k));
                assert(entry_has_key(new, q, s2, k));
                lemma_key_index_unique(new, q, s2, k);
            } else if has_key(new, s2, k) {
                let q = key_index(new, s2, k);
                assert(entry_has_key(new, q, s2, k));
                if q == n {
                    assert(false);
                } else {
                    assert(entry_has_key(old, q, s2, k));
                }
            }
        }
    }
}

/// Forgetting a connection twice is forgetting it once.
pub proof fn lemma_without_server_twice<V>(s: Seq<StoreEntry<V>>, sid: Seq<char>)
    ensures
        without_server(without_server(s, sid), sid) == without_server(s, sid),
    decreases s.len(),
{
    reveal(Seq::filter);
    if s.len() > 0 {
        lemma_without_server_twice(s.drop_last(), sid);
        let f = without_server(s.drop_last(), sid);
        if s.last().server_id@ != sid {
            assert(without_server(s, sid) == f.push(s.last()));
            assert(f.push(s.last()).drop_last() =~= f);
        }
    }
}

/// Forgetting connection `sid` changes nothing found under another connection.
pub proof fn lemma_lookup_without_server<V>(s: Seq<StoreEntry<V>>, sid: Seq<char>, other: Seq<char>, key: IdView)
    requires
        keys_unique(s),
        sid != other,
    ensures
        lookup(without_server(s, sid), other, key) == lookup(s, other, key),
{
    let f = without_server(s, sid);
    let pred = other_server::<V>(sid);
    if has_key(s, other, key) {
        let q = key_index(s, other, key);
        assert(entry_has_key(s, q, other, key));
        assert(pred(s[q]));
        s.lemma_filter_contains(pred, q);
        let j = choose|j: int| 0 <= j < f.len() && f[j] == s[q];
        assert(entry_has_key(f, j, other, key));
        let j2 = key_index(f, other, key);
        assert(entry_has_key(f, j2, other, key));
        assert(f.contains(f[j2]));
        s.lemma_filter_contains_rev(pred, f[j2]);
        let m = choose|m: int| 0 <= m < s.len() && s[m] == f[j2];
        lemma_key_index_unique(s, m, other, key);
    } else if has_key(f, other, key) {
        let j2 = key_index(f, other, key);
        assert(entry_has_key(f, j2, other, key));
        assert(f.contains(f[j2]));
        s.lemma_filter_contains_rev(pred, f[j2]);
        let m = choose|m: int| 0 <= m < s.len() && s[m] == f[j2];
        assert(entry_has_key(s, m, other, key));
    }
}

/// Unfolds `without_server` at the last entry.
pub proof fn lemma_without_server_push<V>(s: Seq<StoreEntry<V>>, sid: Seq<char>)
    requires
        s.len() > 0,
    ensures
        without_server(s, sid) == if s.last().server_id@ != sid {
            without_server(s.drop_last(), sid).push(s.last())
        } else {
            without_server(s.drop_last(), sid)
        },
{
    reveal(Seq::filter);
}

impl<V> View for LogStore<V> {
    type V = Seq<StoreEntry<V>>;

    closed spec fn view(&self) -> Seq<StoreEntry<V>> {
        self.entries@
    }
}

impl<V> LogStore<V> {
    /// No two entries share a key.
    #[verifier::type_invariant]
    spec fn inv(&self) -> bool {
        keys_unique(self@)
    }

    /// No two entries of the log share a key. This holds of every log;
    /// calling this makes it known.
    pub fn keys_are_unique(&self)
        ensures
            keys_unique(self@),
    {
        proof {
            use_type_invariant(self);
        }
    }
}

impl<V: Duplicate> LogStore<V> {
    /// An empty log.
    pub fn new() -> (r: LogStore<V>)
        ensures
            r@ == Seq::<StoreEntry<V>>::empty(),
    {
        LogStore { entries: Vec::new() }
    }

    /// The entries, in order.
    pub fn entries(&self) -> (r: &Vec<StoreEntry<V>>)
        ensures
            r@ == self@,
    {
        &self.entries
    }

    /// Position of the entry with key `(server_id, key)`, if any.
    fn find(&self, server_id: &String, key: &Id) -> (r: Option<usize>)
        ensures
            r is Some ==> r->0 < self@.len() && entry_has_key(self@, r->0 as int, server_id@, key@),
            r is None ==> !has_key(self@, server_id@, key@),
    {
        let mut i: usize = 0;
        while i < self.entries.len()
            invariant
                i <= self.entries@.len(),
                self@ == self.entries@,
                forall|m: int| 0 <= m < i ==> !entry_has_key(self@, m, server_id@, key@),
            decreases self.entries@.len() - i,
        {
            let e = &self.entries[i];
            if e.server_id == *server_id && e.key.same_as(key) {
                return Some(i);
            }
            i = i + 1;
        }
        None
    }

    /// Records `value` under `(server_id, key)`, replacing the value already
    /// recorded there.
    pub fn insert(&mut self, server_id: String, key: Id, value: V)
        ensures
            keys_unique(final(self)@),
            inserted(old(self)@, final(self)@, server_id, key, value),
            lookup(final(self)@, server_id@, key@) == Some(value),
            forall|sid: Seq<char>, k: IdView|
                !(sid == server_id@ && k == key@) ==> lookup(final(self)@, sid, k) == lookup(
                    old(self)@,
                    sid,
                    k,
                ),
    {
        proof {
            use_type_invariant(&*self);
        }
        let ghost old_s = self@;
        let ghost sid = server_id;
        let ghost k = key;
        let ghost v = value;
        let found = self.find(&server_id, &key);
        let mut entries: Vec<StoreEntry<V>> = Vec::new();
        std::mem::swap(&mut entries, &mut self.entries);
        match found {
            Some(p) => {
                proof {
                    lemma_key_index_unique(old_s, p as int, server_id@, key@);
                }
                entries.set(p, StoreEntry { server_id, key, value });
            },
            None => {
                entries.push(StoreEntry { server_id, key, value });
            },
        }
        proof {
            lemma_inserted_lookup(old_s, entries@, sid, k, v);
        }
        self.entries = entries;
    }

    /// A copy of the value recorded under `(server_id, key)`.
    pub fn get(&self, server_id: &String, key: &Id) -> (r: Option<V>)
        ensures
            r == lookup(self@, server_id@, key@),
    {
        proof {
            use_type_invariant(self);
        }
        match self.find(server_id, key) {
            Some(p) => {
                proof {
                    lemma_key_index_unique(self@, p as int, server_id@, key@);
                }
                Some(self.entries[p].value.duplicate())
            },
            None => None,
        }
    }

    /// Drops every entry of connection `server_id`.
    pub fn retain_other_servers(&mut self, server_id: &String)
        ensures
            keys_unique(final(self)@),
            final(self)@ == without_server(old(self)@, server_id@),
    {
        proof {
            use_type_invariant(&*self);
        }
        let ghost old_s = self@;
        let ghost sid = server_id@;
        let ghost keep = other_server::<V>(sid);
        let mut kept: Vec<StoreEntry<V>> = Vec::new();
        let ghost mut idx: Seq<int> = Seq::empty();
        let mut i: usize = 0;
        assert(old_s.take(0) =~= Seq::<StoreEntry<V>>::empty());
        while i < self.entries.len()
            invariant
                i <= old_s.len(),
                self@ == old_s,
                sid == server_id@,
                keep == other_server::<V>(sid),
                kept@ == old_s.take(i as int).filter(keep),
                idx.len() == kept@.len(),
                forall|m: int| 0 <= m < idx.len() ==> 0 <= #[trigger] idx[m] < i && kept@[m] == old_s[idx[m]],
                forall|m1: int, m2: int| 0 <= m1 < m2 < idx.len() ==> #[trigger] idx[m1] < #[trigger] idx[m2],
            decreases old_s.len() - i,
        {
            let ghost prev = old_s.take(i as int);
            let ghost next = old_s.take(i + 1);
            assert(next.drop_last() =~= prev);
            assert(next.last() == old_s[i as int]);
            assert(next.filter(keep) == if keep(next.last()) {
                prev.filter(keep).push(next.last())
            } else {
                prev.filter(keep)
            }) by {
                reveal(Seq::filter);
            }
            let e = &self.entries[i];
            if !(e.server_id == *server_id) {
                let copy = StoreEntry {
                    server_id: e.server_id.clone(),
                    key: e.key.duplicate(),
                    value: e.value.duplicate(),
                };
                assert(copy == old_s[i as int]);
                kept.push(copy);
                assert(kept@ == prev.filter(keep).push(next.last()));
                proof {
                    idx = idx.push(i as int);
                }
            }
            else {
                assert(!keep(old_s[i as int]));
            }
            i = i + 1;
        }
        assert(old_s.take(i as int) =~= old_s);
        assert forall|a: int, b: int|
            0 <= a < kept@.len() && 0 <= b < kept@.len() && a != b implies !(
            #[trigger] kept@[a].server_id@ == #[trigger] kept@[b].server_id@ && kept@[a].key@
                == kept@[b].key@) by {
            if a < b {
                assert(idx[a] < idx[b]);
            } else {
                assert(idx[b] < idx[a]);
            }
            assert(old_s[idx[a]].server_id@ == kept@[a].server_id@);
        }
        self.entries = kept;
    }
}

} // verus!
