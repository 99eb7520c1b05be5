//! The bounded connection table: a key/value store from `ConnKey` to
//! `ConnMetrics` with a capacity fixed at creation.
//!
//! Entries are kept in insertion order with unique keys. An insert of a new
//! key into a full table fails and leaves the table as it was: there is no
//! eviction.

use vstd::prelude::*;
use crate::layout::{ConnKey, ConnMetrics};

verus! {

/// Capacity of the table the probes write into.
pub const MAX_CONNECTIONS: usize = 10240;

/// Status of an insert of a new key into a full table.
pub const ERR_TABLE_FULL: i64 = -7;

/// Status of a removal of a key that is not in the table.
pub const ERR_NO_ENTRY: i64 = -2;

/// The keys of `s` are pairwise distinct.
pub open spec fn keys_unique(s: Seq<(ConnKey, ConnMetrics)>) -> bool {
    forall|i: int, j: int| 0 <= i < j < s.len() ==> s[i].0 != s[j].0
}

/// The map that a list of entries with distinct keys stands for.
pub open spec fn map_of(s: Seq<(ConnKey, ConnMetrics)>) -> Map<ConnKey, ConnMetrics>
    decreases s.len(),
{
    if s.len() == 0 {
        Map::empty()
    } else {
        map_of(s.drop_last()).insert(s.last().0, s.last().1)
    }
}

/// `k` is the key of some entry of `s`.
pub open spec fn has_key(s: Seq<(ConnKey, ConnMetrics)>, k: ConnKey) -> bool {
    exists|i: int| 0 <= i < s.len() && s[i].0 == k
}

proof fn lemma_map_of_domain(s: Seq<(ConnKey, ConnMetrics)>, k: ConnKey)
    ensures
        map_of(s).contains_key(k) <==> has_key(s, k),
        map_of(s).dom().finite(),
    decreases s.len(),
{
    if s.len() > 0 {
        let p = s.drop_last();
        lemma_map_of_domain(p, k);
        if has_key(p, k) {
            let i = choose|i: int| 0 <= i < p.len() && p[i].0 == k;
            assert(s[i].0 == k);
        }
        if has_key(s, k) && s.last().0 != k {
            let i = choose|i: int| 0 <= i < s.len() && s[i].0 == k;
            assert(p[i].0 == k);
        }
    }
}

proof fn lemma_map_of_index(s: Seq<(ConnKey, ConnMetrics)>, i: int)
    requires
        keys_unique(s),
        0 <= i < s.len(),
    ensures
        map_of(s).contains_key(s[i].0),
        map_of(s)[s[i].0] == s[i].1,
    decreases s.len(),
{
    if i < s.len() - 1 {
        let p = s.drop_last();
        assert(p[i] == s[i]);
        lemma_map_of_index(p, i);
    }
}

proof fn lemma_map_of_len(s: Seq<(ConnKey, ConnMetrics)>)
    requires
        keys_unique(s),
    ensures
        map_of(s).dom().finite(),
        map_of(s).dom().len() == s.len(),
    decreases s.len(),
{
    if s.len() > 0 {
        let p = s.drop_last();
        lemma_map_of_len(p);
        lemma_map_of_domain(p, s.last().0);
        if has_key(p, s.last().0) {
            let i = choose|i: int| 0 <= i < p.len() && p[i].0 == s.last().0;
            assert(s[i].0 == s[s.len() - 1].0);
        }
    }
}

proof fn lemma_map_of_update(s: Seq<(ConnKey, ConnMetrics)>, i: int, v: ConnMetrics)
    requires
        keys_unique(s),
        0 <= i < s.len(),
    ensures
        keys_unique(s.update(i, (s[i].0, v))),
        map_of(s.update(i, (s[i].0, v))) == map_of(s).insert(s[i].0, v),
    decreases s.len(),
{
    let t = s.update(i, (s[i].0, v));
    let k = s[i].0;
    if i == s.len() - 1 {
        assert(t.drop_last() =~= s.drop_last());
        assert(map_of(t) =~= map_of(s).insert(k, v));
    } else {
        let p = s.drop_last();
        assert(p[i] == s[i]);
        lemma_map_of_update(p, i, v);
        assert(t.drop_last() =~= p.update(i, (k, v)));
        assert(s.last().0 != k);
        assert(map_of(t) =~= map_of(s).insert(k, v));
    }
}

proof fn lemma_map_of_push(s: Seq<(ConnKey, ConnMetrics)>, k: ConnKey, v: ConnMetrics)
    requires
        keys_unique(s),
        !has_key(s, k),
    ensures
        keys_unique(s.push((k, v))),
        map_of(s.push((k, v))) == map_of(s).insert(k, v),
{
    assert(s.push((k, v)).drop_last() =~= s);
}

proof fn lemma_map_of_remove(s: Seq<(ConnKey, ConnMetrics)>, i: int)
    requires
        keys_unique(s),
        0 <= i < s.len(),
    ensures
        keys_unique(s.remove(i)),
        map_of(s.remove(i)) == map_of(s).remove(s[i].0),
    decreases s.len(),
{
    let t = s.remove(i);
    let k = s[i].0;
    let p = s.drop_last();
    if i == s.len() - 1 {
        assert(t =~= p);
        lemma_map_of_domain(p, k);
        if has_key(p, k) {
            let j = choose|j: int| 0 <= j < p.len() && p[j].0 == k;
            assert(s[j].0 == k);
        }
        assert(map_of(t) =~= map_of(s).remove(k));
    } else {
        assert(p[i] == s[i]);
        lemma_map_of_remove(p, i);
        assert(t.drop_last() =~= p.remove(i));
        assert(t.last() == s.last());
        assert(s.last().0 != k);
        assert(map_of(t) =~= map_of(s).remove(k));
    }
}

/// A bounded table of per-connection counters.
pub struct ConnTable {
    entries: Vec<(ConnKey, ConnMetrics)>,
    max_entries: usize,
}

impl View for ConnTable {
    type V = Map<ConnKey, ConnMetrics>;

    closed spec fn view(&self) -> Map<ConnKey, ConnMetrics> {
        map_of(self.entries@)
    }
}

impl ConnTable {
    /// The capacity the table was created with.
    pub closed spec fn capacity(&self) -> nat {
        self.max_entries as nat
    }

    /// Keys are unique, the table is within its capacity, and every record
    /// satisfies the record invariant.
    pub closed spec fn wf(&self) -> bool {
        &&& keys_unique(self.entries@)
        &&& self.entries@.len() <= self.max_entries
        &&& forall|i: int| 0 <= i < self.entries@.len() ==> (#[trigger] self.entries@[i]).1.wf()
    }

    proof fn lemma_wf_view(&self)
        requires
            self.wf(),
        ensures
            self@.dom().finite(),
            self@.dom().len() == self.entries@.len(),
            self@.dom().len() <= self.capacity(),
            forall|k: ConnKey| #[trigger] self@.contains_key(k) ==> self@[k].wf(),
    {
        lemma_map_of_len(self.entries@);
        assert forall|k: ConnKey| #[trigger] self@.contains_key(k) implies self@[k].wf() by {
            lemma_map_of_domain(self.entries@, k);
            let i = choose|i: int| 0 <= i < self.entries@.len() && self.entries@[i].0 == k;
            lemma_map_of_index(self.entries@, i);
        }
    }

    /// The table invariant as seen through the view: finitely many entries,
    /// no more than the capacity, each record well formed.
    pub proof fn lemma_view_wf(&self)
        requires
            self.wf(),
        ensures
            self@.dom().finite(),
            self@.dom().len() <= self.capacity(),
            forall|k: ConnKey| #[trigger] self@.contains_key(k) ==> self@[k].wf(),
    {
        self.lemma_wf_view();
    }

    /// An empty table holding at most `max_entries` connections.
    pub fn with_max_entries(max_entries: usize) -> (r: ConnTable)
        ensures
            r.wf(),
            r@ == Map::<ConnKey, ConnMetrics>::empty(),
            r.capacity() == max_entries,
    {
        ConnTable { entries: Vec::new(), max_entries }
    }

    /// An empty table with the probes' capacity, `MAX_CONNECTIONS`.
    pub fn new() -> (r: ConnTable)
        ensures
            r.wf(),
            r@ == Map::<ConnKey, ConnMetrics>::empty(),
            r.capacity() == MAX_CONNECTIONS,
    {
        ConnTable::with_max_entries(MAX_CONNECTIONS)
    }

    /// Number of connections in the table.
    pub fn len(&self) -> (r: usize)
        requires
            self.wf(),
        ensures
            r == self@.dom().len(),
    {
        proof {
            self.lemma_wf_view();
        }
        self.entries.len()
    }

    /// Capacity of the table.
    pub fn max_entries(&self) -> (r: usize)
        ensures
            r == self.capacity(),
    {
        self.max_entries
    }

    fn find(&self, key: &ConnKey) -> (r: Option<usize>)
        requires
            self.wf(),
        ensures
            match r {
                Some(i) => i < self.entries@.len() && self.entries@[i as int].0 == *key,
                None => !has_key(self.entries@, *key),
            },
    {
        let mut i: usize = 0;
        while i < self.entries.len()
            invariant
                i <= self.entries@.len(),
                forall|j: int| 0 <= j < i ==> self.entries@[j].0 != *key,
            decreases self.entries@.len() - i,
        {
            if self.entries[i].0 == *key {
                return Some(i);
            }
            i = i + 1;
        }
        None
    }

    /// Point lookup: a copy of the record stored under `key`, if any.
    pub fn get(&self, key: &ConnKey) -> (r: Option<ConnMetrics>)
        requires
            self.wf(),
        ensures
            r == (if self@.contains_key(*key) {
                Some(self@[*key])
            } else {
                None::<ConnMetrics>
            }),
    {
        proof {
            lemma_map_of_domain(self.entries@, *key);
        }
        match self.find(key) {
            Some(i) => {
                proof {
                    lemma_map_of_index(self.entries@, i as int);
                }
                Some(self.entries[i].1)
            },
            None => None,
        }
    }

    /// Whether `key` is in the table.
    pub fn contains_key(&self, key: &ConnKey) -> (r: bool)
        requires
            self.wf(),
        ensures
            r == self@.contains_key(*key),
    {
        proof {
            lemma_map_of_domain(self.entries@, *key);
        }
        self.find(key).is_some()
    }

    /// Insert-or-update. An existing key gets the new record; a new key is
    /// added when the table has room. A new key in a full table is refused
    /// with `ERR_TABLE_FULL`, and the table is left unchanged.
    pub fn insert(&mut self, key: &ConnKey, value: &ConnMetrics) -> (r: Result<(), i64>)
        requires
            old(self).wf(),
            value.wf(),
        ensures
            final(self).wf(),
            final(self).capacity() == old(self).capacity(),
            r is Ok <==> (old(self)@.contains_key(*key) || old(self)@.dom().len() < old(self).capacity()),
            r is Ok ==> final(self)@ == old(self)@.insert(*key, *value),
            r is Err ==> r == Err::<(), i64>(ERR_TABLE_FULL) && final(self)@ == old(self)@,
    {
        proof {
            self.lemma_wf_view();
            lemma_map_of_domain(self.entries@, *key);
        }
        match self.find(key) {
            Some(i) => {
                proof {
                    lemma_map_of_update(self.entries@, i as int, *value);
                }
                self.entries.set(i, (*key, *value));
                Ok(())
            },
            None => {
                if self.entries.len() < self.max_entries {
                    proof {
                        lemma_map_of_push(self.entries@, *key, *value);
                    }
                    self.entries.push((*key, *value));
                    Ok(())
                } else {
                    Err(ERR_TABLE_FULL)
                }
            },
        }
    }

    /// Update in place: replaces the record of a key already in the table
    /// and returns `true`; a key not in the table is left absent and `false`
    /// is returned.
    pub fn update(&mut self, key: &ConnKey, value: &ConnMetrics) -> (r: bool)
        requires
            old(self).wf(),
            value.wf(),
        ensures
            final(self).wf(),
            final(self).capacity() == old(self).capacity(),
            r == old(self)@.contains_key(*key),
            r ==> final(self)@ == old(self)@.insert(*key, *value),
            !r ==> final(self)@ == old(self)@,
    {
        proof {
            lemma_map_of_domain(self.entries@, *key);
        }
        match self.find(key) {
            Some(i) => {
                proof {
                    lemma_map_of_update(self.entries@, i as int, *value);
                }
                self.entries.set(i, (*key, *value));
                true
            },
            None => false,
        }
    }

    /// Removes the entry of `key`. A key not in the table gives
    /// `ERR_NO_ENTRY` and leaves the table unchanged.
    pub fn remove(&mut self, key: &ConnKey) -> (r: Result<(), i64>)
        requires
            old(self).wf(),
        ensures
            final(self).wf(),
            final(self).capacity() == old(self).capacity(),
            final(self)@ == old(self)@.remove(*key),
            r is Ok <==> old(self)@.contains_key(*key),
            r is Err ==> r == Err::<(), i64>(ERR_NO_ENTRY),
    {
        proof {
            lemma_map_of_domain(self.entries@, *key);
        }
        match self.find(key) {
            Some(i) => {
                proof {
                    lemma_map_of_remove(self.entries@, i as int);
                }
                self.entries.remove(i);
                Ok(())
            },
            None => {
                assert(self@ =~= self@.remove(*key));
                Err(ERR_NO_ENTRY)
            },
        }
    }

    /// A point-in-time copy of every entry, one per key.
    pub fn snapshot(&self) -> (r: Vec<(ConnKey, ConnMetrics)>)
        requires
            self.wf(),
        ensures
            keys_unique(r@),
            r@.len() == self@.dom().len(),
            map_of(r@) == self@,
            forall|i: int|
                0 <= i < r@.len() ==> self@.contains_key(#[trigger] r@[i].0) && self@[r@[i].0]
                    == r@[i].1,
            forall|k: ConnKey| self@.contains_key(k) <==> #[trigger] has_key(r@, k),
    {
        proof {
            self.lemma_wf_view();
            assert forall|i: int| 0 <= i < self.entries@.len() implies self@.contains_key(
                #[trigger] self.entries@[i].0,
            ) && self@[self.entries@[i].0] == self.entries@[i].1 by {
                lemma_map_of_index(self.entries@, i);
            }
            assert forall|k: ConnKey| self@.contains_key(k) <==> #[trigger] has_key(
                self.entries@,
                k,
            ) by {
                lemma_map_of_domain(self.entries@, k);
            }
        }
        let mut out: Vec<(ConnKey, ConnMetrics)> = Vec::new();
        let mut i: usize = 0;
        while i < self.entries.len()
            invariant
                i <= self.entries@.len(),
                out@ =~= self.entries@.subrange(0, i as int),
            decreases self.entries@.len() - i,
        {
            out.push(self.entries[i]);
            i = i + 1;
        }
        assert(out@ =~= self.entries@);
        out
    }
}

} // verus!
