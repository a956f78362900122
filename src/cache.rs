//! The process-local cache of local acceleration: store key to the instant
//! until which the key was last known to be limited.
use vstd::prelude::*;

use crate::local::{apply_event, parse_reset_event, MAX_EXPIRY};

verus! {

/// The map that a sequence of entries with distinct keys stands for.
pub open spec fn entries_map(s: Seq<(String, u64)>) -> Map<Seq<char>, int>
    decreases s.len(),
{
    if s.len() == 0 {
        Map::empty()
    } else {
        entries_map(s.drop_last()).insert(s.last().0@, s.last().1 as int)
    }
}

pub open spec fn distinct_keys(s: Seq<(String, u64)>) -> bool {
    forall|i: int, j: int| 0 <= i < j < s.len() ==> s[i].0@ != s[j].0@
}

proof fn lemma_entries_map_index(s: Seq<(String, u64)>, k: Seq<char>)
    requires
        distinct_keys(s),
    ensures
        entries_map(s).contains_key(k) <==> exists|i: int| 0 <= i < s.len() && s[i].0@ == k,
        forall|i: int| 0 <= i < s.len() && s[i].0@ == k ==> entries_map(s)[k] == s[i].1 as int,
    decreases s.len(),
{
    if s.len() > 0 {
        let p = s.drop_last();
        lemma_entries_map_index(p, k);
        if entries_map(s).contains_key(k) && s.last().0@ != k {
            let i = choose|i: int| 0 <= i < p.len() && p[i].0@ == k;
            assert(s[i].0@ == k);
        }
        assert forall|i: int| 0 <= i < s.len() && s[i].0@ == k implies entries_map(s).contains_key(
            k,
        ) by {
            if i < p.len() {
                assert(p[i].0@ == k);
            }
        }
    }
}

proof fn lemma_entries_map_remove(s: Seq<(String, u64)>, j: int)
    requires
        distinct_keys(s),
        0 <= j < s.len(),
    ensures
        distinct_keys(s.remove(j)),
        entries_map(s.remove(j)) == entries_map(s).remove(s[j].0@),
    decreases s.len(),
{
    let k = s[j].0@;
    let p = s.drop_last();
    assert(distinct_keys(s.remove(j)));
    if j == s.len() - 1 {
        assert(s.remove(j) =~= p);
        lemma_entries_map_index(p, k);
        assert(entries_map(s).remove(k) =~= entries_map(p));
    } else {
        lemma_entries_map_remove(p, j);
        assert(s.remove(j).drop_last() =~= p.remove(j));
        assert(s.remove(j).last() == s.last());
        assert(entries_map(s.remove(j)) =~= entries_map(s).remove(k));
    }
}

/// Expiry instants by store key, each key at most once.
///
/// The entries are kept in a vector rather than a `HashMap<String, u64>`:
/// vstd states what a `HashMap` does only for key types known to obey its key
/// model, and `String` is not among them, so over such a map none of the
/// contracts below could be proved.
#[derive(Debug, Clone)]
pub struct LocalCache {
    entries: Vec<(String, u64)>,
}

impl View for LocalCache {
    type V = Map<Seq<char>, int>;

    closed spec fn view(&self) -> Self::V {
        entries_map(self.entries@)
    }
}

impl LocalCache {
    pub closed spec fn wf(&self) -> bool {
        &&& distinct_keys(self.entries@)
        &&& forall|i: int| 0 <= i < self.entries@.len() ==> self.entries@[i].1 <= MAX_EXPIRY
    }

    pub fn new() -> (r: Self)
        ensures
            r.wf(),
            r@ == Map::<Seq<char>, int>::empty(),
    {
        LocalCache { entries: Vec::new() }
    }

    fn position(&self, key: &String) -> (r: Option<usize>)
        requires
            self.wf(),
        ensures
            r matches Some(i) ==> i < self.entries@.len() && self.entries@[i as int].0@ == key@,
            r is None ==> forall|i: int| 0 <= i < self.entries@.len() ==> self.entries@[i].0@ != key@,
    {
        let mut i: usize = 0;
        while i < self.entries.len()
            invariant
                i <= self.entries@.len(),
                forall|j: int| 0 <= j < i ==> self.entries@[j].0@ != key@,
            decreases self.entries@.len() - i,
        {
            if self.entries[i].0 == *key {
                return Some(i);
            }
            i = i + 1;
        }
        None
    }

    /// The expiry cached for `key`, if any.
    pub fn lookup(&self, key: &String) -> (r: Option<u64>)
        requires
            self.wf(),
        ensures
            r.is_some() == self@.contains_key(key@),
            r matches Some(e) ==> e == self@[key@] && e <= MAX_EXPIRY,
    {
        proof {
            lemma_entries_map_index(self.entries@, key@);
        }
        match self.position(key) {
            Some(i) => Some(self.entries[i].1),
            None => None,
        }
    }

    /// Forgets `key`.
    pub fn evict(&mut self, key: &String)
        requires
            old(self).wf(),
        ensures
            final(self).wf(),
            final(self)@ == old(self)@.remove(key@),
    {
        proof {
            lemma_entries_map_index(self.entries@, key@);
        }
        match self.position(key) {
            Some(i) => {
                proof {
                    lemma_entries_map_remove(self.entries@, i as int);
                }
                self.entries.remove(i);
            },
            None => {
                assert(self@.remove(key@) =~= self@);
            },
        }
    }

    /// Caches `expiry` for `key`, replacing what was there.
    pub fn record(&mut self, key: String, expiry: u64)
        requires
            old(self).wf(),
            expiry <= MAX_EXPIRY,
        ensures
            final(self).wf(),
            final(self)@ == old(self)@.insert(key@, expiry as int),
    {
        self.evict(&key);
        let ghost before = self.entries@;
        proof {
            lemma_entries_map_index(before, key@);
        }
        self.entries.push((key, expiry));
        assert(self.entries@.drop_last() =~= before);
        assert(self@ =~= old(self)@.remove(key@).insert(key@, expiry as int));
    }

    /// Handles a message of the invalidation channel: a reset message evicts
    /// the key it names, and any other message is ignored.
    pub fn apply_event(&mut self, msg: &str)
        requires
            old(self).wf(),
        ensures
            final(self).wf(),
            final(self)@ == apply_event(old(self)@, msg@),
    {
        if let Some(key) = parse_reset_event(msg) {
            self.evict(&key);
        }
    }
}

} // verus!
