//! The current status of every monitored node, by node id.

use vstd::prelude::*;
use crate::health::vec_chars_eq;
use crate::text::chars_of;

verus! {

/// The node ids of the entries, in order.
pub open spec fn entry_ids<S>(s: Seq<(String, S)>) -> Seq<Seq<char>> {
    s.map_values(|e: (String, S)| e.0@)
}

/// The map the entries stand for: each id to its entry's status (a later entry wins).
pub open spec fn entries_map<S>(s: Seq<(String, S)>) -> Map<Seq<char>, S>
    decreases s.len(),
{
    if s.len() == 0 {
        Map::empty()
    } else {
        entries_map(s.drop_last()).insert(s.last().0@, s.last().1)
    }
}

/// Status of all nodes, keyed by node id; one status per id.
pub struct NodeStatusBuffer<S> {
    entries: Vec<(String, S)>,
}

impl<S> View for NodeStatusBuffer<S> {
    type V = Map<Seq<char>, S>;

    closed spec fn view(&self) -> Map<Seq<char>, S> {
        entries_map(self.entries@)
    }
}

impl<S> NodeStatusBuffer<S> {
    /// No id occurs twice.
    #[verifier::type_invariant]
    spec fn ids_distinct(&self) -> bool {
        entry_ids(self.entries@).no_duplicates()
    }

    /// The ids of the buffer, in the order `statuses` gives their statuses.
    pub closed spec fn ids(&self) -> Seq<Seq<char>> {
        entry_ids(self.entries@)
    }

    /// An empty buffer.
    pub fn new() -> (b: NodeStatusBuffer<S>)
        ensures
            b@ == Map::<Seq<char>, S>::empty(),
    {
        NodeStatusBuffer { entries: Vec::new() }
    }

    /// The index of the entry for `id`, if there is one.
    fn find(&self, id: &str) -> (r: Option<usize>)
        ensures
            match r {
                Some(i) => i < self.entries@.len() && self.entries@[i as int].0@ == id@,
                None => !entry_ids(self.entries@).contains(id@),
            },
    {
        let k = chars_of(id);
        let mut i: usize = 0;
        while i < self.entries.len()
            invariant
                i <= self.entries@.len(),
                k@ == id@,
                forall|j: int| 0 <= j < i ==> (#[trigger] self.entries@[j]).0@ != id@,
            decreases self.entries.len() - i,
        {
            let name = chars_of(self.entries[i].0.as_str());
            if vec_chars_eq(&name, &k) {
                return Some(i);
            }
            i += 1;
        }
        proof {
            if entry_ids(self.entries@).contains(id@) {
                let j = choose|j: int|
                    0 <= j < entry_ids(self.entries@).len() && entry_ids(self.entries@)[j] == id@;
                assert(self.entries@[j].0@ == id@);
            }
        }
        None
    }

    /// Records the status of node `id`, replacing the one it had.
    pub fn update(&mut self, id: String, status: S)
        ensures
            final(self)@ == old(self)@.insert(id@, status),
    {
        proof {
            use_type_invariant(&*self);
        }
        let ghost s = self.entries@;
        let ghost k = id@;
        let found = self.find(id.as_str());
        let mut entries: Vec<(String, S)> = Vec::new();
        std::mem::swap(&mut entries, &mut self.entries);
        match found {
            Some(i) => {
                proof {
                    lemma_entries_map_replace(s, i as int, (id, status));
                    assert(entry_ids(s.update(i as int, (id, status))) =~= entry_ids(s));
                }
                entries.set(i, (id, status));
            },
            None => {
                proof {
                    assert(entry_ids(s.push((id, status))) =~= entry_ids(s).push(k));
                    assert(s.push((id, status)).drop_last() =~= s);
                }
                entries.push((id, status));
            },
        }
        self.entries = entries;
    }

    /// The status of node `id`, if the buffer has one.
    pub fn get(&self, id: &str) -> (r: Option<&S>)
        ensures
            match r {
                Some(v) => self@.contains_key(id@) && *v == self@[id@],
                None => !self@.contains_key(id@),
            },
    {
        proof {
            use_type_invariant(self);
        }
        match self.find(id) {
            Some(i) => {
                proof {
                    lemma_entries_map_at(self.entries@, i as int);
                }
                Some(&self.entries[i].1)
            },
            None => {
                proof {
                    lemma_entries_map_dom(self.entries@, id@);
                }
                None
            },
        }
    }

    /// The status of every node, once each, in the order of `ids`.
    pub fn statuses(&self) -> (r: Vec<&S>)
        ensures
            r@.len() == self.ids().len(),
            forall|i: int| 0 <= i < r@.len() ==> *r@[i] == self@[self.ids()[i]],
            self.ids().no_duplicates(),
            forall|k: Seq<char>| self@.contains_key(k) <==> self.ids().contains(k),
    {
        proof {
            use_type_invariant(self);
            assert forall|k: Seq<char>| self@.contains_key(k) <==> self.ids().contains(k) by {
                lemma_entries_map_dom(self.entries@, k);
            }
        }
        let mut r: Vec<&S> = Vec::new();
        let mut i: usize = 0;
        while i < self.entries.len()
            invariant
                i <= self.entries@.len(),
                r@.len() == i,
                entry_ids(self.entries@).no_duplicates(),
                forall|j: int|
                    0 <= j < i ==> *r@[j] == entries_map(self.entries@)[entry_ids(self.entries@)[j]],
            decreases self.entries.len() - i,
        {
            proof {
                lemma_entries_map_at(self.entries@, i as int);
            }
            r.push(&self.entries[i].1);
            i += 1;
        }
        r
    }
}

impl<S> Default for NodeStatusBuffer<S> {
    /// An empty buffer.
    fn default() -> (b: NodeStatusBuffer<S>)
        ensures
            b@ == Map::<Seq<char>, S>::empty(),
    {
        NodeStatusBuffer::new()
    }
}

/// The map has an id exactly when some entry has it.
proof fn lemma_entries_map_dom<S>(s: Seq<(String, S)>, k: Seq<char>)
    ensures
        entries_map(s).contains_key(k) <==> entry_ids(s).contains(k),
    decreases s.len(),
{
    if s.len() > 0 {
        lemma_entries_map_dom(s.drop_last(), k);
        let ids = entry_ids(s);
        assert(entry_ids(s.drop_last()) =~= ids.drop_last());
        if ids.contains(k) && k != s.last().0@ {
            let j = choose|j: int| 0 <= j < ids.len() && ids[j] == k;
            assert(ids.drop_last()[j] == k);
        }
        if entry_ids(s.drop_last()).contains(k) {
            let j = choose|j: int| 0 <= j < ids.len() - 1 && ids.drop_last()[j] == k;
            assert(ids[j] == k);
        }
        if k == s.last().0@ {
            assert(ids[ids.len() - 1] == k);
        }
    }
}

/// With distinct ids, the map gives each entry's id its entry's status.
proof fn lemma_entries_map_at<S>(s: Seq<(String, S)>, i: int)
    requires
        entry_ids(s).no_duplicates(),
        0 <= i < s.len(),
    ensures
        entries_map(s).contains_key(s[i].0@),
        entries_map(s)[s[i].0@] == s[i].1,
        entry_ids(s)[i] == s[i].0@,
    decreases s.len(),
{
    if i < s.len() - 1 {
        let t = s.drop_last();
        assert(entry_ids(t) =~= entry_ids(s).drop_last());
        assert(entry_ids(s)[i] != entry_ids(s)[s.len() - 1]);
        lemma_entries_map_at(t, i);
        assert(t[i] == s[i]);
    }
}

/// Replacing the entry of an id replaces its status in the map.
proof fn lemma_entries_map_replace<S>(s: Seq<(String, S)>, i: int, e: (String, S))
    requires
        entry_ids(s).no_duplicates(),
        0 <= i < s.len(),
        e.0@ == s[i].0@,
    ensures
        entries_map(s.update(i, e)) == entries_map(s).insert(e.0@, e.1),
    decreases s.len(),
{
    let t = s.drop_last();
    let u = s.update(i, e);
    assert(entry_ids(t) =~= entry_ids(s).drop_last());
    if i == s.len() - 1 {
        assert(u.drop_last() =~= t);
        assert(entries_map(u) =~= entries_map(s).insert(e.0@, e.1));
    } else {
        assert(u.drop_last() =~= t.update(i, e));
        assert(entry_ids(s)[i] != entry_ids(s)[s.len() - 1]);
        lemma_entries_map_replace(t, i, e);
        assert(entries_map(u) =~= entries_map(s).insert(e.0@, e.1));
    }
}

/// Law: after recording a status for a node, reading that node gives it back, and every
/// other node reads as before.
pub proof fn law_status_read_after_update<S>(before: Map<Seq<char>, S>, id: Seq<char>, status: S, other: Seq<char>)
    requires
        other != id,
    ensures
        before.insert(id, status).contains_key(id),
        before.insert(id, status)[id] == status,
        before.insert(id, status).contains_key(other) == before.contains_key(other),
        before.insert(id, status)[other] == before[other],
{
}

} // verus!
