//! Maps kept as lists of entries, each key at most once, and a map keyed by
//! coin id built on them.

use crate::types::CoinID;
use vstd::prelude::*;

verus! {

/// The map that a list of entries stands for: a later entry for a key
/// replaces an earlier one.
pub open spec fn entries_map<K, V>(s: Seq<(K, V)>) -> Map<K, V>
    decreases s.len(),
{
    if s.len() == 0 {
        Map::empty()
    } else {
        entries_map(s.drop_last()).insert(s.last().0, s.last().1)
    }
}

/// Whether no key occurs twice in a list of entries.
pub open spec fn distinct_keys<K, V>(s: Seq<(K, V)>) -> bool {
    forall|i: int, j: int| 0 <= i < j < s.len() ==> s[i].0 != s[j].0
}

/// The keys of a map of entries are those of its list.
pub proof fn lemma_entries_dom<K, V>(s: Seq<(K, V)>, id: K)
    ensures
        entries_map(s).dom().contains(id) <==> exists|i: int| 0 <= i < s.len() && s[i].0 == id,
    decreases s.len(),
{
    if s.len() > 0 {
        let t = s.drop_last();
        lemma_entries_dom(t, id);
        if entries_map(s).dom().contains(id) {
            if s.last().0 == id {
                assert(s[s.len() - 1].0 == id);
            } else {
                let i = choose|i: int| 0 <= i < t.len() && t[i].0 == id;
                assert(s[i].0 == id);
            }
        }
        if exists|i: int| 0 <= i < s.len() && s[i].0 == id {
            let i = choose|i: int| 0 <= i < s.len() && s[i].0 == id;
            if i < s.len() - 1 {
                assert(t[i].0 == id);
            }
        }
    }
}

/// Where keys are distinct, the map holds each entry of the list.
pub proof fn lemma_entries_get<K, V>(s: Seq<(K, V)>, i: int)
    requires
        distinct_keys(s),
        0 <= i < s.len(),
    ensures
        entries_map(s).dom().contains(s[i].0),
        entries_map(s)[s[i].0] == s[i].1,
    decreases s.len(),
{
    let t = s.drop_last();
    if i < s.len() - 1 {
        assert(distinct_keys(t));
        lemma_entries_get(t, i);
        assert(s[i].0 != s[s.len() - 1].0);
    }
}

/// Taking one entry out of a list with distinct keys takes its key out of the map.
pub proof fn lemma_entries_remove<K, V>(s: Seq<(K, V)>, i: int)
    requires
        distinct_keys(s),
        0 <= i < s.len(),
    ensures
        entries_map(s.remove(i)) == entries_map(s).remove(s[i].0),
        distinct_keys(s.remove(i)),
    decreases s.len(),
{
    let t = s.drop_last();
    let last = s.len() - 1;
    assert(distinct_keys(t));
    if i == last {
        assert(s.remove(i) =~= t);
        lemma_entries_dom(t, s[i].0);
        if entries_map(t).dom().contains(s[i].0) {
            let j = choose|j: int| 0 <= j < t.len() && t[j].0 == s[i].0;
            assert(s[j].0 == s[last].0);
        }
        assert(entries_map(t) =~= entries_map(s).remove(s[i].0));
    } else {
        lemma_entries_remove(t, i);
        assert(s.remove(i).drop_last() =~= t.remove(i));
        assert(s.remove(i).last() == s.last());
        assert(s[i].0 != s[last].0);
        assert(entries_map(s.remove(i)) =~= entries_map(s).remove(s[i].0));
    }
}

/// A map from coin ids to values, kept as a list with each id at most once.
#[derive(Debug, PartialEq, Eq)]
pub struct IdMap<V: View> {
    entries: Vec<(CoinID, V)>,
}

impl<V: View> IdMap<V> {
    /// The entries, in the order in which they were last written.
    pub closed spec fn entries(&self) -> Seq<(CoinID, V::V)> {
        Seq::new(self.entries@.len(), |i: int| (self.entries@[i].0, self.entries@[i].1@))
    }

    /// The map that the entries stand for.
    pub open spec fn view(&self) -> Map<CoinID, V::V> {
        entries_map(self.entries())
    }

    #[verifier::type_invariant]
    spec fn no_id_twice(&self) -> bool {
        distinct_keys(self.entries())
    }

    /// An empty map.
    pub fn new() -> (m: IdMap<V>)
        ensures
            m.entries() == Seq::<(CoinID, V::V)>::empty(),
            m.view() == Map::<CoinID, V::V>::empty(),
    {
        let m = IdMap { entries: Vec::new() };
        proof {
            assert(m.entries() =~= Seq::<(CoinID, V::V)>::empty());
        }
        m
    }

    /// The number of entries.
    pub fn len(&self) -> (n: usize)
        ensures
            n == self.entries().len(),
            distinct_keys(self.entries()),
    {
        proof {
            use_type_invariant(self);
        }
        self.entries.len()
    }

    /// The id of the entry at a position.
    pub fn id_at(&self, i: usize) -> (id: CoinID)
        requires
            i < self.entries().len(),
        ensures
            id == self.entries()[i as int].0,
    {
        self.entries[i].0
    }

    /// The value of the entry at a position.
    pub fn value_at(&self, i: usize) -> (value: &V)
        requires
            i < self.entries().len(),
        ensures
            value@ == self.entries()[i as int].1,
    {
        &self.entries[i].1
    }

    /// The position of an id, if the map holds it.
    pub fn position(&self, id: &CoinID) -> (at: Option<usize>)
        ensures
            match at {
                Some(i) => i < self.entries().len() && self.entries()[i as int].0 == *id,
                None => forall|j: int| 0 <= j < self.entries().len() ==> self.entries()[j].0 != *id,
            },
    {
        let mut i: usize = 0;
        while i < self.entries.len()
            invariant
                i <= self.entries@.len(),
                forall|j: int| 0 <= j < i ==> self.entries()[j].0 != *id,
            decreases self.entries@.len() - i,
        {
            if self.entries[i].0.same(id) {
                return Some(i);
            }
            i = i + 1;
        }
        None
    }

    /// The value bound to an id, if any.
    pub fn get(&self, id: &CoinID) -> (value: Option<&V>)
        ensures
            match value {
                Some(v) => self@.dom().contains(*id) && self@[*id] == v@,
                None => !self@.dom().contains(*id),
            },
    {
        proof {
            use_type_invariant(self);
        }
        match self.position(id) {
            Some(i) => {
                proof {
                    lemma_entries_get(self.entries(), i as int);
                }
                Some(&self.entries[i].1)
            },
            None => {
                proof {
                    lemma_entries_dom(self.entries(), *id);
                }
                None
            },
        }
    }

    /// Takes an id out of the map; nothing changes where the map does not hold it.
    pub fn remove(&mut self, id: &CoinID)
        ensures
            final(self)@ == old(self)@.remove(*id),
    {
        proof {
            use_type_invariant(&*self);
        }
        match self.position(id) {
            Some(i) => {
                let ghost before = self.entries();
                let mut entries: Vec<(CoinID, V)> = Vec::new();
                core::mem::swap(&mut self.entries, &mut entries);
                entries.remove(i);
                proof {
                    let after = Seq::new(entries@.len(), |j: int| (entries@[j].0, entries@[j].1@));
                    assert(after =~= before.remove(i as int));
                    lemma_entries_remove(before, i as int);
                }
                self.entries = entries;
                proof {
                    assert(self.entries() =~= before.remove(i as int));
                }
            },
            None => {
                proof {
                    lemma_entries_dom(self.entries(), *id);
                    assert(self@ =~= self@.remove(*id));
                }
            },
        }
    }

    /// Binds an id to a value, in place of what it was bound to before.
    pub fn insert(&mut self, id: CoinID, value: V)
        ensures
            final(self)@ == old(self)@.insert(id, value@),
    {
        self.remove(&id);
        let ghost before = self.entries();
        proof {
            use_type_invariant(&*self);
            lemma_entries_dom(before, id);
        }
        let mut entries: Vec<(CoinID, V)> = Vec::new();
        core::mem::swap(&mut self.entries, &mut entries);
        entries.push((id, value));
        proof {
            let after = Seq::new(entries@.len(), |i: int| (entries@[i].0, entries@[i].1@));
            assert(after.drop_last() =~= before);
            assert(after.last() == (id, value@));
            assert(after =~= before.push((id, value@)));
            assert forall|i: int, j: int| 0 <= i < j < after.len() implies after[i].0
                != after[j].0 by {
                if j == after.len() - 1 {
                    assert(before[i].0 != id);
                }
            }
            assert(old(self)@.remove(id).insert(id, value@) =~= old(self)@.insert(id, value@));
        }
        self.entries = entries;
    }
}

} // verus!
