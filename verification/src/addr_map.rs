//! An association map keyed by [`Address`], the resident store shared by all
//! three coordinators. Keys are held at most once; the mathematical view is a
//! `Map` from the address bytes to the stored value.

use vstd::prelude::*;
use crate::address::Address;

verus! {

/// No two entries of `s` carry the same address.
pub open spec fn keys_unique<V>(s: Seq<(Address, V)>) -> bool {
    forall|i: int, j: int|
        0 <= i < j < s.len() ==> (#[trigger] s[i]).0@ != (#[trigger] s[j]).0@
}

/// The mathematical map an entry sequence denotes (later entries win).
pub open spec fn map_of<V>(s: Seq<(Address, V)>) -> Map<Seq<u8>, V>
    decreases s.len(),
{
    if s.len() == 0 {
        Map::empty()
    } else {
        map_of(s.drop_last()).insert(s.last().0@, s.last().1)
    }
}

pub proof fn lemma_map_of_contains<V>(s: Seq<(Address, V)>, k: Seq<u8>)
    ensures
        map_of(s).contains_key(k) <==> exists|i: int| 0 <= i < s.len() && (#[trigger] s[i]).0@ == k,
    decreases s.len(),
{
    if s.len() > 0 {
        lemma_map_of_contains(s.drop_last(), k);
        if map_of(s).contains_key(k) && s.last().0@ != k {
            let i = choose|i: int|
                0 <= i < s.drop_last().len() && (#[trigger] s.drop_last()[i]).0@ == k;
            assert(s[i].0@ == k);
        }
        if exists|i: int| 0 <= i < s.len() && (#[trigger] s[i]).0@ == k {
            let i = choose|i: int| 0 <= i < s.len() && (#[trigger] s[i]).0@ == k;
            if i < s.len() - 1 {
                assert(s.drop_last()[i].0@ == k);
            }
        }
    }
}

pub proof fn lemma_map_of_index<V>(s: Seq<(Address, V)>, i: int)
    requires
        keys_unique(s),
        0 <= i < s.len(),
    ensures
        map_of(s).contains_key(s[i].0@),
        map_of(s)[s[i].0@] == s[i].1,
    decreases s.len(),
{
    if i < s.len() - 1 {
        assert(s[i].0@ != s[s.len() - 1].0@);
        assert(s.drop_last()[i] == s[i]);
        lemma_map_of_index(s.drop_last(), i);
    }
}

pub proof fn lemma_map_of_remove<V>(s: Seq<(Address, V)>, i: int)
    requires
        keys_unique(s),
        0 <= i < s.len(),
    ensures
        map_of(s.remove(i)) == map_of(s).remove(s[i].0@),
    decreases s.len(),
{
    let k = s[i].0@;
    if i == s.len() - 1 {
        assert(s.remove(i) =~= s.drop_last());
        lemma_map_of_contains(s.drop_last(), k);
        assert(forall|j: int|
            0 <= j < s.drop_last().len() ==> (#[trigger] s.drop_last()[j]).0@ != k);
        assert(map_of(s.drop_last()) =~= map_of(s).remove(k));
    } else {
        assert(s.remove(i).drop_last() =~= s.drop_last().remove(i));
        assert(s.remove(i).last() == s.last());
        lemma_map_of_remove(s.drop_last(), i);
        assert(s[i].0@ != s.last().0@);
        assert(map_of(s.remove(i)) =~= map_of(s).remove(k));
    }
}

/// An address-keyed association store with at most one entry per address.
#[derive(Clone, Debug, PartialEq, Eq)]
pub struct AddrMap<V> {
    pub entries: Vec<(Address, V)>,
}

impl<V> View for AddrMap<V> {
    type V = Map<Seq<u8>, V>;

    open spec fn view(&self) -> Map<Seq<u8>, V> {
        map_of(self.entries@)
    }
}

impl<V> AddrMap<V> {
    /// Each address appears at most once among the entries.
    pub open spec fn wf(self) -> bool {
        keys_unique(self.entries@)
    }

    pub fn new() -> (m: AddrMap<V>)
        ensures
            m.wf(),
            m@ == Map::<Seq<u8>, V>::empty(),
    {
        AddrMap { entries: Vec::new() }
    }

    /// The index at which `a` is stored, if any.
    fn index_of(&self, a: &Address) -> (r: Option<usize>)
        ensures
            match r {
                Some(i) => i < self.entries@.len() && self.entries@[i as int].0@ == a@,
                None => forall|j: int|
                    0 <= j < self.entries@.len() ==> (#[trigger] self.entries@[j]).0@ != a@,
            },
    {
        let n = self.entries.len();
        let mut i: usize = 0;
        while i < n
            invariant
                i <= n,
                n == self.entries@.len(),
                forall|j: int| 0 <= j < i ==> (#[trigger] self.entries@[j]).0@ != a@,
            decreases n - i,
        {
            if self.entries[i].0.same_as(a) {
                return Some(i);
            }
            i += 1;
        }
        None
    }

    pub fn get(&self, a: &Address) -> (r: Option<&V>)
        requires
            self.wf(),
        ensures
            match r {
                Some(v) => self@.contains_key(a@) && *v == self@[a@],
                None => !self@.contains_key(a@),
            },
    {
        proof {
            lemma_map_of_contains(self.entries@, a@);
        }
        match self.index_of(a) {
            Some(i) => {
                proof {
                    lemma_map_of_index(self.entries@, i as int);
                }
                Some(&self.entries[i].1)
            },
            None => None,
        }
    }

    pub fn contains_key(&self, a: &Address) -> (r: bool)
        requires
            self.wf(),
        ensures
            r == self@.contains_key(a@),
    {
        self.get(a).is_some()
    }

    /// Removes the entry for `a`, handing back its value if one was resident.
    pub fn remove(&mut self, a: &Address) -> (r: Option<V>)
        requires
            old(self).wf(),
        ensures
            final(self).wf(),
            final(self)@ == old(self)@.remove(a@),
            r is Some <==> old(self)@.contains_key(a@),
            match r {
                Some(v) => v == old(self)@[a@],
                None => true,
            },
    {
        proof {
            lemma_map_of_contains(self.entries@, a@);
        }
        match self.index_of(a) {
            Some(i) => {
                proof {
                    lemma_map_of_index(self.entries@, i as int);
                    lemma_map_of_remove(self.entries@, i as int);
                }
                let (_, v) = self.entries.remove(i);
                Some(v)
            },
            None => {
                proof {
                    assert(old(self)@.remove(a@) =~= old(self)@);
                }
                None
            },
        }
    }

    /// Inserts or fully replaces the entry for `a`.
    pub fn insert(&mut self, a: Address, v: V)
        requires
            old(self).wf(),
        ensures
            final(self).wf(),
            final(self)@ == old(self)@.insert(a@, v),
    {
        let _ = self.remove(&a);
        let ghost mid = self.entries@;
        proof {
            lemma_map_of_contains(mid, a@);
            assert(forall|j: int| 0 <= j < mid.len() ==> (#[trigger] mid[j]).0@ != a@);
        }
        self.entries.push((a, v));
        proof {
            assert(self.entries@.drop_last() =~= mid);
            assert(map_of(self.entries@) == map_of(mid).insert(a@, v));
            assert(self@ =~= old(self)@.insert(a@, v));
            assert forall|i: int, j: int| 0 <= i < j < self.entries@.len() implies
                (#[trigger] self.entries@[i]).0@ != (#[trigger] self.entries@[j]).0@ by {
                if j == self.entries@.len() - 1 {
                    assert(self.entries@[i] == mid[i]);
                } else {
                    assert(self.entries@[i] == mid[i]);
                    assert(self.entries@[j] == mid[j]);
                }
            }
        }
    }

    /// How many addresses are resident.
    pub fn len(&self) -> (n: usize)
        requires
            self.wf(),
        ensures
            n == self@.dom().len(),
    {
        proof {
            lemma_map_of_len(self.entries@);
        }
        self.entries.len()
    }
}

pub proof fn lemma_map_of_len<V>(s: Seq<(Address, V)>)
    requires
        keys_unique(s),
    ensures
        map_of(s).dom().finite(),
        map_of(s).dom().len() == s.len(),
    decreases s.len(),
{
    if s.len() > 0 {
        lemma_map_of_len(s.drop_last());
        lemma_map_of_contains(s.drop_last(), s.last().0@);
        assert(forall|j: int|
            0 <= j < s.drop_last().len() ==> (#[trigger] s.drop_last()[j]).0@ != s.last().0@);
        assert(!map_of(s.drop_last()).contains_key(s.last().0@));
    }
}

} // verus!
