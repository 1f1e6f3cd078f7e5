//! Association lists: vectors of key/value pairs that stand for maps.
use crate::types::{ContentAddress, PredicateAddress, same_address};
use vstd::prelude::*;

verus! {

/// The map that an association list stands for: later entries win.
pub open spec fn assoc_view<K: View, V: View>(s: Seq<(K, V)>) -> Map<K::V, V::V>
    decreases s.len(),
{
    if s.len() == 0 {
        Map::empty()
    } else {
        assoc_view(s.drop_last()).insert(s.last().0@, s.last().1@)
    }
}

/// No two entries of the association list have keys with the same view.
pub open spec fn assoc_distinct<K: View, V>(s: Seq<(K, V)>) -> bool {
    forall|i: int, j: int| 0 <= i < j < s.len() ==> s[i].0@ != s[j].0@
}

pub proof fn lemma_assoc_dom<K: View, V: View>(s: Seq<(K, V)>, k: K::V)
    ensures
        assoc_view(s).dom().contains(k) <==> exists|i: int| 0 <= i < s.len() && s[i].0@ == k,
    decreases s.len(),
{
    if s.len() > 0 {
        lemma_assoc_dom(s.drop_last(), k);
        if assoc_view(s).dom().contains(k) && k != s.last().0@ {
            let i = choose|i: int| 0 <= i < s.drop_last().len() && s.drop_last()[i].0@ == k;
            assert(s[i].0@ == k);
        }
        if exists|i: int| 0 <= i < s.len() && s[i].0@ == k {
            let i = choose|i: int| 0 <= i < s.len() && s[i].0@ == k;
            if i < s.len() - 1 {
                assert(s.drop_last()[i].0@ == k);
            }
        }
    }
}

pub proof fn lemma_assoc_index<K: View, V: View>(s: Seq<(K, V)>, i: int)
    requires
        assoc_distinct(s),
        0 <= i < s.len(),
    ensures
        assoc_view(s).dom().contains(s[i].0@),
        assoc_view(s)[s[i].0@] == s[i].1@,
    decreases s.len(),
{
    if i < s.len() - 1 {
        assert(assoc_distinct(s.drop_last()));
        assert(s.drop_last()[i] == s[i]);
        lemma_assoc_index(s.drop_last(), i);
    }
}

pub proof fn lemma_assoc_update<K: View, V: View>(s: Seq<(K, V)>, i: int, e: (K, V))
    requires
        assoc_distinct(s),
        0 <= i < s.len(),
        e.0@ == s[i].0@,
    ensures
        assoc_distinct(s.update(i, e)),
        assoc_view(s.update(i, e)) == assoc_view(s).insert(e.0@, e.1@),
    decreases s.len(),
{
    let t = s.update(i, e);
    assert(assoc_distinct(t));
    if i == s.len() - 1 {
        assert(t.drop_last() =~= s.drop_last());
        assert(assoc_view(s).insert(e.0@, e.1@) =~= assoc_view(s.drop_last()).insert(e.0@, e.1@));
    } else {
        assert(t.drop_last() =~= s.drop_last().update(i, e));
        assert(assoc_distinct(s.drop_last()));
        lemma_assoc_update(s.drop_last(), i, e);
        assert(s.last().0@ != e.0@);
        assert(assoc_view(t) =~= assoc_view(s).insert(e.0@, e.1@));
    }
}

pub proof fn lemma_assoc_push<K: View, V: View>(s: Seq<(K, V)>, e: (K, V))
    requires
        assoc_distinct(s),
        !assoc_view(s).dom().contains(e.0@),
    ensures
        assoc_distinct(s.push(e)),
        assoc_view(s.push(e)) == assoc_view(s).insert(e.0@, e.1@),
{
    assert(s.push(e).drop_last() =~= s);
    assert forall|i: int, j: int| 0 <= i < j < s.push(e).len() implies s.push(e)[i].0@ != s.push(
        e,
    )[j].0@ by {
        if j == s.len() {
            lemma_assoc_dom(s, e.0@);
            assert(s[i] == s.push(e)[i]);
        }
    }
}

/// Two association lists whose entries have pairwise equal views stand for the same map.
pub proof fn lemma_assoc_view_congruent<K: View, V: View>(s: Seq<(K, V)>, t: Seq<(K, V)>)
    requires
        s.len() == t.len(),
        forall|i: int| 0 <= i < s.len() ==> s[i].0@ == t[i].0@ && s[i].1@ == t[i].1@,
    ensures
        assoc_view(s) == assoc_view(t),
        assoc_distinct(s) ==> assoc_distinct(t),
    decreases s.len(),
{
    if s.len() > 0 {
        lemma_assoc_view_congruent(s.drop_last(), t.drop_last());
        assert(s.last().0@ == t.last().0@);
        assert(s.last().1@ == t.last().1@);
    }
    if assoc_distinct(s) {
        assert forall|i: int, j: int| 0 <= i < j < t.len() implies t[i].0@ != t[j].0@ by {
            assert(s[i].0@ != s[j].0@);
        }
    }
}

/// Keys whose views can be compared in executable code.
pub trait ViewEq: View + Sized {
    /// Whether the two keys have the same view.
    fn view_eq(&self, other: &Self) -> (r: bool)
        ensures
            r == (self@ == other@),
    ;
}

impl ViewEq for ContentAddress {
    fn view_eq(&self, other: &Self) -> (r: bool) {
        same_address(self, other)
    }
}

impl ViewEq for PredicateAddress {
    fn view_eq(&self, other: &Self) -> (r: bool) {
        same_address(&self.contract, &other.contract) && same_address(
            &self.predicate,
            &other.predicate,
        )
    }
}

/// A map kept as an association list without repeated keys.
#[derive(Debug)]
pub struct AssocMap<K, V>(pub Vec<(K, V)>);

/// A map keyed by content address.
pub type AddressMap<V> = AssocMap<ContentAddress, V>;

impl<K: View, V: View> View for AssocMap<K, V> {
    type V = Map<K::V, V::V>;

    open spec fn view(&self) -> Self::V {
        assoc_view(self.0@)
    }
}

impl<K: ViewEq, V: View> AssocMap<K, V> {
    /// No key appears twice.
    pub open spec fn wf(&self) -> bool {
        assoc_distinct(self.0@)
    }

    /// The empty map.
    pub fn new() -> (m: Self)
        ensures
            m.wf(),
            m@ == Map::<K::V, V::V>::empty(),
            m.0@.len() == 0,
    {
        AssocMap(Vec::new())
    }

    /// The index of the entry for `k`, if there is one.
    pub fn position(&self, k: &K) -> (r: Option<usize>)
        ensures
            r is Some ==> r->0 < self.0@.len() && self.0@[r->0 as int].0@ == k@,
            r is None ==> !self@.dom().contains(k@),
    {
        let mut i: usize = 0;
        while i < self.0.len()
            invariant
                i <= self.0@.len(),
                forall|j: int| 0 <= j < i ==> self.0@[j].0@ != k@,
            decreases self.0@.len() - i,
        {
            if self.0[i].0.view_eq(k) {
                return Some(i);
            }
            i = i + 1;
        }
        proof {
            lemma_assoc_dom(self.0@, k@);
        }
        None
    }

    /// Map `k` to `v`, replacing any value already there.
    pub fn insert(&mut self, k: K, v: V)
        requires
            old(self).wf(),
        ensures
            final(self).wf(),
            final(self)@ == old(self)@.insert(k@, v@),
    {
        match self.position(&k) {
            Some(i) => {
                proof {
                    lemma_assoc_update(self.0@, i as int, (k, v));
                }
                self.0.set(i, (k, v));
            },
            None => {
                proof {
                    lemma_assoc_push(self.0@, (k, v));
                }
                self.0.push((k, v));
            },
        }
    }

    /// The value for `k`, if there is one.
    pub fn get(&self, k: &K) -> (r: Option<&V>)
        requires
            self.wf(),
        ensures
            r is Some <==> self@.dom().contains(k@),
            r is Some ==> r->0@ == self@[k@],
    {
        match self.position(k) {
            Some(i) => {
                proof {
                    lemma_assoc_index(self.0@, i as int);
                }
                Some(&self.0[i].1)
            },
            None => None,
        }
    }
}

} // verus!
