//! The state of all contracts as nested maps, and the application of a
//! solution set's mutations to it.
use crate::assoc::{
    assoc_distinct, assoc_view, lemma_assoc_dom, lemma_assoc_index, lemma_assoc_push,
    lemma_assoc_update, lemma_assoc_view_congruent,
};
use crate::types::{ContentAddress, Key, Mutation, Solution, SolutionSet, Value, same_address};
use vstd::prelude::*;

verus! {

/// The key/value pairs of one contract, viewed as a map.
#[derive(Debug)]
pub struct Entries(pub Vec<(Key, Value)>);

impl View for Entries {
    type V = Map<Seq<i64>, Seq<i64>>;

    open spec fn view(&self) -> Self::V {
        assoc_view(self.0@)
    }
}

impl Entries {
    /// No key appears twice.
    pub open spec fn wf(&self) -> bool {
        assoc_distinct(self.0@)
    }
}

impl Clone for Entries {
    fn clone(&self) -> (r: Self)
        ensures
            r@ == self@,
            r.0@.len() == self.0@.len(),
            self.wf() ==> r.wf(),
    {
        let mut out: Vec<(Key, Value)> = Vec::new();
        let mut i: usize = 0;
        while i < self.0.len()
            invariant
                i <= self.0@.len(),
                out@.len() == i,
                forall|j: int| 0 <= j < i ==> out@[j].0@ == self.0@[j].0@ && out@[j].1@ == self.0@[j].1@,
            decreases self.0@.len() - i,
        {
            let k = self.0[i].0.clone();
            let v = self.0[i].1.clone();
            out.push((k, v));
            i = i + 1;
        }
        proof {
            lemma_assoc_view_congruent(self.0@, out@);
        }
        Entries(out)
    }
}

/// Whether two keys hold the same words.
pub fn same_key(a: &Key, b: &Key) -> (r: bool)
    ensures
        r == (a@ == b@),
{
    if a.len() != b.len() {
        return false;
    }
    let mut i: usize = 0;
    while i < a.len()
        invariant
            i <= a@.len(),
            a@.len() == b@.len(),
            forall|j: int| 0 <= j < i ==> a@[j] == b@[j],
        decreases a@.len() - i,
    {
        if a[i] != b[i] {
            return false;
        }
        i = i + 1;
    }
    assert(a@ =~= b@);
    true
}

/// The index of the entry with key `k`, if there is one.
fn find_key(entries: &Vec<(Key, Value)>, k: &Key) -> (r: Option<usize>)
    ensures
        r is Some ==> r->0 < entries@.len() && entries@[r->0 as int].0@ == k@,
        r is None ==> !assoc_view(entries@).dom().contains(k@),
{
    let mut i: usize = 0;
    while i < entries.len()
        invariant
            i <= entries@.len(),
            forall|j: int| 0 <= j < i ==> entries@[j].0@ != k@,
        decreases entries@.len() - i,
    {
        if same_key(&entries[i].0, k) {
            return Some(i);
        }
        i = i + 1;
    }
    proof {
        lemma_assoc_dom(entries@, k@);
    }
    None
}

impl Entries {
    /// Write `value` at `key`, replacing any value already there.
    fn insert(&mut self, key: Key, value: Value)
        requires
            old(self).wf(),
        ensures
            final(self).wf(),
            final(self)@ == old(self)@.insert(key@, value@),
    {
        match find_key(&self.0, &key) {
            Some(i) => {
                proof {
                    lemma_assoc_update(self.0@, i as int, (key, value));
                }
                self.0.set(i, (key, value));
            },
            None => {
                proof {
                    lemma_assoc_push(self.0@, (key, value));
                }
                self.0.push((key, value));
            },
        }
    }

    /// Write each mutation's value at its key, in order.
    fn apply_mutations(&mut self, muts: &Vec<Mutation>)
        requires
            old(self).wf(),
        ensures
            final(self).wf(),
            final(self)@ == apply_mutations(old(self)@, muts@),
    {
        let ghost start = self@;
        let mut i: usize = 0;
        while i < muts.len()
            invariant
                i <= muts@.len(),
                self.wf(),
                self@ == apply_mutations(start, muts@.take(i as int)),
            decreases muts@.len() - i,
        {
            let k = muts[i].key.clone();
            let v = muts[i].value.clone();
            self.insert(k, v);
            proof {
                assert(muts@.take(i + 1).drop_last() =~= muts@.take(i as int));
            }
            i = i + 1;
        }
        proof {
            assert(muts@.take(muts@.len() as int) =~= muts@);
        }
    }
}

/// The state of every contract, by contract address.
#[derive(Debug)]
pub struct State {
    contracts: Vec<(ContentAddress, Entries)>,
}

impl View for State {
    type V = Map<Seq<u8>, Map<Seq<i64>, Seq<i64>>>;

    closed spec fn view(&self) -> Self::V {
        assoc_view(self.contracts@)
    }
}

impl State {
    /// No contract appears twice, and no key appears twice within a contract.
    pub closed spec fn wf(&self) -> bool {
        &&& assoc_distinct(self.contracts@)
        &&& forall|i: int| 0 <= i < self.contracts@.len() ==> (#[trigger] self.contracts@[i]).1.wf()
    }

    /// The empty state.
    pub fn empty() -> (s: Self)
        ensures
            s.wf(),
            s@ == Map::<Seq<u8>, Map<Seq<i64>, Seq<i64>>>::empty(),
    {
        State { contracts: Vec::new() }
    }

    /// The index of the contract with address `c`, if it has an entry.
    fn find_contract(&self, c: &ContentAddress) -> (r: Option<usize>)
        ensures
            r is Some ==> r->0 < self.contracts@.len() && self.contracts@[r->0 as int].0@ == c@,
            r is None ==> !self@.dom().contains(c@),
    {
        let mut i: usize = 0;
        while i < self.contracts.len()
            invariant
                i <= self.contracts@.len(),
                forall|j: int| 0 <= j < i ==> self.contracts@[j].0@ != c@,
            decreases self.contracts@.len() - i,
        {
            if same_address(&self.contracts[i].0, c) {
                return Some(i);
            }
            i = i + 1;
        }
        proof {
            lemma_assoc_dom(self.contracts@, c@);
        }
        None
    }
}

impl State {
    /// The value at `key` in the state of contract `contract`, if any.
    pub fn get(&self, contract: &ContentAddress, key: &Key) -> (r: Option<Value>)
        requires
            self.wf(),
        ensures
            r is Some <==> (self@.dom().contains(contract@) && self@[contract@].dom().contains(key@)),
            r is Some ==> r->0@ == self@[contract@][key@],
    {
        match self.find_contract(contract) {
            None => None,
            Some(i) => {
                let entries = &self.contracts[i].1;
                proof {
                    lemma_assoc_index(self.contracts@, i as int);
                }
                match find_key(&entries.0, key) {
                    None => None,
                    Some(j) => {
                        proof {
                            lemma_assoc_index(entries.0@, j as int);
                        }
                        Some(entries.0[j].1.clone())
                    },
                }
            },
        }
    }

    /// Apply one solution: make sure its contract has an entry, then write its
    /// mutations in order.
    fn apply_solution(&mut self, sol: &Solution)
        requires
            old(self).wf(),
        ensures
            final(self).wf(),
            final(self)@ == apply_solution(old(self)@, *sol),
    {
        let c = sol.predicate_to_solve.contract;
        let ghost start = self@;
        let i = match self.find_contract(&c) {
            Some(i) => i,
            None => {
                let empty = Entries(Vec::new());
                proof {
                    assert(empty@ == Map::<Seq<i64>, Seq<i64>>::empty());
                    lemma_assoc_push(self.contracts@, (c, empty));
                }
                self.contracts.push((c, empty));
                proof {
                    assert(self.contracts@.last().1.wf());
                    lemma_assoc_index(self.contracts@, self.contracts@.len() - 1);
                }
                self.contracts.len() - 1
            },
        };
        proof {
            lemma_assoc_index(self.contracts@, i as int);
            assert(self.contracts@[i as int].1.wf());
        }
        let ghost mid = self@;
        let mut e = self.contracts[i].1.clone();
        e.apply_mutations(&sol.state_mutations);
        proof {
            lemma_assoc_update(self.contracts@, i as int, (c, e));
        }
        self.contracts.set(i, (c, e));
        proof {
            assert forall|j: int| 0 <= j < self.contracts@.len() implies (
            #[trigger] self.contracts@[j]).1.wf() by {
                if j != i {
                    assert(self.contracts@[j] == old(self).contracts@[j] || j == self.contracts@.len()
                        - 1);
                }
            }
            assert(self@ =~= apply_solution(start, *sol));
        }
    }
}

/// Apply the mutations of each solution of `set` to `state`, in order, and
/// return a copy of the resulting state.
pub fn apply_solution_set(set: &SolutionSet, state: &mut State) -> (r: State)
    requires
        old(state).wf(),
    ensures
        final(state).wf(),
        final(state)@ == apply_solutions(old(state)@, set.solutions@),
        r.wf(),
        r@ == final(state)@,
{
    let ghost start = state@;
    let mut i: usize = 0;
    while i < set.solutions.len()
        invariant
            i <= set.solutions@.len(),
            state.wf(),
            state@ == apply_solutions(start, set.solutions@.take(i as int)),
        decreases set.solutions@.len() - i,
    {
        state.apply_solution(&set.solutions[i]);
        proof {
            assert(set.solutions@.take(i + 1).drop_last() =~= set.solutions@.take(i as int));
        }
        i = i + 1;
    }
    proof {
        assert(set.solutions@.take(set.solutions@.len() as int) =~= set.solutions@);
    }
    state.clone()
}

impl Clone for State {
    fn clone(&self) -> (r: Self)
        ensures
            r@ == self@,
            self.wf() ==> r.wf(),
    {
        let mut out: Vec<(ContentAddress, Entries)> = Vec::new();
        let mut i: usize = 0;
        while i < self.contracts.len()
            invariant
                i <= self.contracts@.len(),
                out@.len() == i,
                forall|j: int| 0 <= j < i ==> out@[j].0@ == self.contracts@[j].0@ && out@[j].1@
                    == self.contracts@[j].1@ && out@[j].1.0@.len() == self.contracts@[j].1.0@.len()
                    && (self.contracts@[j].1.wf() ==> out@[j].1.wf()),
            decreases self.contracts@.len() - i,
        {
            let c = self.contracts[i].0;
            let e = self.contracts[i].1.clone();
            out.push((c, e));
            i = i + 1;
        }
        proof {
            lemma_assoc_view_congruent(self.contracts@, out@);
        }
        State { contracts: out }
    }
}

/// The map after writing each mutation's value at its key, in order.
pub open spec fn apply_mutations(
    m: Map<Seq<i64>, Seq<i64>>,
    muts: Seq<Mutation>,
) -> Map<Seq<i64>, Seq<i64>>
    decreases muts.len(),
{
    if muts.len() == 0 {
        m
    } else {
        apply_mutations(m, muts.drop_last()).insert(muts.last().key@, muts.last().value@)
    }
}

/// The state after applying one solution: the solved contract gets an entry (empty
/// if it had none) and its mutations are written in order.
pub open spec fn apply_solution(
    s: Map<Seq<u8>, Map<Seq<i64>, Seq<i64>>>,
    sol: Solution,
) -> Map<Seq<u8>, Map<Seq<i64>, Seq<i64>>> {
    let c = sol.predicate_to_solve.contract@;
    let inner = if s.dom().contains(c) {
        s[c]
    } else {
        Map::empty()
    };
    s.insert(c, apply_mutations(inner, sol.state_mutations@))
}

/// The state after applying the solutions in order.
pub open spec fn apply_solutions(
    s: Map<Seq<u8>, Map<Seq<i64>, Seq<i64>>>,
    sols: Seq<Solution>,
) -> Map<Seq<u8>, Map<Seq<i64>, Seq<i64>>>
    decreases sols.len(),
{
    if sols.len() == 0 {
        s
    } else {
        apply_solution(apply_solutions(s, sols.drop_last()), sols.last())
    }
}

} // verus!

verus! {

/// The value of the last mutation in `muts` that writes key `k`, if any.
pub open spec fn last_write_in_mutations(muts: Seq<Mutation>, k: Seq<i64>) -> Option<Seq<i64>>
    decreases muts.len(),
{
    if muts.len() == 0 {
        None
    } else if muts.last().key@ == k {
        Some(muts.last().value@)
    } else {
        last_write_in_mutations(muts.drop_last(), k)
    }
}

/// The value of the last mutation, over all solutions of contract `c` in order,
/// that writes key `k`, if any.
pub open spec fn last_write(sols: Seq<Solution>, c: Seq<u8>, k: Seq<i64>) -> Option<Seq<i64>>
    decreases sols.len(),
{
    if sols.len() == 0 {
        None
    } else if sols.last().predicate_to_solve.contract@ == c && last_write_in_mutations(
        sols.last().state_mutations@,
        k,
    ) is Some {
        last_write_in_mutations(sols.last().state_mutations@, k)
    } else {
        last_write(sols.drop_last(), c, k)
    }
}

/// Whether some solution of `sols` solves a predicate of contract `c`.
pub open spec fn solves_contract(sols: Seq<Solution>, c: Seq<u8>) -> bool {
    exists|i: int| 0 <= i < sols.len() && sols[i].predicate_to_solve.contract@ == c
}

proof fn lemma_last_write_solves(sols: Seq<Solution>, c: Seq<u8>, k: Seq<i64>)
    ensures
        last_write(sols, c, k) is Some ==> solves_contract(sols, c),
    decreases sols.len(),
{
    if sols.len() > 0 {
        lemma_last_write_solves(sols.drop_last(), c, k);
        if solves_contract(sols.drop_last(), c) {
            let i = choose|i: int| 0 <= i < sols.len() - 1 && sols.drop_last()[i].predicate_to_solve.contract@ == c;
            assert(sols[i].predicate_to_solve.contract@ == c);
        }
        if sols.last().predicate_to_solve.contract@ == c {
            assert(sols[sols.len() - 1].predicate_to_solve.contract@ == c);
        }
    }
}

proof fn lemma_apply_mutations_closed_form(m: Map<Seq<i64>, Seq<i64>>, muts: Seq<Mutation>, k: Seq<i64>)
    ensures
        apply_mutations(m, muts).dom().contains(k) <==> (last_write_in_mutations(muts, k) is Some
            || m.dom().contains(k)),
        apply_mutations(m, muts).dom().contains(k) ==> apply_mutations(m, muts)[k] == match last_write_in_mutations(muts, k) {
            Some(v) => v,
            None => m[k],
        },
    decreases muts.len(),
{
    if muts.len() > 0 {
        lemma_apply_mutations_closed_form(m, muts.drop_last(), k);
    }
}

/// Applying solutions in order writes, for every contract and key, the value of
/// the last mutation to that key among the solutions of that contract; every
/// key that no solution writes keeps its value, and every contract solved gets
/// an entry.
pub proof fn lemma_apply_solutions_last_write_wins(
    s: Map<Seq<u8>, Map<Seq<i64>, Seq<i64>>>,
    sols: Seq<Solution>,
    c: Seq<u8>,
    k: Seq<i64>,
)
    ensures
        apply_solutions(s, sols).dom().contains(c) <==> (s.dom().contains(c) || solves_contract(
            sols,
            c,
        )),
        apply_solutions(s, sols).dom().contains(c) ==> (apply_solutions(s, sols)[c].dom().contains(
            k,
        ) <==> (last_write(sols, c, k) is Some || (s.dom().contains(c) && s[c].dom().contains(k)))),
        apply_solutions(s, sols).dom().contains(c) && apply_solutions(s, sols)[c].dom().contains(k)
            ==> apply_solutions(s, sols)[c][k] == match last_write(sols, c, k) {
            Some(v) => v,
            None => s[c][k],
        },
    decreases sols.len(),
{
    if sols.len() > 0 {
        let prev = sols.drop_last();
        lemma_apply_solutions_last_write_wins(s, prev, c, k);
        lemma_last_write_solves(prev, c, k);
        let sol = sols.last();
        let before = apply_solutions(s, prev);
        if sol.predicate_to_solve.contract@ == c {
            let inner = if before.dom().contains(c) {
                before[c]
            } else {
                Map::empty()
            };
            lemma_apply_mutations_closed_form(inner, sol.state_mutations@, k);
            assert(solves_contract(sols, c)) by {
                assert(sols[sols.len() - 1].predicate_to_solve.contract@ == c);
            }
        }
        if solves_contract(sols, c) && sol.predicate_to_solve.contract@ != c {
            let i = choose|i: int| 0 <= i < sols.len() && sols[i].predicate_to_solve.contract@ == c;
            assert(prev[i].predicate_to_solve.contract@ == c);
        }
        if solves_contract(prev, c) {
            let i = choose|i: int| 0 <= i < prev.len() && prev[i].predicate_to_solve.contract@ == c;
            assert(sols[i].predicate_to_solve.contract@ == c);
        }
    }
}

/// Applying the same solutions a second time changes nothing.
pub proof fn lemma_apply_solutions_idempotent(
    s: Map<Seq<u8>, Map<Seq<i64>, Seq<i64>>>,
    sols: Seq<Solution>,
)
    ensures
        apply_solutions(apply_solutions(s, sols), sols) == apply_solutions(s, sols),
{
    let once = apply_solutions(s, sols);
    let twice = apply_solutions(once, sols);
    assert forall|c: Seq<u8>| #[trigger] twice.dom().contains(c) <==> once.dom().contains(c) by {
        lemma_apply_solutions_last_write_wins(s, sols, c, Seq::empty());
        lemma_apply_solutions_last_write_wins(once, sols, c, Seq::empty());
    }
    assert forall|c: Seq<u8>| #[trigger] twice.dom().contains(c) implies twice[c] == once[c] by {
        assert forall|k: Seq<i64>| #[trigger] twice[c].dom().contains(k) <==> once[c].dom().contains(k) by {
            lemma_apply_solutions_last_write_wins(s, sols, c, k);
            lemma_apply_solutions_last_write_wins(once, sols, c, k);
        }
        assert forall|k: Seq<i64>| #[trigger] twice[c].dom().contains(k) implies twice[c][k] == once[c][k] by {
            lemma_apply_solutions_last_write_wins(s, sols, c, k);
            lemma_apply_solutions_last_write_wins(once, sols, c, k);
        }
        assert(twice[c] =~= once[c]);
    }
    assert(twice =~= once);
}

} // verus!
