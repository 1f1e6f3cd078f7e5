//! Reading predicates and programs out of the registries in a view of state,
//! and checking solution sets against them.
use crate::assoc::{AddressMap, lemma_assoc_index};
use crate::key::{key_successor, next_key_or_wrapped};
use crate::registry::{
    LenBytesError, bytes_from_len_prefixed_words, contract_predicate_key, decode_predicate,
    predicate_decoding, predicate_key, program_key, spec_contract_predicate_key,
    spec_len_prefixed_bytes, spec_predicate_key, spec_program_key,
};
use crate::types::{
    ContentAddress, Key, Predicate, PredicateAddress, PredicateView, Program, Solution,
    SolutionSet, Value,
};
use vstd::prelude::*;

pub mod error;

use error::{
    CheckSetError, CheckSetsError, InvalidSet, PredicateProgramsError, QueryPredicateError,
    QueryProgramError, QueryStateRangeError, SolutionSetPredicatesError,
};

verus! {

/// Block number.
pub type BlockNum = i64;

/// The index of a solution set within a sequence of solution sets.
pub type SolutionSetIx = u64;

/// A reference to a block, either via a specific block address, or via block number.
#[derive(Clone, Copy, Debug)]
pub enum BlockRef {
    /// Refers to a block at a specific address.
    Address(ContentAddress),
    /// Refers to a block at a given block number. Should only be used in the
    /// case that the block number is unambiguous.
    Number(BlockNum),
}

/// An index representing a view into state at a given block and solution set index.
#[derive(Clone, Copy, Debug)]
pub struct StateViewIx {
    /// The block at which we're viewing state.
    pub block: BlockRef,
    /// The solution set index within the block at which we're viewing state.
    pub solution_set_ix: SolutionSetIx,
}

/// Query the state of a single key at a particular location within a block.
///
/// A view of state at a given index does not change: an implementation reads
/// the same value for the same contract, key and index whenever it succeeds.
pub trait QueryStateExcl {
    /// The error returned from `query_state_excl`.
    type Error;

    /// The value at `key` in the state of contract `contract`, as it stands
    /// prior to the solution set at `ix`.
    spec fn state_at(&self, contract: Seq<u8>, key: Seq<i64>, ix: StateViewIx) -> Option<Seq<i64>>;

    /// Whether reading `key` of contract `contract` at `ix` is sure to
    /// succeed: where it is, the read does not fail.
    spec fn readable(&self, contract: Seq<u8>, key: Seq<i64>, ix: StateViewIx) -> bool;

    /// Query the state prior to the solution set at the given index.
    fn query_state_excl(
        &self,
        contract_ca: &ContentAddress,
        key: &Key,
        state_view_ix: &StateViewIx,
    ) -> (r: Result<Option<Value>, Self::Error>)
        ensures
            r is Ok ==> (r->Ok_0 is Some <==> self.state_at(
                contract_ca@,
                key@,
                *state_view_ix,
            ) is Some),
            r is Ok && r->Ok_0 is Some ==> r->Ok_0->0@ == self.state_at(
                contract_ca@,
                key@,
                *state_view_ix,
            )->0,
            self.readable(contract_ca@, key@, *state_view_ix) ==> r is Ok,
    ;
}

/// A view into state at a given block and solution set index.
pub struct StateView<T> {
    /// Access to state.
    pub state: T,
    /// The state view index at which we should query state.
    pub ix: StateViewIx,
}

impl<T: QueryStateExcl> StateView<T> {
    /// Read `num_values` values at consecutive keys from `key`, through the
    /// view's state at the view's index: see [`query_range`].
    pub fn key_range(&self, contract: &ContentAddress, key: Key, num_values: usize) -> (r: Result<
        Vec<Value>,
        QueryStateRangeError<T::Error>,
    >)
        ensures
            range_outcome(&self.state, self.ix, contract@, key@, num_values, r),
    {
        query_range(&self.state, &self.ix, contract, key, num_values)
    }
}

/// The `i`-th key after `key`, stepping with `key_successor`; `None` once the keys run out.
pub open spec fn nth_key(key: Seq<i64>, i: nat) -> Option<Seq<i64>>
    decreases i,
{
    if i == 0 {
        Some(key)
    } else {
        match nth_key(key, (i - 1) as nat) {
            Some(k) => key_successor(k),
            None => None,
        }
    }
}

/// Once the keys run out they stay out.
pub proof fn lemma_nth_key_none_stays(key: Seq<i64>, i: nat, j: nat)
    requires
        i <= j,
        nth_key(key, i) is None,
    ensures
        nth_key(key, j) is None,
    decreases j - i,
{
    if i < j {
        lemma_nth_key_none_stays(key, i, (j - 1) as nat);
    }
}

/// A value read from state, with an absent value read as the empty value.
pub open spec fn value_or_empty(v: Option<Seq<i64>>) -> Seq<i64> {
    match v {
        Some(w) => w,
        None => Seq::empty(),
    }
}

/// Whether the `n` keys from `key` on all exist: the last of them does.
pub open spec fn keys_in_range(key: Seq<i64>, n: nat) -> bool {
    n == 0 || nth_key(key, (n - 1) as nat) is Some
}

/// What reading `num_values` values at consecutive keys from `key` may come
/// to: the values, one per key, each read through `state` at `ix` (an absent
/// value reads as empty), where every key read exists; out of range, reported
/// with the first key and the count, exactly where a key to read does not
/// exist; a failed read only where a key read is not sure to be readable.
pub open spec fn range_outcome<T: QueryStateExcl>(
    state: &T,
    ix: StateViewIx,
    contract: Seq<u8>,
    key: Seq<i64>,
    num_values: usize,
    r: Result<Vec<Value>, QueryStateRangeError<T::Error>>,
) -> bool {
    &&& r is Ok ==> r->Ok_0@.len() == num_values && keys_in_range(key, num_values as nat) && (
    forall|i: int|
        0 <= i < num_values ==> nth_key(key, i as nat) is Some && (#[trigger] r->Ok_0@[i])@
            == value_or_empty(state.state_at(contract, nth_key(key, i as nat)->0, ix)))
    &&& r matches Err(QueryStateRangeError::OutOfRange { key: k, num_values: n }) ==> k@ == key
        && n == num_values && !keys_in_range(key, num_values as nat)
    &&& r matches Err(QueryStateRangeError::QueryState(_)) ==> exists|i: int|
        0 <= i < num_values && nth_key(key, i as nat) is Some && !#[trigger] state.readable(
            contract,
            nth_key(key, i as nat)->0,
            ix,
        )
}

/// Query a range of `num_values` keys starting at `key`, each key following the
/// previous one; an absent value reads as the empty value.
pub fn query_range<T: QueryStateExcl>(
    state: &T,
    state_view_ix: &StateViewIx,
    contract_ca: &ContentAddress,
    key: Key,
    num_values: usize,
) -> (r: Result<Vec<Value>, QueryStateRangeError<T::Error>>)
    ensures
        range_outcome(state, *state_view_ix, contract_ca@, key@, num_values, r),
{
    let initial = key.clone();
    let mut cur = key;
    let mut values: Vec<Value> = Vec::new();
    let mut remaining = num_values;
    while remaining > 0
        invariant
            remaining <= num_values,
            initial@ == key@,
            values@.len() == num_values - remaining,
            remaining > 0 ==> nth_key(initial@, values@.len() as nat) == Some(cur@),
            forall|i: int| 0 <= i < values@.len() ==> #[trigger] nth_key(initial@, i as nat) is Some,
            forall|i: int|
                0 <= i < values@.len() ==> (#[trigger] values@[i])@ == value_or_empty(
                    state.state_at(contract_ca@, nth_key(initial@, i as nat)->0, *state_view_ix),
                ),
        decreases remaining,
    {
        let value = match state.query_state_excl(contract_ca, &cur, state_view_ix) {
            Ok(Some(v)) => v,
            Ok(None) => Vec::new(),
            Err(e) => {
                proof {
                    let i = values@.len() as int;
                    assert(nth_key(initial@, i as nat) == Some(cur@));
                    assert(!state.readable(contract_ca@, nth_key(key@, i as nat)->0, *state_view_ix));
                }
                return Err(QueryStateRangeError::QueryState(e));
            },
        };
        proof {
            assert(value@ == value_or_empty(state.state_at(contract_ca@, cur@, *state_view_ix)));
        }
        let ghost count = values@.len();
        let ghost current = cur@;
        let ghost before = values@;
        values.push(value);
        proof {
            assert(nth_key(initial@, count as nat)->0 == current);
            assert forall|i: int| 0 <= i < values@.len() implies nth_key(initial@, i as nat) is Some
                && (#[trigger] values@[i])@ == value_or_empty(
                state.state_at(contract_ca@, nth_key(initial@, i as nat)->0, *state_view_ix),
            ) by {
                if i < count {
                    assert(values@[i] == before[i]);
                }
            }
        }
        remaining = remaining - 1;
        if remaining > 0 {
            match next_key_or_wrapped(cur) {
                Ok(k) => {
                    cur = k;
                },
                Err(_) => {
                    proof {
                        assert(nth_key(initial@, (count + 1) as nat) is None);
                        lemma_nth_key_none_stays(
                            initial@,
                            (count + 1) as nat,
                            (num_values - 1) as nat,
                        );
                    }
                    return Err(QueryStateRangeError::OutOfRange { key: initial, num_values });
                },
            }
            proof {
                assert(nth_key(initial@, (count + 1) as nat) == key_successor(current));
            }
        }
    }
    proof {
        assert forall|i: int| 0 <= i < num_values implies nth_key(key@, i as nat) is Some && (
        #[trigger] values@[i])@ == value_or_empty(
            state.state_at(contract_ca@, nth_key(key@, i as nat)->0, *state_view_ix),
        ) by {
            assert(initial@ == key@);
        }
        if num_values > 0 {
            assert(nth_key(key@, (num_values - 1) as nat) is Some);
        }
    }
    Ok(values)
}

} // verus!

verus! {

/// Why an entry of a registry could not be read.
#[derive(Clone, Copy, Debug, PartialEq, Eq, Structural)]
pub enum ReadFailure {
    /// The entry is missing the word that encodes its length.
    MissingLenBytes,
    /// The length word is not a valid byte count.
    InvalidLenBytes,
    /// The bytes do not decode to a predicate.
    Decode,
}

/// The predicate held by a contract registry entry's words.
pub open spec fn stored_predicate(words: Seq<i64>) -> Result<PredicateView, ReadFailure> {
    match spec_len_prefixed_bytes(words) {
        Err(LenBytesError::MissingLenBytes) => Err(ReadFailure::MissingLenBytes),
        Err(LenBytesError::InvalidLenBytes) => Err(ReadFailure::InvalidLenBytes),
        Ok(bytes) => match predicate_decoding(bytes) {
            Some(p) => Ok(p),
            None => Err(ReadFailure::Decode),
        },
    }
}

/// The predicate at `addr` in the contract registry, as seen by `state` at
/// `ix`: `None` unless the contract registers the predicate and the predicate
/// is stored.
pub open spec fn predicate_at<T: QueryStateExcl>(
    state: &T,
    ix: StateViewIx,
    registry: Seq<u8>,
    addr: PredicateAddress,
) -> Result<Option<PredicateView>, ReadFailure> {
    let registered = state.state_at(
        registry,
        spec_contract_predicate_key(addr.contract@, addr.predicate@),
        ix,
    );
    let stored = state.state_at(registry, spec_predicate_key(addr.predicate@), ix);
    if registered is None || stored is None {
        Ok(None)
    } else {
        match stored_predicate(stored->0) {
            Ok(p) => Ok(Some(p)),
            Err(f) => Err(f),
        }
    }
}

/// The program at `addr` in the program registry, as seen by `state` at `ix`.
pub open spec fn program_at<T: QueryStateExcl>(
    state: &T,
    ix: StateViewIx,
    registry: Seq<u8>,
    addr: Seq<u8>,
) -> Result<Option<Seq<u8>>, LenBytesError> {
    match state.state_at(registry, spec_program_key(addr), ix) {
        None => Ok(None),
        Some(words) => match spec_len_prefixed_bytes(words) {
            Ok(bytes) => Ok(Some(bytes)),
            Err(e) => Err(e),
        },
    }
}

/// Whether the reads of the predicate at `addr` are sure to succeed: the
/// contract registry's mark, and, where the mark is there, the predicate.
pub open spec fn predicate_readable<T: QueryStateExcl>(
    state: &T,
    ix: StateViewIx,
    registry: Seq<u8>,
    addr: PredicateAddress,
) -> bool {
    let mark = spec_contract_predicate_key(addr.contract@, addr.predicate@);
    &&& state.readable(registry, mark, ix)
    &&& state.state_at(registry, mark, ix) is Some ==> state.readable(
        registry,
        spec_predicate_key(addr.predicate@),
        ix,
    )
}

/// Whether the read of the program at `addr` is sure to succeed.
pub open spec fn program_readable<T: QueryStateExcl>(
    state: &T,
    ix: StateViewIx,
    registry: Seq<u8>,
    addr: Seq<u8>,
) -> bool {
    state.readable(registry, spec_program_key(addr), ix)
}

/// The program of node `b` of the predicate that solution `i` of `solutions`
/// solves, as read through `state` at `ix`; `None` where there is no such
/// predicate or node.
pub open spec fn solution_node_program<T: QueryStateExcl>(
    state: &T,
    ix: StateViewIx,
    registry: Seq<u8>,
    solutions: Seq<Solution>,
    i: int,
    b: int,
) -> Option<Seq<u8>> {
    match predicate_at(state, ix, registry, solutions[i].predicate_to_solve) {
        Ok(Some(p)) => if 0 <= b < p.nodes.len() {
            Some(p.nodes[b].program_address)
        } else {
            None
        },
        _ => None,
    }
}

/// Whether the reads that checking `solutions` at `ix` makes are sure to
/// succeed: those of the predicate of each solution, and that of the program
/// of each node of each predicate read.
pub open spec fn set_readable<T: QueryStateExcl>(
    state: &T,
    ix: StateViewIx,
    contract_registry: Seq<u8>,
    program_registry: Seq<u8>,
    solutions: Seq<Solution>,
) -> bool {
    &&& forall|i: int|
        0 <= i < solutions.len() ==> #[trigger] predicate_readable(
            state,
            ix,
            contract_registry,
            solutions[i].predicate_to_solve,
        )
    &&& forall|i: int, b: int|
        0 <= i < solutions.len() && #[trigger] solution_node_program(
            state,
            ix,
            contract_registry,
            solutions,
            i,
            b,
        ) is Some ==> program_readable(
            state,
            ix,
            program_registry,
            solution_node_program(state, ix, contract_registry, solutions, i, b)->0,
        )
}

/// The registry read failure that a predicate query error reports, if it is one.
pub open spec fn predicate_error_failure<E>(e: QueryPredicateError<E>) -> Option<ReadFailure> {
    match e {
        QueryPredicateError::QueryState(_) => None,
        QueryPredicateError::MissingLenBytes => Some(ReadFailure::MissingLenBytes),
        QueryPredicateError::InvalidLenBytes => Some(ReadFailure::InvalidLenBytes),
        QueryPredicateError::Decode(_) => Some(ReadFailure::Decode),
    }
}

/// The registry read failure that a program query error reports, if it is one.
pub open spec fn program_error_failure<E>(e: QueryProgramError<E>) -> Option<LenBytesError> {
    match e {
        QueryProgramError::QueryState(_) => None,
        QueryProgramError::MissingLenBytes => Some(LenBytesError::MissingLenBytes),
        QueryProgramError::InvalidLenBytes => Some(LenBytesError::InvalidLenBytes),
    }
}

/// Read a predicate from the words of its contract registry entry: the length
/// in bytes, then the bytes, then decode them.
pub fn predicate_from_words<E>(words: &[i64]) -> (r: Result<Predicate, QueryPredicateError<E>>)
    ensures
        r is Ok <==> stored_predicate(words@) is Ok,
        r is Ok ==> r->Ok_0@ == stored_predicate(words@)->Ok_0,
        r is Err ==> predicate_error_failure(r->Err_0) == Some(stored_predicate(words@)->Err_0),
{
    let bytes = match bytes_from_len_prefixed_words(words) {
        Ok(b) => b,
        Err(LenBytesError::MissingLenBytes) => return Err(QueryPredicateError::MissingLenBytes),
        Err(LenBytesError::InvalidLenBytes) => return Err(QueryPredicateError::InvalidLenBytes),
    };
    match decode_predicate(bytes.as_slice()) {
        Ok(p) => Ok(p),
        Err(e) => Err(QueryPredicateError::Decode(e)),
    }
}

/// Read a program from the words of its program registry entry: the length in
/// bytes, then the bytecode.
pub fn program_from_words<E>(words: &[i64]) -> (r: Result<Program, QueryProgramError<E>>)
    ensures
        r is Ok <==> spec_len_prefixed_bytes(words@) is Ok,
        r is Ok ==> r->Ok_0.0@ == spec_len_prefixed_bytes(words@)->Ok_0,
        r is Err ==> program_error_failure(r->Err_0) == Some(
            spec_len_prefixed_bytes(words@)->Err_0,
        ),
{
    match bytes_from_len_prefixed_words(words) {
        Ok(b) => Ok(Program(b)),
        Err(LenBytesError::MissingLenBytes) => Err(QueryProgramError::MissingLenBytes),
        Err(LenBytesError::InvalidLenBytes) => Err(QueryProgramError::InvalidLenBytes),
    }
}

/// Get the predicate at the given address: `None` unless the contract registry
/// marks the predicate as part of the contract and holds the predicate.
pub fn get_predicate<T: QueryStateExcl>(
    state_view: &T,
    state_view_ix: &StateViewIx,
    contract_registry: &ContentAddress,
    pred_addr: &PredicateAddress,
) -> (r: Result<Option<Predicate>, QueryPredicateError<T::Error>>)
    ensures
        r matches Ok(None) ==> predicate_at(state_view, *state_view_ix, contract_registry@, *pred_addr)
            == Ok::<Option<PredicateView>, ReadFailure>(None),
        r matches Ok(Some(p)) ==> predicate_at(
            state_view,
            *state_view_ix,
            contract_registry@,
            *pred_addr,
        ) == Ok::<Option<PredicateView>, ReadFailure>(Some(p@)),
        r matches Err(e) ==> e is QueryState || predicate_at(
            state_view,
            *state_view_ix,
            contract_registry@,
            *pred_addr,
        ) == Err::<Option<PredicateView>, ReadFailure>(predicate_error_failure(e)->0),
        r matches Err(QueryPredicateError::QueryState(_)) ==> !predicate_readable(
            state_view,
            *state_view_ix,
            contract_registry@,
            *pred_addr,
        ),
{
    // Check that the predicate is a part of the contract.
    let contract_predicate_key = contract_predicate_key(pred_addr);
    match state_view.query_state_excl(contract_registry, &contract_predicate_key, state_view_ix) {
        Err(e) => return Err(QueryPredicateError::QueryState(e)),
        Ok(None) => return Ok(None),
        Ok(Some(_)) => {},
    }
    // Read the full predicate out of the contract registry storage.
    let predicate_key = predicate_key(&pred_addr.predicate);
    let pred_words = match state_view.query_state_excl(
        contract_registry,
        &predicate_key,
        state_view_ix,
    ) {
        Err(e) => return Err(QueryPredicateError::QueryState(e)),
        Ok(None) => return Ok(None),
        Ok(Some(w)) => w,
    };
    match predicate_from_words(pred_words.as_slice()) {
        Ok(p) => Ok(Some(p)),
        Err(e) => Err(e),
    }
}

/// Get the program at the given address from the program registry.
pub fn get_program<T: QueryStateExcl>(
    state_view: &T,
    state_view_ix: &StateViewIx,
    program_registry: &ContentAddress,
    prog_addr: &ContentAddress,
) -> (r: Result<Option<Program>, QueryProgramError<T::Error>>)
    ensures
        r matches Ok(None) ==> program_at(state_view, *state_view_ix, program_registry@, prog_addr@)
            == Ok::<Option<Seq<u8>>, LenBytesError>(None),
        r matches Ok(Some(p)) ==> program_at(
            state_view,
            *state_view_ix,
            program_registry@,
            prog_addr@,
        ) == Ok::<Option<Seq<u8>>, LenBytesError>(Some(p.0@)),
        r matches Err(e) ==> e is QueryState || program_at(
            state_view,
            *state_view_ix,
            program_registry@,
            prog_addr@,
        ) == Err::<Option<Seq<u8>>, LenBytesError>(program_error_failure(e)->0),
        r matches Err(QueryProgramError::QueryState(_)) ==> !program_readable(
            state_view,
            *state_view_ix,
            program_registry@,
            prog_addr@,
        ),
{
    let program_key = program_key(prog_addr);
    let prog_words = match state_view.query_state_excl(
        program_registry,
        &program_key,
        state_view_ix,
    ) {
        Err(e) => return Err(QueryProgramError::QueryState(e)),
        Ok(None) => return Ok(None),
        Ok(Some(w)) => w,
    };
    match program_from_words(prog_words.as_slice()) {
        Ok(p) => Ok(Some(p)),
        Err(e) => Err(e),
    }
}

} // verus!

verus! {

/// The predicates of a solution set, by predicate address.
pub type PredicateMap = AddressMap<Predicate>;

/// The programs of a set of predicates, by program address.
pub type ProgramMap = AddressMap<Program>;

/// The predicate that solution `i` of `solutions` solves, read through `state` at `ix`.
pub open spec fn solution_predicate_at<T: QueryStateExcl>(
    state: &T,
    ix: StateViewIx,
    registry: Seq<u8>,
    solutions: Seq<Solution>,
    i: int,
) -> Result<Option<PredicateView>, ReadFailure> {
    predicate_at(state, ix, registry, solutions[i].predicate_to_solve)
}

/// Every solution before `n` solves a predicate that is registered and readable.
pub open spec fn solutions_readable_before<T: QueryStateExcl>(
    state: &T,
    ix: StateViewIx,
    registry: Seq<u8>,
    solutions: Seq<Solution>,
    n: int,
) -> bool {
    forall|j: int|
        0 <= j < n ==> #[trigger] solution_predicate_at(state, ix, registry, solutions, j) matches Ok(
            Some(_),
        )
}

/// Read and return all predicates required by the given solutions, by
/// predicate address. Stops at the first solution whose predicate cannot be had.
pub fn get_solution_set_predicates<T: QueryStateExcl>(
    state_view: &T,
    state_view_ix: &StateViewIx,
    contract_registry: &ContentAddress,
    solutions: &[Solution],
) -> (r: Result<PredicateMap, SolutionSetPredicatesError<T::Error>>)
    ensures
        r matches Ok(m) ==> {
            &&& m.wf()
            &&& solutions_readable_before(
                state_view,
                *state_view_ix,
                contract_registry@,
                solutions@,
                solutions@.len() as int,
            )
            &&& forall|i: int|
                0 <= i < solutions@.len() ==> #[trigger] solution_predicate_at(
                    state_view,
                    *state_view_ix,
                    contract_registry@,
                    solutions@,
                    i,
                ) == Ok::<Option<PredicateView>, ReadFailure>(
                    Some(m@[solutions@[i].predicate_to_solve.predicate@]),
                )
            &&& forall|ca: Seq<u8>|
                #[trigger] m@.dom().contains(ca) <==> exists|i: int|
                    0 <= i < solutions@.len() && solutions@[i].predicate_to_solve.predicate@ == ca
        },
        r matches Err(SolutionSetPredicatesError::PredicateDoesNotExist(ca)) ==> exists|i: int|
            0 <= i < solutions@.len() && solutions@[i].predicate_to_solve.predicate@ == ca@
                && solutions_readable_before(
                state_view,
                *state_view_ix,
                contract_registry@,
                solutions@,
                i,
            ) && solution_predicate_at(
                state_view,
                *state_view_ix,
                contract_registry@,
                solutions@,
                i,
            ) == Ok::<Option<PredicateView>, ReadFailure>(None),
        r matches Err(SolutionSetPredicatesError::QueryPredicate(e)) ==> exists|i: int|
            0 <= i < solutions@.len() && solutions_readable_before(
                state_view,
                *state_view_ix,
                contract_registry@,
                solutions@,
                i,
            ) && (e is QueryState || solution_predicate_at(
                state_view,
                *state_view_ix,
                contract_registry@,
                solutions@,
                i,
            ) == Err::<Option<PredicateView>, ReadFailure>(predicate_error_failure(e)->0)),
        r matches Err(
            SolutionSetPredicatesError::QueryPredicate(QueryPredicateError::QueryState(_)),
        ) ==> exists|i: int|
            0 <= i < solutions@.len() && solutions_readable_before(
                state_view,
                *state_view_ix,
                contract_registry@,
                solutions@,
                i,
            ) && !#[trigger] predicate_readable(
                state_view,
                *state_view_ix,
                contract_registry@,
                solutions@[i].predicate_to_solve,
            ),
{
    let mut map: PredicateMap = AddressMap::new();
    let mut i: usize = 0;
    while i < solutions.len()
        invariant
            i <= solutions@.len(),
            map.wf(),
            solutions_readable_before(
                state_view,
                *state_view_ix,
                contract_registry@,
                solutions@,
                i as int,
            ),
            forall|j: int|
                0 <= j < i ==> #[trigger] solution_predicate_at(
                    state_view,
                    *state_view_ix,
                    contract_registry@,
                    solutions@,
                    j,
                ) == Ok::<Option<PredicateView>, ReadFailure>(
                    Some(map@[solutions@[j].predicate_to_solve.predicate@]),
                ),
            forall|ca: Seq<u8>|
                #[trigger] map@.dom().contains(ca) <==> exists|j: int|
                    0 <= j < i && solutions@[j].predicate_to_solve.predicate@ == ca,
        decreases solutions@.len() - i,
    {
        let pred_addr = solutions[i].predicate_to_solve;
        let ca = pred_addr.predicate;
        let predicate = match get_predicate(state_view, state_view_ix, contract_registry, &pred_addr) {
            Ok(Some(p)) => p,
            Ok(None) => return Err(SolutionSetPredicatesError::PredicateDoesNotExist(ca)),
            Err(e) => return Err(SolutionSetPredicatesError::QueryPredicate(e)),
        };
        let ghost before = map@;
        let ghost v = predicate@;
        map.insert(ca, predicate);
        proof {
            assert forall|j: int| 0 <= j < i + 1 implies #[trigger] solution_predicate_at(
                state_view,
                *state_view_ix,
                contract_registry@,
                solutions@,
                j,
            ) == Ok::<Option<PredicateView>, ReadFailure>(
                Some(map@[solutions@[j].predicate_to_solve.predicate@]),
            ) by {
                if j < i && solutions@[j].predicate_to_solve.predicate@ == ca@ {
                    // The stored predicate depends on the predicate's address alone.
                    assert(solution_predicate_at(
                        state_view,
                        *state_view_ix,
                        contract_registry@,
                        solutions@,
                        j,
                    ) == Ok::<Option<PredicateView>, ReadFailure>(Some(v)));
                }
            }
            assert forall|ca2: Seq<u8>| #[trigger] map@.dom().contains(ca2) <==> exists|j: int|
                0 <= j < i + 1 && solutions@[j].predicate_to_solve.predicate@ == ca2 by {
                if ca2 == ca@ {
                    assert(solutions@[i as int].predicate_to_solve.predicate@ == ca2);
                }
                if exists|j: int| 0 <= j < i + 1 && solutions@[j].predicate_to_solve.predicate@ == ca2 {
                    let j = choose|j: int| 0 <= j < i + 1 && solutions@[j].predicate_to_solve.predicate@ == ca2;
                    if j < i {
                        assert(before.dom().contains(ca2));
                    }
                }
            }
        }
        i = i + 1;
    }
    Ok(map)
}

} // verus!

verus! {

/// Whether node `b` of entry `a` comes before node `n` of entry `k`, among the
/// nodes of the predicates of `preds` taken in order.
pub open spec fn node_before<K>(preds: Seq<(K, Predicate)>, a: int, b: int, k: int, n: int) -> bool {
    (0 <= a < k && a < preds.len() && 0 <= b < preds[a].1.nodes@.len()) || (a == k && 0 <= b < n)
}

/// The program of node `b` of the predicate of entry `a`, read through `state` at `ix`.
pub open spec fn node_program_at<T: QueryStateExcl, K>(
    state: &T,
    ix: StateViewIx,
    registry: Seq<u8>,
    preds: Seq<(K, Predicate)>,
    a: int,
    b: int,
) -> Result<Option<Seq<u8>>, LenBytesError> {
    program_at(state, ix, registry, preds[a].1.nodes@[b].program_address@)
}

/// Every node before node `n` of entry `k` names a registered, readable program.
pub open spec fn nodes_readable_before<T: QueryStateExcl, K>(
    state: &T,
    ix: StateViewIx,
    registry: Seq<u8>,
    preds: Seq<(K, Predicate)>,
    k: int,
    n: int,
) -> bool {
    forall|a: int, b: int|
        node_before(preds, a, b, k, n) ==> #[trigger] node_program_at(state, ix, registry, preds, a, b)
            matches Ok(Some(_))
}

/// Read and return all programs required by the nodes of the given predicates,
/// by program address. Stops at the first node whose program cannot be had.
pub fn get_predicates_programs<T: QueryStateExcl>(
    state_view: &T,
    state_view_ix: &StateViewIx,
    program_registry: &ContentAddress,
    predicates: &PredicateMap,
) -> (r: Result<ProgramMap, PredicateProgramsError<T::Error>>)
    ensures
        r matches Ok(m) ==> {
            &&& m.wf()
            &&& nodes_readable_before(
                state_view,
                *state_view_ix,
                program_registry@,
                predicates.0@,
                predicates.0@.len() as int,
                0,
            )
            &&& forall|a: int, b: int|
                node_before(predicates.0@, a, b, predicates.0@.len() as int, 0)
                    ==> #[trigger] node_program_at(
                    state_view,
                    *state_view_ix,
                    program_registry@,
                    predicates.0@,
                    a,
                    b,
                ) == Ok::<Option<Seq<u8>>, LenBytesError>(
                    Some(m@[predicates.0@[a].1.nodes@[b].program_address@]),
                )
            &&& forall|ca: Seq<u8>|
                #[trigger] m@.dom().contains(ca) <==> exists|a: int, b: int|
                    node_before(predicates.0@, a, b, predicates.0@.len() as int, 0)
                        && predicates.0@[a].1.nodes@[b].program_address@ == ca
        },
        r matches Err(PredicateProgramsError::ProgramDoesNotExist(ca)) ==> exists|a: int, b: int|
            0 <= a < predicates.0@.len() && 0 <= b < predicates.0@[a].1.nodes@.len()
                && predicates.0@[a].1.nodes@[b].program_address@ == ca@ && nodes_readable_before(
                state_view,
                *state_view_ix,
                program_registry@,
                predicates.0@,
                a,
                b,
            ) && node_program_at(
                state_view,
                *state_view_ix,
                program_registry@,
                predicates.0@,
                a,
                b,
            ) == Ok::<Option<Seq<u8>>, LenBytesError>(None),
        r matches Err(PredicateProgramsError::QueryProgram(e)) ==> exists|a: int, b: int|
            0 <= a < predicates.0@.len() && 0 <= b < predicates.0@[a].1.nodes@.len()
                && nodes_readable_before(
                state_view,
                *state_view_ix,
                program_registry@,
                predicates.0@,
                a,
                b,
            ) && (e is QueryState || node_program_at(
                state_view,
                *state_view_ix,
                program_registry@,
                predicates.0@,
                a,
                b,
            ) == Err::<Option<Seq<u8>>, LenBytesError>(program_error_failure(e)->0)),
        r matches Err(PredicateProgramsError::QueryProgram(QueryProgramError::QueryState(_)))
            ==> exists|a: int, b: int|
            0 <= a < predicates.0@.len() && 0 <= b < predicates.0@[a].1.nodes@.len()
                && nodes_readable_before(
                state_view,
                *state_view_ix,
                program_registry@,
                predicates.0@,
                a,
                b,
            ) && !#[trigger] program_readable(
                state_view,
                *state_view_ix,
                program_registry@,
                predicates.0@[a].1.nodes@[b].program_address@,
            ),
{
    let ghost preds = predicates.0@;
    let mut map: ProgramMap = AddressMap::new();
    let mut k: usize = 0;
    while k < predicates.0.len()
        invariant
            k <= preds.len(),
            preds == predicates.0@,
            map.wf(),
            nodes_readable_before(state_view, *state_view_ix, program_registry@, preds, k as int, 0),
            forall|a: int, b: int|
                node_before(preds, a, b, k as int, 0) ==> #[trigger] node_program_at(
                    state_view,
                    *state_view_ix,
                    program_registry@,
                    preds,
                    a,
                    b,
                ) == Ok::<Option<Seq<u8>>, LenBytesError>(
                    Some(map@[preds[a].1.nodes@[b].program_address@]),
                ),
            forall|ca: Seq<u8>|
                #[trigger] map@.dom().contains(ca) <==> exists|a: int, b: int|
                    node_before(preds, a, b, k as int, 0) && preds[a].1.nodes@[b].program_address@
                        == ca,
        decreases preds.len() - k,
    {
        let nodes = &predicates.0[k].1.nodes;
        let mut n: usize = 0;
        while n < nodes.len()
            invariant
                k < preds.len(),
                n <= nodes@.len(),
                preds == predicates.0@,
                nodes@ == preds[k as int].1.nodes@,
                map.wf(),
                nodes_readable_before(
                    state_view,
                    *state_view_ix,
                    program_registry@,
                    preds,
                    k as int,
                    n as int,
                ),
                forall|a: int, b: int|
                    node_before(preds, a, b, k as int, n as int) ==> #[trigger] node_program_at(
                        state_view,
                        *state_view_ix,
                        program_registry@,
                        preds,
                        a,
                        b,
                    ) == Ok::<Option<Seq<u8>>, LenBytesError>(
                        Some(map@[preds[a].1.nodes@[b].program_address@]),
                    ),
                forall|ca: Seq<u8>|
                    #[trigger] map@.dom().contains(ca) <==> exists|a: int, b: int|
                        node_before(preds, a, b, k as int, n as int)
                            && preds[a].1.nodes@[b].program_address@ == ca,
            decreases nodes@.len() - n,
        {
            let prog_addr = nodes[n].program_address;
            let program = match get_program(state_view, state_view_ix, program_registry, &prog_addr) {
                Ok(Some(p)) => p,
                Ok(None) => {
                    assert(node_program_at(
                        state_view,
                        *state_view_ix,
                        program_registry@,
                        preds,
                        k as int,
                        n as int,
                    ) == Ok::<Option<Seq<u8>>, LenBytesError>(None));
                    return Err(PredicateProgramsError::ProgramDoesNotExist(prog_addr));
                },
                Err(e) => {
                    assert(e is QueryState || node_program_at(
                        state_view,
                        *state_view_ix,
                        program_registry@,
                        preds,
                        k as int,
                        n as int,
                    ) == Err::<Option<Seq<u8>>, LenBytesError>(program_error_failure(e)->0));
                    return Err(PredicateProgramsError::QueryProgram(e));
                },
            };
            let ghost before = map@;
            let ghost v = program@;
            map.insert(prog_addr, program);
            proof {
                assert forall|a: int, b: int|
                    node_before(preds, a, b, k as int, n + 1) implies #[trigger] node_program_at(
                    state_view,
                    *state_view_ix,
                    program_registry@,
                    preds,
                    a,
                    b,
                ) == Ok::<Option<Seq<u8>>, LenBytesError>(
                    Some(map@[preds[a].1.nodes@[b].program_address@]),
                ) by {
                    if !(a == k && b == n) {
                        assert(node_before(preds, a, b, k as int, n as int));
                    }
                }
                assert forall|ca: Seq<u8>| #[trigger] map@.dom().contains(ca) <==> exists|a: int, b: int|
                    node_before(preds, a, b, k as int, n + 1) && preds[a].1.nodes@[b].program_address@
                        == ca by {
                    if ca == prog_addr@ {
                        assert(node_before(preds, k as int, n as int, k as int, n + 1));
                    }
                    if exists|a: int, b: int|
                        node_before(preds, a, b, k as int, n + 1) && preds[a].1.nodes@[b].program_address@
                            == ca {
                        let (a, b) = choose|a: int, b: int|
                            node_before(preds, a, b, k as int, n + 1)
                                && preds[a].1.nodes@[b].program_address@ == ca;
                        if !(a == k && b == n) {
                            assert(node_before(preds, a, b, k as int, n as int));
                            assert(before.dom().contains(ca));
                        }
                    }
                }
                assert forall|a: int, b: int|
                    node_before(preds, a, b, k as int, n + 1) implies #[trigger] node_program_at(
                    state_view,
                    *state_view_ix,
                    program_registry@,
                    preds,
                    a,
                    b,
                ) matches Ok(Some(_)) by {
                    if !(a == k && b == n) {
                        assert(node_before(preds, a, b, k as int, n as int));
                    }
                }
            }
            n = n + 1;
        }
        proof {
            assert forall|a: int, b: int|
                node_before(preds, a, b, k + 1, 0) <==> node_before(
                    preds,
                    a,
                    b,
                    k as int,
                    nodes@.len() as int,
                ) by {}
            assert forall|ca: Seq<u8>| #[trigger] map@.dom().contains(ca) <==> exists|a: int, b: int|
                node_before(preds, a, b, k + 1, 0) && preds[a].1.nodes@[b].program_address@ == ca by {
                if map@.dom().contains(ca) {
                    let (a, b) = choose|a: int, b: int|
                        node_before(preds, a, b, k as int, nodes@.len() as int)
                            && preds[a].1.nodes@[b].program_address@ == ca;
                    assert(node_before(preds, a, b, k + 1, 0));
                }
                if exists|a: int, b: int|
                    node_before(preds, a, b, k + 1, 0) && preds[a].1.nodes@[b].program_address@ == ca {
                    let (a, b) = choose|a: int, b: int|
                        node_before(preds, a, b, k + 1, 0) && preds[a].1.nodes@[b].program_address@
                            == ca;
                    assert(node_before(preds, a, b, k as int, nodes@.len() as int));
                }
            }
        }
        k = k + 1;
    }
    Ok(map)
}

} // verus!

verus! {

/// The state view index just after the solution set at `ix`.
pub open spec fn post_state_ix(ix: StateViewIx) -> StateViewIx {
    StateViewIx { block: ix.block, solution_set_ix: (ix.solution_set_ix + 1) as u64 }
}

/// `m` holds exactly the predicates that `solutions` solve, each as read through
/// `state` at `ix`.
pub open spec fn predicates_fit<T: QueryStateExcl>(
    state: &T,
    ix: StateViewIx,
    registry: Seq<u8>,
    solutions: Seq<Solution>,
    m: Map<Seq<u8>, PredicateView>,
) -> bool {
    &&& forall|i: int|
        0 <= i < solutions.len() ==> m.dom().contains(solutions[i].predicate_to_solve.predicate@)
            && #[trigger] solution_predicate_at(state, ix, registry, solutions, i) == Ok::<
            Option<PredicateView>,
            ReadFailure,
        >(Some(m[solutions[i].predicate_to_solve.predicate@]))
    &&& forall|ca: Seq<u8>|
        #[trigger] m.dom().contains(ca) ==> exists|i: int|
            0 <= i < solutions.len() && solutions[i].predicate_to_solve.predicate@ == ca
}

/// Whether `ca` is the program address of a node of one of the predicates of `preds`.
pub open spec fn node_program_of<K>(preds: Seq<(K, Predicate)>, ca: Seq<u8>) -> bool {
    exists|a: int, b: int|
        0 <= a < preds.len() && 0 <= b < preds[a].1.nodes@.len() && (
        #[trigger] preds[a].1.nodes@[b]).program_address@ == ca
}

/// The programs of `q` are exactly those of the nodes of the predicates of `preds`.
pub open spec fn programs_cover<K>(preds: Seq<(K, Predicate)>, q: Map<Seq<u8>, Seq<u8>>) -> bool {
    forall|ca: Seq<u8>| #[trigger] q.dom().contains(ca) <==> node_program_of(preds, ca)
}

/// Every program of `q` is the program registered at its address, as read
/// through `state` at `ix`.
pub open spec fn programs_fit<T: QueryStateExcl>(
    state: &T,
    ix: StateViewIx,
    registry: Seq<u8>,
    q: Map<Seq<u8>, Seq<u8>>,
) -> bool {
    forall|ca: Seq<u8>|
        #[trigger] q.dom().contains(ca) ==> program_at(state, ix, registry, ca) == Ok::<
            Option<Seq<u8>>,
            LenBytesError,
        >(Some(q[ca]))
}

/// Checking `solutions` at `ix` stops at a read that is not sure to succeed:
/// the predicate of a solution, where those of the solutions before it were
/// all found; or the program of a node, where all the predicates were found
/// and the programs of the nodes before it too.
pub open spec fn set_read_fails<T: QueryStateExcl>(
    state: &T,
    ix: StateViewIx,
    contract_registry: Seq<u8>,
    program_registry: Seq<u8>,
    sols: Seq<Solution>,
) -> bool {
    ||| exists|i: int|
        0 <= i < sols.len() && solutions_readable_before(state, ix, contract_registry, sols, i)
            && !#[trigger] predicate_readable(
            state,
            ix,
            contract_registry,
            sols[i].predicate_to_solve,
        )
    ||| exists|m: PredicateMap|
        predicates_fit(state, ix, contract_registry, sols, m@) && exists|a: int, b: int|
            0 <= a < m.0@.len() && 0 <= b < m.0@[a].1.nodes@.len() && nodes_readable_before(
                state,
                ix,
                program_registry,
                m.0@,
                a,
                b,
            ) && !#[trigger] program_readable(
                state,
                ix,
                program_registry,
                m.0@[a].1.nodes@[b].program_address@,
            )
}

/// What checking `set` at `pre` may come to: the set index is out of bounds
/// exactly at the last index; each invalid outcome is explained by what the
/// registries hold in the post-state; a valid set's gas, and a failure of the
/// predicates, are what the checker gave for the set's predicates and programs.
pub open spec fn set_check_outcome<T: QueryStateExcl, F>(
    state: &T,
    pre: StateViewIx,
    set: SolutionSet,
    contract_registry: Seq<u8>,
    program_registry: Seq<u8>,
    check: F,
    result: Result<Result<u64, InvalidSet<T::Error>>, CheckSetError<T::Error>>,
) -> bool where
    F: Fn(StateViewIx, StateViewIx, PredicateMap, ProgramMap) -> Result<
        u64,
        essential_check::solution::PredicatesError<QueryStateRangeError<T::Error>>,
    >,
 {
    let post = post_state_ix(pre);
    let sols = set.solutions@;
    &&& (result matches Err(CheckSetError::SolutionSetIxOutOfBounds)) <==> pre.solution_set_ix
        == u64::MAX
    &&& result matches Err(CheckSetError::QueryState(_)) ==> set_read_fails(
        state,
        post,
        contract_registry,
        program_registry,
        sols,
    )
    &&& result matches Err(CheckSetError::QueryState(_)) ==> !set_readable(
        state,
        post,
        contract_registry,
        program_registry,
        sols,
    )
    &&& result matches Ok(Err(InvalidSet::PredicateDoesNotExist(ca))) ==> exists|i: int|
        0 <= i < sols.len() && sols[i].predicate_to_solve.predicate@ == ca@
            && solutions_readable_before(state, post, contract_registry, sols, i)
            && solution_predicate_at(state, post, contract_registry, sols, i) == Ok::<
            Option<PredicateView>,
            ReadFailure,
        >(None)
    &&& result matches Ok(Err(InvalidSet::PredicateInvalid)) ==> exists|i: int|
        0 <= i < sols.len() && solutions_readable_before(state, post, contract_registry, sols, i)
            && solution_predicate_at(state, post, contract_registry, sols, i) is Err
    &&& result matches Ok(Err(InvalidSet::ProgramDoesNotExist(ca))) ==> exists|m: PredicateMap|
        predicates_fit(state, post, contract_registry, sols, m@) && exists|a: int, b: int|
            0 <= a < m.0@.len() && 0 <= b < m.0@[a].1.nodes@.len()
                && m.0@[a].1.nodes@[b].program_address@ == ca@ && nodes_readable_before(
                state,
                post,
                program_registry,
                m.0@,
                a,
                b,
            ) && node_program_at(state, post, program_registry, m.0@, a, b) == Ok::<
                Option<Seq<u8>>,
                LenBytesError,
            >(None)
    &&& result matches Ok(Err(InvalidSet::ProgramInvalid)) ==> exists|m: PredicateMap|
        predicates_fit(state, post, contract_registry, sols, m@) && exists|a: int, b: int|
            0 <= a < m.0@.len() && 0 <= b < m.0@[a].1.nodes@.len() && nodes_readable_before(
                state,
                post,
                program_registry,
                m.0@,
                a,
                b,
            ) && node_program_at(state, post, program_registry, m.0@, a, b) is Err
    &&& result matches Ok(Ok(gas)) ==> exists|m: PredicateMap, q: ProgramMap|
        predicates_fit(state, post, contract_registry, sols, m@) && programs_fit(
            state,
            post,
            program_registry,
            q@,
        ) && programs_cover(m.0@, q@) && check.ensures((pre, post, m, q), Ok(gas))
    &&& result matches Ok(Err(InvalidSet::Predicates(e))) ==> exists|m: PredicateMap, q: ProgramMap|
        predicates_fit(state, post, contract_registry, sols, m@) && programs_fit(
            state,
            post,
            program_registry,
            q@,
        ) && programs_cover(m.0@, q@) && check.ensures((pre, post, m, q), Err(e))

}

/// Validate the given solution set: read its predicates and their programs from
/// the post-state (so that contracts submitted within the set can be solved),
/// then hand them to the predicate checker. If the set is valid, returns the
/// total gas spent.
pub fn check_solution_set<T: QueryStateExcl, F>(
    state: &T,
    pre_state_view_ix: StateViewIx,
    solution_set: &SolutionSet,
    contract_registry: &ContentAddress,
    program_registry: &ContentAddress,
    check_predicates: &F,
) -> (r: Result<Result<u64, InvalidSet<T::Error>>, CheckSetError<T::Error>>) where
    F: Fn(StateViewIx, StateViewIx, PredicateMap, ProgramMap) -> Result<
        u64,
        essential_check::solution::PredicatesError<QueryStateRangeError<T::Error>>,
    >,

    requires
        forall|pre: StateViewIx, post: StateViewIx, m: PredicateMap, q: ProgramMap|
            #[trigger] check_predicates.requires((pre, post, m, q)),
    ensures
        set_check_outcome(
            state,
            pre_state_view_ix,
            *solution_set,
            contract_registry@,
            program_registry@,
            *check_predicates,
            r,
        ),
{
    // Prepare the post-state view index.
    if pre_state_view_ix.solution_set_ix == u64::MAX {
        return Err(CheckSetError::SolutionSetIxOutOfBounds);
    }
    let post_state_view_ix = StateViewIx {
        block: pre_state_view_ix.block,
        solution_set_ix: pre_state_view_ix.solution_set_ix + 1,
    };
    assert(post_state_view_ix == post_state_ix(pre_state_view_ix));
    let ghost sols = solution_set.solutions@;

    // Retrieve the predicates that the solution set attempts to solve from the post-state.
    let predicates = match get_solution_set_predicates(
        state,
        &post_state_view_ix,
        contract_registry,
        solution_set.solutions.as_slice(),
    ) {
        Ok(predicates) => predicates,
        Err(SolutionSetPredicatesError::PredicateDoesNotExist(ca)) => {
            return Ok(Err(InvalidSet::PredicateDoesNotExist(ca)));
        },
        Err(SolutionSetPredicatesError::QueryPredicate(err)) => match err {
            QueryPredicateError::Decode(_)
            | QueryPredicateError::MissingLenBytes
            | QueryPredicateError::InvalidLenBytes => {
                return Ok(Err(InvalidSet::PredicateInvalid));
            },
            QueryPredicateError::QueryState(err) => {
                proof {
                    let i = choose|i: int|
                        0 <= i < sols.len() && solutions_readable_before(
                            state,
                            post_state_view_ix,
                            contract_registry@,
                            sols,
                            i,
                        ) && !#[trigger] predicate_readable(
                            state,
                            post_state_view_ix,
                            contract_registry@,
                            sols[i].predicate_to_solve,
                        );
                    assert(!predicate_readable(
                        state,
                        post_state_view_ix,
                        contract_registry@,
                        sols[i].predicate_to_solve,
                    ));
                }
                return Err(CheckSetError::QueryState(err));
            },
        },
    };

    proof {
        assert forall|i: int| 0 <= i < sols.len() implies predicates@.dom().contains(
            sols[i].predicate_to_solve.predicate@,
        ) by {
            let ca = sols[i].predicate_to_solve.predicate@;
            assert(0 <= i < sols.len() && sols[i].predicate_to_solve.predicate@ == ca);
            assert(predicates@.dom().contains(ca));
        }
        assert(predicates_fit(state, post_state_view_ix, contract_registry@, sols, predicates@));
    }

    // Retrieve the programs that the predicates specify from the post-state.
    let programs = match get_predicates_programs(
        state,
        &post_state_view_ix,
        program_registry,
        &predicates,
    ) {
        Ok(programs) => programs,
        Err(PredicateProgramsError::ProgramDoesNotExist(ca)) => {
            return Ok(Err(InvalidSet::ProgramDoesNotExist(ca)));
        },
        Err(PredicateProgramsError::QueryProgram(err)) => match err {
            QueryProgramError::MissingLenBytes | QueryProgramError::InvalidLenBytes => {
                return Ok(Err(InvalidSet::ProgramInvalid));
            },
            QueryProgramError::QueryState(err) => {
                proof {
                    let preds = predicates.0@;
                    let (a, b) = choose|a: int, b: int|
                        0 <= a < preds.len() && 0 <= b < preds[a].1.nodes@.len()
                            && !#[trigger] program_readable(
                            state,
                            post_state_view_ix,
                            program_registry@,
                            preds[a].1.nodes@[b].program_address@,
                        );
                    lemma_assoc_index(preds, a);
                    let ca = preds[a].0@;
                    assert(predicates@.dom().contains(ca));
                    let i = choose|i: int|
                        0 <= i < sols.len() && sols[i].predicate_to_solve.predicate@ == ca;
                    assert(solution_predicate_at(
                        state,
                        post_state_view_ix,
                        contract_registry@,
                        sols,
                        i,
                    ) == Ok::<Option<PredicateView>, ReadFailure>(Some(preds[a].1@)));
                    assert(solution_node_program(
                        state,
                        post_state_view_ix,
                        contract_registry@,
                        sols,
                        i,
                        b,
                    ) == Some(preds[a].1.nodes@[b].program_address@));
                }
                return Err(CheckSetError::QueryState(err));
            },
        },
    };
    proof {
        let preds = predicates.0@;
        assert forall|ca: Seq<u8>| #[trigger] programs@.dom().contains(ca) implies program_at(
            state,
            post_state_view_ix,
            program_registry@,
            ca,
        ) == Ok::<Option<Seq<u8>>, LenBytesError>(Some(programs@[ca])) by {
            let (a, b) = choose|a: int, b: int|
                node_before(preds, a, b, preds.len() as int, 0)
                    && preds[a].1.nodes@[b].program_address@ == ca;
            assert(node_program_at(state, post_state_view_ix, program_registry@, preds, a, b) == Ok::<
                Option<Seq<u8>>,
                LenBytesError,
            >(Some(programs@[preds[a].1.nodes@[b].program_address@])));
        }
    }

    proof {
        assert(programs_fit(state, post_state_view_ix, program_registry@, programs@));
        let preds = predicates.0@;
        assert forall|ca: Seq<u8>| #[trigger] programs@.dom().contains(ca) <==> node_program_of(
            preds,
            ca,
        ) by {
            if programs@.dom().contains(ca) {
                let (a, b) = choose|a: int, b: int|
                    node_before(preds, a, b, preds.len() as int, 0)
                        && preds[a].1.nodes@[b].program_address@ == ca;
                assert(preds[a].1.nodes@[b].program_address@ == ca);
            }
            if node_program_of(preds, ca) {
                let (a, b) = choose|a: int, b: int|
                    0 <= a < preds.len() && 0 <= b < preds[a].1.nodes@.len() && (
                    #[trigger] preds[a].1.nodes@[b]).program_address@ == ca;
                assert(node_before(preds, a, b, preds.len() as int, 0));
            }
        }
        assert(programs_cover(preds, programs@));
    }

    // Check the solution set's predicates.
    let ghost m = predicates;
    let ghost q = programs;
    let res = check_predicates(pre_state_view_ix, post_state_view_ix, predicates, programs);
    proof {
        assert(predicates_fit(state, post_state_view_ix, contract_registry@, sols, m@));
        assert(programs_fit(state, post_state_view_ix, program_registry@, q@));
        assert(programs_cover(m.0@, q@));
        assert(check_predicates.ensures((pre_state_view_ix, post_state_view_ix, m, q), res));
    }
    match res {
        Err(err) => {
            let out: Result<Result<u64, InvalidSet<T::Error>>, CheckSetError<T::Error>> = Ok(
                Err(InvalidSet::Predicates(err)),
            );
            assert(out matches Ok(Err(InvalidSet::Predicates(e))) ==> e == err);
            out
        },
        Ok(gas) => {
            let out: Result<Result<u64, InvalidSet<T::Error>>, CheckSetError<T::Error>> = Ok(
                Ok(gas),
            );
            assert(out matches Ok(Ok(g)) ==> g == gas);
            out
        },
    }
}

} // verus!

verus! {

/// Whether the indices of `s` never decrease.
pub open spec fn sorted_by_index<X>(s: Seq<(u64, X)>) -> bool {
    forall|a: int, b: int| 0 <= a < b < s.len() ==> s[a].0 <= s[b].0
}

/// Order the items of a chunk by their solution set index.
pub fn sort_by_index<X>(chunk: Vec<(u64, X)>) -> (r: Vec<(u64, X)>)
    ensures
        sorted_by_index(r@),
        r@.to_multiset() == chunk@.to_multiset(),
{
    broadcast use vstd::seq_lib::group_to_multiset_ensures;

    let mut rest = chunk;
    let mut out: Vec<(u64, X)> = Vec::new();
    proof {
        assert(out@.to_multiset() =~= vstd::multiset::Multiset::empty());
        assert(out@.to_multiset().add(rest@.to_multiset()) =~= chunk@.to_multiset());
    }
    while rest.len() > 0
        invariant
            sorted_by_index(out@),
            forall|a: int, b: int| 0 <= a < out@.len() && 0 <= b < rest@.len() ==> out@[a].0 <= rest@[b].0,
            out@.to_multiset().add(rest@.to_multiset()) == chunk@.to_multiset(),
        decreases rest@.len(),
    {
        let mut m: usize = 0;
        let mut j: usize = 1;
        while j < rest.len()
            invariant
                0 < rest@.len(),
                m < rest@.len(),
                1 <= j <= rest@.len(),
                forall|b: int| 0 <= b < j ==> rest@[m as int].0 <= rest@[b].0,
            decreases rest@.len() - j,
        {
            if rest[j].0 < rest[m].0 {
                m = j;
            }
            j = j + 1;
        }
        let ghost before_rest = rest@;
        let ghost before_out = out@;
        let x = rest.remove(m);
        out.push(x);
        proof {
            before_rest.to_multiset_ensures();
            before_out.to_multiset_ensures();
            assert(x == before_rest[m as int]);
            assert(before_rest.remove(m as int).to_multiset() =~= before_rest.to_multiset().remove(x));
            assert(before_out.push(x).to_multiset() =~= before_out.to_multiset().insert(x));
            assert(out@.to_multiset().add(rest@.to_multiset()) =~= chunk@.to_multiset());
            assert forall|b: int| 0 <= b < rest@.len() implies x.0 <= rest@[b].0 by {
                if b < m {
                    assert(rest@[b] == before_rest[b]);
                } else {
                    assert(rest@[b] == before_rest[b + 1]);
                }
            }
            assert forall|a: int, b: int| 0 <= a < out@.len() && 0 <= b < rest@.len() implies out@[a].0
                <= rest@[b].0 by {
                if a < before_out.len() {
                    if b < m {
                        assert(rest@[b] == before_rest[b]);
                    } else {
                        assert(rest@[b] == before_rest[b + 1]);
                    }
                }
            }
        }
    }
    proof {
        rest@.to_multiset_ensures();
        assert(rest@.to_multiset() =~= vstd::multiset::Multiset::empty());
        assert(out@.to_multiset() =~= out@.to_multiset().add(rest@.to_multiset()));
    }
    out
}

/// Whether `results` are, in order, what checking each set of `sorted` may
/// come to, each at its own index in `block`.
pub open spec fn checks_in_order<T: QueryStateExcl, F>(
    state: &T,
    block: BlockRef,
    sorted: Seq<(SolutionSetIx, SolutionSet)>,
    contract_registry: Seq<u8>,
    program_registry: Seq<u8>,
    check: F,
    results: Seq<Result<u64, InvalidSet<T::Error>>>,
) -> bool where
    F: Fn(StateViewIx, StateViewIx, PredicateMap, ProgramMap) -> Result<
        u64,
        essential_check::solution::PredicatesError<QueryStateRangeError<T::Error>>,
    >,
 {
    &&& sorted.len() == results.len()
    &&& forall|i: int|
        0 <= i < sorted.len() ==> set_check_outcome(
            state,
            StateViewIx { block, solution_set_ix: sorted[i].0 },
            sorted[i].1,
            contract_registry,
            program_registry,
            check,
            Ok(#[trigger] results[i]),
        )
}

/// Whether `results` are what checking the sets of `chunk` may come to, in
/// the order of their indices.
pub open spec fn chunk_outcome<T: QueryStateExcl, F>(
    state: &T,
    block: BlockRef,
    chunk: Seq<(SolutionSetIx, SolutionSet)>,
    contract_registry: Seq<u8>,
    program_registry: Seq<u8>,
    check: F,
    results: Seq<Result<u64, InvalidSet<T::Error>>>,
) -> bool where
    F: Fn(StateViewIx, StateViewIx, PredicateMap, ProgramMap) -> Result<
        u64,
        essential_check::solution::PredicatesError<QueryStateRangeError<T::Error>>,
    >,
 {
    exists|sorted: Seq<(SolutionSetIx, SolutionSet)>|
        sorted.to_multiset() == chunk.to_multiset() && sorted_by_index(sorted) && #[trigger] checks_in_order(
            state,
            block,
            sorted,
            contract_registry,
            program_registry,
            check,
            results,
        )
}

/// Whether checking the sets of `chunk` in the order of their indices may stop
/// at a set of index `ix` with error `e`: every set before it, in that order,
/// was checked.
pub open spec fn chunk_failure<T: QueryStateExcl, F>(
    state: &T,
    block: BlockRef,
    chunk: Seq<(SolutionSetIx, SolutionSet)>,
    contract_registry: Seq<u8>,
    program_registry: Seq<u8>,
    check: F,
    ix: SolutionSetIx,
    e: CheckSetError<T::Error>,
) -> bool where
    F: Fn(StateViewIx, StateViewIx, PredicateMap, ProgramMap) -> Result<
        u64,
        essential_check::solution::PredicatesError<QueryStateRangeError<T::Error>>,
    >,
 {
    exists|sorted: Seq<(SolutionSetIx, SolutionSet)>, i: int, done: Seq<Result<u64, InvalidSet<T::Error>>>|
        sorted.to_multiset() == chunk.to_multiset() && sorted_by_index(sorted) && 0 <= i < sorted.len()
            && sorted[i].0 == ix && set_check_outcome(
            state,
            StateViewIx { block, solution_set_ix: ix },
            sorted[i].1,
            contract_registry,
            program_registry,
            check,
            Err(e),
        ) && #[trigger] checks_in_order(
            state,
            block,
            sorted.take(i),
            contract_registry,
            program_registry,
            check,
            done,
        )
}

/// Check a chunk of solution sets of the given block, in the order of their
/// solution set index. Returns each set's outcome in that order, or the first
/// error that prevented a set from being checked.
pub fn check_solution_set_chunk<T: QueryStateExcl, F>(
    state: &T,
    block: BlockRef,
    chunk: Vec<(SolutionSetIx, SolutionSet)>,
    contract_registry: &ContentAddress,
    program_registry: &ContentAddress,
    check_predicates: &F,
) -> (r: Result<Vec<Result<u64, InvalidSet<T::Error>>>, CheckSetsError<T::Error>>) where
    F: Fn(StateViewIx, StateViewIx, PredicateMap, ProgramMap) -> Result<
        u64,
        essential_check::solution::PredicatesError<QueryStateRangeError<T::Error>>,
    >,

    requires
        forall|pre: StateViewIx, post: StateViewIx, m: PredicateMap, q: ProgramMap|
            #[trigger] check_predicates.requires((pre, post, m, q)),
    ensures
        r matches Ok(results) ==> results@.len() == chunk@.len() && chunk_outcome(
            state,
            block,
            chunk@,
            contract_registry@,
            program_registry@,
            *check_predicates,
            results@,
        ),
        r matches Err(CheckSetsError::CheckSolutionSet(ix, e)) ==> chunk_failure(
            state,
            block,
            chunk@,
            contract_registry@,
            program_registry@,
            *check_predicates,
            ix,
            e,
        ),
        r matches Err(CheckSetsError::CheckSolutionSet(ix, e)) ==> exists|k: int|
            0 <= k < chunk@.len() && chunk@[k].0 == ix && #[trigger] set_check_outcome(
                state,
                StateViewIx { block, solution_set_ix: ix },
                chunk@[k].1,
                contract_registry@,
                program_registry@,
                *check_predicates,
                Err(e),
            ),
{
    broadcast use vstd::seq_lib::group_to_multiset_ensures;

    let ghost input = chunk@;
    let sorted = sort_by_index(chunk);
    let mut results: Vec<Result<u64, InvalidSet<T::Error>>> = Vec::new();
    let mut i: usize = 0;
    while i < sorted.len()
        invariant
            i <= sorted@.len(),
            results@.len() == i,
            input == chunk@,
            sorted@.to_multiset() == input.to_multiset(),
            sorted_by_index(sorted@),
            forall|j: int|
                0 <= j < i ==> set_check_outcome(
                    state,
                    StateViewIx { block, solution_set_ix: sorted@[j].0 },
                    sorted@[j].1,
                    contract_registry@,
                    program_registry@,
                    *check_predicates,
                    Ok(#[trigger] results@[j]),
                ),
            forall|pre: StateViewIx, post: StateViewIx, m: PredicateMap, q: ProgramMap|
                #[trigger] check_predicates.requires((pre, post, m, q)),
        decreases sorted@.len() - i,
    {
        let ix = sorted[i].0;
        let pre = StateViewIx { block, solution_set_ix: ix };
        let checked = check_solution_set(
            state,
            pre,
            &sorted[i].1,
            contract_registry,
            program_registry,
            check_predicates,
        );
        match checked {
            Ok(res) => {
                let ghost before = results@;
                results.push(res);
                proof {
                    assert forall|j: int|
                        0 <= j < results@.len() implies set_check_outcome(
                        state,
                        StateViewIx { block, solution_set_ix: sorted@[j].0 },
                        sorted@[j].1,
                        contract_registry@,
                        program_registry@,
                        *check_predicates,
                        Ok(#[trigger] results@[j]),
                    ) by {
                        if j < i {
                            assert(results@[j] == before[j]);
                        }
                    }
                }
            },
            Err(e) => {
                proof {
                    sorted@.to_multiset_ensures();
                    input.to_multiset_ensures();
                    assert(sorted@.contains(sorted@[i as int]));
                    assert(input.to_multiset().count(sorted@[i as int]) > 0);
                    assert(input.contains(sorted@[i as int]));
                    let k = choose|k: int| 0 <= k < input.len() && input[k] == sorted@[i as int];
                    assert(chunk@[k].0 == ix);
                    assert(set_check_outcome(
                        state,
                        StateViewIx { block, solution_set_ix: ix },
                        chunk@[k].1,
                        contract_registry@,
                        program_registry@,
                        *check_predicates,
                        Err(e),
                    ));
                    let done = sorted@.take(i as int);
                    assert forall|j: int| 0 <= j < done.len() implies set_check_outcome(
                        state,
                        StateViewIx { block, solution_set_ix: done[j].0 },
                        done[j].1,
                        contract_registry@,
                        program_registry@,
                        *check_predicates,
                        Ok(#[trigger] results@[j]),
                    ) by {
                        assert(done[j] == sorted@[j]);
                    }
                    assert(checks_in_order(
                        state,
                        block,
                        done,
                        contract_registry@,
                        program_registry@,
                        *check_predicates,
                        results@,
                    ));
                }
                return Err(CheckSetsError::CheckSolutionSet(ix, e));
            },
        }
        i = i + 1;
    }
    proof {
        sorted@.to_multiset_ensures();
        input.to_multiset_ensures();
        assert(sorted@.len() == sorted@.to_multiset().len());
        assert(input.len() == input.to_multiset().len());
        assert(checks_in_order(
            state,
            block,
            sorted@,
            contract_registry@,
            program_registry@,
            *check_predicates,
            results@,
        ));
    }
    Ok(results)
}

} // verus!
