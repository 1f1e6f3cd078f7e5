//! Validation of a block's solution sets: each set's predicates and programs
//! are read from the registries, then checked; gas is summed across the block.
use super::error::{
    PredicatesProgramsError, QueryPredicateError, QueryProgramError, SolutionSetPredicatesError,
};
use crate::assoc::{AddressMap, AssocMap, lemma_assoc_index};
use crate::registry::LenBytesError;
use crate::types::{ContentAddress, Predicate, PredicateAddress, PredicateView, SolutionSet};
use crate::validate::error::{QueryPredicateError as ViewPredicateError, QueryProgramError as ViewProgramError};
use crate::validate::{
    BlockRef, ProgramMap, QueryStateExcl, ReadFailure, StateViewIx, get_predicate, get_program,
    node_before, node_program_of, nodes_readable_before, predicate_at, predicate_readable,
    program_at, program_readable,
    programs_cover, programs_fit, set_readable, solution_node_program,
};
use vstd::prelude::*;

verus! {

/// The header of a block.
#[derive(Debug)]
pub struct BlockHeader {
    /// The number of the block.
    pub number: i64,
    /// The time of the block since `UNIX_EPOCH`.
    pub timestamp: core::time::Duration,
}

/// A block: its header and its solution sets, in order.
#[derive(Debug)]
pub struct Block {
    /// The header.
    pub header: BlockHeader,
    /// The solution sets.
    pub solution_sets: Vec<SolutionSet>,
}

/// The predicates of a solution set, by predicate address.
pub type PredicatesByAddress = AssocMap<PredicateAddress, Predicate>;

/// An amount of gas.
pub type Gas = u64;

/// Result of validating a block.
#[derive(Debug)]
#[verifier::reject_recursive_types(E)]
pub enum ValidateOutcome<E> {
    /// The block is valid.
    Valid(ValidOutcome),
    /// The block is invalid.
    Invalid(InvalidOutcome<E>),
}

/// Outcome of a valid block.
#[derive(Debug)]
pub struct ValidOutcome {
    /// Total gas consumed by all solution sets in the block.
    pub total_gas: Gas,
}

/// Outcome of an invalid block.
#[derive(Debug)]
#[verifier::reject_recursive_types(E)]
pub struct InvalidOutcome<E> {
    /// The reason for the block to be invalid.
    pub failure: ValidateFailure<E>,
    /// The index of the solution set that caused the failure.
    pub solution_set_index: usize,
}

/// Reasons for a block to be invalid.
#[derive(Debug)]
#[verifier::reject_recursive_types(E)]
pub enum ValidateFailure<E> {
    /// A solution specified a predicate that does not exist within the contract registry.
    MissingPredicate(PredicateAddress),
    /// A predicate was present in the registry, but failed to decode.
    InvalidPredicate(PredicateAddress),
    /// A predicate specified a program that does not exist within the program registry.
    MissingProgram(ContentAddress),
    /// A program was present in the registry, but has an invalid format.
    InvalidProgram(ContentAddress),
    /// The solution set's predicates failed to validate.
    PredicatesError(essential_check::solution::PredicatesError<E>),
    /// The total gas consumed by all solution sets in the block exceeds the maximum.
    GasOverflow,
}

/// The view of state prior to solution set `ix` of block `number`.
pub open spec fn pre_view(number: i64, ix: int) -> StateViewIx {
    StateViewIx { block: BlockRef::Number(number), solution_set_ix: ix as u64 }
}

/// The view of state including solution set `ix` of block `number`.
pub open spec fn post_view(number: i64, ix: int) -> StateViewIx {
    StateViewIx { block: BlockRef::Number(number), solution_set_ix: (ix + 1) as u64 }
}

/// The registry read failure that a node predicate query error reports, if it is one.
pub open spec fn predicate_query_failure<E>(e: QueryPredicateError<E>) -> Option<ReadFailure> {
    match e {
        QueryPredicateError::Query(_) => None,
        QueryPredicateError::MissingLenBytes => Some(ReadFailure::MissingLenBytes),
        QueryPredicateError::InvalidLenBytes => Some(ReadFailure::InvalidLenBytes),
        QueryPredicateError::Decode(_) => Some(ReadFailure::Decode),
    }
}

/// The registry read failure that a node program query error reports, if it is one.
pub open spec fn program_query_failure<E>(e: QueryProgramError<E>) -> Option<LenBytesError> {
    match e {
        QueryProgramError::Query(_) => None,
        QueryProgramError::MissingLenBytes => Some(LenBytesError::MissingLenBytes),
        QueryProgramError::InvalidLenBytes => Some(LenBytesError::InvalidLenBytes),
    }
}

/// Query for the predicate with the given address, inclusive of the solution
/// set at `solution_set_ix` of block `block_number`.
fn query_predicate<T: QueryStateExcl>(
    state: &T,
    contract_registry: &ContentAddress,
    pred_addr: &PredicateAddress,
    block_number: i64,
    solution_set_ix: u64,
) -> (r: Result<Option<Predicate>, QueryPredicateError<T::Error>>)
    requires
        solution_set_ix < u64::MAX,
    ensures
        r matches Ok(None) ==> predicate_at(
            state,
            post_view(block_number, solution_set_ix as int),
            contract_registry@,
            *pred_addr,
        ) == Ok::<Option<PredicateView>, ReadFailure>(None),
        r matches Ok(Some(p)) ==> predicate_at(
            state,
            post_view(block_number, solution_set_ix as int),
            contract_registry@,
            *pred_addr,
        ) == Ok::<Option<PredicateView>, ReadFailure>(Some(p@)),
        r matches Err(e) ==> e is Query || predicate_at(
            state,
            post_view(block_number, solution_set_ix as int),
            contract_registry@,
            *pred_addr,
        ) == Err::<Option<PredicateView>, ReadFailure>(predicate_query_failure(e)->0),
        r matches Err(QueryPredicateError::Query(_)) ==> !predicate_readable(
            state,
            post_view(block_number, solution_set_ix as int),
            contract_registry@,
            *pred_addr,
        ),
{
    let view = StateViewIx {
        block: BlockRef::Number(block_number),
        solution_set_ix: solution_set_ix + 1,
    };
    match get_predicate(state, &view, contract_registry, pred_addr) {
        Ok(p) => Ok(p),
        Err(ViewPredicateError::QueryState(e)) => Err(QueryPredicateError::Query(e)),
        Err(ViewPredicateError::MissingLenBytes) => Err(QueryPredicateError::MissingLenBytes),
        Err(ViewPredicateError::InvalidLenBytes) => Err(QueryPredicateError::InvalidLenBytes),
        Err(ViewPredicateError::Decode(d)) => Err(QueryPredicateError::Decode(d)),
    }
}

/// Query for the program with the given address, inclusive of the solution
/// set at `solution_set_ix` of block `block_number`.
fn query_program<T: QueryStateExcl>(
    state: &T,
    program_registry: &ContentAddress,
    prog_addr: &ContentAddress,
    block_number: i64,
    solution_set_ix: u64,
) -> (r: Result<Option<crate::types::Program>, QueryProgramError<T::Error>>)
    requires
        solution_set_ix < u64::MAX,
    ensures
        r matches Ok(None) ==> program_at(
            state,
            post_view(block_number, solution_set_ix as int),
            program_registry@,
            prog_addr@,
        ) == Ok::<Option<Seq<u8>>, LenBytesError>(None),
        r matches Ok(Some(p)) ==> program_at(
            state,
            post_view(block_number, solution_set_ix as int),
            program_registry@,
            prog_addr@,
        ) == Ok::<Option<Seq<u8>>, LenBytesError>(Some(p@)),
        r matches Err(e) ==> e is Query || program_at(
            state,
            post_view(block_number, solution_set_ix as int),
            program_registry@,
            prog_addr@,
        ) == Err::<Option<Seq<u8>>, LenBytesError>(program_query_failure(e)->0),
        r matches Err(QueryProgramError::Query(_)) ==> !program_readable(
            state,
            post_view(block_number, solution_set_ix as int),
            program_registry@,
            prog_addr@,
        ),
{
    let view = StateViewIx {
        block: BlockRef::Number(block_number),
        solution_set_ix: solution_set_ix + 1,
    };
    match get_program(state, &view, program_registry, prog_addr) {
        Ok(p) => Ok(p),
        Err(ViewProgramError::QueryState(e)) => Err(QueryProgramError::Query(e)),
        Err(ViewProgramError::MissingLenBytes) => Err(QueryProgramError::MissingLenBytes),
        Err(ViewProgramError::InvalidLenBytes) => Err(QueryProgramError::InvalidLenBytes),
    }
}

} // verus!

verus! {

/// `m` holds the predicate of every solution of `solutions`, each as read
/// through `state` at `ix`, keyed by the solution's predicate address, and
/// no other.
pub open spec fn solution_predicates_fit<T: QueryStateExcl>(
    state: &T,
    ix: StateViewIx,
    registry: Seq<u8>,
    solutions: Seq<crate::types::Solution>,
    m: Map<(Seq<u8>, Seq<u8>), PredicateView>,
) -> bool {
    &&& forall|i: int|
        0 <= i < solutions.len() ==> m.dom().contains(solutions[i].predicate_to_solve@)
            && #[trigger] predicate_at(state, ix, registry, solutions[i].predicate_to_solve)
            == Ok::<Option<PredicateView>, ReadFailure>(Some(m[solutions[i].predicate_to_solve@]))
    &&& forall|k: (Seq<u8>, Seq<u8>)|
        #[trigger] m.dom().contains(k) ==> exists|i: int|
            0 <= i < solutions.len() && solutions[i].predicate_to_solve@ == k
}

/// Solution `i` of `solutions` is one whose predicate comes after those of
/// all the solutions before it were read.
pub open spec fn first_unread<T: QueryStateExcl>(
    state: &T,
    ix: StateViewIx,
    registry: Seq<u8>,
    solutions: Seq<crate::types::Solution>,
    i: int,
) -> bool {
    0 <= i < solutions.len() && forall|j: int|
        0 <= j < i ==> #[trigger] predicate_at(state, ix, registry, solutions[j].predicate_to_solve)
            matches Ok(Some(_))
}

/// Where the predicates of the first `i` solutions were read into `m`, solution
/// `i` comes first among those not read.
proof fn lemma_read_before<T: QueryStateExcl>(
    state: &T,
    ix: StateViewIx,
    registry: Seq<u8>,
    solutions: Seq<crate::types::Solution>,
    m: Map<(Seq<u8>, Seq<u8>), PredicateView>,
    i: int,
)
    requires
        0 <= i < solutions.len(),
        solution_predicates_fit(state, ix, registry, solutions.take(i), m),
    ensures
        first_unread(state, ix, registry, solutions, i),
{
    assert forall|j: int| 0 <= j < i implies #[trigger] predicate_at(
        state,
        ix,
        registry,
        solutions[j].predicate_to_solve,
    ) matches Ok(Some(_)) by {
        assert(solutions.take(i)[j] == solutions[j]);
    }
}

/// Retrieve all predicates required by the solutions, by predicate address,
/// inclusive of the solution set at `solution_set_ix` of block `block_number`.
fn query_solution_set_predicates<T: QueryStateExcl>(
    state: &T,
    contract_registry: &ContentAddress,
    solutions: &[crate::types::Solution],
    block_number: i64,
    solution_set_ix: u64,
) -> (r: Result<PredicatesByAddress, SolutionSetPredicatesError<T::Error>>)
    requires
        solution_set_ix < u64::MAX,
    ensures
        r matches Ok(m) ==> m.wf() && solution_predicates_fit(
            state,
            post_view(block_number, solution_set_ix as int),
            contract_registry@,
            solutions@,
            m@,
        ),
        r matches Err(SolutionSetPredicatesError::MissingPredicate(addr)) ==> (exists|i: int|
            first_unread(
                state,
                post_view(block_number, solution_set_ix as int),
                contract_registry@,
                solutions@,
                i,
            ) && solutions@[i].predicate_to_solve == addr) && predicate_at(
            state,
            post_view(block_number, solution_set_ix as int),
            contract_registry@,
            addr,
        ) == Ok::<Option<PredicateView>, ReadFailure>(None),
        r matches Err(SolutionSetPredicatesError::QueryPredicate(addr, e)) ==> (exists|i: int|
            first_unread(
                state,
                post_view(block_number, solution_set_ix as int),
                contract_registry@,
                solutions@,
                i,
            ) && solutions@[i].predicate_to_solve == addr) && (e is Query
            || predicate_at(
            state,
            post_view(block_number, solution_set_ix as int),
            contract_registry@,
            addr,
        ) == Err::<Option<PredicateView>, ReadFailure>(predicate_query_failure(e)->0)),
        r matches Err(
            SolutionSetPredicatesError::QueryPredicate(addr, QueryPredicateError::Query(_)),
        ) ==> !predicate_readable(
            state,
            post_view(block_number, solution_set_ix as int),
            contract_registry@,
            addr,
        ),
{
    let ghost post = post_view(block_number, solution_set_ix as int);
    let mut predicates: PredicatesByAddress = AssocMap::new();
    let mut i: usize = 0;
    while i < solutions.len()
        invariant
            i <= solutions@.len(),
            solution_set_ix < u64::MAX,
            post == post_view(block_number, solution_set_ix as int),
            predicates.wf(),
            solution_predicates_fit(
                state,
                post,
                contract_registry@,
                solutions@.take(i as int),
                predicates@,
            ),
        decreases solutions@.len() - i,
    {
        let pred_addr = solutions[i].predicate_to_solve;
        let pred = match query_predicate(
            state,
            contract_registry,
            &pred_addr,
            block_number,
            solution_set_ix,
        ) {
            Ok(Some(p)) => p,
            Ok(None) => {
                proof {
                    lemma_read_before(state, post, contract_registry@, solutions@, predicates@, i as int);
                }
                return Err(SolutionSetPredicatesError::MissingPredicate(pred_addr));
            },
            Err(e) => {
                proof {
                    lemma_read_before(state, post, contract_registry@, solutions@, predicates@, i as int);
                }
                return Err(SolutionSetPredicatesError::QueryPredicate(pred_addr, e));
            },
        };
        let ghost before = predicates@;
        predicates.insert(pred_addr, pred);
        proof {
            let done = solutions@.take(i + 1);
            assert forall|j: int| 0 <= j < done.len() implies predicates@.dom().contains(
                done[j].predicate_to_solve@,
            ) && #[trigger] predicate_at(state, post, contract_registry@, done[j].predicate_to_solve)
                == Ok::<Option<PredicateView>, ReadFailure>(
                Some(predicates@[done[j].predicate_to_solve@]),
            ) by {
                if j < i {
                    assert(done[j] == solutions@.take(i as int)[j]);
                }
            }
            assert forall|k: (Seq<u8>, Seq<u8>)| #[trigger] predicates@.dom().contains(k) implies exists|
                j: int,
            | 0 <= j < done.len() && done[j].predicate_to_solve@ == k by {
                if k == pred_addr@ {
                    assert(done[i as int].predicate_to_solve@ == k);
                } else {
                    assert(before.dom().contains(k));
                    let prev = solutions@.take(i as int);
                    let j = choose|j: int| 0 <= j < prev.len() && prev[j].predicate_to_solve@ == k;
                    assert(done[j] == prev[j]);
                }
            }
        }
        i = i + 1;
    }
    proof {
        assert(solutions@.take(solutions@.len() as int) =~= solutions@);
    }
    Ok(predicates)
}

/// Retrieve all programs required by the predicates, by program address,
/// inclusive of the solution set at `solution_set_ix` of block `block_number`.
fn query_predicates_programs<T: QueryStateExcl>(
    state: &T,
    program_registry: &ContentAddress,
    predicates: &PredicatesByAddress,
    block_number: i64,
    solution_set_ix: u64,
) -> (r: Result<ProgramMap, PredicatesProgramsError<T::Error>>)
    requires
        solution_set_ix < u64::MAX,
    ensures
        r matches Ok(q) ==> q.wf() && programs_fit(
            state,
            post_view(block_number, solution_set_ix as int),
            program_registry@,
            q@,
        ) && programs_cover(predicates.0@, q@),
        r matches Err(PredicatesProgramsError::MissingProgram(ca)) ==> program_first_unread(
            state,
            post_view(block_number, solution_set_ix as int),
            program_registry@,
            predicates.0@,
            ca@,
        ),
        r matches Err(PredicatesProgramsError::QueryProgram(ca, _)) ==> program_first_unread(
            state,
            post_view(block_number, solution_set_ix as int),
            program_registry@,
            predicates.0@,
            ca@,
        ),
        r matches Err(PredicatesProgramsError::QueryProgram(ca, QueryProgramError::Query(_)))
            ==> !program_readable(
            state,
            post_view(block_number, solution_set_ix as int),
            program_registry@,
            ca@,
        ),
        r matches Err(PredicatesProgramsError::MissingProgram(ca)) ==> program_at(
            state,
            post_view(block_number, solution_set_ix as int),
            program_registry@,
            ca@,
        ) == Ok::<Option<Seq<u8>>, LenBytesError>(None),
        r matches Err(PredicatesProgramsError::QueryProgram(ca, e)) ==> e is Query || program_at(
            state,
            post_view(block_number, solution_set_ix as int),
            program_registry@,
            ca@,
        ) == Err::<Option<Seq<u8>>, LenBytesError>(program_query_failure(e)->0),
{
    let ghost post = post_view(block_number, solution_set_ix as int);
    let mut programs: ProgramMap = AddressMap::new();
    let mut k: usize = 0;
    while k < predicates.0.len()
        invariant
            k <= predicates.0@.len(),
            solution_set_ix < u64::MAX,
            post == post_view(block_number, solution_set_ix as int),
            programs.wf(),
            programs_fit(state, post, program_registry@, programs@),
            nodes_readable_before(state, post, program_registry@, predicates.0@, k as int, 0),
            forall|ca: Seq<u8>| #[trigger] programs@.dom().contains(ca) <==> exists|a: int, b: int|
                0 <= a < k && 0 <= b < predicates.0@[a].1.nodes@.len() && (
                #[trigger] predicates.0@[a].1.nodes@[b]).program_address@ == ca,
        decreases predicates.0@.len() - k,
    {
        let nodes = &predicates.0[k].1.nodes;
        let mut n: usize = 0;
        while n < nodes.len()
            invariant
                n <= nodes@.len(),
                solution_set_ix < u64::MAX,
                post == post_view(block_number, solution_set_ix as int),
                programs.wf(),
                programs_fit(state, post, program_registry@, programs@),
                k < predicates.0@.len(),
                nodes@ == predicates.0@[k as int].1.nodes@,
                nodes_readable_before(
                    state,
                    post,
                    program_registry@,
                    predicates.0@,
                    k as int,
                    n as int,
                ),
                forall|ca: Seq<u8>| #[trigger] programs@.dom().contains(ca) <==> exists|a: int, b: int|
                    ((0 <= a < k && 0 <= b < predicates.0@[a].1.nodes@.len()) || (a == k && 0 <= b < n)) && (
                    #[trigger] predicates.0@[a].1.nodes@[b]).program_address@ == ca,
            decreases nodes@.len() - n,
        {
            let prog_addr = nodes[n].program_address;
            let prog = match query_program(
                state,
                program_registry,
                &prog_addr,
                block_number,
                solution_set_ix,
            ) {
                Ok(Some(p)) => p,
                Ok(None) => {
                    proof {
                        assert(predicates.0@[k as int].1.nodes@[n as int].program_address@
                            == prog_addr@);
                    }
                    return Err(PredicatesProgramsError::MissingProgram(prog_addr));
                },
                Err(e) => {
                    proof {
                        assert(predicates.0@[k as int].1.nodes@[n as int].program_address@
                            == prog_addr@);
                    }
                    return Err(PredicatesProgramsError::QueryProgram(prog_addr, e));
                },
            };
            let ghost before = programs@;
            programs.insert(prog_addr, prog);
            proof {
                assert forall|a: int, b: int|
                    node_before(predicates.0@, a, b, k as int, n + 1) implies #[trigger] crate::validate::node_program_at(
                    state,
                    post,
                    program_registry@,
                    predicates.0@,
                    a,
                    b,
                ) matches Ok(Some(_)) by {
                    if !(a == k && b == n) {
                        assert(node_before(predicates.0@, a, b, k as int, n as int));
                    }
                }
                assert forall|ca: Seq<u8>| #[trigger] programs@.dom().contains(ca) <==> exists|a: int, b: int|
                    ((0 <= a < k && 0 <= b < predicates.0@[a].1.nodes@.len()) || (a == k && 0 <= b < n + 1)) && (
                    #[trigger] predicates.0@[a].1.nodes@[b]).program_address@ == ca by {
                    if ca == prog_addr@ {
                        assert(predicates.0@[k as int].1.nodes@[n as int].program_address@ == ca);
                    }
                    if exists|a: int, b: int|
                        ((0 <= a < k && 0 <= b < predicates.0@[a].1.nodes@.len()) || (a == k && 0 <= b < n + 1)) && (
                        #[trigger] predicates.0@[a].1.nodes@[b]).program_address@ == ca {
                        let (a, b) = choose|a: int, b: int|
                            ((0 <= a < k && 0 <= b < predicates.0@[a].1.nodes@.len()) || (a == k && 0 <= b < n + 1)) && (
                            #[trigger] predicates.0@[a].1.nodes@[b]).program_address@ == ca;
                        if !(a == k && b == n) {
                            assert(before.dom().contains(ca));
                        }
                    }
                }
            }
            n = n + 1;
        }
        proof {
            assert forall|a: int, b: int|
                node_before(predicates.0@, a, b, k + 1, 0) implies #[trigger] crate::validate::node_program_at(
                state,
                post,
                program_registry@,
                predicates.0@,
                a,
                b,
            ) matches Ok(Some(_)) by {
                assert(node_before(predicates.0@, a, b, k as int, nodes@.len() as int));
            }
        }
        k = k + 1;
    }
    proof {
        assert forall|ca: Seq<u8>| #[trigger] programs@.dom().contains(ca) <==> node_program_of(
            predicates.0@,
            ca,
        ) by {
            if programs@.dom().contains(ca) {
                let (a, b) = choose|a: int, b: int|
                    0 <= a < k && 0 <= b < predicates.0@[a].1.nodes@.len() && (
                    #[trigger] predicates.0@[a].1.nodes@[b]).program_address@ == ca;
                assert(predicates.0@[a].1.nodes@[b].program_address@ == ca);
            }
        }
    }
    Ok(programs)
}

} // verus!

verus! {

/// The sum of a sequence of gas amounts.
pub open spec fn sum_gas(g: Seq<u64>) -> int
    decreases g.len(),
{
    if g.len() == 0 {
        0
    } else {
        sum_gas(g.drop_last()) + g.last()
    }
}

/// Solution set `ix` of the block numbered `number` had its predicates and
/// programs read from the registries, and the checker returned `result` for them.
pub open spec fn set_checked<T: QueryStateExcl, E, F>(
    state: &T,
    contract_registry: Seq<u8>,
    program_registry: Seq<u8>,
    number: i64,
    set: SolutionSet,
    check: &F,
    ix: int,
    result: Result<u64, essential_check::solution::PredicatesError<E>>,
) -> bool where
    F: Fn(StateViewIx, StateViewIx, PredicatesByAddress, ProgramMap) -> Result<
        u64,
        essential_check::solution::PredicatesError<E>,
    >,
 {
    exists|m: PredicatesByAddress, q: ProgramMap|
        solution_predicates_fit(
            state,
            post_view(number, ix),
            contract_registry,
            set.solutions@,
            m@,
        ) && programs_fit(state, post_view(number, ix), program_registry, q@) && programs_cover(
            m.0@,
            q@,
        ) && check.ensures(
            (pre_view(number, ix), post_view(number, ix), m, q),
            result,
        )
}

/// `ca` is the program of a node of the predicates of `preds` such that the
/// programs of all the nodes before it, taken in order, were found.
pub open spec fn program_first_unread<T: QueryStateExcl, K>(
    state: &T,
    ix: StateViewIx,
    registry: Seq<u8>,
    preds: Seq<(K, Predicate)>,
    ca: Seq<u8>,
) -> bool {
    exists|a: int, b: int|
        0 <= a < preds.len() && 0 <= b < preds[a].1.nodes@.len() && (
        #[trigger] preds[a].1.nodes@[b]).program_address@ == ca && nodes_readable_before(
            state,
            ix,
            registry,
            preds,
            a,
            b,
        )
}

/// Whether `ca` is the program of a node of a predicate that solution set
/// `ix` of the block numbered `number` solves, its predicates read from the
/// registry, such that the programs of the nodes before it were all found.
pub open spec fn set_program<T: QueryStateExcl>(
    state: &T,
    contract_registry: Seq<u8>,
    program_registry: Seq<u8>,
    number: i64,
    set: SolutionSet,
    ix: int,
    ca: Seq<u8>,
) -> bool {
    exists|m: PredicatesByAddress|
        solution_predicates_fit(state, post_view(number, ix), contract_registry, set.solutions@, m@)
            && #[trigger] program_first_unread(
            state,
            post_view(number, ix),
            program_registry,
            m.0@,
            ca,
        )
}

/// Validating solution set `ix` of the block numbered `number` stops at a
/// read that is not sure to succeed: the predicate of a solution, where those
/// of the solutions before it were all found; or a program, where all the
/// predicates were found and the programs of the nodes before it too.
pub open spec fn set_read_fails<T: QueryStateExcl>(
    state: &T,
    contract_registry: Seq<u8>,
    program_registry: Seq<u8>,
    number: i64,
    set: SolutionSet,
    ix: int,
) -> bool {
    ||| exists|i: int|
        first_unread(state, post_view(number, ix), contract_registry, set.solutions@, i)
            && !#[trigger] predicate_readable(
            state,
            post_view(number, ix),
            contract_registry,
            set.solutions@[i].predicate_to_solve,
        )
    ||| exists|ca: Seq<u8>|
        set_program(state, contract_registry, program_registry, number, set, ix, ca)
            && !#[trigger] program_readable(state, post_view(number, ix), program_registry, ca)
}

/// Why solution set `ix` failed, given the gas `spent` by the sets before it.
pub open spec fn failure_explained<T: QueryStateExcl, E, F>(
    state: &T,
    contract_registry: Seq<u8>,
    program_registry: Seq<u8>,
    number: i64,
    set: SolutionSet,
    check: &F,
    ix: int,
    spent: int,
    failure: ValidateFailure<E>,
) -> bool where
    F: Fn(StateViewIx, StateViewIx, PredicatesByAddress, ProgramMap) -> Result<
        u64,
        essential_check::solution::PredicatesError<E>,
    >,
 {
    match failure {
        ValidateFailure::MissingPredicate(addr) => (exists|i: int|
            first_unread(state, post_view(number, ix), contract_registry, set.solutions@, i)
                && set.solutions@[i].predicate_to_solve == addr)
            && predicate_at(state, post_view(number, ix), contract_registry, addr) == Ok::<
            Option<PredicateView>,
            ReadFailure,
        >(None),
        ValidateFailure::InvalidPredicate(addr) => (exists|i: int|
            first_unread(state, post_view(number, ix), contract_registry, set.solutions@, i)
                && set.solutions@[i].predicate_to_solve == addr)
            && predicate_at(state, post_view(number, ix), contract_registry, addr) is Err,
        ValidateFailure::MissingProgram(ca) => set_program(
            state,
            contract_registry,
            program_registry,
            number,
            set,
            ix,
            ca@,
        ) && program_at(state, post_view(number, ix), program_registry, ca@) == Ok::<
            Option<Seq<u8>>,
            LenBytesError,
        >(None),
        ValidateFailure::InvalidProgram(ca) => set_program(
            state,
            contract_registry,
            program_registry,
            number,
            set,
            ix,
            ca@,
        ) && program_at(state, post_view(number, ix), program_registry, ca@) is Err,
        ValidateFailure::PredicatesError(e) => set_checked(
            state,
            contract_registry,
            program_registry,
            number,
            set,
            check,
            ix,
            Err(e),
        ),
        ValidateFailure::GasOverflow => exists|g: u64|
            set_checked(
                state,
                contract_registry,
                program_registry,
                number,
                set,
                check,
                ix,
                Ok(g),
            ) && spent + g > u64::MAX,
    }
}

/// The first `n` solution sets of the block all passed, spending `g[i]` each,
/// without the running total exceeding `u64::MAX`.
pub open spec fn sets_passed<T: QueryStateExcl, E, F>(
    state: &T,
    contract_registry: Seq<u8>,
    program_registry: Seq<u8>,
    block: &Block,
    check: &F,
    g: Seq<u64>,
) -> bool where
    F: Fn(StateViewIx, StateViewIx, PredicatesByAddress, ProgramMap) -> Result<
        u64,
        essential_check::solution::PredicatesError<E>,
    >,
 {
    &&& g.len() <= block.solution_sets@.len()
    &&& sum_gas(g) <= u64::MAX
    &&& forall|i: int|
        0 <= i < g.len() ==> #[trigger] set_checked(
            state,
            contract_registry,
            program_registry,
            block.header.number,
            block.solution_sets@[i],
            check,
            i,
            Ok(g[i]),
        )
}

/// Validate a block's solution sets in order: read each set's predicates and
/// programs from the state including the set, check them, and sum the gas.
/// The first set that cannot be validated makes the block invalid; an error
/// that prevents reading state is returned as the error.
pub fn validate_inner<T: QueryStateExcl, E, F>(
    state: &T,
    contract_registry: &ContentAddress,
    program_registry: &ContentAddress,
    block: &Block,
    check: &F,
) -> (r: Result<ValidateOutcome<E>, T::Error>) where
    F: Fn(StateViewIx, StateViewIx, PredicatesByAddress, ProgramMap) -> Result<
        u64,
        essential_check::solution::PredicatesError<E>,
    >,

    requires
        forall|pre: StateViewIx, post: StateViewIx, m: PredicatesByAddress, q: ProgramMap|
            #[trigger] check.requires((pre, post, m, q)),
    ensures
        r matches Ok(ValidateOutcome::Valid(v)) ==> exists|g: Seq<u64>|
            g.len() == block.solution_sets@.len() && v.total_gas == sum_gas(g) && sets_passed(
                state,
                contract_registry@,
                program_registry@,
                block,
                check,
                g,
            ),
        r matches Ok(ValidateOutcome::Invalid(o)) ==> o.solution_set_index
            < block.solution_sets@.len() && exists|g: Seq<u64>|
            g.len() == o.solution_set_index && sets_passed(
                state,
                contract_registry@,
                program_registry@,
                block,
                check,
                g,
            ) && failure_explained(
                state,
                contract_registry@,
                program_registry@,
                block.header.number,
                block.solution_sets@[o.solution_set_index as int],
                check,
                o.solution_set_index as int,
                sum_gas(g),
                o.failure,
            ),
        r is Err ==> exists|g: Seq<u64>|
            g.len() < block.solution_sets@.len() && sets_passed(
                state,
                contract_registry@,
                program_registry@,
                block,
                check,
                g,
            ) && set_read_fails(
                state,
                contract_registry@,
                program_registry@,
                block.header.number,
                block.solution_sets@[g.len() as int],
                g.len() as int,
            ) && !set_readable(
                state,
                post_view(block.header.number, g.len() as int),
                contract_registry@,
                program_registry@,
                block.solution_sets@[g.len() as int].solutions@,
            ),
{
    let number = block.header.number;
    let mut total_gas: u64 = 0;
    let ghost mut gases: Seq<u64> = Seq::empty();
    let mut ix: usize = 0;
    while ix < block.solution_sets.len()
        invariant
            ix <= block.solution_sets@.len(),
            number == block.header.number,
            gases.len() == ix,
            total_gas == sum_gas(gases),
            sets_passed(state, contract_registry@, program_registry@, block, check, gases),
            forall|pre: StateViewIx, post: StateViewIx, m: PredicatesByAddress, q: ProgramMap|
                #[trigger] check.requires((pre, post, m, q)),
        decreases block.solution_sets@.len() - ix,
    {
        let set = &block.solution_sets[ix];
        let set_ix = ix as u64;
        // Create the `predicates` map.
        let predicates = match query_solution_set_predicates(
            state,
            contract_registry,
            set.solutions.as_slice(),
            number,
            set_ix,
        ) {
            Ok(predicates) => predicates,
            Err(SolutionSetPredicatesError::MissingPredicate(addr)) => {
                return Ok(ValidateOutcome::Invalid(InvalidOutcome {
                    failure: ValidateFailure::MissingPredicate(addr),
                    solution_set_index: ix,
                }));
            },
            Err(SolutionSetPredicatesError::QueryPredicate(addr, err)) => match err {
                QueryPredicateError::Query(e) => {
                    proof {
                        let sols = set.solutions@;
                        let post = post_view(number, ix as int);
                        let i = choose|i: int|
                            first_unread(state, post, contract_registry@, sols, i)
                                && sols[i].predicate_to_solve == addr;
                        assert(!predicate_readable(
                            state,
                            post,
                            contract_registry@,
                            sols[i].predicate_to_solve,
                        ));
                    }
                    return Err(e);
                },
                _ => {
                    return Ok(ValidateOutcome::Invalid(InvalidOutcome {
                        failure: ValidateFailure::InvalidPredicate(addr),
                        solution_set_index: ix,
                    }));
                },
            },
        };
        // Create the `programs` map.
        let programs = match query_predicates_programs(
            state,
            program_registry,
            &predicates,
            number,
            set_ix,
        ) {
            Ok(programs) => programs,
            Err(PredicatesProgramsError::MissingProgram(addr)) => {
                return Ok(ValidateOutcome::Invalid(InvalidOutcome {
                    failure: ValidateFailure::MissingProgram(addr),
                    solution_set_index: ix,
                }));
            },
            Err(PredicatesProgramsError::QueryProgram(addr, err)) => match err {
                QueryProgramError::Query(e) => {
                    proof {
                        let sols = set.solutions@;
                        let post = post_view(number, ix as int);
                        let preds = predicates.0@;
                        let (a, b) = choose|a: int, b: int|
                            0 <= a < preds.len() && 0 <= b < preds[a].1.nodes@.len() && (
                            #[trigger] preds[a].1.nodes@[b]).program_address@ == addr@;
                        lemma_assoc_index(preds, a);
                        let k = preds[a].0@;
                        assert(predicates@.dom().contains(k));
                        let i = choose|i: int|
                            0 <= i < sols.len() && sols[i].predicate_to_solve@ == k;
                        assert(predicate_at(
                            state,
                            post,
                            contract_registry@,
                            sols[i].predicate_to_solve,
                        ) == Ok::<Option<PredicateView>, ReadFailure>(Some(preds[a].1@)));
                        assert(solution_node_program(
                            state,
                            post,
                            contract_registry@,
                            sols,
                            i,
                            b,
                        ) == Some(addr@));
                    }
                    return Err(e);
                },
                _ => {
                    return Ok(ValidateOutcome::Invalid(InvalidOutcome {
                        failure: ValidateFailure::InvalidProgram(addr),
                        solution_set_index: ix,
                    }));
                },
            },
        };
        let pre = StateViewIx { block: BlockRef::Number(number), solution_set_ix: set_ix };
        let post = StateViewIx { block: BlockRef::Number(number), solution_set_ix: set_ix + 1 };
        let ghost m = predicates;
        let ghost q = programs;
        let res = check(pre, post, predicates, programs);
        proof {
            assert(pre == pre_view(number, ix as int));
            assert(post == post_view(number, ix as int));
            assert(set_checked(
                state,
                contract_registry@,
                program_registry@,
                number,
                block.solution_sets@[ix as int],
                check,
                ix as int,
                res,
            ));
        }
        match res {
            Ok(g) => {
                match total_gas.checked_add(g) {
                    Some(t) => {
                        proof {
                            let next = gases.push(g);
                            assert(next.drop_last() =~= gases);
                            assert forall|i: int| 0 <= i < next.len() implies #[trigger] set_checked(
                                state,
                                contract_registry@,
                                program_registry@,
                                block.header.number,
                                block.solution_sets@[i],
                                check,
                                i,
                                Ok(next[i]),
                            ) by {
                                if i < gases.len() {
                                    assert(next[i] == gases[i]);
                                }
                            }
                            gases = next;
                        }
                        total_gas = t;
                    },
                    None => {
                        return Ok(ValidateOutcome::Invalid(InvalidOutcome {
                            failure: ValidateFailure::GasOverflow,
                            solution_set_index: ix,
                        }));
                    },
                }
            },
            Err(err) => {
                return Ok(ValidateOutcome::Invalid(InvalidOutcome {
                    failure: ValidateFailure::PredicatesError(err),
                    solution_set_index: ix,
                }));
            },
        }
        ix = ix + 1;
    }
    Ok(ValidateOutcome::Valid(ValidOutcome { total_gas }))
}

} // verus!
