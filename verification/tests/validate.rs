use essential_node::types::{
    ContentAddress, Key, Mutation, Node, Predicate, PredicateAddress, Reads, Solution, SolutionSet,
    Value,
};
use essential_node::validate::error::{
    CheckSetError, CheckSetsError, InvalidSet, PredicateProgramsError, QueryPredicateError,
    QueryProgramError, QueryStateRangeError, SolutionSetPredicatesError,
};
use essential_node::validate::{
    check_solution_set, check_solution_set_chunk, get_predicate, get_predicates_programs,
    get_program, get_solution_set_predicates, predicate_from_words, program_from_words,
    query_range, sort_by_index, BlockRef, PredicateMap, ProgramMap, QueryStateExcl, StateView,
    StateViewIx,
};

use vstd::seq::Seq;

/// A state held in memory: `(contract, key, value)` triples.
struct MemState {
    entries: Vec<(ContentAddress, Key, Value)>,
    fail: bool,
}

impl QueryStateExcl for MemState {
    type Error = String;

    // Only the verifier reads this model of the state; it is never called.
    fn state_at(&self, _: Seq<u8>, _: Seq<i64>, _: StateViewIx) -> Option<Seq<i64>> {
        None
    }

    // Nor this one: no read is promised to succeed.
    fn readable(&self, _: Seq<u8>, _: Seq<i64>, _: StateViewIx) -> bool {
        false
    }

    fn query_state_excl(
        &self,
        contract_ca: &ContentAddress,
        key: &Key,
        _state_view_ix: &StateViewIx,
    ) -> Result<Option<Value>, String> {
        if self.fail {
            return Err("read failed".to_string());
        }
        Ok(self
            .entries
            .iter()
            .find(|(c, k, _)| c == contract_ca && k == key)
            .map(|(_, _, v)| v.clone()))
    }
}

fn ix() -> StateViewIx {
    StateViewIx {
        block: BlockRef::Number(0),
        solution_set_ix: 0,
    }
}

fn addr(b: u8) -> ContentAddress {
    ContentAddress([b; 32])
}

/// The length-prefixed, word-padded encoding of `bytes`.
fn len_prefixed_words(bytes: &[u8]) -> Vec<i64> {
    let mut words = vec![bytes.len() as i64];
    for chunk in bytes.chunks(8) {
        let mut arr = [0u8; 8];
        arr[..chunk.len()].copy_from_slice(chunk);
        words.push(i64::from_be_bytes(arr));
    }
    words
}

fn sample_predicate() -> essential_types::predicate::Predicate {
    essential_types::predicate::Predicate {
        nodes: vec![essential_types::predicate::Node {
            edge_start: essential_types::predicate::Edge::MAX,
            program_address: essential_types::ContentAddress([7; 32]),
            reads: essential_types::predicate::Reads::Post,
        }],
        edges: vec![],
    }
}

fn encoded_predicate_words() -> Vec<i64> {
    let bytes: Vec<u8> = sample_predicate().encode().unwrap().collect();
    len_prefixed_words(&bytes)
}

fn essential(ca: &ContentAddress) -> essential_types::ContentAddress {
    essential_types::ContentAddress(ca.0)
}

fn contract_predicate_key(pred: &PredicateAddress) -> Key {
    essential_node_types::contract_registry::contract_predicate_key(&essential_types::PredicateAddress {
        contract: essential(&pred.contract),
        predicate: essential(&pred.predicate),
    })
}

fn predicate_key(ca: &ContentAddress) -> Key {
    essential_node_types::contract_registry::predicate_key(&essential(ca))
}

fn program_key(ca: &ContentAddress) -> Key {
    essential_node_types::program_registry::program_key(&essential(ca))
}

/// A state whose contract registry holds the sample predicate, and whose
/// program registry holds its program.
fn registry_state(registry: ContentAddress, programs: ContentAddress, pred: &PredicateAddress) -> MemState {
    MemState {
        entries: vec![
            (registry, contract_predicate_key(pred), vec![1]),
            (registry, predicate_key(&pred.predicate), encoded_predicate_words()),
            (programs, program_key(&addr(7)), len_prefixed_words(&[0xAA, 0xBB, 0xCC])),
        ],
        fail: false,
    }
}

#[test]
fn query_range_reads_consecutive_keys() {
    let c = addr(1);
    let state = MemState {
        entries: vec![(c, vec![0, 1], vec![10]), (c, vec![0, 3], vec![30])],
        fail: false,
    };
    let values = query_range(&state, &ix(), &c, vec![0, 1], 3).unwrap();
    assert_eq!(values, vec![vec![10], vec![], vec![30]]);
}

#[test]
fn query_range_zero_values_is_empty() {
    let state = MemState { entries: vec![], fail: false };
    let values = query_range(&state, &ix(), &addr(1), vec![i64::MAX], 0).unwrap();
    assert!(values.is_empty());
}

#[test]
fn query_range_out_of_range_reports_initial_key_and_count() {
    let state = MemState { entries: vec![], fail: false };
    let r = query_range(&state, &ix(), &addr(1), vec![i64::MAX - 1], 3);
    match r {
        Err(QueryStateRangeError::OutOfRange { key, num_values }) => {
            assert_eq!(key, vec![i64::MAX - 1]);
            assert_eq!(num_values, 3);
        }
        other => panic!("unexpected: {other:?}"),
    }
}

#[test]
fn query_range_reads_the_greatest_key() {
    // Only the keys that are read must exist.
    let c = addr(1);
    let state = MemState { entries: vec![(c, vec![i64::MAX], vec![7])], fail: false };
    assert_eq!(query_range(&state, &ix(), &c, vec![i64::MAX], 1).unwrap(), vec![vec![7]]);
    assert!(matches!(
        query_range(&state, &ix(), &c, vec![i64::MAX], 2),
        Err(QueryStateRangeError::OutOfRange { num_values: 2, .. })
    ));
}

#[test]
fn query_range_query_error() {
    let state = MemState { entries: vec![], fail: true };
    let r = query_range(&state, &ix(), &addr(1), vec![0], 2);
    assert!(matches!(r, Err(QueryStateRangeError::QueryState(e)) if e == "read failed"));
}

#[test]
fn program_from_words_reads_len_prefixed_bytes() {
    let words = len_prefixed_words(&[1, 2, 3, 4, 5, 6, 7, 8, 9]);
    let p = program_from_words::<String>(&words).unwrap();
    assert_eq!(p.0, vec![1, 2, 3, 4, 5, 6, 7, 8, 9]);
}

#[test]
fn program_from_words_errors() {
    assert!(matches!(
        program_from_words::<String>(&[]),
        Err(QueryProgramError::MissingLenBytes)
    ));
    assert!(matches!(
        program_from_words::<String>(&[-1, 0]),
        Err(QueryProgramError::InvalidLenBytes)
    ));
}

#[test]
fn predicate_from_words_decodes() {
    let p = predicate_from_words::<String>(&encoded_predicate_words()).unwrap();
    assert_eq!(
        p,
        Predicate {
            nodes: vec![Node {
                edge_start: u16::MAX,
                program_address: addr(7),
                reads: Reads::Post,
            }],
            edges: vec![],
        }
    );
}

#[test]
fn predicate_from_words_errors() {
    assert!(matches!(
        predicate_from_words::<String>(&[]),
        Err(QueryPredicateError::MissingLenBytes)
    ));
    assert!(matches!(
        predicate_from_words::<String>(&[-5]),
        Err(QueryPredicateError::InvalidLenBytes)
    ));
    // Three bytes cannot hold a predicate.
    assert!(matches!(
        predicate_from_words::<String>(&len_prefixed_words(&[0, 0, 9])),
        Err(QueryPredicateError::Decode(_))
    ));
}

#[test]
fn get_predicate_found_and_missing() {
    let registry = addr(2);
    let pred = PredicateAddress { contract: addr(3), predicate: addr(4) };
    let state = registry_state(registry, addr(5), &pred);
    let got = get_predicate(&state, &ix(), &registry, &pred).unwrap().unwrap();
    assert_eq!(got.nodes.len(), 1);
    assert_eq!(got.nodes[0].program_address, addr(7));

    // Not part of the contract.
    let other = PredicateAddress { contract: addr(9), predicate: addr(4) };
    assert!(get_predicate(&state, &ix(), &registry, &other).unwrap().is_none());

    let failing = MemState { entries: vec![], fail: true };
    assert!(matches!(
        get_predicate(&failing, &ix(), &registry, &pred),
        Err(QueryPredicateError::QueryState(_))
    ));
}

#[test]
fn get_program_found_and_missing() {
    let programs = addr(5);
    let pred = PredicateAddress { contract: addr(3), predicate: addr(4) };
    let state = registry_state(addr(2), programs, &pred);
    let p = get_program(&state, &ix(), &programs, &addr(7)).unwrap().unwrap();
    assert_eq!(p.0, vec![0xAA, 0xBB, 0xCC]);
    assert!(get_program(&state, &ix(), &programs, &addr(8)).unwrap().is_none());
}

fn solution_for(pred: PredicateAddress) -> Solution {
    Solution {
        predicate_to_solve: pred,
        predicate_data: vec![],
        state_mutations: vec![Mutation { key: vec![1], value: vec![2] }],
    }
}

#[test]
fn solution_set_predicates_and_programs() {
    let registry = addr(2);
    let programs = addr(5);
    let pred = PredicateAddress { contract: addr(3), predicate: addr(4) };
    let state = registry_state(registry, programs, &pred);
    let sols = vec![solution_for(pred), solution_for(pred)];
    let preds: PredicateMap = get_solution_set_predicates(&state, &ix(), &registry, &sols).unwrap();
    assert_eq!(preds.0.len(), 1);
    assert_eq!(preds.0[0].0, addr(4));
    let progs: ProgramMap = get_predicates_programs(&state, &ix(), &programs, &preds).unwrap();
    assert_eq!(progs.0.len(), 1);
    assert_eq!(progs.0[0].0, addr(7));
    assert_eq!((progs.0[0].1).0, vec![0xAA, 0xBB, 0xCC]);
}

#[test]
fn solution_set_predicates_missing() {
    let state = MemState { entries: vec![], fail: false };
    let pred = PredicateAddress { contract: addr(3), predicate: addr(4) };
    let r = get_solution_set_predicates(&state, &ix(), &addr(2), &[solution_for(pred)]);
    assert!(matches!(r, Err(SolutionSetPredicatesError::PredicateDoesNotExist(ca)) if ca == addr(4)));
}

#[test]
fn predicates_programs_missing() {
    let state = MemState { entries: vec![], fail: false };
    let mut preds = PredicateMap::new();
    preds.insert(
        addr(4),
        Predicate {
            nodes: vec![Node { edge_start: u16::MAX, program_address: addr(7), reads: Reads::Pre }],
            edges: vec![],
        },
    );
    let r = get_predicates_programs(&state, &ix(), &addr(5), &preds);
    assert!(matches!(r, Err(PredicateProgramsError::ProgramDoesNotExist(ca)) if ca == addr(7)));
}

type CheckResult = Result<
    u64,
    essential_check::solution::PredicatesError<QueryStateRangeError<String>>,
>;

#[test]
fn check_solution_set_hands_post_state_to_checker() {
    let registry = addr(2);
    let programs = addr(5);
    let pred = PredicateAddress { contract: addr(3), predicate: addr(4) };
    let state = registry_state(registry, programs, &pred);
    let set = SolutionSet { solutions: vec![solution_for(pred)] };
    let check = |pre: StateViewIx, post: StateViewIx, m: PredicateMap, q: ProgramMap| -> CheckResult {
        assert_eq!(pre.solution_set_ix, 4);
        assert_eq!(post.solution_set_ix, 5);
        assert_eq!(m.0.len(), 1);
        assert_eq!(q.0.len(), 1);
        Ok(42)
    };
    let pre = StateViewIx { block: BlockRef::Number(1), solution_set_ix: 4 };
    let r = check_solution_set(&state, pre, &set, &registry, &programs, &check).unwrap();
    assert!(matches!(r, Ok(42)));
}

#[test]
fn check_solution_set_index_out_of_bounds() {
    let state = MemState { entries: vec![], fail: false };
    let set = SolutionSet { solutions: vec![] };
    let check = |_: StateViewIx, _: StateViewIx, _: PredicateMap, _: ProgramMap| -> CheckResult { Ok(0) };
    let pre = StateViewIx { block: BlockRef::Number(1), solution_set_ix: u64::MAX };
    let r = check_solution_set(&state, pre, &set, &addr(2), &addr(5), &check);
    assert!(matches!(r, Err(CheckSetError::SolutionSetIxOutOfBounds)));
}

#[test]
fn check_solution_set_invalid_outcomes() {
    let pred = PredicateAddress { contract: addr(3), predicate: addr(4) };
    let set = SolutionSet { solutions: vec![solution_for(pred)] };
    let ok = |_: StateViewIx, _: StateViewIx, _: PredicateMap, _: ProgramMap| -> CheckResult { Ok(1) };

    // The predicate is not in the registry.
    let empty = MemState { entries: vec![], fail: false };
    let r = check_solution_set(&empty, ix(), &set, &addr(2), &addr(5), &ok).unwrap();
    assert!(matches!(r, Err(InvalidSet::PredicateDoesNotExist(ca)) if ca == addr(4)));

    // The program is not in its registry.
    let mut state = registry_state(addr(2), addr(5), &pred);
    state.entries.pop();
    let r = check_solution_set(&state, ix(), &set, &addr(2), &addr(5), &ok).unwrap();
    assert!(matches!(r, Err(InvalidSet::ProgramDoesNotExist(ca)) if ca == addr(7)));

    // The predicate checker fails.
    let state = registry_state(addr(2), addr(5), &pred);
    let failing = |_: StateViewIx, _: StateViewIx, _: PredicateMap, _: ProgramMap| -> CheckResult {
        Err(essential_check::solution::PredicatesError::GasOverflowed)
    };
    let r = check_solution_set(&state, ix(), &set, &addr(2), &addr(5), &failing).unwrap();
    assert!(matches!(
        r,
        Err(InvalidSet::Predicates(essential_check::solution::PredicatesError::GasOverflowed))
    ));
}

#[test]
fn check_solution_set_query_error() {
    let pred = PredicateAddress { contract: addr(3), predicate: addr(4) };
    let set = SolutionSet { solutions: vec![solution_for(pred)] };
    let ok = |_: StateViewIx, _: StateViewIx, _: PredicateMap, _: ProgramMap| -> CheckResult { Ok(1) };
    let failing = MemState { entries: vec![], fail: true };
    let r = check_solution_set(&failing, ix(), &set, &addr(2), &addr(5), &ok);
    assert!(matches!(r, Err(CheckSetError::QueryState(_))));
}

#[test]
fn sort_by_index_orders_results() {
    let sorted = sort_by_index(vec![(3, 'c'), (1, 'a'), (2, 'b'), (0, 'z')]);
    assert_eq!(sorted, vec![(0, 'z'), (1, 'a'), (2, 'b'), (3, 'c')]);
}

#[test]
fn check_solution_set_chunk_in_index_order() {
    let registry = addr(2);
    let programs = addr(5);
    let pred = PredicateAddress { contract: addr(3), predicate: addr(4) };
    let state = registry_state(registry, programs, &pred);
    let set = SolutionSet { solutions: vec![solution_for(pred)] };
    let by_ix = |pre: StateViewIx, _: StateViewIx, _: PredicateMap, _: ProgramMap| -> CheckResult {
        Ok(pre.solution_set_ix * 10)
    };
    let chunk = vec![(2, set.clone()), (0, set.clone()), (1, set)];
    let r = check_solution_set_chunk(&state, BlockRef::Number(3), chunk, &registry, &programs, &by_ix)
        .unwrap();
    let gas: Vec<u64> = r.into_iter().map(|g| g.unwrap()).collect();
    assert_eq!(gas, vec![0, 10, 20]);
}

#[test]
fn check_solution_set_chunk_reports_failing_index() {
    let pred = PredicateAddress { contract: addr(3), predicate: addr(4) };
    let set = SolutionSet { solutions: vec![solution_for(pred)] };
    let ok = |_: StateViewIx, _: StateViewIx, _: PredicateMap, _: ProgramMap| -> CheckResult { Ok(1) };
    let failing = MemState { entries: vec![], fail: true };
    let r = check_solution_set_chunk(&failing, BlockRef::Number(3), vec![(6, set)], &addr(2), &addr(5), &ok);
    assert!(matches!(r, Err(CheckSetsError::CheckSolutionSet(6, CheckSetError::QueryState(_)))));
}

#[test]
fn state_view_key_range_reads_at_its_index() {
    let c = addr(1);
    let view = StateView {
        state: MemState { entries: vec![(c, vec![5], vec![50]), (c, vec![6], vec![60])], fail: false },
        ix: ix(),
    };
    assert_eq!(view.key_range(&c, vec![5], 2).unwrap(), vec![vec![50], vec![60]]);
    assert!(matches!(
        view.key_range(&c, vec![i64::MAX], 2),
        Err(QueryStateRangeError::OutOfRange { num_values: 2, .. })
    ));
}
