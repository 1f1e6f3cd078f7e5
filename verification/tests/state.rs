use essential_node::merkle::{apply_solution_set, State};
use essential_node::types::{ContentAddress, Mutation, PredicateAddress, Solution, SolutionSet};

fn solution(contract: u8, muts: &[(i64, i64)]) -> Solution {
    Solution {
        predicate_to_solve: PredicateAddress {
            contract: ContentAddress([contract; 32]),
            predicate: ContentAddress([0; 32]),
        },
        predicate_data: vec![],
        state_mutations: muts
            .iter()
            .map(|(k, v)| Mutation { key: vec![*k], value: vec![*v] })
            .collect(),
    }
}

#[test]
fn apply_solution_set_writes_each_mutation() {
    let set = SolutionSet {
        solutions: vec![solution(1, &[(1, 10), (2, 20)]), solution(2, &[(1, 99)])],
    };
    let mut state = State::empty();
    let copy = apply_solution_set(&set, &mut state);
    let c1 = ContentAddress([1; 32]);
    let c2 = ContentAddress([2; 32]);
    assert_eq!(state.get(&c1, &vec![1]), Some(vec![10]));
    assert_eq!(state.get(&c1, &vec![2]), Some(vec![20]));
    assert_eq!(state.get(&c2, &vec![1]), Some(vec![99]));
    assert_eq!(state.get(&c2, &vec![2]), None);
    assert_eq!(state.get(&ContentAddress([3; 32]), &vec![1]), None);
    assert_eq!(copy.get(&c1, &vec![2]), Some(vec![20]));
}

#[test]
fn apply_solution_set_last_write_wins() {
    let set = SolutionSet {
        solutions: vec![solution(1, &[(1, 10), (1, 11)]), solution(1, &[(1, 12)])],
    };
    let mut state = State::empty();
    apply_solution_set(&set, &mut state);
    assert_eq!(state.get(&ContentAddress([1; 32]), &vec![1]), Some(vec![12]));
}

#[test]
fn apply_solution_set_twice_is_once() {
    let set = SolutionSet {
        solutions: vec![solution(1, &[(1, 10), (2, 20)]), solution(1, &[(1, 30)])],
    };
    let mut once = State::empty();
    apply_solution_set(&set, &mut once);
    let mut twice = State::empty();
    apply_solution_set(&set, &mut twice);
    apply_solution_set(&set, &mut twice);
    for k in [1, 2, 3] {
        assert_eq!(
            once.get(&ContentAddress([1; 32]), &vec![k]),
            twice.get(&ContentAddress([1; 32]), &vec![k])
        );
    }
}

#[test]
fn empty_solution_set_changes_nothing() {
    let mut state = State::empty();
    apply_solution_set(&SolutionSet { solutions: vec![solution(1, &[(5, 5)])] }, &mut state);
    apply_solution_set(&SolutionSet { solutions: vec![] }, &mut state);
    assert_eq!(state.get(&ContentAddress([1; 32]), &vec![5]), Some(vec![5]));
}

#[test]
fn test_apply_solution_set() {
    let contract = ContentAddress([0u8; 32]);
    let key = vec![0i64; 4];
    let solution = Solution {
        predicate_to_solve: PredicateAddress { contract, predicate: ContentAddress([0u8; 32]) },
        predicate_data: vec![],
        state_mutations: vec![Mutation { key: key.clone(), value: vec![42] }],
    };
    let solution_set = SolutionSet { solutions: vec![solution] };
    let mut state = State::empty();

    let updated_state = apply_solution_set(&solution_set, &mut state);

    // The expected state holds the one contract with the one key written.
    assert_eq!(updated_state.get(&contract, &key), Some(vec![42]));
    assert_eq!(state.get(&contract, &key), Some(vec![42]));
    assert_eq!(updated_state.get(&contract, &vec![0i64; 3]), None);
    assert_eq!(updated_state.get(&ContentAddress([1u8; 32]), &key), None);
}
