use essential_node::node::address::block_address;
use essential_node::node::validate::{
    Block, BlockHeader, InvalidOutcome, ValidOutcome, ValidateFailure, ValidateOutcome,
};
use essential_node::types::{Mutation, Solution, SolutionSet};
use std::time::Duration;
use essential_node::node::blocks::{
    validation_step, ValidationAction, check_first_block, dry_run_block_number, more_blocks_left, next_block_range,
    select_next_block, starting_progress, BigBangError, FirstBlock, NextBlockError,
};
use essential_node::node::db::{AcquireThenError, Config, Source};
use essential_node::node::error::{
    fmt_pred_addr, handle_error, is_busy_or_locked, is_recoverable_db_err, map_recoverable_errors, CriticalError,
    InternalError, RecoverableError,
};
use essential_node::node::state::{cascade, key_range, query, QuerySource, StateReadError};
use essential_node::types::{ContentAddress, Key, PredicateAddress, Value};

fn addr(b: u8) -> ContentAddress {
    ContentAddress([b; 32])
}

fn sqlite_error(code: i32) -> rusqlite::Error {
    rusqlite::Error::SqliteFailure(rusqlite::ffi::Error::new(code), None)
}

#[test]
fn default_memory_source() {
    match Source::default_memory() {
        Source::Memory(id) => assert_eq!(id, "__default-id"),
        Source::Path(_) => panic!("expected a memory source"),
    }
    assert!(matches!(Source::default(), Source::Memory(id) if id == "__default-id"));
}

#[test]
fn default_config_uses_four_connections_per_cpu() {
    let conf = Config::default();
    assert_eq!(conf.conn_limit, num_cpus::get() * 4);
    assert!(matches!(conf.source, Source::Memory(_)));
    assert_eq!(Config::default_conn_limit(), num_cpus::get() * 4);
}

#[test]
fn next_block_range_from_progress() {
    assert_eq!(next_block_range(None), (0, 1));
    assert_eq!(next_block_range(Some(5)), (5, 7));
    assert_eq!(next_block_range(Some(i64::MAX - 1)), (i64::MAX - 1, i64::MAX));
    assert_eq!(next_block_range(Some(-4)), (-4, -2));
}

#[test]
fn select_next_block_cases() {
    assert_eq!(select_next_block(None, &[]), Err(NextBlockError::FirstBlockNotFound));
    assert_eq!(select_next_block(None, &[addr(1)]), Ok(0));
    assert_eq!(select_next_block(Some(addr(1)), &[]), Err(NextBlockError::Fork));
    assert_eq!(
        select_next_block(Some(addr(1)), &[addr(1)]),
        Err(NextBlockError::NextBlockNotFound)
    );
    assert_eq!(select_next_block(Some(addr(1)), &[addr(2), addr(3)]), Err(NextBlockError::Fork));
    assert_eq!(select_next_block(Some(addr(1)), &[addr(1), addr(3)]), Ok(1));
}

#[test]
fn more_blocks_left_after_latest() {
    assert!(more_blocks_left(Some(5), 4));
    assert!(!more_blocks_left(Some(5), 5));
    assert!(!more_blocks_left(None, 0));
}

fn block(number: i64, sets: Vec<SolutionSet>) -> Block {
    Block {
        header: BlockHeader { number, timestamp: Duration::from_secs(number as u64) },
        solution_sets: sets,
    }
}

fn set(contract: u8, key: i64, value: i64) -> SolutionSet {
    SolutionSet {
        solutions: vec![Solution {
            predicate_to_solve: PredicateAddress { contract: addr(contract), predicate: addr(0) },
            predicate_data: vec![vec![1, 2]],
            state_mutations: vec![Mutation { key: vec![key], value: vec![value] }],
        }],
    }
}

/// The same block as the essential crates have it.
fn essential_block(b: &Block) -> essential_node_types::Block {
    essential_node_types::Block {
        header: essential_node_types::block::Header {
            number: b.header.number,
            timestamp: b.header.timestamp,
        },
        solution_sets: b.solution_sets.iter().map(essential_set).collect(),
    }
}

fn essential_set(set: &SolutionSet) -> essential_types::solution::SolutionSet {
    essential_types::solution::SolutionSet {
        solutions: set
            .solutions
            .iter()
            .map(|s| essential_types::solution::Solution {
                predicate_to_solve: essential_types::PredicateAddress {
                    contract: essential_types::ContentAddress(s.predicate_to_solve.contract.0),
                    predicate: essential_types::ContentAddress(s.predicate_to_solve.predicate.0),
                },
                predicate_data: s.predicate_data.clone(),
                state_mutations: s
                    .state_mutations
                    .iter()
                    .map(|m| essential_types::solution::Mutation {
                        key: m.key.clone(),
                        value: m.value.clone(),
                    })
                    .collect(),
            })
            .collect(),
    }
}

#[test]
fn block_address_is_the_essential_content_address() {
    let b = block(3, vec![set(1, 2, 3), set(4, 5, 6)]);
    let expected = essential_hash::content_addr(&essential_block(&b));
    assert_eq!(block_address(&b), ContentAddress(expected.0));
    // Another block has another address.
    assert_ne!(block_address(&b), block_address(&block(4, vec![set(1, 2, 3)])));
}

#[test]
fn big_bang_first_block() {
    let bb = block(0, vec![set(1, 1, 1)]);
    let other = block(0, vec![set(2, 2, 2)]);
    assert!(matches!(check_first_block(&bb, None), Ok(FirstBlock::Insert)));
    assert!(matches!(check_first_block(&bb, Some(&block(0, vec![set(1, 1, 1)]))), Ok(FirstBlock::Present)));
    match check_first_block(&bb, Some(&other)) {
        Err(BigBangError::UnexpectedBlock { expected, found }) => {
            assert_eq!(expected, block_address(&bb));
            assert_eq!(found, block_address(&other));
        }
        other => panic!("unexpected: {other:?}"),
    }
}

#[test]
fn validation_step_advances_or_records() {
    let b = block(5, vec![set(1, 1, 1), set(2, 2, 2)]);
    let valid: ValidateOutcome<()> = ValidateOutcome::Valid(ValidOutcome { total_gas: 3 });
    match validation_step(&b, &valid, Some(6)) {
        ValidationAction::Advance { progress, more_blocks } => {
            assert_eq!(progress, block_address(&b));
            assert!(more_blocks);
        }
        other => panic!("unexpected: {other:?}"),
    }
    assert!(matches!(
        validation_step(&b, &valid, Some(5)),
        ValidationAction::Advance { more_blocks: false, .. }
    ));
    assert!(matches!(
        validation_step(&b, &valid, None),
        ValidationAction::Advance { more_blocks: false, .. }
    ));
    let invalid: ValidateOutcome<()> = ValidateOutcome::Invalid(InvalidOutcome {
        failure: ValidateFailure::GasOverflow,
        solution_set_index: 1,
    });
    match validation_step(&b, &invalid, Some(9)) {
        ValidationAction::RecordFailure { block: failed, solution_set } => {
            assert_eq!(failed, block_address(&b));
            let expected = essential_hash::content_addr(&essential_set(&b.solution_sets[1]));
            assert_eq!(solution_set, ContentAddress(expected.0));
        }
        other => panic!("unexpected: {other:?}"),
    }
}

#[test]
fn validation_starts_from_big_bang() {
    assert_eq!(starting_progress(&None, &addr(9)), Some(addr(9)));
    assert_eq!(starting_progress(&Some(addr(3)), &addr(9)), None);
}

#[test]
fn dry_run_block_is_after_latest() {
    assert_eq!(dry_run_block_number(Some(7)), 8);
    assert_eq!(dry_run_block_number(Some(i64::MAX)), i64::MAX);
    assert_eq!(dry_run_block_number(None), 1);
}

#[test]
fn busy_and_locked_codes_are_recoverable() {
    assert!(is_busy_or_locked(5));
    assert!(is_busy_or_locked(6));
    // Extended codes keep the primary code in their low byte.
    assert!(is_busy_or_locked(5 | (1 << 8)));
    assert!(!is_busy_or_locked(1));
    assert!(is_recoverable_db_err(&sqlite_error(5)));
    assert!(is_recoverable_db_err(&sqlite_error(6)));
    assert!(!is_recoverable_db_err(&sqlite_error(11)));
    assert!(!is_recoverable_db_err(&rusqlite::Error::QueryReturnedNoRows));
}

#[test]
fn node_database_errors_are_routed() {
    let busy = InternalError::Critical(CriticalError::DatabaseFailed(sqlite_error(5)));
    assert!(matches!(
        map_recoverable_errors(busy),
        InternalError::Recoverable(RecoverableError::Rusqlite(_))
    ));
    let corrupt = InternalError::Critical(CriticalError::DatabaseFailed(sqlite_error(11)));
    assert!(matches!(
        map_recoverable_errors(corrupt),
        InternalError::Critical(CriticalError::DatabaseFailed(_))
    ));
}

#[test]
fn node_read_state_errors_are_routed() {
    let locked = InternalError::Critical(CriticalError::ReadState(AcquireThenError::Inner(
        essential_node_db::QueryError::Rusqlite(sqlite_error(6)),
    )));
    assert!(matches!(
        map_recoverable_errors(locked),
        InternalError::Recoverable(RecoverableError::Rusqlite(_))
    ));
    let failed = InternalError::Critical(CriticalError::ReadState(AcquireThenError::Inner(
        essential_node_db::QueryError::Rusqlite(sqlite_error(1)),
    )));
    assert!(matches!(
        map_recoverable_errors(failed),
        InternalError::Critical(CriticalError::DatabaseFailed(_))
    ));
    let range = InternalError::Critical(CriticalError::ReadState(AcquireThenError::Inner(
        essential_node_db::QueryError::UnsupportedRange,
    )));
    assert!(matches!(
        map_recoverable_errors(range),
        InternalError::Critical(CriticalError::ReadState(AcquireThenError::Inner(
            essential_node_db::QueryError::UnsupportedRange
        )))
    ));
}

#[test]
fn node_handle_error_ends_only_on_critical() {
    assert!(handle_error(InternalError::Recoverable(RecoverableError::FirstBlockNotFound)).is_ok());
    assert!(handle_error(InternalError::Critical(CriticalError::DatabaseFailed(sqlite_error(5)))).is_ok());
    assert!(matches!(
        handle_error(InternalError::Critical(CriticalError::Fork)),
        Err(CriticalError::Fork)
    ));
    assert!(matches!(
        handle_error(InternalError::Critical(CriticalError::DatabaseFailed(sqlite_error(11)))),
        Err(CriticalError::DatabaseFailed(_))
    ));
}

#[test]
fn node_handle_error_twice_same_as_once() {
    // Routing is settled after one pass: routing a routed error again changes nothing.
    let once = map_recoverable_errors(InternalError::Critical(CriticalError::DatabaseFailed(
        sqlite_error(11),
    )));
    assert!(matches!(
        map_recoverable_errors(once),
        InternalError::Critical(CriticalError::DatabaseFailed(_))
    ));
}

#[test]
fn node_key_range_reads_each_key() {
    let read = |k: &Key| -> Result<Option<Value>, essential_node_db::QueryError> {
        if k[0] % 2 == 0 {
            Ok(Some(vec![k[0] * 10]))
        } else {
            Ok(None)
        }
    };
    let values = key_range(read, vec![2], 3).unwrap();
    assert_eq!(values, vec![vec![20], vec![], vec![40]]);
}

#[test]
fn node_key_range_refuses_the_last_key() {
    let read = |_: &Key| -> Result<Option<Value>, essential_node_db::QueryError> { Ok(None) };
    // The key after the last value read must exist too.
    assert!(matches!(key_range(read, vec![i64::MAX], 1), Err(StateReadError::KeyRangeError)));
    assert!(key_range(read, vec![i64::MAX - 1], 1).is_ok());
    assert!(matches!(key_range(read, vec![i64::MAX - 1], 2), Err(StateReadError::KeyRangeError)));
    assert!(key_range(read, vec![i64::MAX], 0).unwrap().is_empty());
}

#[test]
fn node_key_range_query_error() {
    let read = |_: &Key| -> Result<Option<Value>, essential_node_db::QueryError> {
        Err(essential_node_db::QueryError::UnsupportedRange)
    };
    assert!(matches!(
        key_range(read, vec![0], 2),
        Err(StateReadError::Query(essential_node_db::QueryError::UnsupportedRange))
    ));
}

#[test]
fn cascade_prefers_memory() {
    let query = |source: &u8| -> Result<Option<Value>, essential_node_db::QueryError> {
        match source {
            0 => Ok(None),
            1 => Ok(Some(vec![1])),
            2 => Ok(Some(vec![2])),
            _ => Err(essential_node_db::QueryError::UnsupportedRange),
        }
    };
    assert_eq!(cascade(&1, &2, &query).unwrap(), Some(vec![1]));
    assert_eq!(cascade(&0, &2, &query).unwrap(), Some(vec![2]));
    assert_eq!(cascade(&0, &0, &query).unwrap(), None);
    assert!(cascade(&3, &2, &query).is_err());
    assert!(cascade(&0, &3, &query).is_err());
}

#[test]
fn state_read_error_from_acquire_then() {
    let inner = StateReadError::from_acquire_then(AcquireThenError::Inner(StateReadError::KeyRangeError));
    assert!(matches!(inner, StateReadError::KeyRangeError));
}

#[test]
fn query_reads_cascade_or_handle() {
    let read = |source: &u8| -> Result<Option<Value>, essential_node_db::QueryError> {
        if *source == 0 {
            Ok(None)
        } else {
            Ok(Some(vec![*source as i64]))
        }
    };
    assert_eq!(query(&QuerySource::Handle(4), &read).unwrap(), Some(vec![4]));
    assert_eq!(query(&QuerySource::Handle(0), &read).unwrap(), None);
    assert_eq!(
        query(&QuerySource::Cascade { memory: 0, db: 5 }, &read).unwrap(),
        Some(vec![5])
    );
    assert_eq!(
        query(&QuerySource::Cascade { memory: 3, db: 5 }, &read).unwrap(),
        Some(vec![3])
    );
}

#[test]
fn predicate_address_formatting() {
    let text = fmt_pred_addr(&PredicateAddress { contract: addr(0x0a), predicate: addr(0xf0) });
    assert_eq!(
        text,
        format!("(contract: {}, predicate: {})", "0A".repeat(32), "F0".repeat(32))
    );
}
