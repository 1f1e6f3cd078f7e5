//! Errors of solution set checking.
use crate::types::{ContentAddress, Key};
use vstd::prelude::*;

verus! {

/// The declaration of `essential_check::solution::PredicatesError`: the
/// failure reported by the predicate checker.
#[verifier::external_type_specification]
#[verifier::external_body]
#[verifier::reject_recursive_types(E)]
pub struct ExPredicatesError<E>(essential_check::solution::PredicatesError<E>);

/// Any errors that might occur within `check_solution_set_chunk`.
#[derive(Debug)]
pub enum CheckSetsError<E> {
    /// An error occurred while checking the solution set at the given index.
    CheckSolutionSet(u64, CheckSetError<E>),
}

/// Any errors that might occur during `check_solution_set`.
#[derive(Debug)]
pub enum CheckSetError<E> {
    /// The given pre-state solution set index would imply a post-state solution
    /// set index that would exceed `u64::MAX`.
    SolutionSetIxOutOfBounds,
    /// Failed to query state.
    QueryState(E),
}

/// The reason why a solution set is invalid.
#[derive(Debug)]
#[verifier::reject_recursive_types(E)]
pub enum InvalidSet<E> {
    /// The solution set specified a predicate to solve that does not exist.
    PredicateDoesNotExist(ContentAddress),
    /// The solution set contains a predicate that specified a program that does not exist.
    ProgramDoesNotExist(ContentAddress),
    /// The solution set specified a predicate that exists, but was invalid when
    /// reading from contract registry state.
    PredicateInvalid,
    /// The solution set contains a predicate that specified a program that
    /// exists, but was invalid when reading from program registry state.
    ProgramInvalid,
    /// Validation of the solution set's predicates failed.
    Predicates(essential_check::solution::PredicatesError<QueryStateRangeError<E>>),
}

/// An error occurred while fetching a solution set's predicates.
#[derive(Debug)]
pub enum SolutionSetPredicatesError<E> {
    /// An error occurred while querying for a predicate.
    QueryPredicate(QueryPredicateError<E>),
    /// The required predicate does not exist.
    PredicateDoesNotExist(ContentAddress),
}

/// Any errors that might occur while querying for predicates.
#[derive(Debug)]
pub enum QueryPredicateError<E> {
    /// Failed to query state.
    QueryState(E),
    /// The queried predicate is missing the word that encodes its length.
    MissingLenBytes,
    /// The queried predicate length was invalid.
    InvalidLenBytes,
    /// Failed to decode the queried predicate.
    Decode(essential_types::predicate::PredicateDecodeError),
}

/// An error occurred while fetching a predicate's programs.
#[derive(Debug)]
pub enum PredicateProgramsError<E> {
    /// An error occurred while querying for a program.
    QueryProgram(QueryProgramError<E>),
    /// A required program does not exist.
    ProgramDoesNotExist(ContentAddress),
}

/// Any errors that might occur while querying for programs.
#[derive(Debug)]
pub enum QueryProgramError<E> {
    /// Failed to query state.
    QueryState(E),
    /// The queried program is missing the word that encodes its length.
    MissingLenBytes,
    /// The queried program length was invalid.
    InvalidLenBytes,
}

/// Any errors that might occur while querying a range of keys.
#[derive(Debug)]
pub enum QueryStateRangeError<E> {
    /// Failed to query state.
    QueryState(E),
    /// A key would be out of range.
    OutOfRange {
        /// The initial key of the state range query.
        key: Key,
        /// The total number of values requested.
        num_values: usize,
    },
}

} // verus!
