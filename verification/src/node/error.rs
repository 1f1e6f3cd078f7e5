//! Errors of the node's validation.
use crate::node::db::AcquireThenError;
use crate::relayer::error::{address_to_string, hex_upper};
use crate::types::{ContentAddress, PredicateAddress};
use vstd::prelude::*;

verus! {

/// The declaration of `essential_node_db::QueryError`.
#[verifier::external_type_specification]
#[verifier::external_body]
pub struct ExQueryError(essential_node_db::QueryError);

/// An `acquire_then` error whose function returns a result with a query error.
pub type AcquireThenQueryError = AcquireThenError<essential_node_db::QueryError>;

/// An error of the validation stream: it either restarts the stream or ends it.
#[derive(Debug)]
pub enum InternalError {
    /// The stream logs the error and restarts.
    Recoverable(RecoverableError),
    /// The stream ends with the error.
    Critical(CriticalError),
}

/// An error after which the validation stream restarts.
#[derive(Debug)]
pub enum RecoverableError {
    /// Could not read state.
    ReadState(AcquireThenQueryError),
    /// A query failed.
    Query(essential_node_db::QueryError),
    /// Failed to query the predicate with the given address.
    QueryPredicate(PredicateAddress, QueryPredicateError<essential_node_db::QueryError>),
    /// Failed to join a blocking task.
    Join(tokio::task::JoinError),
    /// Failed to get the last processed block.
    LastProgress,
    /// A database error that a later attempt may not meet (the database was
    /// busy or locked).
    Rusqlite(rusqlite::Error),
    /// The predicate is not in the database.
    PredicateNotFound(PredicateAddress),
    /// The last processed block is not in the database.
    BlockNotFound(ContentAddress),
    /// The block after the given one is not in the database yet.
    NextBlockNotFound(ContentAddress),
    /// There is no first block yet.
    FirstBlockNotFound,
}

/// An error that ends the validation stream.
#[derive(Debug)]
pub enum CriticalError {
    /// A fork was found.
    Fork,
    /// The database failed.
    DatabaseFailed(rusqlite::Error),
    /// Reading state failed.
    ReadState(AcquireThenQueryError),
    /// Getting the next block failed.
    GetNextBlock(AcquireThenQueryError),
    /// The database connection pool was closed.
    DbPoolClosed(tokio::sync::AcquireError),
    /// The last progress cannot be none.
    LastProgressNone,
}

/// The result code of an SQLite failure, where the error is one: the
/// `extended_code` of `rusqlite::Error::SqliteFailure`.
pub uninterp spec fn sqlite_failure_code(err: rusqlite::Error) -> Option<i32>;

/// Read the extended result code of an SQLite failure.
#[verifier::external_body]
fn failure_code(err: &rusqlite::Error) -> (r: Option<i32>)
    ensures
        r == sqlite_failure_code(*err),
{
    match err {
        rusqlite::Error::SqliteFailure(e, _) => Some(e.extended_code),
        _ => None,
    }
}

/// The query's database error, if that is what the query error is.
pub uninterp spec fn query_db_failure(e: essential_node_db::QueryError) -> Option<rusqlite::Error>;

/// Split a query error into its database error, or hand it back where it is
/// another kind of query error.
#[verifier::external_body]
fn split_query_error(e: essential_node_db::QueryError) -> (r: Result<
    rusqlite::Error,
    essential_node_db::QueryError,
>)
    ensures
        r matches Ok(db) ==> query_db_failure(e) == Some(db),
        r matches Err(other) ==> query_db_failure(e) is None && other == e,
{
    match e {
        essential_node_db::QueryError::Rusqlite(db) => Ok(db),
        other => Err(other),
    }
}

/// SQLite's primary result code for a busy database (`SQLITE_BUSY`).
pub const SQLITE_BUSY: i32 = 5;

/// SQLite's primary result code for a locked table (`SQLITE_LOCKED`).
pub const SQLITE_LOCKED: i32 = 6;

/// Whether an extended SQLite result code says that the database was busy or
/// locked: its low byte is the primary code.
pub open spec fn busy_or_locked(code: i32) -> bool {
    code % 256 == SQLITE_BUSY || code % 256 == SQLITE_LOCKED
}

/// Whether a database error is one that a later attempt may not meet: an
/// SQLite failure whose code says that the database was busy or locked.
pub open spec fn recoverable_db_err(err: rusqlite::Error) -> bool {
    sqlite_failure_code(err) matches Some(code) && busy_or_locked(code)
}

/// Whether the extended result code of an SQLite failure says that the
/// database was busy or locked.
pub fn is_busy_or_locked(code: i32) -> (r: bool)
    ensures
        r == busy_or_locked(code),
{
    let primary: i32 = code & 0xff;
    assert(code & 0xff == code % 256) by (bit_vector);
    primary == SQLITE_BUSY || primary == SQLITE_LOCKED
}

/// Whether a database error is one that a later attempt may not meet.
pub fn is_recoverable_db_err(err: &rusqlite::Error) -> (r: bool)
    ensures
        r == recoverable_db_err(*err),
{
    match failure_code(err) {
        Some(code) => is_busy_or_locked(code),
        None => false,
    }
}

/// Where a database error goes: back to the stream as recoverable, or to the
/// end of the stream.
pub open spec fn route_db_err(e: rusqlite::Error) -> InternalError {
    if recoverable_db_err(e) {
        InternalError::Recoverable(RecoverableError::Rusqlite(e))
    } else {
        InternalError::Critical(CriticalError::DatabaseFailed(e))
    }
}

/// Some critical errors hold cases that the stream can recover from: a
/// database that was busy or locked, a task that failed to join. The error
/// with those cases made recoverable, and a closed pool named as such.
pub open spec fn recoverable_mapping(e: InternalError) -> InternalError {
    match e {
        InternalError::Critical(CriticalError::DatabaseFailed(db)) => route_db_err(db),
        InternalError::Critical(CriticalError::ReadState(read)) => match read {
            AcquireThenError::Acquire(a) => InternalError::Critical(CriticalError::DbPoolClosed(a)),
            AcquireThenError::Join(j) => InternalError::Recoverable(
                RecoverableError::ReadState(AcquireThenError::Join(j)),
            ),
            AcquireThenError::Inner(q) => match query_db_failure(q) {
                Some(db) => route_db_err(db),
                None => InternalError::Critical(CriticalError::ReadState(AcquireThenError::Inner(q))),
            },
        },
        _ => e,
    }
}

fn route_db_error(e: rusqlite::Error) -> (r: InternalError)
    ensures
        r == route_db_err(e),
{
    if is_recoverable_db_err(&e) {
        InternalError::Recoverable(RecoverableError::Rusqlite(e))
    } else {
        InternalError::Critical(CriticalError::DatabaseFailed(e))
    }
}

/// Make recoverable the cases of critical errors that the stream can recover
/// from.
pub fn map_recoverable_errors(e: InternalError) -> (r: InternalError)
    ensures
        r == recoverable_mapping(e),
{
    match e {
        InternalError::Critical(CriticalError::DatabaseFailed(db)) => route_db_error(db),
        InternalError::Critical(CriticalError::ReadState(read)) => match read {
            AcquireThenError::Acquire(a) => InternalError::Critical(CriticalError::DbPoolClosed(a)),
            AcquireThenError::Join(j) => InternalError::Recoverable(
                RecoverableError::ReadState(AcquireThenError::Join(j)),
            ),
            AcquireThenError::Inner(q) => match split_query_error(q) {
                Ok(db) => route_db_error(db),
                Err(q) => InternalError::Critical(CriticalError::ReadState(AcquireThenError::Inner(q))),
            },
        },
        other => other,
    }
}

/// Making errors recoverable twice changes nothing more than doing it once.
pub proof fn lemma_recoverable_mapping_idempotent(e: InternalError)
    ensures
        recoverable_mapping(recoverable_mapping(e)) == recoverable_mapping(e),
{
}

/// A database error that was busy or locked never ends the stream; any other
/// database error does.
pub proof fn lemma_db_error_outcome(db: rusqlite::Error)
    ensures
        error_outcome(InternalError::Critical(CriticalError::DatabaseFailed(db))) is Ok
            <==> recoverable_db_err(db),
{
}

/// Only database errors that were busy or locked, and tasks that failed to
/// join while reading state, become recoverable; a closed pool is named as
/// such; a query error that is not a database error stays as it is; every
/// other critical error is kept as it is and ends the stream, and a
/// recoverable error stays recoverable.
pub proof fn lemma_critical_errors_kept(e: InternalError)
    ensures
        e matches InternalError::Critical(c) ==> (!(c is DatabaseFailed) && !(c is ReadState)
            ==> recoverable_mapping(e) == e && error_outcome(e) == Err::<(), CriticalError>(c)),
        e matches InternalError::Critical(CriticalError::ReadState(AcquireThenError::Acquire(a)))
            ==> error_outcome(e) == Err::<(), CriticalError>(CriticalError::DbPoolClosed(a)),
        e matches InternalError::Critical(CriticalError::ReadState(AcquireThenError::Join(_)))
            ==> error_outcome(e) is Ok,
        e matches InternalError::Critical(CriticalError::ReadState(AcquireThenError::Inner(q)))
            ==> match query_db_failure(q) {
            Some(db) => (error_outcome(e) is Ok <==> recoverable_db_err(db)) && (!recoverable_db_err(
                db,
            ) ==> error_outcome(e) == Err::<(), CriticalError>(CriticalError::DatabaseFailed(db))),
            None => error_outcome(e) == Err::<(), CriticalError>(
                CriticalError::ReadState(AcquireThenError::Inner(q)),
            ),
        },
        e matches InternalError::Critical(CriticalError::DatabaseFailed(db)) ==> !recoverable_db_err(db)
            ==> error_outcome(e) == Err::<(), CriticalError>(CriticalError::DatabaseFailed(db)),
        e is Recoverable ==> recoverable_mapping(e) == e && error_outcome(e) is Ok,
{
}

/// What the stream does with an error: end with the critical error, or go on.
pub open spec fn error_outcome(e: InternalError) -> Result<(), CriticalError> {
    match recoverable_mapping(e) {
        InternalError::Critical(c) => Err(c),
        InternalError::Recoverable(_) => Ok(()),
    }
}

/// Exit on critical errors, carry on after recoverable ones.
pub fn handle_error(e: InternalError) -> (r: Result<(), CriticalError>)
    ensures
        r == error_outcome(e),
{
    match map_recoverable_errors(e) {
        InternalError::Critical(c) => Err(c),
        InternalError::Recoverable(_) => Ok(()),
    }
}

/// An error occurred while fetching a solution set's predicates.
#[derive(Debug)]
pub enum SolutionSetPredicatesError<E> {
    /// Failed to query the predicate with the given address.
    QueryPredicate(PredicateAddress, QueryPredicateError<E>),
    /// The solution attempts to solve an unregistered predicate.
    MissingPredicate(PredicateAddress),
}

/// An error occurred while fetching the programs of a set of predicates.
#[derive(Debug)]
pub enum PredicatesProgramsError<E> {
    /// Failed to query the program with the given address.
    QueryProgram(ContentAddress, QueryProgramError<E>),
    /// A predicate contains an unregistered program.
    MissingProgram(ContentAddress),
}

/// Any errors that might occur while querying for a predicate.
#[derive(Debug)]
pub enum QueryPredicateError<E> {
    /// Failed to query state.
    Query(E),
    /// The queried predicate is missing the word that encodes its length.
    MissingLenBytes,
    /// The queried predicate length was invalid.
    InvalidLenBytes,
    /// Failed to decode the queried predicate.
    Decode(essential_types::predicate::PredicateDecodeError),
}

/// Any errors that might occur while querying for a program.
#[derive(Debug)]
pub enum QueryProgramError<E> {
    /// Failed to query state.
    Query(E),
    /// The queried program is missing the word that encodes its length.
    MissingLenBytes,
    /// The queried program length was invalid.
    InvalidLenBytes,
}

/// How a predicate address reads in messages: both of its addresses in
/// upper-case hexadecimal.
pub open spec fn pred_addr_text(contract: Seq<u8>, predicate: Seq<u8>) -> Seq<char> {
    "(contract: "@ + hex_upper(contract) + ", predicate: "@ + hex_upper(predicate) + ")"@
}

/// Format a predicate address as `(contract: <hex>, predicate: <hex>)`.
pub fn fmt_pred_addr(addr: &PredicateAddress) -> (r: String)
    ensures
        r@ == pred_addr_text(addr.contract@, addr.predicate@),
{
    let mut s = String::from_str("(contract: ");
    let contract = address_to_string(&addr.contract);
    s.append(contract.as_str());
    s.append(", predicate: ");
    let predicate = address_to_string(&addr.predicate);
    s.append(predicate.as_str());
    s.append(")");
    proof {
        reveal_strlit("(contract: ");
        reveal_strlit(", predicate: ");
        reveal_strlit(")");
    }
    s
}

} // verus!
