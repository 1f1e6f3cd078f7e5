//! Errors of the relayer that the library decides on.
use crate::node::error::{is_recoverable_db_err, recoverable_db_err};
use crate::types::ContentAddress;
use vstd::prelude::*;

verus! {

/// An error that occurred while syncing data.
#[derive(Clone, Copy, Debug)]
pub enum DataSyncError {
    /// A contract mismatch was found: at the given logical clock, the contract
    /// received, and the one expected.
    ContractMismatch(u64, ContentAddress, Option<ContentAddress>),
    /// A fork was detected while syncing blocks: at the given block number, the
    /// address of the last synced block, and the address of the block received.
    Fork(i64, ContentAddress, Option<ContentAddress>),
}

/// The upper-case hexadecimal digit of a value below 16.
pub open spec fn hex_digit(v: u8) -> char {
    if v < 10 {
        ((v + 48) as u8) as char
    } else {
        ((v + 55) as u8) as char
    }
}

/// The upper-case hexadecimal encoding of `bytes`: two digits per byte, the high
/// nibble first.
pub open spec fn hex_upper(bytes: Seq<u8>) -> Seq<char>
    decreases bytes.len(),
{
    if bytes.len() == 0 {
        Seq::empty()
    } else {
        hex_upper(bytes.drop_last()) + seq![
            hex_digit(bytes.last() / 16),
            hex_digit(bytes.last() % 16),
        ]
    }
}

/// The `Display` of `essential_types::ContentAddress`: `hex::encode_upper` of its bytes.
#[verifier::external_body]
pub(crate) fn address_to_string(address: &ContentAddress) -> (r: String)
    ensures
        r@ == hex_upper(address@),
{
    format!("{}", essential_types::ContentAddress(address.0))
}

/// Display an optional address: its hexadecimal encoding, or `None`.
pub fn display_address(addr: &Option<ContentAddress>) -> (r: String)
    ensures
        addr matches Some(a) ==> r@ == hex_upper(a@),
        addr is None ==> r@ == seq!['N', 'o', 'n', 'e'],
{
    match addr {
        Some(addr) => address_to_string(addr),
        None => {
            let s = String::from_str("None");
            proof {
                reveal_strlit("None");
            }
            s
        },
    }
}

/// The declaration of `reqwest::Error`.
#[verifier::external_type_specification]
#[verifier::external_body]
pub struct ExReqwestError(reqwest::Error);

/// The declaration of `reqwest::StatusCode`.
#[verifier::external_type_specification]
#[verifier::external_body]
pub struct ExStatusCode(reqwest::StatusCode);

/// The declaration of `std::io::Error`.
#[verifier::external_type_specification]
#[verifier::external_body]
pub struct ExIoError(std::io::Error);

/// An error of the relayer that it cannot recover from: it ends the stream.
/// (The relayer's `Error`.)
#[derive(Debug)]
pub enum CriticalError {
    /// A database error occurred.
    Rusqlite(rusqlite::Error),
    /// Failed to join the database writing task.
    DbWriteThreadFailed(tokio::task::JoinError),
    /// Failed to query the database.
    DbQueryFailed(essential_node_db::QueryError),
    /// Failed to parse a server url.
    UrlParse,
    /// An overflow occurred when converting a number.
    Overflow,
    /// A data sync error occurred.
    DataSyncFailed(DataSyncError),
    /// An error occurred while building the http client.
    HttpClientBuild(reqwest::Error),
    /// The database connection pool was closed.
    DbPoolClosed(tokio::sync::AcquireError),
}

/// An error that the relayer can recover from: the stream restarts.
#[derive(Debug)]
pub enum RecoverableError {
    /// The stream from the server failed.
    Stream(std::io::Error),
    /// The server answered a request with an error status.
    BadServerResponse(reqwest::StatusCode),
    /// The http client failed.
    HttpClient(reqwest::Error),
    /// A new block did not follow the last one: the number received, and the
    /// one expected.
    NonSequentialBlock(u64, u64),
    /// The stream returned an error.
    StreamError(String),
    /// A database error that a later attempt may not meet.
    Rusqlite(rusqlite::Error),
}

/// An error of one of the relayer's streams.
#[derive(Debug)]
pub enum InternalError {
    /// The stream ends with the error.
    Critical(CriticalError),
    /// The stream logs the error and restarts.
    Recoverable(RecoverableError),
}

/// A database error that was busy or locked is recoverable; other errors stay
/// as they are.
pub open spec fn relayer_recoverable_mapping(e: InternalError) -> InternalError {
    match e {
        InternalError::Critical(CriticalError::Rusqlite(db)) => if recoverable_db_err(db) {
            InternalError::Recoverable(RecoverableError::Rusqlite(db))
        } else {
            InternalError::Critical(CriticalError::Rusqlite(db))
        },
        _ => e,
    }
}

/// Make recoverable the database errors that a later attempt may not meet.
pub fn map_recoverable_errors(e: InternalError) -> (r: InternalError)
    ensures
        r == relayer_recoverable_mapping(e),
{
    match e {
        InternalError::Critical(CriticalError::Rusqlite(db)) => {
            if is_recoverable_db_err(&db) {
                InternalError::Recoverable(RecoverableError::Rusqlite(db))
            } else {
                InternalError::Critical(CriticalError::Rusqlite(db))
            }
        },
        other => other,
    }
}

/// Making errors recoverable twice changes nothing more than doing it once.
pub proof fn lemma_relayer_mapping_idempotent(e: InternalError)
    ensures
        relayer_recoverable_mapping(relayer_recoverable_mapping(e)) == relayer_recoverable_mapping(e),
{
}

/// What a stream does with an error: end with the critical error, or restart.
pub open spec fn relayer_error_outcome(e: InternalError) -> Result<(), CriticalError> {
    match relayer_recoverable_mapping(e) {
        InternalError::Critical(c) => Err(c),
        InternalError::Recoverable(_) => Ok(()),
    }
}

/// Only a database error that was busy or locked becomes recoverable: every
/// other critical error, a fork or failed sync among them, is kept as it is
/// and ends the stream; a recoverable error stays as it is and the stream
/// goes on.
pub proof fn lemma_only_busy_db_errors_recover(e: InternalError)
    ensures
        e matches InternalError::Critical(c) ==> (!(c is Rusqlite) ==> relayer_recoverable_mapping(e)
            == e && relayer_error_outcome(e) == Err::<(), CriticalError>(c)),
        e matches InternalError::Critical(CriticalError::Rusqlite(db)) ==> (relayer_error_outcome(e)
            is Ok <==> recoverable_db_err(db)) && (!recoverable_db_err(db) ==> relayer_error_outcome(e)
            == Err::<(), CriticalError>(CriticalError::Rusqlite(db))),
        e is Recoverable ==> relayer_recoverable_mapping(e) == e && relayer_error_outcome(e) is Ok,
{
}

/// Exit on critical errors, carry on after recoverable ones.
pub fn handle_error(e: InternalError) -> (r: Result<(), CriticalError>)
    ensures
        r == relayer_error_outcome(e),
        e matches InternalError::Critical(c) ==> (!(c is Rusqlite) ==> r == Err::<(), CriticalError>(c)),
{
    match map_recoverable_errors(e) {
        InternalError::Critical(c) => Err(c),
        InternalError::Recoverable(_) => Ok(()),
    }
}

} // verus!
