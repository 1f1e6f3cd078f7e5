//! The node's database configuration.
use vstd::prelude::*;

verus! {

/// The declaration of `std::path::PathBuf`.
#[verifier::external_type_specification]
#[verifier::external_body]
pub struct ExPathBuf(std::path::PathBuf);

/// `<PathBuf as Clone>::clone`: nothing is promised of the copy.
pub assume_specification[ <std::path::PathBuf as Clone>::clone ](p: &std::path::PathBuf) -> std::path::PathBuf;

/// The declaration of `tokio::sync::AcquireError`.
#[verifier::external_type_specification]
#[verifier::external_body]
pub struct ExAcquireError(tokio::sync::AcquireError);

/// The declaration of `tokio::task::JoinError`.
#[verifier::external_type_specification]
#[verifier::external_body]
pub struct ExJoinError(tokio::task::JoinError);

/// Node configuration related to the database.
#[derive(Clone, Debug)]
pub struct Config {
    /// The number of simultaneous connections to the database to maintain.
    pub conn_limit: usize,
    /// How to source the node's database.
    pub source: Source,
}

/// The source of the node's database.
#[derive(Clone, Debug)]
pub enum Source {
    /// Use an in-memory database using the given string as a unique ID.
    Memory(String),
    /// Use the database at the given path.
    Path(std::path::PathBuf),
}

/// Any error that might occur during node DB connection pool access.
#[derive(Debug)]
pub enum AcquireThenError<E> {
    /// Failed to acquire a DB connection.
    Acquire(tokio::sync::AcquireError),
    /// The blocking task failed to join.
    Join(tokio::task::JoinError),
    /// The error returned by the `acquire_then` function result.
    Inner(E),
}

/// The ID of the default in-memory database.
pub open spec fn default_memory_id() -> Seq<char> {
    seq!['_', '_', 'd', 'e', 'f', 'a', 'u', 'l', 't', '-', 'i', 'd']
}

impl Source {
    /// A temporary, in-memory DB with a default ID.
    pub fn default_memory() -> (s: Self)
        ensures
            s matches Source::Memory(id) && id@ == default_memory_id(),
    {
        // The default ID cannot be an empty string.
        let id = String::from_str("__default-id");
        proof {
            reveal_strlit("__default-id");
            assert(id@ =~= default_memory_id());
        }
        Source::Memory(id)
    }
}

impl Default for Source {
    fn default() -> (s: Self)
        ensures
            s matches Source::Memory(id) && id@ == default_memory_id(),
    {
        Self::default_memory()
    }
}

/// `num_cpus::get`: the number of CPUs available to the process, which is at least 1.
#[verifier::external_body]
fn available_cpus() -> (r: usize)
    ensures
        r >= 1,
{
    num_cpus::get()
}

/// The connection limit for the given number of CPUs: four per CPU, saturating.
pub fn conn_limit_for_cpus(cpus: usize) -> (r: usize)
    ensures
        cpus * 4 <= usize::MAX ==> r == cpus * 4,
        cpus * 4 > usize::MAX ==> r == usize::MAX,
{
    if cpus > usize::MAX / 4 {
        usize::MAX
    } else {
        cpus * 4
    }
}

impl Config {
    /// The default connection limit: the number of available CPUs multiplied by 4.
    pub fn default_conn_limit() -> (r: usize)
        ensures
            r >= 4,
            r == usize::MAX || r % 4 == 0,
    {
        conn_limit_for_cpus(available_cpus())
    }
}

impl Default for Config {
    fn default() -> (c: Self)
        ensures
            c.conn_limit >= 4,
            c.source matches Source::Memory(id) && id@ == default_memory_id(),
    {
        Config { conn_limit: Self::default_conn_limit(), source: Source::default() }
    }
}

} // verus!
