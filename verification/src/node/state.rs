//! Reading ranges of state for the node's checks.
use crate::key::{key_successor, next_key};
use crate::node::db::AcquireThenError;
use crate::types::{Key, Value};
use crate::validate::{keys_in_range, nth_key, lemma_nth_key_none_stays};
use vstd::prelude::*;

verus! {

/// An error of reading state from the node's database.
#[derive(Debug)]
pub enum StateReadError {
    /// A query failed.
    Query(essential_node_db::QueryError),
    /// The database connection pool was closed.
    DbPoolClosed(tokio::sync::AcquireError),
    /// A database error.
    Rusqlite(rusqlite::Error),
    /// The blocking task failed to join.
    Join(tokio::task::JoinError),
    /// The range of keys runs past the last key.
    KeyRangeError,
}

/// The error of reading state, from the error of acquiring a connection and
/// reading with it.
pub open spec fn state_read_error_of(error: AcquireThenError<StateReadError>) -> StateReadError {
    match error {
        AcquireThenError::Acquire(e) => StateReadError::DbPoolClosed(e),
        AcquireThenError::Inner(e) => e,
        AcquireThenError::Join(e) => StateReadError::Join(e),
    }
}

impl StateReadError {
    /// The error of reading state, from the error of acquiring a connection
    /// and reading with it.
    pub fn from_acquire_then(error: AcquireThenError<StateReadError>) -> (r: StateReadError)
        ensures
            r == state_read_error_of(error),
    {
        match error {
            AcquireThenError::Acquire(e) => StateReadError::DbPoolClosed(e),
            AcquireThenError::Inner(e) => e,
            AcquireThenError::Join(e) => StateReadError::Join(e),
        }
    }
}

/// Whether `value` is what a read that returned `result` gives: the value,
/// or the empty value where there is none.
pub open spec fn read_gives(result: Option<Value>, value: Value) -> bool {
    match result {
        Some(v) => value@ == v@,
        None => value@.len() == 0,
    }
}

/// Whether reading at `key` may return `result`.
pub open spec fn may_read<F: Fn(&Key) -> Result<Option<Value>, essential_node_db::QueryError>>(
    read: F,
    key: Key,
    result: Result<Option<Value>, essential_node_db::QueryError>,
) -> bool {
    read.ensures((&key,), result)
}

/// Whether reading at `key` may give `value`.
pub open spec fn may_give<F: Fn(&Key) -> Result<Option<Value>, essential_node_db::QueryError>>(
    read: F,
    key: Seq<i64>,
    value: Value,
) -> bool {
    exists|k: Key, res: Option<Value>|
        k@ == key && #[trigger] may_read(read, k, Ok(res)) && read_gives(res, value)
}

/// Whether `values` are what reading `read` at the keys from `key` on may
/// give, the `i`-th at the `i`-th key.
pub open spec fn reads_give<F: Fn(&Key) -> Result<Option<Value>, essential_node_db::QueryError>>(
    read: F,
    key: Seq<i64>,
    values: Seq<Value>,
) -> bool
    decreases values.len(),
{
    if values.len() == 0 {
        true
    } else {
        let last = (values.len() - 1) as nat;
        &&& reads_give(read, key, values.drop_last())
        &&& nth_key(key, last) is Some
        &&& may_give(read, nth_key(key, last)->0, values.last())
    }
}

/// A value read at the next key extends what the reads give.
proof fn lemma_reads_give_push<F: Fn(&Key) -> Result<Option<Value>, essential_node_db::QueryError>>(
    read: F,
    key: Seq<i64>,
    values: Seq<Value>,
    k: Key,
    res: Option<Value>,
    v: Value,
)
    requires
        reads_give(read, key, values),
        nth_key(key, values.len()) == Some(k@),
        may_read(read, k, Ok(res)),
        read_gives(res, v),
    ensures
        reads_give(read, key, values.push(v)),
{
    assert(may_give(read, k@, v));
    assert(values.push(v).drop_last() == values);
}

/// Whether some read may fail with `e`.
pub open spec fn may_fail<F: Fn(&Key) -> Result<Option<Value>, essential_node_db::QueryError>>(
    read: F,
    e: essential_node_db::QueryError,
) -> bool {
    exists|k: Key| #[trigger] may_read(read, k, Err(e))
}

/// Read `num_values` values of state at consecutive keys from `key`, with
/// `read` giving the value at one key (the empty value where there is none).
/// The key after each value read must exist, the last one's too: where it
/// does not, the range is refused.
pub fn key_range<F>(read: F, key: Key, num_values: usize) -> (r: Result<Vec<Value>, StateReadError>) where
    F: Fn(&Key) -> Result<Option<Value>, essential_node_db::QueryError>,

    requires
        forall|k: &Key| #[trigger] read.requires((k,)),
    ensures
        r matches Ok(values) ==> values@.len() == num_values && keys_in_range(
            key@,
            (num_values + 1) as nat,
        ) && reads_give(read, key@, values@),
        r matches Err(StateReadError::Query(e)) ==> may_fail(read, e),
        r matches Err(StateReadError::KeyRangeError) ==> !keys_in_range(
            key@,
            (num_values + 1) as nat,
        ),
        r is Err ==> r matches Err(StateReadError::Query(_)) || r matches Err(StateReadError::KeyRangeError),
{
    let ghost initial = key@;
    let mut cur = key;
    let mut values: Vec<Value> = Vec::new();
    let mut i: usize = 0;
    while i < num_values
        invariant
            forall|k: &Key| #[trigger] read.requires((k,)),
            i <= num_values,
            initial == key@,
            values@.len() == i,
            nth_key(initial, i as nat) == Some(cur@),
            reads_give(read, initial, values@),
        decreases num_values - i,
    {
        let res = read(&cur);
        let ghost got = res;
        let value = match res {
            Ok(Some(v)) => v,
            Ok(None) => Vec::new(),
            Err(e) => {
                let out: Result<Vec<Value>, StateReadError> = Err(StateReadError::Query(e));
                proof {
                    assert(may_read(read, cur, Err(e)));
                    assert(may_fail(read, e));
                }
                return out;
            },
        };
        let ghost before = values@;
        let ghost current = cur;
        values.push(value);
        proof {
            let o = got->Ok_0;
            assert(may_read(read, current, Ok(o)));
            lemma_reads_give_push(read, initial, before, current, o, value);
        }
        i = i + 1;
        match next_key(cur) {
            Some(k) => {
                proof {
                    assert(nth_key(initial, i as nat) == key_successor(current@));
                }
                cur = k;
            },
            None => {
                proof {
                    assert(nth_key(initial, i as nat) == key_successor(current@));
                    lemma_nth_key_none_stays(initial, i as nat, num_values as nat);
                }
                return Err(StateReadError::KeyRangeError);
            },
        }
    }
    Ok(values)
}

/// Whether querying `source` with `query` may return `result`.
pub open spec fn may_query<T, F: Fn(&T) -> Result<Option<Value>, essential_node_db::QueryError>>(
    query: F,
    source: T,
    result: Result<Option<Value>, essential_node_db::QueryError>,
) -> bool {
    query.ensures((&source,), result)
}

/// Cascade a query from the in-memory database to the on-disk one: the
/// in-memory answer where it has a value or fails, else the on-disk answer.
pub fn cascade<T, F>(memory: &T, db: &T, query: &F) -> (r: Result<Option<Value>, essential_node_db::QueryError>) where
    F: Fn(&T) -> Result<Option<Value>, essential_node_db::QueryError>,

    requires
        query.requires((memory,)),
        query.requires((db,)),
    ensures
        (may_query(*query, *memory, r) && !(r matches Ok(None))) || (may_query(
            *query,
            *memory,
            Ok(None),
        ) && may_query(*query, *db, r)),
{
    match query(memory) {
        Ok(Some(value)) => Ok(Some(value)),
        Ok(None) => query(db),
        Err(e) => Err(e),
    }
}

/// Where a query reads: a dry run's cascade from the in-memory database to
/// the on-disk one, or one database.
pub enum QuerySource<T> {
    /// The in-memory database first, then the on-disk one.
    Cascade { memory: T, db: T },
    /// One database.
    Handle(T),
}

/// Run a query on either a cascade or a single database.
pub fn query<T, F>(conn: &QuerySource<T>, f: &F) -> (r: Result<Option<Value>, essential_node_db::QueryError>) where
    F: Fn(&T) -> Result<Option<Value>, essential_node_db::QueryError>,

    requires
        forall|t: &T| #[trigger] f.requires((t,)),
    ensures
        conn matches QuerySource::Handle(t) ==> may_query(*f, *t, r),
        conn matches QuerySource::Cascade { memory, db } ==> (may_query(*f, *memory, r) && !(r matches Ok(
            None,
        ))) || (may_query(*f, *memory, Ok(None)) && may_query(*f, *db, r)),
{
    match conn {
        QuerySource::Cascade { memory, db } => cascade(memory, db, f),
        QuerySource::Handle(t) => f(t),
    }
}

} // verus!
