//! A minimal pool of database connections: a fixed-capacity queue of idle
//! connections, and its async wrapper whose semaphore hands out one permit per
//! connection.
use std::sync::Arc;
use vstd::prelude::*;

verus! {

/// The declaration of `rusqlite::Connection`.
#[verifier::external_type_specification]
#[verifier::external_body]
pub struct ExConnection(rusqlite::Connection);

/// The declaration of `rusqlite::Error`.
#[verifier::external_type_specification]
#[verifier::external_body]
pub struct ExRusqliteError(rusqlite::Error);

/// The declaration of `crossbeam::queue::ArrayQueue`.
#[verifier::external_type_specification]
#[verifier::external_body]
#[verifier::reject_recursive_types(T)]
pub struct ExArrayQueue<T>(crossbeam::queue::ArrayQueue<T>);

/// The declaration of `tokio::sync::Semaphore`.
#[verifier::external_type_specification]
#[verifier::external_body]
pub struct ExSemaphore(tokio::sync::Semaphore);

/// The declaration of `tokio::sync::OwnedSemaphorePermit`.
#[verifier::external_type_specification]
#[verifier::external_body]
pub struct ExOwnedSemaphorePermit(tokio::sync::OwnedSemaphorePermit);

/// The declaration of `tokio::sync::TryAcquireError`.
#[verifier::external_type_specification]
#[verifier::external_body]
pub struct ExTryAcquireError(tokio::sync::TryAcquireError);

/// The number of connections that a queue holds. The queue changes through
/// shared references, so this is read only of a queue held exclusively (while
/// a pool is being filled); its capacity never changes.
pub uninterp spec fn queue_len(q: crossbeam::queue::ArrayQueue<rusqlite::Connection>) -> nat;

/// The capacity that a queue was made with.
pub uninterp spec fn queue_capacity(q: crossbeam::queue::ArrayQueue<rusqlite::Connection>) -> nat;

/// `ArrayQueue::new`: an empty queue of the given capacity. It panics on a zero
/// capacity, or one so large that its lap count overflows.
#[verifier::external_body]
fn new_queue(cap: usize) -> (q: crossbeam::queue::ArrayQueue<rusqlite::Connection>)
    requires
        0 < cap <= usize::MAX / 2,
    ensures
        queue_len(q) == 0,
        queue_capacity(q) == cap,
{
    crossbeam::queue::ArrayQueue::new(cap)
}

/// `ArrayQueue::push` on a queue held exclusively: the connection is queued,
/// or handed back where the queue is full.
#[verifier::external_body]
fn push_owned(
    q: &mut crossbeam::queue::ArrayQueue<rusqlite::Connection>,
    conn: rusqlite::Connection,
) -> (r: Result<(), rusqlite::Connection>)
    ensures
        queue_capacity(*final(q)) == queue_capacity(*old(q)),
        queue_len(*old(q)) < queue_capacity(*old(q)) ==> r is Ok && queue_len(*final(q)) == queue_len(
            *old(q),
        ) + 1,
        queue_len(*old(q)) >= queue_capacity(*old(q)) ==> r is Err && queue_len(*final(q))
            == queue_len(*old(q)),
{
    q.push(conn)
}

/// `ArrayQueue::push` on a shared queue: the connection is queued, or handed
/// back where the queue is full. Other holders of the queue may push and pop
/// at the same time, so nothing is promised of the outcome.
#[verifier::external_body]
fn push_shared(
    q: &crossbeam::queue::ArrayQueue<rusqlite::Connection>,
    conn: rusqlite::Connection,
) -> Result<(), rusqlite::Connection>
    opens_invariants none
    no_unwind
{
    q.push(conn)
}

/// `ArrayQueue::pop` on a shared queue: an idle connection, if one is queued at
/// the moment. Other holders of the queue may push and pop at the same time.
#[verifier::external_body]
fn pop_shared(q: &crossbeam::queue::ArrayQueue<rusqlite::Connection>) -> Option<rusqlite::Connection> {
    q.pop()
}

/// `ArrayQueue::capacity`: the capacity the queue was made with.
#[verifier::external_body]
fn capacity_of(q: &crossbeam::queue::ArrayQueue<rusqlite::Connection>) -> (r: usize)
    ensures
        r == queue_capacity(*q),
{
    q.capacity()
}

/// `ArrayQueue::is_full` on a shared queue: whether every slot is taken at the
/// moment. Other holders may change that at any time, so nothing is promised.
#[verifier::external_body]
fn is_full_shared(q: &crossbeam::queue::ArrayQueue<rusqlite::Connection>) -> bool {
    q.is_full()
}

/// `rusqlite::Connection::close`: the outcome depends on the database.
#[verifier::external_body]
fn close_connection(
    conn: rusqlite::Connection,
) -> Result<(), (rusqlite::Connection, rusqlite::Error)> {
    conn.close()
}

/// `Semaphore::new` in an `Arc`: a semaphore with the given number of permits.
/// It panics above `Semaphore::MAX_PERMITS`, which is `usize::MAX >> 3`. The
/// permits guard the connections of the idle queue `idle`, one permit per
/// connection, so that a permit always finds an idle connection: the number
/// of permits must be the queue's capacity. The queue itself is not read.
#[verifier::external_body]
fn new_semaphore(
    permits: usize,
    idle: &crossbeam::queue::ArrayQueue<rusqlite::Connection>,
) -> Arc<tokio::sync::Semaphore>
    requires
        permits <= usize::MAX / 8,
        permits == queue_capacity(*idle),
{
    let _ = idle;
    Arc::new(tokio::sync::Semaphore::new(permits))
}

/// `Semaphore::try_acquire_owned`: a permit if one is free and the semaphore
/// is open. Other holders of the semaphore take and give back permits at the
/// same time, so nothing is promised of the outcome.
#[verifier::external_body]
fn try_acquire_permit(
    semaphore: &Arc<tokio::sync::Semaphore>,
) -> Result<tokio::sync::OwnedSemaphorePermit, tokio::sync::TryAcquireError> {
    tokio::sync::Semaphore::try_acquire_owned(Arc::clone(semaphore))
}

/// `TryAcquireError::NoPermits`: the error for a semaphore with no permit left.
#[verifier::external_body]
fn no_permits_error() -> tokio::sync::TryAcquireError {
    tokio::sync::TryAcquireError::NoPermits
}

/// `Semaphore::is_closed`: whether the semaphore was closed. Another holder
/// may close it at any time, so nothing is promised.
#[verifier::external_body]
fn semaphore_is_closed(semaphore: &tokio::sync::Semaphore) -> bool {
    semaphore.is_closed()
}

/// `Semaphore::close`: no further permits are issued.
#[verifier::external_body]
fn close_semaphore(semaphore: &tokio::sync::Semaphore) {
    semaphore.close()
}

/// A connection taken from a pool; dropped, it goes back to the pool.
pub struct ConnectionHandle {
    conn: Option<rusqlite::Connection>,
    queue: Arc<crossbeam::queue::ArrayQueue<rusqlite::Connection>>,
}

impl ConnectionHandle {
    /// The connection that the handle holds: from the moment the pool hands
    /// it out until it is dropped.
    pub closed spec fn held(&self) -> Option<rusqlite::Connection> {
        self.conn
    }

    /// Whether the handle still holds its connection.
    pub open spec fn holds_connection(&self) -> bool {
        self.held() is Some
    }

    /// The connection behind the handle: the one it holds.
    pub fn connection(&self) -> (r: Option<&rusqlite::Connection>)
        ensures
            r is Some <==> self.held() is Some,
            r matches Some(c) ==> self.held() == Some(*c),
    {
        self.conn.as_ref()
    }

    /// Consume the handle and run `f` on the connection it holds; then that
    /// connection goes back to the pool's idle queue. Returns what `f`
    /// returned for it.
    pub fn access<O, F>(self, f: F) -> (r: O) where F: FnOnce(&mut rusqlite::Connection) -> O
        requires
            self.holds_connection(),
            forall|c: &mut rusqlite::Connection| #[trigger] f.requires((c,)),
        ensures
            exists|c: &mut rusqlite::Connection|
                *c == self.held()->0 && #[trigger] f.ensures((c,), r),
    {
        let mut this = self;
        let mut conn: Option<rusqlite::Connection> = None;
        std::mem::swap(&mut conn, &mut this.conn);
        match conn {
            Some(mut c) => {
                let out = f(&mut c);
                let _ = push_shared(&this.queue, c);
                out
            },
            None => vstd::pervasive::unreached(),
        }
    }
}

impl Drop for ConnectionHandle {
    fn drop(&mut self)
        opens_invariants none
        no_unwind
    {
        let mut conn: Option<rusqlite::Connection> = None;
        std::mem::swap(&mut conn, &mut self.conn);
        match conn {
            Some(conn) => {
                let _ = push_shared(&self.queue, conn);
            },
            None => {},
        }
    }
}

/// A pool of database connections: a fixed-capacity, thread-safe queue of idle
/// connections.
pub struct ConnectionPool {
    queue: Arc<crossbeam::queue::ArrayQueue<rusqlite::Connection>>,
}

impl ConnectionPool {
    /// The number of connections the pool was made with.
    pub closed spec fn spec_capacity(&self) -> nat {
        queue_capacity(*self.queue)
    }

    /// Create a new connection pool: open `capacity` connections with
    /// `new_conn_fn` and queue them. If any of the connections fails to open,
    /// those already opened are dropped and the error is returned.
    pub fn new<F>(capacity: usize, new_conn_fn: F) -> (r: Result<Self, rusqlite::Error>) where
        F: Fn() -> Result<rusqlite::Connection, rusqlite::Error>,

        requires
            0 < capacity <= usize::MAX / 2,
            new_conn_fn.requires(()),
        ensures
            r matches Ok(p) ==> p.spec_capacity() == capacity,
            r matches Err(e) ==> new_conn_fn.ensures((), Err(e)),
    {
        let mut queue = new_queue(capacity);
        let mut i: usize = 0;
        while i < capacity
            invariant
                i <= capacity,
                queue_capacity(queue) == capacity,
                queue_len(queue) == i,
                new_conn_fn.requires(()),
            decreases capacity - i,
        {
            let conn = match new_conn_fn() {
                Ok(conn) => conn,
                Err(e) => return Err(e),
            };
            match push_owned(&mut queue, conn) {
                Ok(()) => {},
                Err(_) => {
                    // The queue holds fewer connections than its capacity.
                    assert(false);
                },
            }
            i = i + 1;
        }
        Ok(ConnectionPool { queue: Arc::new(queue) })
    }

    /// Pop a connection from the queue if one is available. If `None` is
    /// returned, all connections are currently in use.
    pub fn pop(&self) -> (r: Option<ConnectionHandle>)
        ensures
            r matches Some(h) ==> h.holds_connection(),
    {
        match pop_shared(&self.queue) {
            Some(conn) => Some(ConnectionHandle { conn: Some(conn), queue: Arc::clone(&self.queue) }),
            None => None,
        }
    }

    /// The total number of simultaneous connections managed by the pool,
    /// specified upon construction.
    pub fn capacity(&self) -> (r: usize)
        ensures
            r == self.spec_capacity(),
    {
        capacity_of(&self.queue)
    }

    /// Whether the idle queue is full, i.e. all connections are available for use.
    pub fn all_connections_ready(&self) -> bool {
        is_full_shared(&self.queue)
    }

    /// Close each connection in the idle queue, returning the result of
    /// closing each. At most `capacity` connections exist, so at most that
    /// many are closed.
    fn close_idle(&self) -> (r: Vec<Result<(), (rusqlite::Connection, rusqlite::Error)>>)
        ensures
            r@.len() <= self.spec_capacity(),
    {
        let capacity = self.capacity();
        let mut res: Vec<Result<(), (rusqlite::Connection, rusqlite::Error)>> = Vec::new();
        let mut i: usize = 0;
        while i < capacity
            invariant
                i <= capacity,
                res@.len() == i,
            decreases capacity - i,
        {
            match pop_shared(&self.queue) {
                Some(conn) => res.push(close_connection(conn)),
                None => break,
            }
            i = i + 1;
        }
        res
    }

    /// Close the pool and each connection in the idle queue, returning the
    /// result of closing each. Connections still handed out are closed when
    /// the last of their handles is dropped.
    pub fn close(self) -> (r: Vec<Result<(), (rusqlite::Connection, rusqlite::Error)>>)
        ensures
            r@.len() <= self.spec_capacity(),
    {
        self.close_idle()
    }
}

/// One or more of the connections failed to close.
pub struct AsyncCloseError(pub Vec<(rusqlite::Connection, rusqlite::Error)>);

/// The errors among the outcomes of closing connections, in order.
pub open spec fn close_errors(
    results: Seq<Result<(), (rusqlite::Connection, rusqlite::Error)>>,
) -> Seq<(rusqlite::Connection, rusqlite::Error)>
    decreases results.len(),
{
    if results.len() == 0 {
        Seq::empty()
    } else {
        let rest = close_errors(results.drop_last());
        match results.last() {
            Ok(()) => rest,
            Err(e) => rest.push(e),
        }
    }
}

/// Keep the failures among the outcomes of closing connections, in order.
pub fn collect_close_errors(
    results: Vec<Result<(), (rusqlite::Connection, rusqlite::Error)>>,
) -> (r: Vec<(rusqlite::Connection, rusqlite::Error)>)
    ensures
        r@ == close_errors(results@),
{
    let mut errs: Vec<(rusqlite::Connection, rusqlite::Error)> = Vec::new();
    let mut rest = results;
    let ghost mut seen: Seq<Result<(), (rusqlite::Connection, rusqlite::Error)>> = Seq::empty();
    while rest.len() > 0
        invariant
            results@ == seen + rest@,
            errs@ == close_errors(seen),
        decreases rest.len(),
    {
        let ghost before = rest@;
        let item = rest.remove(0);
        proof {
            assert(seen.push(item).drop_last() == seen);
            assert(seen + before == seen.push(item) + rest@);
            seen = seen.push(item);
        }
        match item {
            Ok(()) => {},
            Err(e) => {
                errs.push(e);
            },
        }
    }
    proof {
        assert(rest@.len() == 0);
        assert(results@ == seen);
    }
    errs
}

/// What closing a pool comes to, from the outcomes of closing its
/// connections: `Ok(true)` where none failed, else the failures, in order.
pub fn close_outcome(
    results: Vec<Result<(), (rusqlite::Connection, rusqlite::Error)>>,
) -> (r: Result<bool, AsyncCloseError>)
    ensures
        r is Ok <==> close_errors(results@).len() == 0,
        r matches Ok(closed) ==> closed,
        r matches Err(e) ==> e.0@ == close_errors(results@),
{
    let errs = collect_close_errors(results);
    if errs.len() == 0 {
        Ok(true)
    } else {
        Err(AsyncCloseError(errs))
    }
}

/// A thin wrapper around a [`ConnectionPool`] that gives orderly async access
/// to connections through a semaphore holding one permit per connection.
pub struct AsyncConnectionPool {
    pool: ConnectionPool,
    semaphore: Arc<tokio::sync::Semaphore>,
}

/// A connection handle together with the semaphore permit it was acquired
/// with. Dropped, the connection goes back to the queue first, then the
/// permit to the semaphore.
pub struct AsyncConnectionHandle {
    conn: ConnectionHandle,
    _permit: tokio::sync::OwnedSemaphorePermit,
}

impl AsyncConnectionHandle {
    /// The connection that the handle holds.
    pub closed spec fn held(&self) -> Option<rusqlite::Connection> {
        self.conn.held()
    }

    /// Whether the handle still holds its connection.
    pub open spec fn holds_connection(&self) -> bool {
        self.held() is Some
    }

    /// The connection behind the handle: the one it holds.
    pub fn connection(&self) -> (r: Option<&rusqlite::Connection>)
        ensures
            r is Some <==> self.held() is Some,
            r matches Some(c) ==> self.held() == Some(*c),
    {
        self.conn.connection()
    }
}

impl AsyncConnectionPool {
    /// The number of connections the pool was made with.
    pub closed spec fn spec_capacity(&self) -> nat {
        self.pool.spec_capacity()
    }

    /// Create a new connection pool of `conn_limit` connections, all created
    /// with `new_conn_fn` and queued before returning. If any of them fails to
    /// open, those already opened are dropped and the error is returned.
    pub fn new<F>(conn_limit: usize, new_conn_fn: F) -> (r: Result<Self, rusqlite::Error>) where
        F: Fn() -> Result<rusqlite::Connection, rusqlite::Error>,

        requires
            0 < conn_limit <= usize::MAX / 8,
            new_conn_fn.requires(()),
        ensures
            r matches Ok(p) ==> p.spec_capacity() == conn_limit,
            r matches Err(e) ==> new_conn_fn.ensures((), Err(e)),
    {
        let pool = match ConnectionPool::new(conn_limit, new_conn_fn) {
            Ok(pool) => pool,
            Err(e) => return Err(e),
        };
        let semaphore = new_semaphore(conn_limit, &pool.queue);
        Ok(AsyncConnectionPool { pool, semaphore })
    }

    /// The total number of simultaneous connections managed by the pool,
    /// specified upon construction.
    pub fn capacity(&self) -> (r: usize)
        ensures
            r == self.spec_capacity(),
    {
        self.pool.capacity()
    }

    /// Whether the idle queue is full, i.e. all connections are available for use.
    pub fn all_connections_ready(&self) -> bool {
        self.pool.all_connections_ready()
    }

    /// The semaphore whose permits guard the connections.
    pub closed spec fn spec_semaphore(&self) -> Arc<tokio::sync::Semaphore> {
        self.semaphore
    }

    /// The semaphore whose permits guard the connections: another handle on
    /// the pool's own.
    pub fn semaphore(&self) -> (r: Arc<tokio::sync::Semaphore>)
        ensures
            r == self.spec_semaphore(),
    {
        Arc::clone(&self.semaphore)
    }

    /// Take an idle connection for a permit of the pool's semaphore. The
    /// permits never outnumber the idle connections, so with a permit of this
    /// pool a connection is there; `None` only where the permit came from
    /// elsewhere.
    pub fn with_permit(&self, permit: tokio::sync::OwnedSemaphorePermit) -> (r: Option<
        AsyncConnectionHandle,
    >)
        ensures
            r matches Some(h) ==> h.holds_connection(),
    {
        match self.pool.pop() {
            Some(conn) => Some(AsyncConnectionHandle { conn, _permit: permit }),
            None => None,
        }
    }

    /// Attempt to acquire a connection from the idle queue if one is
    /// available. The error says that there are no permits available, or
    /// that the semaphore has been closed.
    pub fn try_acquire(&self) -> (r: Result<AsyncConnectionHandle, tokio::sync::TryAcquireError>)
        ensures
            r matches Ok(h) ==> h.holds_connection(),
    {
        match try_acquire_permit(&self.semaphore) {
            Ok(permit) => match self.with_permit(permit) {
                Some(handle) => Ok(handle),
                None => Err(no_permits_error()),
            },
            Err(e) => Err(e),
        }
    }

    /// Finish closing the pool once every permit is held: close the
    /// semaphore, give the permits back, and close each connection. `Ok(true)`
    /// where all connections closed, else the failures.
    pub fn close_with_permits(&self, permits: tokio::sync::OwnedSemaphorePermit) -> (r: Result<
        bool,
        AsyncCloseError,
    >)
        ensures
            r matches Ok(closed) ==> closed,
            r matches Err(e) ==> e.0@.len() > 0,
    {
        close_semaphore(&self.semaphore);
        {
            // The permits go back to the semaphore here.
            let _released = permits;
        }
        let results = self.pool.close_idle();
        close_outcome(results)
    }

    /// Whether the pool has been closed.
    pub fn is_closed(&self) -> bool {
        semaphore_is_closed(&self.semaphore)
    }
}

} // verus!
