use essential_node::pool::{close_outcome, collect_close_errors, AsyncConnectionPool, ConnectionPool};
use rusqlite::Connection;

// Each test gets its own shared in-memory database.
fn new_mem_conn(unique_id: &str) -> rusqlite::Result<Connection> {
    let flags = rusqlite::OpenFlags::default()
        | rusqlite::OpenFlags::SQLITE_OPEN_SHARED_CACHE
        | rusqlite::OpenFlags::SQLITE_OPEN_MEMORY;
    let conn_str = format!("file:{unique_id}");
    rusqlite::Connection::open_with_flags(conn_str, flags)
}

#[test]
fn test_create_pool() {
    let new_conn = || new_mem_conn("test_create_pool");
    let pool = ConnectionPool::new(5, new_conn).unwrap();
    assert_eq!(pool.capacity(), 5);
    assert!(pool.all_connections_ready());
}

#[test]
fn test_pop_connection() {
    let new_conn = || new_mem_conn("test_pop_connection");
    let pool = ConnectionPool::new(3, new_conn).unwrap();
    assert!(pool.all_connections_ready());

    let handle = pool.pop().unwrap();
    assert!(!pool.all_connections_ready());

    drop(handle);
    assert!(pool.all_connections_ready());
}

#[test]
fn test_pop_all_connections() {
    let new_conn = || new_mem_conn("test_pop_all_connections");
    let pool = ConnectionPool::new(2, new_conn).unwrap();

    let handle1 = pool.pop().unwrap();
    let handle2 = pool.pop().unwrap();

    assert!(pool.pop().is_none());
    assert!(!pool.all_connections_ready());

    drop(handle1);
    assert!(pool.pop().is_some());

    drop(handle2);
    assert!(pool.all_connections_ready());
}

#[test]
fn test_use_connections() {
    let new_conn = || new_mem_conn("test_use_connections");
    let pool = ConnectionPool::new(3, new_conn).unwrap();

    // Create the table with one handle.
    let handle1 = pool.pop().unwrap();
    handle1
        .connection()
        .unwrap()
        .execute("CREATE TABLE test (id INTEGER)", ())
        .unwrap();

    // Insert into the table with another handle.
    let handle2 = pool.pop().unwrap();
    handle2
        .connection()
        .unwrap()
        .execute("INSERT INTO test (id) VALUES (?)", [42])
        .unwrap();

    // Query from another handle.
    let handle3 = pool.pop().unwrap();
    {
        let mut stmt = handle3.connection().unwrap().prepare("SELECT id FROM test").unwrap();
        let id: i32 = stmt.query_row((), |row| row.get(0)).unwrap();
        assert_eq!(id, 42);
    }

    // No connections left.
    assert!(pool.pop().is_none());

    // Return all connections.
    std::mem::drop((handle1, handle2, handle3));
    assert!(pool.all_connections_ready());
}

#[test]
fn test_close_pool() {
    let new_conn = || new_mem_conn("test_close_pool");
    let pool = ConnectionPool::new(3, new_conn).unwrap();
    let handle = pool.pop().unwrap();
    drop(handle);
    let close_results = pool.close();
    assert_eq!(close_results.len(), 3);
    for result in close_results {
        assert!(result.is_ok());
    }
}

#[test]
fn pool_creation_error_is_returned() {
    let failing = || -> rusqlite::Result<Connection> {
        Err(rusqlite::Error::InvalidPath("nowhere".into()))
    };
    assert!(matches!(
        ConnectionPool::new(2, failing),
        Err(rusqlite::Error::InvalidPath(_))
    ));
    assert!(AsyncConnectionPool::new(2, failing).is_err());
}

#[test]
fn closing_with_no_failures_gives_no_errors() {
    assert!(collect_close_errors(vec![Ok(()), Ok(())]).is_empty());
    let conn = new_mem_conn("closing_with_no_failures_gives_no_errors").unwrap();
    let errs = collect_close_errors(vec![
        Ok(()),
        Err((conn, rusqlite::Error::InvalidQuery)),
        Ok(()),
    ]);
    assert_eq!(errs.len(), 1);
    assert!(matches!(errs[0].1, rusqlite::Error::InvalidQuery));
}

#[test]
fn test_create_async_pool() {
    let new_conn = || new_mem_conn("test_create_async_pool");
    let pool = AsyncConnectionPool::new(5, new_conn).unwrap();
    assert_eq!(pool.capacity(), 5);
    assert!(pool.all_connections_ready());
    assert!(!pool.is_closed());
}

#[test]
fn async_pool_try_acquire_all() {
    let new_conn = || new_mem_conn("async_pool_try_acquire_all");
    let pool = AsyncConnectionPool::new(2, new_conn).unwrap();

    let handle1 = pool.try_acquire().unwrap();
    let handle2 = pool.try_acquire().unwrap();
    assert!(pool.try_acquire().is_err());
    assert!(!pool.all_connections_ready());
    handle1
        .connection()
        .unwrap()
        .execute("CREATE TABLE t (id INTEGER)", ())
        .unwrap();

    drop(handle1);
    let handle3 = pool.try_acquire().unwrap();
    drop(handle2);
    drop(handle3);
    assert!(pool.all_connections_ready());
}

#[test]
fn async_pool_close_with_all_permits() {
    let new_conn = || new_mem_conn("async_pool_close_with_all_permits");
    let pool = AsyncConnectionPool::new(3, new_conn).unwrap();
    let permits = pool.semaphore().try_acquire_many_owned(3).unwrap();
    assert!(matches!(pool.close_with_permits(permits), Ok(true)));
    assert!(pool.is_closed());
    assert!(matches!(pool.try_acquire(), Err(tokio::sync::TryAcquireError::Closed)));
}

#[test]
fn close_outcome_reports_the_failures() {
    assert!(matches!(close_outcome(vec![Ok(()), Ok(())]), Ok(true)));
    assert!(matches!(close_outcome(vec![]), Ok(true)));
    let conn = new_mem_conn("close_outcome_reports_the_failures").unwrap();
    match close_outcome(vec![Ok(()), Err((conn, rusqlite::Error::InvalidQuery))]) {
        Err(e) => {
            assert_eq!(e.0.len(), 1);
            assert!(matches!(e.0[0].1, rusqlite::Error::InvalidQuery));
        }
        Ok(_) => panic!("expected the failure"),
    }
}

#[test]
fn access_gives_the_closure_result_and_returns_the_connection() {
    let new_conn = || new_mem_conn("access_gives_the_closure_result");
    let pool = ConnectionPool::new(2, new_conn).unwrap();
    let handle = pool.pop().unwrap();
    assert!(!pool.all_connections_ready());
    let changed = handle.access(|conn| {
        conn.execute("CREATE TABLE seen (id INTEGER)", ()).unwrap();
        conn.execute("INSERT INTO seen (id) VALUES (?)", [7]).unwrap()
    });
    assert_eq!(changed, 1);
    assert!(pool.all_connections_ready());
    let other = pool.pop().unwrap();
    let id: i32 = other
        .connection()
        .unwrap()
        .query_row("SELECT id FROM seen", (), |row| row.get(0))
        .unwrap();
    assert_eq!(id, 7);
}

#[test]
fn async_pool_capacity_stays_what_it_was_made_with() {
    let new_conn = || new_mem_conn("async_pool_capacity_stays");
    let pool = AsyncConnectionPool::new(5, new_conn).unwrap();
    assert_eq!(pool.capacity(), 5);
    let handle1 = pool.try_acquire().unwrap();
    let handle2 = pool.try_acquire().unwrap();
    assert_eq!(pool.capacity(), 5);
    drop(handle1);
    assert_eq!(pool.capacity(), 5);
    drop(handle2);
    let permits = pool.semaphore().try_acquire_many_owned(5).unwrap();
    assert!(matches!(pool.close_with_permits(permits), Ok(true)));
    assert_eq!(pool.capacity(), 5);
    assert!(pool.try_acquire().is_err());
    assert_eq!(pool.capacity(), 5);
}
