use essential_node::relayer::error::{
    display_address, handle_error, map_recoverable_errors, CriticalError, DataSyncError,
    InternalError, RecoverableError,
};
use essential_node::relayer::handle::{flatten_result, Close, JoinFailure, Joined};
use essential_node::relayer::sse::{is_keep_alive, sse_frame, SseDecoder, SseFrame, SseOutcome};
use essential_node::relayer::sync::{
    block_progress, blocks_start_number, check_block_fork, contracts_start_page, BlockProgress,
    BlockSequence, NonSequentialBlock,
};
use essential_node::node::address::block_address;
use essential_node::node::validate::{Block, BlockHeader};
use essential_node::types::ContentAddress;

fn addr(b: u8) -> ContentAddress {
    ContentAddress([b; 32])
}

fn progress(n: i64, b: u8) -> BlockProgress {
    BlockProgress { last_block_number: n, last_block_address: addr(b) }
}

#[test]
fn block_progress_needs_address_and_number() {
    let p = block_progress(Some(addr(1)), Some(4)).unwrap();
    assert_eq!(p.last_block_number, 4);
    assert_eq!(p.last_block_address, addr(1));
    assert!(block_progress(None, Some(4)).is_none());
    assert!(block_progress(Some(addr(1)), None).is_none());
}

#[test]
fn blocks_stream_starts_at_last_synced() {
    assert_eq!(blocks_start_number(&None), 0);
    assert_eq!(blocks_start_number(&Some(progress(9, 1))), 9);
}

#[test]
fn contracts_page_goes_back_at_page_boundary() {
    assert_eq!(contracts_start_page(0), 0);
    assert_eq!(contracts_start_page(50), 0);
    assert_eq!(contracts_start_page(100), 0);
    assert_eq!(contracts_start_page(101), 1);
    assert_eq!(contracts_start_page(250), 2);
    assert_eq!(contracts_start_page(300), 2);
}

fn block(number: i64) -> Block {
    Block {
        header: BlockHeader { number, timestamp: std::time::Duration::from_secs(7) },
        solution_sets: vec![],
    }
}

#[test]
fn block_fork_checks() {
    let last = block(3);
    let p = BlockProgress { last_block_number: 3, last_block_address: block_address(&last) };
    assert!(check_block_fork(Some(&block(3)), &p).is_ok());
    match check_block_fork(Some(&block(4)), &p) {
        Err(DataSyncError::Fork(n, expected, got)) => {
            assert_eq!(n, 3);
            assert_eq!(expected, block_address(&last));
            assert_eq!(got, Some(block_address(&block(4))));
        }
        other => panic!("unexpected: {other:?}"),
    }
    assert!(matches!(
        check_block_fork(None, &p),
        Err(DataSyncError::Fork(3, e, None)) if e == block_address(&last)
    ));
}

#[test]
fn block_sequence_accepts_consecutive_numbers() {
    let mut seq = BlockSequence::start(&Some(progress(4, 1)));
    assert_eq!(seq.next_number, 5);
    assert!(seq.accept(5).is_ok());
    assert!(seq.accept(6).is_ok());
    assert_eq!(seq.next_number, 7);
}

#[test]
fn block_sequence_reports_non_sequential_block() {
    let mut seq = BlockSequence::start(&None);
    assert_eq!(seq.next_number, 0);
    assert!(seq.accept(0).is_ok());
    assert_eq!(seq.accept(5), Err(NonSequentialBlock { got: 5, expected: 1 }));
    // The sequence carries on from the block received.
    assert_eq!(seq.next_number, 6);
}

#[test]
fn block_sequence_saturates_at_max() {
    let mut seq = BlockSequence::start(&Some(progress(i64::MAX, 1)));
    assert_eq!(seq.next_number, i64::MAX);
    assert!(seq.accept(i64::MAX).is_ok());
    assert_eq!(seq.next_number, i64::MAX);
}

#[test]
fn sse_frame_needs_blank_line() {
    assert!(matches!(sse_frame(b"data: {\"a\":1}\n"), SseFrame::NeedMoreData));
    assert!(matches!(sse_frame(b""), SseFrame::NeedMoreData));
}

#[test]
fn sse_frame_strips_prefix_and_whitespace() {
    match sse_frame(b"data: {\"a\":1} \n\ndata: next") {
        SseFrame::Data { consumed, text } => {
            assert_eq!(consumed, 16);
            assert_eq!(text.iter().collect::<String>(), "{\"a\":1}");
        }
        _ => panic!("expected data"),
    }
    match sse_frame(b"data: data: x\n\n") {
        SseFrame::Data { text, .. } => assert_eq!(text.iter().collect::<String>(), "x"),
        _ => panic!("expected data"),
    }
}

#[test]
fn sse_frame_skips_invalid_utf8() {
    assert!(matches!(sse_frame(&[0xff, 0xfe, b'\n', b'\n', b'a']), SseFrame::Skip { consumed: 4 }));
}

#[test]
fn sse_keep_alive() {
    assert!(is_keep_alive(&vec![':']));
    assert!(!is_keep_alive(&vec![':', ':']));
    let decoder = SseDecoder::<u32>::new();
    assert!(matches!(decoder.outcome(&vec![':'], None), SseOutcome::KeepAlive));
    assert!(matches!(decoder.outcome(&vec!['x'], None), SseOutcome::StreamError));
    assert!(matches!(decoder.outcome(&vec!['7'], Some(7)), SseOutcome::Item(7)));
    assert!(matches!(decoder.frame(b"data: :\n\n"), SseFrame::Data { consumed: 9, .. }));
}

#[test]
fn display_address_upper_hex() {
    assert_eq!(display_address(&Some(addr(0xab))), "AB".repeat(32));
    assert_eq!(display_address(&Some(addr(0x01))), "01".repeat(32));
    assert_eq!(display_address(&None), "None");
}

#[test]
fn flatten_result_cases() {
    assert!(matches!(flatten_result::<String>(Ok(Ok(()))), Joined::Finished(Ok(()))));
    assert!(matches!(
        flatten_result::<String>(Ok(Err("bad".to_string()))),
        Joined::Finished(Err(e)) if e == "bad"
    ));
    assert!(matches!(flatten_result::<String>(Err(JoinFailure::Cancelled)), Joined::Finished(Ok(()))));
    assert!(matches!(flatten_result::<String>(Err(JoinFailure::Panicked)), Joined::ResumePanic));
}

#[test]
fn close_signals_the_stream() {
    let (tx, mut rx) = tokio::sync::watch::channel(());
    let close = Close::new(tx);
    assert!(!rx.has_changed().unwrap());
    close.close();
    assert!(rx.has_changed().unwrap());
    rx.borrow_and_update();
    drop(close);
    // Dropping closes too: the sender is gone after signalling.
    assert!(rx.has_changed().is_err());
}

fn sqlite_error(code: i32) -> rusqlite::Error {
    rusqlite::Error::SqliteFailure(rusqlite::ffi::Error::new(code), None)
}

#[test]
fn relayer_database_errors_are_routed() {
    assert!(matches!(
        map_recoverable_errors(InternalError::Critical(CriticalError::Rusqlite(sqlite_error(5)))),
        InternalError::Recoverable(RecoverableError::Rusqlite(_))
    ));
    assert!(matches!(
        map_recoverable_errors(InternalError::Critical(CriticalError::Rusqlite(sqlite_error(1)))),
        InternalError::Critical(CriticalError::Rusqlite(_))
    ));
    assert!(matches!(
        map_recoverable_errors(InternalError::Critical(CriticalError::UrlParse)),
        InternalError::Critical(CriticalError::UrlParse)
    ));
}

#[test]
fn relayer_handle_error_ends_only_on_critical() {
    assert!(handle_error(InternalError::Recoverable(RecoverableError::NonSequentialBlock(3, 2))).is_ok());
    assert!(handle_error(InternalError::Critical(CriticalError::Rusqlite(sqlite_error(6)))).is_ok());
    assert!(matches!(
        handle_error(InternalError::Critical(CriticalError::Overflow)),
        Err(CriticalError::Overflow)
    ));
}
