//! Sessions of a single worker: echoes, ends, and the buffer discipline.

use echo_server::handler::ConnectionHandler;
use echo_server::handler::HandleClient;
use echo_server::worker::read_event;
use echo_server::worker::Action;
use echo_server::worker::ReadOutcome;
use echo_server::worker::SessionEnd;
use echo_server::worker::Worker;
use echo_server::worker::WorkerState;
use echo_server::worker::WriteOutcome;
use echo_server::worker::BUFFER_LEN;

#[test]
fn test_handle_client_ok() {
    // The peer closes at once: the worker ends cleanly, writing nothing.
    let reads = vec![ReadOutcome::Closed];
    let log = ConnectionHandler::handle_client(&reads);
    assert_eq!(log.end, SessionEnd::PeerClosed);
    assert!(log.echoed.is_empty());
}

#[test]
fn test_handle_client_err() {
    // The first read fails: the worker ends with the error, writing nothing
    // and retrying nothing.
    let reads = vec![ReadOutcome::Failed];
    let log = ConnectionHandler::handle_client(&reads);
    assert_eq!(log.end, SessionEnd::ReadError);
    assert!(log.echoed.is_empty());
}

#[test]
fn short_message_echoed_in_one_cycle() {
    let msg = b"hello there".to_vec();
    assert!(msg.len() <= BUFFER_LEN);
    let reads = vec![ReadOutcome::Data(msg.clone()), ReadOutcome::Closed];
    let log = ConnectionHandler::handle_client(&reads);
    assert_eq!(log.echoed, vec![msg]);
    assert_eq!(log.end, SessionEnd::PeerClosed);
}

#[test]
fn largest_single_read_echoed_exactly() {
    let msg: Vec<u8> = (0..BUFFER_LEN as u32).map(|i| (i % 251) as u8).collect();
    let reads = vec![ReadOutcome::Data(msg.clone()), ReadOutcome::Closed];
    let log = ConnectionHandler::handle_client(&reads);
    assert_eq!(log.echoed, vec![msg]);
    assert_eq!(log.end, SessionEnd::PeerClosed);
}

#[test]
fn read_error_after_data_stops_echoing() {
    let first = b"before the fault".to_vec();
    let reads = vec![
        ReadOutcome::Data(first.clone()),
        ReadOutcome::Failed,
        ReadOutcome::Data(b"never echoed".to_vec()),
    ];
    let log = ConnectionHandler::handle_client(&reads);
    assert_eq!(log.echoed, vec![first]);
    assert_eq!(log.end, SessionEnd::ReadError);
}

#[test]
fn script_that_runs_dry_is_exhausted() {
    let reads = vec![ReadOutcome::Data(b"still open".to_vec())];
    let log = ConnectionHandler::handle_client(&reads);
    assert_eq!(log.echoed, vec![b"still open".to_vec()]);
    assert_eq!(log.end, SessionEnd::Exhausted);
}

#[test]
fn read_event_keeps_only_the_filled_prefix() {
    // The buffer still holds stale bytes from an earlier, longer read; only
    // the three bytes the new read filled may be echoed.
    let mut bfr = [0u8; 64];
    for (i, b) in b"old stale contents".iter().enumerate() {
        bfr[i] = *b;
    }
    bfr[0] = b'n';
    bfr[1] = b'e';
    bfr[2] = b'w';
    match read_event(&bfr, 3) {
        ReadOutcome::Data(b) => assert_eq!(b, b"new".to_vec()),
        _ => panic!("three bytes were read"),
    }
}

#[test]
fn read_event_of_zero_bytes_is_the_peer_closing() {
    let bfr = [7u8; 64];
    assert!(matches!(read_event(&bfr, 0), ReadOutcome::Closed));
}

#[test]
fn worker_walks_reading_writing_reading() {
    let mut w = Worker::new();
    assert_eq!(w.state, WorkerState::Reading);
    let a = w.on_read(ReadOutcome::Data(b"ping".to_vec()));
    assert_eq!(w.state, WorkerState::Writing);
    match a {
        Action::Write(bytes) => assert_eq!(bytes, b"ping".to_vec()),
        Action::Finish(_) => panic!("data was read; a write is due"),
    }
    let end = w.on_write(WriteOutcome::Done);
    assert!(end.is_none());
    assert_eq!(w.state, WorkerState::Reading);
}

#[test]
fn failed_write_closes_the_worker() {
    let mut w = Worker::new();
    let _ = w.on_read(ReadOutcome::Data(b"pong".to_vec()));
    let end = w.on_write(WriteOutcome::Failed);
    assert_eq!(end, Some(SessionEnd::WriteError));
    assert_eq!(w.state, WorkerState::Closed);
}

#[test]
fn peer_close_closes_the_worker() {
    let mut w = Worker::new();
    let a = w.on_read(ReadOutcome::Closed);
    assert!(matches!(a, Action::Finish(SessionEnd::PeerClosed)));
    assert_eq!(w.state, WorkerState::Closed);
}

#[test]
fn failed_read_closes_the_worker() {
    let mut w = Worker::new();
    let a = w.on_read(ReadOutcome::Failed);
    assert!(matches!(a, Action::Finish(SessionEnd::ReadError)));
    assert_eq!(w.state, WorkerState::Closed);
}
