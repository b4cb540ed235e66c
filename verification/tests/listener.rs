//! The listener's dispatch: every accepted connection gets its own
//! independent session, failed accepts are skipped, and a missing listener
//! is the one fatal error.

use echo_server::handler::AcceptOutcome;
use echo_server::handler::ConnectionHandler;
use echo_server::handler::HandleClients;
use echo_server::handler::ListenerError;
use echo_server::worker::ReadOutcome;
use echo_server::worker::SessionEnd;

#[test]
fn two_clients_are_served_independently() {
    // The scenario the companion client plays out: one peer sends its one
    // message to the echo service; a second, concurrent peer is served on
    // its own, unaffected by the first.
    let first = b"lol what it do?".to_vec();
    let second = b"me too please".to_vec();
    let handler = ConnectionHandler::new(vec![
        AcceptOutcome::Conn(vec![ReadOutcome::Data(first.clone()), ReadOutcome::Closed]),
        AcceptOutcome::Conn(vec![ReadOutcome::Data(second.clone()), ReadOutcome::Closed]),
    ]);
    let logs = handler.handle_clients().unwrap();
    assert_eq!(logs.len(), 2);
    assert_eq!(logs[0].echoed, vec![first]);
    assert_eq!(logs[0].end, SessionEnd::PeerClosed);
    assert_eq!(logs[1].echoed, vec![second]);
    assert_eq!(logs[1].end, SessionEnd::PeerClosed);
}

#[test]
fn fresh_connection_after_closed_worker_succeeds() {
    // One worker fails, another closes; the connection accepted after them
    // is served as if it were the first.
    let late = b"fresh start".to_vec();
    let handler = ConnectionHandler::new(vec![
        AcceptOutcome::Conn(vec![ReadOutcome::Failed]),
        AcceptOutcome::Conn(vec![ReadOutcome::Closed]),
        AcceptOutcome::Conn(vec![ReadOutcome::Data(late.clone()), ReadOutcome::Closed]),
    ]);
    let logs = handler.handle_clients().unwrap();
    assert_eq!(logs.len(), 3);
    assert_eq!(logs[0].end, SessionEnd::ReadError);
    assert_eq!(logs[1].end, SessionEnd::PeerClosed);
    assert_eq!(logs[2].echoed, vec![late]);
    assert_eq!(logs[2].end, SessionEnd::PeerClosed);
}

#[test]
fn failed_accept_is_skipped_not_fatal() {
    let msg = b"after the hiccup".to_vec();
    let handler = ConnectionHandler::new(vec![
        AcceptOutcome::Failed,
        AcceptOutcome::Conn(vec![ReadOutcome::Data(msg.clone()), ReadOutcome::Closed]),
        AcceptOutcome::Failed,
    ]);
    let logs = handler.handle_clients().unwrap();
    assert_eq!(logs.len(), 1);
    assert_eq!(logs[0].echoed, vec![msg]);
}

#[test]
fn missing_listener_is_the_fatal_error() {
    let handler = ConnectionHandler { listener: None };
    assert_eq!(
        handler.handle_clients().unwrap_err(),
        ListenerError::NotDefined
    );
}

#[test]
fn empty_accept_script_serves_nobody() {
    let handler = ConnectionHandler::new(Vec::new());
    assert!(handler.handle_clients().unwrap().is_empty());
}
