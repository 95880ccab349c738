use pdtcore::client::{backoff_millis, ClientAction, ClientSession, ClientState};
use pdtcore::dispatch::{reader_step, writer_step, EventQueue, ServerEvent};
use pdtcore::protocol::{
    BuiltInfo, ClientMessage, Message, ProtocolError, ServerMessage,
};
use pdtcore::server::Server;

fn fresh_session(max_retries: u64) -> ClientSession {
    ClientSession::new(String::from("ASH"), BuiltInfo::default(), max_retries)
}

#[test]
fn event_queue_delivers_in_arrival_order() {
    let mut queue = EventQueue::new();
    let first = ServerEvent::IncomingMessage((1, Message::Client(ClientMessage::ScreenOff)));
    let second = ServerEvent::IncomingMessage((1, Message::Client(ClientMessage::ScreenOn)));
    let third = ServerEvent::Unexpected(ProtocolError::IO);
    queue.push(first);
    queue.push(second);
    queue.push(third);
    assert_eq!(
        queue.pop(),
        Some(ServerEvent::IncomingMessage((
            1,
            Message::Client(ClientMessage::ScreenOff)
        )))
    );
    assert_eq!(
        queue.pop(),
        Some(ServerEvent::IncomingMessage((
            1,
            Message::Client(ClientMessage::ScreenOn)
        )))
    );
    assert_eq!(queue.pop(), Some(ServerEvent::Unexpected(ProtocolError::IO)));
    assert_eq!(queue.pop(), None);
}

#[test]
fn reader_forwards_and_stops_on_goodbye() {
    let (event, ended) = reader_step(5, Ok(Message::Server(ServerMessage::Goodbye)));
    assert_eq!(
        event,
        ServerEvent::IncomingMessage((5, Message::Server(ServerMessage::Goodbye)))
    );
    assert!(ended);

    let (event, ended) = reader_step(5, Ok(Message::Client(ClientMessage::ScreenOff)));
    assert_eq!(
        event,
        ServerEvent::IncomingMessage((5, Message::Client(ClientMessage::ScreenOff)))
    );
    assert!(!ended);

    let (event, ended) = reader_step(5, Err(ProtocolError::IO));
    assert_eq!(event, ServerEvent::Unexpected(ProtocolError::IO));
    assert!(ended);
}

#[test]
fn writer_sends_final_goodbye_when_channel_closes() {
    let (message, go_on) = writer_step(Some(Message::Client(ClientMessage::Restart)));
    assert_eq!(message, Message::Client(ClientMessage::Restart));
    assert!(go_on);

    let (message, go_on) = writer_step(None);
    assert_eq!(message, Message::Client(ClientMessage::Goodbye));
    assert!(!go_on);
}

#[test]
fn backoff_waits_flat_then_grows() {
    // Twelve consecutive connect failures: the first ten attempts wait a
    // flat second, the eleventh eleven seconds, the twelfth twelve.
    let mut session = fresh_session(20);
    session.on_connected();
    let hello = session.introduction();
    assert_eq!(
        hello,
        Message::Server(ServerMessage::Hello(pdtcore::protocol::ClientIntroduction {
            name: String::from("ASH"),
            pdtcore_built_info: BuiltInfo::default(),
        }))
    );
    session.handshake_sent();
    assert!(session.on_receive_error());
    let mut waits = Vec::new();
    for _ in 0..12 {
        assert!(session.next_attempt());
        waits.push(backoff_millis(session.retry));
    }
    assert_eq!(
        waits,
        vec![1000, 1000, 1000, 1000, 1000, 1000, 1000, 1000, 1000, 1000, 11000, 12000]
    );
}

#[test]
fn backoff_values_alone() {
    assert_eq!(backoff_millis(1), 1000);
    assert_eq!(backoff_millis(10), 1000);
    assert_eq!(backoff_millis(11), 11000);
    assert_eq!(backoff_millis(12), 12000);
    assert_eq!(backoff_millis(100), 100000);
}

#[test]
fn reconnect_succeeds_on_third_attempt_with_fresh_server_id() {
    // Scenario: the TCP connection drops mid-stream, the client reconnects
    // on its third attempt, and the server hands the new connection a
    // fresh session id while the old entry is gone.
    let mut session = fresh_session(20);
    session.on_connected();
    session.handshake_sent();
    assert_eq!(session.state, ClientState::Receiving);

    let mut server = Server::default();
    let old_id = server.accept_session().unwrap();

    // The connection drops: the reader/writer of the old session exit and
    // its entry is torn down.
    server.unregister(old_id);
    assert!(session.on_receive_error());
    assert_eq!(session.state, ClientState::Reconnecting);

    for attempt in 1..=2u64 {
        assert!(session.next_attempt());
        assert_eq!(backoff_millis(session.retry), 1000);
        assert_eq!(session.retry, attempt);
    }
    assert!(session.next_attempt());
    assert_eq!(session.retry, 3);
    // The third attempt connects: a fresh server-side session id is
    // minted, distinct from the stale one.
    let new_id = server.accept_session().unwrap();
    assert_ne!(new_id, old_id);
    let rows = server.get_clients();
    assert_eq!(rows.len(), 1);
    assert_eq!(rows[0].id, new_id);

    session.on_connected();
    session.handshake_sent();
    assert_eq!(session.state, ClientState::Receiving);
    assert_eq!(session.retry, 0);
}

#[test]
fn retries_exhausted_fails_terminally() {
    let mut session = fresh_session(2);
    session.on_connected();
    session.handshake_sent();
    assert!(session.on_receive_error());
    assert!(session.next_attempt());
    assert!(session.next_attempt());
    assert!(!session.next_attempt());
    assert_eq!(session.state, ClientState::Closed);
}

#[test]
fn goodbye_concludes_the_session() {
    let mut session = fresh_session(3);
    session.on_connected();
    session.handshake_sent();
    let action = session.handle_message(&Message::Client(ClientMessage::Goodbye));
    assert_eq!(action, ClientAction::ConcludeSession);
    assert!(session.shutdown_requested());
    assert_eq!(session.state, ClientState::Ending);
    let farewell = session.end();
    assert_eq!(farewell, Message::Server(ServerMessage::Goodbye));
    assert_eq!(session.state, ClientState::Closed);
}

#[test]
fn commands_are_handed_to_the_os_collaborator() {
    let mut session = fresh_session(3);
    session.on_connected();
    session.handshake_sent();
    assert_eq!(
        session.handle_message(&Message::Client(ClientMessage::ScreenOff)),
        ClientAction::Invoke(ClientMessage::ScreenOff)
    );
    assert_eq!(
        session.handle_message(&Message::Client(ClientMessage::PowerOff)),
        ClientAction::Invoke(ClientMessage::PowerOff)
    );
    assert_eq!(
        session.handle_message(&Message::Client(ClientMessage::RequestDeviceInfo)),
        ClientAction::ReportDeviceInfo
    );
    assert_eq!(
        session.handle_message(&Message::Server(ServerMessage::Goodbye)),
        ClientAction::Ignore
    );
    assert_eq!(session.state, ClientState::Receiving);
}

#[test]
fn requested_shutdown_turns_read_failure_into_clean_end() {
    let mut session = fresh_session(3);
    session.on_connected();
    session.handshake_sent();
    session.request_shutdown();
    assert!(session.shutdown_requested());
    assert!(!session.on_receive_error());
    assert_eq!(session.state, ClientState::Ending);
}
