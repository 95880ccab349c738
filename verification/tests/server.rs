use pdtcore::dispatch::ServerEvent;
use pdtcore::protocol::{
    BuiltInfo, ClientIntroduction, ClientMessage, DeviceInfo, Message, ServerMessage,
};
use pdtcore::server::{SendError, Server};

fn incompatible_built() -> BuiltInfo {
    let mut b = BuiltInfo::default();
    b.pkg_version_major = String::from("9");
    b
}

#[test]
fn register_creates_exactly_one_entry() {
    let mut server = Server::default();
    assert!(server.register(7));
    let rows = server.get_clients();
    assert_eq!(rows.len(), 1);
    assert_eq!(rows[0].id, 7);
    assert_eq!(rows[0].device_info, DeviceInfo::default());
}

#[test]
fn register_same_id_twice_is_refused() {
    let mut server = Server::default();
    assert!(server.register(7));
    assert!(!server.register(7));
    assert_eq!(server.get_clients().len(), 1);
}

#[test]
fn unregister_is_idempotent_and_ids_are_never_reused() {
    let mut server = Server::default();
    assert!(server.register(7));
    server.unregister(7);
    assert_eq!(server.get_clients().len(), 0);
    server.unregister(7);
    assert_eq!(server.get_clients().len(), 0);
    // The id log still remembers 7, so the id can never come back.
    assert!(!server.register(7));
    assert_eq!(server.get_client_ids(), vec![7]);
}

#[test]
fn many_registrations_and_removals_stay_exclusive() {
    let mut server = Server::default();
    for id in 0..100u128 {
        assert!(server.register(id));
    }
    for id in 0..100u128 {
        if id % 2 == 0 {
            server.unregister(id);
        }
    }
    let rows = server.get_clients();
    assert_eq!(rows.len(), 50);
    for id in 0..100u128 {
        let hits = rows.iter().filter(|c| c.id == id).count();
        assert_eq!(hits, if id % 2 == 0 { 0 } else { 1 });
    }
}

#[test]
fn accept_session_mints_fresh_ids() {
    let mut server = Server::default();
    let a = server.accept_session().expect("a fresh id");
    let b = server.accept_session().expect("a fresh id");
    assert_ne!(a, b);
    let ids = server.get_client_ids();
    assert_eq!(ids, vec![a, b]);
}

#[test]
fn send_to_unregistered_id_is_client_not_found() {
    let mut server = Server::default();
    assert!(server.register(1));
    // Scenario: an admin addresses an id nobody holds.
    let outcome = server.send(42, Message::Client(ClientMessage::ScreenOff));
    assert_eq!(outcome, Err(SendError::ClientNotFound));
    // The other session is untouched and still reachable.
    assert_eq!(
        server.send(1, Message::Client(ClientMessage::ScreenOff)),
        Ok(())
    );
    assert_eq!(
        server.drain_outbound(1),
        vec![Message::Client(ClientMessage::ScreenOff)]
    );
}

#[test]
fn send_after_writer_left_is_send_channel() {
    let mut server = Server::default();
    assert!(server.register(1));
    assert!(server.close_channel(1));
    assert_eq!(
        server.send(1, Message::Client(ClientMessage::ScreenOn)),
        Err(SendError::SendChannel)
    );
}

#[test]
fn outbound_messages_drain_in_enqueue_order() {
    let mut server = Server::default();
    assert!(server.register(1));
    server.send(1, Message::Client(ClientMessage::ScreenOff)).unwrap();
    server.send(1, Message::Client(ClientMessage::ScreenOn)).unwrap();
    server.send(1, Message::Client(ClientMessage::Restart)).unwrap();
    assert_eq!(
        server.drain_outbound(1),
        vec![
            Message::Client(ClientMessage::ScreenOff),
            Message::Client(ClientMessage::ScreenOn),
            Message::Client(ClientMessage::Restart),
        ]
    );
    assert_eq!(server.drain_outbound(1), Vec::<Message>::new());
}

#[test]
fn compatible_hello_is_answered_with_device_info_request() {
    // Scenario: a device connects, introduces itself compatibly as "ASH",
    // and reports its metadata when asked.
    let local = BuiltInfo::default();
    let mut server = Server::default();
    let id = server.accept_session().unwrap();

    let hello = ServerEvent::IncomingMessage((
        id,
        Message::Server(ServerMessage::Hello(ClientIntroduction {
            name: String::from("ASH"),
            pdtcore_built_info: BuiltInfo::default(),
        })),
    ));
    server.handle_event(hello, &local);
    assert_eq!(
        server.drain_outbound(id),
        vec![Message::Client(ClientMessage::RequestDeviceInfo)]
    );

    let report = ServerEvent::IncomingMessage((
        id,
        Message::Server(ServerMessage::DeviceInfo(DeviceInfo {
            name: String::from("ASH"),
            os: String::from("linux"),
            os_version: String::from("x"),
            uptime: String::from("1h"),
        })),
    ));
    server.handle_event(report, &local);

    let rows = server.get_clients();
    assert_eq!(rows.len(), 1);
    assert_eq!(rows[0].id, id);
    assert_eq!(rows[0].device_info.name, "ASH");
    assert_eq!(rows[0].device_info.os, "linux");
    assert_eq!(rows[0].device_info.os_version, "x");
    assert_eq!(rows[0].device_info.uptime, "1h");
}

#[test]
fn incompatible_hello_is_answered_with_goodbye_only() {
    // Scenario: a device introduces itself with a mismatched major
    // version; it gets a goodbye and is never asked for device metadata.
    let local = BuiltInfo::default();
    let mut server = Server::default();
    let id = server.accept_session().unwrap();

    let hello = ServerEvent::IncomingMessage((
        id,
        Message::Server(ServerMessage::Hello(ClientIntroduction {
            name: String::from("ASH"),
            pdtcore_built_info: incompatible_built(),
        })),
    ));
    server.handle_event(hello, &local);
    assert_eq!(
        server.drain_outbound(id),
        vec![Message::Client(ClientMessage::Goodbye)]
    );
    assert_eq!(server.drain_outbound(id), Vec::<Message>::new());
}

#[test]
fn goodbye_and_stray_events_change_nothing() {
    let local = BuiltInfo::default();
    let mut server = Server::default();
    let id = server.accept_session().unwrap();

    server.handle_event(
        ServerEvent::IncomingMessage((id, Message::Server(ServerMessage::Goodbye))),
        &local,
    );
    server.handle_event(
        ServerEvent::IncomingMessage((id, Message::Client(ClientMessage::ScreenOff))),
        &local,
    );
    server.handle_event(
        ServerEvent::Unexpected(pdtcore::protocol::ProtocolError::IO),
        &local,
    );
    assert_eq!(server.drain_outbound(id), Vec::<Message>::new());
    assert_eq!(server.get_clients().len(), 1);
    assert_eq!(server.get_clients()[0].device_info, DeviceInfo::default());
}

#[test]
fn hello_for_departed_session_is_harmless() {
    let local = BuiltInfo::default();
    let mut server = Server::default();
    let id = server.accept_session().unwrap();
    server.unregister(id);
    let hello = ServerEvent::IncomingMessage((
        id,
        Message::Server(ServerMessage::Hello(ClientIntroduction {
            name: String::from("ASH"),
            pdtcore_built_info: BuiltInfo::default(),
        })),
    ));
    server.handle_event(hello, &local);
    assert_eq!(server.get_clients().len(), 0);
}
