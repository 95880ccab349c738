use pdtcore::protocol::{
    BuiltInfo, ClientIntroduction, ClientMessage, DecodeError, DeviceInfo, Message, ServerMessage,
};

fn round_trip(m: Message) {
    let bytes = m.encode();
    let (decoded, next) = Message::decode(&bytes, 0).expect("a fresh encoding must decode");
    assert_eq!(decoded, m);
    assert_eq!(next, bytes.len());
}

#[test]
fn round_trip_every_client_message() {
    round_trip(Message::Client(ClientMessage::ScreenOff));
    round_trip(Message::Client(ClientMessage::ScreenOn));
    round_trip(Message::Client(ClientMessage::PowerOff));
    round_trip(Message::Client(ClientMessage::Restart));
    round_trip(Message::Client(ClientMessage::Goodbye));
    round_trip(Message::Client(ClientMessage::RequestDeviceInfo));
}

#[test]
fn round_trip_server_goodbye() {
    round_trip(Message::Server(ServerMessage::Goodbye));
}

#[test]
fn round_trip_hello() {
    let intro = ClientIntroduction {
        name: String::from("ASH"),
        pdtcore_built_info: BuiltInfo::default(),
    };
    round_trip(Message::Server(ServerMessage::Hello(intro)));
}

#[test]
fn round_trip_hello_unicode_name() {
    let intro = ClientIntroduction {
        name: String::from("Ärt✓💡 station"),
        pdtcore_built_info: BuiltInfo {
            pkg_version: String::from("1.2.3"),
            pkg_version_major: String::from("1"),
            pkg_version_minor: String::from("2"),
            pkg_version_patch: String::from("3"),
            pkg_version_pre: String::from("päre"),
            target: String::from("x86_64-unknown-linux-gnu"),
            host: String::from("héll"),
            profile: String::from("release"),
        },
    };
    round_trip(Message::Server(ServerMessage::Hello(intro)));
}

#[test]
fn round_trip_device_info() {
    let info = DeviceInfo {
        name: String::from("ASH"),
        os: String::from("linux"),
        os_version: String::from("x"),
        uptime: String::from("1h"),
    };
    round_trip(Message::Server(ServerMessage::DeviceInfo(info)));
}

#[test]
fn round_trip_empty_strings() {
    let info = DeviceInfo {
        name: String::new(),
        os: String::new(),
        os_version: String::new(),
        uptime: String::new(),
    };
    round_trip(Message::Server(ServerMessage::DeviceInfo(info)));
}

#[test]
fn decode_consumes_one_message_per_call() {
    let first = Message::Client(ClientMessage::ScreenOff);
    let second = Message::Server(ServerMessage::DeviceInfo(DeviceInfo::default()));
    let third = Message::Server(ServerMessage::Goodbye);
    let mut stream = first.encode();
    stream.extend(second.encode());
    stream.extend(third.encode());

    let (m1, p1) = Message::decode(&stream, 0).unwrap();
    let (m2, p2) = Message::decode(&stream, p1).unwrap();
    let (m3, p3) = Message::decode(&stream, p2).unwrap();
    assert_eq!(m1, first);
    assert_eq!(m2, second);
    assert_eq!(m3, third);
    assert_eq!(p3, stream.len());
}

#[test]
fn decode_empty_is_unexpected_end() {
    let empty: Vec<u8> = Vec::new();
    assert_eq!(
        Message::decode(&empty, 0),
        Err(DecodeError::UnexpectedEnd)
    );
}

#[test]
fn decode_truncated_is_unexpected_end() {
    let bytes = Message::Server(ServerMessage::Goodbye).encode();
    assert_eq!(
        Message::decode(&bytes[..1], 0),
        Err(DecodeError::UnexpectedEnd)
    );
}

#[test]
fn decode_bad_catalog_tag() {
    let bytes = vec![9u8];
    assert_eq!(Message::decode(&bytes, 0), Err(DecodeError::InvalidTag));
}

#[test]
fn decode_bad_command_tag() {
    let bytes = vec![0u8, 200u8];
    assert_eq!(Message::decode(&bytes, 0), Err(DecodeError::InvalidTag));
}

#[test]
fn decode_surrogate_character() {
    // A device-info message whose name claims one character that is the
    // surrogate 0xD800, which no character may hold.
    let mut bytes = vec![1u8, 1u8];
    bytes.extend([1u8, 0, 0, 0, 0, 0, 0, 0]);
    bytes.extend([0x00u8, 0xD8, 0x00, 0x00]);
    assert_eq!(Message::decode(&bytes, 0), Err(DecodeError::InvalidChar));
}

#[test]
fn decode_absurd_string_length_fails() {
    // A device-info message whose name claims close to 2^64 characters.
    let mut bytes = vec![1u8, 1u8];
    bytes.extend([0xFFu8; 8]);
    bytes.extend([b'x', 0, 0, 0]);
    assert!(Message::decode(&bytes, 0).is_err());
}

#[test]
fn encoding_is_deterministic() {
    let m = Message::Server(ServerMessage::Hello(ClientIntroduction {
        name: String::from("ASH"),
        pdtcore_built_info: BuiltInfo::default(),
    }));
    assert_eq!(m.encode(), m.encode());
}
