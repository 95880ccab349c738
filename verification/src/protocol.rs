//! The message catalog of the wire protocol: the typed messages the control
//! server and the device clients exchange, together with the build metadata
//! that gates the handshake.

use vstd::prelude::*;

verus! {

/// Build metadata a peer reports during the handshake.
///
/// Two peers may talk to each other exactly when their major and minor
/// versions agree; see [`BuiltInfo::compatible`].
#[derive(Debug, PartialEq, Eq)]
pub struct BuiltInfo {
    pub pkg_version: String,
    pub pkg_version_major: String,
    pub pkg_version_minor: String,
    pub pkg_version_patch: String,
    pub pkg_version_pre: String,
    pub target: String,
    pub host: String,
    pub profile: String,
}

/// The mathematical value of a [`BuiltInfo`]: its fields as character
/// sequences.
#[verifier::ext_equal]
pub struct BuiltInfoV {
    pub pkg_version: Seq<char>,
    pub pkg_version_major: Seq<char>,
    pub pkg_version_minor: Seq<char>,
    pub pkg_version_patch: Seq<char>,
    pub pkg_version_pre: Seq<char>,
    pub target: Seq<char>,
    pub host: Seq<char>,
    pub profile: Seq<char>,
}

impl View for BuiltInfo {
    type V = BuiltInfoV;

    open spec fn view(&self) -> BuiltInfoV {
        BuiltInfoV {
            pkg_version: self.pkg_version@,
            pkg_version_major: self.pkg_version_major@,
            pkg_version_minor: self.pkg_version_minor@,
            pkg_version_patch: self.pkg_version_patch@,
            pkg_version_pre: self.pkg_version_pre@,
            target: self.target@,
            host: self.host@,
            profile: self.profile@,
        }
    }
}

impl DeepView for BuiltInfo {
    type V = BuiltInfoV;

    open spec fn deep_view(&self) -> BuiltInfoV {
        self.view()
    }
}

/// Two builds are compatible exactly when their major and minor versions are
/// pairwise equal; patch, pre-release and platform fields are ignored.
pub open spec fn spec_compatible(a: BuiltInfoV, b: BuiltInfoV) -> bool {
    a.pkg_version_major == b.pkg_version_major && a.pkg_version_minor == b.pkg_version_minor
}

/// The build metadata this library reports for itself.
pub open spec fn local_built_info() -> BuiltInfoV {
    BuiltInfoV {
        pkg_version: "0.1.0"@,
        pkg_version_major: "0"@,
        pkg_version_minor: "1"@,
        pkg_version_patch: "0"@,
        pkg_version_pre: ""@,
        target: "unknown"@,
        host: "unknown"@,
        profile: "unknown"@,
    }
}

impl BuiltInfo {
    /// Whether a session between peers of these two builds may proceed:
    /// true iff the major and the minor version agree, regardless of the
    /// patch, pre-release, target, host and profile fields.
    pub fn compatible(&self, other: &Self) -> (r: bool)
        ensures
            r == spec_compatible(self@, other@),
    {
        self.pkg_version_major == other.pkg_version_major
            && self.pkg_version_minor == other.pkg_version_minor
    }
}

impl Default for BuiltInfo {
    /// The build metadata of this library itself.
    fn default() -> (r: Self)
        ensures
            r@ == local_built_info(),
    {
        let r = BuiltInfo {
            pkg_version: String::from_str("0.1.0"),
            pkg_version_major: String::from_str("0"),
            pkg_version_minor: String::from_str("1"),
            pkg_version_patch: String::from_str("0"),
            pkg_version_pre: String::from_str(""),
            target: String::from_str("unknown"),
            host: String::from_str("unknown"),
            profile: String::from_str("unknown"),
        };
        proof {
            assert(r@ =~= local_built_info());
        }
        r
    }
}

/// Metadata a device reports about itself.
#[derive(Debug, PartialEq, Eq)]
pub struct DeviceInfo {
    pub name: String,
    pub os: String,
    pub os_version: String,
    pub uptime: String,
}

/// The mathematical value of a [`DeviceInfo`].
#[verifier::ext_equal]
pub struct DeviceInfoV {
    pub name: Seq<char>,
    pub os: Seq<char>,
    pub os_version: Seq<char>,
    pub uptime: Seq<char>,
}

impl View for DeviceInfo {
    type V = DeviceInfoV;

    open spec fn view(&self) -> DeviceInfoV {
        DeviceInfoV {
            name: self.name@,
            os: self.os@,
            os_version: self.os_version@,
            uptime: self.uptime@,
        }
    }
}

impl DeepView for DeviceInfo {
    type V = DeviceInfoV;

    open spec fn deep_view(&self) -> DeviceInfoV {
        self.view()
    }
}

/// The device metadata assumed before a device has reported anything:
/// `"unknown"` in every field.
pub open spec fn unknown_device_info() -> DeviceInfoV {
    DeviceInfoV { name: "unknown"@, os: "unknown"@, os_version: "unknown"@, uptime: "unknown"@ }
}

impl Default for DeviceInfo {
    /// Device metadata with every field still `"unknown"`.
    fn default() -> (r: Self)
        ensures
            r@ == unknown_device_info(),
    {
        let r = DeviceInfo {
            name: String::from_str("unknown"),
            os: String::from_str("unknown"),
            os_version: String::from_str("unknown"),
            uptime: String::from_str("unknown"),
        };
        proof {
            assert(r@ =~= unknown_device_info());
        }
        r
    }
}

/// What a device tells the server in the very first frame of a session:
/// its display name and the build it runs.
#[derive(Debug, PartialEq, Eq)]
pub struct ClientIntroduction {
    pub name: String,
    pub pdtcore_built_info: BuiltInfo,
}

/// The mathematical value of a [`ClientIntroduction`].
#[verifier::ext_equal]
pub struct ClientIntroductionV {
    pub name: Seq<char>,
    pub pdtcore_built_info: BuiltInfoV,
}

impl View for ClientIntroduction {
    type V = ClientIntroductionV;

    open spec fn view(&self) -> ClientIntroductionV {
        ClientIntroductionV { name: self.name@, pdtcore_built_info: self.pdtcore_built_info@ }
    }
}

impl DeepView for ClientIntroduction {
    type V = ClientIntroductionV;

    open spec fn deep_view(&self) -> ClientIntroductionV {
        self.view()
    }
}

/// A message addressed to a device: pure commands and requests, no payload.
#[derive(Clone, Copy, Debug, PartialEq, Eq, Structural)]
pub enum ClientMessage {
    ScreenOff,
    ScreenOn,
    PowerOff,
    Restart,
    Goodbye,
    RequestDeviceInfo,
}

impl View for ClientMessage {
    type V = ClientMessage;

    open spec fn view(&self) -> ClientMessage {
        *self
    }
}

impl DeepView for ClientMessage {
    type V = ClientMessage;

    open spec fn deep_view(&self) -> ClientMessage {
        *self
    }
}

/// A message addressed to the server. The device also uses this half of the
/// catalog for the handshake (`Hello`) and to announce that it is leaving.
#[derive(Debug, PartialEq, Eq)]
pub enum ServerMessage {
    Hello(ClientIntroduction),
    DeviceInfo(DeviceInfo),
    Goodbye,
}

/// The mathematical value of a [`ServerMessage`].
#[verifier::ext_equal]
pub enum ServerMessageV {
    Hello(ClientIntroductionV),
    DeviceInfo(DeviceInfoV),
    Goodbye,
}

impl View for ServerMessage {
    type V = ServerMessageV;

    open spec fn view(&self) -> ServerMessageV {
        match self {
            ServerMessage::Hello(intro) => ServerMessageV::Hello(intro@),
            ServerMessage::DeviceInfo(info) => ServerMessageV::DeviceInfo(info@),
            ServerMessage::Goodbye => ServerMessageV::Goodbye,
        }
    }
}

impl DeepView for ServerMessage {
    type V = ServerMessageV;

    open spec fn deep_view(&self) -> ServerMessageV {
        self.view()
    }
}

/// The complete catalog of wire messages.
#[derive(Debug, PartialEq, Eq)]
pub enum Message {
    Client(ClientMessage),
    Server(ServerMessage),
}

/// The mathematical value of a [`Message`].
#[verifier::ext_equal]
pub enum MessageV {
    Client(ClientMessage),
    Server(ServerMessageV),
}

impl View for Message {
    type V = MessageV;

    open spec fn view(&self) -> MessageV {
        match self {
            Message::Client(m) => MessageV::Client(*m),
            Message::Server(m) => MessageV::Server(m@),
        }
    }
}

impl DeepView for Message {
    type V = MessageV;

    open spec fn deep_view(&self) -> MessageV {
        self.view()
    }
}

impl core::convert::From<ClientMessage> for Message {
    /// Wraps a device-bound command into the full catalog.
    fn from(value: ClientMessage) -> (r: Self) {
        Message::Client(value)
    }
}

impl vstd::std_specs::convert::FromSpecImpl<ClientMessage> for Message {
    open spec fn obeys_from_spec() -> bool {
        true
    }

    open spec fn from_spec(value: ClientMessage) -> Self {
        Message::Client(value)
    }
}

impl core::convert::From<ServerMessage> for Message {
    /// Wraps a server-bound message into the full catalog.
    fn from(value: ServerMessage) -> (r: Self) {
        Message::Server(value)
    }
}

impl vstd::std_specs::convert::FromSpecImpl<ServerMessage> for Message {
    open spec fn obeys_from_spec() -> bool {
        true
    }

    open spec fn from_spec(value: ServerMessage) -> Self {
        Message::Server(value)
    }
}

/// Whether a character sequence is small enough to exist as a string in
/// memory. Every string held by a real message satisfies this.
pub open spec fn string_fits(s: Seq<char>) -> bool {
    s.len() <= usize::MAX
}

pub open spec fn built_info_wf(b: BuiltInfoV) -> bool {
    string_fits(b.pkg_version) && string_fits(b.pkg_version_major) && string_fits(
        b.pkg_version_minor,
    ) && string_fits(b.pkg_version_patch) && string_fits(b.pkg_version_pre) && string_fits(
        b.target,
    ) && string_fits(b.host) && string_fits(b.profile)
}

pub open spec fn device_info_wf(d: DeviceInfoV) -> bool {
    string_fits(d.name) && string_fits(d.os) && string_fits(d.os_version) && string_fits(d.uptime)
}

pub open spec fn client_introduction_wf(i: ClientIntroductionV) -> bool {
    string_fits(i.name) && built_info_wf(i.pdtcore_built_info)
}

pub open spec fn server_message_wf(m: ServerMessageV) -> bool {
    match m {
        ServerMessageV::Hello(intro) => client_introduction_wf(intro),
        ServerMessageV::DeviceInfo(info) => device_info_wf(info),
        ServerMessageV::Goodbye => true,
    }
}

/// Whether a message value could be held by a real [`Message`]: every string
/// in it fits in memory. Every constructible message satisfies this.
pub open spec fn message_wf(m: MessageV) -> bool {
    match m {
        MessageV::Client(_) => true,
        MessageV::Server(sm) => server_message_wf(sm),
    }
}

/// Why a byte sequence failed to decode into a message.
#[derive(Clone, Copy, Debug, PartialEq, Eq, Structural)]
pub enum DecodeError {
    /// The bytes end before one whole message was read.
    UnexpectedEnd,
    /// A variant tag holds a value outside the catalog.
    InvalidTag,
    /// A character position holds a value that is not a Unicode scalar.
    InvalidChar,
    /// A string length does not fit in this machine's addressable range.
    LengthOverflow,
}

/// The failure taxonomy of the wire protocol layer.
#[derive(Clone, Copy, Debug, PartialEq, Eq, Structural)]
pub enum ProtocolError {
    /// A socket-level failure, end of stream included.
    IO,
    /// A message could not be turned into bytes.
    Encode,
    /// Malformed bytes arrived.
    Decode(DecodeError),
}

} // verus!
