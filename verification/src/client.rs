//! The device-side session state machine: connect, introduce, receive,
//! reconnect with backoff, end.
//!
//! The machine decides; a runner performs. Every decision — what to do with
//! an inbound message, whether a failed read means reconnecting or ending,
//! how long to wait before the next attempt — is a verified step here, and
//! the runner only opens sockets, sleeps and invokes the operating system.

use vstd::prelude::*;

use crate::protocol::{
    BuiltInfo, ClientIntroduction, ClientIntroductionV, ClientMessage, Message, MessageV,
    ServerMessage, ServerMessageV,
};

verus! {

/// Where a device session stands.
#[derive(Clone, Copy, Debug, PartialEq, Eq, Structural)]
pub enum ClientState {
    /// Opening the TCP connection.
    Connecting,
    /// Connected; the introduction still has to go out as the first frame.
    Handshaking,
    /// In the receive loop.
    Receiving,
    /// The connection was lost and attempts are being made to get it back.
    Reconnecting,
    /// A goodbye is going out; the session ends cleanly.
    Ending,
    /// Over, cleanly or not.
    Closed,
}

/// What the runner must do with one inbound message.
#[derive(Clone, Copy, Debug, PartialEq, Eq, Structural)]
pub enum ClientAction {
    /// Hand the command to the operating-system collaborator. Its failure
    /// is per-message and does not end the session.
    Invoke(ClientMessage),
    /// Gather device metadata and send it back as a `DeviceInfo` message.
    ReportDeviceInfo,
    /// The server said goodbye: reply with a goodbye, shut the socket down,
    /// leave the receive loop for good.
    ConcludeSession,
    /// Not a message a device acts on; read the next one.
    Ignore,
}

/// The waiting time, in milliseconds, before reconnect attempt number
/// `attempt` is retried after a failure: a flat second for the first ten
/// attempts, then a second per attempt number.
pub open spec fn spec_backoff_millis(attempt: u64) -> u64
    recommends
        1 <= attempt <= u64::MAX / 1000,
{
    if attempt <= 10 {
        1000u64
    } else {
        (1000 * attempt as int) as u64
    }
}

/// The waiting time before reconnect attempt number `attempt` is retried:
/// attempts 1 through 10 wait one flat second, every later attempt waits
/// `attempt` seconds.
pub fn backoff_millis(attempt: u64) -> (r: u64)
    requires
        1 <= attempt,
        attempt <= u64::MAX / 1000,
    ensures
        r == spec_backoff_millis(attempt),
        attempt <= 10 ==> r == 1000,
        attempt > 10 ==> r == 1000 * attempt as int,
{
    if attempt > 10 {
        1000 * attempt
    } else {
        1000
    }
}

/// One device session from the device's point of view.
#[derive(Debug)]
pub struct ClientSession {
    /// Where the session stands.
    pub state: ClientState,
    /// Set once an orderly shutdown was asked for, by the server's goodbye
    /// or by an external controller; a read failure is then the expected
    /// end of the stream, not a loss of connection.
    pub shutdown_requested: bool,
    /// The number of the reconnect attempt currently being made; 0 outside
    /// of reconnection.
    pub retry: u64,
    /// How many reconnect attempts one disconnection may use up before the
    /// session fails terminally.
    pub max_retries: u64,
    /// The display name sent in the introduction.
    pub name: String,
    /// The build sent in the introduction.
    pub built_info: BuiltInfo,
}

impl ClientSession {
    /// A fresh session about to open its connection.
    pub fn new(name: String, built_info: BuiltInfo, max_retries: u64) -> (r: Self)
        ensures
            r.state == ClientState::Connecting,
            !r.shutdown_requested,
            r.retry == 0,
            r.max_retries == max_retries,
            r.name == name,
            r.built_info == built_info,
    {
        ClientSession {
            state: ClientState::Connecting,
            shutdown_requested: false,
            retry: 0,
            max_retries,
            name,
            built_info,
        }
    }

    /// The TCP connection is open — first at start, or again during
    /// reconnection; the introduction has to go out next.
    pub fn on_connected(&mut self)
        requires
            old(self).state == ClientState::Connecting || old(self).state
                == ClientState::Reconnecting,
        ensures
            *final(self) == (ClientSession { state: ClientState::Handshaking, ..*old(self) }),
    {
        self.state = ClientState::Handshaking;
    }

    /// The very first frame of a session: a `Hello` introducing this
    /// device's name and build.
    pub fn introduction(&self) -> (r: Message)
        ensures
            r@ == MessageV::Server(
                ServerMessageV::Hello(
                    ClientIntroductionV {
                        name: self.name@,
                        pdtcore_built_info: self.built_info@,
                    },
                ),
            ),
    {
        let intro = ClientIntroduction {
            name: self.name.clone(),
            pdtcore_built_info: copy_built_info(&self.built_info),
        };
        let r = Message::Server(ServerMessage::Hello(intro));
        proof {
            assert(r@ =~~= MessageV::Server(
                ServerMessageV::Hello(
                    ClientIntroductionV { name: self.name@, pdtcore_built_info: self.built_info@ },
                ),
            ));
        }
        r
    }

    /// The introduction went out; the session receives from now on, and a
    /// fresh disconnection gets a fresh retry budget.
    pub fn handshake_sent(&mut self)
        requires
            old(self).state == ClientState::Handshaking,
        ensures
            *final(self) == (ClientSession {
                state: ClientState::Receiving,
                retry: 0,
                ..*old(self)
            }),
    {
        self.state = ClientState::Receiving;
        self.retry = 0;
    }

    /// The decision over one inbound message. A goodbye requests shutdown
    /// and concludes the session; a request for device metadata asks the
    /// runner to report it; device commands go to the operating-system
    /// collaborator; anything else is ignored.
    pub fn handle_message(&mut self, message: &Message) -> (r: ClientAction)
        requires
            old(self).state == ClientState::Receiving,
        ensures
            match message@ {
                MessageV::Client(ClientMessage::Goodbye) => r == ClientAction::ConcludeSession
                    && *final(self) == (ClientSession {
                    state: ClientState::Ending,
                    shutdown_requested: true,
                    ..*old(self)
                }),
                MessageV::Client(ClientMessage::RequestDeviceInfo) => r
                    == ClientAction::ReportDeviceInfo && *final(self) == *old(self),
                MessageV::Client(command) => r == ClientAction::Invoke(command) && *final(self)
                    == *old(self),
                MessageV::Server(_) => r == ClientAction::Ignore && *final(self) == *old(self),
            },
    {
        match message {
            Message::Client(ClientMessage::Goodbye) => {
                self.shutdown_requested = true;
                self.state = ClientState::Ending;
                ClientAction::ConcludeSession
            },
            Message::Client(ClientMessage::RequestDeviceInfo) => ClientAction::ReportDeviceInfo,
            Message::Client(command) => ClientAction::Invoke(*command),
            Message::Server(_) => ClientAction::Ignore,
        }
    }

    /// An external controller asks the session to stop; the next read
    /// failure is then treated as the expected end of the stream.
    pub fn request_shutdown(&mut self)
        ensures
            *final(self) == (ClientSession { shutdown_requested: true, ..*old(self) }),
    {
        self.shutdown_requested = true;
    }

    /// Whether an orderly shutdown was asked for.
    pub fn shutdown_requested(&self) -> (r: bool)
        ensures
            r == self.shutdown_requested,
    {
        self.shutdown_requested
    }

    /// The decision after a failed read. With shutdown requested the
    /// failure is the expected end of the stream and the session ends;
    /// otherwise the connection was lost and reconnection starts, with a
    /// fresh attempt counter. Returns whether to reconnect.
    pub fn on_receive_error(&mut self) -> (reconnect: bool)
        requires
            old(self).state == ClientState::Receiving,
        ensures
            old(self).shutdown_requested ==> !reconnect && *final(self) == (ClientSession {
                state: ClientState::Ending,
                ..*old(self)
            }),
            !old(self).shutdown_requested ==> reconnect && *final(self) == (ClientSession {
                state: ClientState::Reconnecting,
                retry: 0,
                ..*old(self)
            }),
    {
        if self.shutdown_requested {
            self.state = ClientState::Ending;
            false
        } else {
            self.state = ClientState::Reconnecting;
            self.retry = 0;
            true
        }
    }

    /// The decision whether one more reconnect attempt may be made. With
    /// shutdown requested the session ends instead; with the retry budget
    /// exhausted it fails terminally; otherwise the attempt counter
    /// advances and the runner connects. Returns whether to attempt.
    pub fn next_attempt(&mut self) -> (go: bool)
        requires
            old(self).state == ClientState::Reconnecting,
        ensures
            old(self).shutdown_requested ==> !go && *final(self) == (ClientSession {
                state: ClientState::Ending,
                ..*old(self)
            }),
            !old(self).shutdown_requested && old(self).retry < old(self).max_retries ==> go
                && *final(self) == (ClientSession {
                retry: (old(self).retry + 1) as u64,
                ..*old(self)
            }),
            !old(self).shutdown_requested && old(self).retry >= old(self).max_retries ==> !go
                && *final(self) == (ClientSession { state: ClientState::Closed, ..*old(self) }),
    {
        if self.shutdown_requested {
            self.state = ClientState::Ending;
            false
        } else if self.retry < self.max_retries {
            self.retry = self.retry + 1;
            true
        } else {
            self.state = ClientState::Closed;
            false
        }
    }

    /// The goodbye that ends the session; after sending it the runner
    /// shuts the socket down and releases everything.
    pub fn end(&mut self) -> (r: Message)
        ensures
            r@ == MessageV::Server(ServerMessageV::Goodbye),
            *final(self) == (ClientSession { state: ClientState::Closed, ..*old(self) }),
    {
        self.state = ClientState::Closed;
        Message::Server(ServerMessage::Goodbye)
    }
}

/// A fresh string copy of build metadata, equal in value.
fn copy_built_info(b: &BuiltInfo) -> (r: BuiltInfo)
    ensures
        r@ == b@,
{
    let r = BuiltInfo {
        pkg_version: b.pkg_version.clone(),
        pkg_version_major: b.pkg_version_major.clone(),
        pkg_version_minor: b.pkg_version_minor.clone(),
        pkg_version_patch: b.pkg_version_patch.clone(),
        pkg_version_pre: b.pkg_version_pre.clone(),
        target: b.target.clone(),
        host: b.host.clone(),
        profile: b.profile.clone(),
    };
    proof {
        assert(r@ =~= b@);
    }
    r
}

} // verus!
