//! Session management for a fleet of personal devices behind one control
//! server: the wire protocol and its binary codec, the device registry, the
//! event dispatcher, and the device-side reconnect state machine.
//!
//! Everything here is verified. What a deployment still needs — sockets,
//! threads, sleeping, the operating-system actions a device performs — is
//! deliberately outside: runners hand the library plain values and perform
//! what its verified step functions decide.

pub mod client;
pub mod codec;
pub mod dispatch;
pub mod protocol;
pub mod server;
