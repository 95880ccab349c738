use pdtcore::protocol::{BuiltInfo, ClientMessage, DeviceInfo, Message, ServerMessage};

fn built(major: &str, minor: &str, patch: &str, pre: &str, target: &str) -> BuiltInfo {
    BuiltInfo {
        pkg_version: format!("{}.{}.{}", major, minor, patch),
        pkg_version_major: String::from(major),
        pkg_version_minor: String::from(minor),
        pkg_version_patch: String::from(patch),
        pkg_version_pre: String::from(pre),
        target: String::from(target),
        host: String::from("host"),
        profile: String::from("release"),
    }
}

#[test]
fn compatible_same_major_minor() {
    let a = built("1", "2", "3", "", "x86_64");
    let b = built("1", "2", "9", "rc.1", "aarch64");
    assert!(a.compatible(&b));
    assert!(b.compatible(&a));
}

#[test]
fn compatible_ignores_patch_pre_target_host_profile() {
    let a = built("0", "4", "0", "", "t1");
    let mut b = built("0", "4", "7", "beta", "t2");
    b.host = String::from("elsewhere");
    b.profile = String::from("debug");
    assert!(a.compatible(&b));
}

#[test]
fn incompatible_major_mismatch() {
    let a = built("1", "2", "0", "", "t");
    let b = built("2", "2", "0", "", "t");
    assert!(!a.compatible(&b));
}

#[test]
fn incompatible_minor_mismatch() {
    let a = built("1", "2", "0", "", "t");
    let b = built("1", "3", "0", "", "t");
    assert!(!a.compatible(&b));
}

#[test]
fn compatible_many_version_tuples() {
    for major in 0..4u32 {
        for minor in 0..4u32 {
            let a = built(&major.to_string(), &minor.to_string(), "0", "", "t");
            for other_major in 0..4u32 {
                for other_minor in 0..4u32 {
                    let b = built(
                        &other_major.to_string(),
                        &other_minor.to_string(),
                        "99",
                        "pre",
                        "other",
                    );
                    assert_eq!(
                        a.compatible(&b),
                        major == other_major && minor == other_minor
                    );
                }
            }
        }
    }
}

#[test]
fn device_info_default_is_unknown() {
    let d = DeviceInfo::default();
    assert_eq!(d.name, "unknown");
    assert_eq!(d.os, "unknown");
    assert_eq!(d.os_version, "unknown");
    assert_eq!(d.uptime, "unknown");
}

#[test]
fn built_info_default_versions() {
    let b = BuiltInfo::default();
    assert_eq!(b.pkg_version, "0.1.0");
    assert_eq!(b.pkg_version_major, "0");
    assert_eq!(b.pkg_version_minor, "1");
    assert_eq!(b.pkg_version_patch, "0");
    assert_eq!(b.pkg_version_pre, "");
    let other = BuiltInfo::default();
    assert!(b.compatible(&other));
}

#[test]
fn message_from_client_message() {
    let m: Message = ClientMessage::Goodbye.into();
    assert_eq!(m, Message::Client(ClientMessage::Goodbye));
}

#[test]
fn message_from_server_message() {
    let m: Message = ServerMessage::Goodbye.into();
    assert_eq!(m, Message::Server(ServerMessage::Goodbye));
}
