//! Binary encoding of the wire protocol.
//!
//! Every message travels as a self-describing byte form: a variant tag per
//! tagged union, and each string as its character count followed by its
//! characters, one 32-bit little-endian scalar each. The spec functions here
//! are the authoritative description of that form; the executable
//! [`Message::encode`] and [`Message::decode`] are proved against them, and
//! [`lemma_message_round_trip`] shows that decoding inverts encoding.

use vstd::prelude::*;
use vstd::utf8::{char_is_scalar, char_u32_cast, is_scalar};

use crate::protocol::{
    built_info_wf, client_introduction_wf, device_info_wf, message_wf, server_message_wf,
    BuiltInfo, BuiltInfoV, ClientIntroduction, ClientIntroductionV, ClientMessage, DecodeError,
    DeviceInfo, DeviceInfoV, Message, MessageV, ServerMessage, ServerMessageV,
};

verus! {

/// Relies on core's `char::from_u32`: the result is `Some` exactly for
/// Unicode scalar values, and the returned character casts back to the
/// argument.
pub assume_specification[ char::from_u32 ](i: u32) -> (r: Option<char>)
    ensures
        r is Some <==> is_scalar(i),
        r matches Some(c) ==> c as u32 == i,
;

/// Relies on alloc's `String::push`: appends one character at the end.
pub assume_specification[ String::push ](s: &mut String, c: char)
    ensures
        final(s)@ == old(s)@.push(c),
;

// ---------------------------------------------------------------------------
// Little-endian integers
// ---------------------------------------------------------------------------

/// The four little-endian bytes of a 32-bit value.
pub open spec fn le_bytes_u32(n: u32) -> Seq<u8> {
    seq![
        (n & 0xff) as u8,
        ((n >> 8) & 0xff) as u8,
        ((n >> 16) & 0xff) as u8,
        ((n >> 24) & 0xff) as u8,
    ]
}

/// The 32-bit value held by four little-endian bytes.
pub open spec fn u32_of_le(s: Seq<u8>) -> u32
    recommends
        s.len() == 4,
{
    (s[0] as u32) | ((s[1] as u32) << 8) | ((s[2] as u32) << 16) | ((s[3] as u32) << 24)
}

/// The eight little-endian bytes of a 64-bit value.
pub open spec fn le_bytes_u64(n: u64) -> Seq<u8> {
    seq![
        (n & 0xff) as u8,
        ((n >> 8) & 0xff) as u8,
        ((n >> 16) & 0xff) as u8,
        ((n >> 24) & 0xff) as u8,
        ((n >> 32) & 0xff) as u8,
        ((n >> 40) & 0xff) as u8,
        ((n >> 48) & 0xff) as u8,
        ((n >> 56) & 0xff) as u8,
    ]
}

/// The 64-bit value held by eight little-endian bytes.
pub open spec fn u64_of_le(s: Seq<u8>) -> u64
    recommends
        s.len() == 8,
{
    (s[0] as u64) | ((s[1] as u64) << 8) | ((s[2] as u64) << 16) | ((s[3] as u64) << 24)
        | ((s[4] as u64) << 32) | ((s[5] as u64) << 40) | ((s[6] as u64) << 48)
        | ((s[7] as u64) << 56)
}

pub proof fn lemma_u32_le_round_trip(n: u32)
    ensures
        u32_of_le(le_bytes_u32(n)) == n,
{
    assert(((((n & 0xff) as u8) as u32) | ((((n >> 8) & 0xff) as u8) as u32) << 8 | ((((n >> 16)
        & 0xff) as u8) as u32) << 16 | ((((n >> 24) & 0xff) as u8) as u32) << 24) == n)
        by (bit_vector);
}

pub proof fn lemma_u64_le_round_trip(n: u64)
    ensures
        u64_of_le(le_bytes_u64(n)) == n,
{
    assert(((((n & 0xff) as u8) as u64) | ((((n >> 8) & 0xff) as u8) as u64) << 8 | ((((n >> 16)
        & 0xff) as u8) as u64) << 16 | ((((n >> 24) & 0xff) as u8) as u64) << 24 | ((((n >> 32)
        & 0xff) as u8) as u64) << 32 | ((((n >> 40) & 0xff) as u8) as u64) << 40 | ((((n >> 48)
        & 0xff) as u8) as u64) << 48 | ((((n >> 56) & 0xff) as u8) as u64) << 56) == n)
        by (bit_vector);
}

fn push_u32_le(out: &mut Vec<u8>, n: u32)
    ensures
        final(out)@ == old(out)@ + le_bytes_u32(n),
{
    out.push((n & 0xff) as u8);
    out.push(((n >> 8) & 0xff) as u8);
    out.push(((n >> 16) & 0xff) as u8);
    out.push(((n >> 24) & 0xff) as u8);
    proof {
        assert(out@ =~= old(out)@ + le_bytes_u32(n));
    }
}

fn push_u64_le(out: &mut Vec<u8>, n: u64)
    ensures
        final(out)@ == old(out)@ + le_bytes_u64(n),
{
    out.push((n & 0xff) as u8);
    out.push(((n >> 8) & 0xff) as u8);
    out.push(((n >> 16) & 0xff) as u8);
    out.push(((n >> 24) & 0xff) as u8);
    out.push(((n >> 32) & 0xff) as u8);
    out.push(((n >> 40) & 0xff) as u8);
    out.push(((n >> 48) & 0xff) as u8);
    out.push(((n >> 56) & 0xff) as u8);
    proof {
        assert(out@ =~= old(out)@ + le_bytes_u64(n));
    }
}

fn read_u32_le(buf: &[u8], pos: usize) -> (n: u32)
    requires
        pos + 4 <= buf@.len(),
    ensures
        n == u32_of_le(buf@.subrange(pos as int, pos as int + 4)),
{
    let n = (buf[pos] as u32) | ((buf[pos + 1] as u32) << 8) | ((buf[pos + 2] as u32) << 16) | ((
    buf[pos + 3] as u32) << 24);
    proof {
        let s = buf@.subrange(pos as int, pos as int + 4);
        assert(s[0] == buf@[pos as int] && s[1] == buf@[pos as int + 1] && s[2] == buf@[pos as int
            + 2] && s[3] == buf@[pos as int + 3]);
    }
    n
}

fn read_u64_le(buf: &[u8], pos: usize) -> (n: u64)
    requires
        pos + 8 <= buf@.len(),
    ensures
        n == u64_of_le(buf@.subrange(pos as int, pos as int + 8)),
{
    let n = (buf[pos] as u64) | ((buf[pos + 1] as u64) << 8) | ((buf[pos + 2] as u64) << 16) | ((
    buf[pos + 3] as u64) << 24) | ((buf[pos + 4] as u64) << 32) | ((buf[pos + 5] as u64) << 40) | (
    (buf[pos + 6] as u64) << 48) | ((buf[pos + 7] as u64) << 56);
    proof {
        let s = buf@.subrange(pos as int, pos as int + 8);
        assert(s[0] == buf@[pos as int] && s[1] == buf@[pos as int + 1] && s[2] == buf@[pos as int
            + 2] && s[3] == buf@[pos as int + 3] && s[4] == buf@[pos as int + 4] && s[5] == buf@[
        pos as int + 5] && s[6] == buf@[pos as int + 6] && s[7] == buf@[pos as int + 7]);
    }
    n
}

// ---------------------------------------------------------------------------
// Characters and strings
// ---------------------------------------------------------------------------

/// Each character as its scalar value in four little-endian bytes.
pub open spec fn encode_chars(s: Seq<char>) -> Seq<u8>
    decreases s.len(),
{
    if s.len() == 0 {
        Seq::empty()
    } else {
        le_bytes_u32(s[0] as u32) + encode_chars(s.skip(1))
    }
}

/// One character taken off the front of a byte stream.
pub open spec fn read_char(s: Seq<u8>) -> Option<(char, Seq<u8>)> {
    if s.len() < 4 {
        None
    } else {
        let u = u32_of_le(s.take(4));
        if is_scalar(u) {
            Some((u as char, s.skip(4)))
        } else {
            None
        }
    }
}

/// `n` characters taken off the front of a byte stream.
pub open spec fn read_chars(n: nat, s: Seq<u8>) -> Option<(Seq<char>, Seq<u8>)>
    decreases n,
{
    if n == 0 {
        Some((Seq::empty(), s))
    } else {
        match read_char(s) {
            Some((c, rest)) => match read_chars((n - 1) as nat, rest) {
                Some((cs, tail)) => Some((seq![c] + cs, tail)),
                None => None,
            },
            None => None,
        }
    }
}

/// A string as its character count in eight little-endian bytes followed by
/// its characters.
pub open spec fn encode_string(s: Seq<char>) -> Seq<u8> {
    le_bytes_u64(s.len() as u64) + encode_chars(s)
}

/// One string taken off the front of a byte stream.
pub open spec fn read_string(s: Seq<u8>) -> Option<(Seq<char>, Seq<u8>)> {
    if s.len() < 8 {
        None
    } else {
        let n = u64_of_le(s.take(8));
        if n <= usize::MAX as u64 {
            read_chars(n as nat, s.skip(8))
        } else {
            None
        }
    }
}

pub proof fn lemma_encode_chars_len(s: Seq<char>)
    ensures
        encode_chars(s).len() == 4 * s.len(),
    decreases s.len(),
{
    if s.len() > 0 {
        lemma_encode_chars_len(s.skip(1));
    }
}

pub proof fn lemma_encode_chars_append(a: Seq<char>, b: Seq<char>)
    ensures
        encode_chars(a + b) == encode_chars(a) + encode_chars(b),
    decreases a.len(),
{
    if a.len() == 0 {
        assert(a + b =~= b);
        assert(encode_chars(a) + encode_chars(b) =~= encode_chars(b));
    } else {
        assert((a + b).skip(1) =~= a.skip(1) + b);
        lemma_encode_chars_append(a.skip(1), b);
        assert(encode_chars(a + b) =~= encode_chars(a) + encode_chars(b));
    }
}

pub proof fn lemma_chars_round_trip(s: Seq<char>, rest: Seq<u8>)
    ensures
        read_chars(s.len(), encode_chars(s) + rest) == Some((s, rest)),
    decreases s.len(),
{
    if s.len() == 0 {
        assert(encode_chars(s) + rest =~= rest);
        assert(s =~= Seq::<char>::empty());
    } else {
        let c = s[0];
        let u = c as u32;
        let bytes = encode_chars(s) + rest;
        let tail_bytes = encode_chars(s.skip(1)) + rest;
        assert(bytes =~= le_bytes_u32(u) + tail_bytes);
        lemma_encode_chars_len(s.skip(1));
        assert(bytes.take(4) =~= le_bytes_u32(u));
        assert(bytes.skip(4) =~= tail_bytes);
        lemma_u32_le_round_trip(u);
        char_is_scalar(c);
        char_u32_cast(c, u);
        assert(read_char(bytes) == Some((c, tail_bytes)));
        lemma_chars_round_trip(s.skip(1), rest);
        assert(seq![c] + s.skip(1) =~= s);
    }
}

pub proof fn lemma_string_round_trip(s: Seq<char>, rest: Seq<u8>)
    requires
        s.len() <= usize::MAX,
    ensures
        read_string(encode_string(s) + rest) == Some((s, rest)),
{
    let n = s.len() as u64;
    let bytes = encode_string(s) + rest;
    let tail_bytes = encode_chars(s) + rest;
    assert(bytes =~= le_bytes_u64(n) + tail_bytes);
    assert(bytes.take(8) =~= le_bytes_u64(n));
    assert(bytes.skip(8) =~= tail_bytes);
    lemma_u64_le_round_trip(n);
    lemma_chars_round_trip(s, rest);
}

fn push_string(out: &mut Vec<u8>, s: &String)
    ensures
        final(out)@ == old(out)@ + encode_string(s@),
{
    let l = s.as_str().unicode_len();
    push_u64_le(out, l as u64);
    let mut i: usize = 0;
    while i < l
        invariant
            i <= l,
            l == s@.len(),
            out@ == old(out)@ + le_bytes_u64(l as u64) + encode_chars(s@.take(i as int)),
        decreases l - i,
    {
        let c = s.as_str().get_char(i);
        push_u32_le(out, c as u32);
        proof {
            lemma_encode_chars_append(s@.take(i as int), seq![s@[i as int]]);
            assert(s@.take(i as int + 1) =~= s@.take(i as int) + seq![s@[i as int]]);
            assert(seq![s@[i as int]].skip(1) =~= Seq::<char>::empty());
            assert(encode_chars(Seq::<char>::empty()) =~= Seq::<u8>::empty());
            assert(encode_chars(seq![s@[i as int]]) =~= le_bytes_u32(s@[i as int] as u32));
            assert(out@ =~= old(out)@ + le_bytes_u64(l as u64) + encode_chars(
                s@.take(i as int + 1),
            ));
        }
        i = i + 1;
    }
    proof {
        assert(s@.take(l as int) =~= s@);
        assert(out@ =~= old(out)@ + encode_string(s@));
    }
}

fn decode_string(buf: &[u8], pos: usize) -> (r: Result<(String, usize), DecodeError>)
    requires
        pos <= buf@.len(),
    ensures
        match r {
            Ok((s, next)) => pos <= next <= buf@.len() && read_string(buf@.skip(pos as int))
                == Some((s@, buf@.skip(next as int))),
            Err(_) => read_string(buf@.skip(pos as int)) is None,
        },
{
    let ghost stream = buf@.skip(pos as int);
    if buf.len() - pos < 8 {
        return Err(DecodeError::UnexpectedEnd);
    }
    let n64 = read_u64_le(buf, pos);
    proof {
        assert(stream.take(8) =~= buf@.subrange(pos as int, pos as int + 8));
    }
    if n64 > usize::MAX as u64 {
        return Err(DecodeError::LengthOverflow);
    }
    let n = n64 as usize;
    let mut s = String::new();
    let mut i: usize = 0;
    let mut cur: usize = pos + 8;
    proof {
        assert(buf@.skip(pos as int + 8) =~= stream.skip(8));
        match read_chars(n as nat, buf@.skip(cur as int)) {
            Some((cs, tail)) => {
                assert(s@ + cs =~= cs);
            },
            None => {},
        }
    }
    while i < n
        invariant
            i <= n,
            pos + 8 <= cur <= buf@.len(),
            stream == buf@.skip(pos as int),
            stream.len() >= 8,
            n64 == u64_of_le(stream.take(8)),
            n64 <= usize::MAX as u64,
            n == n64 as usize,
            s@.len() == i,
            read_chars(n as nat, stream.skip(8)) == (match read_chars(
                (n - i) as nat,
                buf@.skip(cur as int),
            ) {
                Some((cs, tail)) => Some((s@ + cs, tail)),
                None => None,
            }),
        decreases n - i,
    {
        let ghost cur_stream = buf@.skip(cur as int);
        if buf.len() - cur < 4 {
            proof {
                assert(read_char(cur_stream) is None);
            }
            return Err(DecodeError::UnexpectedEnd);
        }
        let u = read_u32_le(buf, cur);
        proof {
            assert(cur_stream.take(4) =~= buf@.subrange(cur as int, cur as int + 4));
        }
        match char::from_u32(u) {
            Some(c) => {
                proof {
                    char_is_scalar(c);
                    char_u32_cast(c, u);
                    assert(cur_stream.skip(4) =~= buf@.skip(cur as int + 4));
                    assert(read_char(cur_stream) == Some((c, buf@.skip(cur as int + 4))));
                    assert(read_chars((n - i) as nat, cur_stream) == (match read_chars(
                        (n - i - 1) as nat,
                        buf@.skip(cur as int + 4),
                    ) {
                        Some((cs, tail)) => Some((seq![c] + cs, tail)),
                        None => None,
                    }));
                }
                let ghost s_prev = s@;
                s.push(c);
                proof {
                    match read_chars((n - i - 1) as nat, buf@.skip(cur as int + 4)) {
                        Some((cs, tail)) => {
                            assert(s_prev.push(c) + cs =~= s_prev + (seq![c] + cs));
                        },
                        None => {},
                    }
                }
                cur = cur + 4;
                i = i + 1;
            },
            None => {
                proof {
                    assert(read_char(cur_stream) is None);
                }
                return Err(DecodeError::InvalidChar);
            },
        }
    }
    proof {
        assert(read_chars((n - i) as nat, buf@.skip(cur as int)) == Some((
            Seq::<char>::empty(),
            buf@.skip(cur as int),
        )));
        assert(s@ + Seq::<char>::empty() =~= s@);
    }
    Ok((s, cur))
}

// ---------------------------------------------------------------------------
// Device-bound commands
// ---------------------------------------------------------------------------

/// The variant tag of a device-bound command.
pub open spec fn client_message_tag(m: ClientMessage) -> u8 {
    match m {
        ClientMessage::ScreenOff => 0u8,
        ClientMessage::ScreenOn => 1u8,
        ClientMessage::PowerOff => 2u8,
        ClientMessage::Restart => 3u8,
        ClientMessage::Goodbye => 4u8,
        ClientMessage::RequestDeviceInfo => 5u8,
    }
}

/// A device-bound command as its tag byte.
pub open spec fn encode_client_message(m: ClientMessage) -> Seq<u8> {
    seq![client_message_tag(m)]
}

/// One device-bound command taken off the front of a byte stream.
pub open spec fn read_client_message(s: Seq<u8>) -> Option<(ClientMessage, Seq<u8>)> {
    if s.len() < 1 {
        None
    } else {
        let rest = s.skip(1);
        if s[0] == 0 {
            Some((ClientMessage::ScreenOff, rest))
        } else if s[0] == 1 {
            Some((ClientMessage::ScreenOn, rest))
        } else if s[0] == 2 {
            Some((ClientMessage::PowerOff, rest))
        } else if s[0] == 3 {
            Some((ClientMessage::Restart, rest))
        } else if s[0] == 4 {
            Some((ClientMessage::Goodbye, rest))
        } else if s[0] == 5 {
            Some((ClientMessage::RequestDeviceInfo, rest))
        } else {
            None
        }
    }
}

pub proof fn lemma_client_message_round_trip(m: ClientMessage, rest: Seq<u8>)
    ensures
        read_client_message(encode_client_message(m) + rest) == Some((m, rest)),
{
    let bytes = encode_client_message(m) + rest;
    assert(bytes.skip(1) =~= rest);
}

fn push_client_message(out: &mut Vec<u8>, m: &ClientMessage)
    ensures
        final(out)@ == old(out)@ + encode_client_message(*m),
{
    let t: u8 = match m {
        ClientMessage::ScreenOff => 0,
        ClientMessage::ScreenOn => 1,
        ClientMessage::PowerOff => 2,
        ClientMessage::Restart => 3,
        ClientMessage::Goodbye => 4,
        ClientMessage::RequestDeviceInfo => 5,
    };
    out.push(t);
    proof {
        assert(out@ =~= old(out)@ + encode_client_message(*m));
    }
}

fn decode_client_message(buf: &[u8], pos: usize) -> (r: Result<(ClientMessage, usize), DecodeError>)
    requires
        pos <= buf@.len(),
    ensures
        match r {
            Ok((m, next)) => pos <= next <= buf@.len() && read_client_message(
                buf@.skip(pos as int),
            ) == Some((m, buf@.skip(next as int))),
            Err(_) => read_client_message(buf@.skip(pos as int)) is None,
        },
{
    if buf.len() - pos < 1 {
        return Err(DecodeError::UnexpectedEnd);
    }
    let t = buf[pos];
    proof {
        assert(buf@.skip(pos as int)[0] == buf@[pos as int]);
        assert(buf@.skip(pos as int).skip(1) =~= buf@.skip(pos as int + 1));
    }
    match t {
        0 => Ok((ClientMessage::ScreenOff, pos + 1)),
        1 => Ok((ClientMessage::ScreenOn, pos + 1)),
        2 => Ok((ClientMessage::PowerOff, pos + 1)),
        3 => Ok((ClientMessage::Restart, pos + 1)),
        4 => Ok((ClientMessage::Goodbye, pos + 1)),
        5 => Ok((ClientMessage::RequestDeviceInfo, pos + 1)),
        _ => Err(DecodeError::InvalidTag),
    }
}

// ---------------------------------------------------------------------------
// Build metadata
// ---------------------------------------------------------------------------

/// Build metadata as its eight strings in declaration order.
pub open spec fn encode_built_info(b: BuiltInfoV) -> Seq<u8> {
    encode_string(b.pkg_version) + encode_string(b.pkg_version_major) + encode_string(
        b.pkg_version_minor,
    ) + encode_string(b.pkg_version_patch) + encode_string(b.pkg_version_pre) + encode_string(
        b.target,
    ) + encode_string(b.host) + encode_string(b.profile)
}

/// Build metadata taken off the front of a byte stream.
pub open spec fn read_built_info(s: Seq<u8>) -> Option<(BuiltInfoV, Seq<u8>)> {
    match read_string(s) {
        Some((pkg_version, s1)) => match read_string(s1) {
            Some((pkg_version_major, s2)) => match read_string(s2) {
                Some((pkg_version_minor, s3)) => match read_string(s3) {
                    Some((pkg_version_patch, s4)) => match read_string(s4) {
                        Some((pkg_version_pre, s5)) => match read_string(s5) {
                            Some((target, s6)) => match read_string(s6) {
                                Some((host, s7)) => match read_string(s7) {
                                    Some((profile, s8)) => Some(
                                        (
                                            BuiltInfoV {
                                                pkg_version,
                                                pkg_version_major,
                                                pkg_version_minor,
                                                pkg_version_patch,
                                                pkg_version_pre,
                                                target,
                                                host,
                                                profile,
                                            },
                                            s8,
                                        ),
                                    ),
                                    None => None,
                                },
                                None => None,
                            },
                            None => None,
                        },
                        None => None,
                    },
                    None => None,
                },
                None => None,
            },
            None => None,
        },
        None => None,
    }
}

pub proof fn lemma_built_info_round_trip(b: BuiltInfoV, rest: Seq<u8>)
    requires
        built_info_wf(b),
    ensures
        read_built_info(encode_built_info(b) + rest) == Some((b, rest)),
{
    let e1 = encode_string(b.pkg_version);
    let e2 = encode_string(b.pkg_version_major);
    let e3 = encode_string(b.pkg_version_minor);
    let e4 = encode_string(b.pkg_version_patch);
    let e5 = encode_string(b.pkg_version_pre);
    let e6 = encode_string(b.target);
    let e7 = encode_string(b.host);
    let e8 = encode_string(b.profile);
    let t8 = rest;
    let t7 = e8 + t8;
    let t6 = e7 + t7;
    let t5 = e6 + t6;
    let t4 = e5 + t5;
    let t3 = e4 + t4;
    let t2 = e3 + t3;
    let t1 = e2 + t2;
    assert(encode_built_info(b) + rest =~= e1 + t1);
    lemma_string_round_trip(b.pkg_version, t1);
    lemma_string_round_trip(b.pkg_version_major, t2);
    lemma_string_round_trip(b.pkg_version_minor, t3);
    lemma_string_round_trip(b.pkg_version_patch, t4);
    lemma_string_round_trip(b.pkg_version_pre, t5);
    lemma_string_round_trip(b.target, t6);
    lemma_string_round_trip(b.host, t7);
    lemma_string_round_trip(b.profile, t8);
    assert(read_built_info(e1 + t1) == Some((b, rest)));
}

fn push_built_info(out: &mut Vec<u8>, b: &BuiltInfo)
    ensures
        final(out)@ == old(out)@ + encode_built_info(b@),
{
    push_string(out, &b.pkg_version);
    push_string(out, &b.pkg_version_major);
    push_string(out, &b.pkg_version_minor);
    push_string(out, &b.pkg_version_patch);
    push_string(out, &b.pkg_version_pre);
    push_string(out, &b.target);
    push_string(out, &b.host);
    push_string(out, &b.profile);
    proof {
        assert(out@ =~= old(out)@ + encode_built_info(b@));
    }
}

fn decode_built_info(buf: &[u8], pos: usize) -> (r: Result<(BuiltInfo, usize), DecodeError>)
    requires
        pos <= buf@.len(),
    ensures
        match r {
            Ok((b, next)) => pos <= next <= buf@.len() && read_built_info(buf@.skip(pos as int))
                == Some((b@, buf@.skip(next as int))),
            Err(_) => read_built_info(buf@.skip(pos as int)) is None,
        },
{
    let (pkg_version, p1) = decode_string(buf, pos)?;
    let (pkg_version_major, p2) = decode_string(buf, p1)?;
    let (pkg_version_minor, p3) = decode_string(buf, p2)?;
    let (pkg_version_patch, p4) = decode_string(buf, p3)?;
    let (pkg_version_pre, p5) = decode_string(buf, p4)?;
    let (target, p6) = decode_string(buf, p5)?;
    let (host, p7) = decode_string(buf, p6)?;
    let (profile, p8) = decode_string(buf, p7)?;
    let b = BuiltInfo {
        pkg_version,
        pkg_version_major,
        pkg_version_minor,
        pkg_version_patch,
        pkg_version_pre,
        target,
        host,
        profile,
    };
    proof {
        assert(read_built_info(buf@.skip(pos as int)) matches Some((bv, tail)) && bv =~= b@ && tail
            == buf@.skip(p8 as int));
    }
    Ok((b, p8))
}

// ---------------------------------------------------------------------------
// Device metadata
// ---------------------------------------------------------------------------

/// Device metadata as its four strings in declaration order.
pub open spec fn encode_device_info(d: DeviceInfoV) -> Seq<u8> {
    encode_string(d.name) + encode_string(d.os) + encode_string(d.os_version) + encode_string(
        d.uptime,
    )
}

/// Device metadata taken off the front of a byte stream.
pub open spec fn read_device_info(s: Seq<u8>) -> Option<(DeviceInfoV, Seq<u8>)> {
    match read_string(s) {
        Some((name, s1)) => match read_string(s1) {
            Some((os, s2)) => match read_string(s2) {
                Some((os_version, s3)) => match read_string(s3) {
                    Some((uptime, s4)) => Some((DeviceInfoV { name, os, os_version, uptime }, s4)),
                    None => None,
                },
                None => None,
            },
            None => None,
        },
        None => None,
    }
}

pub proof fn lemma_device_info_round_trip(d: DeviceInfoV, rest: Seq<u8>)
    requires
        device_info_wf(d),
    ensures
        read_device_info(encode_device_info(d) + rest) == Some((d, rest)),
{
    let e1 = encode_string(d.name);
    let e2 = encode_string(d.os);
    let e3 = encode_string(d.os_version);
    let e4 = encode_string(d.uptime);
    let t4 = rest;
    let t3 = e4 + t4;
    let t2 = e3 + t3;
    let t1 = e2 + t2;
    assert(encode_device_info(d) + rest =~= e1 + t1);
    lemma_string_round_trip(d.name, t1);
    lemma_string_round_trip(d.os, t2);
    lemma_string_round_trip(d.os_version, t3);
    lemma_string_round_trip(d.uptime, t4);
    assert(read_device_info(e1 + t1) == Some((d, rest)));
}

fn push_device_info(out: &mut Vec<u8>, d: &DeviceInfo)
    ensures
        final(out)@ == old(out)@ + encode_device_info(d@),
{
    push_string(out, &d.name);
    push_string(out, &d.os);
    push_string(out, &d.os_version);
    push_string(out, &d.uptime);
    proof {
        assert(out@ =~= old(out)@ + encode_device_info(d@));
    }
}

fn decode_device_info(buf: &[u8], pos: usize) -> (r: Result<(DeviceInfo, usize), DecodeError>)
    requires
        pos <= buf@.len(),
    ensures
        match r {
            Ok((d, next)) => pos <= next <= buf@.len() && read_device_info(buf@.skip(pos as int))
                == Some((d@, buf@.skip(next as int))),
            Err(_) => read_device_info(buf@.skip(pos as int)) is None,
        },
{
    let (name, p1) = decode_string(buf, pos)?;
    let (os, p2) = decode_string(buf, p1)?;
    let (os_version, p3) = decode_string(buf, p2)?;
    let (uptime, p4) = decode_string(buf, p3)?;
    let d = DeviceInfo { name, os, os_version, uptime };
    proof {
        assert(read_device_info(buf@.skip(pos as int)) matches Some((dv, tail)) && dv =~= d@
            && tail == buf@.skip(p4 as int));
    }
    Ok((d, p4))
}

// ---------------------------------------------------------------------------
// Introductions
// ---------------------------------------------------------------------------

/// An introduction as the device's name followed by its build metadata.
pub open spec fn encode_client_introduction(i: ClientIntroductionV) -> Seq<u8> {
    encode_string(i.name) + encode_built_info(i.pdtcore_built_info)
}

/// An introduction taken off the front of a byte stream.
pub open spec fn read_client_introduction(s: Seq<u8>) -> Option<(ClientIntroductionV, Seq<u8>)> {
    match read_string(s) {
        Some((name, s1)) => match read_built_info(s1) {
            Some((pdtcore_built_info, s2)) => Some(
                (ClientIntroductionV { name, pdtcore_built_info }, s2),
            ),
            None => None,
        },
        None => None,
    }
}

pub proof fn lemma_client_introduction_round_trip(i: ClientIntroductionV, rest: Seq<u8>)
    requires
        client_introduction_wf(i),
    ensures
        read_client_introduction(encode_client_introduction(i) + rest) == Some((i, rest)),
{
    let e1 = encode_string(i.name);
    let t1 = encode_built_info(i.pdtcore_built_info) + rest;
    assert(encode_client_introduction(i) + rest =~= e1 + t1);
    lemma_string_round_trip(i.name, t1);
    lemma_built_info_round_trip(i.pdtcore_built_info, rest);
    assert(read_client_introduction(e1 + t1) == Some((i, rest)));
}

fn push_client_introduction(out: &mut Vec<u8>, i: &ClientIntroduction)
    ensures
        final(out)@ == old(out)@ + encode_client_introduction(i@),
{
    push_string(out, &i.name);
    push_built_info(out, &i.pdtcore_built_info);
    proof {
        assert(out@ =~= old(out)@ + encode_client_introduction(i@));
    }
}

fn decode_client_introduction(buf: &[u8], pos: usize) -> (r: Result<
    (ClientIntroduction, usize),
    DecodeError,
>)
    requires
        pos <= buf@.len(),
    ensures
        match r {
            Ok((i, next)) => pos <= next <= buf@.len() && read_client_introduction(
                buf@.skip(pos as int),
            ) == Some((i@, buf@.skip(next as int))),
            Err(_) => read_client_introduction(buf@.skip(pos as int)) is None,
        },
{
    let (name, p1) = decode_string(buf, pos)?;
    let (pdtcore_built_info, p2) = decode_built_info(buf, p1)?;
    let i = ClientIntroduction { name, pdtcore_built_info };
    proof {
        assert(read_client_introduction(buf@.skip(pos as int)) matches Some((iv, tail)) && iv
            =~= i@ && tail == buf@.skip(p2 as int));
    }
    Ok((i, p2))
}

// ---------------------------------------------------------------------------
// Server-bound messages
// ---------------------------------------------------------------------------

/// The variant tag of a server-bound message.
pub open spec fn server_message_tag(m: ServerMessageV) -> u8 {
    match m {
        ServerMessageV::Hello(_) => 0u8,
        ServerMessageV::DeviceInfo(_) => 1u8,
        ServerMessageV::Goodbye => 2u8,
    }
}

/// A server-bound message as its tag byte followed by its payload.
pub open spec fn encode_server_message(m: ServerMessageV) -> Seq<u8> {
    match m {
        ServerMessageV::Hello(intro) => seq![0u8] + encode_client_introduction(intro),
        ServerMessageV::DeviceInfo(info) => seq![1u8] + encode_device_info(info),
        ServerMessageV::Goodbye => seq![2u8],
    }
}

/// One server-bound message taken off the front of a byte stream.
pub open spec fn read_server_message(s: Seq<u8>) -> Option<(ServerMessageV, Seq<u8>)> {
    if s.len() < 1 {
        None
    } else {
        let rest = s.skip(1);
        if s[0] == 0 {
            match read_client_introduction(rest) {
                Some((intro, tail)) => Some((ServerMessageV::Hello(intro), tail)),
                None => None,
            }
        } else if s[0] == 1 {
            match read_device_info(rest) {
                Some((info, tail)) => Some((ServerMessageV::DeviceInfo(info), tail)),
                None => None,
            }
        } else if s[0] == 2 {
            Some((ServerMessageV::Goodbye, rest))
        } else {
            None
        }
    }
}

#[verifier::rlimit(50)]
pub proof fn lemma_server_message_round_trip(m: ServerMessageV, rest: Seq<u8>)
    requires
        server_message_wf(m),
    ensures
        read_server_message(encode_server_message(m) + rest) == Some((m, rest)),
{
    let bytes = encode_server_message(m) + rest;
    assert(bytes[0] == server_message_tag(m));
    match m {
        ServerMessageV::Hello(intro) => {
            assert(bytes.skip(1) =~= encode_client_introduction(intro) + rest);
            lemma_client_introduction_round_trip(intro, rest);
            assert(read_client_introduction(bytes.skip(1)) == Some((intro, rest)));
        },
        ServerMessageV::DeviceInfo(info) => {
            assert(bytes.skip(1) =~= encode_device_info(info) + rest);
            lemma_device_info_round_trip(info, rest);
            assert(read_device_info(bytes.skip(1)) == Some((info, rest)));
        },
        ServerMessageV::Goodbye => {
            assert(bytes.skip(1) =~= rest);
        },
    }
}

fn push_server_message(out: &mut Vec<u8>, m: &ServerMessage)
    ensures
        final(out)@ == old(out)@ + encode_server_message(m@),
{
    match m {
        ServerMessage::Hello(intro) => {
            out.push(0u8);
            push_client_introduction(out, intro);
        },
        ServerMessage::DeviceInfo(info) => {
            out.push(1u8);
            push_device_info(out, info);
        },
        ServerMessage::Goodbye => {
            out.push(2u8);
        },
    }
    proof {
        assert(out@ =~= old(out)@ + encode_server_message(m@));
    }
}

fn decode_server_message(buf: &[u8], pos: usize) -> (r: Result<(ServerMessage, usize), DecodeError>)
    requires
        pos <= buf@.len(),
    ensures
        match r {
            Ok((m, next)) => pos <= next <= buf@.len() && read_server_message(
                buf@.skip(pos as int),
            ) == Some((m@, buf@.skip(next as int))),
            Err(_) => read_server_message(buf@.skip(pos as int)) is None,
        },
{
    if buf.len() - pos < 1 {
        return Err(DecodeError::UnexpectedEnd);
    }
    let t = buf[pos];
    proof {
        assert(buf@.skip(pos as int)[0] == buf@[pos as int]);
        assert(buf@.skip(pos as int).skip(1) =~= buf@.skip(pos as int + 1));
    }
    match t {
        0 => {
            let (intro, next) = decode_client_introduction(buf, pos + 1)?;
            Ok((ServerMessage::Hello(intro), next))
        },
        1 => {
            let (info, next) = decode_device_info(buf, pos + 1)?;
            Ok((ServerMessage::DeviceInfo(info), next))
        },
        2 => Ok((ServerMessage::Goodbye, pos + 1)),
        _ => Err(DecodeError::InvalidTag),
    }
}

// ---------------------------------------------------------------------------
// The full catalog
// ---------------------------------------------------------------------------

/// A message as a tag byte for its half of the catalog followed by that
/// half's own encoding.
pub open spec fn encode_message(m: MessageV) -> Seq<u8> {
    match m {
        MessageV::Client(cm) => seq![0u8] + encode_client_message(cm),
        MessageV::Server(sm) => seq![1u8] + encode_server_message(sm),
    }
}

/// One whole message taken off the front of a byte stream, together with the
/// bytes it does not consume.
pub open spec fn read_message(s: Seq<u8>) -> Option<(MessageV, Seq<u8>)> {
    if s.len() < 1 {
        None
    } else {
        let rest = s.skip(1);
        if s[0] == 0 {
            match read_client_message(rest) {
                Some((cm, tail)) => Some((MessageV::Client(cm), tail)),
                None => None,
            }
        } else if s[0] == 1 {
            match read_server_message(rest) {
                Some((sm, tail)) => Some((MessageV::Server(sm), tail)),
                None => None,
            }
        } else {
            None
        }
    }
}

/// Round trip: for every constructible message, decoding its encoding yields
/// exactly that message, consumes exactly its bytes, and leaves any trailing
/// bytes untouched.
pub proof fn lemma_message_round_trip(m: MessageV, rest: Seq<u8>)
    requires
        message_wf(m),
    ensures
        read_message(encode_message(m) + rest) == Some((m, rest)),
{
    let bytes = encode_message(m) + rest;
    match m {
        MessageV::Client(cm) => {
            assert(bytes.skip(1) =~= encode_client_message(cm) + rest);
            lemma_client_message_round_trip(cm, rest);
        },
        MessageV::Server(sm) => {
            assert(bytes.skip(1) =~= encode_server_message(sm) + rest);
            lemma_server_message_round_trip(sm, rest);
        },
    }
}

impl Message {
    /// The byte form of this message, exactly [`encode_message`] of its
    /// value.
    pub fn encode(&self) -> (r: Vec<u8>)
        ensures
            r@ == encode_message(self@),
    {
        let mut out: Vec<u8> = Vec::new();
        match self {
            Message::Client(cm) => {
                out.push(0u8);
                push_client_message(&mut out, cm);
            },
            Message::Server(sm) => {
                out.push(1u8);
                push_server_message(&mut out, sm);
            },
        }
        proof {
            assert(out@ =~= encode_message(self@));
        }
        out
    }

    /// Reads exactly one message's worth of bytes from `buf`, starting at
    /// `pos`; returns the message and the position of its first unconsumed
    /// byte. Fails exactly when no message starts at `pos`, so a caller must
    /// treat an error as "this stream produced no further usable messages".
    pub fn decode(buf: &[u8], pos: usize) -> (r: Result<(Message, usize), DecodeError>)
        requires
            pos <= buf@.len(),
        ensures
            match r {
                Ok((m, next)) => pos <= next <= buf@.len() && read_message(buf@.skip(pos as int))
                    == Some((m@, buf@.skip(next as int))),
                Err(_) => read_message(buf@.skip(pos as int)) is None,
            },
    {
        if buf.len() - pos < 1 {
            return Err(DecodeError::UnexpectedEnd);
        }
        let t = buf[pos];
        proof {
            assert(buf@.skip(pos as int)[0] == buf@[pos as int]);
            assert(buf@.skip(pos as int).skip(1) =~= buf@.skip(pos as int + 1));
        }
        match t {
            0 => {
                let (cm, next) = decode_client_message(buf, pos + 1)?;
                Ok((Message::Client(cm), next))
            },
            1 => {
                let (sm, next) = decode_server_message(buf, pos + 1)?;
                Ok((Message::Server(sm), next))
            },
            _ => Err(DecodeError::InvalidTag),
        }
    }
}

} // verus!
