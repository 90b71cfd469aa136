//! The wire format: every frame starts with a four-byte header (the magic
//! `NV`, the protocol version, the frame type); integers are big-endian.
//!
//! | frame  | after the header                                              |
//! |--------|---------------------------------------------------------------|
//! | HELLO  | password length (u16), password                               |
//! | ACCEPT | token length (u16), token                                     |
//! | REJECT | reason length (u16), reason                                   |
//! | DATA   | token length (u16), token, payload length (u32), payload      |
use vstd::prelude::*;

verus! {

/// First byte of every frame header (`'N'`).
pub const MAGIC_0: u8 = 0x4e;

/// Second byte of every frame header (`'V'`).
pub const MAGIC_1: u8 = 0x56;

/// The protocol version written in, and expected from, every header.
pub const VERSION: u8 = 1;

/// Frame type of a connection request carrying the password.
pub const TYPE_HELLO: u8 = 1;

/// Frame type of a positive answer carrying the session token.
pub const TYPE_ACCEPT: u8 = 2;

/// Frame type of a negative answer carrying a reason.
pub const TYPE_REJECT: u8 = 3;

/// Frame type of a message carrying the session token and a payload.
pub const TYPE_DATA: u8 = 4;

/// Longest password a HELLO frame may carry.
pub const MAX_PASSWORD_LEN: usize = 1024;

/// Longest token an ACCEPT or DATA frame may carry.
pub const MAX_TOKEN_LEN: usize = 64;

/// Length of the tokens a receiver hands out.
pub const TOKEN_LEN: usize = 32;

/// Largest payload a DATA frame may carry.
pub const MAX_PAYLOAD_LEN: usize = 8 * 1024 * 1024;

/// Why a frame could not be built.
#[derive(Clone, Copy, Debug, PartialEq, Eq)]
pub enum EncodeError {
    /// The password is longer than `MAX_PASSWORD_LEN`.
    PasswordTooLong,
    /// The token is longer than `MAX_TOKEN_LEN`.
    TokenTooLong,
    /// The payload is longer than `MAX_PAYLOAD_LEN`.
    PayloadTooLarge,
}

/// The four header bytes of a frame of type `kind`.
pub open spec fn header(kind: u8) -> Seq<u8> {
    seq![MAGIC_0, MAGIC_1, VERSION, kind]
}

/// `v` as two big-endian bytes (`v` below 2^16).
pub open spec fn be_u16(v: nat) -> Seq<u8> {
    seq![(v / 256) as u8, (v % 256) as u8]
}

/// `v` as four big-endian bytes (`v` below 2^32).
pub open spec fn be_u32(v: nat) -> Seq<u8> {
    seq![
        (v / 0x100_0000) as u8,
        ((v / 0x1_0000) % 256) as u8,
        ((v / 256) % 256) as u8,
        (v % 256) as u8,
    ]
}

/// The big-endian u16 stored at `s[at]`, `s[at + 1]`.
pub open spec fn read_u16(s: Seq<u8>, at: int) -> int {
    (s[at] as int) * 256 + (s[at + 1] as int)
}

/// The big-endian u32 stored at `s[at] .. s[at + 3]`.
pub open spec fn read_u32(s: Seq<u8>, at: int) -> int {
    (s[at] as int) * 0x100_0000 + (s[at + 1] as int) * 0x1_0000 + (s[at + 2] as int) * 256 + (
    s[at + 3] as int)
}

/// The HELLO frame that presents `password`.
pub open spec fn hello_frame(password: Seq<u8>) -> Seq<u8> {
    header(TYPE_HELLO) + be_u16(password.len()) + password
}

/// The ACCEPT frame that hands out `token`.
pub open spec fn accept_frame(token: Seq<u8>) -> Seq<u8> {
    header(TYPE_ACCEPT) + be_u16(token.len()) + token
}

/// The REJECT frame that gives `reason`; the length field keeps the low
/// sixteen bits of the reason's length.
pub open spec fn reject_frame(reason: Seq<u8>) -> Seq<u8> {
    header(TYPE_REJECT) + be_u16(reason.len() % 0x1_0000) + reason
}

/// The DATA frame that carries `payload` under `token`.
pub open spec fn data_frame(token: Seq<u8>, payload: Seq<u8>) -> Seq<u8> {
    header(TYPE_DATA) + be_u16(token.len()) + token + be_u32(payload.len()) + payload
}

/// Appends the header of a frame of type `kind`.
fn push_header(out: &mut Vec<u8>, kind: u8)
    ensures
        final(out)@ == old(out)@ + header(kind),
{
    out.push(MAGIC_0);
    out.push(MAGIC_1);
    out.push(VERSION);
    out.push(kind);
}

/// Appends `v` as two big-endian bytes.
fn push_u16(out: &mut Vec<u8>, v: u16)
    ensures
        final(out)@ == old(out)@ + be_u16(v as nat),
{
    out.push((v / 256) as u8);
    out.push((v % 256) as u8);
}

/// Appends `v` as four big-endian bytes.
fn push_u32(out: &mut Vec<u8>, v: u32)
    ensures
        final(out)@ == old(out)@ + be_u32(v as nat),
{
    out.push((v / 0x100_0000) as u8);
    out.push(((v / 0x1_0000) % 256) as u8);
    out.push(((v / 256) % 256) as u8);
    out.push((v % 256) as u8);
}

/// Appends `bytes`.
pub fn push_bytes(out: &mut Vec<u8>, bytes: &[u8])
    ensures
        final(out)@ == old(out)@ + bytes@,
{
    let mut i: usize = 0;
    while i < bytes.len()
        invariant
            i <= bytes@.len(),
            out@ == old(out)@ + bytes@.subrange(0, i as int),
        decreases bytes@.len() - i,
    {
        out.push(bytes[i]);
        i = i + 1;
        assert(bytes@.subrange(0, i as int) == bytes@.subrange(0, i - 1 as int).push(bytes@[i - 1]));
    }
    assert(bytes@.subrange(0, i as int) == bytes@);
}

/// The HELLO frame for `password`, or `PasswordTooLong` when the password
/// is longer than `MAX_PASSWORD_LEN`.
pub fn encode_hello(password: &[u8]) -> (r: Result<Vec<u8>, EncodeError>)
    ensures
        match r {
            Ok(frame) => password@.len() <= MAX_PASSWORD_LEN && frame@ == hello_frame(password@),
            Err(e) => password@.len() > MAX_PASSWORD_LEN && e == EncodeError::PasswordTooLong,
        },
{
    if password.len() > MAX_PASSWORD_LEN {
        return Err(EncodeError::PasswordTooLong);
    }
    let mut out: Vec<u8> = Vec::new();
    push_header(&mut out, TYPE_HELLO);
    push_u16(&mut out, password.len() as u16);
    push_bytes(&mut out, password);
    Ok(out)
}

/// The ACCEPT frame for `token`, or `TokenTooLong` when the token is longer
/// than `MAX_TOKEN_LEN`.
pub fn encode_accept(token: &[u8]) -> (r: Result<Vec<u8>, EncodeError>)
    ensures
        match r {
            Ok(frame) => token@.len() <= MAX_TOKEN_LEN && frame@ == accept_frame(token@),
            Err(e) => token@.len() > MAX_TOKEN_LEN && e == EncodeError::TokenTooLong,
        },
{
    if token.len() > MAX_TOKEN_LEN {
        return Err(EncodeError::TokenTooLong);
    }
    let mut out: Vec<u8> = Vec::new();
    push_header(&mut out, TYPE_ACCEPT);
    push_u16(&mut out, token.len() as u16);
    push_bytes(&mut out, token);
    Ok(out)
}

/// The REJECT frame for `reason`. No length is refused: a reason longer than
/// 65535 bytes is written whole behind the low sixteen bits of its length.
pub fn encode_reject(reason: &[u8]) -> (frame: Vec<u8>)
    ensures
        frame@ == reject_frame(reason@),
{
    let mut out: Vec<u8> = Vec::new();
    push_header(&mut out, TYPE_REJECT);
    push_u16(&mut out, (reason.len() % 0x1_0000) as u16);
    push_bytes(&mut out, reason);
    out
}

/// The DATA frame that carries `payload` under `token`; `TokenTooLong` when
/// the token is longer than `MAX_TOKEN_LEN`, else `PayloadTooLarge` when the
/// payload is longer than `MAX_PAYLOAD_LEN`.
pub fn encode_data(token: &[u8], payload: &[u8]) -> (r: Result<Vec<u8>, EncodeError>)
    ensures
        match r {
            Ok(frame) => {
                &&& token@.len() <= MAX_TOKEN_LEN
                &&& payload@.len() <= MAX_PAYLOAD_LEN
                &&& frame@ == data_frame(token@, payload@)
            },
            Err(e) => if token@.len() > MAX_TOKEN_LEN {
                e == EncodeError::TokenTooLong
            } else {
                payload@.len() > MAX_PAYLOAD_LEN && e == EncodeError::PayloadTooLarge
            },
        },
{
    if token.len() > MAX_TOKEN_LEN {
        return Err(EncodeError::TokenTooLong);
    }
    if payload.len() > MAX_PAYLOAD_LEN {
        return Err(EncodeError::PayloadTooLarge);
    }
    let mut out: Vec<u8> = Vec::new();
    push_header(&mut out, TYPE_DATA);
    push_u16(&mut out, token.len() as u16);
    push_bytes(&mut out, token);
    push_u32(&mut out, payload.len() as u32);
    push_bytes(&mut out, payload);
    Ok(out)
}

} // verus!
