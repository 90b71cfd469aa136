//! Incremental decoding of the frames a peer sends.
//!
//! A decoder is handed the bytes of the current frame received so far. It
//! answers `Incomplete(n)` when the next step needs `n` more bytes, or its
//! verdict on the frame. Starting from no bytes and reading exactly the
//! number asked for each time, a transport reads the header (4 bytes), then
//! each length field, then each field it announces, and never reads past the
//! end of the frame: what follows stays in the stream for the next frame.
use vstd::prelude::*;
use vstd::utf8::{decode_utf8, valid_utf8};
use crate::wire::{
    read_u16,
    read_u32,
    MAGIC_0,
    MAGIC_1,
    MAX_PASSWORD_LEN,
    MAX_PAYLOAD_LEN,
    MAX_TOKEN_LEN,
    TYPE_ACCEPT,
    TYPE_DATA,
    TYPE_HELLO,
    TYPE_REJECT,
    VERSION,
};

verus! {

/// Why a received frame is refused.
#[derive(Clone, Copy, Debug, PartialEq, Eq)]
pub enum DecodeError {
    /// The header does not start with the magic bytes.
    InvalidMagic,
    /// The header names another protocol version.
    UnsupportedVersion,
    /// A HELLO frame was expected and the header names another type.
    ExpectedHello,
    /// An ACCEPT (or REJECT) frame was expected and the header names another type.
    ExpectedAccept,
    /// A DATA frame was expected and the header names another type.
    ExpectedData,
    /// The announced password is longer than `MAX_PASSWORD_LEN`.
    PasswordTooLong,
    /// The announced token is longer than `MAX_TOKEN_LEN`.
    TokenTooLong,
    /// The token of a DATA frame is not the session's token.
    InvalidToken,
    /// The announced payload is longer than `MAX_PAYLOAD_LEN`.
    PayloadTooLarge,
}

/// What a decoder makes of the bytes received so far.
#[derive(Debug, PartialEq, Eq)]
pub enum Decoded {
    /// The next step needs this many more bytes.
    Incomplete(usize),
    /// The frame is complete and valid; this is its content (the password
    /// of a HELLO, the token of an ACCEPT, the payload of a DATA frame).
    Complete(Vec<u8>),
    /// The frame is a complete REJECT; this is its reason as text, each
    /// invalid UTF-8 sequence replaced by U+FFFD.
    Rejected(String),
    /// The frame is refused.
    Invalid(DecodeError),
}

/// The mathematical counterpart of [`Decoded`].
pub enum Outcome {
    Incomplete(nat),
    Complete(Seq<u8>),
    Rejected(Seq<char>),
    Invalid(DecodeError),
}

impl View for Decoded {
    type V = Outcome;

    open spec fn view(&self) -> Outcome {
        match self {
            Decoded::Incomplete(n) => Outcome::Incomplete(*n as nat),
            Decoded::Complete(v) => Outcome::Complete(v@),
            Decoded::Rejected(t) => Outcome::Rejected(t@),
            Decoded::Invalid(e) => Outcome::Invalid(*e),
        }
    }
}

/// The text that `bytes` hold, as `String::from_utf8_lossy` reads it: each
/// invalid UTF-8 sequence replaced by U+FFFD.
pub uninterp spec fn lossy_text(bytes: Seq<u8>) -> Seq<char>;

/// The text of `bytes`, by `String::from_utf8_lossy` (then owned); that is
/// `reason_text_of(bytes)`. Stated:
/// the result is `lossy_text` of the bytes, and bytes that are valid UTF-8
/// come back as the characters they encode, as std documents. Not stated:
/// which replacement the invalid sequences get, which takes the UTF-8
/// decoding algorithm to describe.
#[verifier::external_body]
fn reason_text(bytes: &[u8]) -> (text: String)
    ensures
        text@ == lossy_text(bytes@),
        valid_utf8(bytes@) ==> text@ == decode_utf8(bytes@),
{
    String::from_utf8_lossy(bytes).into_owned()
}

/// The text a REJECT reason is read back as: the characters its bytes
/// encode when they are valid UTF-8, else `lossy_text` of them.
pub open spec fn reason_text_of(bytes: Seq<u8>) -> Seq<char> {
    if valid_utf8(bytes) {
        decode_utf8(bytes)
    } else {
        lossy_text(bytes)
    }
}

/// The verdict on a header whose four bytes are there: `None` when it is
/// well formed and names `kind`, else the first fault found.
pub open spec fn header_fault(s: Seq<u8>, kind: u8, wrong_kind: DecodeError) -> Option<
    DecodeError,
> {
    if s[0] != MAGIC_0 || s[1] != MAGIC_1 {
        Some(DecodeError::InvalidMagic)
    } else if s[2] != VERSION {
        Some(DecodeError::UnsupportedVersion)
    } else if s[3] != kind {
        Some(wrong_kind)
    } else {
        None
    }
}

/// How many bytes are missing for `s` to reach `len`.
pub open spec fn missing(s: Seq<u8>, len: int) -> Outcome {
    Outcome::Incomplete((len - s.len()) as nat)
}

/// The verdict on a HELLO frame of which `s` has been received.
pub open spec fn spec_decode_hello(s: Seq<u8>) -> Outcome {
    if s.len() < 4 {
        missing(s, 4)
    } else if header_fault(s, TYPE_HELLO, DecodeError::ExpectedHello) is Some {
        Outcome::Invalid(header_fault(s, TYPE_HELLO, DecodeError::ExpectedHello)->0)
    } else if s.len() < 6 {
        missing(s, 6)
    } else if read_u16(s, 4) > MAX_PASSWORD_LEN {
        Outcome::Invalid(DecodeError::PasswordTooLong)
    } else if s.len() < 6 + read_u16(s, 4) {
        missing(s, 6 + read_u16(s, 4))
    } else {
        Outcome::Complete(s.subrange(6, 6 + read_u16(s, 4)))
    }
}

/// The verdict on an answer to a HELLO (an ACCEPT or a REJECT) of which `s`
/// has been received. A REJECT is looked for before an ACCEPT. A reason may
/// be as long as `MAX_PAYLOAD_LEN`, so no length a u16 field announces is
/// refused.
pub open spec fn spec_decode_accept(s: Seq<u8>) -> Outcome {
    if s.len() < 4 {
        missing(s, 4)
    } else if header_fault(s, s[3], DecodeError::ExpectedAccept) is Some {
        Outcome::Invalid(header_fault(s, s[3], DecodeError::ExpectedAccept)->0)
    } else if s[3] == TYPE_REJECT {
        if s.len() < 6 {
            missing(s, 6)
        } else if s.len() < 6 + read_u16(s, 4) {
            missing(s, 6 + read_u16(s, 4))
        } else {
            Outcome::Rejected(reason_text_of(s.subrange(6, 6 + read_u16(s, 4))))
        }
    } else if s[3] != TYPE_ACCEPT {
        Outcome::Invalid(DecodeError::ExpectedAccept)
    } else if s.len() < 6 {
        missing(s, 6)
    } else if read_u16(s, 4) > MAX_TOKEN_LEN {
        Outcome::Invalid(DecodeError::TokenTooLong)
    } else if s.len() < 6 + read_u16(s, 4) {
        missing(s, 6 + read_u16(s, 4))
    } else {
        Outcome::Complete(s.subrange(6, 6 + read_u16(s, 4)))
    }
}

/// The verdict on a DATA frame of which `s` has been received, in a session
/// whose token is `token`.
pub open spec fn spec_decode_data(token: Seq<u8>, s: Seq<u8>) -> Outcome {
    if s.len() < 4 {
        missing(s, 4)
    } else if header_fault(s, TYPE_DATA, DecodeError::ExpectedData) is Some {
        Outcome::Invalid(header_fault(s, TYPE_DATA, DecodeError::ExpectedData)->0)
    } else if s.len() < 6 {
        missing(s, 6)
    } else if read_u16(s, 4) > MAX_TOKEN_LEN {
        Outcome::Invalid(DecodeError::TokenTooLong)
    } else if s.len() < 6 + read_u16(s, 4) {
        missing(s, 6 + read_u16(s, 4))
    } else if s.subrange(6, 6 + read_u16(s, 4)) != token {
        Outcome::Invalid(DecodeError::InvalidToken)
    } else if s.len() < 10 + read_u16(s, 4) {
        missing(s, 10 + read_u16(s, 4))
    } else if read_u32(s, 6 + read_u16(s, 4)) > MAX_PAYLOAD_LEN {
        Outcome::Invalid(DecodeError::PayloadTooLarge)
    } else if s.len() < 10 + read_u16(s, 4) + read_u32(s, 6 + read_u16(s, 4)) {
        missing(s, 10 + read_u16(s, 4) + read_u32(s, 6 + read_u16(s, 4)))
    } else {
        Outcome::Complete(
            s.subrange(
                10 + read_u16(s, 4),
                10 + read_u16(s, 4) + read_u32(s, 6 + read_u16(s, 4)),
            ),
        )
    }
}

/// The big-endian u16 at `s[at]`.
fn u16_at(s: &[u8], at: usize) -> (v: usize)
    requires
        at + 2 <= s@.len(),
    ensures
        v == read_u16(s@, at as int),
        v < 0x1_0000,
{
    (s[at] as usize) * 256 + (s[at + 1] as usize)
}

/// The big-endian u32 at `s[at]`.
fn u32_at(s: &[u8], at: usize) -> (v: u32)
    requires
        at + 4 <= s@.len(),
    ensures
        v == read_u32(s@, at as int),
{
    (s[at] as u32) * 0x100_0000 + (s[at + 1] as u32) * 0x1_0000 + (s[at + 2] as u32) * 256 + (
    s[at + 3] as u32)
}

/// The first fault of the four header bytes of `s`, as `header_fault`.
fn check_header(s: &[u8], kind: u8, wrong_kind: DecodeError) -> (r: Option<DecodeError>)
    requires
        s@.len() >= 4,
    ensures
        r == header_fault(s@, kind, wrong_kind),
{
    if s[0] != MAGIC_0 || s[1] != MAGIC_1 {
        Some(DecodeError::InvalidMagic)
    } else if s[2] != VERSION {
        Some(DecodeError::UnsupportedVersion)
    } else if s[3] != kind {
        Some(wrong_kind)
    } else {
        None
    }
}

/// A copy of `s[from..to]`.
fn copy_range(s: &[u8], from: usize, to: usize) -> (v: Vec<u8>)
    requires
        from <= to <= s@.len(),
    ensures
        v@ == s@.subrange(from as int, to as int),
{
    vstd::slice::slice_to_vec(vstd::slice::slice_subrange(s, from, to))
}

/// Whether `a` and `b` hold the same bytes.
pub fn bytes_equal(a: &[u8], b: &[u8]) -> (r: bool)
    ensures
        r == (a@ == b@),
{
    if a.len() != b.len() {
        return false;
    }
    let mut i: usize = 0;
    while i < a.len()
        invariant
            i <= a@.len(),
            a@.len() == b@.len(),
            forall|j: int| 0 <= j < i ==> a@[j] == b@[j],
        decreases a@.len() - i,
    {
        if a[i] != b[i] {
            return false;
        }
        i = i + 1;
    }
    assert(a@ =~= b@);
    true
}

/// Decodes a HELLO frame of which `s` has been received: its password once
/// complete.
pub fn decode_hello(s: &[u8]) -> (r: Decoded)
    ensures
        r@ == spec_decode_hello(s@),
{
    if s.len() < 4 {
        return Decoded::Incomplete(4 - s.len());
    }
    if let Some(e) = check_header(s, TYPE_HELLO, DecodeError::ExpectedHello) {
        return Decoded::Invalid(e);
    }
    if s.len() < 6 {
        return Decoded::Incomplete(6 - s.len());
    }
    let len = u16_at(s, 4);
    if len > MAX_PASSWORD_LEN {
        return Decoded::Invalid(DecodeError::PasswordTooLong);
    }
    if s.len() < 6 + len {
        return Decoded::Incomplete(6 + len - s.len());
    }
    Decoded::Complete(copy_range(s, 6, 6 + len))
}

/// Decodes the answer to a HELLO of which `s` has been received: the token
/// of a complete ACCEPT, or the reason of a complete REJECT.
pub fn decode_accept(s: &[u8]) -> (r: Decoded)
    ensures
        r@ == spec_decode_accept(s@),
{
    if s.len() < 4 {
        return Decoded::Incomplete(4 - s.len());
    }
    if let Some(e) = check_header(s, s[3], DecodeError::ExpectedAccept) {
        return Decoded::Invalid(e);
    }
    if s[3] == TYPE_REJECT {
        if s.len() < 6 {
            return Decoded::Incomplete(6 - s.len());
        }
        let len = u16_at(s, 4);
        if s.len() < 6 + len {
            return Decoded::Incomplete(6 + len - s.len());
        }
        return Decoded::Rejected(reason_text(vstd::slice::slice_subrange(s, 6, 6 + len)));
    }
    if s[3] != TYPE_ACCEPT {
        return Decoded::Invalid(DecodeError::ExpectedAccept);
    }
    if s.len() < 6 {
        return Decoded::Incomplete(6 - s.len());
    }
    let len = u16_at(s, 4);
    if len > MAX_TOKEN_LEN {
        return Decoded::Invalid(DecodeError::TokenTooLong);
    }
    if s.len() < 6 + len {
        return Decoded::Incomplete(6 + len - s.len());
    }
    Decoded::Complete(copy_range(s, 6, 6 + len))
}

/// Decodes a DATA frame of which `s` has been received, in a session whose
/// token is `token`: its payload once complete.
pub fn decode_data(token: &[u8], s: &[u8]) -> (r: Decoded)
    ensures
        r@ == spec_decode_data(token@, s@),
{
    if s.len() < 4 {
        return Decoded::Incomplete(4 - s.len());
    }
    if let Some(e) = check_header(s, TYPE_DATA, DecodeError::ExpectedData) {
        return Decoded::Invalid(e);
    }
    if s.len() < 6 {
        return Decoded::Incomplete(6 - s.len());
    }
    let token_len = u16_at(s, 4);
    if token_len > MAX_TOKEN_LEN {
        return Decoded::Invalid(DecodeError::TokenTooLong);
    }
    if s.len() < 6 + token_len {
        return Decoded::Incomplete(6 + token_len - s.len());
    }
    if !bytes_equal(vstd::slice::slice_subrange(s, 6, 6 + token_len), token) {
        return Decoded::Invalid(DecodeError::InvalidToken);
    }
    if s.len() < 10 + token_len {
        return Decoded::Incomplete(10 + token_len - s.len());
    }
    let len = u32_at(s, 6 + token_len);
    if len as usize > MAX_PAYLOAD_LEN {
        return Decoded::Invalid(DecodeError::PayloadTooLarge);
    }
    let end = 10 + token_len + len as usize;
    if s.len() < end {
        return Decoded::Incomplete(end - s.len());
    }
    Decoded::Complete(copy_range(s, 10 + token_len, end))
}

} // verus!
