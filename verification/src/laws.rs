//! Properties of the protocol as a whole: every frame an encoder builds is
//! read back by its decoder, exactly and no further, and a decoder never
//! gives up on a frame an encoder built before it is complete.
use vstd::prelude::*;
use crate::decode::{
    header_fault,
    reason_text_of,
    spec_decode_accept,
    spec_decode_data,
    spec_decode_hello,
    DecodeError,
    Outcome,
};
use crate::handshake::{answer_frame, authorized, invalid_password_reason, invalid_password_text};
use vstd::utf8::{decode_utf8, encode_utf8, is_ascii_chars};
use crate::wire::{
    accept_frame,
    be_u16,
    be_u32,
    data_frame,
    header,
    hello_frame,
    read_u16,
    read_u32,
    reject_frame,
    MAX_PASSWORD_LEN,
    MAX_PAYLOAD_LEN,
    MAX_TOKEN_LEN,
    TYPE_ACCEPT,
    TYPE_DATA,
    TYPE_HELLO,
    TYPE_REJECT,
};

verus! {

/// Two big-endian bytes read back give the number they were written from.
proof fn lemma_u16_roundtrip(v: nat)
    requires
        v < 0x1_0000,
    ensures
        read_u16(be_u16(v), 0) == v,
{
    assert(v / 256 < 256);
    assert(be_u16(v)[0] == v / 256);
    assert(be_u16(v)[1] == v % 256);
}

/// Four big-endian bytes read back give the number they were written from.
proof fn lemma_u32_roundtrip(v: nat)
    requires
        v < 0x1_0000_0000,
    ensures
        read_u32(be_u32(v), 0) == v,
{
    assert(v / 0x100_0000 < 256);
    assert(be_u32(v)[0] == v / 0x100_0000);
    assert(be_u32(v)[1] == (v / 0x1_0000) % 256);
    assert(be_u32(v)[2] == (v / 256) % 256);
    assert(be_u32(v)[3] == v % 256);
    assert(v == (v / 0x100_0000) * 0x100_0000 + ((v / 0x1_0000) % 256) * 0x1_0000 + ((v / 256)
        % 256) * 256 + v % 256) by (nonlinear_arith)
        requires
            v < 0x1_0000_0000,
    ;
}

/// Facts about a frame made of a header of type `kind`, a u16 length field
/// holding `n`, and then `tail` (the field and what follows it): its header
/// is well formed and its length field reads back as `n`.
proof fn lemma_prefixed_frame(kind: u8, n: nat, tail: Seq<u8>, wrong_kind: DecodeError)
    requires
        n < 0x1_0000,
    ensures
        ({
            let s = header(kind) + be_u16(n) + tail;
            &&& s.len() == 6 + tail.len()
            &&& s[3] == kind
            &&& header_fault(s, kind, wrong_kind) is None
            &&& read_u16(s, 4) == n
            &&& s.subrange(6, s.len() as int) =~= tail
            &&& forall|i: int| 0 <= i < 4 ==> #[trigger] s[i] == header(kind)[i]
        }),
{
    let s = header(kind) + be_u16(n) + tail;
    lemma_u16_roundtrip(n);
    assert(s[4] == be_u16(n)[0]);
    assert(s[5] == be_u16(n)[1]);
    assert(s.subrange(6, s.len() as int) =~= tail);
}

/// A HELLO frame, followed by anything, decodes to the password it carries.
pub proof fn lemma_hello_roundtrip(password: Seq<u8>, rest: Seq<u8>)
    requires
        password.len() <= MAX_PASSWORD_LEN,
    ensures
        spec_decode_hello(hello_frame(password) + rest) == Outcome::Complete(password),
{
    let s = hello_frame(password) + rest;
    lemma_prefixed_frame(TYPE_HELLO, password.len(), password + rest, DecodeError::ExpectedHello);
    assert(s =~= header(TYPE_HELLO) + be_u16(password.len()) + (password + rest));
    assert(s.subrange(6, 6 + password.len() as int) =~= password);
}

/// Every proper prefix of a HELLO frame is seen as incomplete, and what the
/// decoder asks for is the rest of the field being received: the 4 header
/// bytes, then the 2 bytes of the length field, then the password's bytes.
/// So the frame is never refused nor taken as complete before all of it has
/// arrived, and a transport reading what it is asked for reads it whole.
pub proof fn lemma_hello_prefix(password: Seq<u8>, k: int)
    requires
        password.len() <= MAX_PASSWORD_LEN,
        0 <= k < hello_frame(password).len(),
    ensures
        spec_decode_hello(hello_frame(password).take(k)) == Outcome::Incomplete(
            (if k < 4 {
                4 - k
            } else if k < 6 {
                6 - k
            } else {
                6 + password.len() - k
            }) as nat,
        ),
{
    let f = hello_frame(password);
    let s = f.take(k);
    lemma_prefixed_frame(TYPE_HELLO, password.len(), password, DecodeError::ExpectedHello);
    if k >= 4 {
        assert(header_fault(s, TYPE_HELLO, DecodeError::ExpectedHello) == header_fault(
            f,
            TYPE_HELLO,
            DecodeError::ExpectedHello,
        ));
        if k >= 6 {
            assert(read_u16(s, 4) == read_u16(f, 4));
        }
    }
}

/// An ACCEPT frame, followed by anything, decodes to the token it carries.
pub proof fn lemma_accept_roundtrip(token: Seq<u8>, rest: Seq<u8>)
    requires
        token.len() <= MAX_TOKEN_LEN,
    ensures
        spec_decode_accept(accept_frame(token) + rest) == Outcome::Complete(token),
{
    let s = accept_frame(token) + rest;
    lemma_prefixed_frame(TYPE_ACCEPT, token.len(), token + rest, DecodeError::ExpectedAccept);
    assert(s =~= header(TYPE_ACCEPT) + be_u16(token.len()) + (token + rest));
    assert(s.subrange(6, 6 + token.len() as int) =~= token);
}

/// Every proper prefix of an ACCEPT frame is seen as incomplete, and what the
/// decoder asks for is the rest of the field being received: the header,
/// the length field, then the token's bytes.
pub proof fn lemma_accept_prefix(token: Seq<u8>, k: int)
    requires
        token.len() <= MAX_TOKEN_LEN,
        0 <= k < accept_frame(token).len(),
    ensures
        spec_decode_accept(accept_frame(token).take(k)) == Outcome::Incomplete(
            (if k < 4 {
                4 - k
            } else if k < 6 {
                6 - k
            } else {
                6 + token.len() - k
            }) as nat,
        ),
{
    let f = accept_frame(token);
    let s = f.take(k);
    lemma_prefixed_frame(TYPE_ACCEPT, token.len(), token, DecodeError::ExpectedAccept);
    if k >= 4 {
        assert(s[3] == f[3]);
        assert(header_fault(s, s[3], DecodeError::ExpectedAccept) == header_fault(
            f,
            f[3],
            DecodeError::ExpectedAccept,
        ));
        if k >= 6 {
            assert(read_u16(s, 4) == read_u16(f, 4));
        }
    }
}

/// A REJECT frame whose reason fits its length field, followed by anything,
/// decodes to the text of that reason.
pub proof fn lemma_reject_roundtrip(reason: Seq<u8>, rest: Seq<u8>)
    requires
        reason.len() < 0x1_0000,
    ensures
        spec_decode_accept(reject_frame(reason) + rest) == Outcome::Rejected(reason_text_of(reason)),
{
    let s = reject_frame(reason) + rest;
    assert(reason.len() % 0x1_0000 == reason.len());
    lemma_prefixed_frame(TYPE_REJECT, reason.len(), reason + rest, DecodeError::ExpectedAccept);
    assert(s =~= header(TYPE_REJECT) + be_u16(reason.len()) + (reason + rest));
    assert(s.subrange(6, 6 + reason.len() as int) =~= reason);
}

/// Every proper prefix of a REJECT frame whose reason fits its length field
/// is seen as incomplete, and what the decoder asks for is the rest of the
/// field being received: the header, the length field, then the reason's
/// bytes.
pub proof fn lemma_reject_prefix(reason: Seq<u8>, k: int)
    requires
        reason.len() < 0x1_0000,
        0 <= k < reject_frame(reason).len(),
    ensures
        spec_decode_accept(reject_frame(reason).take(k)) == Outcome::Incomplete(
            (if k < 4 {
                4 - k
            } else if k < 6 {
                6 - k
            } else {
                6 + reason.len() - k
            }) as nat,
        ),
{
    let f = reject_frame(reason);
    let s = f.take(k);
    assert(reason.len() % 0x1_0000 == reason.len());
    lemma_prefixed_frame(TYPE_REJECT, reason.len(), reason, DecodeError::ExpectedAccept);
    if k >= 4 {
        assert(s[3] == f[3]);
        assert(header_fault(s, s[3], DecodeError::ExpectedAccept) == header_fault(
            f,
            f[3],
            DecodeError::ExpectedAccept,
        ));
        if k >= 6 {
            assert(read_u16(s, 4) == read_u16(f, 4));
        }
    }
}

/// Facts about the fields of a DATA frame.
proof fn lemma_data_fields(token: Seq<u8>, payload: Seq<u8>, rest: Seq<u8>)
    requires
        token.len() <= MAX_TOKEN_LEN,
        payload.len() <= MAX_PAYLOAD_LEN,
    ensures
        ({
            let s = data_frame(token, payload) + rest;
            let t = token.len() as int;
            &&& s.len() == 10 + t + payload.len() + rest.len()
            &&& header_fault(s, TYPE_DATA, DecodeError::ExpectedData) is None
            &&& read_u16(s, 4) == t
            &&& s.subrange(6, 6 + t) =~= token
            &&& read_u32(s, 6 + t) == payload.len()
            &&& s.subrange(10 + t, 10 + t + payload.len()) =~= payload
        }),
{
    let t = token.len() as int;
    let tail = token + be_u32(payload.len()) + payload + rest;
    let s = data_frame(token, payload) + rest;
    lemma_prefixed_frame(TYPE_DATA, token.len(), tail, DecodeError::ExpectedData);
    assert(s =~= header(TYPE_DATA) + be_u16(token.len()) + tail);
    assert(s.subrange(6, 6 + t) =~= token);
    lemma_u32_roundtrip(payload.len());
    assert(s.subrange(6 + t, 10 + t) =~= be_u32(payload.len()));
    assert(s[6 + t] == be_u32(payload.len())[0]);
    assert(s[7 + t] == be_u32(payload.len())[1]);
    assert(s[8 + t] == be_u32(payload.len())[2]);
    assert(s[9 + t] == be_u32(payload.len())[3]);
    assert(s.subrange(10 + t, 10 + t + payload.len()) =~= payload);
}

/// A DATA frame, followed by anything, decodes in a session with the same
/// token to the payload it carries.
pub proof fn lemma_data_roundtrip(token: Seq<u8>, payload: Seq<u8>, rest: Seq<u8>)
    requires
        token.len() <= MAX_TOKEN_LEN,
        payload.len() <= MAX_PAYLOAD_LEN,
    ensures
        spec_decode_data(token, data_frame(token, payload) + rest) == Outcome::Complete(payload),
{
    lemma_data_fields(token, payload, rest);
}

/// A DATA frame, followed by anything, is refused in a session with another
/// token.
pub proof fn lemma_data_foreign_token(
    token: Seq<u8>,
    session_token: Seq<u8>,
    payload: Seq<u8>,
    rest: Seq<u8>,
)
    requires
        token.len() <= MAX_TOKEN_LEN,
        payload.len() <= MAX_PAYLOAD_LEN,
        token != session_token,
    ensures
        spec_decode_data(session_token, data_frame(token, payload) + rest) == Outcome::Invalid(
            DecodeError::InvalidToken,
        ),
{
    lemma_data_fields(token, payload, rest);
}

/// Every proper prefix of a DATA frame is seen as incomplete in a session
/// with the same token, and what the decoder asks for is the rest of the
/// field being received: the header, the token's length field, the token,
/// the payload's length field, then the payload's bytes.
pub proof fn lemma_data_prefix(token: Seq<u8>, payload: Seq<u8>, k: int)
    requires
        token.len() <= MAX_TOKEN_LEN,
        payload.len() <= MAX_PAYLOAD_LEN,
        0 <= k < data_frame(token, payload).len(),
    ensures
        spec_decode_data(token, data_frame(token, payload).take(k)) == Outcome::Incomplete(
            (if k < 4 {
                4 - k
            } else if k < 6 {
                6 - k
            } else if k < 6 + token.len() {
                6 + token.len() - k
            } else if k < 10 + token.len() {
                10 + token.len() - k
            } else {
                10 + token.len() + payload.len() - k
            }) as nat,
        ),
{
    let f = data_frame(token, payload);
    let s = f.take(k);
    let t = token.len() as int;
    lemma_data_fields(token, payload, Seq::empty());
    assert(f + Seq::<u8>::empty() =~= f);
    if k >= 4 {
        assert(header_fault(s, TYPE_DATA, DecodeError::ExpectedData) == header_fault(
            f,
            TYPE_DATA,
            DecodeError::ExpectedData,
        ));
        if k >= 6 {
            assert(read_u16(s, 4) == read_u16(f, 4));
            if k >= 6 + t {
                assert(s.subrange(6, 6 + t) =~= f.subrange(6, 6 + t));
                if k >= 10 + t {
                    assert(read_u32(s, 6 + t) == read_u32(f, 6 + t));
                }
            }
        }
    }
}

/// The two bytes at `s[at]` are the big-endian form of the number read there.
proof fn lemma_u16_bytes(s: Seq<u8>, at: int)
    requires
        0 <= at,
        at + 2 <= s.len(),
    ensures
        be_u16(read_u16(s, at) as nat) =~= s.subrange(at, at + 2),
        read_u16(s, at) < 0x1_0000,
{
    let n = read_u16(s, at);
    assert(n / 256 == s[at] as int);
    assert(n % 256 == s[at + 1] as int);
}

/// The four bytes at `s[at]` are the big-endian form of the number read there.
proof fn lemma_u32_bytes(s: Seq<u8>, at: int)
    requires
        0 <= at,
        at + 4 <= s.len(),
    ensures
        be_u32(read_u32(s, at) as nat) =~= s.subrange(at, at + 4),
{
    let n = read_u32(s, at);
    let (b0, b1, b2, b3) = (s[at] as int, s[at + 1] as int, s[at + 2] as int, s[at + 3] as int);
    assert(n / 0x100_0000 == b0 && (n / 0x1_0000) % 256 == b1 && (n / 256) % 256 == b2 && n % 256
        == b3) by (nonlinear_arith)
        requires
            n == b0 * 0x100_0000 + b1 * 0x1_0000 + b2 * 256 + b3,
            0 <= b0 < 256,
            0 <= b1 < 256,
            0 <= b2 < 256,
            0 <= b3 < 256,
    ;
}

/// Everything the HELLO decoder completes is an encoder's frame: what was
/// received starts with the HELLO frame of the password read back, and that
/// password is within the limit.
pub proof fn lemma_hello_complete_is_frame(s: Seq<u8>)
    ensures
        spec_decode_hello(s) matches Outcome::Complete(p) ==> p.len() <= MAX_PASSWORD_LEN
            && hello_frame(p).is_prefix_of(s),
{
    if spec_decode_hello(s) is Complete {
        let n = read_u16(s, 4);
        let p = s.subrange(6, 6 + n);
        lemma_u16_bytes(s, 4);
        assert(hello_frame(p) =~= s.subrange(0, 6 + n));
    }
}

/// Everything the answer decoder reads back is an encoder's frame: a token
/// it completes is within the limit and what was received starts with its
/// ACCEPT frame; a reason text it reads back is the text of a reason whose
/// REJECT frame starts what was received.
pub proof fn lemma_accept_complete_is_frame(s: Seq<u8>)
    ensures
        spec_decode_accept(s) matches Outcome::Complete(t) ==> t.len() <= MAX_TOKEN_LEN
            && accept_frame(t).is_prefix_of(s),
        spec_decode_accept(s) matches Outcome::Rejected(text) ==> exists|reason: Seq<u8>|
            reason.len() < 0x1_0000 && text == reason_text_of(reason) && #[trigger] reject_frame(
                reason,
            ).is_prefix_of(s),
{
    if s.len() >= 6 {
        let n = read_u16(s, 4);
        lemma_u16_bytes(s, 4);
        if s.len() >= 6 + n {
            let f = s.subrange(6, 6 + n);
            if spec_decode_accept(s) is Complete {
                assert(accept_frame(f) =~= s.subrange(0, 6 + n));
            }
            if spec_decode_accept(s) is Rejected {
                assert(f.len() % 0x1_0000 == f.len());
                assert(reject_frame(f) =~= s.subrange(0, 6 + n));
                assert(reject_frame(f).is_prefix_of(s));
            }
        }
    }
}

/// Everything the DATA decoder completes in a session is an encoder's frame:
/// what was received starts with the DATA frame of the session's token and
/// the payload read back, both within their limits.
pub proof fn lemma_data_complete_is_frame(token: Seq<u8>, s: Seq<u8>)
    ensures
        spec_decode_data(token, s) matches Outcome::Complete(p) ==> token.len() <= MAX_TOKEN_LEN
            && p.len() <= MAX_PAYLOAD_LEN && data_frame(token, p).is_prefix_of(s),
{
    if spec_decode_data(token, s) is Complete {
        let k = read_u16(s, 4);
        let n = read_u32(s, 6 + k);
        let p = s.subrange(10 + k, 10 + k + n);
        lemma_u16_bytes(s, 4);
        lemma_u32_bytes(s, 6 + k);
        assert(data_frame(token, p) =~= s.subrange(0, 10 + k + n));
    }
}

/// A decoder that cannot decide yet always asks for at least one more byte,
/// whatever it has received: a transport that reads what it is asked for
/// always makes progress.
pub proof fn lemma_decoders_ask_for_bytes(token: Seq<u8>, s: Seq<u8>)
    ensures
        spec_decode_hello(s) matches Outcome::Incomplete(n) ==> n >= 1,
        spec_decode_accept(s) matches Outcome::Incomplete(n) ==> n >= 1,
        spec_decode_data(token, s) matches Outcome::Incomplete(n) ==> n >= 1,
{
}

/// A decoder decides nothing before the bytes it asked for have all
/// arrived: after fewer than the `n` it asked for, it asks for the rest. So
/// reading exactly what it asks for, as a transport does, comes to the same
/// as feeding it byte by byte.
pub proof fn lemma_decoders_wait(token: Seq<u8>, s: Seq<u8>, more: Seq<u8>)
    ensures
        spec_decode_hello(s) matches Outcome::Incomplete(n) ==> (more.len() < n
            ==> spec_decode_hello(s + more) == Outcome::Incomplete((n - more.len()) as nat)),
        spec_decode_accept(s) matches Outcome::Incomplete(n) ==> (more.len() < n
            ==> spec_decode_accept(s + more) == Outcome::Incomplete((n - more.len()) as nat)),
        spec_decode_data(token, s) matches Outcome::Incomplete(n) ==> (more.len() < n
            ==> spec_decode_data(token, s + more) == Outcome::Incomplete(
            (n - more.len()) as nat,
        )),
{
    let t = s + more;
    if s.len() >= 4 {
        assert(t[0] == s[0] && t[1] == s[1] && t[2] == s[2] && t[3] == s[3]);
        if s.len() >= 6 {
            assert(t[4] == s[4] && t[5] == s[5]);
            assert(read_u16(t, 4) == read_u16(s, 4));
            let k = read_u16(s, 4);
            if s.len() >= 6 + k {
                assert(t.subrange(6, 6 + k) =~= s.subrange(6, 6 + k));
                if s.len() >= 10 + k {
                    assert(t[6 + k] == s[6 + k] && t[7 + k] == s[7 + k]);
                    assert(t[8 + k] == s[8 + k] && t[9 + k] == s[9 + k]);
                    assert(read_u32(t, 6 + k) == read_u32(s, 6 + k));
                }
            }
        }
    }
}

/// A header written for any frame type, followed by anything, is read back
/// as well formed and of that type; and a header read as well formed and of
/// a type is exactly the header written for that type.
pub proof fn lemma_header_roundtrip(kind: u8, rest: Seq<u8>, wrong_kind: DecodeError)
    ensures
        (header(kind) + rest).len() >= 4,
        (header(kind) + rest)[3] == kind,
        header_fault(header(kind) + rest, kind, wrong_kind) is None,
        forall|s: Seq<u8>|
            s.len() >= 4 && #[trigger] header_fault(s, kind, wrong_kind) is None ==> header(
                kind,
            ) =~= s.subrange(0, 4),
{
    let s = header(kind) + rest;
    assert(s[0] == header(kind)[0] && s[1] == header(kind)[1]);
    assert(s[2] == header(kind)[2] && s[3] == header(kind)[3]);
}

/// A REJECT whose reason is the UTF-8 encoding of a text, followed by
/// anything, is read back as that same text.
pub proof fn lemma_reject_text_roundtrip(text: Seq<char>, rest: Seq<u8>)
    requires
        encode_utf8(text).len() < 0x1_0000,
    ensures
        spec_decode_accept(reject_frame(encode_utf8(text)) + rest) == Outcome::Rejected(text),
{
    vstd::utf8::encode_utf8_valid_utf8(text);
    vstd::utf8::encode_utf8_decode_utf8(text);
    lemma_reject_roundtrip(encode_utf8(text), rest);
}

/// The reason bytes a receiver refuses with are the UTF-8 encoding of the
/// text `"invalid password"`.
pub proof fn lemma_invalid_password_encoding()
    ensures
        invalid_password_reason() == encode_utf8(invalid_password_text()),
{
    let text = invalid_password_text();
    assert(is_ascii_chars(text));
    vstd::utf8::is_ascii_chars_encode_utf8(text);
    assert(invalid_password_reason() =~= encode_utf8(text));
}

/// A receiver that expects no password accepts every presented password,
/// and answers it with the ACCEPT of the session's token.
pub proof fn lemma_open_receiver_accepts_any(presented: Seq<u8>, token: Seq<u8>)
    ensures
        authorized(None, presented),
        answer_frame(None, presented, token) == accept_frame(token),
{
}

/// A receiver that expects a password accepts exactly that password: it
/// answers the same bytes with the ACCEPT of the session's token and any
/// other bytes with the REJECT giving `"invalid password"`.
pub proof fn lemma_password_receiver(expected: Seq<u8>, presented: Seq<u8>, token: Seq<u8>)
    ensures
        authorized(Some(expected), presented) <==> expected == presented,
        answer_frame(Some(expected), presented, token) == if expected == presented {
            accept_frame(token)
        } else {
            reject_frame(invalid_password_reason())
        },
{
}

/// A receiver that expects a password accepts a sender's password exactly
/// when the two are the same text: their UTF-8 bytes are equal if and only
/// if the characters are.
pub proof fn lemma_password_match(expected: Seq<char>, presented: Seq<char>)
    ensures
        authorized(Some(encode_utf8(expected)), encode_utf8(presented)) <==> expected
            == presented,
{
    vstd::utf8::encode_utf8_decode_utf8(expected);
    vstd::utf8::encode_utf8_decode_utf8(presented);
    if encode_utf8(expected) == encode_utf8(presented) {
        assert(decode_utf8(encode_utf8(expected)) == decode_utf8(encode_utf8(presented)));
    }
}

/// A whole session over one stream in each direction. The receiver reads
/// back the password of the sender's HELLO. The sender reads back the
/// receiver's answer to that password as the token, when the receiver
/// accepts it (it expects none, or that same password), and as the text of
/// the refusal `"invalid password"` otherwise. A DATA frame either peer
/// sends under the token is read back by the other as the payload sent.
/// Whatever follows a frame in the stream (`rest`) is left unread.
pub proof fn lemma_session(
    expected: Option<Seq<u8>>,
    password: Seq<u8>,
    token: Seq<u8>,
    payload: Seq<u8>,
    rest: Seq<u8>,
)
    requires
        password.len() <= MAX_PASSWORD_LEN,
        token.len() <= MAX_TOKEN_LEN,
        payload.len() <= MAX_PAYLOAD_LEN,
    ensures
        spec_decode_hello(hello_frame(password) + rest) == Outcome::Complete(password),
        spec_decode_accept(answer_frame(expected, password, token) + rest) == if authorized(
            expected,
            password,
        ) {
            Outcome::Complete(token)
        } else {
            Outcome::Rejected(invalid_password_text())
        },
        spec_decode_data(token, data_frame(token, payload) + rest) == Outcome::Complete(payload),
{
    assert(spec_decode_hello(hello_frame(password) + rest) == Outcome::Complete(password)) by {
        lemma_hello_roundtrip(password, rest);
    }
    assert(spec_decode_accept(accept_frame(token) + rest) == Outcome::Complete(token)) by {
        lemma_accept_roundtrip(token, rest);
    }
    assert(spec_decode_data(token, data_frame(token, payload) + rest) == Outcome::Complete(
        payload,
    )) by {
        lemma_data_roundtrip(token, payload, rest);
    }
    lemma_refusal_roundtrip(rest);
}

/// The refusal a receiver sends, followed by anything, is read back as the
/// text `"invalid password"`.
pub proof fn lemma_refusal_roundtrip(rest: Seq<u8>)
    ensures
        spec_decode_accept(reject_frame(invalid_password_reason()) + rest) == Outcome::Rejected(
            invalid_password_text(),
        ),
{
    lemma_invalid_password_encoding();
    assert(invalid_password_reason().len() == 16);
    lemma_reject_text_roundtrip(invalid_password_text(), rest);
}

} // verus!
