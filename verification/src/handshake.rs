//! The receiver's side of a connection request: whether the presented
//! password is accepted, the session token it hands out, and the frame it
//! answers with.
use vstd::prelude::*;
use crate::wire::{
    accept_frame,
    encode_accept,
    encode_reject,
    reject_frame,
    EncodeError,
    MAX_TOKEN_LEN,
    TOKEN_LEN,
};
use crate::decode::bytes_equal;
use vstd::string::StringSliceAdditionalSpecFns;

verus! {

/// The bytes of the reason a receiver gives when it refuses a password:
/// `"invalid password"`.
pub open spec fn invalid_password_reason() -> Seq<u8> {
    seq![105u8, 110, 118, 97, 108, 105, 100, 32, 112, 97, 115, 115, 119, 111, 114, 100]
}

/// The text of the reason a receiver gives when it refuses a password.
pub open spec fn invalid_password_text() -> Seq<char> {
    seq!['i', 'n', 'v', 'a', 'l', 'i', 'd', ' ', 'p', 'a', 's', 's', 'w', 'o', 'r', 'd']
}

/// The password a receiver expects, as UTF-8 bytes; `None` when it expects
/// none.
pub open spec fn expected_bytes(expected: Option<&str>) -> Option<Seq<u8>> {
    match expected {
        Some(p) => Some(p.spec_bytes()),
        None => None,
    }
}

/// A receiver that expects no password accepts any; one that expects a
/// password accepts exactly the same bytes.
pub open spec fn authorized(expected: Option<Seq<u8>>, presented: Seq<u8>) -> bool {
    match expected {
        Some(p) => p == presented,
        None => true,
    }
}

/// How a receiver answers a HELLO.
#[derive(Debug, PartialEq, Eq)]
pub enum HelloAnswer {
    /// The session is opened under `token`; `frame` is the ACCEPT to send.
    Accept { token: Vec<u8>, frame: Vec<u8> },
    /// The password is refused; `frame` is the REJECT to send.
    Reject { frame: Vec<u8> },
}

/// The reason a receiver gives when it refuses a password.
fn invalid_password() -> (reason: &'static [u8])
    ensures
        reason@ == invalid_password_reason(),
{
    let text: &'static str = "invalid password";
    proof {
        reveal_strlit("invalid password");
        vstd::string::is_ascii_spec_bytes(text);
        assert(vstd::string::is_ascii(text));
        assert(text.spec_bytes() =~= invalid_password_reason());
    }
    text.as_bytes()
}

/// Whether a receiver expecting `expected` accepts the password `presented`.
pub fn authorize(expected: Option<&str>, presented: &[u8]) -> (r: bool)
    ensures
        r == authorized(expected_bytes(expected), presented@),
        expected is None ==> r,
        expected matches Some(q) ==> (r <==> q.spec_bytes() == presented@),
{
    match expected {
        Some(p) => bytes_equal(p.as_bytes(), presented),
        None => true,
    }
}

/// The answer to a HELLO that presents `presented`, the session being
/// opened under `token` if the password is accepted. A refused password is
/// answered with a REJECT giving `"invalid password"`; an accepted one with
/// the ACCEPT for `token`, or `TokenTooLong` when `token` is longer than
/// `MAX_TOKEN_LEN`.
pub fn answer_hello(expected: Option<&str>, presented: &[u8], token: &[u8]) -> (r: Result<
    HelloAnswer,
    EncodeError,
>)
    ensures
        !authorized(expected_bytes(expected), presented@) ==> (r matches Ok(
            HelloAnswer::Reject { frame },
        ) && frame@ == reject_frame(invalid_password_reason())),
        authorized(expected_bytes(expected), presented@) && token@.len() > MAX_TOKEN_LEN ==> r
            == Err::<HelloAnswer, EncodeError>(EncodeError::TokenTooLong),
        authorized(expected_bytes(expected), presented@) && token@.len() <= MAX_TOKEN_LEN ==> (
        r matches Ok(HelloAnswer::Accept { token: t, frame }) && t@ == token@ && frame@
            == accept_frame(token@)),
        expected is None && token@.len() <= MAX_TOKEN_LEN ==> (r matches Ok(
            HelloAnswer::Accept { token: t, frame },
        ) && t@ == token@ && frame@ == accept_frame(token@)),
        expected matches Some(q) ==> (q.spec_bytes() != presented@ <==> r matches Ok(
            HelloAnswer::Reject { .. },
        )),
{
    if !authorize(expected, presented) {
        return Ok(HelloAnswer::Reject { frame: encode_reject(invalid_password()) });
    }
    match encode_accept(token) {
        Ok(frame) => Ok(
            HelloAnswer::Accept { token: vstd::slice::slice_to_vec(token), frame },
        ),
        Err(e) => Err(e),
    }
}

/// Overwrites the bytes of `buf` with bytes from the operating system's
/// random source, by `rand::RngCore::try_fill_bytes` on `rand::rngs::OsRng`
/// (which calls `getrandom::getrandom`); `true` when it succeeded, `false`
/// when the operating system could not supply them. Stated: the length is
/// unchanged either way. Not stated, as it rests on chance and on the
/// operating system: which bytes come out, and whether the call succeeds.
#[verifier::external_body]
fn fill_from_os_rng(buf: &mut Vec<u8>) -> (filled: bool)
    ensures
        final(buf)@.len() == old(buf)@.len(),
{
    rand::RngCore::try_fill_bytes(&mut rand::rngs::OsRng, buf.as_mut_slice()).is_ok()
}

/// A fresh session token: `TOKEN_LEN` bytes from the operating system's
/// random source, or `None` when that source cannot supply them.
pub fn generate_token() -> (token: Option<Vec<u8>>)
    ensures
        token matches Some(t) ==> t@.len() == TOKEN_LEN,
{
    let mut token: Vec<u8> = vec![0u8; TOKEN_LEN];
    if fill_from_os_rng(&mut token) {
        Some(token)
    } else {
        None
    }
}

/// The frame a receiver expecting `expected` answers a HELLO presenting
/// `presented` with, the session being opened under `token` if the password
/// is accepted.
pub open spec fn answer_frame(expected: Option<Seq<u8>>, presented: Seq<u8>, token: Seq<u8>) -> Seq<
    u8,
> {
    if authorized(expected, presented) {
        accept_frame(token)
    } else {
        reject_frame(invalid_password_reason())
    }
}

/// The answer of a receiver expecting `expected` to a HELLO that presents
/// `presented`: an accepted password opens a session under a fresh token of
/// `TOKEN_LEN` random bytes, answered with its ACCEPT; a refused one is
/// answered with the REJECT giving `"invalid password"`. `None` when the
/// password is accepted but the operating system cannot supply a token.
pub fn respond_to_hello(expected: Option<&str>, presented: &[u8]) -> (r: Option<HelloAnswer>)
    ensures
        authorized(expected_bytes(expected), presented@) ==> (r is None || (r matches Some(
            HelloAnswer::Accept { token, frame },
        ) && token@.len() == TOKEN_LEN && frame@ == answer_frame(
            expected_bytes(expected),
            presented@,
            token@,
        ))),
        !authorized(expected_bytes(expected), presented@) ==> (r matches Some(
            HelloAnswer::Reject { frame },
        ) && frame@ == reject_frame(invalid_password_reason())),
        expected is None ==> !(r matches Some(HelloAnswer::Reject { .. })),
        expected matches Some(q) ==> (q.spec_bytes() != presented@ <==> r matches Some(
            HelloAnswer::Reject { .. },
        )),
{
    if !authorize(expected, presented) {
        return Some(HelloAnswer::Reject { frame: encode_reject(invalid_password()) });
    }
    let token = match generate_token() {
        Some(t) => t,
        None => return None,
    };
    match answer_hello(expected, presented, token.as_slice()) {
        Ok(answer) => Some(answer),
        Err(_) => None,
    }
}

} // verus!
