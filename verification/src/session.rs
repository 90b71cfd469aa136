//! The builders a connection starts from and the state of an open session.
use vstd::prelude::*;
use crate::decode::{decode_data, spec_decode_data, Decoded};
use crate::handshake::{
    answer_frame,
    authorized,
    invalid_password_reason,
    respond_to_hello,
    HelloAnswer,
};
use crate::wire::{
    accept_frame,
    encode_data,
    encode_hello,
    EncodeError,
    data_frame,
    hello_frame,
    reject_frame,
    MAX_PASSWORD_LEN,
    MAX_PAYLOAD_LEN,
    MAX_TOKEN_LEN,
    TOKEN_LEN,
};
use vstd::utf8::encode_utf8;

verus! {

broadcast use vstd::string::to_string_from_display_ensures_for_str;

/// Settings of a receiver (the listening side): the port it listens on and
/// the password it expects, if any.
pub struct ReceiverBuilder {
    pub port: u16,
    pub password: Option<String>,
}

/// Settings of a sender (the connecting side): the receiver's address and
/// port, and the password it presents.
pub struct SenderBuilder {
    pub ip: String,
    pub port: u16,
    pub password: String,
}

/// An open session: the token under which both peers exchange DATA frames.
/// The token is never longer than `MAX_TOKEN_LEN`.
pub struct Sender {
    token: Vec<u8>,
}

impl Sender {
    #[verifier::type_invariant]
    spec fn token_fits(&self) -> bool {
        self.token@.len() <= MAX_TOKEN_LEN
    }
}

impl View for Sender {
    type V = Seq<u8>;

    /// The session's token.
    closed spec fn view(&self) -> Seq<u8> {
        self.token@
    }
}

impl ReceiverBuilder {
    /// The password this receiver expects, as UTF-8 bytes; `None` when it
    /// expects none.
    pub open spec fn expected(&self) -> Option<Seq<u8>> {
        match self.password {
            Some(p) => Some(encode_utf8(p@)),
            None => None,
        }
    }

    /// A receiver on `port` that expects no password.
    pub fn new(port: u16) -> (b: Self)
        ensures
            b.port == port,
            b.password is None,
    {
        ReceiverBuilder { port, password: None }
    }

    /// The same receiver, expecting `password`.
    pub fn password(self, password: &str) -> (b: Self)
        ensures
            b.port == self.port,
            b.password matches Some(p) && p@ == password@,
    {
        let mut b = self;
        b.password = Some(password.to_string());
        b
    }

    /// This receiver's answer to a HELLO presenting `presented`, as
    /// `respond_to_hello` with the password it expects: `None` when the
    /// password is accepted but no token can be drawn.
    pub fn respond(&self, presented: &[u8]) -> (r: Option<HelloAnswer>)
        ensures
            authorized(self.expected(), presented@) ==> (r is None || (r matches Some(
                HelloAnswer::Accept { token, frame },
            ) && token@.len() == TOKEN_LEN && frame@ == answer_frame(
                self.expected(),
                presented@,
                token@,
            ))),
            !authorized(self.expected(), presented@) ==> (r matches Some(
                HelloAnswer::Reject { frame },
            ) && frame@ == reject_frame(invalid_password_reason())),
    {
        match &self.password {
            Some(p) => respond_to_hello(Some(p.as_str()), presented),
            None => respond_to_hello(None, presented),
        }
    }
}

impl SenderBuilder {
    /// A sender that connects to `ip`:`port` and presents `password`.
    pub fn new(ip: &str, port: u16, password: &str) -> (b: Self)
        ensures
            b.ip@ == ip@,
            b.port == port,
            b.password@ == password@,
    {
        SenderBuilder { ip: ip.to_string(), port, password: password.to_string() }
    }

    /// The HELLO this sender opens a connection with: its password as UTF-8
    /// bytes, or `PasswordTooLong` when those are more than
    /// `MAX_PASSWORD_LEN`.
    pub fn hello(&self) -> (r: Result<Vec<u8>, EncodeError>)
        ensures
            ({
                let bytes = encode_utf8(self.password@);
                match r {
                    Ok(frame) => bytes.len() <= MAX_PASSWORD_LEN && frame@ == hello_frame(bytes),
                    Err(e) => bytes.len() > MAX_PASSWORD_LEN && e == EncodeError::PasswordTooLong,
                }
            }),
    {
        encode_hello(self.password.as_str().as_bytes())
    }
}

impl Sender {
    /// The session opened under `token`; `None` when the token is longer
    /// than `MAX_TOKEN_LEN`, as no peer can hand out such a token.
    pub fn new(token: Vec<u8>) -> (s: Option<Self>)
        ensures
            match s {
                Some(s) => s@ == token@ && token@.len() <= MAX_TOKEN_LEN,
                None => token@.len() > MAX_TOKEN_LEN,
            },
    {
        if token.len() > MAX_TOKEN_LEN {
            None
        } else {
            Some(Sender { token })
        }
    }

    /// The session's token.
    pub fn token(&self) -> (t: &[u8])
        ensures
            t@ == self@,
            t@.len() <= MAX_TOKEN_LEN,
    {
        proof {
            use_type_invariant(self);
        }
        self.token.as_slice()
    }

    /// The DATA frame that sends `payload` in this session, or
    /// `PayloadTooLarge` when the payload is longer than `MAX_PAYLOAD_LEN`.
    pub fn encode_message(&self, payload: &[u8]) -> (r: Result<Vec<u8>, EncodeError>)
        ensures
            match r {
                Ok(frame) => payload@.len() <= MAX_PAYLOAD_LEN && frame@ == data_frame(
                    self@,
                    payload@,
                ),
                Err(e) => payload@.len() > MAX_PAYLOAD_LEN && e == EncodeError::PayloadTooLarge,
            },
    {
        proof {
            use_type_invariant(self);
        }
        encode_data(self.token.as_slice(), payload)
    }

    /// Decodes a DATA frame of which `received` has arrived in this session:
    /// its payload once complete; a frame under another token is refused.
    pub fn decode_message(&self, received: &[u8]) -> (r: Decoded)
        ensures
            r@ == spec_decode_data(self@, received@),
    {
        decode_data(self.token.as_slice(), received)
    }
}

/// Entry point to build a receiver listening on `port`.
pub fn receiver(port: u16) -> (b: ReceiverBuilder)
    ensures
        b.port == port,
        b.password is None,
{
    ReceiverBuilder::new(port)
}

/// Entry point to build a sender connecting to `ip`:`port` with `password`.
pub fn sender(ip: &str, port: u16, password: &str) -> (b: SenderBuilder)
    ensures
        b.ip@ == ip@,
        b.port == port,
        b.password@ == password@,
{
    SenderBuilder::new(ip, port, password)
}

} // verus!
