//! Nuvo: a small client/server messaging protocol with password
//! authentication and per-session tokens.
//!
//! This crate holds the protocol itself: the binary wire format (`wire`),
//! the incremental frame decoders (`decode`), the receiver's answer to a
//! connection request (`handshake`), the session and builder types
//! (`session`), and the proved properties that tie them together (`laws`).
//! Sockets and the async runtime are kept out of it: a transport reads the
//! number of bytes a decoder asks for and writes the frames an encoder makes.

pub mod wire;
pub mod decode;
pub mod laws;
pub mod handshake;
pub mod session;

pub use decode::{decode_accept, decode_data, decode_hello, DecodeError, Decoded};
pub use handshake::{answer_hello, authorize, generate_token, respond_to_hello, HelloAnswer};
pub use session::{receiver, sender, ReceiverBuilder, Sender, SenderBuilder};
pub use wire::{encode_accept, encode_data, encode_hello, encode_reject, EncodeError};
