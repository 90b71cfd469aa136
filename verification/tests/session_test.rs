use nuvo::decode::{decode_accept, decode_hello, DecodeError, Decoded};
use nuvo::handshake::{answer_hello, authorize, generate_token, respond_to_hello, HelloAnswer};
use nuvo::session::{receiver, sender, ReceiverBuilder, Sender, SenderBuilder};
use nuvo::wire::{encode_accept, encode_reject, EncodeError, TOKEN_LEN};

/// Runs a connection request between a sender and a receiver in memory:
/// the receiver's view of the HELLO, then the sender's view of the answer.
fn handshake(tx: &SenderBuilder, rx: &ReceiverBuilder) -> (HelloAnswer, Decoded) {
    let hello = tx.hello().unwrap();
    let presented = match decode_hello(&hello) {
        Decoded::Complete(p) => p,
        other => panic!("hello not read back: {:?}", other),
    };
    let answer = rx.respond(&presented).unwrap();
    let frame = match &answer {
        HelloAnswer::Accept { frame, .. } => frame.clone(),
        HelloAnswer::Reject { frame } => frame.clone(),
    };
    let seen = decode_accept(&frame);
    (answer, seen)
}

#[test]
fn builders_hold_their_settings() {
    let rx = receiver(8080);
    assert_eq!(rx.port, 8080);
    assert_eq!(rx.password, None);
    let rx = rx.password("secret");
    assert_eq!(rx.port, 8080);
    assert_eq!(rx.password, Some("secret".to_string()));
    let rx2 = ReceiverBuilder::new(9).password("a").password("b");
    assert_eq!(rx2.password, Some("b".to_string()));

    let tx = sender("127.0.0.1", 8081, "pw");
    assert_eq!(tx.ip, "127.0.0.1");
    assert_eq!(tx.port, 8081);
    assert_eq!(tx.password, "pw");
    let tx2 = SenderBuilder::new("10.0.0.1", 1, "");
    assert_eq!(tx2.ip, "10.0.0.1");
    assert_eq!(tx2.password, "");
}

#[test]
fn sender_hello_carries_utf8_password() {
    let tx = sender("127.0.0.1", 1, "pé");
    let frame = tx.hello().unwrap();
    assert_eq!(frame, vec![0x4e, 0x56, 1, 1, 0, 3, b'p', 0xc3, 0xa9]);
    let long = "x".repeat(1025);
    assert_eq!(sender("h", 1, &long).hello(), Err(EncodeError::PasswordTooLong));
    assert!(sender("h", 1, &"x".repeat(1024)).hello().is_ok());
}

#[test]
fn authorize_rules() {
    assert!(authorize(None, b"anything"));
    assert!(authorize(None, b""));
    assert!(authorize(Some("secret"), b"secret"));
    assert!(!authorize(Some("secret"), b"secreT"));
    assert!(!authorize(Some("secret"), b"secret "));
    assert!(!authorize(Some(""), b"x"));
    assert!(authorize(Some(""), b""));
}

#[test]
fn generated_tokens_are_fresh() {
    let a = generate_token().unwrap();
    let b = generate_token().unwrap();
    assert_eq!(a.len(), TOKEN_LEN);
    assert_eq!(b.len(), TOKEN_LEN);
    assert_ne!(a, b);
}

#[test]
fn answer_hello_with_given_token() {
    let token = vec![1u8, 2, 3];
    match answer_hello(Some("pw"), b"pw", &token).unwrap() {
        HelloAnswer::Accept { token: t, frame } => {
            assert_eq!(t, token);
            assert_eq!(frame, encode_accept(&token).unwrap());
        }
        other => panic!("unexpected {:?}", other),
    }
    match answer_hello(Some("pw"), b"nope", &token).unwrap() {
        HelloAnswer::Reject { frame } => assert_eq!(frame, encode_reject(b"invalid password")),
        other => panic!("unexpected {:?}", other),
    }
    assert_eq!(
        answer_hello(None, b"x", &vec![0u8; 65]),
        Err(EncodeError::TokenTooLong)
    );
    // A refused password is answered before the token is looked at.
    assert_eq!(
        answer_hello(Some("a"), b"b", &vec![0u8; 65]),
        Ok(HelloAnswer::Reject { frame: encode_reject(b"invalid password") })
    );
}

#[test]
fn respond_to_hello_opens_or_refuses() {
    match respond_to_hello(Some("k"), b"k").unwrap() {
        HelloAnswer::Accept { token, frame } => {
            assert_eq!(token.len(), TOKEN_LEN);
            assert_eq!(decode_accept(&frame), Decoded::Complete(token));
        }
        other => panic!("unexpected {:?}", other),
    }
    match respond_to_hello(Some("k"), b"j").unwrap() {
        HelloAnswer::Reject { frame } => {
            assert_eq!(decode_accept(&frame), Decoded::Rejected("invalid password".to_string()))
        }
        other => panic!("unexpected {:?}", other),
    }
}

#[test]
fn handshake_with_password_success() {
    let (answer, seen) = handshake(&sender("127.0.0.1", 19999, "test_password"), &receiver(19999).password("test_password"));
    match answer {
        HelloAnswer::Accept { token, .. } => assert_eq!(seen, Decoded::Complete(token)),
        other => panic!("unexpected {:?}", other),
    }
}

#[test]
fn handshake_with_password_reject() {
    let (answer, seen) = handshake(
        &sender("127.0.0.1", 19998, "wrong_password"),
        &receiver(19998).password("correct_password"),
    );
    assert!(matches!(answer, HelloAnswer::Reject { .. }));
    assert_eq!(seen, Decoded::Rejected("invalid password".to_string()));
}

#[test]
fn handshake_without_password_accepts_any() {
    let (answer, seen) = handshake(&sender("127.0.0.1", 19997, "any_password"), &receiver(19997));
    match answer {
        HelloAnswer::Accept { token, .. } => assert_eq!(seen, Decoded::Complete(token)),
        other => panic!("unexpected {:?}", other),
    }
}

#[test]
fn session_messages_both_ways() {
    let token = generate_token().unwrap();
    let client = Sender::new(token.clone()).unwrap();
    let server = Sender::new(token.clone()).unwrap();
    assert_eq!(client.token(), &token[..]);
    let frame = client.encode_message(b"Hello from sender!").unwrap();
    assert_eq!(server.decode_message(&frame), Decoded::Complete(b"Hello from sender!".to_vec()));
    let back = server.encode_message(b"ack").unwrap();
    assert_eq!(client.decode_message(&back), Decoded::Complete(b"ack".to_vec()));
    let stranger = Sender::new(vec![0u8; 32]).unwrap();
    assert_eq!(stranger.decode_message(&frame), Decoded::Invalid(DecodeError::InvalidToken));
}

#[test]
fn session_message_limits() {
    assert!(Sender::new(vec![1u8; 65]).is_none());
    assert_eq!(Sender::new(vec![1u8; 64]).unwrap().token().len(), 64);
    let s = Sender::new(vec![1u8; 4]).unwrap();
    let too_big = vec![0u8; 8 * 1024 * 1024 + 1];
    assert_eq!(s.encode_message(&too_big), Err(EncodeError::PayloadTooLarge));
}
