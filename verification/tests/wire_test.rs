use nuvo::decode::{decode_accept, decode_data, decode_hello, DecodeError, Decoded};
use nuvo::wire::{
    encode_accept, encode_data, encode_hello, encode_reject, push_bytes, EncodeError,
    MAX_PASSWORD_LEN, MAX_PAYLOAD_LEN, MAX_TOKEN_LEN,
};

fn feed_all(decode: &dyn Fn(&[u8]) -> Decoded, stream: &[u8]) -> (Decoded, usize, Vec<usize>) {
    // Reads exactly what the decoder asks for, as a transport does.
    let mut buf: Vec<u8> = Vec::new();
    let mut asked = Vec::new();
    loop {
        match decode(&buf) {
            Decoded::Incomplete(n) => {
                asked.push(n);
                if buf.len() + n > stream.len() {
                    return (Decoded::Incomplete(n), buf.len(), asked);
                }
                let start = buf.len();
                buf.extend_from_slice(&stream[start..start + n]);
            }
            other => return (other, buf.len(), asked),
        }
    }
}

#[test]
fn hello_frame_bytes() {
    let frame = encode_hello(b"ab").unwrap();
    assert_eq!(frame, vec![0x4e, 0x56, 1, 1, 0, 2, b'a', b'b']);
}

#[test]
fn hello_password_length_limit() {
    let ok = vec![7u8; MAX_PASSWORD_LEN];
    let frame = encode_hello(&ok).unwrap();
    assert_eq!(frame.len(), 6 + MAX_PASSWORD_LEN);
    assert_eq!(&frame[4..6], &[0x04, 0x00]);
    let long = vec![7u8; MAX_PASSWORD_LEN + 1];
    assert_eq!(encode_hello(&long), Err(EncodeError::PasswordTooLong));
}

#[test]
fn accept_frame_bytes_and_limit() {
    let frame = encode_accept(&[9, 8, 7]).unwrap();
    assert_eq!(frame, vec![0x4e, 0x56, 1, 2, 0, 3, 9, 8, 7]);
    assert!(encode_accept(&vec![1u8; MAX_TOKEN_LEN]).is_ok());
    assert_eq!(encode_accept(&vec![1u8; MAX_TOKEN_LEN + 1]), Err(EncodeError::TokenTooLong));
}

#[test]
fn reject_frame_bytes() {
    let frame = encode_reject(b"invalid password");
    let mut expected = vec![0x4e, 0x56, 1, 3, 0, 16];
    expected.extend_from_slice(b"invalid password");
    assert_eq!(frame, expected);
}

#[test]
fn reject_frame_long_reason_keeps_low_bits_of_length() {
    let reason = vec![b'x'; 70000];
    let frame = encode_reject(&reason);
    assert_eq!(frame.len(), 6 + 70000);
    // 70000 = 0x1_1170: the field holds 0x1170.
    assert_eq!(&frame[4..6], &[0x11, 0x70]);
}

#[test]
fn data_frame_bytes() {
    let frame = encode_data(&[0xaa, 0xbb], b"hi!").unwrap();
    assert_eq!(
        frame,
        vec![0x4e, 0x56, 1, 4, 0, 2, 0xaa, 0xbb, 0, 0, 0, 3, b'h', b'i', b'!']
    );
}

#[test]
fn data_frame_large_payload_length_field() {
    let payload = vec![0u8; 0x01_02_03];
    let frame = encode_data(&[1], &payload).unwrap();
    assert_eq!(&frame[7..11], &[0x00, 0x01, 0x02, 0x03]);
    assert_eq!(frame.len(), 11 + payload.len());
}

#[test]
fn data_frame_errors() {
    assert_eq!(
        encode_data(&vec![0u8; MAX_TOKEN_LEN + 1], b"x"),
        Err(EncodeError::TokenTooLong)
    );
    let too_big = vec![0u8; MAX_PAYLOAD_LEN + 1];
    assert_eq!(encode_data(&[1, 2], &too_big), Err(EncodeError::PayloadTooLarge));
    // The token is checked first.
    assert_eq!(
        encode_data(&vec![0u8; MAX_TOKEN_LEN + 1], &too_big),
        Err(EncodeError::TokenTooLong)
    );
    let max = vec![0u8; MAX_PAYLOAD_LEN];
    assert!(encode_data(&[1, 2], &max).is_ok());
}

#[test]
fn push_bytes_appends() {
    let mut out = vec![1u8, 2];
    push_bytes(&mut out, &[3, 4, 5]);
    assert_eq!(out, vec![1, 2, 3, 4, 5]);
}

#[test]
fn hello_decoder_asks_for_each_field() {
    assert_eq!(decode_hello(&[]), Decoded::Incomplete(4));
    assert_eq!(decode_hello(&[0x4e, 0x56]), Decoded::Incomplete(2));
    assert_eq!(decode_hello(&[0x4e, 0x56, 1, 1]), Decoded::Incomplete(2));
    assert_eq!(decode_hello(&[0x4e, 0x56, 1, 1, 0, 3]), Decoded::Incomplete(3));
    assert_eq!(
        decode_hello(&[0x4e, 0x56, 1, 1, 0, 3, b'a', b'b', b'c']),
        Decoded::Complete(b"abc".to_vec())
    );
}

#[test]
fn hello_roundtrip_reads_exactly_one_frame() {
    let mut stream = encode_hello(b"secret").unwrap();
    let first_len = stream.len();
    stream.extend_from_slice(&encode_hello(b"next").unwrap());
    let (result, consumed, asked) = feed_all(&decode_hello, &stream);
    assert_eq!(result, Decoded::Complete(b"secret".to_vec()));
    assert_eq!(consumed, first_len);
    assert_eq!(asked, vec![4, 2, 6]);
}

#[test]
fn empty_password_roundtrip() {
    let frame = encode_hello(b"").unwrap();
    assert_eq!(decode_hello(&frame), Decoded::Complete(Vec::new()));
}

#[test]
fn header_faults() {
    assert_eq!(decode_hello(&[0x4e, 0x57, 1, 1]), Decoded::Invalid(DecodeError::InvalidMagic));
    assert_eq!(decode_hello(&[0x00, 0x56, 1, 1]), Decoded::Invalid(DecodeError::InvalidMagic));
    assert_eq!(
        decode_hello(&[0x4e, 0x56, 2, 1]),
        Decoded::Invalid(DecodeError::UnsupportedVersion)
    );
    assert_eq!(decode_hello(&[0x4e, 0x56, 1, 4]), Decoded::Invalid(DecodeError::ExpectedHello));
    assert_eq!(decode_accept(&[0x4e, 0x56, 1, 1]), Decoded::Invalid(DecodeError::ExpectedAccept));
    assert_eq!(
        decode_data(&[], &[0x4e, 0x56, 1, 2]),
        Decoded::Invalid(DecodeError::ExpectedData)
    );
    // The magic is checked before the version, the version before the type.
    assert_eq!(decode_data(&[], &[0, 0, 9, 9]), Decoded::Invalid(DecodeError::InvalidMagic));
    assert_eq!(
        decode_accept(&[0x4e, 0x56, 9, 9]),
        Decoded::Invalid(DecodeError::UnsupportedVersion)
    );
}

#[test]
fn hello_password_too_long_is_refused_before_its_bytes() {
    // 1025 = 0x0401
    assert_eq!(
        decode_hello(&[0x4e, 0x56, 1, 1, 0x04, 0x01]),
        Decoded::Invalid(DecodeError::PasswordTooLong)
    );
    assert_eq!(decode_hello(&[0x4e, 0x56, 1, 1, 0x04, 0x00]), Decoded::Incomplete(1024));
}

#[test]
fn accept_roundtrip_and_token_limit() {
    let token: Vec<u8> = (0..32).collect();
    let frame = encode_accept(&token).unwrap();
    let (result, consumed, asked) = feed_all(&decode_accept, &frame);
    assert_eq!(result, Decoded::Complete(token));
    assert_eq!(consumed, frame.len());
    assert_eq!(asked, vec![4, 2, 32]);
    // 65 = 0x41
    assert_eq!(
        decode_accept(&[0x4e, 0x56, 1, 2, 0, 0x41]),
        Decoded::Invalid(DecodeError::TokenTooLong)
    );
}

#[test]
fn reject_is_read_back_with_its_reason() {
    let mut stream = encode_reject(b"invalid password");
    stream.extend_from_slice(&[1, 2, 3]);
    let (result, consumed, _) = feed_all(&decode_accept, &stream);
    assert_eq!(result, Decoded::Rejected("invalid password".to_string()));
    assert_eq!(consumed, stream.len() - 3);
    // The longest reason a length field can announce is still read.
    assert_eq!(decode_accept(&[0x4e, 0x56, 1, 3, 0xff, 0xff]), Decoded::Incomplete(0xffff));
}

#[test]
fn data_roundtrip_in_session() {
    let token = vec![5u8; 32];
    let payload = b"Hello from sender!".to_vec();
    let frame = encode_data(&token, &payload).unwrap();
    let decode = |s: &[u8]| decode_data(&token, s);
    let (result, consumed, asked) = feed_all(&decode, &frame);
    assert_eq!(result, Decoded::Complete(payload.clone()));
    assert_eq!(consumed, frame.len());
    assert_eq!(asked, vec![4, 2, 32, 4, payload.len()]);
}

#[test]
fn data_under_foreign_token_is_refused() {
    let frame = encode_data(&[1, 2, 3], b"payload").unwrap();
    assert_eq!(decode_data(&[1, 2, 4], &frame), Decoded::Invalid(DecodeError::InvalidToken));
    assert_eq!(decode_data(&[1, 2], &frame), Decoded::Invalid(DecodeError::InvalidToken));
    // Refused as soon as the token has arrived.
    assert_eq!(decode_data(&[9, 9, 9], &frame[..9]), Decoded::Invalid(DecodeError::InvalidToken));
}

#[test]
fn data_limits_on_receipt() {
    assert_eq!(
        decode_data(&[], &[0x4e, 0x56, 1, 4, 0, 0x41]),
        Decoded::Invalid(DecodeError::TokenTooLong)
    );
    // Empty token, payload length 8 MiB + 1 = 0x0080_0001.
    assert_eq!(
        decode_data(&[], &[0x4e, 0x56, 1, 4, 0, 0, 0x00, 0x80, 0x00, 0x01]),
        Decoded::Invalid(DecodeError::PayloadTooLarge)
    );
    assert_eq!(
        decode_data(&[], &[0x4e, 0x56, 1, 4, 0, 0, 0x00, 0x80, 0x00, 0x00]),
        Decoded::Incomplete(MAX_PAYLOAD_LEN)
    );
}

#[test]
fn empty_payload_roundtrip() {
    let frame = encode_data(&[7], b"").unwrap();
    assert_eq!(decode_data(&[7], &frame), Decoded::Complete(Vec::new()));
}

#[test]
fn decoders_wait_for_requested_bytes() {
    let frame = encode_data(&[1, 2, 3], b"abcdef").unwrap();
    // After the token length (6 bytes) the decoder asks for the 3-byte token;
    // one or two more bytes only shorten what it asks for.
    assert_eq!(decode_data(&[1, 2, 3], &frame[..6]), Decoded::Incomplete(3));
    assert_eq!(decode_data(&[1, 2, 3], &frame[..7]), Decoded::Incomplete(2));
    assert_eq!(decode_data(&[1, 2, 3], &frame[..8]), Decoded::Incomplete(1));
    assert_eq!(decode_data(&[1, 2, 3], &frame[..9]), Decoded::Incomplete(4));
    assert_eq!(decode_data(&[1, 2, 3], &frame[..13]), Decoded::Incomplete(6));
    let accept = encode_accept(&[4, 4]).unwrap();
    assert_eq!(decode_accept(&accept[..1]), Decoded::Incomplete(3));
    assert_eq!(decode_accept(&accept[..7]), Decoded::Incomplete(1));
}

#[test]
fn reject_reason_with_invalid_utf8_is_replaced() {
    let frame = encode_reject(&[b'f', 0xff, b'o']);
    assert_eq!(decode_accept(&frame), Decoded::Rejected("f\u{FFFD}o".to_string()));
    let frame = encode_reject("é!".as_bytes());
    assert_eq!(decode_accept(&frame), Decoded::Rejected("é!".to_string()));
}
