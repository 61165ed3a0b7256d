//! SHDLC framing: checksum, escaping, and every reachable framing
//! error.

use aether::hdlc::{calculate_checksum, decode, encode, HDLCError, FEND, FESC, OB1, OB2};

#[test]
fn checksum_is_inverted_byte_sum() {
    assert_eq!(calculate_checksum(&[]), 0xff);
    assert_eq!(calculate_checksum(&[0x01]), 0xfe);
    assert_eq!(calculate_checksum(&[0x01, 0x02]), 0xfc);
    // The sum wraps at a byte.
    assert_eq!(calculate_checksum(&[0xff, 0x02]), 0x01 ^ 0xff);
}

#[test]
fn encode_plain_bytes() {
    let frame = encode(&[0x01, 0x02]).unwrap();
    assert_eq!(frame, vec![FEND, 0x01, 0x02, 0xfc, FEND]);
}

#[test]
fn encode_escapes_special_bytes() {
    let frame = encode(&[FEND]).unwrap();
    assert_eq!(frame, vec![FEND, FESC, 0x5e, calculate_checksum(&[FEND]), FEND]);
    let frame = encode(&[FESC]).unwrap();
    assert_eq!(frame, vec![FEND, FESC, 0x5d, calculate_checksum(&[FESC]), FEND]);
    let frame = encode(&[OB1, OB2]).unwrap();
    assert_eq!(
        frame,
        vec![FEND, FESC, 0x31, FESC, 0x33, calculate_checksum(&[OB1, OB2]), FEND]
    );
}

#[test]
fn encode_rejects_oversized_payload() {
    let data = vec![0u8; 261];
    assert_eq!(encode(&data), Err(HDLCError::TooMuchData));
    assert!(encode(&vec![0u8; 260]).is_ok());
}

#[test]
fn decode_round_trips_an_encoded_frame() {
    let data = [0x10, FEND, 0x20, FESC, OB1, OB2, 0x30];
    let frame = encode(&data).unwrap();
    let decoded = decode(&frame).unwrap();
    // The decoder hands back the payload with its trailing checksum
    // byte, which the caller verifies.
    assert_eq!(&decoded[..data.len()], &data);
    assert_eq!(decoded[data.len()], calculate_checksum(&data));
}

#[test]
fn decode_framing_errors() {
    assert_eq!(decode(&[FEND, 1, FEND]), Err(HDLCError::TooFewData));
    assert_eq!(decode(&vec![FEND; 1001]), Err(HDLCError::TooMuchData));
    assert_eq!(decode(&[1, 2, 3, FEND]), Err(HDLCError::MissingFirstFend));
    assert_eq!(decode(&[FEND, 2, 3, 4]), Err(HDLCError::MissingFinalFend));
    // An escape byte with no substitute after it.
    assert_eq!(decode(&[FEND, FESC, 0x00, FEND]), Err(HDLCError::MissingTradeChar));
    assert_eq!(decode(&[FEND, 1, FESC, FEND]), Err(HDLCError::MissingTradeChar));
    // A raw frame-end byte inside the data.
    assert_eq!(decode(&[FEND, 1, FEND, 2, FEND]), Err(HDLCError::FendCharInData));
}
