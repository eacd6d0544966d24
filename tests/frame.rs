use litep2p_core::frame::{decode, encode};
use litep2p_core::webrtc::ConnectionError;

#[test]
fn encodes_payload_with_length_prefix() {
    assert_eq!(encode(&[1, 2, 3], None), vec![5, 0x12, 3, 1, 2, 3]);
}

#[test]
fn encodes_flag_before_payload() {
    assert_eq!(encode(&[1, 2, 3], Some(2)), vec![7, 0x08, 2, 0x12, 3, 1, 2, 3]);
}

#[test]
fn encodes_multi_byte_lengths() {
    let payload = vec![9u8; 200];
    let framed = encode(&payload, None);
    assert_eq!(&framed[..5], &[0xCB, 0x01, 0x12, 0xC8, 0x01]);
    assert_eq!(framed.len(), 205);
}

#[test]
fn decode_inverts_encode() {
    for flag in [None, Some(0), Some(1), Some(300), Some(u64::MAX)] {
        for payload in [vec![], vec![7], vec![5u8; 1000]] {
            let framed = encode(&payload, flag);
            assert_eq!(decode(&framed), Ok((flag, Some(payload.clone()))));
        }
    }
}

#[test]
fn decodes_header_only_frames() {
    assert_eq!(decode(&[2, 0x08, 0]), Ok((Some(0), None)));
    assert_eq!(decode(&[0]), Ok((None, None)));
}

#[test]
fn rejects_malformed_frames() {
    // empty input, length beyond the data, trailing bytes, unknown field
    assert_eq!(decode(&[]), Err(ConnectionError::InvalidData));
    assert_eq!(decode(&[6, 0x12, 3, 1, 2, 3]), Err(ConnectionError::InvalidData));
    assert_eq!(decode(&[5, 0x12, 3, 1, 2, 3, 4]), Err(ConnectionError::InvalidData));
    assert_eq!(decode(&[2, 0x18, 1]), Err(ConnectionError::InvalidData));
    // payload length that disagrees with the body
    assert_eq!(decode(&[4, 0x12, 3, 1, 2]), Err(ConnectionError::InvalidData));
    // a varint that never ends
    assert_eq!(decode(&[0x80, 0x80]), Err(ConnectionError::InvalidData));
}
