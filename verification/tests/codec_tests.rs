use spotlink::codec::{
    decode_message, decode_response, deserialize_crc_cobs, encode_message, encode_response,
    serialize_crc_cobs, FrameError, FRAME_DELIMITER, MESSAGE_SIZE, RESPONSE_SIZE,
};
use spotlink::messages::{ApiProvider, Message, Response, WifiInfo};

fn sample_messages() -> Vec<Message> {
    vec![
        Message::SetWifiCredentials(WifiInfo::new(b"home-net".to_vec(), b"hunter2".to_vec())),
        Message::SetWifiCredentials(WifiInfo::new(Vec::new(), Vec::new())),
        Message::SetApiKey(ApiProvider::Fingrid, b"A".to_vec()),
        Message::SetApiKey(ApiProvider::Entsoe, vec![0x00, 0x01, 0x02, 0xFF]),
        Message::DisplayCommand(b"hello".to_vec()),
        Message::DisplayCommand(vec![0u8; 64]),
    ]
}

#[test]
fn message_round_trip_every_variant() {
    for m in sample_messages() {
        let frame = encode_message(&m);
        let back = decode_message(&frame).expect("well-formed frame must decode");
        assert_eq!(back, m);
    }
}

#[test]
fn response_round_trip() {
    for r in [Response::Okay, Response::Error] {
        let frame = encode_response(&r);
        assert!(frame.len() <= RESPONSE_SIZE);
        assert_eq!(decode_response(&frame), Ok(r));
    }
}

#[test]
fn frame_delimiter_appears_exactly_once_at_end() {
    for m in sample_messages() {
        let frame = encode_message(&m);
        assert!(frame.len() <= MESSAGE_SIZE);
        assert_eq!(*frame.last().unwrap(), FRAME_DELIMITER);
        for &b in &frame[..frame.len() - 1] {
            assert_ne!(b, FRAME_DELIMITER);
        }
    }
}

#[test]
fn checksum_is_crc32_cksum() {
    // CRC-32/CKSUM has check value 0x765E7680 for the bytes "123456789".
    // Nothing in that payload needs stuffing, so the frame is the payload,
    // the checksum little-endian, then the delimiter.
    let payload = b"123456789".to_vec();
    let frame = serialize_crc_cobs(&payload);
    assert_eq!(frame.len(), payload.len() + 5);
    assert_eq!(&frame[..9], payload.as_slice());
    assert_eq!(&frame[9..13], &[0x80, 0x76, 0x5E, 0x76]);
    assert_eq!(frame[13], FRAME_DELIMITER);
    assert_eq!(deserialize_crc_cobs(&frame), Ok(payload));
}

#[test]
fn single_bit_corruption_is_never_delivered() {
    let m = Message::SetApiKey(ApiProvider::Entsoe, b"secret-key-0001".to_vec());
    let frame = encode_message(&m);
    // Flip every bit of every byte before the trailing delimiter.
    for i in 0..frame.len() - 1 {
        for bit in 0..8 {
            let mut corrupt = frame.clone();
            corrupt[i] ^= 1u8 << bit;
            assert!(decode_message(&corrupt).is_err());
        }
    }
}

#[test]
fn payload_bit_flip_reports_checksum_mismatch() {
    // A payload of plain text needs no stuffing, so flipping one of its bits
    // leaves the frame structurally valid and the checksum must catch it.
    let m = Message::DisplayCommand(b"hello".to_vec());
    let frame = encode_message(&m);
    let mut corrupt = frame.clone();
    corrupt[2] ^= 0x10;
    assert_eq!(decode_message(&corrupt), Err(FrameError::ChecksumMismatch));
}

#[test]
fn truncated_frame_is_malformed() {
    assert_eq!(
        deserialize_crc_cobs(&vec![0x42, 0x43, FRAME_DELIMITER]),
        Err(FrameError::Malformed)
    );
    assert_eq!(deserialize_crc_cobs(&Vec::new()), Err(FrameError::Malformed));
}

#[test]
fn dangling_escape_is_malformed() {
    // An escape byte directly before the delimiter has nothing to escape.
    let frame = vec![0x42, 0x43, 0x44, 0x45, 0x01, FRAME_DELIMITER];
    assert_eq!(deserialize_crc_cobs(&frame), Err(FrameError::Malformed));
}

#[test]
fn unknown_tag_is_malformed() {
    // A frame with a sound checksum still fails when no message has its tag.
    let payload = vec![0x77u8, 0x42];
    let frame = serialize_crc_cobs(&payload);
    assert_eq!(decode_message(&frame), Err(FrameError::Malformed));
}

#[test]
fn oversized_payload_string_is_rejected() {
    // A length byte past the payload bound never decodes, even checksummed.
    let mut payload = vec![0x33u8, 65];
    payload.extend(std::iter::repeat(0x42u8).take(65));
    let frame = serialize_crc_cobs(&payload);
    assert_eq!(decode_message(&frame), Err(FrameError::Malformed));
}

#[test]
fn stuffing_escapes_delimiter_and_escape_bytes() {
    let payload = vec![0x00u8, 0x01, 0x02, 0x00];
    let frame = serialize_crc_cobs(&payload);
    for &b in &frame[..frame.len() - 1] {
        assert_ne!(b, FRAME_DELIMITER);
    }
    assert_eq!(deserialize_crc_cobs(&frame), Ok(payload));
}
