use spotlink::codec::{encode_message, FrameError, FRAME_DELIMITER, MESSAGE_SIZE};
use spotlink::messages::Message;
use spotlink::serial::FrameAccumulator;

fn feed(acc: &mut FrameAccumulator, bytes: &[u8]) -> Vec<Result<Message, FrameError>> {
    let mut out = Vec::new();
    for &b in bytes {
        if let Some(r) = acc.push_byte(b) {
            out.push(r);
        }
    }
    out
}

#[test]
fn accumulator_decodes_back_to_back_frames() {
    let m1 = Message::DisplayCommand(b"one".to_vec());
    let m2 = Message::DisplayCommand(b"two".to_vec());
    let mut stream = encode_message(&m1);
    stream.extend(encode_message(&m2));
    let mut acc = FrameAccumulator::new();
    let out = feed(&mut acc, &stream);
    assert_eq!(out, vec![Ok(m1), Ok(m2)]);
}

#[test]
fn resync_after_garbage_segment() {
    // One well-formed frame, a garbage segment with no delimiter inside,
    // closed off by a delimiter, then a second well-formed frame: exactly
    // the two messages come out, and the garbage yields one error, never a
    // value.
    let m1 = Message::DisplayCommand(b"one".to_vec());
    let m2 = Message::DisplayCommand(b"two".to_vec());
    let mut stream = encode_message(&m1);
    stream.extend([0x42, 0x43, 0x44, FRAME_DELIMITER]);
    stream.extend(encode_message(&m2));
    let mut acc = FrameAccumulator::new();
    let out = feed(&mut acc, &stream);
    assert_eq!(out.len(), 3);
    assert_eq!(out[0], Ok(m1));
    assert!(out[1].is_err());
    assert_eq!(out[2], Ok(m2));
}

#[test]
fn resync_after_accumulation_overflow() {
    // Garbage longer than the accumulation buffer: the overflow is reported
    // once, the rest of the segment is discarded up to its delimiter, and
    // the following frame still decodes.
    let m1 = Message::DisplayCommand(b"one".to_vec());
    let m2 = Message::DisplayCommand(b"two".to_vec());
    let mut stream = encode_message(&m1);
    stream.extend(std::iter::repeat(0x42u8).take(MESSAGE_SIZE + 50));
    stream.push(FRAME_DELIMITER);
    stream.extend(encode_message(&m2));
    let mut acc = FrameAccumulator::new();
    let out = feed(&mut acc, &stream);
    assert_eq!(out.len(), 3);
    assert_eq!(out[0], Ok(m1));
    assert_eq!(out[1], Err(FrameError::AccumulationOverflow));
    assert_eq!(out[2], Ok(m2));
}

#[test]
fn corrupt_chunk_is_rejected_not_delivered() {
    let m = Message::DisplayCommand(b"solo".to_vec());
    let mut frame = encode_message(&m);
    let idx = frame.len() - 3;
    frame[idx] ^= 0x08;
    let mut acc = FrameAccumulator::new();
    let out = feed(&mut acc, &frame);
    assert_eq!(out.len(), 1);
    assert!(out[0].is_err());
    // The accumulator is clean again: a following frame decodes.
    let out2 = feed(&mut acc, &encode_message(&m));
    assert_eq!(out2, vec![Ok(m)]);
}
