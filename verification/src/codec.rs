//! Framed, checksum-verified codec over an unreliable byte stream.
//!
//! A frame is built in three layers. A message or response is first written
//! into a compact binary payload. The payload is extended by its 32-bit
//! checksum in little-endian order. The result is delimiter-stuffed so that
//! the reserved delimiter byte never appears inside the frame, and one
//! unescaped delimiter byte is appended as the frame terminator.
//!
//! Decoding reverses each layer and reports [`FrameError::Malformed`] when
//! de-stuffing or payload parsing fails and [`FrameError::ChecksumMismatch`]
//! when the trailing checksum does not match the de-stuffed payload. A frame
//! that fails to decode is discarded by the caller; it is never delivered.

use vstd::prelude::*;
use vstd::bytes::{spec_u32_from_le_bytes, spec_u32_to_le_bytes, u32_from_le_bytes,
    u32_to_le_bytes, lemma_auto_spec_u32_to_from_le_bytes};
use crate::messages::{ApiProvider, Message, MessageView, Response, WifiInfo, WifiInfoView,
    MAX_PAYLOAD_LEN};

verus! {

/// First payload byte of a serialized [`Message::SetWifiCredentials`].
pub const TAG_SET_WIFI: u8 = 0x31;

/// First payload byte of a serialized [`Message::SetApiKey`].
pub const TAG_SET_API_KEY: u8 = 0x32;

/// First payload byte of a serialized [`Message::DisplayCommand`].
pub const TAG_DISPLAY: u8 = 0x33;

/// Payload byte of a serialized [`Response::Okay`].
pub const TAG_RESPONSE_OKAY: u8 = 0x41;

/// Payload byte of a serialized [`Response::Error`].
pub const TAG_RESPONSE_ERROR: u8 = 0x42;

/// The reserved byte that terminates every frame and appears nowhere else
/// inside one.
pub const FRAME_DELIMITER: u8 = 0x00;

/// The escape byte introducing a two-byte escape sequence inside a frame.
pub const FRAME_ESCAPE: u8 = 0x01;

/// Second byte of the escape sequence standing for the delimiter byte.
pub const ESCAPED_DELIMITER: u8 = 0x02;

/// Second byte of the escape sequence standing for the escape byte itself.
pub const ESCAPED_ESCAPE: u8 = 0x03;

/// Why a received frame was rejected. All variants are non-fatal: the caller
/// discards the frame and resynchronizes on the next delimiter byte.
#[derive(Debug, Clone, Copy, PartialEq, Eq, Structural)]
pub enum FrameError {
    /// The trailing checksum does not match the de-stuffed payload.
    ChecksumMismatch,
    /// De-stuffing or payload deserialization failed.
    Malformed,
    /// The accumulation buffer filled up before a delimiter byte arrived.
    AccumulationOverflow,
}

/// The stuffed image of a single payload byte.
pub open spec fn spec_stuff_byte(b: u8) -> Seq<u8> {
    if b == FRAME_DELIMITER {
        seq![FRAME_ESCAPE, ESCAPED_DELIMITER]
    } else if b == FRAME_ESCAPE {
        seq![FRAME_ESCAPE, ESCAPED_ESCAPE]
    } else {
        seq![b]
    }
}

/// Delimiter stuffing: every occurrence of the delimiter or escape byte is
/// replaced by a two-byte escape sequence, so the result never contains an
/// unescaped delimiter.
pub open spec fn spec_stuff(s: Seq<u8>) -> Seq<u8>
    decreases s.len(),
{
    if s.len() == 0 {
        Seq::empty()
    } else {
        spec_stuff_byte(s[0]) + spec_stuff(s.skip(1))
    }
}

/// De-stuffing: the inverse of [`spec_stuff`]. `None` marks a malformed
/// sequence: a dangling or unknown escape, or an unescaped delimiter byte.
pub open spec fn spec_unstuff(s: Seq<u8>) -> Option<Seq<u8>>
    decreases s.len(),
{
    if s.len() == 0 {
        Some(Seq::empty())
    } else if s[0] == FRAME_ESCAPE {
        if s.len() >= 2 && (s[1] == ESCAPED_DELIMITER || s[1] == ESCAPED_ESCAPE) {
            match spec_unstuff(s.skip(2)) {
                Some(rest) => {
                    let b = if s[1] == ESCAPED_DELIMITER {
                        FRAME_DELIMITER
                    } else {
                        FRAME_ESCAPE
                    };
                    Some(seq![b] + rest)
                },
                None => None,
            }
        } else {
            None
        }
    } else if s[0] == FRAME_DELIMITER {
        None
    } else {
        match spec_unstuff(s.skip(1)) {
            Some(rest) => Some(seq![s[0]] + rest),
            None => None,
        }
    }
}

/// Stuffing distributes over concatenation.
pub proof fn lemma_stuff_append(a: Seq<u8>, b: Seq<u8>)
    ensures
        spec_stuff(a + b) == spec_stuff(a) + spec_stuff(b),
    decreases a.len(),
{
    if a.len() == 0 {
        assert(a + b =~= b);
        assert(spec_stuff(a) + spec_stuff(b) =~= spec_stuff(b));
    } else {
        assert((a + b).skip(1) =~= a.skip(1) + b);
        lemma_stuff_append(a.skip(1), b);
        assert(spec_stuff(a + b) =~= spec_stuff(a) + spec_stuff(b));
    }
}

/// The stuffed image of a payload contains no delimiter byte, and its length
/// lies between the payload's length and twice that length.
pub proof fn lemma_stuff_clean(s: Seq<u8>)
    ensures
        forall|i: int| 0 <= i < spec_stuff(s).len() ==> spec_stuff(s)[i] != FRAME_DELIMITER,
        s.len() <= spec_stuff(s).len() <= 2 * s.len(),
    decreases s.len(),
{
    if s.len() > 0 {
        lemma_stuff_clean(s.skip(1));
    }
}

/// De-stuffing inverts stuffing.
pub proof fn lemma_unstuff_stuff(s: Seq<u8>)
    ensures
        spec_unstuff(spec_stuff(s)) == Some(s),
    decreases s.len(),
{
    if s.len() == 0 {
        assert(spec_stuff(s) =~= Seq::<u8>::empty());
    } else {
        lemma_unstuff_stuff(s.skip(1));
        let t = spec_stuff(s);
        if s[0] == FRAME_DELIMITER || s[0] == FRAME_ESCAPE {
            assert(t.skip(2) =~= spec_stuff(s.skip(1)));
            assert(spec_unstuff(t).unwrap() =~= s);
        } else {
            assert(t.skip(1) =~= spec_stuff(s.skip(1)));
            assert(spec_unstuff(t).unwrap() =~= s);
        }
    }
}

/// A sequence that de-stuffs successfully is the stuffed image of its
/// de-stuffing: stuffing is the only way to produce it.
pub proof fn lemma_unstuff_is_stuffed(s: Seq<u8>, b: Seq<u8>)
    requires
        spec_unstuff(s) == Some(b),
    ensures
        s == spec_stuff(b),
    decreases s.len(),
{
    if s.len() == 0 {
        assert(s =~= spec_stuff(b));
    } else if s[0] == FRAME_ESCAPE {
        let rest = spec_unstuff(s.skip(2)).unwrap();
        lemma_unstuff_is_stuffed(s.skip(2), rest);
        assert(b.skip(1) =~= rest);
        assert(s =~= spec_stuff_byte(b[0]) + spec_stuff(b.skip(1)));
    } else {
        let rest = spec_unstuff(s.skip(1)).unwrap();
        lemma_unstuff_is_stuffed(s.skip(1), rest);
        assert(b.skip(1) =~= rest);
        assert(s =~= spec_stuff_byte(b[0]) + spec_stuff(b.skip(1)));
    }
}

/// Stuffs `payload` into `out`, appending.
fn stuff_into(payload: &Vec<u8>, out: &mut Vec<u8>)
    ensures
        final(out)@ == old(out)@ + spec_stuff(payload@),
{
    let ghost orig = out@;
    let mut i: usize = 0;
    while i < payload.len()
        invariant
            i <= payload@.len(),
            out@ == orig + spec_stuff(payload@.take(i as int)),
        decreases payload@.len() - i,
    {
        let b = payload[i];
        if b == FRAME_DELIMITER {
            out.push(FRAME_ESCAPE);
            out.push(ESCAPED_DELIMITER);
        } else if b == FRAME_ESCAPE {
            out.push(FRAME_ESCAPE);
            out.push(ESCAPED_ESCAPE);
        } else {
            out.push(b);
        }
        proof {
            assert(payload@.take(i + 1) =~= payload@.take(i as int).push(b));
            lemma_stuff_append(payload@.take(i as int), seq![b]);
            assert(payload@.take(i as int) + seq![b] =~= payload@.take(i + 1));
            assert(seq![b].skip(1) =~= Seq::<u8>::empty());
            assert(spec_stuff(Seq::<u8>::empty()) =~= Seq::<u8>::empty());
            assert(spec_stuff_byte(b) + Seq::<u8>::empty() =~= spec_stuff_byte(b));
            assert(spec_stuff(seq![b]) == spec_stuff_byte(b));
        }
        i = i + 1;
    }
    proof {
        assert(payload@.take(payload@.len() as int) =~= payload@);
    }
}

/// De-stuffs `s[start..end]` into a fresh vector, or reports a malformed
/// escape or an unescaped delimiter.
fn unstuff_range(s: &Vec<u8>, start: usize, end: usize) -> (r: Result<Vec<u8>, FrameError>)
    requires
        start <= end <= s@.len(),
    ensures
        match r {
            Ok(b) => spec_unstuff(s@.subrange(start as int, end as int)) == Some(b@),
            Err(e) => {
                &&& e == FrameError::Malformed
                &&& spec_unstuff(s@.subrange(start as int, end as int)) is None
            },
        },
{
    let ghost whole = s@.subrange(start as int, end as int);
    let mut out: Vec<u8> = Vec::new();
    let mut i: usize = start;
    while i < end
        invariant
            start <= i <= end <= s@.len(),
            whole == s@.subrange(start as int, end as int),
            forall|r2: Seq<u8>|
                spec_unstuff(s@.subrange(i as int, end as int)) == Some(r2) ==> spec_unstuff(
                    whole,
                ) == Some(out@ + r2),
            spec_unstuff(s@.subrange(i as int, end as int)) is None ==> spec_unstuff(
                whole,
            ) is None,
        decreases end - i,
    {
        let ghost pre = s@.subrange(i as int, end as int);
        let b = s[i];
        assert(pre[0] == b);
        if b == FRAME_ESCAPE {
            if i + 1 < end {
                let c = s[i + 1];
                assert(pre[1] == c);
                if c == ESCAPED_DELIMITER || c == ESCAPED_ESCAPE {
                    let orig: u8 = if c == ESCAPED_DELIMITER {
                        FRAME_DELIMITER
                    } else {
                        FRAME_ESCAPE
                    };
                    let ghost out0 = out@;
                    out.push(orig);
                    proof {
                        assert(pre.skip(2) =~= s@.subrange(i + 2, end as int));
                        assert forall|r2: Seq<u8>|
                            spec_unstuff(s@.subrange(i + 2, end as int)) == Some(r2)
                            implies spec_unstuff(whole) == Some(out@ + r2) by {
                            assert(spec_unstuff(pre) == Some(seq![orig] + r2));
                            assert(spec_unstuff(whole) == Some(out0 + (seq![orig] + r2)));
                            assert(out0 + (seq![orig] + r2) =~= out@ + r2);
                        }
                        assert(spec_unstuff(s@.subrange(i + 2, end as int)) is None
                            ==> spec_unstuff(whole) is None);
                    }
                    i = i + 2;
                } else {
                    assert(spec_unstuff(pre) is None);
                    return Err(FrameError::Malformed);
                }
            } else {
                assert(spec_unstuff(pre) is None);
                return Err(FrameError::Malformed);
            }
        } else if b == FRAME_DELIMITER {
            assert(spec_unstuff(pre) is None);
            return Err(FrameError::Malformed);
        } else {
            let ghost out0 = out@;
            out.push(b);
            proof {
                assert(pre.skip(1) =~= s@.subrange(i + 1, end as int));
                assert forall|r2: Seq<u8>|
                    spec_unstuff(s@.subrange(i + 1, end as int)) == Some(r2) implies spec_unstuff(
                    whole,
                ) == Some(out@ + r2) by {
                    assert(spec_unstuff(pre) == Some(seq![b] + r2));
                    assert(spec_unstuff(whole) == Some(out0 + (seq![b] + r2)));
                    assert(out0 + (seq![b] + r2) =~= out@ + r2);
                }
                assert(spec_unstuff(s@.subrange(i + 1, end as int)) is None ==> spec_unstuff(
                    whole,
                ) is None);
            }
            i = i + 1;
        }
    }
    proof {
        assert(s@.subrange(i as int, end as int) =~= Seq::<u8>::empty());
        assert(spec_unstuff(s@.subrange(i as int, end as int)) == Some(Seq::<u8>::empty()));
        assert(out@ + Seq::<u8>::empty() =~= out@);
    }
    Ok(out)
}

/// Wire byte naming a provider inside a serialized [`Message::SetApiKey`].
pub open spec fn spec_provider_byte(p: ApiProvider) -> u8 {
    match p {
        ApiProvider::Fingrid => 0x01,
        ApiProvider::Entsoe => 0x02,
    }
}

/// The compact binary payload of a message: a tag byte, then each payload
/// string as one length byte followed by that many content bytes.
pub open spec fn spec_serialize_message(v: MessageView) -> Seq<u8> {
    match v {
        MessageView::SetWifiCredentials(info) => seq![TAG_SET_WIFI, info.ssid.len() as u8]
            + info.ssid + seq![info.password.len() as u8] + info.password,
        MessageView::SetApiKey(p, key) => seq![
            TAG_SET_API_KEY,
            spec_provider_byte(p),
            key.len() as u8,
        ] + key,
        MessageView::DisplayCommand(text) => seq![TAG_DISPLAY, text.len() as u8] + text,
    }
}

/// The single-byte payload of a response.
pub open spec fn spec_serialize_response(r: Response) -> Seq<u8> {
    match r {
        Response::Okay => seq![TAG_RESPONSE_OKAY],
        Response::Error => seq![TAG_RESPONSE_ERROR],
    }
}

/// Parses a message payload. `None` marks a payload that no well-formed
/// message serializes to: an unknown tag or provider byte, a length byte
/// past the payload bound, or leftover or missing bytes.
pub open spec fn spec_deserialize_message(b: Seq<u8>) -> Option<MessageView> {
    if b.len() < 1 {
        None
    } else if b[0] == TAG_SET_WIFI {
        if b.len() < 2 {
            None
        } else {
            let l1 = b[1] as int;
            if l1 > MAX_PAYLOAD_LEN || b.len() < 3 + l1 {
                None
            } else {
                let l2 = b[2 + l1] as int;
                if l2 > MAX_PAYLOAD_LEN || b.len() != 3 + l1 + l2 {
                    None
                } else {
                    Some(
                        MessageView::SetWifiCredentials(
                            WifiInfoView {
                                ssid: b.subrange(2, 2 + l1),
                                password: b.subrange(3 + l1, 3 + l1 + l2),
                            },
                        ),
                    )
                }
            }
        }
    } else if b[0] == TAG_SET_API_KEY {
        if b.len() < 3 {
            None
        } else {
            let l = b[2] as int;
            if l > MAX_PAYLOAD_LEN || b.len() != 3 + l {
                None
            } else if b[1] == spec_provider_byte(ApiProvider::Fingrid) {
                Some(MessageView::SetApiKey(ApiProvider::Fingrid, b.subrange(3, 3 + l)))
            } else if b[1] == spec_provider_byte(ApiProvider::Entsoe) {
                Some(MessageView::SetApiKey(ApiProvider::Entsoe, b.subrange(3, 3 + l)))
            } else {
                None
            }
        }
    } else if b[0] == TAG_DISPLAY {
        if b.len() < 2 {
            None
        } else {
            let l = b[1] as int;
            if l > MAX_PAYLOAD_LEN || b.len() != 2 + l {
                None
            } else {
                Some(MessageView::DisplayCommand(b.subrange(2, 2 + l)))
            }
        }
    } else {
        None
    }
}

/// Parses a response payload.
pub open spec fn spec_deserialize_response(b: Seq<u8>) -> Option<Response> {
    if b.len() == 1 && b[0] == TAG_RESPONSE_OKAY {
        Some(Response::Okay)
    } else if b.len() == 1 && b[0] == TAG_RESPONSE_ERROR {
        Some(Response::Error)
    } else {
        None
    }
}

/// Message payload parsing inverts serialization.
pub proof fn lemma_message_payload_round_trip(v: MessageView)
    requires
        v.wf(),
    ensures
        spec_deserialize_message(spec_serialize_message(v)) == Some(v),
{
    let b = spec_serialize_message(v);
    match v {
        MessageView::SetWifiCredentials(info) => {
            let l1 = info.ssid.len() as int;
            let l2 = info.password.len() as int;
            assert(b.len() == 3 + l1 + l2);
            assert(b[0] == TAG_SET_WIFI);
            assert(b[1] == l1 as u8);
            assert(b[2 + l1] == l2 as u8);
            assert(b.subrange(2, 2 + l1) =~= info.ssid);
            assert(b.subrange(3 + l1, 3 + l1 + l2) =~= info.password);
            assert(spec_deserialize_message(b) == Some(v));
        },
        MessageView::SetApiKey(p, key) => {
            let l = key.len() as int;
            assert(b.len() == 3 + l);
            assert(b[0] == TAG_SET_API_KEY);
            assert(b[1] == spec_provider_byte(p));
            assert(b[2] == l as u8);
            assert(b.subrange(3, 3 + l) =~= key);
            assert(spec_provider_byte(ApiProvider::Fingrid)
                != spec_provider_byte(ApiProvider::Entsoe));
            assert(spec_deserialize_message(b) == Some(v));
        },
        MessageView::DisplayCommand(text) => {
            let l = text.len() as int;
            assert(b.len() == 2 + l);
            assert(b[0] == TAG_DISPLAY);
            assert(b[1] == l as u8);
            assert(b.subrange(2, 2 + l) =~= text);
            assert(spec_deserialize_message(b) == Some(v));
        },
    }
}

/// Appends all of `src` to `out`.
pub(crate) fn append_bytes(out: &mut Vec<u8>, src: &Vec<u8>)
    ensures
        final(out)@ == old(out)@ + src@,
{
    let ghost orig = out@;
    let mut i: usize = 0;
    while i < src.len()
        invariant
            i <= src@.len(),
            out@ == orig + src@.take(i as int),
        decreases src@.len() - i,
    {
        out.push(src[i]);
        proof {
            assert(orig + src@.take(i + 1) =~= (orig + src@.take(i as int)).push(src@[i as int]));
        }
        i = i + 1;
    }
    proof {
        assert(orig + src@.take(src@.len() as int) =~= orig + src@);
    }
}

/// Copies `s[start..end]` into a fresh vector.
pub(crate) fn bytes_range(s: &Vec<u8>, start: usize, end: usize) -> (r: Vec<u8>)
    requires
        start <= end <= s@.len(),
    ensures
        r@ == s@.subrange(start as int, end as int),
{
    let mut out: Vec<u8> = Vec::new();
    let mut i: usize = start;
    while i < end
        invariant
            start <= i <= end <= s@.len(),
            out@ == s@.subrange(start as int, i as int),
        decreases end - i,
    {
        out.push(s[i]);
        proof {
            assert(s@.subrange(start as int, i + 1) =~= s@.subrange(start as int, i as int).push(
                s@[i as int],
            ));
        }
        i = i + 1;
    }
    out
}

/// Serializes a message into its compact binary payload.
pub fn serialize_message(m: &Message) -> (r: Vec<u8>)
    requires
        m@.wf(),
    ensures
        r@ == spec_serialize_message(m@),
{
    let mut out: Vec<u8> = Vec::new();
    match m {
        Message::SetWifiCredentials(info) => {
            out.push(TAG_SET_WIFI);
            out.push(info.get_ssid().len() as u8);
            append_bytes(&mut out, info.get_ssid());
            out.push(info.get_password().len() as u8);
            append_bytes(&mut out, info.get_password());
            proof {
                assert(out@ =~= spec_serialize_message(m@));
            }
        },
        Message::SetApiKey(p, key) => {
            out.push(TAG_SET_API_KEY);
            let pb: u8 = match p {
                ApiProvider::Fingrid => 0x01,
                ApiProvider::Entsoe => 0x02,
            };
            out.push(pb);
            out.push(key.len() as u8);
            append_bytes(&mut out, key);
            proof {
                assert(out@ =~= spec_serialize_message(m@));
            }
        },
        Message::DisplayCommand(text) => {
            out.push(TAG_DISPLAY);
            out.push(text.len() as u8);
            append_bytes(&mut out, text);
            proof {
                assert(out@ =~= spec_serialize_message(m@));
            }
        },
    }
    out
}

/// Parses a compact binary payload back into a message.
pub fn deserialize_message(bytes: &Vec<u8>) -> (r: Result<Message, FrameError>)
    ensures
        match r {
            Ok(m) => spec_deserialize_message(bytes@) == Some(m@),
            Err(e) => {
                &&& e == FrameError::Malformed
                &&& spec_deserialize_message(bytes@) is None
            },
        },
{
    if bytes.len() < 1 {
        return Err(FrameError::Malformed);
    }
    let tag = bytes[0];
    if tag == TAG_SET_WIFI {
        if bytes.len() < 2 {
            return Err(FrameError::Malformed);
        }
        let l1 = bytes[1] as usize;
        if l1 > MAX_PAYLOAD_LEN || bytes.len() < 3 + l1 {
            return Err(FrameError::Malformed);
        }
        let l2 = bytes[2 + l1] as usize;
        if l2 > MAX_PAYLOAD_LEN || bytes.len() != 3 + l1 + l2 {
            return Err(FrameError::Malformed);
        }
        let ssid = bytes_range(bytes, 2, 2 + l1);
        let password = bytes_range(bytes, 3 + l1, 3 + l1 + l2);
        Ok(Message::SetWifiCredentials(WifiInfo::new(ssid, password)))
    } else if tag == TAG_SET_API_KEY {
        if bytes.len() < 3 {
            return Err(FrameError::Malformed);
        }
        let l = bytes[2] as usize;
        if l > MAX_PAYLOAD_LEN || bytes.len() != 3 + l {
            return Err(FrameError::Malformed);
        }
        let provider = if bytes[1] == 0x01 {
            ApiProvider::Fingrid
        } else if bytes[1] == 0x02 {
            ApiProvider::Entsoe
        } else {
            return Err(FrameError::Malformed);
        };
        let key = bytes_range(bytes, 3, 3 + l);
        Ok(Message::SetApiKey(provider, key))
    } else if tag == TAG_DISPLAY {
        if bytes.len() < 2 {
            return Err(FrameError::Malformed);
        }
        let l = bytes[1] as usize;
        if l > MAX_PAYLOAD_LEN || bytes.len() != 2 + l {
            return Err(FrameError::Malformed);
        }
        let text = bytes_range(bytes, 2, 2 + l);
        Ok(Message::DisplayCommand(text))
    } else {
        Err(FrameError::Malformed)
    }
}

/// Serializes a response into its single-byte payload.
pub fn serialize_response(r: &Response) -> (out: Vec<u8>)
    ensures
        out@ == spec_serialize_response(*r),
{
    let mut out: Vec<u8> = Vec::new();
    match r {
        Response::Okay => out.push(TAG_RESPONSE_OKAY),
        Response::Error => out.push(TAG_RESPONSE_ERROR),
    }
    proof {
        assert(out@ =~= spec_serialize_response(*r));
    }
    out
}

/// Parses a single-byte payload back into a response.
pub fn deserialize_response(bytes: &Vec<u8>) -> (r: Result<Response, FrameError>)
    ensures
        match r {
            Ok(resp) => spec_deserialize_response(bytes@) == Some(resp),
            Err(e) => {
                &&& e == FrameError::Malformed
                &&& spec_deserialize_response(bytes@) is None
            },
        },
{
    if bytes.len() == 1 && bytes[0] == TAG_RESPONSE_OKAY {
        Ok(Response::Okay)
    } else if bytes.len() == 1 && bytes[0] == TAG_RESPONSE_ERROR {
        Ok(Response::Error)
    } else {
        Err(FrameError::Malformed)
    }
}

/// A payload that parses as a message is exactly that message's
/// serialization, and the message is well formed.
pub proof fn lemma_message_payload_exact(b: Seq<u8>, v: MessageView)
    requires
        spec_deserialize_message(b) == Some(v),
    ensures
        v.wf(),
        b == spec_serialize_message(v),
{
    match v {
        MessageView::SetWifiCredentials(info) => {
            assert(b =~= spec_serialize_message(v));
        },
        MessageView::SetApiKey(p, key) => {
            assert(b =~= spec_serialize_message(v));
        },
        MessageView::DisplayCommand(text) => {
            assert(b =~= spec_serialize_message(v));
        },
    }
}

/// The CRC-32/CKSUM checksum of a byte sequence. The checksum is computed by
/// an outside library; the contracts here treat it as an unspecified pure
/// function of the bytes alone.
pub uninterp spec fn crc32_of(data: Seq<u8>) -> u32;

/// Relies on `crc::Crc::<u32>::checksum` with the catalog's `CRC_32_CKSUM`
/// algorithm: a deterministic table-driven function of the input bytes.
#[verifier::external_body]
fn crc32_cksum(data: &Vec<u8>) -> (r: u32)
    ensures
        r == crc32_of(data@),
{
    crc::Crc::<u32>::new(&crc::CRC_32_CKSUM).checksum(data.as_slice())
}

/// A payload extended by its little-endian 32-bit checksum.
pub open spec fn spec_checksummed(p: Seq<u8>) -> Seq<u8> {
    p + spec_u32_to_le_bytes(crc32_of(p))
}

/// The full frame carrying a payload: the checksummed payload, stuffed, then
/// one unescaped delimiter byte.
pub open spec fn spec_frame(p: Seq<u8>) -> Seq<u8> {
    spec_stuff(spec_checksummed(p)) + seq![FRAME_DELIMITER]
}

/// Frame decoding: demands exactly one delimiter byte, at the very end,
/// de-stuffs what precedes it, and checks the trailing checksum.
pub open spec fn spec_frame_decode(f: Seq<u8>) -> Result<Seq<u8>, FrameError> {
    if f.len() < 1 || f[f.len() - 1] != FRAME_DELIMITER {
        Err(FrameError::Malformed)
    } else {
        match spec_unstuff(f.take(f.len() - 1)) {
            None => Err(FrameError::Malformed),
            Some(body) => {
                if body.len() < 4 {
                    Err(FrameError::Malformed)
                } else {
                    let p = body.take(body.len() - 4);
                    let c = body.skip(body.len() - 4);
                    if spec_u32_from_le_bytes(c) == crc32_of(p) {
                        Ok(p)
                    } else {
                        Err(FrameError::ChecksumMismatch)
                    }
                }
            },
        }
    }
}

/// Decoding a well-formed frame yields exactly the payload it was built
/// from.
pub proof fn lemma_frame_round_trip(p: Seq<u8>)
    ensures
        spec_frame_decode(spec_frame(p)) == Ok::<Seq<u8>, FrameError>(p),
{
    let body = spec_checksummed(p);
    let f = spec_frame(p);
    lemma_stuff_clean(body);
    lemma_auto_spec_u32_to_from_le_bytes();
    assert(f[f.len() - 1] == FRAME_DELIMITER);
    assert(f.take(f.len() - 1) =~= spec_stuff(body));
    lemma_unstuff_stuff(body);
    assert(body.len() == p.len() + 4);
    assert(body.take(body.len() - 4) =~= p);
    assert(body.skip(body.len() - 4) =~= spec_u32_to_le_bytes(crc32_of(p)));
}

/// A frame that decodes successfully is exactly the frame built from the
/// payload it decodes to: corruption is never delivered as a different
/// payload.
pub proof fn lemma_frame_decode_exact(f: Seq<u8>, p: Seq<u8>)
    requires
        spec_frame_decode(f) == Ok::<Seq<u8>, FrameError>(p),
    ensures
        f == spec_frame(p),
{
    let body = spec_unstuff(f.take(f.len() - 1)).unwrap();
    lemma_unstuff_is_stuffed(f.take(f.len() - 1), body);
    lemma_auto_spec_u32_to_from_le_bytes();
    assert(body.skip(body.len() - 4).len() == 4);
    assert(body.skip(body.len() - 4) =~= spec_u32_to_le_bytes(crc32_of(p)));
    assert(body =~= spec_checksummed(p));
    assert(f =~= spec_frame(p));
}

/// Builds the frame that carries `payload`: the payload, its little-endian
/// 32-bit checksum, delimiter-stuffed, then the single delimiter byte, which
/// appears in the frame exactly once, as the final byte.
pub fn serialize_crc_cobs(payload: &Vec<u8>) -> (r: Vec<u8>)
    ensures
        r@ == spec_frame(payload@),
        r@.len() >= 1,
        r@[r@.len() - 1] == FRAME_DELIMITER,
        forall|i: int| 0 <= i < r@.len() - 1 ==> r@[i] != FRAME_DELIMITER,
        r@.len() <= 2 * payload@.len() + 9,
{
    let crc = crc32_cksum(payload);
    let crc_bytes = u32_to_le_bytes(crc);
    let mut body: Vec<u8> = Vec::new();
    append_bytes(&mut body, payload);
    append_bytes(&mut body, &crc_bytes);
    proof {
        assert(Seq::<u8>::empty() + payload@ + crc_bytes@ =~= spec_checksummed(payload@));
    }
    let mut out: Vec<u8> = Vec::new();
    stuff_into(&body, &mut out);
    proof {
        assert(Seq::<u8>::empty() + spec_stuff(body@) =~= spec_stuff(body@));
        lemma_stuff_clean(body@);
    }
    out.push(FRAME_DELIMITER);
    proof {
        assert(out@ =~= spec_frame(payload@));
    }
    out
}

/// Takes one received frame, including its trailing delimiter byte, and
/// recovers the payload, or says how the frame is corrupt.
pub fn deserialize_crc_cobs(frame: &Vec<u8>) -> (r: Result<Vec<u8>, FrameError>)
    ensures
        match r {
            Ok(p) => spec_frame_decode(frame@) == Ok::<Seq<u8>, FrameError>(p@),
            Err(e) => spec_frame_decode(frame@) == Err::<Seq<u8>, FrameError>(e),
        },
{
    let n = frame.len();
    if n < 1 || frame[n - 1] != FRAME_DELIMITER {
        return Err(FrameError::Malformed);
    }
    proof {
        assert(frame@.take(n - 1) =~= frame@.subrange(0, n - 1));
    }
    let body = match unstuff_range(frame, 0, n - 1) {
        Ok(b) => b,
        Err(e) => {
            return Err(e);
        },
    };
    let bn = body.len();
    if bn < 4 {
        return Err(FrameError::Malformed);
    }
    let payload = bytes_range(&body, 0, bn - 4);
    let crc_bytes = bytes_range(&body, bn - 4, bn);
    proof {
        assert(body@.take(bn - 4) =~= body@.subrange(0, bn - 4));
        assert(body@.skip(bn - 4) =~= body@.subrange(bn - 4, bn as int));
    }
    let expected = u32_from_le_bytes(crc_bytes.as_slice());
    let actual = crc32_cksum(&payload);
    if expected != actual {
        return Err(FrameError::ChecksumMismatch);
    }
    Ok(payload)
}

/// Longest frame that [`encode_message`] can produce: the longest message
/// payload plus its checksum, every byte stuffed to two, plus the delimiter.
pub const MESSAGE_SIZE: usize = 2 * (3 + 64 + 64 + 4) + 1;

/// Longest frame that [`encode_response`] can produce.
pub const RESPONSE_SIZE: usize = 2 * (1 + 4) + 1;

/// The frame that carries a message.
pub open spec fn spec_encode_message(v: MessageView) -> Seq<u8> {
    spec_frame(spec_serialize_message(v))
}

/// Frame decoding composed with message parsing.
pub open spec fn spec_decode_message(f: Seq<u8>) -> Result<MessageView, FrameError> {
    match spec_frame_decode(f) {
        Err(e) => Err(e),
        Ok(p) => match spec_deserialize_message(p) {
            Some(v) => Ok(v),
            None => Err(FrameError::Malformed),
        },
    }
}

/// The frame that carries a response.
pub open spec fn spec_encode_response(resp: Response) -> Seq<u8> {
    spec_frame(spec_serialize_response(resp))
}

/// Frame decoding composed with response parsing.
pub open spec fn spec_decode_response(f: Seq<u8>) -> Result<Response, FrameError> {
    match spec_frame_decode(f) {
        Err(e) => Err(e),
        Ok(p) => match spec_deserialize_response(p) {
            Some(resp) => Ok(resp),
            None => Err(FrameError::Malformed),
        },
    }
}

/// Encodes one message as a frame. The frame never exceeds
/// [`MESSAGE_SIZE`] bytes and contains the delimiter byte exactly once, as
/// its final byte.
pub fn encode_message(m: &Message) -> (r: Vec<u8>)
    requires
        m@.wf(),
    ensures
        r@ == spec_encode_message(m@),
        r@.len() >= 1,
        r@[r@.len() - 1] == FRAME_DELIMITER,
        forall|i: int| 0 <= i < r@.len() - 1 ==> r@[i] != FRAME_DELIMITER,
        r@.len() <= MESSAGE_SIZE,
{
    let payload = serialize_message(m);
    serialize_crc_cobs(&payload)
}

/// Decodes one received frame, including its trailing delimiter byte, into
/// the message it carries. A frame is accepted exactly when it is the
/// encoding of a well-formed message, and then yields that message.
pub fn decode_message(frame: &Vec<u8>) -> (r: Result<Message, FrameError>)
    ensures
        match r {
            Ok(m) => {
                &&& spec_decode_message(frame@) == Ok::<MessageView, FrameError>(m@)
                &&& m@.wf()
                &&& frame@ == spec_encode_message(m@)
            },
            Err(e) => spec_decode_message(frame@) == Err::<MessageView, FrameError>(e),
        },
{
    let payload = match deserialize_crc_cobs(frame) {
        Ok(p) => p,
        Err(e) => {
            return Err(e);
        },
    };
    match deserialize_message(&payload) {
        Ok(m) => {
            proof {
                lemma_message_payload_exact(payload@, m@);
                lemma_frame_decode_exact(frame@, payload@);
            }
            Ok(m)
        },
        Err(e) => Err(e),
    }
}

/// Encodes one response as a frame of at most [`RESPONSE_SIZE`] bytes, with
/// the delimiter byte exactly once, as its final byte.
pub fn encode_response(resp: &Response) -> (r: Vec<u8>)
    ensures
        r@ == spec_encode_response(*resp),
        r@.len() >= 1,
        r@[r@.len() - 1] == FRAME_DELIMITER,
        forall|i: int| 0 <= i < r@.len() - 1 ==> r@[i] != FRAME_DELIMITER,
        r@.len() <= RESPONSE_SIZE,
{
    let payload = serialize_response(resp);
    serialize_crc_cobs(&payload)
}

/// Decodes one received frame into the response it carries. A frame is
/// accepted exactly when it is the encoding of a response, and then yields
/// that response.
pub fn decode_response(frame: &Vec<u8>) -> (r: Result<Response, FrameError>)
    ensures
        match r {
            Ok(resp) => {
                &&& spec_decode_response(frame@) == Ok::<Response, FrameError>(resp)
                &&& frame@ == spec_encode_response(resp)
            },
            Err(e) => spec_decode_response(frame@) == Err::<Response, FrameError>(e),
        },
{
    let payload = match deserialize_crc_cobs(frame) {
        Ok(p) => p,
        Err(e) => {
            return Err(e);
        },
    };
    match deserialize_response(&payload) {
        Ok(resp) => {
            proof {
                assert(payload@ =~= spec_serialize_response(resp));
                lemma_frame_decode_exact(frame@, payload@);
            }
            Ok(resp)
        },
        Err(e) => Err(e),
    }
}

/// Shape of an encoded message frame: at most [`MESSAGE_SIZE`] bytes, with
/// the delimiter byte exactly once, as the final byte.
pub proof fn lemma_encode_message_shape(v: MessageView)
    requires
        v.wf(),
    ensures
        ({
            let f = spec_encode_message(v);
            &&& 1 <= f.len() <= MESSAGE_SIZE
            &&& f[f.len() - 1] == FRAME_DELIMITER
            &&& forall|i: int| 0 <= i < f.len() - 1 ==> f[i] != FRAME_DELIMITER
        }),
{
    let p = spec_serialize_message(v);
    let body = spec_checksummed(p);
    lemma_stuff_clean(body);
    lemma_auto_spec_u32_to_from_le_bytes();
    assert(p.len() <= 3 + 2 * MAX_PAYLOAD_LEN);
    let f = spec_encode_message(v);
    assert(f[f.len() - 1] == FRAME_DELIMITER);
    assert forall|i: int| 0 <= i < f.len() - 1 implies f[i] != FRAME_DELIMITER by {
        assert(f[i] == spec_stuff(body)[i]);
    }
}

/// Round trip: decoding the encoding of any well-formed message yields
/// exactly that message.
pub proof fn lemma_message_round_trip(v: MessageView)
    requires
        v.wf(),
    ensures
        spec_decode_message(spec_encode_message(v)) == Ok::<MessageView, FrameError>(v),
{
    lemma_frame_round_trip(spec_serialize_message(v));
    lemma_message_payload_round_trip(v);
}

/// A frame that decodes to a message is exactly that message's encoding:
/// a corrupted frame is rejected, never delivered as a different message.
pub proof fn lemma_message_decode_exact(f: Seq<u8>, v: MessageView)
    requires
        spec_decode_message(f) == Ok::<MessageView, FrameError>(v),
    ensures
        v.wf(),
        f == spec_encode_message(v),
{
    let p = spec_frame_decode(f).unwrap();
    lemma_message_payload_exact(p, v);
    lemma_frame_decode_exact(f, p);
}

/// Round trip for responses.
pub proof fn lemma_response_round_trip(resp: Response)
    ensures
        spec_decode_response(spec_encode_response(resp)) == Ok::<Response, FrameError>(resp),
{
    lemma_frame_round_trip(spec_serialize_response(resp));
}

/// A frame that decodes to a response is exactly that response's encoding.
pub proof fn lemma_response_decode_exact(f: Seq<u8>, resp: Response)
    requires
        spec_decode_response(f) == Ok::<Response, FrameError>(resp),
    ensures
        f == spec_encode_response(resp),
{
    let p = spec_frame_decode(f).unwrap();
    assert(p =~= spec_serialize_response(resp));
    lemma_frame_decode_exact(f, p);
}

} // verus!
