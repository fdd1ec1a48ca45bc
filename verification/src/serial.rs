//! Byte-accumulation protocol of the serial receiver.
//!
//! The receiver reads one byte at a time and hands it to a
//! [`FrameAccumulator`]. Bytes are collected until the frame delimiter
//! arrives; the collected chunk is then decoded as one frame and the buffer
//! cleared. If the buffer would overflow before a delimiter is seen, the
//! accumulator reports [`FrameError::AccumulationOverflow`] and discards
//! bytes until the next delimiter instead of failing the receive loop: a
//! corrupt or oversized segment costs at most the frames it overlaps.

use vstd::prelude::*;
use crate::codec::{decode_message, spec_decode_message, spec_encode_message, FrameError,
    FRAME_DELIMITER, MESSAGE_SIZE};
use crate::messages::{Message, MessageView};

verus! {

/// Error starting one of the serial tasks.
#[derive(Debug, Clone, Copy, PartialEq, Eq, Structural)]
pub enum SerialError {
    SpawnError,
}

/// Mathematical view of a [`FrameAccumulator`]: the bytes collected so far
/// and whether the accumulator is discarding bytes after an overflow.
pub struct AccView {
    pub buffer: Seq<u8>,
    pub resyncing: bool,
}

/// The accumulator state holding nothing, ready for a fresh frame.
pub open spec fn acc_empty() -> AccView {
    AccView { buffer: Seq::empty(), resyncing: false }
}

/// One step of the accumulation protocol: the state after consuming `b`.
pub open spec fn spec_acc_step(s: AccView, b: u8) -> AccView {
    if s.resyncing {
        if b == FRAME_DELIMITER {
            acc_empty()
        } else {
            s
        }
    } else if b == FRAME_DELIMITER {
        acc_empty()
    } else if s.buffer.len() + 1 >= MESSAGE_SIZE {
        AccView { buffer: Seq::empty(), resyncing: true }
    } else {
        AccView { buffer: s.buffer.push(b), resyncing: false }
    }
}

/// What consuming `b` emits: a decoded chunk at a delimiter, an overflow
/// report when the buffer fills up, and nothing otherwise.
pub open spec fn spec_acc_emit(s: AccView, b: u8) -> Option<Result<MessageView, FrameError>> {
    if s.resyncing {
        None
    } else if b == FRAME_DELIMITER {
        Some(spec_decode_message(s.buffer.push(b)))
    } else if s.buffer.len() + 1 >= MESSAGE_SIZE {
        Some(Err(FrameError::AccumulationOverflow))
    } else {
        None
    }
}

/// Collects one optional emission into a sequence.
pub open spec fn spec_emit_seq(e: Option<Result<MessageView, FrameError>>) -> Seq<
    Result<MessageView, FrameError>,
> {
    match e {
        Some(r) => seq![r],
        None => Seq::empty(),
    }
}

/// Feeds a whole byte stream through the protocol, front to back: the final
/// state and everything emitted on the way.
pub open spec fn spec_feed(s: AccView, bytes: Seq<u8>) -> (AccView, Seq<
    Result<MessageView, FrameError>,
>)
    decreases bytes.len(),
{
    if bytes.len() == 0 {
        (s, Seq::empty())
    } else {
        let rest = spec_feed(spec_acc_step(s, bytes[0]), bytes.skip(1));
        (rest.0, spec_emit_seq(spec_acc_emit(s, bytes[0])) + rest.1)
    }
}

/// Accumulates bytes of the serial receive loop into delimited frames.
pub struct FrameAccumulator {
    buffer: Vec<u8>,
    resyncing: bool,
}

impl View for FrameAccumulator {
    type V = AccView;

    closed spec fn view(&self) -> AccView {
        AccView { buffer: self.buffer@, resyncing: self.resyncing }
    }
}

impl FrameAccumulator {
    /// The buffer never holds a full frame's worth of bytes, and nothing at
    /// all while resynchronizing.
    pub open spec fn wf(&self) -> bool {
        &&& self@.buffer.len() + 1 <= MESSAGE_SIZE
        &&& (self@.resyncing ==> self@.buffer.len() == 0)
    }

    /// A fresh, empty accumulator.
    pub fn new() -> (r: Self)
        ensures
            r.wf(),
            r@ == acc_empty(),
    {
        let r = FrameAccumulator { buffer: Vec::new(), resyncing: false };
        proof {
            assert(r@.buffer =~= acc_empty().buffer);
        }
        r
    }

    /// Consumes one received byte. Returns the decoded message when the byte
    /// completes a well-formed frame, the decode error when it completes a
    /// corrupt one, the overflow report when the buffer fills up before a
    /// delimiter, and nothing while a frame is still being collected or
    /// garbage is being discarded.
    pub fn push_byte(&mut self, b: u8) -> (r: Option<Result<Message, FrameError>>)
        requires
            old(self).wf(),
        ensures
            final(self).wf(),
            final(self)@ == spec_acc_step(old(self)@, b),
            match r {
                Some(Ok(m)) => spec_acc_emit(old(self)@, b) == Some(
                    Ok::<MessageView, FrameError>(m@),
                ),
                Some(Err(e)) => spec_acc_emit(old(self)@, b) == Some(
                    Err::<MessageView, FrameError>(e),
                ),
                None => spec_acc_emit(old(self)@, b) is None,
            },
    {
        if self.resyncing {
            if b == FRAME_DELIMITER {
                self.resyncing = false;
            }
            proof {
                assert(self@.buffer =~= acc_empty().buffer);
                assert(self@ == spec_acc_step(old(self)@, b));
            }
            None
        } else if b == FRAME_DELIMITER {
            self.buffer.push(b);
            let result = decode_message(&self.buffer);
            self.buffer.clear();
            proof {
                assert(self@.buffer =~= acc_empty().buffer);
                assert(self@ == spec_acc_step(old(self)@, b));
            }
            match result {
                Ok(m) => Some(Ok(m)),
                Err(e) => Some(Err(e)),
            }
        } else if self.buffer.len() + 1 >= MESSAGE_SIZE {
            self.buffer.clear();
            self.resyncing = true;
            proof {
                assert(self@.buffer =~= Seq::<u8>::empty());
                assert(self@ == spec_acc_step(old(self)@, b));
            }
            Some(Err(FrameError::AccumulationOverflow))
        } else {
            self.buffer.push(b);
            None
        }
    }
}

/// Feeding a concatenation feeds the first part, then the second from where
/// the first left off; the emissions concatenate.
pub proof fn lemma_feed_append(s: AccView, a: Seq<u8>, b: Seq<u8>)
    ensures
        spec_feed(s, a + b) == (
            spec_feed(spec_feed(s, a).0, b).0,
            spec_feed(s, a).1 + spec_feed(spec_feed(s, a).0, b).1,
        ),
    decreases a.len(),
{
    if a.len() == 0 {
        assert(a + b =~= b);
        assert(spec_feed(s, a).1 + spec_feed(spec_feed(s, a).0, b).1 =~= spec_feed(s, b).1);
    } else {
        lemma_feed_append(spec_acc_step(s, a[0]), a.skip(1), b);
        assert((a + b).skip(1) =~= a.skip(1) + b);
        assert(spec_feed(s, a + b).1 =~= (
            spec_feed(s, a).1 + spec_feed(spec_feed(s, a).0, b).1
        ));
    }
}

/// Feeding a single byte is one protocol step with its emission.
pub proof fn lemma_feed_one(s: AccView, b: u8)
    ensures
        spec_feed(s, seq![b]) == (spec_acc_step(s, b), spec_emit_seq(spec_acc_emit(s, b))),
{
    let s1 = spec_acc_step(s, b);
    assert(seq![b][0] == b);
    assert(seq![b].skip(1) =~= Seq::<u8>::empty());
    assert(spec_feed(s1, Seq::<u8>::empty()) == (
        s1,
        Seq::<Result<MessageView, FrameError>>::empty(),
    ));
    assert(spec_emit_seq(spec_acc_emit(s, b)) + Seq::<Result<MessageView, FrameError>>::empty()
        =~= spec_emit_seq(spec_acc_emit(s, b)));
}

/// Delimiter-free bytes that fit in the buffer are collected silently.
pub proof fn lemma_feed_collect(s: AccView, bytes: Seq<u8>)
    requires
        !s.resyncing,
        forall|i: int| 0 <= i < bytes.len() ==> bytes[i] != FRAME_DELIMITER,
        s.buffer.len() + bytes.len() + 1 <= MESSAGE_SIZE,
    ensures
        spec_feed(s, bytes) == (
            AccView { buffer: s.buffer + bytes, resyncing: false },
            Seq::<Result<MessageView, FrameError>>::empty(),
        ),
    decreases bytes.len(),
{
    if bytes.len() == 0 {
        assert(s.buffer + bytes =~= s.buffer);
        assert(spec_feed(s, bytes).1 =~= Seq::<Result<MessageView, FrameError>>::empty());
    } else {
        let s1 = spec_acc_step(s, bytes[0]);
        assert(s1 == AccView { buffer: s.buffer.push(bytes[0]), resyncing: false });
        lemma_feed_collect(s1, bytes.skip(1));
        assert(s.buffer.push(bytes[0]) + bytes.skip(1) =~= s.buffer + bytes);
        assert(spec_feed(s, bytes).1 =~= Seq::<Result<MessageView, FrameError>>::empty());
    }
}

/// While resynchronizing, delimiter-free bytes are discarded silently.
pub proof fn lemma_feed_resync(s: AccView, bytes: Seq<u8>)
    requires
        s.resyncing,
        forall|i: int| 0 <= i < bytes.len() ==> bytes[i] != FRAME_DELIMITER,
    ensures
        spec_feed(s, bytes) == (s, Seq::<Result<MessageView, FrameError>>::empty()),
    decreases bytes.len(),
{
    if bytes.len() > 0 {
        lemma_feed_resync(s, bytes.skip(1));
        assert(spec_feed(s, bytes).1 =~= Seq::<Result<MessageView, FrameError>>::empty());
    }
}

/// Feeding the encoding of a well-formed message into an empty accumulator
/// emits exactly that message and leaves the accumulator empty.
pub proof fn lemma_feed_frame(v: MessageView)
    requires
        v.wf(),
    ensures
        spec_feed(acc_empty(), spec_encode_message(v)) == (
            acc_empty(),
            seq![Ok::<MessageView, FrameError>(v)],
        ),
{
    let f = spec_encode_message(v);
    crate::codec::lemma_encode_message_shape(v);
    let head = f.take(f.len() - 1);
    let tail = seq![FRAME_DELIMITER];
    assert(head + tail =~= f);
    lemma_feed_collect(acc_empty(), head);
    let s1 = AccView { buffer: Seq::<u8>::empty() + head, resyncing: false };
    lemma_feed_append(acc_empty(), head, tail);
    lemma_feed_one(s1, FRAME_DELIMITER);
    assert(s1.buffer.push(FRAME_DELIMITER) =~= f);
    crate::codec::lemma_message_round_trip(v);
    assert(spec_acc_emit(s1, FRAME_DELIMITER) == Some(Ok::<MessageView, FrameError>(v)));
    assert(spec_feed(acc_empty(), f).1 =~= seq![Ok::<MessageView, FrameError>(v)]);
}

/// Resynchronization. A stream holding one well-formed frame, then a garbage
/// segment closed off by a delimiter, then a second well-formed frame,
/// delivers exactly the two encoded messages, in order; the garbage segment
/// produces one error and is never delivered as a value. The garbage may be
/// arbitrarily long: once it overflows the accumulation buffer it is
/// discarded up to its closing delimiter.
pub proof fn lemma_resync_stream(m1: MessageView, g: Seq<u8>, m2: MessageView)
    requires
        m1.wf(),
        m2.wf(),
        forall|i: int| 0 <= i < g.len() ==> g[i] != FRAME_DELIMITER,
        g.len() + 1 <= MESSAGE_SIZE ==> spec_decode_message(g + seq![FRAME_DELIMITER]) is Err,
    ensures
        ({
            let stream = spec_encode_message(m1) + (g + seq![FRAME_DELIMITER])
                + spec_encode_message(m2);
            let fed = spec_feed(acc_empty(), stream);
            &&& fed.0 == acc_empty()
            &&& fed.1.len() == 3
            &&& fed.1[0] == Ok::<MessageView, FrameError>(m1)
            &&& fed.1[1] is Err
            &&& fed.1[2] == Ok::<MessageView, FrameError>(m2)
        }),
{
    let f1 = spec_encode_message(m1);
    let f2 = spec_encode_message(m2);
    let mid = g + seq![FRAME_DELIMITER];
    lemma_feed_frame(m1);
    lemma_feed_frame(m2);
    // The middle segment from an empty accumulator: one error, back to empty.
    if g.len() + 1 <= MESSAGE_SIZE {
        lemma_feed_collect(acc_empty(), g);
        let s1 = AccView { buffer: Seq::<u8>::empty() + g, resyncing: false };
        lemma_feed_append(acc_empty(), g, seq![FRAME_DELIMITER]);
        lemma_feed_one(s1, FRAME_DELIMITER);
        assert(s1.buffer.push(FRAME_DELIMITER) =~= g + seq![FRAME_DELIMITER]);
        assert(spec_feed(acc_empty(), mid).0 == acc_empty());
        assert(spec_feed(acc_empty(), mid).1 =~= seq![
            spec_decode_message(g + seq![FRAME_DELIMITER]),
        ]);
    } else {
        let head = g.take(MESSAGE_SIZE - 1);
        let b = g[MESSAGE_SIZE - 1];
        let rest = g.skip(MESSAGE_SIZE as int);
        assert(head + (seq![b] + rest) =~= g);
        lemma_feed_collect(acc_empty(), head);
        let s1 = AccView { buffer: Seq::<u8>::empty() + head, resyncing: false };
        assert(s1.buffer.len() + 1 >= MESSAGE_SIZE) by {
            assert(s1.buffer =~= head);
        }
        let s2 = AccView { buffer: Seq::<u8>::empty(), resyncing: true };
        assert(spec_acc_step(s1, b) == s2);
        assert(spec_acc_emit(s1, b) == Some(
            Err::<MessageView, FrameError>(FrameError::AccumulationOverflow),
        ));
        lemma_feed_resync(s2, rest);
        lemma_feed_append(acc_empty(), head, seq![b] + rest);
        lemma_feed_append(s1, seq![b], rest);
        lemma_feed_one(s1, b);
        assert(spec_feed(s1, seq![b] + rest).1 =~= seq![
            Err::<MessageView, FrameError>(FrameError::AccumulationOverflow),
        ]);
        assert(spec_feed(acc_empty(), g).0 == s2);
        assert(spec_feed(acc_empty(), g).1 =~= seq![
            Err::<MessageView, FrameError>(FrameError::AccumulationOverflow),
        ]);
        lemma_feed_append(acc_empty(), g, seq![FRAME_DELIMITER]);
        lemma_feed_one(s2, FRAME_DELIMITER);
        assert(spec_acc_step(s2, FRAME_DELIMITER) == acc_empty());
        assert(spec_feed(acc_empty(), mid).0 == acc_empty());
        assert(spec_feed(acc_empty(), mid).1 =~= seq![
            Err::<MessageView, FrameError>(FrameError::AccumulationOverflow),
        ]);
    }
    let mid_err = spec_feed(acc_empty(), mid).1[0];
    lemma_feed_append(acc_empty(), f1, mid + f2);
    lemma_feed_append(acc_empty(), mid, f2);
    let stream = f1 + (mid + f2);
    let fed = spec_feed(acc_empty(), stream);
    assert(fed.1 =~= seq![Ok::<MessageView, FrameError>(m1)] + (spec_feed(acc_empty(), mid).1
        + seq![Ok::<MessageView, FrameError>(m2)]));
    assert(fed.1.len() == 3);
    assert(fed.1[1] == mid_err);
    assert(mid_err is Err);
    assert(f1 + (mid + f2) =~= f1 + mid + f2);
}

} // verus!
