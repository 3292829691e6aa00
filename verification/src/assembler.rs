//! Putting frames together from a stream that hands over its bytes in any
//! pieces, down to one at a time.

use vstd::prelude::*;
use crate::buffer::{is_frame, FrameBuffer};
use crate::error::CyprotoError;
use crate::model::{BYTES_MAX, DELIMITER};

verus! {

/// An assembler as contracts see it.
pub struct AssemblerView {
    /// The bytes of the frame that is being collected.
    pub pending: Seq<u8>,
    /// Bytes are being dropped up to the next delimiter.
    pub skipping: bool,
}

/// What one byte brings about.
pub enum FeedEvent {
    /// The byte was taken, or dropped; no frame is whole yet.
    Nothing,
    /// The byte ended a frame, which is handed over.
    Frame(Seq<u8>),
    /// The byte found the buffer full. What was collected is given up.
    Overflow,
}

impl AssemblerView {
    /// The state in which a stream begins, and to which every delimiter
    /// leads back.
    pub open spec fn clean() -> AssemblerView {
        AssemblerView { pending: Seq::<u8>::empty(), skipping: false }
    }

    /// What is collected fits the buffer and holds no delimiter, and
    /// nothing is collected while bytes are dropped.
    pub open spec fn wf(self) -> bool {
        &&& self.pending.len() <= BYTES_MAX
        &&& forall|i: int| 0 <= i < self.pending.len() ==> self.pending[i] != DELIMITER
        &&& self.skipping ==> self.pending.len() == 0
    }

    /// The state after one more byte, and what the byte brought about.
    ///
    /// A byte that finds the buffer full cannot be part of a frame that
    /// fits. The bytes collected are then given up and, unless that byte
    /// is itself a delimiter, so is everything up to the next one.
    pub open spec fn fed(self, byte: u8) -> (AssemblerView, FeedEvent) {
        if self.skipping {
            (
                AssemblerView { pending: Seq::<u8>::empty(), skipping: byte != DELIMITER },
                FeedEvent::Nothing,
            )
        } else if self.pending.len() >= BYTES_MAX {
            (
                AssemblerView { pending: Seq::<u8>::empty(), skipping: byte != DELIMITER },
                FeedEvent::Overflow,
            )
        } else if byte == DELIMITER {
            (AssemblerView::clean(), FeedEvent::Frame(self.pending.push(byte)))
        } else {
            (AssemblerView { pending: self.pending.push(byte), skipping: false }, FeedEvent::Nothing)
        }
    }

    /// The state after a run of bytes, and what they brought about, in
    /// order and without the bytes that brought about nothing.
    pub open spec fn fed_all(self, bytes: Seq<u8>) -> (AssemblerView, Seq<FeedEvent>)
        decreases bytes.len(),
    {
        if bytes.len() == 0 {
            (self, Seq::<FeedEvent>::empty())
        } else {
            let (mid, events) = self.fed_all(bytes.drop_last());
            let (next, event) = mid.fed(bytes.last());
            (
                next,
                if event is Nothing {
                    events
                } else {
                    events.push(event)
                },
            )
        }
    }
}

/// Feeding two runs of bytes one after the other is feeding them joined.
pub proof fn lemma_fed_all_joined(s: AssemblerView, a: Seq<u8>, b: Seq<u8>)
    ensures
        s.fed_all(a + b).0 == s.fed_all(a).0.fed_all(b).0,
        s.fed_all(a + b).1 == s.fed_all(a).1 + s.fed_all(a).0.fed_all(b).1,
    decreases b.len(),
{
    if b.len() == 0 {
        assert(a + b == a);
        assert(s.fed_all(a).1 + Seq::<FeedEvent>::empty() == s.fed_all(a).1);
    } else {
        lemma_fed_all_joined(s, a, b.drop_last());
        assert((a + b).drop_last() == a + b.drop_last());
        assert((a + b).last() == b.last());
        let mid = s.fed_all(a).0;
        let (before, events) = mid.fed_all(b.drop_last());
        let event = before.fed(b.last()).1;
        if !(event is Nothing) {
            assert((s.fed_all(a).1 + events).push(event) == s.fed_all(a).1 + events.push(event));
        }
    }
}

/// Bytes without a delimiter that fit the buffer are collected and bring
/// about nothing.
pub proof fn lemma_fed_all_collects(bytes: Seq<u8>)
    requires
        bytes.len() <= BYTES_MAX,
        forall|i: int| 0 <= i < bytes.len() ==> bytes[i] != DELIMITER,
    ensures
        AssemblerView::clean().fed_all(bytes) == (
            AssemblerView { pending: bytes, skipping: false },
            Seq::<FeedEvent>::empty(),
        ),
    decreases bytes.len(),
{
    if bytes.len() == 0 {
        assert(bytes == Seq::<u8>::empty());
    } else {
        lemma_fed_all_collects(bytes.drop_last());
        assert(bytes.drop_last().push(bytes.last()) == bytes);
    }
}

/// A frame that fits the buffer, fed at the start of a stream or behind
/// another frame, is handed over whole, once, and leaves the assembler as
/// it was before.
pub proof fn lemma_frame_is_delivered(frame: Seq<u8>)
    requires
        is_frame(frame),
        frame.len() <= BYTES_MAX,
    ensures
        AssemblerView::clean().fed_all(frame) == (
            AssemblerView::clean(),
            seq![FeedEvent::Frame(frame)],
        ),
{
    lemma_fed_all_collects(frame.drop_last());
    assert(frame.drop_last().push(frame.last()) == frame);
    assert(Seq::<FeedEvent>::empty().push(FeedEvent::Frame(frame)) == seq![
        FeedEvent::Frame(frame),
    ]);
}

/// Two frames that fit the buffer, fed one behind the other, are handed
/// over one after the other, each as it is. Whatever the first one holds,
/// the second is not touched by it.
pub proof fn lemma_frames_do_not_mix(first: Seq<u8>, second: Seq<u8>)
    requires
        is_frame(first),
        is_frame(second),
        first.len() <= BYTES_MAX,
        second.len() <= BYTES_MAX,
    ensures
        AssemblerView::clean().fed_all(first + second) == (
            AssemblerView::clean(),
            seq![FeedEvent::Frame(first), FeedEvent::Frame(second)],
        ),
{
    lemma_frame_is_delivered(first);
    lemma_frame_is_delivered(second);
    lemma_fed_all_joined(AssemblerView::clean(), first, second);
    assert(seq![FeedEvent::Frame(first)] + seq![FeedEvent::Frame(second)] == seq![
        FeedEvent::Frame(first),
        FeedEvent::Frame(second),
    ]);
}

/// After an overflow the assembler is in step again behind the next
/// delimiter: from there on a frame that fits is handed over whole.
pub proof fn lemma_in_step_after_delimiter(s: AssemblerView, frame: Seq<u8>)
    requires
        s.wf(),
        s.skipping,
        is_frame(frame),
        frame.len() <= BYTES_MAX,
    ensures
        s.fed(DELIMITER).0 == AssemblerView::clean(),
        s.fed(DELIMITER).0.fed_all(frame) == (
            AssemblerView::clean(),
            seq![FeedEvent::Frame(frame)],
        ),
{
    lemma_frame_is_delivered(frame);
}

/// Collects the bytes of a stream into frames, in a buffer that is used
/// again for every frame.
#[derive(Clone, Copy, Debug)]
pub struct FrameAssembler {
    buffer: FrameBuffer,
    skipping: bool,
}

impl View for FrameAssembler {
    type V = AssemblerView;

    closed spec fn view(&self) -> AssemblerView {
        AssemblerView { pending: self.buffer@, skipping: self.skipping }
    }
}

impl FrameAssembler {
    #[verifier::type_invariant]
    closed spec fn inv(self) -> bool {
        self@.wf()
    }

    /// An assembler at the start of a stream.
    pub fn new() -> (a: FrameAssembler)
        ensures
            a@ == AssemblerView::clean(),
    {
        FrameAssembler { buffer: FrameBuffer::new(), skipping: false }
    }

    /// The number of bytes collected for the frame to come.
    pub fn pending(&self) -> (n: usize)
        ensures
            n == self@.pending.len(),
            self@.wf(),
    {
        proof {
            use_type_invariant(self);
        }
        self.buffer.len()
    }

    /// Whether bytes are being dropped up to the next delimiter.
    pub fn is_skipping(&self) -> (b: bool)
        ensures
            b == self@.skipping,
    {
        self.skipping
    }

    /// Takes one byte of the stream.
    ///
    /// A delimiter ends the frame collected so far, which is handed over
    /// whole. A byte that finds the buffer full is an overflow: what was
    /// collected is given up, and so is what follows up to the next
    /// delimiter, behind which the stream is in step again.
    pub fn feed(&mut self, byte: u8) -> (r: Result<Option<FrameBuffer>, CyprotoError>)
        ensures
            old(self)@.wf(),
            final(self)@.wf(),
            final(self)@ == old(self)@.fed(byte).0,
            match old(self)@.fed(byte).1 {
                FeedEvent::Nothing => r == Ok::<Option<FrameBuffer>, CyprotoError>(None),
                FeedEvent::Frame(bytes) => r is Ok && r->Ok_0 is Some && r->Ok_0->Some_0@ == bytes
                    && is_frame(bytes),
                FeedEvent::Overflow => r == Err::<Option<FrameBuffer>, CyprotoError>(
                    CyprotoError::BufferOverflow,
                ),
            },
    {
        proof {
            use_type_invariant(&*self);
        }
        if self.skipping {
            proof {
                assert(self.buffer@ =~= Seq::<u8>::empty());
            }
            self.skipping = byte != DELIMITER;
            return Ok(None);
        }
        if self.buffer.is_full() {
            self.buffer = FrameBuffer::new();
            self.skipping = byte != DELIMITER;
            return Err(CyprotoError::BufferOverflow);
        }
        let mut grown = self.buffer;
        let _ = grown.push(byte);
        if byte == DELIMITER {
            self.buffer = FrameBuffer::new();
            Ok(Some(grown))
        } else {
            self.buffer = grown;
            Ok(None)
        }
    }
}

} // verus!
