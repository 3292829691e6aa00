//! The bounded buffer: a fixed region of `BYTES_MAX` bytes that holds one
//! frame at a time and never grows.

use vstd::prelude::*;
use vstd::slice::slice_subrange;
use crate::error::CyprotoError;
use crate::model::{BYTES_MAX, DELIMITER};
use crate::stuffing::{stuff, stuffed, stuffed_len_max, unstuff, unstuffed};

verus! {

/// The bytes are one whole frame: they end with the delimiter and hold it
/// nowhere else.
pub open spec fn is_frame(bytes: Seq<u8>) -> bool {
    &&& bytes.len() > 0
    &&& bytes.last() == DELIMITER
    &&& forall|i: int| 0 <= i < bytes.len() - 1 ==> bytes[i] != DELIMITER
}

/// Length of the longest payload whose frame is sure to fit the buffer.
pub const FRAMED_MAX: usize = 254;

/// A payload of `FRAMED_MAX` bytes makes a frame of at most `BYTES_MAX`.
pub proof fn lemma_framed_max_fits()
    ensures
        stuffed_len_max(FRAMED_MAX as nat) + 1 == BYTES_MAX,
        forall|n: nat| n <= FRAMED_MAX ==> #[trigger] stuffed_len_max(n) + 1 <= BYTES_MAX,
{
}

/// The frame of a payload: its stuffed form, then the delimiter.
pub open spec fn frame_of(payload: Seq<u8>) -> Seq<u8> {
    stuffed(payload).push(DELIMITER)
}

/// The payload of a frame; nothing where the bytes are not one whole frame
/// or do not unstuff.
pub open spec fn frame_payload(bytes: Seq<u8>) -> Option<Seq<u8>> {
    if is_frame(bytes) {
        unstuffed(bytes)
    } else {
        None
    }
}

/// A region of `BYTES_MAX` bytes of which the first `len` are in use.
#[derive(Clone, Copy, Debug)]
pub struct FrameBuffer {
    pub(crate) bytes: [u8; BYTES_MAX],
    pub(crate) len: usize,
}

impl View for FrameBuffer {
    type V = Seq<u8>;

    /// The bytes in use, first pushed first.
    closed spec fn view(&self) -> Seq<u8> {
        self.bytes@.take(self.len as int)
    }
}

impl FrameBuffer {
    #[verifier::type_invariant]
    pub(crate) closed spec fn fits(self) -> bool {
        self.len <= BYTES_MAX
    }

    /// An empty buffer.
    pub fn new() -> (b: FrameBuffer)
        ensures
            b@ == Seq::<u8>::empty(),
    {
        FrameBuffer { bytes: [0u8; BYTES_MAX], len: 0 }
    }

    pub fn len(&self) -> (n: usize)
        ensures
            n == self@.len(),
            n <= BYTES_MAX,
    {
        proof {
            use_type_invariant(self);
        }
        self.len
    }

    pub fn is_empty(&self) -> (b: bool)
        ensures
            b == (self@.len() == 0),
    {
        proof {
            use_type_invariant(self);
        }
        self.len == 0
    }

    pub fn is_full(&self) -> (b: bool)
        ensures
            b == (self@.len() == BYTES_MAX),
    {
        proof {
            use_type_invariant(self);
        }
        self.len == BYTES_MAX
    }

    /// Forgets what the buffer holds, so that the region can take the next
    /// frame.
    pub fn clear(&mut self)
        ensures
            final(self)@ == Seq::<u8>::empty(),
    {
        self.len = 0;
    }

    /// Appends one byte. A buffer that is full refuses it and stays as it
    /// is: the stream has lost its frame boundaries, and pushing the same
    /// byte again cannot help.
    pub fn push(&mut self, byte: u8) -> (r: Result<(), CyprotoError>)
        ensures
            old(self)@.len() < BYTES_MAX ==> r is Ok && final(self)@ == old(self)@.push(byte),
            old(self)@.len() >= BYTES_MAX ==> r == Err::<(), CyprotoError>(
                CyprotoError::BufferOverflow,
            ) && final(self)@ == old(self)@,
    {
        proof {
            use_type_invariant(&*self);
        }
        if self.len >= BYTES_MAX {
            return Err(CyprotoError::BufferOverflow);
        }
        self.bytes[self.len] = byte;
        self.len = self.len + 1;
        proof {
            assert(self@ =~= old(self)@.push(byte));
        }
        Ok(())
    }

    /// The byte at position `i`, nothing where the buffer ends before it.
    pub fn get(&self, i: usize) -> (b: Option<u8>)
        ensures
            b == if i < self@.len() {
                Some(self@[i as int])
            } else {
                None
            },
    {
        proof {
            use_type_invariant(self);
        }
        if i < self.len {
            Some(self.bytes[i])
        } else {
            None
        }
    }

    /// The bytes in use.
    pub fn as_slice(&self) -> (s: &[u8])
        ensures
            s@ == self@,
    {
        proof {
            use_type_invariant(self);
        }
        slice_subrange(self.bytes.as_slice(), 0, self.len)
    }

    /// A buffer that holds the bytes given, which is refused where they
    /// are more than `BYTES_MAX`.
    pub fn from_slice(bytes: &[u8]) -> (r: Result<FrameBuffer, CyprotoError>)
        ensures
            bytes@.len() <= BYTES_MAX ==> r is Ok && r->Ok_0@ == bytes@,
            bytes@.len() > BYTES_MAX ==> r == Err::<FrameBuffer, CyprotoError>(
                CyprotoError::BufferOverflow,
            ),
    {
        if bytes.len() > BYTES_MAX {
            return Err(CyprotoError::BufferOverflow);
        }
        let mut b = FrameBuffer::new();
        let mut i: usize = 0;
        while i < bytes.len()
            invariant
                i <= bytes@.len() <= BYTES_MAX,
                b@ == bytes@.take(i as int),
            decreases bytes@.len() - i,
        {
            let _ = b.push(bytes[i]);
            proof {
                assert(bytes@.take(i + 1) == bytes@.take(i as int).push(bytes@[i as int]));
            }
            i += 1;
        }
        proof {
            assert(bytes@.take(i as int) == bytes@);
        }
        Ok(b)
    }

    /// Copies the bytes in use to the start of `out` and returns their
    /// number.
    pub fn write_to(&self, out: &mut [u8; BYTES_MAX]) -> (n: usize)
        ensures
            n == self@.len(),
            final(out)@.take(n as int) == self@,
    {
        proof {
            use_type_invariant(self);
        }
        *out = self.bytes;
        self.len
    }

    /// The frame of a payload. A payload of more than `FRAMED_MAX` bytes is
    /// refused, never cut short: its frame is not sure to fit the buffer.
    pub fn frame(payload: &[u8]) -> (r: Result<FrameBuffer, CyprotoError>)
        ensures
            payload@.len() <= FRAMED_MAX ==> r is Ok && r->Ok_0@ == frame_of(payload@) && is_frame(
                r->Ok_0@,
            ) && frame_payload(r->Ok_0@) == Some(payload@) && r->Ok_0@.len() <= BYTES_MAX,
            payload@.len() > FRAMED_MAX ==> r == Err::<FrameBuffer, CyprotoError>(
                CyprotoError::BufferOverflow,
            ),
    {
        if payload.len() > FRAMED_MAX {
            return Err(CyprotoError::BufferOverflow);
        }
        let mut b = FrameBuffer::new();
        proof {
            use_type_invariant(&b);
        }
        let n = stuff(payload, &mut b.bytes);
        b.bytes[n] = DELIMITER;
        b.len = n + 1;
        proof {
            assert(b@ =~= frame_of(payload@));
        }
        Ok(b)
    }

    /// Puts the payload of the frame held in the frame's place. Bytes that
    /// are not one whole frame, or do not unstuff, are given up: the
    /// buffer is then empty.
    pub fn unframe(&mut self) -> (r: Result<(), CyprotoError>)
        ensures
            match frame_payload(old(self)@) {
                Some(p) => r is Ok && final(self)@ == p,
                None => r == Err::<(), CyprotoError>(CyprotoError::FrameCorrupt) && final(self)@
                    == Seq::<u8>::empty(),
            },
    {
        proof {
            use_type_invariant(&*self);
        }
        if !self.holds_frame() {
            self.len = 0;
            return Err(CyprotoError::FrameCorrupt);
        }
        match unstuff(&mut self.bytes, self.len) {
            Some(k) => {
                self.len = k;
                Ok(())
            },
            None => {
                self.len = 0;
                Err(CyprotoError::FrameCorrupt)
            },
        }
    }

    /// Whether the buffer holds one whole frame.
    pub fn holds_frame(&self) -> (b: bool)
        ensures
            b == is_frame(self@),
    {
        proof {
            use_type_invariant(self);
        }
        if self.len == 0 || self.bytes[self.len - 1] != DELIMITER {
            return false;
        }
        let mut i: usize = 0;
        while i < self.len - 1
            invariant
                0 < self.len <= BYTES_MAX,
                i <= self.len - 1,
                forall|j: int| 0 <= j < i ==> self@[j] != DELIMITER,
                self@ == self.bytes@.take(self.len as int),
            decreases self.len - i,
        {
            if self.bytes[i] == DELIMITER {
                proof {
                    assert(self@[i as int] == DELIMITER);
                }
                return false;
            }
            i += 1;
        }
        true
    }
}

} // verus!
