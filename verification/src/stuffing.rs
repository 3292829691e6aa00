//! Byte stuffing, which keeps the delimiter out of a frame's inside.
//!
//! The transform is that of the `cobs` crate. Verus does not read it: the
//! two functions here call it and say what the library relies on.

use vstd::prelude::*;
use crate::model::{BYTES_MAX, DELIMITER};

verus! {

/// The stuffed form of a payload, without the delimiter that ends a frame.
pub uninterp spec fn stuffed(payload: Seq<u8>) -> Seq<u8>;

/// The payload that a run of stuffed bytes stands for, read up to its first
/// delimiter, or to its end where it has none; nothing where the bytes are
/// not the stuffed form of any payload.
pub uninterp spec fn unstuffed(bytes: Seq<u8>) -> Option<Seq<u8>>;

/// The most that stuffing makes of `n` bytes: one byte more for every 254
/// bytes or part of them.
pub open spec fn stuffed_len_max(n: nat) -> nat {
    n + (n + 253) / 254
}

/// `cobs::encode`: writes the stuffed form of `payload` at the start of
/// `out` and returns its length.
///
/// Taken on trust from the crate: that the length keeps within what its
/// `max_encoding_length` gives, that no byte of the result is the
/// delimiter, and that the result, ended by a delimiter, unstuffs to the
/// payload again. The crate panics where `out` is shorter than that bound,
/// so the bound is asked of the caller.
#[verifier::external_body]
pub(crate) fn stuff(payload: &[u8], out: &mut [u8; BYTES_MAX]) -> (n: usize)
    requires
        stuffed_len_max(payload@.len()) <= BYTES_MAX,
    ensures
        n <= stuffed_len_max(payload@.len()),
        final(out)@.take(n as int) == stuffed(payload@),
        forall|i: int| 0 <= i < n ==> final(out)@[i] != DELIMITER,
        unstuffed(final(out)@.take(n as int).push(DELIMITER)) == Some(payload@),
    no_unwind
{
    cobs::encode(payload, &mut out[..])
}

/// `cobs::decode_in_place`: unstuffs the first `len` bytes of `buf` where
/// they stand, and returns the length of the payload, which then lies at
/// the start of `buf`; nothing where the bytes do not unstuff.
///
/// Taken on trust from the crate: that the outcome depends on those bytes
/// alone and that a payload is no longer than what it was unstuffed from.
#[verifier::external_body]
pub(crate) fn unstuff(buf: &mut [u8; BYTES_MAX], len: usize) -> (n: Option<usize>)
    requires
        len <= BYTES_MAX,
    ensures
        match n {
            Some(k) => k <= len && unstuffed(old(buf)@.take(len as int)) == Some(
                final(buf)@.take(k as int),
            ),
            None => unstuffed(old(buf)@.take(len as int)) is None,
        },
    no_unwind
{
    cobs::decode_in_place(&mut buf[..len]).ok()
}

} // verus!
