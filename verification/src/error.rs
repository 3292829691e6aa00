//! The conditions under which the protocol layer refuses to go on.

use vstd::prelude::*;

verus! {

/// Why an operation of the protocol layer did not produce its result.
///
/// None of these is fatal: the worst outcome is that one frame is lost
/// before the two endpoints are in step again.
#[derive(Clone, Copy, Debug, PartialEq, Eq, Structural)]
pub enum CyprotoError {
    /// More bytes than the fixed frame region can hold.
    BufferOverflow,
    /// The byte stuffing of a frame does not hold together.
    FrameCorrupt,
    /// The payload names no known message, does not have the layout of the
    /// message it names, or announces more objects than a message may carry.
    PayloadMismatch,
    /// A command was issued while another one was still outstanding.
    Busy,
    /// A response arrived that does not answer the outstanding command.
    ProtocolMismatch,
}

} // verus!
