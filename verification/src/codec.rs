//! The frame codec: a message to the bytes of its frame and back.
//!
//! A frame is the stuffed payload of one message and then the delimiter.
//! There is no length in front of it: the delimiter alone tells where it
//! ends, in whatever pieces the bytes arrive.

use vstd::prelude::*;
use vstd::slice::slice_subrange;
use crate::buffer::{frame_of, frame_payload, is_frame, FrameBuffer};
use crate::error::CyprotoError;
use crate::model::{Command, Response, ResponseView, BYTES_MAX};
use crate::wire::{command_payload, parsed_command, parsed_response, response_payload};
use crate::wire_io::{parse_command, parse_response, write_command, write_response};

verus! {

/// What decoding makes of bytes that should be the frame of a command.
pub open spec fn decoded_command(bytes: Seq<u8>) -> Result<Command, CyprotoError> {
    match frame_payload(bytes) {
        None => Err(CyprotoError::FrameCorrupt),
        Some(payload) => match parsed_command(payload) {
            Some(c) => Ok(c),
            None => Err(CyprotoError::PayloadMismatch),
        },
    }
}

/// What decoding makes of bytes that should be the frame of a response.
pub open spec fn decoded_response(bytes: Seq<u8>) -> Result<ResponseView, CyprotoError> {
    match frame_payload(bytes) {
        None => Err(CyprotoError::FrameCorrupt),
        Some(payload) => match parsed_response(payload) {
            Some(r) => Ok(r),
            None => Err(CyprotoError::PayloadMismatch),
        },
    }
}

/// The frame of a command. It holds the delimiter as its last byte and
/// nowhere else, and decoding it gives the command back. Every command
/// has a frame that fits.
pub fn encode_command(c: &Command) -> (r: Result<FrameBuffer, CyprotoError>)
    ensures
        r is Ok,
        r->Ok_0@ == frame_of(command_payload(*c)),
        r->Ok_0@.len() <= BYTES_MAX,
        is_frame(r->Ok_0@),
        decoded_command(r->Ok_0@) == Ok::<Command, CyprotoError>(*c),
{
    let mut scratch = [0u8; BYTES_MAX];
    let n = write_command(c, &mut scratch);
    let r = FrameBuffer::frame(slice_subrange(scratch.as_slice(), 0, n));
    proof {
        crate::wire::lemma_parse_command_inverts(*c);
    }
    r
}

/// The frame of a response. It holds the delimiter as its last byte and
/// nowhere else, and decoding it gives the response back. Every response
/// has a frame that fits, a scan of `SCAN_MAX` objects too.
pub fn encode_response(resp: &Response) -> (r: Result<FrameBuffer, CyprotoError>)
    ensures
        resp@.wf(),
        r is Ok,
        r->Ok_0@ == frame_of(response_payload(resp@)),
        r->Ok_0@.len() <= BYTES_MAX,
        is_frame(r->Ok_0@),
        decoded_response(r->Ok_0@) == Ok::<ResponseView, CyprotoError>(resp@),
{
    let mut scratch = [0u8; BYTES_MAX];
    let n = write_response(resp, &mut scratch);
    let r = FrameBuffer::frame(slice_subrange(scratch.as_slice(), 0, n));
    proof {
        crate::wire::lemma_parse_response_inverts(resp@);
    }
    r
}

/// Reads the frame of a command where it stands and leaves the buffer
/// empty for the next one.
///
/// Bytes that are not one whole frame, or whose stuffing does not hold,
/// are `FrameCorrupt`; a payload that is not that of a command is
/// `PayloadMismatch`.
pub fn decode_command(frame: &mut FrameBuffer) -> (r: Result<Command, CyprotoError>)
    ensures
        r == decoded_command(old(frame)@),
        final(frame)@ == Seq::<u8>::empty(),
{
    match frame.unframe() {
        Err(e) => Err(e),
        Ok(()) => {
            let r = parse_command(frame.as_slice());
            frame.clear();
            r
        },
    }
}

/// Reads the frame of a response where it stands and leaves the buffer
/// empty for the next one.
///
/// Bytes that are not one whole frame, or whose stuffing does not hold,
/// are `FrameCorrupt`; a payload that is not that of a response, or a scan
/// that announces more objects than a response may carry, is
/// `PayloadMismatch`.
pub fn decode_response(frame: &mut FrameBuffer) -> (r: Result<Response, CyprotoError>)
    ensures
        match decoded_response(old(frame)@) {
            Ok(v) => r is Ok && r->Ok_0@ == v,
            Err(e) => r == Err::<Response, CyprotoError>(e),
        },
        final(frame)@ == Seq::<u8>::empty(),
{
    match frame.unframe() {
        Err(e) => Err(e),
        Ok(()) => {
            let r = parse_response(frame.as_slice());
            frame.clear();
            r
        },
    }
}

} // verus!
