//! The executor's end of the protocol: commands come in as frames, and
//! what was done goes out as frames, through plain records that a caller
//! in another language can fill and read.

use vstd::prelude::*;
use vstd::slice::slice_subrange;
use crate::assembler::{FeedEvent, FrameAssembler};
use crate::buffer::{frame_of, is_frame, FrameBuffer};
use crate::codec::{decode_command, decoded_command, decoded_response, encode_response};
use crate::error::CyprotoError;
use crate::model::{
    Binary32, Command, ObjectData, Response, ResponseView, BYTES_MAX, DELIMITER, SCAN_MAX,
};
use crate::wire::response_payload;

verus! {

/// The fields of a drive command.
#[derive(Clone, Copy, Debug, PartialEq, Eq, Structural)]
pub struct DriveCommand {
    pub distance: Binary32,
    pub speed: u16,
}

/// What a drive came to.
#[derive(Clone, Copy, Debug, PartialEq, Eq, Structural)]
pub struct DriveDone {
    pub total_distance: Binary32,
    pub bump_detected: bool,
    pub cliff_detected: bool,
}

/// The fields of a turn command.
#[derive(Clone, Copy, Debug, PartialEq, Eq, Structural)]
pub struct TurnCommand {
    pub angle: Binary32,
    pub speed: u16,
}

/// What a turn came to.
#[derive(Clone, Copy, Debug, PartialEq, Eq, Structural)]
pub struct TurnDone {
    pub total_angle: Binary32,
}

/// The fields of a scan command.
#[derive(Clone, Copy, Debug, PartialEq, Eq, Structural)]
pub struct ScanCommand {
    pub start: u8,
    pub end: u8,
    pub fidelity: u8,
}

/// What a scan found: the objects in the order in which it met them.
#[derive(Clone, Copy, Debug)]
pub struct ScanDone<'a> {
    pub objects: &'a [ObjectData],
}

/// What the executor is asked to do next, or why the bytes received do
/// not say.
#[derive(Clone, Copy, Debug, PartialEq, Eq, Structural)]
pub enum CommandRequest {
    Error(CyprotoError),
    Drive(DriveCommand),
    Turn(TurnCommand),
    Scan(ScanCommand),
}

/// The request that the decoding of a frame comes to.
pub open spec fn request_of(decoded: Result<Command, CyprotoError>) -> CommandRequest {
    match decoded {
        Ok(Command::Drive { distance, speed }) => CommandRequest::Drive(
            DriveCommand { distance, speed },
        ),
        Ok(Command::Turn { angle, speed }) => CommandRequest::Turn(TurnCommand { angle, speed }),
        Ok(Command::Scan { start, end, fidelity }) => CommandRequest::Scan(
            ScanCommand { start, end, fidelity },
        ),
        Err(e) => CommandRequest::Error(e),
    }
}

/// The response that reports a drive.
pub open spec fn drive_done_of(val: DriveDone) -> ResponseView {
    ResponseView::DriveDone {
        total_distance: val.total_distance,
        bump_detected: val.bump_detected,
        cliff_detected: val.cliff_detected,
    }
}

/// The response that reports a turn.
pub open spec fn turn_done_of(val: TurnDone) -> ResponseView {
    ResponseView::TurnDone { total_angle: val.total_angle }
}

/// The response that reports a scan.
pub open spec fn scan_done_of(objects: Seq<ObjectData>) -> ResponseView {
    ResponseView::ScanDone { data: objects }
}

/// The request that a decoded frame comes to.
pub fn request(decoded: Result<Command, CyprotoError>) -> (r: CommandRequest)
    ensures
        r == request_of(decoded),
{
    match decoded {
        Ok(Command::Drive { distance, speed }) => CommandRequest::Drive(
            DriveCommand { distance, speed },
        ),
        Ok(Command::Turn { angle, speed }) => CommandRequest::Turn(TurnCommand { angle, speed }),
        Ok(Command::Scan { start, end, fidelity }) => CommandRequest::Scan(
            ScanCommand { start, end, fidelity },
        ),
        Err(e) => CommandRequest::Error(e),
    }
}

/// The number of bytes that every buffer handed to this module holds.
pub fn cyproto_buffer_size() -> (n: usize)
    ensures
        n == BYTES_MAX,
{
    BYTES_MAX
}

/// The largest number of objects that one scan can report.
pub fn max_objects() -> (n: usize)
    ensures
        n == SCAN_MAX,
{
    SCAN_MAX
}

/// Reads the command whose frame lies at the start of `buf`. The frame
/// ends with the first delimiter; what lies behind it is not looked at.
/// A buffer without a delimiter holds no frame and is `FrameCorrupt`.
pub fn cyproto_parse_command(buf: &[u8; BYTES_MAX]) -> (r: CommandRequest)
    ensures
        (forall|i: int| 0 <= i < BYTES_MAX ==> buf@[i] != DELIMITER) ==> r == CommandRequest::Error(
            CyprotoError::FrameCorrupt,
        ),
        forall|p: int|
            0 <= p < BYTES_MAX && is_frame(#[trigger] buf@.take(p + 1)) ==> r == request_of(
                decoded_command(buf@.take(p + 1)),
            ),
{
    let mut end: usize = 0;
    while end < BYTES_MAX && buf[end] != DELIMITER
        invariant
            end <= BYTES_MAX,
            forall|i: int| 0 <= i < end ==> buf@[i] != DELIMITER,
        decreases BYTES_MAX - end,
    {
        end += 1;
    }
    if end == BYTES_MAX {
        proof {
            assert forall|p: int| 0 <= p < BYTES_MAX implies !is_frame(
                #[trigger] buf@.take(p + 1),
            ) by {
                assert(buf@.take(p + 1).last() == buf@[p]);
            }
        }
        return CommandRequest::Error(CyprotoError::FrameCorrupt);
    }
    proof {
        assert forall|p: int| 0 <= p < BYTES_MAX && is_frame(
            #[trigger] buf@.take(p + 1),
        ) implies p == end by {
            let f = buf@.take(p + 1);
            assert(f.last() == buf@[p]);
            if end < p {
                assert(f[end as int] == buf@[end as int]);
            }
        }
    }
    match FrameBuffer::from_slice(slice_subrange(buf.as_slice(), 0, end + 1)) {
        Ok(frame) => {
            let mut frame = frame;
            request(decode_command(&mut frame))
        },
        Err(e) => CommandRequest::Error(e),
    }
}

/// Takes one byte of the stream of commands. A byte that ends a frame
/// gives the request that the frame holds; a byte that finds the buffer
/// full gives `BufferOverflow`; any other byte gives nothing yet.
pub fn receive_command(assembler: &mut FrameAssembler, byte: u8) -> (r: Option<CommandRequest>)
    ensures
        final(assembler)@ == old(assembler)@.fed(byte).0,
        r == match old(assembler)@.fed(byte).1 {
            FeedEvent::Nothing => None::<CommandRequest>,
            FeedEvent::Frame(bytes) => Some(request_of(decoded_command(bytes))),
            FeedEvent::Overflow => Some(CommandRequest::Error(CyprotoError::BufferOverflow)),
        },
{
    match assembler.feed(byte) {
        Ok(None) => None,
        Ok(Some(frame)) => {
            let mut frame = frame;
            Some(request(decode_command(&mut frame)))
        },
        Err(e) => Some(CommandRequest::Error(e)),
    }
}

/// Writes the frame of a response at the start of `buf` and returns its
/// length.
pub fn respond(resp: &Response, buf: &mut [u8; BYTES_MAX]) -> (n: usize)
    ensures
        0 < n <= BYTES_MAX,
        final(buf)@.take(n as int) == frame_of(response_payload(resp@)),
        is_frame(final(buf)@.take(n as int)),
        decoded_response(final(buf)@.take(n as int)) == Ok::<ResponseView, CyprotoError>(resp@),
{
    match encode_response(resp) {
        Ok(frame) => {
            let _ = frame.len();
            frame.write_to(buf)
        },
        Err(_) => 0,
    }
}

/// Writes the frame that reports a drive at the start of `buf` and returns
/// its length.
pub fn cyproto_drive_done(val: DriveDone, buf: &mut [u8; BYTES_MAX]) -> (n: usize)
    ensures
        0 < n <= BYTES_MAX,
        final(buf)@.take(n as int) == frame_of(response_payload(drive_done_of(val))),
        is_frame(final(buf)@.take(n as int)),
        decoded_response(final(buf)@.take(n as int)) == Ok::<ResponseView, CyprotoError>(
            drive_done_of(val),
        ),
{
    let resp = Response::DriveDone {
        total_distance: val.total_distance,
        bump_detected: val.bump_detected,
        cliff_detected: val.cliff_detected,
    };
    respond(&resp, buf)
}

/// Writes the frame that reports a turn at the start of `buf` and returns
/// its length.
pub fn cyproto_turn_done(val: TurnDone, buf: &mut [u8; BYTES_MAX]) -> (n: usize)
    ensures
        0 < n <= BYTES_MAX,
        final(buf)@.take(n as int) == frame_of(response_payload(turn_done_of(val))),
        is_frame(final(buf)@.take(n as int)),
        decoded_response(final(buf)@.take(n as int)) == Ok::<ResponseView, CyprotoError>(
            turn_done_of(val),
        ),
{
    let resp = Response::TurnDone { total_angle: val.total_angle };
    respond(&resp, buf)
}

/// Writes the frame that reports a scan at the start of `buf` and returns
/// its length. A scan of more than `SCAN_MAX` objects is not reported in
/// part: nothing is written and the length returned is 0.
pub fn cyproto_scan_done(val: ScanDone, buf: &mut [u8; BYTES_MAX]) -> (n: usize)
    ensures
        val.objects@.len() > SCAN_MAX ==> n == 0 && final(buf)@ == old(buf)@,
        val.objects@.len() <= SCAN_MAX ==> 0 < n <= BYTES_MAX && final(buf)@.take(n as int)
            == frame_of(response_payload(scan_done_of(val.objects@))) && is_frame(
            final(buf)@.take(n as int),
        ) && decoded_response(final(buf)@.take(n as int)) == Ok::<ResponseView, CyprotoError>(
            scan_done_of(val.objects@),
        ),
{
    match Response::scan_done(val.objects) {
        Ok(resp) => respond(&resp, buf),
        Err(_) => 0,
    }
}

} // verus!
