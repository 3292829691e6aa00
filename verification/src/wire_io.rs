//! Writing a message into a byte region as its payload, and reading one
//! back out of a payload.

use vstd::prelude::*;
use crate::error::CyprotoError;
use crate::model::{Binary32, Command, ObjectData, Response, ResponseView, BYTES_MAX, SCAN_MAX};
use crate::scan_list::{list_get, list_len, list_new, list_push, scan_objects};
use crate::wire::{
    command_payload, flag, le16, le32, lemma_command_payload_shape, lemma_command_payload_unique,
    lemma_objects_bytes_len, lemma_response_payload_shape, lemma_response_payload_unique,
    object_bytes, objects_bytes, parsed_command, parsed_response, response_payload, PAYLOAD_MAX,
    TAG_DRIVE, TAG_SCAN, TAG_TURN,
};

verus! {

fn put_u8(out: &mut [u8; BYTES_MAX], at: usize, v: u8) -> (next: usize)
    requires
        at < BYTES_MAX,
    ensures
        next == at + 1,
        final(out)@.take(next as int) == old(out)@.take(at as int).push(v),
{
    out[at] = v;
    proof {
        assert(out@.take(at + 1) =~= old(out)@.take(at as int).push(v));
    }
    at + 1
}

fn put_le16(out: &mut [u8; BYTES_MAX], at: usize, x: u16) -> (next: usize)
    requires
        at + 2 <= BYTES_MAX,
    ensures
        next == at + 2,
        final(out)@.take(next as int) == old(out)@.take(at as int) + le16(x),
{
    out[at] = (x % 256) as u8;
    out[at + 1] = (x / 256) as u8;
    proof {
        assert(out@.take(at + 2) =~= old(out)@.take(at as int) + le16(x));
    }
    at + 2
}

fn put_le32(out: &mut [u8; BYTES_MAX], at: usize, x: u32) -> (next: usize)
    requires
        at + 4 <= BYTES_MAX,
    ensures
        next == at + 4,
        final(out)@.take(next as int) == old(out)@.take(at as int) + le32(x),
{
    out[at] = (x % 256) as u8;
    out[at + 1] = (x / 256 % 256) as u8;
    out[at + 2] = (x / 256 / 256 % 256) as u8;
    out[at + 3] = (x / 256 / 256 / 256) as u8;
    proof {
        assert(out@.take(at + 4) =~= old(out)@.take(at as int) + le32(x));
    }
    at + 4
}

fn put_object(out: &mut [u8; BYTES_MAX], at: usize, o: ObjectData) -> (next: usize)
    requires
        at + 9 <= BYTES_MAX,
    ensures
        next == at + 9,
        final(out)@.take(next as int) == old(out)@.take(at as int) + object_bytes(o),
{
    let n = put_le32(out, at, o.distance.bits);
    let n = put_u8(out, n, o.angle);
    let n = put_le32(out, n, o.width.bits);
    proof {
        assert(out@.take(n as int) =~= old(out)@.take(at as int) + object_bytes(o));
    }
    n
}

fn get_flag(byte: u8) -> (b: Option<bool>)
    ensures
        b == if byte == 0 {
            Some(false)
        } else if byte == 1 {
            Some(true)
        } else {
            None
        },
        b is Some ==> flag(b->Some_0) == byte,
{
    if byte == 0 {
        Some(false)
    } else if byte == 1 {
        Some(true)
    } else {
        None
    }
}

fn get_le16(bytes: &[u8], at: usize) -> (x: u16)
    requires
        at + 2 <= bytes@.len(),
    ensures
        le16(x) == bytes@.subrange(at as int, at + 2),
{
    let b0: u16 = bytes[at] as u16;
    let b1: u16 = bytes[at + 1] as u16;
    let x: u16 = b0 + b1 * 256;
    proof {
        assert(le16(x) =~= bytes@.subrange(at as int, at + 2));
    }
    x
}

fn get_le32(bytes: &[u8], at: usize) -> (x: u32)
    requires
        at + 4 <= bytes@.len(),
    ensures
        le32(x) == bytes@.subrange(at as int, at + 4),
{
    let b0: u32 = bytes[at] as u32;
    let b1: u32 = bytes[at + 1] as u32;
    let b2: u32 = bytes[at + 2] as u32;
    let b3: u32 = bytes[at + 3] as u32;
    let x2: u32 = b2 + b3 * 256;
    let x1: u32 = b1 + x2 * 256;
    let x: u32 = b0 + x1 * 256;
    proof {
        assert(x / 256 == x1 && x % 256 == b0);
        assert(x1 / 256 == x2 && x1 % 256 == b1);
        assert(x2 / 256 == b3 && x2 % 256 == b2);
        assert(le32(x) =~= bytes@.subrange(at as int, at + 4));
    }
    x
}

fn get_object(bytes: &[u8], at: usize) -> (o: ObjectData)
    requires
        at + 9 <= bytes@.len(),
    ensures
        object_bytes(o) == bytes@.subrange(at as int, at + 9),
{
    let _len = bytes.len();
    let distance = get_le32(bytes, at);
    let angle = bytes[at + 4];
    let width = get_le32(bytes, at + 5);
    let o = ObjectData {
        distance: Binary32 { bits: distance },
        angle,
        width: Binary32 { bits: width },
    };
    proof {
        let s = bytes@.subrange(at as int, at + 9);
        assert(s.subrange(0, 4) == bytes@.subrange(at as int, at + 4));
        assert(s.subrange(5, 9) == bytes@.subrange(at + 5, at + 9));
        assert(object_bytes(o) =~= s);
    }
    o
}

/// Writes the payload of a command at the start of `out` and returns its
/// length. The bytes behind it are left with no meaning.
pub fn write_command(c: &Command, out: &mut [u8; BYTES_MAX]) -> (n: usize)
    ensures
        n == command_payload(*c).len(),
        n <= 7,
        final(out)@.take(n as int) == command_payload(*c),
{
    match c {
        Command::Drive { distance, speed } => {
            let n = put_u8(out, 0, TAG_DRIVE);
            let n = put_le32(out, n, distance.bits);
            let n = put_le16(out, n, *speed);
            proof {
                assert(out@.take(n as int) =~= command_payload(*c));
            }
            n
        },
        Command::Turn { angle, speed } => {
            let n = put_u8(out, 0, TAG_TURN);
            let n = put_le32(out, n, angle.bits);
            let n = put_le16(out, n, *speed);
            proof {
                assert(out@.take(n as int) =~= command_payload(*c));
            }
            n
        },
        Command::Scan { start, end, fidelity } => {
            let n = put_u8(out, 0, TAG_SCAN);
            let n = put_u8(out, n, *start);
            let n = put_u8(out, n, *end);
            let n = put_u8(out, n, *fidelity);
            proof {
                assert(out@.take(n as int) =~= command_payload(*c));
            }
            n
        },
    }
}

/// Writes the payload of a response at the start of `out` and returns its
/// length. The bytes behind it are left with no meaning.
pub fn write_response(r: &Response, out: &mut [u8; BYTES_MAX]) -> (n: usize)
    ensures
        r@.wf(),
        n == response_payload(r@).len(),
        n <= PAYLOAD_MAX,
        final(out)@.take(n as int) == response_payload(r@),
{
    match r {
        Response::DriveDone { total_distance, bump_detected, cliff_detected } => {
            let n = put_u8(out, 0, TAG_DRIVE);
            let n = put_le32(out, n, total_distance.bits);
            let n = put_u8(out, n, if *bump_detected { 1 } else { 0 });
            let n = put_u8(out, n, if *cliff_detected { 1 } else { 0 });
            proof {
                assert(out@.take(n as int) =~= response_payload(r@));
            }
            n
        },
        Response::TurnDone { total_angle } => {
            let n = put_u8(out, 0, TAG_TURN);
            let n = put_le32(out, n, total_angle.bits);
            proof {
                assert(out@.take(n as int) =~= response_payload(r@));
            }
            n
        },
        Response::ScanDone { data } => {
            let count = list_len(data);
            let ghost objects = scan_objects(*data);
            let mut n = put_u8(out, 0, TAG_SCAN);
            n = put_u8(out, n, count as u8);
            let mut i: usize = 0;
            while i < count
                invariant
                    i <= count == objects.len() <= SCAN_MAX,
                    objects == scan_objects(*data),
                    n == 2 + 9 * i,
                    out@.take(n as int) == seq![TAG_SCAN, count as u8] + objects_bytes(
                        objects.take(i as int),
                    ),
                decreases count - i,
            {
                n = put_object(out, n, list_get(data, i));
                proof {
                    let grown = objects.take(i + 1);
                    assert(grown.drop_last() == objects.take(i as int));
                    assert(grown.last() == objects[i as int]);
                    assert(out@.take(n as int) =~= seq![TAG_SCAN, count as u8] + objects_bytes(
                        grown,
                    ));
                }
                i += 1;
            }
            proof {
                assert(objects.take(i as int) == objects);
                lemma_objects_bytes_len(objects);
            }
            n
        },
    }
}

proof fn lemma_parsed_command_is(b: Seq<u8>, c: Command)
    requires
        command_payload(c) == b,
    ensures
        parsed_command(b) == Some(c),
{
    let found = choose|x: Command| command_payload(x) == b;
    lemma_command_payload_unique(found, c);
}

proof fn lemma_parsed_response_is(b: Seq<u8>, r: ResponseView)
    requires
        r.wf(),
        response_payload(r) == b,
    ensures
        parsed_response(b) == Some(r),
{
    let found = choose|x: ResponseView| x.wf() && response_payload(x) == b;
    lemma_response_payload_unique(found, r);
}

/// Reads a payload as a command. The payload has to be that of a command
/// from its first byte to its last: a tag that names no command, or a
/// length that is not the one of the command named, is a mismatch.
pub fn parse_command(bytes: &[u8]) -> (r: Result<Command, CyprotoError>)
    ensures
        r == match parsed_command(bytes@) {
            Some(c) => Ok::<Command, CyprotoError>(c),
            None => Err::<Command, CyprotoError>(CyprotoError::PayloadMismatch),
        },
{
    let n = bytes.len();
    let mut found: Option<Command> = None;
    if n == 7 && bytes[0] == TAG_DRIVE {
        let distance = get_le32(bytes, 1);
        let speed = get_le16(bytes, 5);
        found = Some(Command::Drive { distance: Binary32 { bits: distance }, speed });
    } else if n == 7 && bytes[0] == TAG_TURN {
        let angle = get_le32(bytes, 1);
        let speed = get_le16(bytes, 5);
        found = Some(Command::Turn { angle: Binary32 { bits: angle }, speed });
    } else if n == 4 && bytes[0] == TAG_SCAN {
        found = Some(Command::Scan { start: bytes[1], end: bytes[2], fidelity: bytes[3] });
    }
    match found {
        Some(c) => {
            proof {
                assert(command_payload(c) =~= bytes@);
                lemma_parsed_command_is(bytes@, c);
            }
            Ok(c)
        },
        None => {
            proof {
                assert forall|c: Command| command_payload(c) != bytes@ by {
                    lemma_command_payload_shape(c);
                }
            }
            Err(CyprotoError::PayloadMismatch)
        },
    }
}

/// Reads a payload as a response. The payload has to be that of a response
/// from its first byte to its last. A scan that announces more than
/// `SCAN_MAX` objects, or another number than it holds, is a mismatch: no
/// object is ever dropped to make a list fit.
pub fn parse_response(bytes: &[u8]) -> (r: Result<Response, CyprotoError>)
    ensures
        match parsed_response(bytes@) {
            Some(v) => r is Ok && r->Ok_0@ == v,
            None => r == Err::<Response, CyprotoError>(CyprotoError::PayloadMismatch),
        },
{
    let n = bytes.len();
    let mut found: Option<Response> = None;
    if n == 7 && bytes[0] == TAG_DRIVE {
        let total_distance = get_le32(bytes, 1);
        let bump = get_flag(bytes[5]);
        let cliff = get_flag(bytes[6]);
        if let (Some(bump_detected), Some(cliff_detected)) = (bump, cliff) {
            found = Some(
                Response::DriveDone {
                    total_distance: Binary32 { bits: total_distance },
                    bump_detected,
                    cliff_detected,
                },
            );
        }
    } else if n == 5 && bytes[0] == TAG_TURN {
        let total_angle = get_le32(bytes, 1);
        found = Some(Response::TurnDone { total_angle: Binary32 { bits: total_angle } });
    } else if n >= 2 && bytes[0] == TAG_SCAN {
        let count = bytes[1] as usize;
        if count <= SCAN_MAX && n == 2 + 9 * count {
            let mut data = list_new();
            let mut i: usize = 0;
            while i < count
                invariant
                    i <= count <= SCAN_MAX,
                    n == bytes@.len() == 2 + 9 * count,
                    scan_objects(data).len() == i,
                    objects_bytes(scan_objects(data)) == bytes@.subrange(2, 2 + 9 * i),
                decreases count - i,
            {
                let ghost before = scan_objects(data);
                let o = get_object(bytes, 2 + 9 * i);
                let _ = list_push(&mut data, o);
                proof {
                    let after = scan_objects(data);
                    assert(after.drop_last() == before);
                    assert(after.last() == o);
                    assert(objects_bytes(after) =~= bytes@.subrange(2, 2 + 9 * (i + 1)));
                }
                i += 1;
            }
            proof {
                assert(seq![TAG_SCAN, count as u8] =~= bytes@.subrange(0, 2));
                assert(bytes@ =~= bytes@.subrange(0, 2) + bytes@.subrange(2, 2 + 9 * count));
            }
            found = Some(Response::ScanDone { data });
        }
    }
    match found {
        Some(r) => {
            proof {
                assert(response_payload(r@) =~= bytes@);
                lemma_parsed_response_is(bytes@, r@);
            }
            Ok(r)
        },
        None => {
            proof {
                assert forall|v: ResponseView| v.wf() implies response_payload(v) != bytes@ by {
                    lemma_response_payload_shape(v);
                    if let ResponseView::DriveDone { bump_detected, cliff_detected, .. } = v {
                        assert(response_payload(v)[5] == flag(bump_detected));
                        assert(response_payload(v)[6] == flag(cliff_detected));
                    }
                }
            }
            Err(CyprotoError::PayloadMismatch)
        },
    }
}

} // verus!
