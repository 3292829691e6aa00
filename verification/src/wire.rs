//! The layout of a payload: one byte that tells the message, then its
//! fields in the order of their declaration. Numbers of more than one byte
//! are little-endian and of fixed width, a flag is one byte that holds 0 or
//! 1, and a list is one byte that counts its elements, then the elements.

use vstd::prelude::*;
use crate::model::{Command, ObjectData, ResponseView, OBJECT_WIRE_SIZE, SCAN_MAX};

verus! {

/// First byte of a drive command and of its answer.
pub const TAG_DRIVE: u8 = 0;

/// First byte of a turn command and of its answer.
pub const TAG_TURN: u8 = 1;

/// First byte of a scan command and of its answer.
pub const TAG_SCAN: u8 = 2;

/// Length of the longest payload: a scan response that is full.
pub const PAYLOAD_MAX: usize = 2 + SCAN_MAX * OBJECT_WIRE_SIZE;

pub open spec fn le16(x: u16) -> Seq<u8> {
    seq![(x % 256) as u8, (x / 256) as u8]
}

pub open spec fn le32(x: u32) -> Seq<u8> {
    seq![
        (x % 256) as u8,
        (x / 256 % 256) as u8,
        (x / 256 / 256 % 256) as u8,
        (x / 256 / 256 / 256) as u8,
    ]
}

pub open spec fn flag(b: bool) -> u8 {
    if b {
        1
    } else {
        0
    }
}

/// The nine bytes of one object: distance, angle, width.
pub open spec fn object_bytes(o: ObjectData) -> Seq<u8> {
    le32(o.distance.bits).push(o.angle) + le32(o.width.bits)
}

/// The bytes of the objects of a list, one after the other.
pub open spec fn objects_bytes(s: Seq<ObjectData>) -> Seq<u8>
    decreases s.len(),
{
    if s.len() == 0 {
        Seq::<u8>::empty()
    } else {
        objects_bytes(s.drop_last()) + object_bytes(s.last())
    }
}

/// The payload that stands for a command.
pub open spec fn command_payload(c: Command) -> Seq<u8> {
    match c {
        Command::Drive { distance, speed } => seq![TAG_DRIVE] + le32(distance.bits) + le16(speed),
        Command::Turn { angle, speed } => seq![TAG_TURN] + le32(angle.bits) + le16(speed),
        Command::Scan { start, end, fidelity } => seq![TAG_SCAN, start, end, fidelity],
    }
}

/// The payload that stands for a response. A scan of more than `SCAN_MAX`
/// objects has none: its count has no byte to stand in.
pub open spec fn response_payload(r: ResponseView) -> Seq<u8>
    recommends
        r.wf(),
{
    match r {
        ResponseView::DriveDone { total_distance, bump_detected, cliff_detected } => seq![TAG_DRIVE]
            + le32(total_distance.bits) + seq![flag(bump_detected), flag(cliff_detected)],
        ResponseView::TurnDone { total_angle } => seq![TAG_TURN] + le32(total_angle.bits),
        ResponseView::ScanDone { data } => seq![TAG_SCAN, data.len() as u8] + objects_bytes(data),
    }
}

/// The command that a payload stands for, if it stands for one.
pub open spec fn parsed_command(b: Seq<u8>) -> Option<Command> {
    if exists|c: Command| command_payload(c) == b {
        Some(choose|c: Command| command_payload(c) == b)
    } else {
        None
    }
}

/// The response that a payload stands for, if it stands for one.
pub open spec fn parsed_response(b: Seq<u8>) -> Option<ResponseView> {
    if exists|r: ResponseView| r.wf() && response_payload(r) == b {
        Some(choose|r: ResponseView| r.wf() && response_payload(r) == b)
    } else {
        None
    }
}

proof fn lemma_le16_unique(x: u16, y: u16)
    requires
        le16(x) == le16(y),
    ensures
        x == y,
{
    assert(le16(x)[0] == le16(y)[0]);
    assert(le16(x)[1] == le16(y)[1]);
}

proof fn lemma_le32_unique(x: u32, y: u32)
    requires
        le32(x) == le32(y),
    ensures
        x == y,
{
    let x1 = x / 256;
    let x2 = x1 / 256;
    let x3 = x2 / 256;
    let y1 = y / 256;
    let y2 = y1 / 256;
    let y3 = y2 / 256;
    assert(x3 < 256 && y3 < 256);
    assert(le32(x)[3] == le32(y)[3]);
    assert(x3 == y3);
    assert(le32(x)[2] == le32(y)[2]);
    assert(x2 % 256 == y2 % 256);
    assert(x2 == 256 * x3 + x2 % 256 && y2 == 256 * y3 + y2 % 256);
    assert(le32(x)[1] == le32(y)[1]);
    assert(x1 % 256 == y1 % 256);
    assert(x1 == 256 * x2 + x1 % 256 && y1 == 256 * y2 + y1 % 256);
    assert(le32(x)[0] == le32(y)[0]);
    assert(x % 256 == y % 256);
    assert(x == 256 * x1 + x % 256 && y == 256 * y1 + y % 256);
}

proof fn lemma_object_bytes_unique(a: ObjectData, b: ObjectData)
    requires
        object_bytes(a) == object_bytes(b),
    ensures
        a == b,
{
    let sa = object_bytes(a);
    let sb = object_bytes(b);
    assert(sa.subrange(0, 4) == le32(a.distance.bits));
    assert(sb.subrange(0, 4) == le32(b.distance.bits));
    assert(sa.subrange(5, 9) == le32(a.width.bits));
    assert(sb.subrange(5, 9) == le32(b.width.bits));
    assert(sa[4] == a.angle);
    assert(sb[4] == b.angle);
    lemma_le32_unique(a.distance.bits, b.distance.bits);
    lemma_le32_unique(a.width.bits, b.width.bits);
}

/// One object takes `OBJECT_WIRE_SIZE` bytes.
pub proof fn lemma_object_wire_size(o: ObjectData)
    ensures
        object_bytes(o).len() == OBJECT_WIRE_SIZE,
{
}

/// Every object takes nine bytes.
pub proof fn lemma_objects_bytes_len(s: Seq<ObjectData>)
    ensures
        objects_bytes(s).len() == OBJECT_WIRE_SIZE * s.len(),
    decreases s.len(),
{
    if s.len() > 0 {
        lemma_objects_bytes_len(s.drop_last());
    }
}

proof fn lemma_objects_bytes_unique(a: Seq<ObjectData>, b: Seq<ObjectData>)
    requires
        objects_bytes(a) == objects_bytes(b),
    ensures
        a == b,
    decreases a.len(),
{
    lemma_objects_bytes_len(a);
    lemma_objects_bytes_len(b);
    assert(a.len() == b.len());
    if a.len() > 0 {
        let n = objects_bytes(a.drop_last()).len() as int;
        lemma_objects_bytes_len(a.drop_last());
        lemma_objects_bytes_len(b.drop_last());
        assert(objects_bytes(a).subrange(0, n) == objects_bytes(a.drop_last()));
        assert(objects_bytes(b).subrange(0, n) == objects_bytes(b.drop_last()));
        assert(objects_bytes(a).subrange(n, n + 9) == object_bytes(a.last()));
        assert(objects_bytes(b).subrange(n, n + 9) == object_bytes(b.last()));
        lemma_objects_bytes_unique(a.drop_last(), b.drop_last());
        lemma_object_bytes_unique(a.last(), b.last());
        assert(a == a.drop_last().push(a.last()));
        assert(b == b.drop_last().push(b.last()));
    } else {
        assert(a == b);
    }
}

/// The first byte of a command's payload, which tells the commands apart.
pub open spec fn command_tag(c: Command) -> u8 {
    match c {
        Command::Drive { .. } => TAG_DRIVE,
        Command::Turn { .. } => TAG_TURN,
        Command::Scan { .. } => TAG_SCAN,
    }
}

/// The first byte of a response's payload, which tells the responses apart.
pub open spec fn response_tag(r: ResponseView) -> u8 {
    match r {
        ResponseView::DriveDone { .. } => TAG_DRIVE,
        ResponseView::TurnDone { .. } => TAG_TURN,
        ResponseView::ScanDone { .. } => TAG_SCAN,
    }
}

/// The length of a command's payload.
pub open spec fn command_payload_len(c: Command) -> nat {
    match c {
        Command::Drive { .. } => 7,
        Command::Turn { .. } => 7,
        Command::Scan { .. } => 4,
    }
}

/// The length of a response's payload.
pub open spec fn response_payload_len(r: ResponseView) -> nat {
    match r {
        ResponseView::DriveDone { .. } => 7,
        ResponseView::TurnDone { .. } => 5,
        ResponseView::ScanDone { data } => 2 + OBJECT_WIRE_SIZE as nat * data.len(),
    }
}

/// A command's payload begins with its tag and has its length.
pub proof fn lemma_command_payload_shape(c: Command)
    ensures
        command_payload(c).len() == command_payload_len(c),
        command_payload(c)[0] == command_tag(c),
{
}

/// A response's payload begins with its tag and has its length; that of a
/// scan goes on with the number of its objects.
pub proof fn lemma_response_payload_shape(r: ResponseView)
    requires
        r.wf(),
    ensures
        response_payload(r).len() == response_payload_len(r),
        response_payload(r)[0] == response_tag(r),
        r is ScanDone ==> response_payload(r)[1] == r->data.len(),
{
    if let ResponseView::ScanDone { data } = r {
        lemma_objects_bytes_len(data);
    }
}

/// Two commands with the same payload are the same command.
pub proof fn lemma_command_payload_unique(a: Command, b: Command)
    requires
        command_payload(a) == command_payload(b),
    ensures
        a == b,
{
    let pa = command_payload(a);
    let pb = command_payload(b);
    lemma_command_payload_shape(a);
    lemma_command_payload_shape(b);
    match (a, b) {
        (Command::Drive { distance: d1, speed: s1 }, Command::Drive { distance: d2, speed: s2 }) => {
            assert(pa.subrange(1, 5) == le32(d1.bits));
            assert(pb.subrange(1, 5) == le32(d2.bits));
            assert(pa.subrange(5, 7) == le16(s1));
            assert(pb.subrange(5, 7) == le16(s2));
            lemma_le32_unique(d1.bits, d2.bits);
            lemma_le16_unique(s1, s2);
        },
        (Command::Turn { angle: d1, speed: s1 }, Command::Turn { angle: d2, speed: s2 }) => {
            assert(pa.subrange(1, 5) == le32(d1.bits));
            assert(pb.subrange(1, 5) == le32(d2.bits));
            assert(pa.subrange(5, 7) == le16(s1));
            assert(pb.subrange(5, 7) == le16(s2));
            lemma_le32_unique(d1.bits, d2.bits);
            lemma_le16_unique(s1, s2);
        },
        (Command::Scan { .. }, Command::Scan { .. }) => {
            assert(pa[1] == a->start && pb[1] == b->start);
            assert(pa[2] == a->end && pb[2] == b->end);
            assert(pa[3] == a->fidelity && pb[3] == b->fidelity);
        },
        _ => {},
    }
}

/// Two responses with the same payload are the same response.
pub proof fn lemma_response_payload_unique(a: ResponseView, b: ResponseView)
    requires
        a.wf(),
        b.wf(),
        response_payload(a) == response_payload(b),
    ensures
        a == b,
{
    let pa = response_payload(a);
    let pb = response_payload(b);
    lemma_response_payload_shape(a);
    lemma_response_payload_shape(b);
    match (a, b) {
        (
            ResponseView::DriveDone { total_distance: d1, .. },
            ResponseView::DriveDone { total_distance: d2, .. },
        ) => {
            assert(pa.subrange(1, 5) == le32(d1.bits));
            assert(pb.subrange(1, 5) == le32(d2.bits));
            lemma_le32_unique(d1.bits, d2.bits);
            assert(pa[5] == flag(a->bump_detected) && pb[5] == flag(b->bump_detected));
            assert(pa[6] == flag(a->cliff_detected) && pb[6] == flag(b->cliff_detected));
        },
        (ResponseView::TurnDone { total_angle: d1 }, ResponseView::TurnDone { total_angle: d2 }) => {
            assert(pa.subrange(1, 5) == le32(d1.bits));
            assert(pb.subrange(1, 5) == le32(d2.bits));
            lemma_le32_unique(d1.bits, d2.bits);
        },
        (ResponseView::ScanDone { data: x }, ResponseView::ScanDone { data: y }) => {
            assert(pa.subrange(2, pa.len() as int) == objects_bytes(x));
            assert(pb.subrange(2, pb.len() as int) == objects_bytes(y));
            lemma_objects_bytes_unique(x, y);
        },
        _ => {},
    }
}

/// Parsing gives back the command that a payload was made from.
pub proof fn lemma_parse_command_inverts(c: Command)
    ensures
        parsed_command(command_payload(c)) == Some(c),
{
    let found = choose|x: Command| command_payload(x) == command_payload(c);
    lemma_command_payload_unique(found, c);
}

/// Parsing gives back the response that a payload was made from, a scan
/// with its objects in their order, be they none or `SCAN_MAX`.
pub proof fn lemma_parse_response_inverts(r: ResponseView)
    requires
        r.wf(),
    ensures
        parsed_response(response_payload(r)) == Some(r),
{
    let found = choose|x: ResponseView| x.wf() && response_payload(x) == response_payload(r);
    lemma_response_payload_unique(found, r);
}

/// A scan of `SCAN_MAX` objects has a payload of just `PAYLOAD_MAX` bytes,
/// and one object more would pass it.
pub proof fn lemma_scan_capacity(data: Seq<ObjectData>)
    ensures
        data.len() == SCAN_MAX ==> 2 + objects_bytes(data).len() == PAYLOAD_MAX,
        data.len() > SCAN_MAX ==> 2 + objects_bytes(data).len() > PAYLOAD_MAX,
{
    lemma_objects_bytes_len(data);
}

/// No payload is longer than `PAYLOAD_MAX`.
pub proof fn lemma_payload_len(c: Command, r: ResponseView)
    requires
        r.wf(),
    ensures
        command_payload(c).len() <= 7,
        response_payload(r).len() <= PAYLOAD_MAX,
{
    lemma_command_payload_shape(c);
    lemma_response_payload_shape(r);
}

} // verus!
