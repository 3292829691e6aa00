//! The messages that travel between the controller and the executor.

use vstd::prelude::*;
use crate::error::CyprotoError;
use crate::scan_list::{list_get, list_len, list_new, list_push, scan_objects};

verus! {

/// Size in bytes of the fixed region that holds one frame.
pub const BYTES_MAX: usize = 256;

/// Bytes that one detected object takes in a payload.
pub const OBJECT_WIRE_SIZE: usize = 9;

/// Largest number of objects that one scan response carries.
pub const SCAN_MAX: usize = BYTES_MAX / OBJECT_WIRE_SIZE;

/// The byte that ends a frame and occurs nowhere else in it.
pub const DELIMITER: u8 = 0;

/// Largest angle, in degrees, that the scanner reaches.
pub const ANGLE_MAX: u8 = 180;

/// An IEEE-754 single precision number, held by its bit pattern.
///
/// The protocol carries such numbers and never computes with them, so the
/// pattern is all it needs.
#[derive(Clone, Copy, Debug, PartialEq, Eq, Structural)]
pub struct Binary32 {
    pub bits: u32,
}

impl Binary32 {
    /// The exponent field is all ones and the fraction is not zero.
    pub open spec fn nan(self) -> bool {
        self.bits % 0x8000_0000 > 0x7f80_0000
    }

    /// The number compares greater than or equal to zero.
    pub open spec fn non_negative(self) -> bool {
        !self.nan() && (self.bits < 0x8000_0000 || self.bits == 0x8000_0000)
    }

    /// The number compares greater than zero.
    pub open spec fn positive(self) -> bool {
        !self.nan() && 0 < self.bits < 0x8000_0000
    }

    pub fn from_bits(bits: u32) -> (x: Binary32)
        ensures
            x.bits == bits,
    {
        Binary32 { bits }
    }

    pub fn to_bits(&self) -> (bits: u32)
        ensures
            bits == self.bits,
    {
        self.bits
    }

    pub fn is_nan(&self) -> (b: bool)
        ensures
            b == self.nan(),
    {
        self.bits % 0x8000_0000 > 0x7f80_0000
    }

    pub fn is_non_negative(&self) -> (b: bool)
        ensures
            b == self.non_negative(),
    {
        !self.is_nan() && self.bits <= 0x8000_0000
    }

    pub fn is_positive(&self) -> (b: bool)
        ensures
            b == self.positive(),
    {
        !self.is_nan() && 0 < self.bits && self.bits < 0x8000_0000
    }
}

/// One obstacle that a scan has found at one sample position.
#[derive(Clone, Copy, Debug, PartialEq, Eq, Structural)]
pub struct ObjectData {
    /// Distance to the obstacle in centimetres.
    pub distance: Binary32,
    /// Sample position in degrees.
    pub angle: u8,
    /// Width of the obstacle in centimetres.
    pub width: Binary32,
}

impl ObjectData {
    /// The distance is not negative and the width is positive.
    pub open spec fn valid(self) -> bool {
        self.distance.non_negative() && self.width.positive()
    }

    pub fn is_valid(&self) -> (b: bool)
        ensures
            b == self.valid(),
    {
        self.distance.is_non_negative() && self.width.is_positive()
    }
}

/// The three things the executor can be asked to do, and so the three
/// kinds of answer it gives.
#[derive(Clone, Copy, Debug, PartialEq, Eq, Structural)]
pub enum Kind {
    Drive,
    Turn,
    Scan,
}

/// What the controller asks of the executor.
#[derive(Clone, Copy, Debug, PartialEq, Eq, Structural)]
pub enum Command {
    /// Drive `distance` centimetres, backwards where it is negative.
    Drive { distance: Binary32, speed: u16 },
    /// Turn by `angle` degrees, counter-clockwise where it is positive.
    Turn { angle: Binary32, speed: u16 },
    /// Scan from `start` to `end` degrees in steps of `fidelity`.
    Scan { start: u8, end: u8, fidelity: u8 },
}

impl Command {
    pub open spec fn kind(self) -> Kind {
        match self {
            Command::Drive { .. } => Kind::Drive,
            Command::Turn { .. } => Kind::Turn,
            Command::Scan { .. } => Kind::Scan,
        }
    }

    /// The fields lie in the ranges that the executor can act on: a scan
    /// stays within the scanner's reach, does not run backwards and has a
    /// step of at least one degree.
    pub open spec fn valid(self) -> bool {
        match self {
            Command::Scan { start, end, fidelity } => start <= end && end <= ANGLE_MAX
                && fidelity >= 1,
            _ => true,
        }
    }

    pub fn get_kind(&self) -> (k: Kind)
        ensures
            k == self.kind(),
    {
        match self {
            Command::Drive { .. } => Kind::Drive,
            Command::Turn { .. } => Kind::Turn,
            Command::Scan { .. } => Kind::Scan,
        }
    }

    pub fn is_valid(&self) -> (b: bool)
        ensures
            b == self.valid(),
    {
        match self {
            Command::Scan { start, end, fidelity } => *start <= *end && *end <= ANGLE_MAX
                && *fidelity >= 1,
            _ => true,
        }
    }

    /// A scan command, or nothing where the fields are out of range.
    pub fn scan(start: u8, end: u8, fidelity: u8) -> (c: Option<Command>)
        ensures
            c == if start <= end && end <= ANGLE_MAX && fidelity >= 1 {
                Some(Command::Scan { start, end, fidelity })
            } else {
                None
            },
    {
        if start <= end && end <= ANGLE_MAX && fidelity >= 1 {
            Some(Command::Scan { start, end, fidelity })
        } else {
            None
        }
    }
}

/// What the executor reports once it has done what it was asked.
#[derive(Debug, PartialEq)]
pub enum Response {
    /// The distance actually travelled, and what stopped the drive early.
    DriveDone { total_distance: Binary32, bump_detected: bool, cliff_detected: bool },
    /// The angle actually turned.
    TurnDone { total_angle: Binary32 },
    /// The obstacles found, in the order in which the scan met them.
    ScanDone { data: heapless::Vec<ObjectData, SCAN_MAX> },
}

/// A response as contracts see it: the list of a scan is a sequence.
pub enum ResponseView {
    DriveDone { total_distance: Binary32, bump_detected: bool, cliff_detected: bool },
    TurnDone { total_angle: Binary32 },
    ScanDone { data: Seq<ObjectData> },
}

impl ResponseView {
    pub open spec fn kind(self) -> Kind {
        match self {
            ResponseView::DriveDone { .. } => Kind::Drive,
            ResponseView::TurnDone { .. } => Kind::Turn,
            ResponseView::ScanDone { .. } => Kind::Scan,
        }
    }

    /// A scan carries no more objects than one frame has room for.
    pub open spec fn wf(self) -> bool {
        match self {
            ResponseView::ScanDone { data } => data.len() <= SCAN_MAX,
            _ => true,
        }
    }
}

impl View for Response {
    type V = ResponseView;

    open spec fn view(&self) -> ResponseView {
        match *self {
            Response::DriveDone { total_distance, bump_detected, cliff_detected } => {
                ResponseView::DriveDone { total_distance, bump_detected, cliff_detected }
            },
            Response::TurnDone { total_angle } => ResponseView::TurnDone { total_angle },
            Response::ScanDone { data } => ResponseView::ScanDone { data: scan_objects(data) },
        }
    }
}

impl Clone for Response {
    fn clone(&self) -> (r: Response)
        ensures
            r@ == self@,
    {
        match self {
            Response::DriveDone { total_distance, bump_detected, cliff_detected } => {
                Response::DriveDone {
                    total_distance: *total_distance,
                    bump_detected: *bump_detected,
                    cliff_detected: *cliff_detected,
                }
            },
            Response::TurnDone { total_angle } => Response::TurnDone { total_angle: *total_angle },
            Response::ScanDone { data } => {
                let n = list_len(data);
                let mut copy = list_new();
                let mut i: usize = 0;
                while i < n
                    invariant
                        i <= n == scan_objects(*data).len() <= SCAN_MAX,
                        scan_objects(copy) == scan_objects(*data).take(i as int),
                    decreases n - i,
                {
                    let _ = list_push(&mut copy, list_get(data, i));
                    proof {
                        assert(scan_objects(*data).take(i + 1) == scan_objects(*data).take(
                            i as int,
                        ).push(scan_objects(*data)[i as int]));
                    }
                    i += 1;
                }
                proof {
                    assert(scan_objects(*data).take(i as int) == scan_objects(*data));
                }
                Response::ScanDone { data: copy }
            },
        }
    }
}

impl Response {
    pub fn get_kind(&self) -> (k: Kind)
        ensures
            k == self@.kind(),
    {
        match self {
            Response::DriveDone { .. } => Kind::Drive,
            Response::TurnDone { .. } => Kind::Turn,
            Response::ScanDone { .. } => Kind::Scan,
        }
    }

    /// A scan response that carries `objects`, in their order. More than
    /// `SCAN_MAX` of them are refused; none is ever left out.
    pub fn scan_done(objects: &[ObjectData]) -> (r: Result<Response, CyprotoError>)
        ensures
            objects@.len() <= SCAN_MAX ==> r is Ok && r->Ok_0@ == (ResponseView::ScanDone {
                data: objects@,
            }),
            objects@.len() > SCAN_MAX ==> r == Err::<Response, CyprotoError>(
                CyprotoError::BufferOverflow,
            ),
    {
        if objects.len() > SCAN_MAX {
            return Err(CyprotoError::BufferOverflow);
        }
        let mut data = list_new();
        let mut i: usize = 0;
        while i < objects.len()
            invariant
                i <= objects@.len() <= SCAN_MAX,
                scan_objects(data) == objects@.take(i as int),
            decreases objects@.len() - i,
        {
            let _ = list_push(&mut data, objects[i]);
            proof {
                assert(objects@.take(i + 1) == objects@.take(i as int).push(objects@[i as int]));
            }
            i += 1;
        }
        proof {
            assert(objects@.take(i as int) == objects@);
        }
        Ok(Response::ScanDone { data })
    }

    /// The number of objects, zero for a response that is no scan.
    pub fn object_count(&self) -> (n: usize)
        ensures
            n == match self@ {
                ResponseView::ScanDone { data } => data.len(),
                _ => 0,
            },
            n <= SCAN_MAX,
    {
        match self {
            Response::ScanDone { data } => list_len(data),
            _ => 0,
        }
    }

    /// The object at position `i` of a scan, nothing where there is none.
    pub fn object(&self, i: usize) -> (o: Option<ObjectData>)
        ensures
            o == match self@ {
                ResponseView::ScanDone { data } => if i < data.len() {
                    Some(data[i as int])
                } else {
                    None
                },
                _ => None,
            },
    {
        match self {
            Response::ScanDone { data } => if i < list_len(data) {
                Some(list_get(data, i))
            } else {
                None
            },
            _ => None,
        }
    }
}

} // verus!
