use cyproto::buffer::{FrameBuffer, FRAMED_MAX};
use cyproto::codec::{decode_command, decode_response, encode_command, encode_response};
use cyproto::error::CyprotoError;
use cyproto::model::{Binary32, Command, ObjectData, Response, BYTES_MAX, SCAN_MAX};

fn number(x: f32) -> Binary32 {
    Binary32::from_bits(x.to_bits())
}

fn object(i: usize) -> ObjectData {
    ObjectData { distance: number(15.0 + i as f32), angle: (i * 6) as u8, width: number(5.5) }
}

fn objects(n: usize) -> Vec<ObjectData> {
    (0..n).map(object).collect()
}

fn delimiter_only_last(frame: &[u8]) -> bool {
    let n = frame.len();
    n > 0 && frame[n - 1] == 0 && frame[..n - 1].iter().all(|b| *b != 0)
}

fn framed(payload: &[u8]) -> FrameBuffer {
    FrameBuffer::frame(payload).unwrap()
}

#[test]
fn drive_command_has_its_frame() {
    let cmd = Command::Drive { distance: number(50.0), speed: 200 };
    let frame = encode_command(&cmd).unwrap();
    assert_eq!(frame.as_slice(), &[1, 1, 1, 4, 0x48, 0x42, 0xc8, 1, 0][..]);
}

#[test]
fn turn_command_has_its_frame() {
    let cmd = Command::Turn { angle: number(-90.0), speed: 150 };
    let frame = encode_command(&cmd).unwrap();
    assert_eq!(frame.as_slice(), &[2, 1, 1, 4, 0xb4, 0xc2, 0x96, 1, 0][..]);
}

#[test]
fn scan_command_has_its_frame() {
    let cmd = Command::Scan { start: 0, end: 180, fidelity: 2 };
    let frame = encode_command(&cmd).unwrap();
    assert_eq!(frame.as_slice(), &[2, 2, 3, 180, 2, 0][..]);
}

#[test]
fn speed_is_two_bytes_low_byte_first() {
    let cmd = Command::Drive { distance: number(1.0), speed: 0x1234 };
    let frame = encode_command(&cmd).unwrap();
    assert_eq!(frame.as_slice(), &[1, 1, 1, 5, 0x80, 0x3f, 0x34, 0x12, 0][..]);
}

#[test]
fn responses_have_their_frames() {
    let drive = Response::DriveDone {
        total_distance: number(50.0),
        bump_detected: false,
        cliff_detected: true,
    };
    assert_eq!(encode_response(&drive).unwrap().as_slice(), &[1, 1, 1, 3, 0x48, 0x42, 2, 1, 0][..]);
    let turn = Response::TurnDone { total_angle: number(-90.0) };
    assert_eq!(encode_response(&turn).unwrap().as_slice(), &[2, 1, 1, 3, 0xb4, 0xc2, 0][..]);
    let scan = Response::scan_done(&[]).unwrap();
    assert_eq!(encode_response(&scan).unwrap().as_slice(), &[2, 2, 1, 0][..]);
}

#[test]
fn scan_response_lays_objects_out_in_nine_bytes() {
    let one = ObjectData { distance: number(1.0), angle: 7, width: number(2.0) };
    let scan = Response::scan_done(&[one]).unwrap();
    let frame = encode_response(&scan).unwrap();
    assert_eq!(frame.as_slice(), &[3, 2, 1, 1, 4, 0x80, 0x3f, 7, 1, 1, 2, 0x40, 0][..]);
}

#[test]
fn commands_round_trip() {
    let all = [
        Command::Drive { distance: number(50.0), speed: 200 },
        Command::Drive { distance: number(-12.5), speed: 0 },
        Command::Turn { angle: number(-90.0), speed: 150 },
        Command::Turn { angle: number(0.0), speed: u16::MAX },
        Command::Scan { start: 0, end: 180, fidelity: 1 },
        Command::Scan { start: 45, end: 45, fidelity: 255 },
    ];
    for cmd in all {
        let mut frame = encode_command(&cmd).unwrap();
        assert!(delimiter_only_last(frame.as_slice()));
        assert_eq!(decode_command(&mut frame), Ok(cmd));
        assert!(frame.is_empty());
    }
}

#[test]
fn responses_round_trip() {
    let all = [
        Response::DriveDone {
            total_distance: number(50.0),
            bump_detected: false,
            cliff_detected: false,
        },
        Response::DriveDone {
            total_distance: number(-3.25),
            bump_detected: true,
            cliff_detected: true,
        },
        Response::TurnDone { total_angle: number(359.5) },
        Response::scan_done(&objects(3)).unwrap(),
    ];
    for resp in all {
        let mut frame = encode_response(&resp).unwrap();
        assert!(delimiter_only_last(frame.as_slice()));
        assert_eq!(decode_response(&mut frame), Ok(resp));
        assert!(frame.is_empty());
    }
}

#[test]
fn empty_scan_round_trips() {
    let resp = Response::scan_done(&[]).unwrap();
    assert_eq!(resp.object_count(), 0);
    let mut frame = encode_response(&resp).unwrap();
    assert_eq!(decode_response(&mut frame), Ok(resp));
}

#[test]
fn full_scan_round_trips() {
    assert_eq!(BYTES_MAX, 256);
    assert_eq!(SCAN_MAX, 28);
    let list = objects(28);
    let resp = Response::scan_done(&list).unwrap();
    assert_eq!(resp.object_count(), 28);
    let mut frame = encode_response(&resp).unwrap();
    assert!(frame.len() <= BYTES_MAX);
    assert!(delimiter_only_last(frame.as_slice()));
    let back = decode_response(&mut frame).unwrap();
    assert_eq!(back.object_count(), 28);
    for i in 0..28 {
        assert_eq!(back.object(i), Some(list[i]));
    }
    assert_eq!(back.object(28), None);
    assert_eq!(back, resp);
}

#[test]
fn full_scan_without_a_zero_byte_fills_the_buffer() {
    let dense = ObjectData {
        distance: Binary32::from_bits(0x4101_0101),
        angle: 9,
        width: Binary32::from_bits(0x4202_0202),
    };
    let list = vec![dense; SCAN_MAX];
    let resp = Response::scan_done(&list).unwrap();
    let mut frame = encode_response(&resp).unwrap();
    assert_eq!(frame.len(), BYTES_MAX);
    assert_eq!(frame.as_slice()[0], 0xff);
    assert!(delimiter_only_last(frame.as_slice()));
    assert_eq!(decode_response(&mut frame), Ok(resp));
}

#[test]
fn scan_with_one_object_too_many_is_refused() {
    assert_eq!(Response::scan_done(&objects(29)), Err(CyprotoError::BufferOverflow));
    assert_eq!(Response::scan_done(&objects(SCAN_MAX + 1)), Err(CyprotoError::BufferOverflow));
    assert_eq!(Response::scan_done(&objects(200)), Err(CyprotoError::BufferOverflow));
}

#[test]
fn payload_of_greatest_length_is_framed() {
    let payload = vec![0x55u8; FRAMED_MAX];
    let mut frame = FrameBuffer::frame(&payload).unwrap();
    assert_eq!(frame.len(), 256);
    assert!(frame.is_full());
    assert!(frame.holds_frame());
    assert_eq!(frame.unframe(), Ok(()));
    assert_eq!(frame.as_slice(), &payload[..]);
}

#[test]
fn payload_that_is_too_long_is_refused() {
    let payload = vec![0u8; FRAMED_MAX + 1];
    assert!(matches!(FrameBuffer::frame(&payload), Err(CyprotoError::BufferOverflow)));
}

#[test]
fn framing_stuffs_zero_bytes() {
    let frame = framed(&[0x11, 0x00, 0x22, 0x33]);
    assert_eq!(frame.as_slice(), &[2, 0x11, 3, 0x22, 0x33, 0][..]);
    let mut frame = frame;
    assert_eq!(frame.unframe(), Ok(()));
    assert_eq!(frame.as_slice(), &[0x11, 0x00, 0x22, 0x33][..]);
}

#[test]
fn broken_stuffing_is_frame_corrupt() {
    let mut frame = FrameBuffer::from_slice(&[5, 1, 2, 0]).unwrap();
    assert_eq!(decode_response(&mut frame), Err(CyprotoError::FrameCorrupt));
    assert!(frame.is_empty());
    let mut frame = FrameBuffer::from_slice(&[5, 1, 2, 0]).unwrap();
    assert_eq!(decode_command(&mut frame), Err(CyprotoError::FrameCorrupt));
}

#[test]
fn bytes_without_delimiter_are_frame_corrupt() {
    let mut frame = FrameBuffer::from_slice(&[2, 2, 1]).unwrap();
    assert_eq!(decode_response(&mut frame), Err(CyprotoError::FrameCorrupt));
    let mut empty = FrameBuffer::new();
    assert_eq!(decode_command(&mut empty), Err(CyprotoError::FrameCorrupt));
}

#[test]
fn delimiter_inside_is_frame_corrupt() {
    let mut frame = FrameBuffer::from_slice(&[2, 2, 1, 0, 2, 2, 1, 0]).unwrap();
    assert!(!frame.holds_frame());
    assert_eq!(decode_response(&mut frame), Err(CyprotoError::FrameCorrupt));
}

#[test]
fn unknown_tag_is_payload_mismatch() {
    let mut frame = framed(&[3, 1, 2, 3]);
    assert_eq!(decode_command(&mut frame), Err(CyprotoError::PayloadMismatch));
    let mut frame = framed(&[9, 0, 0, 0, 0]);
    assert_eq!(decode_response(&mut frame), Err(CyprotoError::PayloadMismatch));
    let mut frame = framed(&[]);
    assert_eq!(decode_response(&mut frame), Err(CyprotoError::PayloadMismatch));
}

#[test]
fn wrong_length_is_payload_mismatch() {
    let mut short = framed(&[0, 0, 0, 0x48, 0x42, 0xc8]);
    assert_eq!(decode_command(&mut short), Err(CyprotoError::PayloadMismatch));
    let mut long = framed(&[2, 0, 180, 1, 0]);
    assert_eq!(decode_command(&mut long), Err(CyprotoError::PayloadMismatch));
    let mut long = framed(&[1, 0, 0, 0xb4, 0xc2, 7]);
    assert_eq!(decode_response(&mut long), Err(CyprotoError::PayloadMismatch));
}

#[test]
fn flag_that_is_neither_zero_nor_one_is_payload_mismatch() {
    let mut frame = framed(&[0, 0, 0, 0x48, 0x42, 2, 0]);
    assert_eq!(decode_response(&mut frame), Err(CyprotoError::PayloadMismatch));
    let mut frame = framed(&[0, 0, 0, 0x48, 0x42, 1, 0xff]);
    assert_eq!(decode_response(&mut frame), Err(CyprotoError::PayloadMismatch));
}

#[test]
fn count_beyond_capacity_is_payload_mismatch() {
    let mut payload = vec![2u8, 29];
    payload.extend(std::iter::repeat(1u8).take(29 * 9).take(252));
    let mut frame = framed(&payload);
    assert_eq!(decode_response(&mut frame), Err(CyprotoError::PayloadMismatch));
    let mut frame = framed(&[2, 200]);
    assert_eq!(decode_response(&mut frame), Err(CyprotoError::PayloadMismatch));
}

#[test]
fn count_that_disagrees_with_length_is_payload_mismatch() {
    let mut payload = vec![2u8, 2];
    payload.extend_from_slice(&[1; 9]);
    let mut frame = framed(&payload);
    assert_eq!(decode_response(&mut frame), Err(CyprotoError::PayloadMismatch));
    let mut payload = vec![2u8, 1];
    payload.extend_from_slice(&[1; 10]);
    let mut frame = framed(&payload);
    assert_eq!(decode_response(&mut frame), Err(CyprotoError::PayloadMismatch));
}

#[test]
fn a_command_frame_is_no_response() {
    let cmd = Command::Scan { start: 0, end: 180, fidelity: 1 };
    let mut frame = encode_command(&cmd).unwrap();
    assert_eq!(decode_response(&mut frame), Err(CyprotoError::PayloadMismatch));
}

#[test]
fn clone_of_a_response_is_equal() {
    let resp = Response::scan_done(&objects(5)).unwrap();
    let copy = resp.clone();
    assert_eq!(copy, resp);
    assert_eq!(copy.object(4), Some(object(4)));
}
