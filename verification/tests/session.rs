use cyproto::buffer::FrameBuffer;
use cyproto::codec::{decode_command, encode_response};
use cyproto::error::CyprotoError;
use cyproto::model::{Binary32, Command, Kind, ObjectData, Response};
use cyproto::assembler::FrameAssembler;
use cyproto::session::{deliver, resolve, Context, Delivery, Outcome, Session, State};

fn num(x: f32) -> Binary32 {
    Binary32::from_bits(x.to_bits())
}

fn frame_of_response(resp: &Response) -> FrameBuffer {
    encode_response(resp).unwrap()
}

fn some_scan() -> Response {
    let found = [
        ObjectData { distance: num(31.5), angle: 40, width: num(6.0) },
        ObjectData { distance: num(72.0), angle: 130, width: num(9.25) },
    ];
    Response::scan_done(&found).unwrap()
}

#[test]
fn new_session_is_idle() {
    let s = Session::new();
    assert!(s.is_idle());
    assert_eq!(s.state(), State::Idle);
}

#[test]
fn issue_hands_back_the_frame_of_the_command() {
    let mut s = Session::new();
    let cmd = Command::Drive { distance: num(50.0), speed: 200 };
    let mut frame = s.issue(cmd).unwrap();
    assert_eq!(frame.as_slice(), &[1, 1, 1, 4, 0x48, 0x42, 0xc8, 1, 0][..]);
    assert_eq!(decode_command(&mut frame), Ok(cmd));
    assert_eq!(s.state(), State::AwaitingResponse(Context::Drive { distance: num(50.0) }));
    assert!(!s.is_idle());
}

#[test]
fn second_issue_is_busy_and_changes_nothing() {
    let mut s = Session::new();
    s.issue(Command::Turn { angle: num(30.0), speed: 100 }).unwrap();
    let before = s.state();
    let second = s.issue(Command::Scan { start: 0, end: 180, fidelity: 1 });
    assert!(matches!(second, Err(CyprotoError::Busy)));
    assert_eq!(s.state(), before);
    assert_eq!(s.state(), State::AwaitingResponse(Context::Turn { angle: num(30.0) }));
    let third = s.issue(Command::Turn { angle: num(30.0), speed: 100 });
    assert!(matches!(third, Err(CyprotoError::Busy)));
    assert_eq!(s.state(), before);
}

#[test]
fn drive_is_completed_by_drive_done() {
    let mut s = Session::new();
    s.issue(Command::Drive { distance: num(50.0), speed: 200 }).unwrap();
    let done = Response::DriveDone {
        total_distance: num(50.0),
        bump_detected: false,
        cliff_detected: false,
    };
    let out = s.poll(Delivery::Frame(frame_of_response(&done)));
    match out {
        Outcome::Completed(
            Response::DriveDone { total_distance, bump_detected, cliff_detected },
            Context::Drive { distance },
        ) => {
            assert_eq!(f32::from_bits(total_distance.to_bits()), 50.0);
            assert!(!bump_detected);
            assert!(!cliff_detected);
            assert_eq!(f32::from_bits(distance.to_bits()), 50.0);
        },
        other => panic!("{:?}", other),
    }
    assert_eq!(s.state(), State::Idle);
}

#[test]
fn turn_answered_by_scan_is_a_protocol_error() {
    let mut s = Session::new();
    s.issue(Command::Turn { angle: num(-90.0), speed: 150 }).unwrap();
    let out = s.poll(Delivery::Frame(frame_of_response(&some_scan())));
    assert_eq!(out, Outcome::ProtocolError(CyprotoError::ProtocolMismatch));
    assert_eq!(s.state(), State::Idle);
    assert!(s.issue(Command::Turn { angle: num(-90.0), speed: 150 }).is_ok());
}

#[test]
fn scan_is_completed_with_its_objects_and_context() {
    let mut s = Session::new();
    s.issue(Command::Scan { start: 10, end: 170, fidelity: 2 }).unwrap();
    let out = s.poll(Delivery::Frame(frame_of_response(&some_scan())));
    assert_eq!(
        out,
        Outcome::Completed(some_scan(), Context::Scan { start: 10, end: 170, fidelity: 2 })
    );
    assert!(s.is_idle());
}

#[test]
fn turn_is_completed_by_turn_done() {
    let mut s = Session::new();
    s.issue(Command::Turn { angle: num(45.0), speed: 100 }).unwrap();
    let done = Response::TurnDone { total_angle: num(44.5) };
    let out = s.poll(Delivery::Frame(frame_of_response(&done)));
    assert_eq!(out, Outcome::Completed(done, Context::Turn { angle: num(45.0) }));
    assert!(s.is_idle());
}

#[test]
fn polling_with_nothing_stays_pending() {
    let mut s = Session::new();
    s.issue(Command::Scan { start: 0, end: 90, fidelity: 3 }).unwrap();
    let awaiting = s.state();
    for _ in 0..100 {
        assert_eq!(s.poll(Delivery::Nothing), Outcome::Pending);
        assert_eq!(s.state(), awaiting);
    }
    let out = s.poll(Delivery::Frame(frame_of_response(&some_scan())));
    assert!(matches!(out, Outcome::Completed(_, Context::Scan { start: 0, end: 90, fidelity: 3 })));
    assert!(s.is_idle());
}

#[test]
fn polling_while_idle_is_pending_and_drops_the_frame() {
    let mut s = Session::new();
    assert_eq!(s.poll(Delivery::Nothing), Outcome::Pending);
    let stray = Response::TurnDone { total_angle: num(1.0) };
    assert_eq!(s.poll(Delivery::Frame(frame_of_response(&stray))), Outcome::Pending);
    assert_eq!(s.poll(Delivery::Failed(CyprotoError::BufferOverflow)), Outcome::Pending);
    assert!(s.is_idle());
}

#[test]
fn corrupt_frame_then_valid_frame() {
    let mut s = Session::new();
    s.issue(Command::Drive { distance: num(20.0), speed: 200 }).unwrap();
    let corrupt = FrameBuffer::from_slice(&[5, 1, 2, 0]).unwrap();
    assert_eq!(
        s.poll(Delivery::Frame(corrupt)),
        Outcome::ProtocolError(CyprotoError::FrameCorrupt)
    );
    assert!(s.is_idle());
    s.issue(Command::Drive { distance: num(20.0), speed: 200 }).unwrap();
    let done = Response::DriveDone {
        total_distance: num(19.5),
        bump_detected: true,
        cliff_detected: false,
    };
    let out = s.poll(Delivery::Frame(frame_of_response(&done)));
    assert_eq!(out, Outcome::Completed(done, Context::Drive { distance: num(20.0) }));
    assert!(s.is_idle());
}

#[test]
fn payload_mismatch_returns_to_idle() {
    let mut s = Session::new();
    s.issue(Command::Drive { distance: num(20.0), speed: 200 }).unwrap();
    let odd = FrameBuffer::frame(&[7, 7, 7]).unwrap();
    assert_eq!(s.poll(Delivery::Frame(odd)), Outcome::ProtocolError(CyprotoError::PayloadMismatch));
    assert!(s.is_idle());
}

#[test]
fn failed_read_returns_to_idle() {
    let mut s = Session::new();
    s.issue(Command::Scan { start: 0, end: 180, fidelity: 1 }).unwrap();
    assert_eq!(
        s.poll(Delivery::Failed(CyprotoError::BufferOverflow)),
        Outcome::ProtocolError(CyprotoError::BufferOverflow)
    );
    assert!(s.is_idle());
}

#[test]
fn resolve_matches_kinds() {
    let ctx = Context::Turn { angle: num(10.0) };
    let turn = Response::TurnDone { total_angle: num(10.0) };
    assert_eq!(resolve(ctx, Ok(turn.clone())), Outcome::Completed(turn, ctx));
    let drive = Response::DriveDone {
        total_distance: num(1.0),
        bump_detected: false,
        cliff_detected: false,
    };
    assert_eq!(resolve(ctx, Ok(drive)), Outcome::ProtocolError(CyprotoError::ProtocolMismatch));
    assert_eq!(
        resolve(ctx, Err(CyprotoError::FrameCorrupt)),
        Outcome::ProtocolError(CyprotoError::FrameCorrupt)
    );
}

#[test]
fn context_keeps_what_the_response_is_read_against() {
    let drive = Command::Drive { distance: num(-5.0), speed: 9 };
    assert_eq!(Context::from_command(&drive), Context::Drive { distance: num(-5.0) });
    assert_eq!(Context::from_command(&drive).get_kind(), Kind::Drive);
    let scan = Command::Scan { start: 1, end: 2, fidelity: 3 };
    assert_eq!(Context::from_command(&scan), Context::Scan { start: 1, end: 2, fidelity: 3 });
    assert_eq!(Context::from_command(&scan).get_kind(), Kind::Scan);
    let turn = Command::Turn { angle: num(2.0), speed: 9 };
    assert_eq!(Context::from_command(&turn).get_kind(), Kind::Turn);
}

#[test]
fn bytes_are_delivered_as_frames() {
    let mut s = Session::new();
    let mut a = FrameAssembler::new();
    s.issue(Command::Turn { angle: num(45.0), speed: 100 }).unwrap();
    let done = Response::TurnDone { total_angle: num(45.0) };
    let frame = frame_of_response(&done);
    let mut outcomes = Vec::new();
    for b in [5u8, 1, 2, 0].iter().chain(frame.as_slice()) {
        let out = s.poll(deliver(&mut a, *b));
        if out != Outcome::Pending {
            outcomes.push(out);
            if s.is_idle() && outcomes.len() == 1 {
                s.issue(Command::Turn { angle: num(45.0), speed: 100 }).unwrap();
            }
        }
    }
    assert_eq!(
        outcomes,
        vec![
            Outcome::ProtocolError(CyprotoError::FrameCorrupt),
            Outcome::Completed(done, Context::Turn { angle: num(45.0) }),
        ]
    );
    assert!(s.is_idle());
}

#[test]
fn overflow_is_delivered_as_a_failure() {
    let mut a = FrameAssembler::new();
    for _ in 0..256 {
        assert!(matches!(deliver(&mut a, 9), Delivery::Nothing));
    }
    assert!(matches!(deliver(&mut a, 9), Delivery::Failed(CyprotoError::BufferOverflow)));
    assert!(matches!(deliver(&mut a, 0), Delivery::Nothing));
    assert!(matches!(deliver(&mut a, 0), Delivery::Frame(_)));
}
