//! The session: one command at a time, and the response that answers it.
//!
//! The session does no reading or writing of its own. `issue` hands back
//! the frame to send, and `poll` is told what one attempt to read brought.

use vstd::prelude::*;
use crate::assembler::{FeedEvent, FrameAssembler};
use crate::buffer::{frame_of, is_frame, FrameBuffer};
use crate::codec::{decode_response, decoded_command, decoded_response, encode_command};
use crate::error::CyprotoError;
use crate::model::{Binary32, Command, Kind, Response, ResponseView};
use crate::wire::command_payload;

verus! {

/// What is kept of a command while its response is awaited: its kind, and
/// the fields that the response is read against.
#[derive(Clone, Copy, Debug, PartialEq, Eq, Structural)]
pub enum Context {
    Drive { distance: Binary32 },
    Turn { angle: Binary32 },
    Scan { start: u8, end: u8, fidelity: u8 },
}

impl Context {
    pub open spec fn kind(self) -> Kind {
        match self {
            Context::Drive { .. } => Kind::Drive,
            Context::Turn { .. } => Kind::Turn,
            Context::Scan { .. } => Kind::Scan,
        }
    }

    /// What is kept of a command.
    pub open spec fn of(c: Command) -> Context {
        match c {
            Command::Drive { distance, .. } => Context::Drive { distance },
            Command::Turn { angle, .. } => Context::Turn { angle },
            Command::Scan { start, end, fidelity } => Context::Scan { start, end, fidelity },
        }
    }

    pub fn get_kind(&self) -> (k: Kind)
        ensures
            k == self.kind(),
    {
        match self {
            Context::Drive { .. } => Kind::Drive,
            Context::Turn { .. } => Kind::Turn,
            Context::Scan { .. } => Kind::Scan,
        }
    }

    pub fn from_command(c: &Command) -> (ctx: Context)
        ensures
            ctx == Context::of(*c),
            ctx.kind() == c.kind(),
    {
        match c {
            Command::Drive { distance, .. } => Context::Drive { distance: *distance },
            Command::Turn { angle, .. } => Context::Turn { angle: *angle },
            Command::Scan { start, end, fidelity } => Context::Scan {
                start: *start,
                end: *end,
                fidelity: *fidelity,
            },
        }
    }
}

/// Where a session stands. There is room for one outstanding command and
/// no more.
#[derive(Clone, Copy, Debug, PartialEq, Eq, Structural)]
pub enum State {
    /// No command is outstanding.
    Idle,
    /// A command was sent and its response has not come.
    AwaitingResponse(Context),
}

/// What one attempt to read from the transport brought.
#[derive(Clone, Copy, Debug)]
pub enum Delivery {
    /// Nothing yet.
    Nothing,
    /// One whole frame.
    Frame(FrameBuffer),
    /// No frame, for the reason given: one that outgrew the buffer, say.
    Failed(CyprotoError),
}

/// A delivery as contracts see it.
pub enum DeliveryView {
    Nothing,
    Frame(Seq<u8>),
    Failed(CyprotoError),
}

impl View for Delivery {
    type V = DeliveryView;

    open spec fn view(&self) -> DeliveryView {
        match *self {
            Delivery::Nothing => DeliveryView::Nothing,
            Delivery::Frame(f) => DeliveryView::Frame(f@),
            Delivery::Failed(e) => DeliveryView::Failed(e),
        }
    }
}

/// What a poll found.
#[derive(Debug, PartialEq)]
pub enum Outcome {
    /// The response has not come; poll again later.
    Pending,
    /// The response that answers the outstanding command, and what was
    /// kept of that command.
    Completed(Response, Context),
    /// What came cannot be the answer. The command is given up.
    ProtocolError(CyprotoError),
}

/// An outcome as contracts see it.
pub enum OutcomeView {
    Pending,
    Completed(ResponseView, Context),
    ProtocolError(CyprotoError),
}

impl View for Outcome {
    type V = OutcomeView;

    open spec fn view(&self) -> OutcomeView {
        match *self {
            Outcome::Pending => OutcomeView::Pending,
            Outcome::Completed(r, ctx) => OutcomeView::Completed(r@, ctx),
            Outcome::ProtocolError(e) => OutcomeView::ProtocolError(e),
        }
    }
}

impl State {
    /// The state after a command is issued, and the frame to send or the
    /// reason why there is none.
    pub open spec fn issued(self, c: Command) -> (State, Result<Seq<u8>, CyprotoError>) {
        match self {
            State::Idle => (
                State::AwaitingResponse(Context::of(c)),
                Ok(frame_of(command_payload(c))),
            ),
            State::AwaitingResponse(_) => (self, Err(CyprotoError::Busy)),
        }
    }

    /// The state after a poll, and what the poll found.
    ///
    /// While a response is awaited, whatever comes in its place ends the
    /// wait: the response of the kind asked for completes the command, and
    /// a response of another kind, bytes that do not decode and a failed
    /// read give it up.
    pub open spec fn polled(self, d: DeliveryView) -> (State, OutcomeView) {
        match self {
            State::Idle => (State::Idle, OutcomeView::Pending),
            State::AwaitingResponse(ctx) => match d {
                DeliveryView::Nothing => (self, OutcomeView::Pending),
                DeliveryView::Failed(e) => (State::Idle, OutcomeView::ProtocolError(e)),
                DeliveryView::Frame(bytes) => match decoded_response(bytes) {
                    Ok(r) => if r.kind() == ctx.kind() {
                        (State::Idle, OutcomeView::Completed(r, ctx))
                    } else {
                        (State::Idle, OutcomeView::ProtocolError(CyprotoError::ProtocolMismatch))
                    },
                    Err(e) => (State::Idle, OutcomeView::ProtocolError(e)),
                },
            },
        }
    }
}

/// The controller's end of the protocol.
#[derive(Debug)]
pub struct Session {
    state: State,
}

impl View for Session {
    type V = State;

    closed spec fn view(&self) -> State {
        self.state
    }
}

impl Session {
    /// A session with no command outstanding.
    pub fn new() -> (s: Session)
        ensures
            s@ == State::Idle,
    {
        Session { state: State::Idle }
    }

    pub fn state(&self) -> (s: State)
        ensures
            s == self@,
    {
        self.state
    }

    pub fn is_idle(&self) -> (b: bool)
        ensures
            b == (self@ == State::Idle),
    {
        match self.state {
            State::Idle => true,
            State::AwaitingResponse(_) => false,
        }
    }

    /// Takes a command for sending and hands back its frame. While a
    /// command is outstanding the next one is refused with `Busy`, and
    /// the session stays as it is.
    pub fn issue(&mut self, c: Command) -> (r: Result<FrameBuffer, CyprotoError>)
        ensures
            final(self)@ == old(self)@.issued(c).0,
            match old(self)@.issued(c).1 {
                Ok(bytes) => r is Ok && r->Ok_0@ == bytes && is_frame(bytes) && decoded_command(
                    bytes,
                ) == Ok::<Command, CyprotoError>(c),
                Err(e) => r == Err::<FrameBuffer, CyprotoError>(e),
            },
    {
        match self.state {
            State::AwaitingResponse(_) => Err(CyprotoError::Busy),
            State::Idle => {
                let r = encode_command(&c);
                self.state = State::AwaitingResponse(Context::from_command(&c));
                r
            },
        }
    }

    /// Takes what one attempt to read brought and says where the
    /// outstanding command stands. With no command outstanding a poll
    /// finds nothing and what was delivered is dropped.
    pub fn poll(&mut self, delivery: Delivery) -> (r: Outcome)
        ensures
            final(self)@ == old(self)@.polled(delivery@).0,
            r@ == old(self)@.polled(delivery@).1,
    {
        match self.state {
            State::Idle => Outcome::Pending,
            State::AwaitingResponse(ctx) => match delivery {
                Delivery::Nothing => Outcome::Pending,
                Delivery::Failed(e) => {
                    self.state = State::Idle;
                    Outcome::ProtocolError(e)
                },
                Delivery::Frame(frame) => {
                    let mut frame = frame;
                    self.state = State::Idle;
                    resolve(ctx, decode_response(&mut frame))
                },
            },
        }
    }
}

/// Feeds one byte that was read to the assembler and says what it
/// delivers: nothing while the frame is not whole, the frame once it is,
/// and a failure where the bytes outgrew the buffer.
pub fn deliver(assembler: &mut FrameAssembler, byte: u8) -> (d: Delivery)
    ensures
        final(assembler)@ == old(assembler)@.fed(byte).0,
        d@ == match old(assembler)@.fed(byte).1 {
            FeedEvent::Nothing => DeliveryView::Nothing,
            FeedEvent::Frame(bytes) => DeliveryView::Frame(bytes),
            FeedEvent::Overflow => DeliveryView::Failed(CyprotoError::BufferOverflow),
        },
{
    match assembler.feed(byte) {
        Ok(None) => Delivery::Nothing,
        Ok(Some(frame)) => Delivery::Frame(frame),
        Err(e) => Delivery::Failed(e),
    }
}

/// What a decoded frame means for the command that awaits its response.
pub fn resolve(ctx: Context, decoded: Result<Response, CyprotoError>) -> (r: Outcome)
    ensures
        r@ == match decoded {
            Ok(resp) => if resp@.kind() == ctx.kind() {
                OutcomeView::Completed(resp@, ctx)
            } else {
                OutcomeView::ProtocolError(CyprotoError::ProtocolMismatch)
            },
            Err(e) => OutcomeView::ProtocolError(e),
        },
{
    match decoded {
        Ok(resp) => if resp.get_kind() == ctx.get_kind() {
            Outcome::Completed(resp, ctx)
        } else {
            Outcome::ProtocolError(CyprotoError::ProtocolMismatch)
        },
        Err(e) => Outcome::ProtocolError(e),
    }
}

/// A second command, issued before the first was resolved, is refused with
/// `Busy` and changes nothing.
pub proof fn lemma_second_issue_is_busy(s: State, first: Command, second: Command)
    requires
        s.issued(first).1 is Ok,
    ensures
        s.issued(first).0.issued(second) == (
            s.issued(first).0,
            Err::<Seq<u8>, CyprotoError>(CyprotoError::Busy),
        ),
{
}

/// A poll that is told of nothing finds nothing and changes nothing,
/// however often it is made.
pub proof fn lemma_nothing_changes_nothing(s: State)
    ensures
        s.polled(DeliveryView::Nothing) == (s, OutcomeView::Pending),
{
}

/// Whatever is delivered while a response is awaited, be it a frame or a
/// failure, ends the wait: the session cannot be left waiting for a
/// response that will not come.
pub proof fn lemma_delivery_ends_the_wait(ctx: Context, d: DeliveryView)
    requires
        !(d is Nothing),
    ensures
        State::AwaitingResponse(ctx).polled(d).0 == State::Idle,
        !(State::AwaitingResponse(ctx).polled(d).1 is Pending),
{
}

/// A frame that does not decode costs the command that awaited it and no
/// more: the session reports one error, takes the next command, and
/// completes it with the frame that answers it.
pub proof fn lemma_corrupt_frame_then_valid(
    ctx: Context,
    corrupt: Seq<u8>,
    next: Command,
    valid: Seq<u8>,
    answer: ResponseView,
)
    requires
        decoded_response(corrupt) is Err,
        decoded_response(valid) == Ok::<ResponseView, CyprotoError>(answer),
        answer.kind() == next.kind(),
    ensures
        State::AwaitingResponse(ctx).polled(DeliveryView::Frame(corrupt)) == (
            State::Idle,
            OutcomeView::ProtocolError(decoded_response(corrupt)->Err_0),
        ),
        State::Idle.issued(next).1 is Ok,
        State::Idle.issued(next).0.polled(DeliveryView::Frame(valid)) == (
            State::Idle,
            OutcomeView::Completed(answer, Context::of(next)),
        ),
{
}

/// A response of another kind than the one awaited is a mismatch and
/// returns the session to idle.
pub proof fn lemma_wrong_kind_is_mismatch(ctx: Context, bytes: Seq<u8>, answer: ResponseView)
    requires
        decoded_response(bytes) == Ok::<ResponseView, CyprotoError>(answer),
        answer.kind() != ctx.kind(),
    ensures
        State::AwaitingResponse(ctx).polled(DeliveryView::Frame(bytes)) == (
            State::Idle,
            OutcomeView::ProtocolError(CyprotoError::ProtocolMismatch),
        ),
{
}

} // verus!
