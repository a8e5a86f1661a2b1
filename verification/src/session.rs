//! The order of the exchanges that set a session up: what to send next, on
//! which connection, and how long a reply to await.

use crate::handshake::{hello, media_login, respond, response_of, HandshakeError};
use crate::request::{header, Request};
use vstd::prelude::*;

verus! {

/// How far the setup has come.
#[derive(Debug, Clone, Copy, PartialEq, Eq)]
pub enum Phase {
    /// Nothing was sent yet.
    Start,
    /// The hello request is out.
    AwaitHello,
    /// The response to the challenge is out.
    AwaitAck,
    /// The video-start request is out.
    AwaitVideoStart,
    /// The audio-start request is out.
    AwaitAudioAck,
    /// Commands can be sent.
    Ready,
}

/// What to do after a reply.
#[derive(Debug, Clone, PartialEq, Eq)]
pub struct Step {
    /// The phase that follows.
    pub next: Phase,
    /// A request to send once on a duplicate of the control connection,
    /// apart from the other traffic.
    pub keepalive: Option<Request>,
    /// A request to send on a newly opened media connection, from which
    /// the frames are then read.
    pub media: Option<Request>,
    /// A request to send on the control connection.
    pub control: Option<Request>,
    /// Length of the reply to read from the control connection afterwards.
    pub expect: usize,
}

/// A step as a mathematical value: the next phase, the wire bytes for the
/// keepalive, media and control connections, and the awaited reply length.
pub struct StepView {
    pub next: Phase,
    pub keepalive: Option<Seq<u8>>,
    pub media: Option<Seq<u8>>,
    pub control: Option<Seq<u8>>,
    pub expect: int,
}

/// The wire bytes of a request that may be absent.
pub open spec fn wire_of(r: Option<Request>) -> Option<Seq<u8>> {
    match r {
        Some(r) => Some(r.wire()),
        None => None,
    }
}

impl View for Step {
    type V = StepView;

    open spec fn view(&self) -> StepView {
        StepView {
            next: self.next,
            keepalive: wire_of(self.keepalive),
            media: wire_of(self.media),
            control: wire_of(self.control),
            expect: self.expect as int,
        }
    }
}

/// Length of the reply that a phase awaits.
pub open spec fn reply_len(phase: Phase) -> int {
    match phase {
        Phase::Start => 0,
        Phase::AwaitHello => 82,
        Phase::AwaitAck => 26,
        Phase::AwaitVideoStart => 29,
        Phase::AwaitAudioAck => 25,
        Phase::Ready => 0,
    }
}

/// The step that follows a reply in a phase, or the error that ends the
/// setup.
pub open spec fn step_of(phase: Phase, device_id: Seq<u8>, password: Seq<u8>, reply: Seq<u8>)
    -> Result<StepView, HandshakeError> {
    if reply.len() != reply_len(phase) {
        Err(HandshakeError::UnexpectedLength)
    } else {
        match phase {
            Phase::Start => Ok(
                StepView {
                    next: Phase::AwaitHello,
                    keepalive: None,
                    media: None,
                    control: Some(header(0x4F, 0, 16) + Seq::new(16, |i: int| 0u8)),
                    expect: 82,
                },
            ),
            Phase::AwaitHello => match response_of(device_id, password, reply) {
                Err(e) => Err(e),
                Ok(payload) => Ok(
                    StepView {
                        next: Phase::AwaitAck,
                        keepalive: None,
                        media: None,
                        control: Some(header(0x4F, 2, 16) + payload),
                        expect: 26,
                    },
                ),
            },
            Phase::AwaitAck => Ok(
                StepView {
                    next: Phase::AwaitVideoStart,
                    keepalive: Some(header(0x4F, 0xFF, 0) + Seq::<u8>::empty()),
                    media: None,
                    control: Some(header(0x4F, 4, 4) + seq![1u8, 0u8, 0u8, 0u8]),
                    expect: 29,
                },
            ),
            Phase::AwaitVideoStart => Ok(
                StepView {
                    next: Phase::AwaitAudioAck,
                    keepalive: None,
                    media: Some(header(0x56, 0, 4) + reply.subrange(25, 29)),
                    control: Some(header(0x4F, 8, 1) + seq![1u8]),
                    expect: 25,
                },
            ),
            Phase::AwaitAudioAck => Ok(
                StepView {
                    next: Phase::Ready,
                    keepalive: None,
                    media: None,
                    control: None,
                    expect: 0,
                },
            ),
            Phase::Ready => Ok(
                StepView {
                    next: Phase::Ready,
                    keepalive: None,
                    media: None,
                    control: None,
                    expect: 0,
                },
            ),
        }
    }
}

/// The length of the reply to read in a phase.
pub fn awaited(phase: Phase) -> (n: usize)
    ensures
        n == reply_len(phase),
{
    match phase {
        Phase::Start => 0,
        Phase::AwaitHello => 82,
        Phase::AwaitAck => 26,
        Phase::AwaitVideoStart => 29,
        Phase::AwaitAudioAck => 25,
        Phase::Ready => 0,
    }
}

/// Decides what follows the reply that was read in a phase. In `Start`
/// and `Ready` no reply is awaited and `reply` is empty.
pub fn advance(phase: Phase, device_id: &[u8], password: &[u8], reply: &[u8]) -> (r: Result<
    Step,
    HandshakeError,
>)
    ensures
        match r {
            Ok(step) => step_of(phase, device_id@, password@, reply@) == Ok::<_, HandshakeError>(
                step@,
            ),
            Err(e) => step_of(phase, device_id@, password@, reply@) == Err::<StepView, _>(e),
        },
{
    if reply.len() != awaited(phase) {
        return Err(HandshakeError::UnexpectedLength);
    }
    match phase {
        Phase::Start => Ok(
            Step {
                next: Phase::AwaitHello,
                keepalive: None,
                media: None,
                control: Some(hello()),
                expect: 82,
            },
        ),
        Phase::AwaitHello => match respond(device_id, password, reply) {
            Err(e) => Err(e),
            Ok(request) => Ok(
                Step {
                    next: Phase::AwaitAck,
                    keepalive: None,
                    media: None,
                    control: Some(request),
                    expect: 26,
                },
            ),
        },
        Phase::AwaitAck => Ok(
            Step {
                next: Phase::AwaitVideoStart,
                keepalive: Some(Request::heartbeat()),
                media: None,
                control: Some(Request::video_start()),
                expect: 29,
            },
        ),
        Phase::AwaitVideoStart => match media_login(reply) {
            Err(e) => Err(e),
            Ok(login) => Ok(
                Step {
                    next: Phase::AwaitAudioAck,
                    keepalive: None,
                    media: Some(login),
                    control: Some(Request::audio_start()),
                    expect: 25,
                },
            ),
        },
        Phase::AwaitAudioAck => Ok(
            Step { next: Phase::Ready, keepalive: None, media: None, control: None, expect: 0 },
        ),
        Phase::Ready => Ok(
            Step { next: Phase::Ready, keepalive: None, media: None, control: None, expect: 0 },
        ),
    }
}

/// A setup that meets no error passes through the phases in one order and
/// awaits in each the reply length of the phase it enters.
pub proof fn lemma_setup_order(phase: Phase, device_id: Seq<u8>, password: Seq<u8>, reply: Seq<u8>)
    requires
        step_of(phase, device_id, password, reply) is Ok,
    ensures
        step_of(phase, device_id, password, reply).unwrap().expect == reply_len(
            step_of(phase, device_id, password, reply).unwrap().next,
        ),
        step_of(phase, device_id, password, reply).unwrap().next == match phase {
            Phase::Start => Phase::AwaitHello,
            Phase::AwaitHello => Phase::AwaitAck,
            Phase::AwaitAck => Phase::AwaitVideoStart,
            Phase::AwaitVideoStart => Phase::AwaitAudioAck,
            Phase::AwaitAudioAck => Phase::Ready,
            Phase::Ready => Phase::Ready,
        },
        step_of(phase, device_id, password, reply).unwrap().control is None <==> (phase
            == Phase::AwaitAudioAck || phase == Phase::Ready),
{
}

} // verus!
