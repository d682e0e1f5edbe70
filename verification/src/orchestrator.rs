//! The request loop as a state machine.
//!
//! The caller owns the connection and performs the transport work. After each
//! piece of work it reports what happened, together with the cancellation
//! flag as it reads at that moment, and is told what to do next. One turn is
//! open stream, write header, upload payload, close the send side, drain the
//! response, compare the response size; then the next turn begins.

use vstd::prelude::*;

use tokio::sync::watch::Receiver;

use crate::cancel::cancellation_requested;
use crate::header::{be_value, encode_header};
use crate::request::TransferRequest;

verus! {

/// Why the loop ended.
#[derive(Clone, Copy, Debug, PartialEq, Eq, Structural)]
pub enum StopReason {
    /// The cancellation signal was observed. A normal shutdown.
    Cancelled,
    /// Connecting, opening a stream, sending or receiving failed.
    TransportFailed,
    /// The peer answered with a different number of bytes than it was asked for.
    ResponseMismatch { received: u64, requested: u64 },
}

/// Where the loop stands: the work it is waiting for, or that it has ended.
#[derive(Clone, Copy, Debug, PartialEq, Eq, Structural)]
pub enum State {
    Connecting,
    OpeningStream,
    SendingHeader,
    Sending,
    ClosingSendSide,
    Receiving,
    Stopped { reason: StopReason },
}

/// What the caller reports about the work it was told to do.
#[derive(Clone, Copy, Debug, PartialEq, Eq, Structural)]
pub enum Event {
    /// The work succeeded. `bytes` is the byte count it reported; only the
    /// count of a drained response is ever looked at.
    Completed { bytes: u64 },
    /// The transport reported a failure.
    Failed,
    /// The cancellation signal announced a change before the work was done,
    /// and the work was abandoned.
    CancelNotified,
}

/// What the caller is to do next.
#[derive(Debug, PartialEq, Eq)]
pub enum Action {
    Connect,
    OpenStream,
    /// Write these eight bytes to the stream that was just opened.
    SendHeader { header: [u8; 8] },
    /// Upload this many payload bytes.
    RunSender { payload_bytes: u64 },
    CloseSendSide,
    RunReceiver,
    /// Leave the loop.
    Stop { reason: StopReason },
}

/// An [`Action`] with the header replaced by the number it denotes. A header
/// is always eight bytes long, so the number determines the bytes.
pub enum Directive {
    Connect,
    OpenStream,
    SendHeader { denotes: nat },
    RunSender { payload_bytes: u64 },
    CloseSendSide,
    RunReceiver,
    Stop { reason: StopReason },
}

impl View for Action {
    type V = Directive;

    open spec fn view(&self) -> Directive {
        match self {
            Action::Connect => Directive::Connect,
            Action::OpenStream => Directive::OpenStream,
            Action::SendHeader { header } => Directive::SendHeader { denotes: be_value(header@) },
            Action::RunSender { payload_bytes } => Directive::RunSender {
                payload_bytes: *payload_bytes,
            },
            Action::CloseSendSide => Directive::CloseSendSide,
            Action::RunReceiver => Directive::RunReceiver,
            Action::Stop { reason } => Directive::Stop { reason: *reason },
        }
    }
}

/// The work a state waits for; for a stopped loop, the order to leave.
pub open spec fn awaited(request: TransferRequest, state: State) -> Directive {
    match state {
        State::Connecting => Directive::Connect,
        State::OpeningStream => Directive::OpenStream,
        State::SendingHeader => Directive::SendHeader {
            denotes: request.requested_response_bytes as nat,
        },
        State::Sending => Directive::RunSender { payload_bytes: request.payload_bytes_to_send },
        State::ClosingSendSide => Directive::CloseSendSide,
        State::Receiving => Directive::RunReceiver,
        State::Stopped { reason } => Directive::Stop { reason },
    }
}

/// The state that follows `state` when its work has succeeded.
///
/// Cancellation is honoured at two points of a turn: when the stream has been
/// opened and when the send side has been closed. A response of the wrong
/// size ends the loop unless cancellation is pending, in which case the short
/// count is expected and the loop goes on to the next stream-open boundary.
pub open spec fn after_success(
    request: TransferRequest,
    state: State,
    bytes: u64,
    cancelled: bool,
) -> State {
    match state {
        State::Connecting => State::OpeningStream,
        State::OpeningStream => if cancelled {
            State::Stopped { reason: StopReason::Cancelled }
        } else {
            State::SendingHeader
        },
        State::SendingHeader => State::Sending,
        State::Sending => State::ClosingSendSide,
        State::ClosingSendSide => if cancelled {
            State::Stopped { reason: StopReason::Cancelled }
        } else {
            State::Receiving
        },
        State::Receiving => if bytes != request.requested_response_bytes && !cancelled {
            State::Stopped {
                reason: StopReason::ResponseMismatch {
                    received: bytes,
                    requested: request.requested_response_bytes,
                },
            }
        } else {
            State::OpeningStream
        },
        State::Stopped { reason } => state,
    }
}

/// The state that follows `state` when its work has failed. A failure to open
/// a stream while cancellation is pending counts as cancellation.
pub open spec fn after_failure(state: State, cancelled: bool) -> State {
    match state {
        State::Stopped { reason } => state,
        State::OpeningStream => State::Stopped {
            reason: if cancelled {
                StopReason::Cancelled
            } else {
                StopReason::TransportFailed
            },
        },
        _ => State::Stopped { reason: StopReason::TransportFailed },
    }
}

/// The state that follows `state` when the cancellation signal announced a
/// change. While connecting, any announcement ends the loop; later, only one
/// that finds the flag set does, and otherwise the abandoned work is taken up
/// again.
pub open spec fn after_notice(state: State, cancelled: bool) -> State {
    match state {
        State::Stopped { reason } => state,
        State::Connecting => State::Stopped { reason: StopReason::Cancelled },
        _ => if cancelled {
            State::Stopped { reason: StopReason::Cancelled }
        } else {
            state
        },
    }
}

/// The transition function of the request loop.
pub open spec fn next_state(
    request: TransferRequest,
    state: State,
    event: Event,
    cancelled: bool,
) -> State {
    match event {
        Event::Completed { bytes } => after_success(request, state, bytes, cancelled),
        Event::Failed => after_failure(state, cancelled),
        Event::CancelNotified => after_notice(state, cancelled),
    }
}

/// The request loop of one connection.
pub struct Orchestrator {
    request: TransferRequest,
    state: State,
}

impl Orchestrator {
    /// The request every turn issues.
    pub closed spec fn spec_request(&self) -> TransferRequest {
        self.request
    }

    /// The current state.
    pub closed spec fn spec_state(&self) -> State {
        self.state
    }

    /// A loop that waits for its connection.
    pub fn new(request: TransferRequest) -> (orchestrator: Orchestrator)
        ensures
            orchestrator.spec_request() == request,
            orchestrator.spec_state() == State::Connecting,
    {
        Orchestrator { request, state: State::Connecting }
    }

    /// The request every turn issues.
    #[verifier::when_used_as_spec(spec_request)]
    pub fn request(&self) -> (request: TransferRequest)
        ensures
            request == self.spec_request(),
    {
        self.request
    }

    /// The current state.
    #[verifier::when_used_as_spec(spec_state)]
    pub fn state(&self) -> (state: State)
        ensures
            state == self.spec_state(),
    {
        self.state
    }

    /// Whether the loop has ended.
    pub fn is_stopped(&self) -> (stopped: bool)
        ensures
            stopped == (self.spec_state() is Stopped),
    {
        match self.state {
            State::Stopped { .. } => true,
            _ => false,
        }
    }

    /// The work the loop is waiting for. For a new loop this is the order to
    /// connect.
    pub fn pending(&self) -> (action: Action)
        ensures
            action@ == awaited(self.spec_request(), self.spec_state()),
    {
        match self.state {
            State::Connecting => Action::Connect,
            State::OpeningStream => Action::OpenStream,
            State::SendingHeader => Action::SendHeader {
                header: encode_header(self.request.requested_response_bytes),
            },
            State::Sending => Action::RunSender {
                payload_bytes: self.request.payload_bytes_to_send,
            },
            State::ClosingSendSide => Action::CloseSendSide,
            State::Receiving => Action::RunReceiver,
            State::Stopped { reason } => Action::Stop { reason },
        }
    }

    /// Takes the report on the work that was pending, moves to the next state
    /// and returns the work that state waits for.
    ///
    /// `cancelled` is the cancellation flag as the caller reads it on
    /// receiving the report.
    pub fn step(&mut self, event: Event, cancelled: bool) -> (action: Action)
        ensures
            final(self).spec_request() == old(self).spec_request(),
            final(self).spec_state() == next_state(
                old(self).spec_request(),
                old(self).spec_state(),
                event,
                cancelled,
            ),
            action@ == awaited(final(self).spec_request(), final(self).spec_state()),
    {
        let stopped_by_cancel = State::Stopped { reason: StopReason::Cancelled };
        let stopped_by_failure = State::Stopped { reason: StopReason::TransportFailed };
        let requested = self.request.requested_response_bytes;
        let state = self.state;
        self.state = match state {
            State::Stopped { .. } => state,
            State::Connecting => match event {
                Event::Completed { .. } => State::OpeningStream,
                Event::Failed => stopped_by_failure,
                Event::CancelNotified => stopped_by_cancel,
            },
            State::OpeningStream => if cancelled {
                stopped_by_cancel
            } else {
                match event {
                    Event::Completed { .. } => State::SendingHeader,
                    Event::Failed => stopped_by_failure,
                    Event::CancelNotified => state,
                }
            },
            State::Receiving => match event {
                Event::Completed { bytes } => if bytes != requested && !cancelled {
                    State::Stopped {
                        reason: StopReason::ResponseMismatch { received: bytes, requested },
                    }
                } else {
                    State::OpeningStream
                },
                Event::Failed => stopped_by_failure,
                Event::CancelNotified => if cancelled {
                    stopped_by_cancel
                } else {
                    state
                },
            },
            _ => match event {
                Event::Failed => stopped_by_failure,
                Event::CancelNotified => if cancelled {
                    stopped_by_cancel
                } else {
                    state
                },
                Event::Completed { .. } => match state {
                    State::SendingHeader => State::Sending,
                    State::Sending => State::ClosingSendSide,
                    _ => if cancelled {
                        stopped_by_cancel
                    } else {
                        State::Receiving
                    },
                },
            },
        };
        self.pending()
    }

    /// Reads the cancellation flag and takes the report, as
    /// [`Orchestrator::step`] does for the value that was read.
    pub fn advance(&mut self, event: Event, signal: &Receiver<bool>) -> (action: Action)
        ensures
            final(self).spec_request() == old(self).spec_request(),
            exists|cancelled: bool|
                final(self).spec_state() == next_state(
                    old(self).spec_request(),
                    old(self).spec_state(),
                    event,
                    cancelled,
                ),
            action@ == awaited(final(self).spec_request(), final(self).spec_state()),
    {
        let cancelled = cancellation_requested(signal);
        self.step(event, cancelled)
    }
}

/// The state that follows a state in the order of a turn. After the response
/// has been drained, the next turn begins with a new stream.
pub open spec fn successor(state: State) -> State {
    match state {
        State::Connecting => State::OpeningStream,
        State::OpeningStream => State::SendingHeader,
        State::SendingHeader => State::Sending,
        State::Sending => State::ClosingSendSide,
        State::ClosingSendSide => State::Receiving,
        State::Receiving => State::OpeningStream,
        State::Stopped { reason } => state,
    }
}

/// When the response has been drained and no cancellation is pending, a
/// count that differs from the requested size ends the loop with a mismatch,
/// and a count that equals it begins the next turn.
pub proof fn lemma_mismatch_detection(request: TransferRequest, received: u64)
    ensures
        received != request.requested_response_bytes ==> next_state(
            request,
            State::Receiving,
            Event::Completed { bytes: received },
            false,
        ) == (State::Stopped {
            reason: StopReason::ResponseMismatch {
                received,
                requested: request.requested_response_bytes,
            },
        }),
        received == request.requested_response_bytes ==> next_state(
            request,
            State::Receiving,
            Event::Completed { bytes: received },
            false,
        ) == State::OpeningStream,
        awaited(request, State::OpeningStream) == Directive::OpenStream,
{
}

/// The loop reports a mismatch in one situation only: a response was
/// drained, its size is not the requested one, and no cancellation is pending.
pub proof fn lemma_mismatch_only_after_response(
    request: TransferRequest,
    state: State,
    event: Event,
    cancelled: bool,
)
    requires
        !(state is Stopped),
        (next_state(request, state, event, cancelled) matches State::Stopped {
            reason: StopReason::ResponseMismatch { .. },
        }),
    ensures
        state == State::Receiving,
        !cancelled,
        (event matches Event::Completed { bytes } && bytes != request.requested_response_bytes
            && next_state(request, state, event, cancelled) == (State::Stopped {
            reason: StopReason::ResponseMismatch {
                received: bytes,
                requested: request.requested_response_bytes,
            },
        })),
{
}

/// Once stopped, the loop stays stopped for the same reason, whatever it is
/// told.
pub proof fn lemma_stopped_is_final(
    request: TransferRequest,
    reason: StopReason,
    event: Event,
    cancelled: bool,
)
    ensures
        next_state(request, State::Stopped { reason }, event, cancelled) == (State::Stopped {
            reason,
        }),
        awaited(request, State::Stopped { reason }) == (Directive::Stop { reason }),
{
}

/// The states of a turn follow one another in a fixed order: a step either
/// stays where it is, moves to the successor, or stops. So the payload is
/// uploaded only after the header was written, the response is drained only
/// after the send side was closed, and a new stream is opened only after the
/// response of the previous one was drained.
pub proof fn lemma_turn_order(
    request: TransferRequest,
    state: State,
    event: Event,
    cancelled: bool,
)
    ensures
        ({
            let next = next_state(request, state, event, cancelled);
            next == state || next == successor(state) || next is Stopped
        }),
        event is Completed && !cancelled ==> ({
            let next = next_state(request, state, event, cancelled);
            next == successor(state) || (state == State::Receiving && next is Stopped)
        }),
{
}

/// The first thing written to a stream that was just opened is the header,
/// and the header denotes the requested response size.
pub proof fn lemma_header_opens_stream(request: TransferRequest, bytes: u64)
    ensures
        next_state(request, State::OpeningStream, Event::Completed { bytes }, false)
            == State::SendingHeader,
        awaited(request, State::SendingHeader) == (Directive::SendHeader {
            denotes: request.requested_response_bytes as nat,
        }),
        forall|state: State|
            awaited(request, state) is RunSender ==> successor(State::SendingHeader) == state,
{
}

/// The loop stops for cancellation only when cancellation was observed: the
/// flag was found raised, or the signal announced a change while the
/// connection was being set up. With the flag raised, the loop stops at the
/// stream-open boundary and between the send and the receive phase.
pub proof fn lemma_cancellation_boundaries(
    request: TransferRequest,
    state: State,
    event: Event,
    cancelled: bool,
)
    ensures
        !(state is Stopped) && next_state(request, state, event, cancelled) == (State::Stopped {
            reason: StopReason::Cancelled,
        }) ==> cancelled || (state == State::Connecting && event is CancelNotified),
        cancelled && (state == State::OpeningStream || state == State::ClosingSendSide)
            ==> next_state(request, state, event, cancelled) == (State::Stopped {
            reason: if event is Failed && state == State::ClosingSendSide {
                StopReason::TransportFailed
            } else {
                StopReason::Cancelled
            },
        }),
{
}

} // verus!
