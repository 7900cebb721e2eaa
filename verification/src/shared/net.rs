//! The reliable request over UDP, as a state machine.
//!
//! The program sends the request and waits for a datagram; whatever happens
//! then is an event, and the machine says what to do next: send again and
//! wait, only wait, or stop with the outcome. The machine counts the timeouts
//! and stops when their budget is used up.

use vstd::prelude::*;

use crate::shared::text::{concat, decode_text, spec_decode_text};
use crate::shared::wire::{body, spec_body};
use crate::{
    IoError, IoErrorKind, P2PMethods, ServerErrorResponses, ServerErrorView, ServerResponse,
};

verus! {

/// What happened after the request was sent.
#[derive(Debug, PartialEq, Eq)]
pub enum TransportEvent {
    /// A datagram arrived; `from_destination` tells whether it came from the
    /// address the request went to.
    Datagram { from_destination: bool, datagram: Vec<u8> },
    /// Receiving failed; a timeout is a failure of kind `TimedOut` or
    /// `WouldBlock`.
    ReceiveFailed(IoError),
    /// Sending failed.
    SendFailed(IoError),
    /// The system reported that the destination cannot be reached.
    Unreachable(IoError),
}

/// An event as plain values.
pub enum TransportEventView {
    Datagram { from_destination: bool, datagram: Seq<u8> },
    ReceiveFailed(IoErrorKind, Seq<char>),
    SendFailed(IoErrorKind, Seq<char>),
    Unreachable(IoErrorKind, Seq<char>),
}

impl View for TransportEvent {
    type V = TransportEventView;

    open spec fn view(&self) -> TransportEventView {
        match self {
            TransportEvent::Datagram { from_destination, datagram } => TransportEventView::Datagram {
                from_destination: *from_destination,
                datagram: datagram@,
            },
            TransportEvent::ReceiveFailed(e) => TransportEventView::ReceiveFailed(
                e.kind,
                e.message@,
            ),
            TransportEvent::SendFailed(e) => TransportEventView::SendFailed(e.kind, e.message@),
            TransportEvent::Unreachable(e) => TransportEventView::Unreachable(e.kind, e.message@),
        }
    }
}

/// What the program is to do next.
#[derive(Debug, PartialEq, Eq)]
pub enum TransportAction {
    /// Send the request again, then wait for a datagram.
    SendAndReceive,
    /// Wait for a datagram without sending.
    Receive,
    /// The request is answered: the length of the response and the number of
    /// timeouts it took.
    Done(usize, usize),
    /// The request failed.
    Failed(ServerErrorResponses),
}

/// An action as plain values.
pub enum TransportActionView {
    SendAndReceive,
    Receive,
    Done(usize, usize),
    Failed(ServerErrorView),
}

impl View for TransportAction {
    type V = TransportActionView;

    open spec fn view(&self) -> TransportActionView {
        match self {
            TransportAction::SendAndReceive => TransportActionView::SendAndReceive,
            TransportAction::Receive => TransportActionView::Receive,
            TransportAction::Done(len, retries) => TransportActionView::Done(*len, *retries),
            TransportAction::Failed(e) => TransportActionView::Failed(e@),
        }
    }
}

/// The text of the failure after the last timeout.
pub open spec fn spec_timeout_text() -> Seq<char> {
    "Max retry count reached - destination may be unreachable"@
}

/// The text of a general error whose own text is not UTF-8.
pub open spec fn spec_invalid_error_text() -> Seq<char> {
    "invalid error string"@
}

/// The failure after the last timeout.
pub open spec fn spec_timed_out() -> ServerErrorView {
    ServerErrorView::IO(IoErrorKind::TimedOut, spec_timeout_text())
}

/// The request is one between peers.
pub open spec fn spec_is_peer_method(method: u8) -> bool {
    P2PMethods::PEER_QUERY.spec_code() <= method <= P2PMethods::DO_NOTHING.spec_code()
}

/// What a datagram from the destination means for a request that started
/// with the byte `method` and has seen `retries` timeouts.
pub open spec fn spec_on_response(
    method: u8,
    retries: usize,
    datagram: Seq<u8>,
) -> TransportActionView {
    if datagram.len() == 0 {
        TransportActionView::SendAndReceive
    } else if datagram[0] == method {
        TransportActionView::Done(datagram.len() as usize, retries)
    } else if datagram[0] == ServerResponse::GENERAL_ERROR.spec_code() {
        TransportActionView::Failed(
            ServerErrorView::GENERAL_ERROR(
                match spec_decode_text(spec_body(datagram)) {
                    Some(text) => text,
                    None => spec_invalid_error_text(),
                },
            ),
        )
    } else if datagram[0] == ServerResponse::ID_DOESNT_EXIST.spec_code() {
        TransportActionView::Failed(ServerErrorView::ID_DOESNT_EXIST)
    } else if datagram[0] == ServerResponse::ID_EXISTS.spec_code() {
        TransportActionView::Failed(ServerErrorView::ID_EXISTS)
    } else if datagram[0] == P2PMethods::DO_NOTHING.spec_code() && spec_is_peer_method(method) {
        TransportActionView::Receive
    } else {
        TransportActionView::SendAndReceive
    }
}

/// What an event means for a request that started with the byte `method`,
/// has seen `retries` timeouts and tolerates `retry_max` of them.
pub open spec fn spec_action(
    method: u8,
    retries: usize,
    retry_max: usize,
    event: TransportEventView,
) -> TransportActionView {
    match event {
        TransportEventView::Datagram { from_destination, datagram } => if from_destination {
            spec_on_response(method, retries, datagram)
        } else {
            TransportActionView::SendAndReceive
        },
        TransportEventView::ReceiveFailed(kind, text) => if kind.spec_is_timeout() {
            if retries >= retry_max {
                TransportActionView::Failed(spec_timed_out())
            } else {
                TransportActionView::SendAndReceive
            }
        } else if kind.spec_is_unreachable() {
            TransportActionView::Failed(
                ServerErrorView::IO(kind, "Destination unreachable during receive: "@ + text),
            )
        } else {
            TransportActionView::Failed(ServerErrorView::IO(kind, text))
        },
        TransportEventView::SendFailed(kind, text) => if kind.spec_is_unreachable() {
            TransportActionView::Failed(
                ServerErrorView::IO(kind, "Destination unreachable: "@ + text),
            )
        } else {
            TransportActionView::Failed(ServerErrorView::IO(kind, text))
        },
        TransportEventView::Unreachable(kind, text) => TransportActionView::Failed(
            ServerErrorView::IO(kind, text),
        ),
    }
}

/// The number of timeouts after an event: one more after a timeout that the
/// budget still covers, unchanged otherwise.
pub open spec fn spec_retries_after(
    retries: usize,
    retry_max: usize,
    event: TransportEventView,
) -> usize {
    match event {
        TransportEventView::ReceiveFailed(kind, _) => if kind.spec_is_timeout() && retries
            < retry_max {
            (retries + 1) as usize
        } else {
            retries
        },
        _ => retries,
    }
}

/// The state of a request: the number of timeouts it has seen.
#[derive(Clone, Copy, Debug, PartialEq, Eq, Structural)]
pub struct RetryState {
    pub retries: usize,
}

impl RetryState {
    /// The state of a request that was just sent for the first time.
    pub fn new() -> (state: RetryState)
        ensures
            state.retries == 0,
    {
        RetryState { retries: 0 }
    }
}

/// Decides what a datagram from the destination means.
pub fn on_response(method: u8, retries: usize, datagram: &[u8]) -> (action: TransportAction)
    ensures
        action@ == spec_on_response(method, retries, datagram@),
{
    if datagram.len() == 0 {
        return TransportAction::SendAndReceive;
    }
    let first = datagram[0];
    if first == method {
        TransportAction::Done(datagram.len(), retries)
    } else if first == ServerResponse::GENERAL_ERROR.code() {
        let text_bytes = body(datagram);
        let text = match decode_text(text_bytes.as_slice()) {
            Some(text) => text,
            None => "invalid error string".to_owned(),
        };
        TransportAction::Failed(ServerErrorResponses::GENERAL_ERROR(text))
    } else if first == ServerResponse::ID_DOESNT_EXIST.code() {
        TransportAction::Failed(ServerErrorResponses::ID_DOESNT_EXIST)
    } else if first == ServerResponse::ID_EXISTS.code() {
        TransportAction::Failed(ServerErrorResponses::ID_EXISTS)
    } else if first == P2PMethods::DO_NOTHING.code() && P2PMethods::PEER_QUERY.code() <= method
        && method <= P2PMethods::DO_NOTHING.code() {
        TransportAction::Receive
    } else {
        TransportAction::SendAndReceive
    }
}

/// One step of the reliable request: takes what happened after the request
/// that starts with the byte `method` was sent, and decides what to do next.
///
/// A response is accepted where it comes from the destination and starts
/// with the request's own byte. A failure byte ends the request with that
/// failure. A no-op from a peer makes the program wait once without sending
/// again, and costs nothing. A timeout is counted, and the request is sent
/// again until `retry_max` timeouts were seen; the next one ends it. An
/// unreachable destination ends it at once.
pub fn send_and_recv_with_retry(
    state: &mut RetryState,
    method: u8,
    retry_max: usize,
    event: TransportEvent,
) -> (action: TransportAction)
    ensures
        action@ == spec_action(method, old(state).retries, retry_max, event@),
        final(state).retries == spec_retries_after(old(state).retries, retry_max, event@),
{
    match event {
        TransportEvent::Datagram { from_destination, datagram } => {
            if from_destination {
                on_response(method, state.retries, datagram.as_slice())
            } else {
                TransportAction::SendAndReceive
            }
        },
        TransportEvent::ReceiveFailed(e) => {
            if e.kind.is_timeout() {
                if state.retries >= retry_max {
                    let message =
                        "Max retry count reached - destination may be unreachable".to_owned();
                    TransportAction::Failed(
                        ServerErrorResponses::IO(IoError { kind: IoErrorKind::TimedOut, message }),
                    )
                } else {
                    state.retries = state.retries + 1;
                    TransportAction::SendAndReceive
                }
            } else if e.kind.is_unreachable() {
                let message = concat(
                    "Destination unreachable during receive: ",
                    e.message.as_str(),
                );
                TransportAction::Failed(ServerErrorResponses::IO(IoError { kind: e.kind, message }))
            } else {
                TransportAction::Failed(ServerErrorResponses::IO(e))
            }
        },
        TransportEvent::SendFailed(e) => {
            if e.kind.is_unreachable() {
                let message = concat("Destination unreachable: ", e.message.as_str());
                TransportAction::Failed(ServerErrorResponses::IO(IoError { kind: e.kind, message }))
            } else {
                TransportAction::Failed(ServerErrorResponses::IO(e))
            }
        },
        TransportEvent::Unreachable(e) => TransportAction::Failed(ServerErrorResponses::IO(e)),
    }
}

/// A timeout, whatever its text.
pub open spec fn spec_timeout_event(text: Seq<char>) -> TransportEventView {
    TransportEventView::ReceiveFailed(IoErrorKind::TimedOut, text)
}

/// The number of timeouts counted after `n` timeouts in a row, from a request
/// that had seen `retries` before.
pub open spec fn spec_retries_after_timeouts(retries: usize, retry_max: usize, n: nat) -> usize
    decreases n,
{
    if n == 0 {
        retries
    } else {
        spec_retries_after(
            spec_retries_after_timeouts(retries, retry_max, (n - 1) as nat),
            retry_max,
            spec_timeout_event(Seq::empty()),
        )
    }
}

/// A request tolerates exactly `retry_max` timeouts: each of the first
/// `retry_max` is counted and answered by sending again, and the one after
/// them ends the request with the failure of kind `TimedOut`.
pub proof fn timeouts_use_up_the_budget(method: u8, retry_max: usize, n: nat)
    requires
        n <= retry_max,
    ensures
        spec_retries_after_timeouts(0, retry_max, n) == n,
        n < retry_max ==> spec_action(
            method,
            spec_retries_after_timeouts(0, retry_max, n),
            retry_max,
            spec_timeout_event(Seq::empty()),
        ) == TransportActionView::SendAndReceive,
        n == retry_max ==> spec_action(
            method,
            spec_retries_after_timeouts(0, retry_max, n),
            retry_max,
            spec_timeout_event(Seq::empty()),
        ) == TransportActionView::Failed(spec_timed_out()),
    decreases n,
{
    if n > 0 {
        timeouts_use_up_the_budget(method, retry_max, (n - 1) as nat);
    }
}

/// The count of timeouts never passes the budget, and only a timeout that
/// is answered by sending again raises it, by one.
pub proof fn retries_stay_within_the_budget(
    method: u8,
    retries: usize,
    retry_max: usize,
    event: TransportEventView,
)
    requires
        retries <= retry_max,
    ensures
        spec_retries_after(retries, retry_max, event) <= retry_max,
        retries <= spec_retries_after(retries, retry_max, event) <= retries + 1,
        spec_retries_after(retries, retry_max, event) == retries + 1 ==> event is ReceiveFailed
            && spec_action(method, retries, retry_max, event)
            == TransportActionView::SendAndReceive,
{
}

/// The event is a timeout.
pub open spec fn spec_is_timeout_event(event: TransportEventView) -> bool {
    event matches TransportEventView::ReceiveFailed(kind, _) && kind.spec_is_timeout()
}

/// The number of timeouts among the events.
pub open spec fn spec_count_timeouts(events: Seq<TransportEventView>) -> nat
    decreases events.len(),
{
    if events.len() == 0 {
        0
    } else {
        spec_count_timeouts(events.drop_last()) + if spec_is_timeout_event(events.last()) {
            1nat
        } else {
            0nat
        }
    }
}

/// The action ends the request.
pub open spec fn spec_ends(action: TransportActionView) -> bool {
    action is Done || action is Failed
}

/// The count of timeouts after the events, one after the other, from a
/// request that was just sent.
pub open spec fn spec_retries_after_all(retry_max: usize, events: Seq<TransportEventView>) -> usize
    decreases events.len(),
{
    if events.len() == 0 {
        0
    } else {
        spec_retries_after(
            spec_retries_after_all(retry_max, events.drop_last()),
            retry_max,
            events.last(),
        )
    }
}

/// How the request ended in the course of the events, `None` while it has
/// not ended.
pub open spec fn spec_outcome(
    method: u8,
    retry_max: usize,
    events: Seq<TransportEventView>,
) -> Option<TransportActionView>
    decreases events.len(),
{
    if events.len() == 0 {
        None
    } else {
        match spec_outcome(method, retry_max, events.drop_last()) {
            Some(outcome) => Some(outcome),
            None => {
                let action = spec_action(
                    method,
                    spec_retries_after_all(retry_max, events.drop_last()),
                    retry_max,
                    events.last(),
                );
                if spec_ends(action) {
                    Some(action)
                } else {
                    None
                }
            },
        }
    }
}

/// Whatever else arrives, a request has ended once more timeouts were seen
/// than its budget allows; and as long as it has not ended, every timeout
/// was counted.
pub proof fn a_request_ends_within_its_budget(
    method: u8,
    retry_max: usize,
    events: Seq<TransportEventView>,
)
    ensures
        spec_count_timeouts(events) > retry_max ==> spec_outcome(method, retry_max, events) is Some,
        spec_outcome(method, retry_max, events) is None ==> spec_retries_after_all(
            retry_max,
            events,
        ) == spec_count_timeouts(events),
    decreases events.len(),
{
    if events.len() > 0 {
        a_request_ends_within_its_budget(method, retry_max, events.drop_last());
    }
}

/// The event that a no-op from the destination is.
pub open spec fn spec_no_op_event() -> TransportEventView {
    TransportEventView::Datagram {
        from_destination: true,
        datagram: seq![P2PMethods::DO_NOTHING.spec_code()],
    }
}

/// A no-op from the peer that a request went to makes the program wait
/// without sending again and leaves the count of timeouts as it is; the
/// event after it is treated as if the no-op had not come, so that only one
/// sending is left out. Nothing but such a no-op makes the program wait
/// without sending.
pub proof fn no_op_suppresses_one_resend(
    method: u8,
    retries: usize,
    retry_max: usize,
    next: TransportEventView,
)
    requires
        spec_is_peer_method(method),
        method != P2PMethods::DO_NOTHING.spec_code(),
    ensures
        spec_action(method, retries, retry_max, spec_no_op_event()) == TransportActionView::Receive,
        spec_retries_after(retries, retry_max, spec_no_op_event()) == retries,
        spec_action(
            method,
            spec_retries_after(retries, retry_max, spec_no_op_event()),
            retry_max,
            next,
        ) == spec_action(method, retries, retry_max, next),
        spec_action(method, retries, retry_max, next) == TransportActionView::Receive <==> (
        next matches TransportEventView::Datagram { from_destination, datagram }
            && from_destination && datagram.len() > 0 && datagram[0]
            == P2PMethods::DO_NOTHING.spec_code()),
{
}

} // verus!
