//! The order in which the wallet handles a dApp-browser connection and a signing
//! request, as state machines: each step takes the current phase and what just
//! happened (a line read, a check's outcome, the user's decision, a write's
//! outcome) and gives the next phase and what the wallet does next. The caller
//! performs the action (I/O, waiting on the approval broker, loading a signer)
//! and hands back the next event.

use vstd::prelude::*;
use crate::approval::ApprovalDecision;
use crate::ipc::{HandshakeGate, HandshakeRejection};

verus! {

// ---------------------------------------------------------------------------
// Signing requests (IPC `SignMessage` / `SignTransaction`, RPC `vaughan_sign*`)
// ---------------------------------------------------------------------------

/// Where a signing request stands.
#[derive(Clone, Copy, Debug, PartialEq, Eq, Structural)]
pub enum SignPhase {
    /// The request arrived; its payload has not been checked yet.
    Received,
    /// The payload is valid and waits for the user's decision.
    AwaitingDecision,
    /// The user approved; the signer is working.
    Signing,
    /// The request was answered.
    Done,
}

/// What happened to a signing request.
#[derive(Debug, PartialEq, Eq)]
pub enum SignEvent {
    /// The payload's own validation, with its error text on failure.
    Validated(Result<(), String>),
    /// The user's decision; an unanswered wait ends in `Reject`.
    Decided(ApprovalDecision),
    /// The signer's outcome: the signature or raw transaction, or why it failed.
    Signed(Result<String, String>),
}

/// What the wallet does next for a signing request.
#[derive(Debug, PartialEq, Eq)]
pub enum SignAction {
    /// Hand the request to the approval broker and wait for the user.
    SubmitForApproval,
    /// Load the signer for the account and sign.
    LoadSignerAndSign,
    /// Answer that the payload is invalid (with the validation error).
    AnswerInvalid(String),
    /// Answer that the user rejected the request (code 4001).
    AnswerRejected,
    /// Answer with the signer's outcome.
    AnswerSigned(Result<String, String>),
    /// Nothing: the event does not belong to this phase.
    Ignore,
}

/// One step of a signing request.
pub open spec fn sign_next(phase: SignPhase, event: SignEvent) -> (SignPhase, SignAction) {
    match (phase, event) {
        (SignPhase::Received, SignEvent::Validated(Ok(()))) => (SignPhase::AwaitingDecision, SignAction::SubmitForApproval),
        (SignPhase::Received, SignEvent::Validated(Err(e))) => (SignPhase::Done, SignAction::AnswerInvalid(e)),
        (SignPhase::AwaitingDecision, SignEvent::Decided(ApprovalDecision::Approve)) => (SignPhase::Signing, SignAction::LoadSignerAndSign),
        (SignPhase::AwaitingDecision, SignEvent::Decided(ApprovalDecision::Reject)) => (SignPhase::Done, SignAction::AnswerRejected),
        (SignPhase::Signing, SignEvent::Signed(r)) => (SignPhase::Done, SignAction::AnswerSigned(r)),
        (p, _) => (p, SignAction::Ignore),
    }
}

/// The actions taken, in order, for a sequence of events starting in `phase`.
pub open spec fn sign_actions(phase: SignPhase, events: Seq<SignEvent>) -> Seq<SignAction>
    decreases events.len(),
{
    if events.len() == 0 {
        Seq::empty()
    } else {
        let (next, action) = sign_next(phase, events[0]);
        seq![action] + sign_actions(next, events.drop_first())
    }
}

/// Decides the next phase and action of a signing request.
pub fn sign_request_step(phase: SignPhase, event: SignEvent) -> (r: (SignPhase, SignAction))
    ensures
        r == sign_next(phase, event),
{
    match (phase, event) {
        (SignPhase::Received, SignEvent::Validated(v)) => match v {
            Ok(()) => (SignPhase::AwaitingDecision, SignAction::SubmitForApproval),
            Err(e) => (SignPhase::Done, SignAction::AnswerInvalid(e)),
        },
        (SignPhase::AwaitingDecision, SignEvent::Decided(d)) => match d {
            ApprovalDecision::Approve => (SignPhase::Signing, SignAction::LoadSignerAndSign),
            ApprovalDecision::Reject => (SignPhase::Done, SignAction::AnswerRejected),
        },
        (SignPhase::Signing, SignEvent::Signed(r)) => (SignPhase::Done, SignAction::AnswerSigned(r)),
        (p, _) => (p, SignAction::Ignore),
    }
}

proof fn lemma_sign_actions_len(phase: SignPhase, events: Seq<SignEvent>)
    ensures
        sign_actions(phase, events).len() == events.len(),
    decreases events.len(),
{
    if events.len() > 0 {
        lemma_sign_actions_len(sign_next(phase, events[0]).0, events.drop_first());
    }
}

/// Once a signing request is answered, nothing more is done for it.
pub proof fn law_answered_request_stays_answered(events: Seq<SignEvent>)
    ensures
        sign_actions(SignPhase::Done, events).len() == events.len(),
        forall|i: int| 0 <= i < events.len() ==> #[trigger] sign_actions(SignPhase::Done, events)[i] == SignAction::Ignore,
    decreases events.len(),
{
    lemma_sign_actions_len(SignPhase::Done, events);
    if events.len() > 0 {
        law_answered_request_stays_answered(events.drop_first());
        let tail = sign_actions(SignPhase::Done, events.drop_first());
        assert(sign_actions(SignPhase::Done, events) == seq![SignAction::Ignore] + tail);
        assert forall|i: int| 0 <= i < events.len() implies #[trigger] sign_actions(SignPhase::Done, events)[i]
            == SignAction::Ignore by {
            if i > 0 {
                assert(sign_actions(SignPhase::Done, events)[i] == tail[i - 1]);
            }
        }
    }
}

/// A signer is loaded only in answer to the user's approval: whatever the events,
/// each `LoadSignerAndSign` is the step of a `Decided(Approve)` event. So a
/// request the user rejects, or leaves unanswered until the wait ends in a
/// rejection, never reaches a signer.
pub proof fn law_signer_only_after_approval(phase: SignPhase, events: Seq<SignEvent>)
    ensures
        sign_actions(phase, events).len() == events.len(),
        forall|i: int| 0 <= i < events.len() && #[trigger] sign_actions(phase, events)[i]
            == SignAction::LoadSignerAndSign ==> events[i] == SignEvent::Decided(ApprovalDecision::Approve),
    decreases events.len(),
{
    lemma_sign_actions_len(phase, events);
    if events.len() > 0 {
        let (next, action) = sign_next(phase, events[0]);
        law_signer_only_after_approval(next, events.drop_first());
        let tail = sign_actions(next, events.drop_first());
        assert(sign_actions(phase, events) == seq![action] + tail);
        assert forall|i: int| 0 <= i < events.len() && #[trigger] sign_actions(phase, events)[i]
            == SignAction::LoadSignerAndSign implies events[i] == SignEvent::Decided(ApprovalDecision::Approve) by {
            if i > 0 {
                assert(sign_actions(phase, events)[i] == tail[i - 1]);
                assert(events.drop_first()[i - 1] == events[i]);
            }
        }
    }
}

/// A rejection while the request waits for the user is answered with the
/// rejection, and nothing follows it: no signer is loaded afterwards.
pub proof fn law_rejection_ends_request(rest: Seq<SignEvent>)
    ensures
        ({
            let acts = sign_actions(SignPhase::AwaitingDecision, seq![SignEvent::Decided(ApprovalDecision::Reject)] + rest);
            &&& acts.len() == rest.len() + 1
            &&& acts[0] == SignAction::AnswerRejected
            &&& forall|i: int| 1 <= i < acts.len() ==> #[trigger] acts[i] == SignAction::Ignore
        }),
{
    let events = seq![SignEvent::Decided(ApprovalDecision::Reject)] + rest;
    assert(events.drop_first() =~= rest);
    lemma_sign_actions_len(SignPhase::AwaitingDecision, events);
    law_answered_request_stays_answered(rest);
    let acts = sign_actions(SignPhase::AwaitingDecision, events);
    assert(acts == seq![SignAction::AnswerRejected] + sign_actions(SignPhase::Done, rest));
    assert forall|i: int| 1 <= i < acts.len() implies #[trigger] acts[i] == SignAction::Ignore by {
        assert(acts[i] == sign_actions(SignPhase::Done, rest)[i - 1]);
    }
}

// ---------------------------------------------------------------------------
// One dApp-browser IPC connection
// ---------------------------------------------------------------------------

/// Where an IPC connection stands.
#[derive(Clone, Copy, Debug, PartialEq, Eq, Structural)]
pub enum ConnPhase {
    /// The first line, the handshake, has not been read yet.
    AwaitingHandshake,
    /// The handshake was accepted; its echo is being written back.
    AckPending,
    /// Requests are read and answered, one line each.
    Serving,
    /// The connection is over; nothing more is read or written.
    Closed,
}

/// What happened on an IPC connection.
#[derive(Debug, PartialEq, Eq)]
pub enum ConnEvent {
    /// A handshake line: `None` when it is not a handshake at all, else the
    /// verdict of its checks (validation, protocol version, token).
    Handshake(Option<Result<(), HandshakeRejection>>),
    /// Whether writing the handshake echo succeeded.
    AckWritten(bool),
    /// A request line: `None` when it does not parse, else its own validation.
    Request(Option<Result<(), String>>),
    /// Whether writing an answer succeeded.
    AnswerWritten(bool),
    /// The peer closed its end.
    Eof,
}

/// What the wallet does next on an IPC connection.
#[derive(Debug, PartialEq, Eq)]
pub enum ConnAction {
    /// Nothing is written and the handshake gate is left as it is.
    Nothing,
    /// Echo the accepted handshake back.
    WriteAck,
    /// Open the handshake gate: a dApp browser is connected.
    OpenGate,
    /// Answer the request (signing requests go through the approval flow).
    Dispatch,
    /// Answer that the request failed its validation (code 32602).
    AnswerInvalid(String),
}

/// One step of an IPC connection.
pub open spec fn conn_next(phase: ConnPhase, event: ConnEvent) -> (ConnPhase, ConnAction) {
    match phase {
        ConnPhase::AwaitingHandshake => match event {
            ConnEvent::Handshake(Some(Ok(()))) => (ConnPhase::AckPending, ConnAction::WriteAck),
            _ => (ConnPhase::Closed, ConnAction::Nothing),
        },
        ConnPhase::AckPending => match event {
            ConnEvent::AckWritten(true) => (ConnPhase::Serving, ConnAction::OpenGate),
            ConnEvent::AckWritten(false) => (ConnPhase::Closed, ConnAction::Nothing),
            ConnEvent::Eof => (ConnPhase::Closed, ConnAction::Nothing),
            _ => (ConnPhase::AckPending, ConnAction::Nothing),
        },
        ConnPhase::Serving => match event {
            ConnEvent::Request(Some(Ok(()))) => (ConnPhase::Serving, ConnAction::Dispatch),
            ConnEvent::Request(Some(Err(e))) => (ConnPhase::Serving, ConnAction::AnswerInvalid(e)),
            ConnEvent::AnswerWritten(false) => (ConnPhase::Closed, ConnAction::Nothing),
            ConnEvent::Eof => (ConnPhase::Closed, ConnAction::Nothing),
            _ => (ConnPhase::Serving, ConnAction::Nothing),
        },
        ConnPhase::Closed => (ConnPhase::Closed, ConnAction::Nothing),
    }
}

/// The actions taken, in order, for a sequence of events starting in `phase`.
pub open spec fn conn_actions(phase: ConnPhase, events: Seq<ConnEvent>) -> Seq<ConnAction>
    decreases events.len(),
{
    if events.len() == 0 {
        Seq::empty()
    } else {
        let (next, action) = conn_next(phase, events[0]);
        seq![action] + conn_actions(next, events.drop_first())
    }
}

/// Decides the next phase and action of an IPC connection, and opens `gate`
/// when the action is `OpenGate`; otherwise `gate` keeps its value.
pub fn ipc_connection_step(phase: ConnPhase, event: ConnEvent, gate: &mut HandshakeGate) -> (r: (ConnPhase, ConnAction))
    ensures
        r == conn_next(phase, event),
        final(gate).done == (old(gate).done || r.1 == ConnAction::OpenGate),
{
    let r = match phase {
        ConnPhase::AwaitingHandshake => match event {
            ConnEvent::Handshake(Some(Ok(()))) => (ConnPhase::AckPending, ConnAction::WriteAck),
            _ => (ConnPhase::Closed, ConnAction::Nothing),
        },
        ConnPhase::AckPending => match event {
            ConnEvent::AckWritten(ok) => if ok {
                (ConnPhase::Serving, ConnAction::OpenGate)
            } else {
                (ConnPhase::Closed, ConnAction::Nothing)
            },
            ConnEvent::Eof => (ConnPhase::Closed, ConnAction::Nothing),
            _ => (ConnPhase::AckPending, ConnAction::Nothing),
        },
        ConnPhase::Serving => match event {
            ConnEvent::Request(Some(v)) => match v {
                Ok(()) => (ConnPhase::Serving, ConnAction::Dispatch),
                Err(e) => (ConnPhase::Serving, ConnAction::AnswerInvalid(e)),
            },
            ConnEvent::AnswerWritten(ok) => if ok {
                (ConnPhase::Serving, ConnAction::Nothing)
            } else {
                (ConnPhase::Closed, ConnAction::Nothing)
            },
            ConnEvent::Eof => (ConnPhase::Closed, ConnAction::Nothing),
            _ => (ConnPhase::Serving, ConnAction::Nothing),
        },
        ConnPhase::Closed => (ConnPhase::Closed, ConnAction::Nothing),
    };
    if let ConnAction::OpenGate = r.1 {
        gate.mark_done();
    }
    r
}

proof fn lemma_conn_actions_len(phase: ConnPhase, events: Seq<ConnEvent>)
    ensures
        conn_actions(phase, events).len() == events.len(),
    decreases events.len(),
{
    if events.len() > 0 {
        lemma_conn_actions_len(conn_next(phase, events[0]).0, events.drop_first());
    }
}

/// A closed connection stays closed: nothing more is answered or written.
pub proof fn law_closed_connection_stays_silent(events: Seq<ConnEvent>)
    ensures
        conn_actions(ConnPhase::Closed, events).len() == events.len(),
        forall|i: int| 0 <= i < events.len() ==> #[trigger] conn_actions(ConnPhase::Closed, events)[i] == ConnAction::Nothing,
    decreases events.len(),
{
    lemma_conn_actions_len(ConnPhase::Closed, events);
    if events.len() > 0 {
        law_closed_connection_stays_silent(events.drop_first());
        let tail = conn_actions(ConnPhase::Closed, events.drop_first());
        assert(conn_actions(ConnPhase::Closed, events) == seq![ConnAction::Nothing] + tail);
        assert forall|i: int| 0 <= i < events.len() implies #[trigger] conn_actions(ConnPhase::Closed, events)[i]
            == ConnAction::Nothing by {
            if i > 0 {
                assert(conn_actions(ConnPhase::Closed, events)[i] == tail[i - 1]);
            }
        }
    }
}

/// A first line that is not an accepted handshake (not a handshake at all, or one
/// refused by its validation, version or token) ends the connection: for whatever
/// follows, the wallet writes nothing, serves no request and never opens the
/// handshake gate.
pub proof fn law_refused_handshake_is_silent(first: ConnEvent, rest: Seq<ConnEvent>)
    requires
        first != ConnEvent::Handshake(Some(Ok(()))),
    ensures
        ({
            let acts = conn_actions(ConnPhase::AwaitingHandshake, seq![first] + rest);
            &&& acts.len() == rest.len() + 1
            &&& forall|i: int| 0 <= i < acts.len() ==> #[trigger] acts[i] == ConnAction::Nothing
        }),
{
    let events = seq![first] + rest;
    assert(events.drop_first() =~= rest);
    lemma_conn_actions_len(ConnPhase::AwaitingHandshake, events);
    law_closed_connection_stays_silent(rest);
    assert(events[0] == first);
    assert(conn_next(ConnPhase::AwaitingHandshake, first) == (ConnPhase::Closed, ConnAction::Nothing)) by {
        match first {
            ConnEvent::Handshake(Some(Ok(u))) => {
                assert(u == ());
            },
            _ => {},
        }
    }
    let acts = conn_actions(ConnPhase::AwaitingHandshake, events);
    assert(acts == seq![ConnAction::Nothing] + conn_actions(ConnPhase::Closed, rest));
    assert forall|i: int| 0 <= i < acts.len() implies #[trigger] acts[i] == ConnAction::Nothing by {
        if i > 0 {
            assert(acts[i] == conn_actions(ConnPhase::Closed, rest)[i - 1]);
        }
    }
}

/// Whether an action answers a request.
pub open spec fn answers_request(a: ConnAction) -> bool {
    a == ConnAction::Dispatch || a is AnswerInvalid
}

/// No request is answered before the handshake gate was opened on this
/// connection: every answer in the trace of a fresh connection comes after an
/// `OpenGate`, which itself follows an accepted handshake and a written echo.
pub proof fn law_requests_served_only_after_handshake(phase: ConnPhase, events: Seq<ConnEvent>)
    requires
        phase != ConnPhase::Serving,
    ensures
        conn_actions(phase, events).len() == events.len(),
        forall|i: int| 0 <= i < events.len() && answers_request(#[trigger] conn_actions(phase, events)[i]) ==> exists|j: int|
            0 <= j < i && conn_actions(phase, events)[j] == ConnAction::OpenGate,
    decreases events.len(),
{
    lemma_conn_actions_len(phase, events);
    if events.len() > 0 {
        let (next, action) = conn_next(phase, events[0]);
        let acts = conn_actions(phase, events);
        let tail = conn_actions(next, events.drop_first());
        lemma_conn_actions_len(next, events.drop_first());
        assert(acts == seq![action] + tail);
        if next == ConnPhase::Serving {
            assert(action == ConnAction::OpenGate);
            assert forall|i: int| 0 <= i < events.len() && answers_request(#[trigger] acts[i]) implies exists|j: int|
                0 <= j < i && acts[j] == ConnAction::OpenGate by {
                assert(i != 0);
                assert(acts[0] == ConnAction::OpenGate);
            }
        } else {
            law_requests_served_only_after_handshake(next, events.drop_first());
            assert forall|i: int| 0 <= i < events.len() && answers_request(#[trigger] acts[i]) implies exists|j: int|
                0 <= j < i && acts[j] == ConnAction::OpenGate by {
                assert(!answers_request(action));
                assert(i > 0);
                assert(acts[i] == tail[i - 1]);
                assert(answers_request(tail[i - 1]));
                let j0 = choose|j: int| 0 <= j < i - 1 && tail[j] == ConnAction::OpenGate;
                assert(acts[j0 + 1] == tail[j0]);
            }
        }
    }
}

} // verus!
