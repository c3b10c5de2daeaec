use vaughan_dioxus::approval::ApprovalDecision;
use vaughan_dioxus::flows::{
    ipc_connection_step, sign_request_step, ConnAction, ConnEvent, ConnPhase, SignAction, SignEvent, SignPhase,
};
use vaughan_dioxus::ipc::{HandshakeGate, HandshakeRejection};

#[test]
fn approved_request_is_signed_and_answered() {
    let (p, a) = sign_request_step(SignPhase::Received, SignEvent::Validated(Ok(())));
    assert_eq!((p, a), (SignPhase::AwaitingDecision, SignAction::SubmitForApproval));
    let (p, a) = sign_request_step(p, SignEvent::Decided(ApprovalDecision::Approve));
    assert_eq!((p, a), (SignPhase::Signing, SignAction::LoadSignerAndSign));
    let (p, a) = sign_request_step(p, SignEvent::Signed(Ok("0xsig".to_string())));
    assert_eq!((p, a), (SignPhase::Done, SignAction::AnswerSigned(Ok("0xsig".to_string()))));
}

#[test]
fn rejected_request_never_reaches_the_signer() {
    let (p, _) = sign_request_step(SignPhase::Received, SignEvent::Validated(Ok(())));
    let (p, a) = sign_request_step(p, SignEvent::Decided(ApprovalDecision::Reject));
    assert_eq!((p, a), (SignPhase::Done, SignAction::AnswerRejected));
    let (p, a) = sign_request_step(p, SignEvent::Decided(ApprovalDecision::Approve));
    assert_eq!((p, a), (SignPhase::Done, SignAction::Ignore));
    let (p, a) = sign_request_step(p, SignEvent::Signed(Ok("0xsig".to_string())));
    assert_eq!((p, a), (SignPhase::Done, SignAction::Ignore));
}

#[test]
fn invalid_payload_is_answered_without_asking_the_user() {
    let (p, a) = sign_request_step(SignPhase::Received, SignEvent::Validated(Err("address is empty".to_string())));
    assert_eq!((p, a), (SignPhase::Done, SignAction::AnswerInvalid("address is empty".to_string())));
}

#[test]
fn decision_before_validation_is_ignored() {
    let (p, a) = sign_request_step(SignPhase::Received, SignEvent::Decided(ApprovalDecision::Approve));
    assert_eq!((p, a), (SignPhase::Received, SignAction::Ignore));
}

#[test]
fn refused_handshake_closes_silently() {
    for verdict in [
        None,
        Some(Err(HandshakeRejection::Invalid)),
        Some(Err(HandshakeRejection::VersionMismatch)),
        Some(Err(HandshakeRejection::TokenRejected)),
    ] {
        let mut gate = HandshakeGate::new();
        let (p, a) = ipc_connection_step(ConnPhase::AwaitingHandshake, ConnEvent::Handshake(verdict), &mut gate);
        assert_eq!((p, a), (ConnPhase::Closed, ConnAction::Nothing));
        assert!(!gate.done);
        let (p, a) = ipc_connection_step(p, ConnEvent::Request(Some(Ok(()))), &mut gate);
        assert_eq!((p, a), (ConnPhase::Closed, ConnAction::Nothing));
        assert!(!gate.done);
    }
}

#[test]
fn accepted_handshake_opens_the_gate_then_serves() {
    let mut gate = HandshakeGate::new();
    let (p, a) = ipc_connection_step(ConnPhase::AwaitingHandshake, ConnEvent::Handshake(Some(Ok(()))), &mut gate);
    assert_eq!((p, a), (ConnPhase::AckPending, ConnAction::WriteAck));
    assert!(!gate.done);
    let (p, a) = ipc_connection_step(p, ConnEvent::AckWritten(true), &mut gate);
    assert_eq!((p, a), (ConnPhase::Serving, ConnAction::OpenGate));
    assert!(gate.done);
    let (p, a) = ipc_connection_step(p, ConnEvent::Request(Some(Ok(()))), &mut gate);
    assert_eq!((p, a), (ConnPhase::Serving, ConnAction::Dispatch));
    let (p, a) = ipc_connection_step(p, ConnEvent::Request(Some(Err("bad chain".to_string()))), &mut gate);
    assert_eq!((p, a), (ConnPhase::Serving, ConnAction::AnswerInvalid("bad chain".to_string())));
    let (p, a) = ipc_connection_step(p, ConnEvent::Request(None), &mut gate);
    assert_eq!((p, a), (ConnPhase::Serving, ConnAction::Nothing));
    let (p, a) = ipc_connection_step(p, ConnEvent::Eof, &mut gate);
    assert_eq!((p, a), (ConnPhase::Closed, ConnAction::Nothing));
}

#[test]
fn failed_ack_leaves_the_gate_closed() {
    let mut gate = HandshakeGate::new();
    let (p, _) = ipc_connection_step(ConnPhase::AwaitingHandshake, ConnEvent::Handshake(Some(Ok(()))), &mut gate);
    let (p, a) = ipc_connection_step(p, ConnEvent::AckWritten(false), &mut gate);
    assert_eq!((p, a), (ConnPhase::Closed, ConnAction::Nothing));
    assert!(!gate.done);
}

#[test]
fn failed_answer_write_ends_the_connection() {
    let mut gate = HandshakeGate::new();
    let (p, a) = ipc_connection_step(ConnPhase::Serving, ConnEvent::AnswerWritten(false), &mut gate);
    assert_eq!((p, a), (ConnPhase::Closed, ConnAction::Nothing));
    let (p, a) = ipc_connection_step(ConnPhase::Serving, ConnEvent::AnswerWritten(true), &mut gate);
    assert_eq!((p, a), (ConnPhase::Serving, ConnAction::Nothing));
}
