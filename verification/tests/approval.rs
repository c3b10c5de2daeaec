use vaughan_dioxus::approval::{ApprovalDecision, DappApprovalBroker, SignMessagePayload, SignTxPayload, WaitState};

fn msg(text: &str) -> SignMessagePayload {
    SignMessagePayload { address: "0xabc".to_string(), message: text.to_string(), chain_id: 369 }
}

fn tx() -> SignTxPayload {
    SignTxPayload {
        from: "0xabc".to_string(),
        to: "0xdef".to_string(),
        value: "1".to_string(),
        data: None,
        gas_limit: Some("21000".to_string()),
        gas_price: None,
        max_fee_per_gas: None,
        max_priority_fee_per_gas: None,
        nonce: None,
        chain_id: 369,
    }
}

#[test]
fn approval_reaches_the_waiter() {
    let mut b = DappApprovalBroker::new();
    assert!(b.can_submit_sign_message());
    let t = b.submit_sign_message(7, msg("hello"));
    assert_eq!(b.poll_sign_message(t), WaitState::Waiting);
    let shown = b.pending_sign_message().unwrap();
    assert_eq!(shown.request_id, 7);
    assert_eq!(shown.payload, msg("hello"));
    assert!(b.approve_sign_message(7));
    assert_eq!(b.poll_sign_message(t), WaitState::Decided(ApprovalDecision::Approve));
    assert_eq!(b.finish_sign_message(7, t), ApprovalDecision::Approve);
    assert!(b.pending_sign_message().is_none());
    assert_eq!(b.poll_sign_message(t), WaitState::Disconnected);
}

#[test]
fn rejection_and_second_answer() {
    let mut b = DappApprovalBroker::new();
    let t = b.submit_sign_transaction(3, tx());
    assert!(b.pending_sign_transaction().is_some());
    assert!(b.reject_sign_transaction(3));
    assert!(!b.approve_sign_transaction(3));
    assert_eq!(b.finish_sign_transaction(3, t), ApprovalDecision::Reject);
}

#[test]
fn unanswered_wait_rejects() {
    let mut b = DappApprovalBroker::new();
    let t = b.submit_sign_message(1, msg("x"));
    assert_eq!(b.finish_sign_message(1, t), ApprovalDecision::Reject);
    assert!(!b.approve_sign_message(1));
    assert!(b.pending_sign_message().is_none());
}

#[test]
fn resubmitting_disconnects_the_earlier_waiter() {
    let mut b = DappApprovalBroker::new();
    let t1 = b.submit_sign_message(5, msg("first"));
    let t2 = b.submit_sign_message(5, msg("second"));
    assert_ne!(t1, t2);
    assert_eq!(b.poll_sign_message(t1), WaitState::Disconnected);
    assert_eq!(b.poll_sign_message(t2), WaitState::Waiting);
    assert_eq!(b.pending_sign_message().unwrap().payload, msg("second"));
    assert!(b.approve_sign_message(5));
    assert_eq!(b.poll_sign_message(t2), WaitState::Decided(ApprovalDecision::Approve));
}

#[test]
fn queues_are_independent() {
    let mut b = DappApprovalBroker::new();
    let tm = b.submit_sign_message(9, msg("m"));
    let tt = b.submit_sign_transaction(9, tx());
    assert!(b.approve_sign_transaction(9));
    assert_eq!(b.poll_sign_message(tm), WaitState::Waiting);
    assert_eq!(b.poll_sign_transaction(tt), WaitState::Decided(ApprovalDecision::Approve));
    assert!(b.can_submit_sign_transaction());
}

#[test]
fn unanswered_wait_rejects_with_other_requests_in_between() {
    let mut b = DappApprovalBroker::new();
    let t1 = b.submit_sign_message(1, msg("first"));
    let t2 = b.submit_sign_message(2, msg("second"));
    assert!(b.approve_sign_message(2));
    assert_eq!(b.finish_sign_message(2, t2), ApprovalDecision::Approve);
    assert_eq!(b.poll_sign_message(t1), WaitState::Waiting);
    assert_eq!(b.finish_sign_message(1, t1), ApprovalDecision::Reject);
    assert_eq!(b.poll_sign_message(t1), WaitState::Disconnected);
    assert!(!b.approve_sign_message(1));
}

#[test]
fn decision_survives_other_requests() {
    let mut b = DappApprovalBroker::new();
    let t1 = b.submit_sign_message(10, msg("a"));
    assert!(b.reject_sign_message(10));
    let t2 = b.submit_sign_message(11, msg("b"));
    assert!(b.approve_sign_message(11));
    assert_eq!(b.finish_sign_message(11, t2), ApprovalDecision::Approve);
    assert_eq!(b.poll_sign_message(t1), WaitState::Decided(ApprovalDecision::Reject));
    assert_eq!(b.finish_sign_message(10, t1), ApprovalDecision::Reject);
    assert!(!b.approve_sign_message(10));
}

#[test]
fn shown_request_stays_while_others_are_answered() {
    let mut b = DappApprovalBroker::new();
    let t1 = b.submit_sign_message(20, msg("old"));
    let _t2 = b.submit_sign_message(21, msg("shown"));
    assert!(b.reject_sign_message(20));
    assert_eq!(b.finish_sign_message(20, t1), ApprovalDecision::Reject);
    let shown = b.pending_sign_message().unwrap();
    assert_eq!(shown.request_id, 21);
    assert_eq!(shown.payload, msg("shown"));
}
