use vaughan_dioxus::approval::ApprovalDecision;
use vaughan_dioxus::ipc::{
    check_handshake, collect_accounts, inner_call_data, decision_response, find_signing_account, handshake_wait_step,
    invalid_request_response, ipc_error, locked_wallet_response, message_bytes_for_signing,
    network_info_or_default, not_implemented_response, rejection_response, reset_dapp_browser_ipc_handshake_gate,
    session_password_for_signing, signed_response, signer_unavailable_response, switch_chain_outcome, switch_chain_target, trim_line_end, validation_error_message,
    AccountInfo, HandshakeGate, HandshakeRejection, HandshakeWait, IpcResponse, NetworkEntry, NetworkInfo, SignKind,
};

fn err(code: u32, message: &str) -> IpcResponse {
    IpcResponse::Error { code, message: message.to_string() }
}

fn pair(a: &str, n: &str) -> (String, String) {
    (a.to_string(), n.to_string())
}

#[test]
fn handshake_gate_opens_and_resets() {
    let mut g = HandshakeGate::new();
    assert!(!g.done);
    g.mark_done();
    assert!(g.done);
    reset_dapp_browser_ipc_handshake_gate(&mut g);
    assert!(!g.done);
    assert_eq!(handshake_wait_step(true, 0), HandshakeWait::Ready);
    assert_eq!(handshake_wait_step(false, 0), HandshakeWait::TimedOut);
    assert_eq!(handshake_wait_step(false, 250), HandshakeWait::WaitFor(250));
}

#[test]
fn handshake_checks_in_order() {
    assert_eq!(check_handshake(1, "tok", Ok(()), 1, "tok"), Ok(()));
    assert_eq!(check_handshake(1, "tok", Err("empty".to_string()), 2, "x"), Err(HandshakeRejection::Invalid));
    assert_eq!(check_handshake(1, "tok", Ok(()), 2, "tok"), Err(HandshakeRejection::VersionMismatch));
    assert_eq!(check_handshake(2, "tok", Ok(()), 2, "other"), Err(HandshakeRejection::TokenRejected));
    assert_eq!(trim_line_end("{\"a\":1}\r\n"), "{\"a\":1}");
    assert_eq!(trim_line_end("x\n\n\r"), "x");
    assert_eq!(trim_line_end(" x "), " x ");
}

#[test]
fn error_answers() {
    assert_eq!(validation_error_message("id missing"), "Invalid request: id missing");
    assert_eq!(invalid_request_response("bad"), err(32602, "Invalid request: bad"));
    assert_eq!(rejection_response(SignKind::Message), err(4001, "User rejected SignMessage request"));
    assert_eq!(rejection_response(SignKind::Transaction), err(4001, "User rejected SignTransaction request"));
    assert_eq!(decision_response(SignKind::Message, ApprovalDecision::Approve), None);
    assert_eq!(
        decision_response(SignKind::Transaction, ApprovalDecision::Reject),
        Some(err(4001, "User rejected SignTransaction request"))
    );
    assert_eq!(not_implemented_response(), err(4200, "Method not implemented in wallet yet"));
    assert_eq!(
        locked_wallet_response(),
        err(4100, "Wallet is locked: import/export password required before signing")
    );
    assert_eq!(ipc_error(1, "m".to_string()), err(1, "m"));
    assert_eq!(
        signed_response(SignKind::Message, Ok("0xsig".to_string())),
        IpcResponse::SignedMessage("0xsig".to_string())
    );
    assert_eq!(
        signed_response(SignKind::Transaction, Ok("0xraw".to_string())),
        IpcResponse::SignedTransaction("0xraw".to_string())
    );
    assert_eq!(signed_response(SignKind::Message, Err("boom".to_string())), err(4200, "SignMessage failed: boom"));
}

#[test]
fn network_answers() {
    assert_eq!(network_info_or_default(None), NetworkInfo { chain_id: 1, name: "Ethereum".to_string() });
    let pls = NetworkInfo { chain_id: 369, name: "PulseChain".to_string() };
    assert_eq!(network_info_or_default(Some(pls.clone())), pls);
    let nets = vec![
        NetworkEntry { id: "eth".to_string(), name: "Ethereum".to_string(), chain_id: 1 },
        NetworkEntry { id: "pls".to_string(), name: "PulseChain".to_string(), chain_id: 369 },
    ];
    assert_eq!(switch_chain_target(&nets, 369), Ok(1));
    assert_eq!(
        switch_chain_target(&nets, 56),
        Err(err(4902, "Chain id 56 is not in Vaughan's network list. Add it in Settings, then retry."))
    );
    assert_eq!(switch_chain_outcome(&nets[1], Err("offline".to_string())), err(4200, "offline"));
    assert_eq!(switch_chain_outcome(&nets[1], Ok(())), IpcResponse::NetworkInfo(pls));
}

#[test]
fn message_bytes() {
    assert_eq!(message_bytes_for_signing("0x6869"), Ok(vec![0x68, 0x69]));
    assert_eq!(message_bytes_for_signing("0x0x6869"), Ok(vec![0x68, 0x69]));
    assert_eq!(message_bytes_for_signing("hi"), Ok(vec![0x68, 0x69]));
    assert_eq!(message_bytes_for_signing("é"), Ok(vec![0xc3, 0xa9]));
    assert_eq!(message_bytes_for_signing("0xzz"), Err("Invalid hex message payload".to_string()));
    assert_eq!(message_bytes_for_signing("0x123"), Err("Invalid hex message payload".to_string()));
}

#[test]
fn signing_account_lookup() {
    let addrs = vec!["0xAAaa".to_string(), "0xbbBB".to_string()];
    assert_eq!(find_signing_account(&addrs, "  0XBBBB "), Ok(1));
    assert_eq!(
        find_signing_account(&addrs, "0xcccc"),
        Err("Requested address not found in wallet accounts".to_string())
    );
}

#[test]
fn accounts_deduped_by_lowercase_address() {
    let mgr = vec![pair("0xAbC", "Main"), pair("0xdef", "Second"), pair("0xABC", "Dup")];
    let ws = vec![pair("0xDEF", "Other"), pair("0x123", "Demo")];
    let out = collect_accounts(&mgr, &ws);
    assert_eq!(
        out,
        vec![
            AccountInfo { address: "0xAbC".to_string(), name: Some("Main".to_string()) },
            AccountInfo { address: "0xdef".to_string(), name: Some("Second".to_string()) },
            AccountInfo { address: "0x123".to_string(), name: Some("Demo".to_string()) },
        ]
    );
    assert!(collect_accounts(&Vec::new(), &Vec::new()).is_empty());
}

#[test]
fn smart_account_inner_calldata() {
    assert_eq!(inner_call_data(&None), Vec::<u8>::new());
    assert_eq!(inner_call_data(&Some("0xa9059cbb".to_string())), vec![0xa9, 0x05, 0x9c, 0xbb]);
    assert_eq!(inner_call_data(&Some("0x0xff".to_string())), vec![0xff]);
    assert_eq!(inner_call_data(&Some("0xnothex".to_string())), Vec::<u8>::new());
    assert_eq!(inner_call_data(&Some("".to_string())), Vec::<u8>::new());
}

#[test]
fn signing_needs_the_session_password() {
    assert_eq!(session_password_for_signing(Some("pw".to_string())), Ok("pw".to_string()));
    assert_eq!(
        session_password_for_signing(None),
        Err(err(4100, "Wallet is locked: import/export password required before signing"))
    );
    assert_eq!(signer_unavailable_response("Account not found".to_string()), err(4100, "Account not found"));
}
