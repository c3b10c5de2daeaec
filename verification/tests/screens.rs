use vaughan_dioxus::app_state::{
    header_account_address, initial_phase, primary_wallet_address, prewarm_due, prewarm_signature, selector_poll_interval_secs,
    show_bottom_dock, window_step, AppEvent, AppView, WalletPhase, WindowState,
};
use vaughan_dioxus::dashboard::{
    account_selector_label, adapter_needs_rebuild, address_color_segments, asset_row, current_network_key, format_balance,
    network_option_label, network_option_selected, short_addr, AccountOption, AdapterNetworkKey, NetworkOption,
    TokenInfo,
};
use vaughan_dioxus::session::{
    clipboard_unsupported, copy_status_message, import_export_lockout_message, is_pulsex_running, lockout_message, stop_pulsex_local,
    ChildPoll, ClipboardError, PulsexServerGuard,
};

#[test]
fn balance_text() {
    assert_eq!(format_balance("  1.25 "), "1.25");
    assert_eq!(format_balance("   "), "0.00");
    assert_eq!(format_balance(""), "0.00");
}

#[test]
fn asset_rows() {
    let tokens = vec![
        TokenInfo { contract_address: Some("0xA".to_string()), symbol: "HEX".to_string() },
        TokenInfo { contract_address: None, symbol: "X".to_string() },
    ];
    let bal = Some((" 2.5 ".to_string(), "PLS".to_string()));
    assert_eq!(asset_row(&bal, "native", &tokens), ("PLS".to_string(), "2.5".to_string()));
    assert_eq!(asset_row(&None, "native", &tokens), ("ETH".to_string(), "—".to_string()));
    assert_eq!(asset_row(&bal, "0xA", &tokens), ("HEX".to_string(), "—".to_string()));
    assert_eq!(asset_row(&bal, "0xB", &tokens), ("Token".to_string(), "—".to_string()));
}

#[test]
fn account_labels_and_short_addresses() {
    let accounts = vec![
        AccountOption { name: "Main".to_string(), address: "0x1".to_string() },
        AccountOption { name: "Savings".to_string(), address: "0x2".to_string() },
    ];
    assert_eq!(account_selector_label(&accounts, &Some("0x2".to_string())), "Savings");
    assert_eq!(account_selector_label(&accounts, &Some("0x9".to_string())), "Select account");
    assert_eq!(account_selector_label(&accounts, &None), "Select account");
    assert_eq!(short_addr("0x1234567890abcdef1234"), "0x123456...1234");
    assert_eq!(short_addr("0x12345678901"), "0x12345678901");
}

#[test]
fn network_keys() {
    let k = current_network_key(None);
    assert_eq!(k, AdapterNetworkKey { id: "ethereum".to_string(), rpc_url: String::new(), chain_id: 1 });
    let pls = AdapterNetworkKey { id: "pls".to_string(), rpc_url: "https://rpc".to_string(), chain_id: 369 };
    assert_eq!(current_network_key(Some(pls.clone())), pls);
    assert!(adapter_needs_rebuild(&pls, &k));
    assert!(!adapter_needs_rebuild(&pls, &pls.clone()));
    let other_rpc = AdapterNetworkKey { rpc_url: "https://rpc2".to_string(), ..pls.clone() };
    assert!(adapter_needs_rebuild(&other_rpc, &pls));
}

#[test]
fn lockout_messages() {
    assert_eq!(lockout_message(300), "Too many failed attempts. Try again in about 5 minutes.");
    assert_eq!(lockout_message(59), "Too many failed attempts. Try again in about 0 minutes.");
    assert_eq!(
        import_export_lockout_message(900),
        "Too many failed password attempts. Try again in about 15 minutes."
    );
}

#[test]
fn clipboard_errors() {
    assert_eq!(ClipboardError("denied".to_string()).message(), "denied");
    assert_eq!(clipboard_unsupported().0, "clipboard not implemented on this target yet");
}

#[test]
fn pulsex_slot() {
    let mut slot: Option<u32> = None;
    assert!(!is_pulsex_running(&mut slot, ChildPoll::Running));
    slot = Some(7);
    assert!(is_pulsex_running(&mut slot, ChildPoll::Running));
    assert!(!is_pulsex_running(&mut slot, ChildPoll::Failed));
    assert_eq!(slot, Some(7));
    assert!(!is_pulsex_running(&mut slot, ChildPoll::Exited));
    assert_eq!(slot, None);
    slot = Some(8);
    assert_eq!(stop_pulsex_local(&mut slot), Some(8));
    assert_eq!(slot, None);
    assert_eq!(stop_pulsex_local(&mut slot), None);
    let _guard = PulsexServerGuard;
}

#[test]
fn window_navigation() {
    assert!(show_bottom_dock(AppView::Dashboard));
    assert!(!show_bottom_dock(AppView::Send));
    assert_eq!(initial_phase(true), WalletPhase::Unlock);
    assert_eq!(initial_phase(false), WalletPhase::Onboarding);
    let s = WindowState { phase: initial_phase(false), view: AppView::Dashboard };
    let s = window_step(s, AppEvent::OnboardingFinished);
    assert_eq!(s.phase, WalletPhase::Main);
    let s = window_step(s, AppEvent::Navigate(AppView::Settings));
    assert_eq!(s.view, AppView::Settings);
    let s2 = window_step(s, AppEvent::Back);
    assert_eq!(s2, WindowState { phase: WalletPhase::Main, view: AppView::Dashboard });
    let s3 = window_step(s, AppEvent::WalletDeleted);
    assert_eq!(s3, WindowState { phase: WalletPhase::Onboarding, view: AppView::Dashboard });
}

#[test]
fn polling_and_prewarm() {
    assert_eq!(selector_poll_interval_secs(None), 2);
    assert_eq!(selector_poll_interval_secs(Some(0)), 1);
    assert_eq!(selector_poll_interval_secs(Some(30)), 30);
    let sig = prewarm_signature(&vec!["https://App.PulseX.com/".to_string(), "https://piteas.io".to_string()]);
    assert_eq!(sig, "app.pulsex.com|piteas.io");
    assert_eq!(prewarm_signature(&Vec::new()), "");
    assert!(prewarm_due(None, "", 369, ""));
    assert!(!prewarm_due(Some(369), "a|b", 369, "a|b"));
    assert!(prewarm_due(Some(369), "a|b", 369, "a"));
    assert!(prewarm_due(Some(1), "a", 369, "a"));
    assert_eq!(header_account_address(Some("0xa".to_string()), Some("0xb".to_string())), "0xa");
    assert_eq!(header_account_address(None, Some("0xb".to_string())), "0xb");
    assert_eq!(header_account_address(None, None), "");
}

#[test]
fn primary_address_falls_back() {
    assert_eq!(primary_wallet_address(Some("0xa".to_string()), Some("0xb".to_string())), "0xa");
    assert_eq!(primary_wallet_address(None, Some("0xb".to_string())), "0xb");
    assert_eq!(primary_wallet_address(None, None), "0xd8dA6BF26964aF9D7eEd9e03E53415D37aA96045");
}

#[test]
fn receive_copy_status() {
    assert_eq!(copy_status_message(false, None), "No wallet address yet. Finish onboarding or add an account.");
    assert_eq!(copy_status_message(true, None), "Copied to clipboard");
    assert_eq!(copy_status_message(true, Some("busy".to_string())), "Clipboard error: busy");
}

#[test]
fn network_choices() {
    let net = NetworkOption { id: "pls".to_string(), name: "PulseChain".to_string(), chain_id: 369 };
    assert_eq!(network_option_label(&net), "PulseChain (chain_id=369)");
    assert!(network_option_selected(&net, &Some("pls".to_string())));
    assert!(!network_option_selected(&net, &Some("eth".to_string())));
    assert!(!network_option_selected(&net, &None));
}

#[test]
fn colored_address_segments() {
    let segs = address_color_segments("  0xd8dA6BF26964aF9D7eEd9e03E53415D37aA96045 ").unwrap();
    assert_eq!(segs, vec!["d8dA6", "BF26964aF9D7e", "Ed9e0", "3E53415D37aA", "96045"]);
    assert_eq!(address_color_segments("0x1234"), None);
    assert_eq!(address_color_segments(""), None);
}
