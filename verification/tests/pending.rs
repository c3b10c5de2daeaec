use vaughan_dioxus::errors::WalletError;
use vaughan_dioxus::pending::{
    explorer_tx_url, filtered_pending_txs, find_pending_for_replace, find_pending_index, new_pending_entry,
    pending_hashes_to_refresh, record_replacement, replacement_target, resolve_send_overrides,
    replacement_plan, set_pending_status, speedup_cancel_disabled_reason, SendRuntime, status_chip_style, tx_status_label, upsert_pending,
    PendingTxContext, QueueFilter, ReplaceMode, TxStatus, MAX_PENDING_TXS,
};

fn entry(hash: &str, status: &str) -> PendingTxContext {
    PendingTxContext {
        tx_hash: hash.to_string(),
        nonce: 7,
        to: "0xto".to_string(),
        value_wei: "100".to_string(),
        data: Some("0xab".to_string()),
        max_fee_per_gas: Some("50".to_string()),
        max_priority_fee_per_gas: None,
        status: status.to_string(),
    }
}

fn hashes(list: &[PendingTxContext]) -> Vec<String> {
    list.iter().map(|e| e.tx_hash.clone()).collect()
}

#[test]
fn upsert_appends_new_and_replaces_same_hash() {
    let mut list = Vec::new();
    upsert_pending(&mut list, entry("0x1", "Pending"));
    upsert_pending(&mut list, entry("0x2", "Pending"));
    let mut again = entry("0x1", "Confirmed");
    again.nonce = 9;
    upsert_pending(&mut list, again.clone());
    assert_eq!(hashes(&list), vec!["0x1", "0x2"]);
    assert_eq!(list[0], again);
}

#[test]
fn upsert_keeps_newest_twenty() {
    let mut list = Vec::new();
    for i in 0..25 {
        upsert_pending(&mut list, entry(&format!("0x{i}"), "Pending"));
    }
    assert_eq!(list.len(), MAX_PENDING_TXS);
    assert_eq!(list[0].tx_hash, "0x5");
    assert_eq!(list[19].tx_hash, "0x24");
    let idx = find_pending_index(&list, "0x24");
    assert_eq!(idx, 19);
    assert_eq!(find_pending_index(&list, "0x0"), list.len());
}

#[test]
fn set_status_changes_only_first_match() {
    let mut list = vec![entry("a", "Pending"), entry("b", "Pending")];
    set_pending_status(&mut list, "b", "Refreshing");
    assert_eq!(list[1].status, "Refreshing");
    assert_eq!(list[0].status, "Pending");
    let before = list.clone();
    set_pending_status(&mut list, "zzz", "Failed");
    assert_eq!(list, before);
}

#[test]
fn status_labels() {
    assert_eq!(tx_status_label(TxStatus::Pending), "Pending");
    assert_eq!(tx_status_label(TxStatus::Confirmed), "Confirmed");
    assert_eq!(tx_status_label(TxStatus::Failed), "Failed");
}

#[test]
fn queue_filters_and_refresh_hashes() {
    let list = vec![
        entry("a", "Pending"),
        entry("b", "Confirmed"),
        entry("c", "Pending"),
        entry("d", "Replaced"),
        entry("e", "Refreshing"),
    ];
    assert_eq!(hashes(&filtered_pending_txs(&list, QueueFilter::All)), vec!["a", "b", "c", "d", "e"]);
    assert_eq!(hashes(&filtered_pending_txs(&list, QueueFilter::Pending)), vec!["a", "c"]);
    assert_eq!(hashes(&filtered_pending_txs(&list, QueueFilter::Replaced)), vec!["d"]);
    assert!(filtered_pending_txs(&list, QueueFilter::Failed).is_empty());
    assert_eq!(pending_hashes_to_refresh(&list), vec!["a".to_string(), "c".to_string()]);
}

#[test]
fn chip_styles_and_disabled_reasons() {
    assert_eq!(status_chip_style("Pending"), "background: rgba(245,158,11,0.15); color: #f59e0b;");
    assert_eq!(status_chip_style("Failed"), "background: rgba(239,68,68,0.15); color: #ef4444;");
    assert_eq!(status_chip_style("Replaced"), "background: rgba(148,163,184,0.15); color: #94a3b8;");
    assert_eq!(status_chip_style("weird"), "background: rgba(148,163,184,0.15); color: #94a3b8;");
    assert_eq!(speedup_cancel_disabled_reason("Pending", true), "Another transaction action is in progress.");
    assert_eq!(
        speedup_cancel_disabled_reason("Confirmed", false),
        "Only pending transactions can be sped up or canceled."
    );
    assert_eq!(speedup_cancel_disabled_reason("Pending", false), "");
}

#[test]
fn explorer_urls() {
    assert_eq!(
        explorer_tx_url(Some("https://scan.pulsechain.com//".to_string()), "0xabc"),
        Some("https://scan.pulsechain.com/tx/0xabc".to_string())
    );
    assert_eq!(
        explorer_tx_url(Some("https://etherscan.io".to_string()), "0x1"),
        Some("https://etherscan.io/tx/0x1".to_string())
    );
    assert_eq!(explorer_tx_url(None, "0x1"), None);
}

#[test]
fn replacement_targets() {
    let p = entry("h", "Pending");
    assert_eq!(
        replacement_target(ReplaceMode::SpeedUp, &p, "0xme"),
        ("0xto".to_string(), "100".to_string(), Some("0xab".to_string()))
    );
    assert_eq!(
        replacement_target(ReplaceMode::Cancel, &p, "0xme"),
        ("0xme".to_string(), "0".to_string(), None)
    );
}

#[test]
fn find_for_replace_and_record_replacement() {
    let mut list = vec![entry("old", "Pending"), entry("other", "Confirmed")];
    assert_eq!(find_pending_for_replace(&list, "old"), Ok(entry("old", "Pending")));
    assert_eq!(
        find_pending_for_replace(&list, "nope"),
        Err(WalletError::InvalidTransaction("No pending transaction to replace".to_string()))
    );
    let fresh = new_pending_entry(
        "new".to_string(),
        7,
        "0xto".to_string(),
        "100".to_string(),
        None,
        Some("57".to_string()),
        Some("2".to_string()),
    );
    assert_eq!(fresh.status, "Pending");
    record_replacement(&mut list, "old", fresh.clone());
    assert_eq!(list[0].status, "Replaced");
    assert_eq!(list[2], fresh);
    assert_eq!(list.len(), 3);
}

#[test]
fn send_overrides_prefer_user_values() {
    assert_eq!(
        resolve_send_overrides(Some("9".to_string()), Some("5".to_string()), None, Some("1".to_string()), None, 4),
        (Some("9".to_string()), Some("1".to_string()), 4)
    );
    assert_eq!(resolve_send_overrides(None, None, None, None, Some(11), 4), (None, None, 11));
}

#[test]
fn speed_up_reuses_the_pending_nonce() {
    let p = entry("0xold", "Pending");
    let t = replacement_plan(ReplaceMode::SpeedUp, &p, "0xme", Some("10".to_string()), Some("3".to_string())).unwrap();
    assert_eq!(t.nonce, 7);
    assert_eq!(t.to, "0xto");
    assert_eq!(t.value_wei, "100");
    assert_eq!(t.data, Some("0xab".to_string()));
    // max fee from the pending entry (50), priority fee from the estimate (3), each +12% +1
    assert_eq!(t.max_fee_per_gas, "57");
    assert_eq!(t.max_priority_fee_per_gas, "4");
}

#[test]
fn cancel_sends_nothing_to_self_at_the_same_nonce() {
    let p = entry("0xold", "Pending");
    let t = replacement_plan(ReplaceMode::Cancel, &p, "0xme", None, Some("100".to_string())).unwrap();
    assert_eq!(t.nonce, 7);
    assert_eq!(t.to, "0xme");
    assert_eq!(t.value_wei, "0");
    assert_eq!(t.data, None);
    assert_eq!(t.max_priority_fee_per_gas, "113");
}

#[test]
fn replacement_without_fees_is_refused() {
    let mut p = entry("0xold", "Pending");
    p.max_fee_per_gas = None;
    assert_eq!(
        replacement_plan(ReplaceMode::SpeedUp, &p, "0xme", None, Some("1".to_string())).err(),
        Some(WalletError::InvalidTransaction("Missing max_fee_per_gas".to_string()))
    );
    let p = entry("0xold", "Pending");
    assert_eq!(
        replacement_plan(ReplaceMode::SpeedUp, &p, "0xme", None, None).err(),
        Some(WalletError::InvalidTransaction("Missing max_priority_fee_per_gas".to_string()))
    );
}

#[test]
fn finishing_a_replacement_updates_the_view() {
    let mut rt = SendRuntime::new();
    rt.begin_command();
    assert!(rt.busy);
    rt.finish_send(entry("0xold", "Pending"));
    assert_eq!(rt.last_tx, Some("0xold".to_string()));
    assert!(!rt.busy);
    rt.begin_command();
    let p = rt.pending_txs[0].clone();
    let t = replacement_plan(ReplaceMode::SpeedUp, &p, "0xme", None, Some("3".to_string())).unwrap();
    rt.finish_replacement("0xold", "0xnew".to_string(), t);
    assert_eq!(rt.last_tx, Some("0xnew".to_string()));
    assert!(!rt.busy);
    assert_eq!(hashes(&rt.pending_txs), vec!["0xold".to_string(), "0xnew".to_string()]);
    assert_eq!(rt.pending_txs[0].status, "Replaced");
    let new = &rt.pending_txs[1];
    assert_eq!(new.status, "Pending");
    assert_eq!(new.nonce, 7);
    assert_eq!(new.max_fee_per_gas, Some("57".to_string()));
    assert_eq!(new.max_priority_fee_per_gas, Some("4".to_string()));
}

#[test]
fn refresh_and_failure_update_the_view() {
    let mut rt = SendRuntime::new();
    rt.finish_send(entry("0x1", "Pending"));
    rt.begin_command();
    rt.mark_refreshing("0x1");
    assert_eq!(rt.pending_txs[0].status, "Refreshing");
    rt.complete_refresh("0x1", TxStatus::Confirmed);
    assert_eq!(rt.pending_txs[0].status, tx_status_label(TxStatus::Confirmed));
    assert!(!rt.busy);
    rt.begin_command();
    rt.command_failed("MetaMask-style: invalid transaction amount.".to_string());
    assert_eq!(rt.last_error, Some("MetaMask-style: invalid transaction amount.".to_string()));
    assert!(!rt.busy);
    assert_eq!(rt.last_tx, Some("0x1".to_string()));
    rt.begin_command();
    rt.command_done();
    assert!(!rt.busy);
}
