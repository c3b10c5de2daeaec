use vaughan_dioxus::amounts::format_decimal_amount;
use vaughan_dioxus::history::{
    any_pending, apply_polled_status, filter_history, matches_query, merge_history, status_poll_targets,
    tx_amount_label, tx_status_badge, HistoryRuntime, TxRecord,
};
use vaughan_dioxus::pending::TxStatus;

#[test]
fn formats_with_decimals_and_trims() {
    assert_eq!(format_decimal_amount("1234500", Some(6)), "1.2345");
    assert_eq!(format_decimal_amount("1000000", Some(6)), "1");
}

#[test]
fn formats_small_values_below_one() {
    assert_eq!(format_decimal_amount("1", Some(6)), "0.000001");
    assert_eq!(format_decimal_amount("12", Some(6)), "0.000012");
}

#[test]
fn falls_back_when_decimals_missing_or_invalid() {
    assert_eq!(format_decimal_amount("12345", None), "12345");
    assert_eq!(format_decimal_amount("  ", Some(18)), "");
    assert_eq!(format_decimal_amount("abc", Some(18)), "abc");
}

fn record(hash: &str, ts: u64, status: TxStatus) -> TxRecord {
    TxRecord {
        hash: hash.to_string(),
        from: "0xAbC0000000000000000000000000000000000001".to_string(),
        to: "0x00000000000000000000000000000000000000Ff".to_string(),
        value: "1500".to_string(),
        timestamp: ts,
        status,
        is_token_transfer: false,
        token_symbol: None,
        token_address: None,
        token_decimals: None,
    }
}

#[test]
fn format_decimal_amount_keeps_six_fraction_digits() {
    assert_eq!(format_decimal_amount("1234567891", Some(9)), "1.234567");
    assert_eq!(format_decimal_amount("000500", Some(0)), "500");
    assert_eq!(format_decimal_amount("0", Some(6)), "0");
}

#[test]
fn query_matches_case_insensitively_in_any_field() {
    let mut tx = record("0xDEADbeef", 1, TxStatus::Confirmed);
    tx.token_symbol = Some("USDC".to_string());
    assert!(matches_query(&tx, ""));
    assert!(matches_query(&tx, "deadBEEF"));
    assert!(matches_query(&tx, "abc000"));
    assert!(matches_query(&tx, "ff"));
    assert!(matches_query(&tx, "150"));
    assert!(matches_query(&tx, "usdc"));
    assert!(!matches_query(&tx, "weth"));
}

#[test]
fn filter_history_keeps_order_of_matches() {
    let items = vec![
        record("h-aa", 3, TxStatus::Confirmed),
        record("h-bb", 2, TxStatus::Confirmed),
        record("h-ab", 1, TxStatus::Confirmed),
    ];
    let out = filter_history(&items, "H-A");
    let hashes: Vec<&str> = out.iter().map(|t| t.hash.as_str()).collect();
    assert_eq!(hashes, vec!["h-aa", "h-ab"]);
    assert_eq!(filter_history(&items, "").len(), 3);
}

#[test]
fn amount_label_for_token_and_native() {
    let mut tx = record("0x1", 1, TxStatus::Confirmed);
    assert_eq!(tx_amount_label(&tx), "1500");
    tx.is_token_transfer = true;
    tx.value = "2500000".to_string();
    tx.token_decimals = Some(6);
    assert_eq!(tx_amount_label(&tx), "2.5 TOKEN");
    tx.token_symbol = Some("USDT".to_string());
    assert_eq!(tx_amount_label(&tx), "2.5 USDT");
}

#[test]
fn merge_orders_newest_first_and_keeps_ties_in_order() {
    let native = vec![record("n1", 10, TxStatus::Confirmed), record("n2", 30, TxStatus::Confirmed)];
    let token = vec![record("t1", 20, TxStatus::Confirmed), record("t2", 30, TxStatus::Pending)];
    let merged = merge_history(native, token);
    let hashes: Vec<&str> = merged.iter().map(|t| t.hash.as_str()).collect();
    assert_eq!(hashes, vec!["n2", "t2", "t1", "n1"]);
}

#[test]
fn merge_of_nothing_is_empty() {
    assert!(merge_history(Vec::new(), Vec::new()).is_empty());
}

#[test]
fn poll_targets_are_first_ten_pending() {
    let mut items = Vec::new();
    for i in 0..25u64 {
        let status = if i % 2 == 0 { TxStatus::Pending } else { TxStatus::Confirmed };
        items.push(record(&format!("0x{i}"), i, status));
    }
    let targets = status_poll_targets(&items);
    assert_eq!(targets, vec![0, 2, 4, 6, 8, 10, 12, 14, 16, 18]);
    assert!(any_pending(&items));
    let confirmed = vec![record("0x1", 1, TxStatus::Confirmed)];
    assert!(!any_pending(&confirmed));
    assert!(status_poll_targets(&confirmed).is_empty());
}

#[test]
fn polled_status_updates_only_that_record() {
    let mut items = vec![record("a", 1, TxStatus::Pending), record("b", 2, TxStatus::Pending)];
    assert!(apply_polled_status(&mut items, 1, TxStatus::Failed));
    assert_eq!(items[1].status, TxStatus::Failed);
    assert_eq!(items[0].status, TxStatus::Pending);
    assert!(!apply_polled_status(&mut items, 1, TxStatus::Failed));
}

#[test]
fn status_badges() {
    assert_eq!(tx_status_badge(TxStatus::Pending), ("pending", "#999"));
    assert_eq!(tx_status_badge(TxStatus::Confirmed), ("confirmed", "#7CFC90"));
    assert_eq!(tx_status_badge(TxStatus::Failed), ("failed", "#ff77aa"));
}

#[test]
fn successful_refresh_merges_and_clears_the_error() {
    let mut h = HistoryRuntime::new();
    h.error = Some("old failure".to_string());
    h.begin_refresh();
    assert!(h.loading);
    assert_eq!(h.error, None);
    let native = vec![record("0xa", 10, TxStatus::Confirmed), record("0xb", 30, TxStatus::Confirmed)];
    let token = vec![record("0xc", 20, TxStatus::Pending), record("0xd", 30, TxStatus::Confirmed)];
    let poll = h.history_refresh_done(Ok((native, token)), false);
    assert!(!h.loading);
    assert_eq!(h.error, None);
    let order: Vec<&str> = h.items.iter().map(|t| t.hash.as_str()).collect();
    assert_eq!(order, vec!["0xb", "0xd", "0xc", "0xa"]);
    assert!(poll);
}

#[test]
fn failed_refresh_keeps_records_and_shows_the_error() {
    let mut h = HistoryRuntime::new();
    h.history_refresh_done(Ok((vec![record("0xa", 1, TxStatus::Confirmed)], vec![])), false);
    h.begin_refresh();
    let poll = h.history_refresh_done(Err("Network error".to_string()), true);
    assert!(!h.loading);
    assert_eq!(h.error, Some("Network error".to_string()));
    assert_eq!(h.items.len(), 1);
    assert!(poll);
    let poll = h.history_refresh_done(Ok((vec![], vec![record("0xz", 5, TxStatus::Confirmed)])), true);
    assert!(!poll);
}
