use vaughan_dioxus::browser::TrustedDapp;
use vaughan_dioxus::dapp_lists::{
    add_custom_dapp, apply_fast_toggle, dapp_origin_key, compute_top_trusted_candidates_for_chain, contains_string,
    core_entries_for_view, fast_prefs_polling_interval, hide_core_url, load_fast_keys, origin_key_after_parse,
    preconnect_due, preconnect_origins_for_chain, preconnect_pass, remove_custom_dapp, CustomDappEntry,
};
use vaughan_dioxus::urls::ParsedUrl;

fn dapp(url: &'static str, chains: &'static [u64]) -> TrustedDapp {
    TrustedDapp { name: "n", url, description: "d", category: "DEX", chains }
}

fn strings(v: &[&str]) -> Vec<String> {
    v.iter().map(|s| s.to_string()).collect()
}

#[test]
fn top_candidates_prefer_fast_then_fall_back() {
    let entries = vec![dapp("https://a.org", &[369]), dapp("https://b.org", &[1]), dapp("https://c.org", &[369])];
    let checks = vec![
        Ok("https://a.org/".to_string()),
        Ok("https://b.org/".to_string()),
        Ok("https://c.org/".to_string()),
    ];
    let custom = vec![Err("not trusted".to_string()), Ok("https://d.org/".to_string())];
    let fast = strings(&["c.org", "d.org"]);
    let r = compute_top_trusted_candidates_for_chain(6, 369, &entries, &checks, &custom, &fast);
    assert_eq!(r, strings(&["https://c.org/", "https://d.org/"]));
    let r = compute_top_trusted_candidates_for_chain(1, 369, &entries, &checks, &custom, &fast);
    assert_eq!(r, strings(&["https://c.org/"]));
    let r = compute_top_trusted_candidates_for_chain(2, 369, &entries, &checks, &custom, &Vec::new());
    assert_eq!(r, strings(&["https://a.org/", "https://c.org/"]));
}

#[test]
fn preconnect_dedupes_by_origin() {
    let entries = vec![
        dapp("https://a.org/x", &[369]),
        dapp("https://a.org/y", &[369]),
        dapp("http://a.org", &[369]),
        dapp("https://b.org", &[1]),
    ];
    let checks = vec![
        Ok("https://a.org/x".to_string()),
        Ok("https://a.org/y".to_string()),
        Ok("http://a.org/".to_string()),
        Ok("https://b.org/".to_string()),
    ];
    let r = preconnect_origins_for_chain(369, &entries, &checks);
    assert_eq!(r, strings(&["https://a.org/x", "http://a.org/"]));
    assert!(preconnect_due(None, 369));
    assert!(!preconnect_due(Some((369, 44_999)), 369));
    assert!(preconnect_due(Some((369, 45_000)), 369));
    assert!(preconnect_due(Some((1, 10)), 369));
}

#[test]
fn origin_keys() {
    let p = ParsedUrl { scheme: "http".to_string(), host: Some("h".to_string()), port: Some(80), serialized: String::new() };
    assert_eq!(origin_key_after_parse(Ok(p)), Some("h:80".to_string()));
    let p = ParsedUrl { scheme: "x".to_string(), host: Some("h".to_string()), port: None, serialized: String::new() };
    assert_eq!(origin_key_after_parse(Ok(p)), Some("h:443".to_string()));
    assert_eq!(origin_key_after_parse(Err("e".to_string())), None);
}

#[test]
fn core_rows_respect_chain_and_hidden() {
    let entries = vec![dapp("https://a.org", &[369]), dapp("https://b.org", &[369]), dapp("https://c.org", &[1])];
    let mut hidden: Vec<String> = Vec::new();
    hide_core_url(&mut hidden, "https://b.org");
    hide_core_url(&mut hidden, "https://b.org");
    assert_eq!(hidden, strings(&["https://b.org"]));
    assert!(contains_string(&hidden, "https://b.org"));
    let rows = core_entries_for_view(&entries, 369, &hidden);
    assert_eq!(rows.len(), 1);
    assert_eq!(rows[0].url, "https://a.org");
}

#[test]
fn custom_dapps_add_and_remove() {
    let entries = vec![dapp("https://a.org", &[369])];
    let mut custom: Vec<CustomDappEntry> = Vec::new();
    assert_eq!(add_custom_dapp(&mut custom, &entries, "https://my.dapp.io/app"), Ok(()));
    assert_eq!(custom[0].name, "my.dapp.io");
    assert_eq!(custom[0].description, "Custom user-added dApp");
    assert_eq!(
        add_custom_dapp(&mut custom, &entries, "https://my.dapp.io/app"),
        Err("This dApp is already in your list.".to_string())
    );
    assert_eq!(
        add_custom_dapp(&mut custom, &entries, "https://a.org"),
        Err("This dApp is already in your list.".to_string())
    );
    assert_eq!(custom.len(), 1);
    let left = remove_custom_dapp(&custom, "https://my.dapp.io/app");
    assert!(left.is_empty());
}

#[test]
fn fast_toggle_caps_at_six_and_undoes() {
    let mut keys = strings(&["a", "b", "c", "d", "e", "f"]);
    assert_eq!(
        apply_fast_toggle(&mut keys, "g"),
        Err("You can select up to 6 fast dApps. Deselect one first.".to_string())
    );
    assert_eq!(keys.len(), 6);
    assert_eq!(apply_fast_toggle(&mut keys, "c"), Ok(()));
    assert_eq!(keys, strings(&["a", "b", "d", "e", "f"]));
    assert_eq!(apply_fast_toggle(&mut keys, "g"), Ok(()));
    assert_eq!(apply_fast_toggle(&mut keys, "g"), Ok(()));
    assert_eq!(keys, strings(&["a", "b", "d", "e", "f"]));
}

#[test]
fn loaded_fast_keys_first_six_once_each() {
    let saved = strings(&["a", "b", "a", "c", "d", "e", "f", "g"]);
    assert_eq!(load_fast_keys(&saved), strings(&["a", "b", "c", "d", "e"]));
    assert!(load_fast_keys(&Vec::new()).is_empty());
    assert_eq!(fast_prefs_polling_interval(0), 10);
    assert_eq!(fast_prefs_polling_interval(3), 3);
}

#[test]
fn preconnect_origin_keys() {
    assert_eq!(dapp_origin_key("https://app.pulsex.com/swap"), Some("app.pulsex.com:443".to_string()));
    assert_eq!(dapp_origin_key("http://127.0.0.1:3691"), Some("127.0.0.1:3691".to_string()));
    assert_eq!(dapp_origin_key("http://example.org"), Some("example.org:80".to_string()));
    assert_eq!(dapp_origin_key("mailto:a@b.c"), None);
    assert_eq!(dapp_origin_key("nope"), None);
}

#[test]
fn preconnect_pass_is_throttled_per_chain() {
    let entries = vec![dapp("https://a.org/x", &[369]), dapp("https://a.org/y", &[369]), dapp("https://b.org", &[1])];
    let checks = vec![
        Ok("https://a.org/x".to_string()),
        Ok("https://a.org/y".to_string()),
        Ok("https://b.org/".to_string()),
    ];
    let mut record = None;
    assert_eq!(preconnect_pass(&mut record, 369, 1_000, &entries, &checks), strings(&["https://a.org/x"]));
    assert_eq!(record, Some((369, 1_000)));
    assert!(preconnect_pass(&mut record, 369, 40_000, &entries, &checks).is_empty());
    assert_eq!(record, Some((369, 1_000)));
    assert_eq!(preconnect_pass(&mut record, 1, 41_000, &entries, &checks), strings(&["https://b.org/"]));
    assert_eq!(record, Some((1, 41_000)));
    assert_eq!(preconnect_pass(&mut record, 1, 86_000, &entries, &checks), strings(&["https://b.org/"]));
    assert_eq!(record, Some((1, 86_000)));
}
