use vaughan_dioxus::browser::{
    browser_launch_args, dapp_preference_key, format_user_dapp_url, google_favicon_url_for_dapp, host_label,
    launch_url_after_parse, open_any_dapp_url, open_dapp, open_trusted_dapp_url_new_window,
    open_trusted_dapp_url_prefer_warm_window, prewarm_top_trusted_dapps_for_chain, trusted_dapp_entries,
    trusted_dapp_visible_on_chain, TrustedDapp,
};
use vaughan_dioxus::urls::ParsedUrl;

#[test]
fn user_urls_get_https_when_schemeless() {
    assert_eq!(format_user_dapp_url("  app.pulsex.com "), "https://app.pulsex.com");
    assert_eq!(format_user_dapp_url("HTTP://localhost:3000"), "HTTP://localhost:3000");
    assert_eq!(format_user_dapp_url("https://x.org"), "https://x.org");
    assert_eq!(format_user_dapp_url("   "), "");
}

#[test]
fn preference_keys_use_lowercase_host() {
    assert_eq!(dapp_preference_key("https://App.Uniswap.org/swap"), "app.uniswap.org");
    assert_eq!(dapp_preference_key("Not A URL"), "not a url");
}

#[test]
fn host_labels_and_favicons() {
    assert_eq!(host_label("https://app.aave.com/markets"), "app.aave.com");
    assert_eq!(host_label("garbage"), "garbage");
    assert_eq!(
        google_favicon_url_for_dapp("https://opensea.io/collection"),
        Some("https://www.google.com/s2/favicons?domain=opensea.io&sz=128".to_string())
    );
    assert_eq!(google_favicon_url_for_dapp("mailto:someone@example.com"), None);
    assert_eq!(google_favicon_url_for_dapp("::"), None);
}

#[test]
fn launch_urls_must_be_http() {
    assert_eq!(open_any_dapp_url("  https://app.pulsex.com  "), Ok("https://app.pulsex.com/".to_string()));
    assert_eq!(
        open_any_dapp_url("ftp://files.example.com"),
        Err("Only http:// and https:// URLs are allowed".to_string())
    );
    assert_eq!(open_any_dapp_url("not a url"), Err("relative URL without a base".to_string()));
    assert_eq!(
        open_trusted_dapp_url_new_window(Err("Host is not trusted".to_string())),
        Err("Host is not trusted".to_string())
    );
    assert_eq!(
        open_trusted_dapp_url_prefer_warm_window(Ok("http://127.0.0.1:3691".to_string())),
        Ok("http://127.0.0.1:3691/".to_string())
    );
    assert_eq!(open_dapp(Ok("https://curve.fi".to_string()), true), Ok("https://curve.fi/".to_string()));
    assert_eq!(open_dapp(Ok("https://curve.fi".to_string()), false), Ok("https://curve.fi/".to_string()));
}

#[test]
fn launch_decision_on_given_parse() {
    let parsed = ParsedUrl {
        scheme: "wss".to_string(),
        host: Some("x".to_string()),
        port: Some(443),
        serialized: "wss://x/".to_string(),
    };
    assert_eq!(launch_url_after_parse(Ok(parsed)), Err("Only http:// and https:// URLs are allowed".to_string()));
    let parsed = ParsedUrl {
        scheme: "https".to_string(),
        host: Some("x".to_string()),
        port: Some(443),
        serialized: "https://x/".to_string(),
    };
    assert_eq!(launch_url_after_parse(Ok(parsed)), Ok("https://x/".to_string()));
    assert_eq!(launch_url_after_parse(Err("bad".to_string())), Err("bad".to_string()));
}

#[test]
fn catalog_visibility_by_chain() {
    let entries = trusted_dapp_entries();
    assert_eq!(entries.len(), 23);
    assert_eq!(entries[0].name, "Uniswap");
    assert_eq!(entries[11].url, "https://app.pulsex.com");
    let pulsex = entries[11];
    assert!(trusted_dapp_visible_on_chain(&pulsex, 369));
    assert!(!trusted_dapp_visible_on_chain(&pulsex, 1));
    let everywhere = TrustedDapp { name: "X", url: "https://x.org", description: "", category: "DEX", chains: &[] };
    assert!(trusted_dapp_visible_on_chain(&everywhere, 12345));
    prewarm_top_trusted_dapps_for_chain(6, 369);
}

#[test]
fn browser_arguments() {
    assert_eq!(
        browser_launch_args(None, "https://x.org/").err(),
        Some("Wallet IPC is not running; restart the wallet.".to_string())
    );
    let launch = browser_launch_args(
        Some(("/tmp/vaughan-ipc.sock".to_string(), "tok".to_string())),
        "https://x.org/",
    )
    .unwrap();
    assert_eq!(
        launch.args,
        vec![
            "--ipc".to_string(),
            "/tmp/vaughan-ipc.sock".to_string(),
            "--token".to_string(),
            "tok".to_string(),
            "--url".to_string(),
            "https://x.org/".to_string(),
        ]
    );
    assert_eq!(launch.env, vec![("VAUGHAN_WALLET_SPAWNED".to_string(), "1".to_string())]);
    assert!(launch.pipe_stdin);
}

#[test]
fn formatting_a_formatted_url_changes_nothing() {
    for raw in ["  app.pulsex.com ", "HTTPS://X.org", "", "  http://localhost:3691  ", "\tpiteas.io\n"] {
        let once = format_user_dapp_url(raw);
        assert_eq!(format_user_dapp_url(&once), once);
    }
}
