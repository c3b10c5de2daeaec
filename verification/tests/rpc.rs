use vaughan_dioxus::approval::ApprovalDecision;
use vaughan_dioxus::ipc::SignKind;
use vaughan_dioxus::rpc::{
    bearer_authenticated, check_add_trusted_host, constant_time_compare, cors_after_parse, cors_origin_decision,
    forward_error, forward_rpc_url, host_to_remove, host_to_remove_after_parse, invalid_payload, method_not_found,
    params_payload, remove_custom_trusted_dapps, route_rpc_method, rpc_after_decision, rpc_signing_outcome,
    save_custom_trusted_dapp, trusted_host_after_parse, CorsDecision, CustomDapp, JsonRpcResponse, RpcMethod,
    RpcParams,
};
use vaughan_dioxus::urls::ParsedUrl;

fn dapp(name: &str, url: &str) -> CustomDapp {
    CustomDapp { name: name.to_string(), url: url.to_string() }
}

fn rejected(msg: &str) -> Result<String, (i32, String)> {
    Err((4000, msg.to_string()))
}

#[test]
fn token_comparison() {
    assert!(constant_time_compare("abc", "abc"));
    assert!(!constant_time_compare("abc", "abd"));
    assert!(!constant_time_compare("abc", "abcd"));
    assert!(constant_time_compare("", ""));
    assert!(constant_time_compare("é", "é"));
}

#[test]
fn bearer_header() {
    assert!(bearer_authenticated(Some("Bearer s3cret"), "s3cret"));
    assert!(!bearer_authenticated(Some("Bearer s3cre"), "s3cret"));
    assert!(!bearer_authenticated(Some("bearer s3cret"), "s3cret"));
    assert!(!bearer_authenticated(Some("s3cret"), "s3cret"));
    assert!(!bearer_authenticated(None, "s3cret"));
}

#[test]
fn cors_origins() {
    assert_eq!(cors_origin_decision(b"tauri://localhost"), CorsDecision::Allow);
    assert_eq!(cors_origin_decision(b"http://localhost"), CorsDecision::Allow);
    assert_eq!(cors_origin_decision(b"http://localhost:5173"), CorsDecision::Allow);
    assert_eq!(cors_origin_decision(b"tauri://localhost:1"), CorsDecision::Allow);
    assert_eq!(cors_origin_decision(b"https://App.PulseX.com"), CorsDecision::CheckHost("app.pulsex.com".to_string()));
    assert_eq!(cors_origin_decision(b"null"), CorsDecision::Deny);
    assert_eq!(cors_origin_decision(&[0xff, 0xfe]), CorsDecision::Deny);
    assert_eq!(cors_after_parse(Err("x".to_string())), CorsDecision::Deny);
}

#[test]
fn responses_and_params() {
    let ok = JsonRpcResponse::result(7u32, 9u32);
    assert_eq!(ok.jsonrpc, "2.0");
    assert_eq!(ok.result, Some(9));
    assert!(ok.error.is_none());
    let bad = JsonRpcResponse::<u32>::error(7, -32601, "nope".to_string());
    assert!(bad.result.is_none());
    let e = bad.error.unwrap();
    assert_eq!((e.code, e.message.as_str(), e.data), (-32601, "nope", None));
    assert_eq!(params_payload(RpcParams::Array(vec![4u8, 5])), Ok(4));
    assert_eq!(params_payload::<u8>(RpcParams::Array(Vec::new())), Err("Params array is empty".to_string()));
    assert_eq!(params_payload(RpcParams::Other(3u8)), Ok(3));
}

#[test]
fn method_routing() {
    assert_eq!(route_rpc_method("vaughan_getNetworkInfo"), RpcMethod::GetNetworkInfo);
    assert_eq!(route_rpc_method("vaughan_signTransaction"), RpcMethod::SignTransaction);
    assert_eq!(route_rpc_method("vaughan_rpcForward"), RpcMethod::RpcForward);
    assert_eq!(route_rpc_method("eth_chainId"), RpcMethod::Unknown);
    assert_eq!(method_not_found("eth_chainId"), (-32601, "Method 'eth_chainId' not found".to_string()));
    assert_eq!(invalid_payload("chain_id missing"), (-32602, "Invalid payload: chain_id missing".to_string()));
}

#[test]
fn signing_outcomes() {
    assert_eq!(rpc_after_decision(SignKind::Message, ApprovalDecision::Approve), Ok(()));
    assert_eq!(
        rpc_after_decision(SignKind::Message, ApprovalDecision::Reject),
        Err((4001, "User rejected SignMessage request".to_string()))
    );
    assert_eq!(rpc_signing_outcome(Ok("0xsig".to_string())), Ok("0xsig".to_string()));
    assert_eq!(rpc_signing_outcome(Err("locked".to_string())), Err((4200, "locked".to_string())));
}

#[test]
fn trusted_host_checks() {
    assert_eq!(
        check_add_trusted_host("  My dApp ", " https://My.DApp.io/path "),
        Ok(("My dApp".to_string(), "https://My.DApp.io/path".to_string(), "my.dapp.io".to_string()))
    );
    assert_eq!(
        check_add_trusted_host("x", "http://localhost:8080"),
        Ok(("x".to_string(), "http://localhost:8080".to_string(), "localhost".to_string()))
    );
    assert_eq!(
        check_add_trusted_host("x", "http://evil.com").map(|_| ()),
        Err((4000, "HTTP protocol is only allowed for localhost/127.0.0.1".to_string()))
    );
    assert_eq!(
        check_add_trusted_host("x", "ftp://host.com").map(|_| ()),
        Err((4000, "Invalid scheme: only http/https allowed".to_string()))
    );
    assert_eq!(
        check_add_trusted_host("x", "nonsense").map(|_| ()),
        Err((4000, "Invalid URL: relative URL without a base".to_string()))
    );
    let no_host = ParsedUrl { scheme: "https".to_string(), host: None, port: None, serialized: String::new() };
    assert_eq!(trusted_host_after_parse(Ok(no_host)), rejected("URL does not contain a valid host"));
    let at = ParsedUrl { scheme: "https".to_string(), host: Some("a@b".to_string()), port: None, serialized: String::new() };
    assert_eq!(trusted_host_after_parse(Ok(at)), rejected("Host cannot contain user credentials (@)"));
}

#[test]
fn removing_trusted_hosts() {
    assert_eq!(host_to_remove("https://App.Example.org/x"), Some("app.example.org".to_string()));
    assert_eq!(host_to_remove("garbage"), None);
    assert_eq!(host_to_remove_after_parse(Err("e".to_string())), None);
    let mut list = vec![dapp("a", "https://a.org"), dapp("b", "https://b.org"), dapp("a2", "https://a.org")];
    remove_custom_trusted_dapps(&mut list, "https://a.org");
    assert_eq!(list, vec![dapp("b", "https://b.org")]);
}

#[test]
fn saving_trusted_dapps_is_idempotent() {
    let mut list = Vec::new();
    save_custom_trusted_dapp(&mut list, "A".to_string(), "https://a.org".to_string());
    save_custom_trusted_dapp(&mut list, "A again".to_string(), "https://a.org".to_string());
    assert_eq!(list, vec![dapp("A", "https://a.org")]);
}

#[test]
fn forwarding_defaults() {
    assert_eq!(forward_rpc_url(None), "https://rpc.pulsechain.com/");
    assert_eq!(forward_rpc_url(Some("http://node".to_string())), "http://node");
    assert_eq!(forward_error(None, None), (-32603, "RPC node error".to_string()));
    assert_eq!(forward_error(Some(-32000), Some("nonce too low".to_string())), (-32000, "nonce too low".to_string()));
    assert_eq!(forward_error(Some(4_294_967_297), None), (1, "RPC node error".to_string()));
}
