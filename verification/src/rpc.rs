//! The wallet's local JSON-RPC endpoint: bearer-token authentication, the CORS
//! origin rule, method routing, the trusted-host requests and the answers built
//! from outcomes.

use vstd::prelude::*;
use crate::approval::ApprovalDecision;
use crate::ipc::{rejection_message, SignKind};
use crate::send_form::opt_view;
use crate::text::{
    chars_of, chars_start_with_str, contains_seq, has_prefix, push_str, str_eq, string_from_range,
    to_lowercase, to_owned_string, trim_seq, trim_string, unicode_lowercase, chars_contain,
};
use crate::urls::{parse_outcome_view, parse_url, url_parse_result, ParsedUrl, ParsedUrlView};
use vstd::utf8::{decode_utf8, encode_utf8, valid_utf8};

verus! {

broadcast use vstd::string::group_string_axioms;

// ---------------------------------------------------------------------------
// Authentication
// ---------------------------------------------------------------------------

proof fn lemma_or_xor_zero(r: u8, x: u8, y: u8)
    ensures
        ((r | (x ^ y)) == 0) <==> (r == 0 && x == y),
{
    assert(((r | (x ^ y)) == 0) <==> (r == 0 && x == y)) by (bit_vector);
}

/// Compares two strings byte by byte, always reading every byte of equal-length
/// inputs; true exactly when they are equal.
pub fn constant_time_compare(a: &str, b: &str) -> (r: bool)
    ensures
        r == (a@ == b@),
{
    let a_bytes = a.as_bytes();
    let b_bytes = b.as_bytes();
    proof {
        vstd::utf8::encode_utf8_decode_utf8(a@);
        vstd::utf8::encode_utf8_decode_utf8(b@);
    }
    if a_bytes.len() != b_bytes.len() {
        return false;
    }
    let mut result: u8 = 0;
    let mut i: usize = 0;
    while i < a_bytes.len()
        invariant
            i <= a_bytes.len(),
            a_bytes.len() == b_bytes.len(),
            (result == 0) <==> (forall|j: int| 0 <= j < i ==> a_bytes@[j] == b_bytes@[j]),
        decreases a_bytes.len() - i,
    {
        let x = a_bytes[i];
        let y = b_bytes[i];
        proof {
            lemma_or_xor_zero(result, x, y);
        }
        result = result | (x ^ y);
        i += 1;
    }
    if result == 0 {
        assert(a_bytes@ =~= b_bytes@);
    }
    result == 0
}

/// A request is authenticated when its `Authorization` header is `Bearer ` followed
/// by exactly the server's token.
pub open spec fn bearer_ok_spec(auth: Option<Seq<char>>, token: Seq<char>) -> bool {
    match auth {
        Some(a) => has_prefix(a, "Bearer "@) && a.skip(7) == token,
        None => false,
    }
}

/// Whether the `Authorization` header (as text, when it is text) admits the request.
pub fn bearer_authenticated(auth: Option<&str>, token: &str) -> (r: bool)
    ensures
        r == bearer_ok_spec(
            match auth {
                Some(a) => Some(a@),
                None => None,
            },
            token@,
        ),
{
    proof {
        reveal_strlit("Bearer ");
    }
    match auth {
        None => false,
        Some(a) => {
            let v = chars_of(a);
            if !chars_start_with_str(&v, "Bearer ") {
                return false;
            }
            let provided = string_from_range(&v, 7, v.len());
            assert(v@.subrange(7, v@.len() as int) =~= a@.skip(7));
            constant_time_compare(provided.as_str(), token)
        },
    }
}

/// The header handed to the dApp browser, `Bearer ` and the token, is always accepted.
pub proof fn law_own_token_accepted(token: Seq<char>)
    ensures
        bearer_ok_spec(Some("Bearer "@ + token), token),
{
    reveal_strlit("Bearer ");
    let a = "Bearer "@ + token;
    assert(a.subrange(0, 7) =~= "Bearer "@);
    assert(a.skip(7) =~= token);
}

// ---------------------------------------------------------------------------
// CORS
// ---------------------------------------------------------------------------

/// What the CORS layer does with a request's `Origin`.
#[derive(Clone, Debug, PartialEq, Eq)]
pub enum CorsDecision {
    /// The wallet's own webviews and local development pages.
    Allow,
    /// Refused.
    Deny,
    /// Allowed exactly when this host is on the trusted-host whitelist.
    CheckHost(String),
}

/// `prefix` starts `s`.
pub open spec fn has_byte_prefix(s: Seq<u8>, prefix: Seq<u8>) -> bool {
    prefix.len() <= s.len() && s.subrange(0, prefix.len() as int) == prefix
}

/// An origin of the wallet's own webviews or of local development.
pub open spec fn local_origin(o: Seq<u8>) -> bool {
    o == encode_utf8("tauri://localhost"@) || o == encode_utf8("http://localhost"@) || has_byte_prefix(
        o,
        encode_utf8("http://localhost:"@),
    ) || has_byte_prefix(o, encode_utf8("tauri://localhost:"@))
}

/// The CORS rule given how the origin text parses.
pub open spec fn cors_after_parse_spec(parsed: Result<ParsedUrlView, Seq<char>>) -> Option<Option<Seq<char>>> {
    match parsed {
        Ok(p) => match p.host {
            Some(h) => Some(Some(h)),
            None => Some(None),
        },
        Err(_) => Some(None),
    }
}

/// The CORS rule: local origins pass; any other origin that is UTF-8 and parses as a
/// URL with a host passes when that host is whitelisted; the rest are refused.
/// (`None`: allowed; `Some(None)`: refused; `Some(Some(h))`: ask about host `h`.)
pub open spec fn cors_spec(origin: Seq<u8>) -> Option<Option<Seq<char>>> {
    if local_origin(origin) {
        None
    } else if !valid_utf8(origin) {
        Some(None)
    } else {
        cors_after_parse_spec(url_parse_result(decode_utf8(origin)))
    }
}

/// The abstract value of a CORS decision, in the shape of [`cors_spec`].
pub open spec fn cors_view(d: CorsDecision) -> Option<Option<Seq<char>>> {
    match d {
        CorsDecision::Allow => None,
        CorsDecision::Deny => Some(None),
        CorsDecision::CheckHost(h) => Some(Some(h@)),
    }
}

fn bytes_eq(a: &[u8], b: &[u8]) -> (r: bool)
    ensures
        r == (a@ == b@),
{
    if a.len() != b.len() {
        return false;
    }
    let mut i: usize = 0;
    while i < a.len()
        invariant
            i <= a.len(),
            a.len() == b.len(),
            forall|j: int| 0 <= j < i ==> a@[j] == b@[j],
        decreases a.len() - i,
    {
        if a[i] != b[i] {
            return false;
        }
        i += 1;
    }
    assert(a@ =~= b@);
    true
}

fn bytes_start_with(a: &[u8], prefix: &[u8]) -> (r: bool)
    ensures
        r == has_byte_prefix(a@, prefix@),
{
    if prefix.len() > a.len() {
        return false;
    }
    let mut i: usize = 0;
    while i < prefix.len()
        invariant
            i <= prefix.len() <= a.len(),
            forall|j: int| 0 <= j < i ==> a@[j] == prefix@[j],
        decreases prefix.len() - i,
    {
        if a[i] != prefix[i] {
            assert(a@.subrange(0, prefix@.len() as int)[i as int] != prefix@[i as int]);
            return false;
        }
        i += 1;
    }
    assert(a@.subrange(0, prefix@.len() as int) =~= prefix@);
    true
}

/// Reads bytes as UTF-8 text with `std::str::from_utf8`.
///
/// Trusted: the standard library accepts exactly the valid UTF-8 byte sequences and
/// then returns a string slice over those same bytes.
#[verifier::external_body]
fn str_from_utf8(b: &[u8]) -> (r: Option<&str>)
    ensures
        r is Some <==> valid_utf8(b@),
        r matches Some(s) ==> encode_utf8(s@) == b@,
{
    std::str::from_utf8(b).ok()
}

/// The CORS rule once the origin text has been parsed.
pub fn cors_after_parse(parsed: Result<ParsedUrl, String>) -> (d: CorsDecision)
    ensures
        cors_view(d) == cors_after_parse_spec(parse_outcome_view(parsed)),
{
    match parsed {
        Ok(p) => match p.host {
            Some(h) => CorsDecision::CheckHost(h),
            None => CorsDecision::Deny,
        },
        Err(_) => CorsDecision::Deny,
    }
}

/// Decides a request's `Origin` header (as raw bytes).
pub fn cors_origin_decision(origin: &[u8]) -> (d: CorsDecision)
    ensures
        cors_view(d) == cors_spec(origin@),
{
    if bytes_eq(origin, "tauri://localhost".as_bytes()) || bytes_eq(origin, "http://localhost".as_bytes())
        || bytes_start_with(origin, "http://localhost:".as_bytes()) || bytes_start_with(
        origin,
        "tauri://localhost:".as_bytes(),
    ) {
        return CorsDecision::Allow;
    }
    match str_from_utf8(origin) {
        None => CorsDecision::Deny,
        Some(s) => {
            proof {
                vstd::utf8::encode_utf8_decode_utf8(s@);
            }
            cors_after_parse(parse_url(s))
        },
    }
}

// ---------------------------------------------------------------------------
// Requests and answers
// ---------------------------------------------------------------------------

/// A JSON-RPC request; `V` is the JSON value type.
#[derive(Clone, Debug, PartialEq, Eq)]
pub struct JsonRpcRequest<V> {
    pub _jsonrpc: String,
    pub method: String,
    pub params: V,
    pub id: V,
}

/// The error object of a JSON-RPC answer.
#[derive(Clone, Debug, PartialEq, Eq)]
pub struct JsonRpcError<V> {
    pub code: i32,
    pub message: String,
    pub data: Option<V>,
}

/// A JSON-RPC answer: a result or an error, for the request `id`.
#[derive(Clone, Debug, PartialEq, Eq)]
pub struct JsonRpcResponse<V> {
    pub jsonrpc: String,
    pub result: Option<V>,
    pub error: Option<JsonRpcError<V>>,
    pub id: V,
}

impl<V> JsonRpcResponse<V> {
    /// A successful answer.
    pub fn result(id: V, val: V) -> (r: Self)
        ensures
            r.jsonrpc@ == "2.0"@,
            r.result == Some(val),
            r.error is None,
            r.id == id,
    {
        JsonRpcResponse { jsonrpc: to_owned_string("2.0"), result: Some(val), error: None, id }
    }

    /// An error answer with no data.
    pub fn error(id: V, code: i32, message: String) -> (r: Self)
        ensures
            r.jsonrpc@ == "2.0"@,
            r.result is None,
            r.error matches Some(e) && e.code == code && e.message == message && e.data is None,
            r.id == id,
    {
        JsonRpcResponse {
            jsonrpc: to_owned_string("2.0"),
            result: None,
            error: Some(JsonRpcError { code, message, data: None }),
            id,
        }
    }
}

/// The shape of a request's `params`: a positional array, or any other value.
#[derive(Clone, Debug, PartialEq, Eq)]
pub enum RpcParams<V> {
    Array(Vec<V>),
    Other(V),
}

/// The value a typed payload is read from: the first element of a positional array
/// (an empty array is refused), or the whole value otherwise.
pub fn params_payload<V>(params: RpcParams<V>) -> (r: Result<V, String>)
    ensures
        match params {
            RpcParams::Array(a) => if a@.len() == 0 {
                r matches Err(e) && e@ == "Params array is empty"@
            } else {
                r == Ok::<V, String>(a@[0])
            },
            RpcParams::Other(v) => r == Ok::<V, String>(v),
        },
{
    match params {
        RpcParams::Array(mut a) => {
            if a.len() == 0 {
                Err(to_owned_string("Params array is empty"))
            } else {
                let v = a.swap_remove(0);
                Ok(v)
            }
        },
        RpcParams::Other(v) => Ok(v),
    }
}

/// The methods the endpoint serves.
#[derive(Clone, Copy, Debug, PartialEq, Eq, Structural)]
pub enum RpcMethod {
    GetNetworkInfo,
    GetAccounts,
    SignMessage,
    SignTransaction,
    AddTrustedHost,
    RemoveTrustedHost,
    GetTrustedHosts,
    RpcForward,
    Unknown,
}

/// The method a name selects.
pub open spec fn route_spec(m: Seq<char>) -> RpcMethod {
    if m == "vaughan_getNetworkInfo"@ {
        RpcMethod::GetNetworkInfo
    } else if m == "vaughan_getAccounts"@ {
        RpcMethod::GetAccounts
    } else if m == "vaughan_signMessage"@ {
        RpcMethod::SignMessage
    } else if m == "vaughan_signTransaction"@ {
        RpcMethod::SignTransaction
    } else if m == "vaughan_addTrustedHost"@ {
        RpcMethod::AddTrustedHost
    } else if m == "vaughan_removeTrustedHost"@ {
        RpcMethod::RemoveTrustedHost
    } else if m == "vaughan_getTrustedHosts"@ {
        RpcMethod::GetTrustedHosts
    } else if m == "vaughan_rpcForward"@ {
        RpcMethod::RpcForward
    } else {
        RpcMethod::Unknown
    }
}

/// Routes a request by its method name.
pub fn route_rpc_method(method: &str) -> (r: RpcMethod)
    ensures
        r == route_spec(method@),
{
    if str_eq(method, "vaughan_getNetworkInfo") {
        RpcMethod::GetNetworkInfo
    } else if str_eq(method, "vaughan_getAccounts") {
        RpcMethod::GetAccounts
    } else if str_eq(method, "vaughan_signMessage") {
        RpcMethod::SignMessage
    } else if str_eq(method, "vaughan_signTransaction") {
        RpcMethod::SignTransaction
    } else if str_eq(method, "vaughan_addTrustedHost") {
        RpcMethod::AddTrustedHost
    } else if str_eq(method, "vaughan_removeTrustedHost") {
        RpcMethod::RemoveTrustedHost
    } else if str_eq(method, "vaughan_getTrustedHosts") {
        RpcMethod::GetTrustedHosts
    } else if str_eq(method, "vaughan_rpcForward") {
        RpcMethod::RpcForward
    } else {
        RpcMethod::Unknown
    }
}

/// The error for a method the endpoint does not serve (code -32601).
pub fn method_not_found(method: &str) -> (r: (i32, String))
    ensures
        r.0 == -32601,
        r.1@ == "Method '"@ + method@ + "' not found"@,
{
    let mut m = to_owned_string("Method '");
    push_str(&mut m, method);
    push_str(&mut m, "' not found");
    (-32601, m)
}

/// The error for a payload that failed its own validation (code -32602).
pub fn invalid_payload(validation_error: &str) -> (r: (i32, String))
    ensures
        r.0 == -32602,
        r.1@ == "Invalid payload: "@ + validation_error@,
{
    let mut m = to_owned_string("Invalid payload: ");
    push_str(&mut m, validation_error);
    (-32602, m)
}

/// After the user's decision on a signing request: an approval goes on to signing,
/// a rejection is answered with code 4001.
pub fn rpc_after_decision(kind: SignKind, decision: ApprovalDecision) -> (r: Result<(), (i32, String)>)
    ensures
        decision == ApprovalDecision::Approve ==> r is Ok,
        decision == ApprovalDecision::Reject ==> (r matches Err((c, m)) && c == 4001 && m@ == rejection_message(
            kind,
        )),
{
    match decision {
        ApprovalDecision::Approve => Ok(()),
        ApprovalDecision::Reject => match kind {
            SignKind::Message => Err((4001, to_owned_string("User rejected SignMessage request"))),
            SignKind::Transaction => Err((4001, to_owned_string("User rejected SignTransaction request"))),
        },
    }
}

/// A signer's outcome as an RPC outcome: failures are answered with code 4200.
pub fn rpc_signing_outcome(signed: Result<String, String>) -> (r: Result<String, (i32, String)>)
    ensures
        signed matches Ok(s) ==> r == Ok::<String, (i32, String)>(s),
        signed matches Err(e) ==> r == Err::<String, (i32, String)>((4200, e)),
{
    match signed {
        Ok(s) => Ok(s),
        Err(e) => Err((4200, e)),
    }
}

// ---------------------------------------------------------------------------
// Trusted hosts
// ---------------------------------------------------------------------------

/// The checks on a URL a dApp asks to trust, after parsing: it needs a host; the
/// scheme must be http or https; the lower-cased host may not hold `@`; plain http
/// only for localhost and 127.0.0.1. The result is the lower-cased host.
pub open spec fn trusted_host_spec(parsed: Result<ParsedUrlView, Seq<char>>) -> Result<Seq<char>, (i32, Seq<char>)> {
    match parsed {
        Err(e) => Err((4000, "Invalid URL: "@ + e)),
        Ok(p) => match p.host {
            None => Err((4000, "URL does not contain a valid host"@)),
            Some(h) => {
                let hl = unicode_lowercase(h);
                if p.scheme != "http"@ && p.scheme != "https"@ {
                    Err((4000, "Invalid scheme: only http/https allowed"@))
                } else if contains_seq(hl, "@"@) {
                    Err((4000, "Host cannot contain user credentials (@)"@))
                } else if p.scheme == "http"@ && hl != "localhost"@ && hl != "127.0.0.1"@ {
                    Err((4000, "HTTP protocol is only allowed for localhost/127.0.0.1"@))
                } else {
                    Ok(hl)
                }
            },
        },
    }
}

/// View of a host check outcome.
pub open spec fn host_outcome_view(r: Result<String, (i32, String)>) -> Result<Seq<char>, (i32, Seq<char>)> {
    match r {
        Ok(h) => Ok(h@),
        Err((c, m)) => Err((c, m@)),
    }
}

/// The trusted-host checks on a parsed URL.
pub fn trusted_host_after_parse(parsed: Result<ParsedUrl, String>) -> (r: Result<String, (i32, String)>)
    ensures
        host_outcome_view(r) == trusted_host_spec(parse_outcome_view(parsed)),
{
    match parsed {
        Err(e) => {
            let mut m = to_owned_string("Invalid URL: ");
            push_str(&mut m, e.as_str());
            Err((4000, m))
        },
        Ok(p) => match p.host {
            None => Err((4000, to_owned_string("URL does not contain a valid host"))),
            Some(h) => {
                let hl = to_lowercase(h.as_str());
                let scheme = p.scheme.as_str();
                let is_http = str_eq(scheme, "http");
                if !is_http && !str_eq(scheme, "https") {
                    return Err((4000, to_owned_string("Invalid scheme: only http/https allowed")));
                }
                let hv = chars_of(hl.as_str());
                let at = chars_of("@");
                if chars_contain(&hv, &at) {
                    return Err((4000, to_owned_string("Host cannot contain user credentials (@)")));
                }
                if is_http && !str_eq(hl.as_str(), "localhost") && !str_eq(hl.as_str(), "127.0.0.1") {
                    return Err((4000, to_owned_string("HTTP protocol is only allowed for localhost/127.0.0.1")));
                }
                Ok(hl)
            },
        },
    }
}

/// An add-trusted-host request, checked: `(name, url, host)` with name and URL
/// trimmed and the host lower-cased, or the error code and text.
pub fn check_add_trusted_host(name: &str, url: &str) -> (r: Result<(String, String, String), (i32, String)>)
    ensures
        match r {
            Ok((n, u, h)) => n@ == trim_seq(name@) && u@ == trim_seq(url@) && trusted_host_spec(
                url_parse_result(trim_seq(url@)),
            ) == Ok::<Seq<char>, (i32, Seq<char>)>(h@),
            Err((c, m)) => trusted_host_spec(url_parse_result(trim_seq(url@))) == Err::<
                Seq<char>,
                (i32, Seq<char>),
            >((c, m@)),
        },
{
    let n = trim_string(name);
    let u = trim_string(url);
    match trusted_host_after_parse(parse_url(u.as_str())) {
        Ok(h) => Ok((n, u, h)),
        Err(e) => Err(e),
    }
}

/// The host whose trust a remove request withdraws: the URL's host, lower-cased,
/// when it parses and has one.
pub open spec fn host_to_remove_spec(parsed: Result<ParsedUrlView, Seq<char>>) -> Option<Seq<char>> {
    match parsed {
        Ok(p) => match p.host {
            Some(h) => Some(unicode_lowercase(h)),
            None => None,
        },
        Err(_) => None,
    }
}

/// The host to withdraw, once the URL was parsed.
pub fn host_to_remove_after_parse(parsed: Result<ParsedUrl, String>) -> (r: Option<String>)
    ensures
        opt_view(r) == host_to_remove_spec(parse_outcome_view(parsed)),
{
    match parsed {
        Ok(p) => match p.host {
            Some(h) => Some(to_lowercase(h.as_str())),
            None => None,
        },
        Err(_) => None,
    }
}

/// The host a remove-trusted-host request withdraws.
pub fn host_to_remove(url: &str) -> (r: Option<String>)
    ensures
        opt_view(r) == host_to_remove_spec(url_parse_result(url@)),
{
    host_to_remove_after_parse(parse_url(url))
}

/// A saved custom dApp: display name and URL.
#[derive(Clone, Debug, PartialEq, Eq)]
pub struct CustomDapp {
    pub name: String,
    pub url: String,
}

/// Some saved dApp has this URL.
pub open spec fn has_dapp_url(list: Seq<CustomDapp>, url: Seq<char>) -> bool {
    exists|i: int| 0 <= i < list.len() && (#[trigger] list[i]).url@ == url
}

/// The saved dApps without those with this URL, in order.
pub open spec fn without_dapp_url(list: Seq<CustomDapp>, url: Seq<char>) -> Seq<CustomDapp>
    decreases list.len(),
{
    if list.len() == 0 {
        Seq::empty()
    } else {
        let r = without_dapp_url(list.drop_last(), url);
        if list.last().url@ == url {
            r
        } else {
            r.push(list.last())
        }
    }
}

/// Saves a trusted dApp unless one with the same URL is saved already.
pub fn save_custom_trusted_dapp(list: &mut Vec<CustomDapp>, name: String, url: String)
    ensures
        has_dapp_url(old(list)@, url@) ==> final(list)@ == old(list)@,
        !has_dapp_url(old(list)@, url@) ==> final(list)@ == old(list)@.push(CustomDapp { name: name, url: url }),
{
    let mut i: usize = 0;
    while i < list.len()
        invariant
            i <= list.len(),
            forall|j: int| 0 <= j < i ==> (#[trigger] list@[j]).url@ != url@,
        decreases list.len() - i,
    {
        if str_eq(list[i].url.as_str(), url.as_str()) {
            return;
        }
        i += 1;
    }
    list.push(CustomDapp { name, url });
}

fn copy_dapp(d: &CustomDapp) -> (r: CustomDapp)
    ensures
        r == *d,
{
    CustomDapp { name: d.name.clone(), url: d.url.clone() }
}

/// Removes every saved dApp with this URL.
pub fn remove_custom_trusted_dapps(list: &mut Vec<CustomDapp>, url: &str)
    ensures
        final(list)@ == without_dapp_url(old(list)@, url@),
{
    let mut kept: Vec<CustomDapp> = Vec::new();
    let mut i: usize = 0;
    while i < list.len()
        invariant
            i <= list.len(),
            list@ == old(list)@,
            kept@ == without_dapp_url(list@.take(i as int), url@),
        decreases list.len() - i,
    {
        assert(list@.take(i + 1).drop_last() =~= list@.take(i as int));
        if !str_eq(list[i].url.as_str(), url) {
            kept.push(copy_dapp(&list[i]));
        }
        i += 1;
    }
    assert(list@.take(list.len() as int) =~= list@);
    *list = kept;
}

proof fn lemma_without_has_none(list: Seq<CustomDapp>, url: Seq<char>)
    ensures
        !has_dapp_url(without_dapp_url(list, url), url),
        forall|i: int|
            0 <= i < list.len() && (#[trigger] list[i]).url@ != url ==> without_dapp_url(list, url).contains(list[i]),
    decreases list.len(),
{
    if list.len() > 0 {
        let p = list.drop_last();
        lemma_without_has_none(p, url);
        let r = without_dapp_url(p, url);
        if list.last().url@ != url {
            let r2 = r.push(list.last());
            assert forall|i: int| 0 <= i < r2.len() implies (#[trigger] r2[i]).url@ != url by {
                if i < r.len() {
                    assert(r2[i] == r[i]);
                }
            }
            assert forall|i: int| 0 <= i < list.len() && (#[trigger] list[i]).url@ != url implies r2.contains(list[i]) by {
                if i < p.len() {
                    assert(p[i] == list[i]);
                    assert(r.contains(list[i]));
                    let k = choose|k: int| 0 <= k < r.len() && r[k] == list[i];
                    assert(r2[k] == list[i]);
                } else {
                    assert(r2[r.len() as int] == list[i]);
                }
            }
        } else {
            assert forall|i: int| 0 <= i < list.len() && (#[trigger] list[i]).url@ != url implies r.contains(list[i]) by {
                assert(p[i] == list[i]);
            }
        }
    }
}

/// After a remove request no saved dApp has the URL, and every other saved dApp stays.
pub proof fn law_remove_withdraws_url(list: Seq<CustomDapp>, url: Seq<char>)
    ensures
        !has_dapp_url(without_dapp_url(list, url), url),
        forall|i: int|
            0 <= i < list.len() && (#[trigger] list[i]).url@ != url ==> without_dapp_url(list, url).contains(list[i]),
{
    lemma_without_has_none(list, url);
}

/// Saving a dApp leaves one saved with its URL, and saving it again changes nothing.
pub proof fn law_save_idempotent(list: Seq<CustomDapp>, d: CustomDapp)
    ensures
        has_dapp_url(if has_dapp_url(list, d.url@) { list } else { list.push(d) }, d.url@),
        ({
            let once = if has_dapp_url(list, d.url@) { list } else { list.push(d) };
            (if has_dapp_url(once, d.url@) { once } else { once.push(d) }) == once
        }),
{
    if !has_dapp_url(list, d.url@) {
        let l2 = list.push(d);
        assert(l2[list.len() as int] == d);
    }
}

// ---------------------------------------------------------------------------
// Forwarding to the network's node
// ---------------------------------------------------------------------------

/// The node a forwarded call goes to: the active network's RPC URL, else PulseChain's.
pub fn forward_rpc_url(active: Option<String>) -> (r: String)
    ensures
        active matches Some(u) ==> r == u,
        active is None ==> r@ == "https://rpc.pulsechain.com/"@,
{
    match active {
        Some(u) => u,
        None => to_owned_string("https://rpc.pulsechain.com/"),
    }
}

/// The error a node's error object is answered with: its code (cut to 32 bits)
/// else -32603, its message else `RPC node error`.
pub fn forward_error(code: Option<i64>, message: Option<String>) -> (r: (i32, String))
    ensures
        r.0 == (match code {
            Some(c) => c as i32,
            None => -32603i32,
        }),
        message matches Some(m) ==> r.1 == m,
        message is None ==> r.1@ == "RPC node error"@,
{
    let c: i64 = match code {
        Some(c) => c,
        None => -32603,
    };
    let m = match message {
        Some(m) => m,
        None => to_owned_string("RPC node error"),
    };
    (c as i32, m)
}

/// The endpoint's method names.
pub open spec fn is_served_method(m: Seq<char>) -> bool {
    m == "vaughan_getNetworkInfo"@ || m == "vaughan_getAccounts"@ || m == "vaughan_signMessage"@
        || m == "vaughan_signTransaction"@ || m == "vaughan_addTrustedHost"@ || m == "vaughan_removeTrustedHost"@
        || m == "vaughan_getTrustedHosts"@ || m == "vaughan_rpcForward"@
}

/// Each served method name routes to its own handler, and exactly the other names
/// are answered with "method not found".
pub proof fn law_each_method_routes_to_its_handler(m: Seq<char>)
    ensures
        route_spec("vaughan_getNetworkInfo"@) == RpcMethod::GetNetworkInfo,
        route_spec("vaughan_getAccounts"@) == RpcMethod::GetAccounts,
        route_spec("vaughan_signMessage"@) == RpcMethod::SignMessage,
        route_spec("vaughan_signTransaction"@) == RpcMethod::SignTransaction,
        route_spec("vaughan_addTrustedHost"@) == RpcMethod::AddTrustedHost,
        route_spec("vaughan_removeTrustedHost"@) == RpcMethod::RemoveTrustedHost,
        route_spec("vaughan_getTrustedHosts"@) == RpcMethod::GetTrustedHosts,
        route_spec("vaughan_rpcForward"@) == RpcMethod::RpcForward,
        (route_spec(m) == RpcMethod::Unknown) == !is_served_method(m),
{
    reveal_strlit("vaughan_getNetworkInfo");
    reveal_strlit("vaughan_getAccounts");
    reveal_strlit("vaughan_signMessage");
    reveal_strlit("vaughan_signTransaction");
    reveal_strlit("vaughan_addTrustedHost");
    reveal_strlit("vaughan_removeTrustedHost");
    reveal_strlit("vaughan_getTrustedHosts");
    reveal_strlit("vaughan_rpcForward");
    assert("vaughan_getNetworkInfo"@.len() == 22 && "vaughan_getNetworkInfo"@[8] == 'g' && "vaughan_getNetworkInfo"@[9] == 'e' && "vaughan_getNetworkInfo"@[10] == 't');
    assert("vaughan_getAccounts"@.len() == 19 && "vaughan_getAccounts"@[8] == 'g' && "vaughan_getAccounts"@[9] == 'e' && "vaughan_getAccounts"@[10] == 't');
    assert("vaughan_signMessage"@.len() == 19 && "vaughan_signMessage"@[8] == 's' && "vaughan_signMessage"@[9] == 'i' && "vaughan_signMessage"@[10] == 'g');
    assert("vaughan_signTransaction"@.len() == 23 && "vaughan_signTransaction"@[8] == 's' && "vaughan_signTransaction"@[9] == 'i' && "vaughan_signTransaction"@[10] == 'g');
    assert("vaughan_addTrustedHost"@.len() == 22 && "vaughan_addTrustedHost"@[8] == 'a' && "vaughan_addTrustedHost"@[9] == 'd' && "vaughan_addTrustedHost"@[10] == 'd');
    assert("vaughan_removeTrustedHost"@.len() == 25 && "vaughan_removeTrustedHost"@[8] == 'r' && "vaughan_removeTrustedHost"@[9] == 'e' && "vaughan_removeTrustedHost"@[10] == 'm');
    assert("vaughan_getTrustedHosts"@.len() == 23 && "vaughan_getTrustedHosts"@[8] == 'g' && "vaughan_getTrustedHosts"@[9] == 'e' && "vaughan_getTrustedHosts"@[10] == 't');
    assert("vaughan_rpcForward"@.len() == 18 && "vaughan_rpcForward"@[8] == 'r' && "vaughan_rpcForward"@[9] == 'p' && "vaughan_rpcForward"@[10] == 'c');
}

/// The endpoint admits a request exactly when its `Authorization` header is
/// `Bearer ` followed by the server's token, character for character.
pub proof fn law_bearer_exact(auth: Option<Seq<char>>, token: Seq<char>)
    ensures
        bearer_ok_spec(auth, token) <==> auth == Some("Bearer "@ + token),
{
    reveal_strlit("Bearer ");
    if let Some(a) = auth {
        if bearer_ok_spec(auth, token) {
            assert(a =~= "Bearer "@ + token) by {
                assert(a.subrange(0, 7) == "Bearer "@);
                assert forall|i: int| 0 <= i < a.len() implies a[i] == ("Bearer "@ + token)[i] by {
                    if i < 7 {
                        assert(a.subrange(0, 7)[i] == a[i]);
                    } else {
                        assert(a.skip(7)[i - 7] == a[i]);
                    }
                }
            }
        }
        if a == "Bearer "@ + token {
            law_own_token_accepted(token);
        }
    }
}

} // verus!
