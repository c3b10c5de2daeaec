//! The wallet side of the dApp-browser IPC channel: the handshake and its gate,
//! the answers to each request kind, and the account list shown to dApps.

use vstd::prelude::*;
use crate::approval::ApprovalDecision;
use crate::hexcodec::{hex_bytes, hex_decodable, hex_decode, strip_0x_all, strip_prefix_all};
use crate::send_form::{eq_ignore_ascii_case, opt_view};
use crate::text::{
    chars_of, has_prefix, lower_seq, push_str, string_from_range, str_eq, to_owned_string,
    trim_chars, trim_seq, u64_to_decimal, decimal_seq, chars_start_with_str, to_lowercase,
    unicode_lowercase,
};
use crate::dapp_lists::{contains_string, lemma_strings_view_push, strings_view};
use vstd::utf8::encode_utf8;

verus! {

broadcast use vstd::string::group_string_axioms;

// ---------------------------------------------------------------------------
// Handshake
// ---------------------------------------------------------------------------

/// Whether a dApp browser has completed the IPC handshake since the last reset.
pub struct HandshakeGate {
    pub done: bool,
}

impl HandshakeGate {
    /// A gate that is not yet open.
    pub fn new() -> (g: HandshakeGate)
        ensures
            !g.done,
    {
        HandshakeGate { done: false }
    }

    /// A valid handshake completed: waiters may go on.
    pub fn mark_done(&mut self)
        ensures
            final(self).done,
    {
        self.done = true;
    }
}

/// Closes the handshake gate before a new dApp browser is launched.
pub fn reset_dapp_browser_ipc_handshake_gate(gate: &mut HandshakeGate)
    ensures
        !final(gate).done,
{
    gate.done = false;
}

/// One step of waiting for the handshake.
#[derive(Clone, Copy, Debug, PartialEq, Eq, Structural)]
pub enum HandshakeWait {
    /// The handshake completed.
    Ready,
    /// The time allowed ran out first.
    TimedOut,
    /// Sleep for at most this many milliseconds (or until woken), then look again.
    WaitFor(u64),
}

/// What a waiter does, given whether the handshake is done and the milliseconds left
/// before its deadline.
pub fn handshake_wait_step(done: bool, left_ms: u64) -> (w: HandshakeWait)
    ensures
        done ==> w == HandshakeWait::Ready,
        !done && left_ms == 0 ==> w == HandshakeWait::TimedOut,
        !done && left_ms > 0 ==> w == HandshakeWait::WaitFor(left_ms),
{
    if done {
        HandshakeWait::Ready
    } else if left_ms == 0 {
        HandshakeWait::TimedOut
    } else {
        HandshakeWait::WaitFor(left_ms)
    }
}

/// Why a handshake was refused; the connection is then closed without an answer.
#[derive(Clone, Copy, Debug, PartialEq, Eq, Structural)]
pub enum HandshakeRejection {
    /// The handshake's own validation failed.
    Invalid,
    /// The protocol version differs from the wallet's.
    VersionMismatch,
    /// The token is not the one the wallet handed to the browser.
    TokenRejected,
}

/// The handshake checks, in order: its own validation (`validation`), the protocol
/// version, then the token.
pub open spec fn handshake_verdict_spec(
    version: u32,
    token: Seq<char>,
    validation_ok: bool,
    expected_version: u32,
    expected_token: Seq<char>,
) -> Result<(), HandshakeRejection> {
    if !validation_ok {
        Err(HandshakeRejection::Invalid)
    } else if version != expected_version {
        Err(HandshakeRejection::VersionMismatch)
    } else if token != expected_token {
        Err(HandshakeRejection::TokenRejected)
    } else {
        Ok(())
    }
}

/// Decides whether a handshake line is accepted.
pub fn check_handshake(
    version: u32,
    token: &str,
    validation: Result<(), String>,
    expected_version: u32,
    expected_token: &str,
) -> (r: Result<(), HandshakeRejection>)
    ensures
        r == handshake_verdict_spec(version, token@, validation is Ok, expected_version, expected_token@),
{
    if validation.is_err() {
        Err(HandshakeRejection::Invalid)
    } else if version != expected_version {
        Err(HandshakeRejection::VersionMismatch)
    } else if !str_eq(token, expected_token) {
        Err(HandshakeRejection::TokenRejected)
    } else {
        Ok(())
    }
}

/// `s` without its trailing `\r` and `\n` characters.
pub open spec fn trim_line_end_spec(s: Seq<char>) -> Seq<char>
    decreases s.len(),
{
    if s.len() > 0 && (s.last() == '\r' || s.last() == '\n') {
        trim_line_end_spec(s.drop_last())
    } else {
        s
    }
}

/// A line read from the socket without its line terminators.
pub fn trim_line_end(line: &str) -> (r: String)
    ensures
        r@ == trim_line_end_spec(line@),
{
    let v = chars_of(line);
    let mut end: usize = v.len();
    assert(v@.take(end as int) =~= v@);
    while end > 0 && (v[end - 1] == '\r' || v[end - 1] == '\n')
        invariant
            end <= v.len(),
            trim_line_end_spec(v@) == trim_line_end_spec(v@.take(end as int)),
        decreases end,
    {
        assert(v@.take(end as int).drop_last() =~= v@.take(end - 1));
        end -= 1;
    }
    assert(v@.subrange(0, end as int) =~= v@.take(end as int));
    string_from_range(&v, 0, end)
}

// ---------------------------------------------------------------------------
// Answers
// ---------------------------------------------------------------------------

/// An account offered to dApps.
#[derive(Clone, Debug, PartialEq, Eq)]
pub struct AccountInfo {
    pub address: String,
    pub name: Option<String>,
}

/// The abstract value of an [`AccountInfo`].
pub struct AccountInfoView {
    pub address: Seq<char>,
    pub name: Option<Seq<char>>,
}

impl View for AccountInfo {
    type V = AccountInfoView;

    open spec fn view(&self) -> AccountInfoView {
        AccountInfoView { address: self.address@, name: opt_view(self.name) }
    }
}

/// The network a dApp sees.
#[derive(Clone, Debug, PartialEq, Eq)]
pub struct NetworkInfo {
    pub chain_id: u64,
    pub name: String,
}

/// A configured network: its id, display name and chain id.
#[derive(Clone, Debug, PartialEq, Eq)]
pub struct NetworkEntry {
    pub id: String,
    pub name: String,
    pub chain_id: u64,
}

/// The body of an IPC answer.
#[derive(Clone, Debug, PartialEq, Eq)]
pub enum IpcResponse {
    Accounts(Vec<AccountInfo>),
    NetworkInfo(NetworkInfo),
    SignedMessage(String),
    SignedTransaction(String),
    Error { code: u32, message: String },
}

/// The answer is the error `code` with text `message`.
pub open spec fn is_ipc_error(r: IpcResponse, code: u32, message: Seq<char>) -> bool {
    r matches IpcResponse::Error { code: c, message: m } && c == code && m@ == message
}

/// An error answer.
pub fn ipc_error(code: u32, message: String) -> (r: IpcResponse)
    ensures
        is_ipc_error(r, code, message@),
{
    IpcResponse::Error { code, message }
}

/// Text of an answer to a request that failed its own validation.
pub fn validation_error_message(e: &str) -> (r: String)
    ensures
        r@ == "Invalid request: "@ + e@,
{
    let mut s = to_owned_string("Invalid request: ");
    push_str(&mut s, e);
    s
}

/// Answer to a request that failed its own validation (code 32602).
pub fn invalid_request_response(e: &str) -> (r: IpcResponse)
    ensures
        is_ipc_error(r, 32602, "Invalid request: "@ + e@),
{
    ipc_error(32602, validation_error_message(e))
}

/// Which signing request a decision answers.
#[derive(Clone, Copy, Debug, PartialEq, Eq, Structural)]
pub enum SignKind {
    Message,
    Transaction,
}

/// Text of a refusal by the user.
pub open spec fn rejection_message(kind: SignKind) -> Seq<char> {
    match kind {
        SignKind::Message => "User rejected SignMessage request"@,
        SignKind::Transaction => "User rejected SignTransaction request"@,
    }
}

/// Answer to a signing request the user rejected (code 4001).
pub fn rejection_response(kind: SignKind) -> (r: IpcResponse)
    ensures
        is_ipc_error(r, 4001, rejection_message(kind)),
{
    match kind {
        SignKind::Message => ipc_error(4001, to_owned_string("User rejected SignMessage request")),
        SignKind::Transaction => ipc_error(4001, to_owned_string("User rejected SignTransaction request")),
    }
}

/// After the user's decision: an approval goes on to signing (`None`), a rejection
/// is answered with code 4001.
pub fn decision_response(kind: SignKind, decision: ApprovalDecision) -> (r: Option<IpcResponse>)
    ensures
        decision == ApprovalDecision::Approve ==> r is None,
        decision == ApprovalDecision::Reject ==> (r matches Some(e) && is_ipc_error(
            e,
            4001,
            rejection_message(kind),
        )),
{
    match decision {
        ApprovalDecision::Approve => None,
        ApprovalDecision::Reject => Some(rejection_response(kind)),
    }
}

/// Answer to typed-data signing, which the wallet does not offer (code 4200).
pub fn not_implemented_response() -> (r: IpcResponse)
    ensures
        is_ipc_error(r, 4200, "Method not implemented in wallet yet"@),
{
    ipc_error(4200, to_owned_string("Method not implemented in wallet yet"))
}

/// Answer to a signing request while no session password is held (code 4100).
pub fn locked_wallet_response() -> (r: IpcResponse)
    ensures
        is_ipc_error(r, 4100, "Wallet is locked: import/export password required before signing"@),
{
    ipc_error(4100, to_owned_string("Wallet is locked: import/export password required before signing"))
}

/// Before an approved request is signed: the session password when one is held;
/// without one the wallet is locked and the request is answered with code 4100
/// without loading a signer.
pub fn session_password_for_signing(session_password: Option<String>) -> (r: Result<String, IpcResponse>)
    ensures
        session_password matches Some(p) ==> (r matches Ok(q) && q == p),
        session_password is None ==> (r matches Err(e) && is_ipc_error(
            e,
            4100,
            "Wallet is locked: import/export password required before signing"@,
        )),
{
    match session_password {
        Some(p) => Ok(p),
        None => Err(locked_wallet_response()),
    }
}

/// Answer when the signer for the request's account cannot be loaded (code 4100,
/// with the loader's message).
pub fn signer_unavailable_response(user_message: String) -> (r: IpcResponse)
    ensures
        is_ipc_error(r, 4100, user_message@),
{
    ipc_error(4100, user_message)
}

/// Prefix of a signing failure's text.
pub open spec fn sign_failure_prefix(kind: SignKind) -> Seq<char> {
    match kind {
        SignKind::Message => "SignMessage failed: "@,
        SignKind::Transaction => "SignTransaction failed: "@,
    }
}

/// Answer carrying a signer's outcome: the signature (message) or raw transaction,
/// or the failure with code 4200.
pub fn signed_response(kind: SignKind, signed: Result<String, String>) -> (r: IpcResponse)
    ensures
        signed matches Ok(s) ==> (match kind {
            SignKind::Message => r matches IpcResponse::SignedMessage(x) && x@ == s@,
            SignKind::Transaction => r matches IpcResponse::SignedTransaction(x) && x@ == s@,
        }),
        signed matches Err(e) ==> is_ipc_error(r, 4200, sign_failure_prefix(kind) + e@),
{
    match signed {
        Ok(s) => match kind {
            SignKind::Message => IpcResponse::SignedMessage(s),
            SignKind::Transaction => IpcResponse::SignedTransaction(s),
        },
        Err(e) => {
            let mut m = match kind {
                SignKind::Message => to_owned_string("SignMessage failed: "),
                SignKind::Transaction => to_owned_string("SignTransaction failed: "),
            };
            push_str(&mut m, e.as_str());
            ipc_error(4200, m)
        },
    }
}

/// The network reported to dApps: the active one, or Ethereum mainnet when none is set.
pub fn network_info_or_default(active: Option<NetworkInfo>) -> (r: NetworkInfo)
    ensures
        active matches Some(n) ==> r.chain_id == n.chain_id && r.name@ == n.name@,
        active is None ==> r.chain_id == 1 && r.name@ == "Ethereum"@,
{
    match active {
        Some(n) => n,
        None => NetworkInfo { chain_id: 1, name: to_owned_string("Ethereum") },
    }
}

/// Position of the first configured network with the given chain id, or `nets.len()`.
pub open spec fn chain_index(nets: Seq<NetworkEntry>, chain_id: u64) -> int
    decreases nets.len(),
{
    if nets.len() == 0 {
        0
    } else if nets[0].chain_id == chain_id {
        0
    } else {
        1 + chain_index(nets.drop_first(), chain_id)
    }
}

proof fn lemma_chain_index(nets: Seq<NetworkEntry>, chain_id: u64, k: int)
    requires
        0 <= k <= nets.len(),
        forall|i: int| 0 <= i < k ==> #[trigger] nets[i].chain_id != chain_id,
        k == nets.len() || nets[k].chain_id == chain_id,
    ensures
        chain_index(nets, chain_id) == k,
    decreases k,
{
    if k > 0 {
        let t = nets.drop_first();
        assert forall|i: int| 0 <= i < k - 1 implies #[trigger] t[i].chain_id != chain_id by {
            assert(t[i] == nets[i + 1]);
        }
        lemma_chain_index(t, chain_id, k - 1);
    }
}

/// Text of a switch to a chain the wallet does not know.
pub open spec fn unknown_chain_message(chain_id: u64) -> Seq<char> {
    "Chain id "@ + decimal_seq(chain_id as nat) + " is not in Vaughan's network list. Add it in Settings, then retry."@
}

/// The network a chain switch selects: the first with that chain id; an unknown
/// chain is answered with code 4902.
pub fn switch_chain_target(nets: &Vec<NetworkEntry>, chain_id: u64) -> (r: Result<usize, IpcResponse>)
    ensures
        chain_index(nets@, chain_id) < nets.len() ==> r == Ok::<usize, IpcResponse>(
            chain_index(nets@, chain_id) as usize,
        ),
        chain_index(nets@, chain_id) == nets.len() ==> (r matches Err(e) && is_ipc_error(
            e,
            4902,
            unknown_chain_message(chain_id),
        )),
{
    let mut i: usize = 0;
    while i < nets.len()
        invariant
            i <= nets.len(),
            forall|j: int| 0 <= j < i ==> #[trigger] nets@[j].chain_id != chain_id,
        decreases nets.len() - i,
    {
        if nets[i].chain_id == chain_id {
            proof {
                lemma_chain_index(nets@, chain_id, i as int);
            }
            return Ok(i);
        }
        i += 1;
    }
    proof {
        lemma_chain_index(nets@, chain_id, i as int);
    }
    let mut m = to_owned_string("Chain id ");
    let d = u64_to_decimal(chain_id);
    push_str(&mut m, d.as_str());
    push_str(&mut m, " is not in Vaughan's network list. Add it in Settings, then retry.");
    Err(ipc_error(4902, m))
}

/// Answer to a chain switch once the network service was asked to activate `net`:
/// its failure text with code 4200, else the new network.
pub fn switch_chain_outcome(net: &NetworkEntry, activation: Result<(), String>) -> (r: IpcResponse)
    ensures
        activation matches Err(e) ==> is_ipc_error(r, 4200, e@),
        activation is Ok ==> (r matches IpcResponse::NetworkInfo(n) && n.chain_id == net.chain_id
            && n.name@ == net.name@),
{
    match activation {
        Err(e) => ipc_error(4200, e),
        Ok(()) => IpcResponse::NetworkInfo(NetworkInfo { chain_id: net.chain_id, name: net.name.clone() }),
    }
}

/// Bytes that get signed for a message: hex after a `0x` prefix (every leading `0x`
/// removed), else the message's UTF-8 bytes.
pub open spec fn message_bytes_spec(message: Seq<char>) -> Result<Seq<u8>, Seq<char>> {
    if has_prefix(message, "0x"@) {
        let raw = strip_prefix_all(message, "0x"@);
        if hex_decodable(raw) {
            Ok(hex_bytes(raw))
        } else {
            Err("Invalid hex message payload"@)
        }
    } else {
        Ok(encode_utf8(message))
    }
}

fn utf8_bytes(s: &str) -> (r: Vec<u8>)
    ensures
        r@ == encode_utf8(s@),
{
    let b = s.as_bytes();
    let mut r: Vec<u8> = Vec::new();
    let mut i: usize = 0;
    while i < b.len()
        invariant
            i <= b.len(),
            b@ == encode_utf8(s@),
            r@ == b@.take(i as int),
        decreases b.len() - i,
    {
        r.push(b[i]);
        assert(b@.take(i + 1) =~= b@.take(i as int).push(b@[i as int]));
        i += 1;
    }
    assert(b@.take(b.len() as int) =~= b@);
    r
}

/// The bytes a personal-sign request signs.
pub fn message_bytes_for_signing(message: &str) -> (r: Result<Vec<u8>, String>)
    ensures
        match r {
            Ok(b) => message_bytes_spec(message@) == Ok::<Seq<u8>, Seq<char>>(b@),
            Err(e) => message_bytes_spec(message@) == Err::<Seq<u8>, Seq<char>>(e@),
        },
{
    let v = chars_of(message);
    if chars_start_with_str(&v, "0x") {
        let raw = strip_0x_all(message);
        match hex_decode(raw.as_str()) {
            Some(b) => Ok(b),
            None => Err(to_owned_string("Invalid hex message payload")),
        }
    } else {
        Ok(utf8_bytes(message))
    }
}

/// Position of the first account whose address equals `from` (trimmed), ignoring
/// ASCII case, or `addresses.len()`.
pub open spec fn signing_account_index(addresses: Seq<Seq<char>>, from: Seq<char>) -> int
    decreases addresses.len(),
{
    if addresses.len() == 0 {
        0
    } else if lower_seq(addresses[0]) == lower_seq(trim_seq(from)) {
        0
    } else {
        1 + signing_account_index(addresses.drop_first(), from)
    }
}

proof fn lemma_signing_account_index(addresses: Seq<Seq<char>>, from: Seq<char>, k: int)
    requires
        0 <= k <= addresses.len(),
        forall|i: int| 0 <= i < k ==> lower_seq(#[trigger] addresses[i]) != lower_seq(trim_seq(from)),
        k == addresses.len() || lower_seq(addresses[k]) == lower_seq(trim_seq(from)),
    ensures
        signing_account_index(addresses, from) == k,
    decreases k,
{
    if k > 0 {
        let t = addresses.drop_first();
        assert forall|i: int| 0 <= i < k - 1 implies lower_seq(#[trigger] t[i]) != lower_seq(trim_seq(from)) by {
            assert(t[i] == addresses[i + 1]);
        }
        lemma_signing_account_index(t, from, k - 1);
    }
}

/// The wallet account that signs a transaction request from `from`.
pub fn find_signing_account(addresses: &Vec<String>, from: &str) -> (r: Result<usize, String>)
    ensures
        ({
            let av = addresses@.map_values(|s: String| s@);
            let i = signing_account_index(av, from@);
            &&& i < av.len() ==> r == Ok::<usize, String>(i as usize)
            &&& i == av.len() ==> (r matches Err(e) && e@ == "Requested address not found in wallet accounts"@)
        }),
{
    let ghost av = addresses@.map_values(|s: String| s@);
    let needle_v = trim_chars(from);
    let needle = crate::text::string_from_chars(&needle_v);
    let mut i: usize = 0;
    while i < addresses.len()
        invariant
            i <= addresses.len(),
            av == addresses@.map_values(|s: String| s@),
            needle@ == trim_seq(from@),
            forall|j: int| 0 <= j < i ==> lower_seq(#[trigger] av[j]) != lower_seq(trim_seq(from@)),
        decreases addresses.len() - i,
    {
        if eq_ignore_ascii_case(addresses[i].as_str(), needle.as_str()) {
            proof {
                lemma_signing_account_index(av, from@, i as int);
            }
            return Ok(i);
        }
        assert(av[i as int] == addresses@[i as int]@);
        i += 1;
    }
    proof {
        lemma_signing_account_index(av, from@, i as int);
    }
    Err(to_owned_string("Requested address not found in wallet accounts"))
}

// ---------------------------------------------------------------------------
// Accounts offered to dApps
// ---------------------------------------------------------------------------

/// The key by which two accounts are the same: the address, lower-cased.
pub open spec fn account_key(entry: (Seq<char>, Seq<char>)) -> Seq<char> {
    unicode_lowercase(entry.0)
}

/// The lower-cased addresses of `(address, name)` entries.
pub open spec fn entry_keys(entries: Seq<(Seq<char>, Seq<char>)>) -> Seq<Seq<char>> {
    entries.map_values(|e: (Seq<char>, Seq<char>)| account_key(e))
}

/// The lower-cased addresses of offered accounts.
pub open spec fn offered_keys(r: Seq<AccountInfoView>) -> Seq<Seq<char>> {
    r.map_values(|a: AccountInfoView| unicode_lowercase(a.address))
}

/// The accounts offered to dApps from `(address, name)` entries: each entry whose
/// lower-cased address no earlier entry had, in order.
pub open spec fn dedupe_accounts(entries: Seq<(Seq<char>, Seq<char>)>) -> Seq<AccountInfoView>
    decreases entries.len(),
{
    if entries.len() == 0 {
        Seq::empty()
    } else {
        let prev = entries.drop_last();
        let r = dedupe_accounts(prev);
        if entry_keys(prev).contains(account_key(entries.last())) {
            r
        } else {
            r.push(AccountInfoView { address: entries.last().0, name: Some(entries.last().1) })
        }
    }
}

/// The views of a list of `(address, name)` pairs.
pub open spec fn pairs_view(v: Seq<(String, String)>) -> Seq<(Seq<char>, Seq<char>)> {
    v.map_values(|p: (String, String)| (p.0@, p.1@))
}

/// The views of a list of accounts.
pub open spec fn accounts_view(v: Seq<AccountInfo>) -> Seq<AccountInfoView> {
    v.map_values(|a: AccountInfo| a@)
}

proof fn lemma_dedupe_keys(entries: Seq<(Seq<char>, Seq<char>)>)
    ensures
        forall|k: Seq<char>|
            #![trigger entry_keys(entries).contains(k)]
            #![trigger offered_keys(dedupe_accounts(entries)).contains(k)]
            entry_keys(entries).contains(k) <==> offered_keys(dedupe_accounts(
                entries,
            )).contains(k),
    decreases entries.len(),
{
    if entries.len() > 0 {
        let prev = entries.drop_last();
        lemma_dedupe_keys(prev);
        let pk = entry_keys(prev);
        let ek = entry_keys(entries);
        assert(ek =~= pk.push(account_key(entries.last())));
        let r = dedupe_accounts(prev);
        let rk = offered_keys(r);
        let x = AccountInfoView { address: entries.last().0, name: Some(entries.last().1) };
        assert(offered_keys(r.push(x)) =~= rk.push(
            account_key(entries.last()),
        ));
        let lk = account_key(entries.last());
        assert forall|k: Seq<char>| ek.contains(k) <==> offered_keys(dedupe_accounts(entries)).contains(k) by {
            lemma_push_contains(pk, lk, k);
            lemma_push_contains(rk, lk, k);
            assert(pk.contains(k) <==> rk.contains(k));
            if pk.contains(lk) {
                assert(dedupe_accounts(entries) == r);
            } else {
                assert(dedupe_accounts(entries) == r.push(x));
            }
        }
    }
}

/// A pushed sequence contains exactly the old elements and the new one.
proof fn lemma_push_contains<A>(s: Seq<A>, a: A, k: A)
    ensures
        s.push(a).contains(k) <==> (s.contains(k) || k == a),
{
    let t = s.push(a);
    if t.contains(k) {
        let j = choose|j: int| 0 <= j < t.len() && t[j] == k;
        if j < s.len() {
            assert(s[j] == k);
        }
    }
    if s.contains(k) {
        let j = choose|j: int| 0 <= j < s.len() && s[j] == k;
        assert(t[j] == k);
    }
    if k == a {
        assert(t[s.len() as int] == k);
    }
}

fn absorb_accounts(
    out: &mut Vec<AccountInfo>,
    seen: &mut Vec<String>,
    list: &Vec<(String, String)>,
    Ghost(before): Ghost<Seq<(Seq<char>, Seq<char>)>>,
)
    requires
        accounts_view(old(out)@) == dedupe_accounts(before),
        strings_view(old(seen)@) == offered_keys(accounts_view(old(out)@)),
    ensures
        accounts_view(final(out)@) == dedupe_accounts(before + pairs_view(list@)),
        strings_view(final(seen)@) == offered_keys(accounts_view(final(out)@)),
{
    let ghost lv = pairs_view(list@);
    let mut i: usize = 0;
    assert(before + lv.take(0) =~= before);
    while i < list.len()
        invariant
            i <= list.len(),
            lv == pairs_view(list@),
            accounts_view(out@) == dedupe_accounts(before + lv.take(i as int)),
            strings_view(seen@) == offered_keys(accounts_view(out@)),
        decreases list.len() - i,
    {
        let ghost done = before + lv.take(i as int);
        let ghost next = before + lv.take(i + 1);
        assert(next.drop_last() =~= done);
        assert(next.last() == lv[i as int]);
        proof {
            lemma_dedupe_keys(done);
        }
        let key = to_lowercase(list[i].0.as_str());
        if !contains_string(seen, key.as_str()) {
            let ghost old_out = out@;
            let ghost old_seen = seen@;
            let entry = AccountInfo { address: list[i].0.clone(), name: Some(list[i].1.clone()) };
            out.push(entry);
            seen.push(key);
            proof {
                assert(accounts_view(out@) =~= accounts_view(old_out).push(
                    AccountInfoView { address: lv[i as int].0, name: Some(lv[i as int].1) },
                ));
                lemma_strings_view_push(old_seen, seen@.last());
                assert(seen@ == old_seen.push(seen@.last()));
                assert(offered_keys(accounts_view(out@))
                    =~= offered_keys(accounts_view(old_out)).push(
                    unicode_lowercase(lv[i as int].0),
                ));
            }
        }
        i += 1;
    }
    assert(lv.take(list.len() as int) =~= lv);
}

/// The accounts offered to dApps: the account manager's, then the wallet state's,
/// each address once (compared lower-cased), first occurrence kept with its name.
pub fn collect_accounts(from_manager: &Vec<(String, String)>, from_wallet_state: &Vec<(String, String)>) -> (r: Vec<
    AccountInfo,
>)
    ensures
        accounts_view(r@) == dedupe_accounts(pairs_view(from_manager@) + pairs_view(from_wallet_state@)),
{
    let mut out: Vec<AccountInfo> = Vec::new();
    let mut seen: Vec<String> = Vec::new();
    assert(accounts_view(out@) =~= dedupe_accounts(Seq::empty()));
    assert(strings_view(seen@) =~= offered_keys(accounts_view(out@)));
    absorb_accounts(&mut out, &mut seen, from_manager, Ghost(Seq::empty()));
    assert(Seq::<(Seq<char>, Seq<char>)>::empty() + pairs_view(from_manager@) =~= pairs_view(from_manager@));
    absorb_accounts(&mut out, &mut seen, from_wallet_state, Ghost(pairs_view(from_manager@)));
    out
}

/// However the lists repeat addresses, no two accounts offered to dApps share a
/// lower-cased address, and every listed address is offered.
pub proof fn law_accounts_once_each(entries: Seq<(Seq<char>, Seq<char>)>)
    ensures
        forall|i: int, j: int|
            0 <= i < j < dedupe_accounts(entries).len() ==> unicode_lowercase(
                #[trigger] dedupe_accounts(entries)[i].address,
            ) != unicode_lowercase(#[trigger] dedupe_accounts(entries)[j].address),
        forall|k: int|
            0 <= k < entries.len() ==> offered_keys(dedupe_accounts(entries)).contains(#[trigger] account_key(entries[k])),
    decreases entries.len(),
{
    lemma_dedupe_keys(entries);
    assert forall|k: int| 0 <= k < entries.len() implies offered_keys(dedupe_accounts(entries)).contains(#[trigger] account_key(entries[k])) by {
        let ek = entry_keys(entries);
        assert(ek[k] == account_key(entries[k]));
    }
    if entries.len() > 0 {
        let prev = entries.drop_last();
        law_accounts_once_each(prev);
        lemma_dedupe_keys(prev);
        let r = dedupe_accounts(prev);
        let rk = offered_keys(r);
        let d = dedupe_accounts(entries);
        assert forall|i: int, j: int| 0 <= i < j < d.len() implies unicode_lowercase(
            #[trigger] d[i].address,
        ) != unicode_lowercase(#[trigger] d[j].address) by {
            if j < r.len() {
                assert(d[i] == r[i]);
                assert(d[j] == r[j]);
            } else {
                assert(d[i] == r[i]);
                assert(rk[i] == unicode_lowercase(r[i].address));
            }
        }
    }
}

/// Calldata of the inner call a smart account executes: the request's hex data with
/// every leading `0x` removed, decoded; empty when there is none or it is not hex.
pub open spec fn inner_call_data_spec(data: Option<Seq<char>>) -> Seq<u8> {
    match data {
        None => Seq::empty(),
        Some(d) => {
            let raw = strip_prefix_all(d, "0x"@);
            if hex_decodable(raw) {
                hex_bytes(raw)
            } else {
                Seq::empty()
            }
        },
    }
}

/// Calldata of a smart-account inner call built from a transaction request.
pub fn inner_call_data(data: &Option<String>) -> (r: Vec<u8>)
    ensures
        r@ == inner_call_data_spec(opt_view(*data)),
{
    match data {
        None => Vec::new(),
        Some(d) => {
            let raw = strip_0x_all(d.as_str());
            match hex_decode(raw.as_str()) {
                Some(b) => b,
                None => Vec::new(),
            }
        },
    }
}

} // verus!
