//! What the dashboard and its selectors display: the balance line, the asset row,
//! account labels, and when the chain adapter must be rebuilt.

use vstd::prelude::*;
use crate::send_form::opt_view;
use crate::text::{
    chars_start_with_str, decimal_seq, has_prefix, push_decimal, push_str, str_eq, string_from_chars,
    string_from_range, to_owned_string, trim_chars, trim_seq,
};
use vstd::utf8::{decode_utf8, encode_utf8, is_char_boundary, valid_utf8};

verus! {

broadcast use vstd::string::group_string_axioms;

/// Balance text shown on the dashboard: the adapter's formatted amount, trimmed,
/// or `0.00` when that is blank.
pub open spec fn format_balance_spec(formatted: Seq<char>) -> Seq<char> {
    if trim_seq(formatted).len() == 0 {
        "0.00"@
    } else {
        trim_seq(formatted)
    }
}

/// Balance text shown for an adapter-formatted amount.
pub fn format_balance(formatted: &str) -> (r: String)
    ensures
        r@ == format_balance_spec(formatted@),
{
    let v = trim_chars(formatted);
    if v.len() == 0 {
        to_owned_string("0.00")
    } else {
        string_from_chars(&v)
    }
}

/// A token the user tracks on the active chain.
#[derive(Clone, Debug, PartialEq, Eq)]
pub struct TokenInfo {
    pub contract_address: Option<String>,
    pub symbol: String,
}

/// Position of the first token whose contract address is `addr`, or `tokens.len()`.
pub open spec fn token_index(tokens: Seq<TokenInfo>, addr: Seq<char>) -> int
    decreases tokens.len(),
{
    if tokens.len() == 0 {
        0
    } else if opt_view(tokens[0].contract_address) == Some(addr) {
        0
    } else {
        1 + token_index(tokens.drop_first(), addr)
    }
}

proof fn lemma_token_index(tokens: Seq<TokenInfo>, addr: Seq<char>, k: int)
    requires
        0 <= k <= tokens.len(),
        forall|i: int| 0 <= i < k ==> opt_view((#[trigger] tokens[i]).contract_address) != Some(addr),
        k == tokens.len() || opt_view(tokens[k].contract_address) == Some(addr),
    ensures
        token_index(tokens, addr) == k,
    decreases k,
{
    if k > 0 {
        let t = tokens.drop_first();
        assert forall|i: int| 0 <= i < k - 1 implies opt_view((#[trigger] t[i]).contract_address) != Some(addr) by {
            assert(t[i] == tokens[i + 1]);
        }
        lemma_token_index(t, addr, k - 1);
    }
}

/// `(symbol, balance)` of the dashboard's asset row. The native asset shows the
/// balance's symbol (`ETH` before any balance) and the balance text (`—` before any
/// balance); a tracked token shows its symbol (`Token` when unknown) and `—`.
pub open spec fn asset_row_spec(
    balance: Option<(Seq<char>, Seq<char>)>,
    selected: Seq<char>,
    tokens: Seq<TokenInfo>,
) -> (Seq<char>, Seq<char>) {
    if selected == "native"@ {
        match balance {
            Some((formatted, symbol)) => (symbol, format_balance_spec(formatted)),
            None => ("ETH"@, "—"@),
        }
    } else {
        let i = token_index(tokens, selected);
        (if i < tokens.len() {
            tokens[i].symbol@
        } else {
            "Token"@
        }, "—"@)
    }
}

/// The asset row for the selected asset (`native` or a token's contract address);
/// `balance` is the active balance's `(formatted amount, symbol)` once known.
pub fn asset_row(balance: &Option<(String, String)>, selected: &str, tokens: &Vec<TokenInfo>) -> (r: (String, String))
    ensures
        (r.0@, r.1@) == asset_row_spec(
            match *balance {
                Some((f, s)) => Some((f@, s@)),
                None => None,
            },
            selected@,
            tokens@,
        ),
{
    if str_eq(selected, "native") {
        match balance {
            Some((formatted, symbol)) => (symbol.clone(), format_balance(formatted.as_str())),
            None => (to_owned_string("ETH"), to_owned_string("—")),
        }
    } else {
        let mut i: usize = 0;
        while i < tokens.len()
            invariant
                i <= tokens.len(),
                selected@ != "native"@,
                forall|j: int| 0 <= j < i ==> opt_view((#[trigger] tokens@[j]).contract_address) != Some(selected@),
            decreases tokens.len() - i,
        {
            let hit = match &tokens[i].contract_address {
                Some(a) => str_eq(a.as_str(), selected),
                None => false,
            };
            if hit {
                proof {
                    lemma_token_index(tokens@, selected@, i as int);
                }
                return (tokens[i].symbol.clone(), to_owned_string("—"));
            }
            i += 1;
        }
        proof {
            lemma_token_index(tokens@, selected@, i as int);
        }
        (to_owned_string("Token"), to_owned_string("—"))
    }
}

/// An account choice in the selector.
#[derive(Clone, Debug, PartialEq, Eq)]
pub struct AccountOption {
    pub name: String,
    pub address: String,
}

/// Position of the first option whose address is `addr`, or `opts.len()`.
pub open spec fn option_index(opts: Seq<AccountOption>, addr: Seq<char>) -> int
    decreases opts.len(),
{
    if opts.len() == 0 {
        0
    } else if opts[0].address@ == addr {
        0
    } else {
        1 + option_index(opts.drop_first(), addr)
    }
}

proof fn lemma_option_index(opts: Seq<AccountOption>, addr: Seq<char>, k: int)
    requires
        0 <= k <= opts.len(),
        forall|i: int| 0 <= i < k ==> (#[trigger] opts[i]).address@ != addr,
        k == opts.len() || opts[k].address@ == addr,
    ensures
        option_index(opts, addr) == k,
    decreases k,
{
    if k > 0 {
        let t = opts.drop_first();
        assert forall|i: int| 0 <= i < k - 1 implies (#[trigger] t[i]).address@ != addr by {
            assert(t[i] == opts[i + 1]);
        }
        lemma_option_index(t, addr, k - 1);
    }
}

/// Label of the account selector: the active account's name, else `Select account`.
pub fn account_selector_label(accounts: &Vec<AccountOption>, active_address: &Option<String>) -> (r: String)
    ensures
        ({
            match *active_address {
                Some(a) => {
                    let i = option_index(accounts@, a@);
                    r@ == (if i < accounts.len() {
                        accounts@[i].name@
                    } else {
                        "Select account"@
                    })
                },
                None => r@ == "Select account"@,
            }
        }),
{
    match active_address {
        None => to_owned_string("Select account"),
        Some(a) => {
            let mut i: usize = 0;
            while i < accounts.len()
                invariant
                    i <= accounts.len(),
                    *active_address == Some(*a),
                    forall|j: int| 0 <= j < i ==> (#[trigger] accounts@[j]).address@ != a@,
                decreases accounts.len() - i,
            {
                if str_eq(accounts[i].address.as_str(), a.as_str()) {
                    proof {
                        lemma_option_index(accounts@, a@, i as int);
                    }
                    return accounts[i].name.clone();
                }
                i += 1;
            }
            proof {
                lemma_option_index(accounts@, a@, i as int);
            }
            to_owned_string("Select account")
        },
    }
}

/// A network choice in the selector.
#[derive(Clone, Debug, PartialEq, Eq)]
pub struct NetworkOption {
    pub id: String,
    pub name: String,
    pub chain_id: u64,
}

/// Text of a network choice: `name (chain_id=N)`.
pub fn network_option_label(net: &NetworkOption) -> (r: String)
    ensures
        r@ == net.name@ + " (chain_id="@ + decimal_seq(net.chain_id as nat) + ")"@,
{
    let mut s = net.name.clone();
    push_str(&mut s, " (chain_id=");
    push_decimal(&mut s, net.chain_id);
    push_str(&mut s, ")");
    s
}

/// The choice is the active network.
pub fn network_option_selected(net: &NetworkOption, active_id: &Option<String>) -> (r: bool)
    ensures
        r == (match *active_id {
            Some(a) => a@ == net.id@,
            None => false,
        }),
{
    match active_id {
        Some(a) => str_eq(a.as_str(), net.id.as_str()),
        None => false,
    }
}

/// Shortened address: the first eight and last four bytes around `...`, for
/// addresses of at least fourteen bytes; shorter ones as they are.
pub open spec fn short_addr_spec(a: Seq<char>) -> Seq<char> {
    let b = encode_utf8(a);
    if b.len() < 14 {
        a
    } else {
        decode_utf8(b.subrange(0, 8)) + "..."@ + decode_utf8(b.subrange(b.len() - 4, b.len() as int))
    }
}

/// Shortened address for the selector list. Slicing at bytes 8 and `len - 4`
/// needs both to fall on character boundaries.
pub fn short_addr(a: &str) -> (r: String)
    requires
        encode_utf8(a@).len() >= 14 ==> is_char_boundary(encode_utf8(a@), 8) && is_char_boundary(
            encode_utf8(a@),
            encode_utf8(a@).len() - 4,
        ),
    ensures
        r@ == short_addr_spec(a@),
{
    let n = a.as_bytes().len();
    if n < 14 {
        return to_owned_string(a);
    }
    let (head, _) = a.split_at(8);
    let (_, tail) = a.split_at(n - 4);
    proof {
        vstd::utf8::encode_utf8_decode_utf8(head@);
        vstd::utf8::encode_utf8_decode_utf8(tail@);
    }
    let mut s = to_owned_string(head);
    push_str(&mut s, "...");
    push_str(&mut s, tail);
    s
}

/// The address text without surrounding whitespace and one leading `0x`.
pub open spec fn address_body(address: Seq<char>) -> Seq<char> {
    let t = trim_seq(address);
    if has_prefix(t, "0x"@) {
        t.skip(2)
    } else {
        t
    }
}

/// Byte offsets where the colored address segments start and end.
pub open spec fn segment_cuts() -> Seq<int> {
    seq![0, 5, 18, 23, 35, 40]
}

/// The colored segments of an address: bytes 0..5, 5..18, 18..23, 23..35 and 35..40
/// of its body, when the body has at least forty bytes (otherwise it is shown plain).
pub open spec fn address_segments_spec(address: Seq<char>) -> Option<Seq<Seq<char>>> {
    let b = encode_utf8(address_body(address));
    if b.len() < 40 {
        None
    } else {
        Some(Seq::new(5, |k: int| decode_utf8(b.subrange(segment_cuts()[k], segment_cuts()[k + 1]))))
    }
}

proof fn lemma_boundary_shift(body: Seq<char>, lo: int, k: int)
    requires
        0 <= lo,
        0 < k,
        lo + k < 40 <= encode_utf8(body).len(),
        is_char_boundary(encode_utf8(body), lo + k),
    ensures
        ({
            let sub = encode_utf8(body).subrange(lo, 40);
            valid_utf8(sub) ==> is_char_boundary(sub, k)
        }),
{
    let b = encode_utf8(body);
    let sub = b.subrange(lo, 40);
    vstd::utf8::encode_utf8_valid_utf8(body);
    vstd::utf8::is_char_boundary_iff_not_is_continuation_byte(b, lo + k);
    if valid_utf8(sub) {
        vstd::utf8::is_char_boundary_iff_not_is_continuation_byte(sub, k);
        assert(sub[k] == b[lo + k]);
    }
}

/// The colored segments of an address for display. Cutting the body at bytes 5,
/// 18, 23, 35 and 40 needs each to fall on a character boundary.
pub fn address_color_segments(address: &str) -> (r: Option<Vec<String>>)
    requires
        encode_utf8(address_body(address@)).len() >= 40 ==> forall|k: int|
            0 <= k < 6 ==> is_char_boundary(encode_utf8(address_body(address@)), #[trigger] segment_cuts()[k]),
    ensures
        match address_segments_spec(address@) {
            None => r is None,
            Some(segs) => r matches Some(v) && v@.map_values(|x: String| x@) == segs,
        },
{
    proof {
        reveal_strlit("0x");
    }
    let tv = trim_chars(address);
    let body: String = if chars_start_with_str(&tv, "0x") {
        assert(tv@.subrange(2, tv@.len() as int) =~= tv@.skip(2));
        string_from_range(&tv, 2, tv.len())
    } else {
        string_from_chars(&tv)
    };
    let ghost bb = encode_utf8(body@);
    assert(body@ == address_body(address@));
    let b: &str = body.as_str();
    let n = b.as_bytes().len();
    if n < 40 {
        return None;
    }
    proof {
        assert(segment_cuts()[5] == 40);
        assert(is_char_boundary(bb, 40));
        lemma_boundary_shift(body@, 0, 5);
        lemma_boundary_shift(body@, 5, 13);
        lemma_boundary_shift(body@, 18, 5);
        lemma_boundary_shift(body@, 23, 12);
        assert(segment_cuts()[1] == 5 && segment_cuts()[2] == 18 && segment_cuts()[3] == 23 && segment_cuts()[4] == 35);
    }
    let (head, _tail) = b.split_at(40);
    proof {
        vstd::utf8::encode_utf8_valid_utf8(head@);
        assert(encode_utf8(head@) =~= bb.subrange(0, 40));
    }
    let (s1, r1) = head.split_at(5);
    proof {
        vstd::utf8::encode_utf8_valid_utf8(r1@);
        assert(encode_utf8(r1@) =~= bb.subrange(5, 40));
    }
    let (s2, r2) = r1.split_at(13);
    proof {
        vstd::utf8::encode_utf8_valid_utf8(r2@);
        assert(encode_utf8(r2@) =~= bb.subrange(18, 40));
    }
    let (s3, r3) = r2.split_at(5);
    proof {
        vstd::utf8::encode_utf8_valid_utf8(r3@);
        assert(encode_utf8(r3@) =~= bb.subrange(23, 40));
    }
    let (s4, s5) = r3.split_at(12);
    proof {
        vstd::utf8::encode_utf8_decode_utf8(s1@);
        vstd::utf8::encode_utf8_decode_utf8(s2@);
        vstd::utf8::encode_utf8_decode_utf8(s3@);
        vstd::utf8::encode_utf8_decode_utf8(s4@);
        vstd::utf8::encode_utf8_decode_utf8(s5@);
        assert(encode_utf8(s1@) =~= bb.subrange(0, 5));
        assert(encode_utf8(s2@) =~= bb.subrange(5, 18));
        assert(encode_utf8(s3@) =~= bb.subrange(18, 23));
        assert(encode_utf8(s4@) =~= bb.subrange(23, 35));
        assert(encode_utf8(s5@) =~= bb.subrange(35, 40));
    }
    let mut v: Vec<String> = Vec::new();
    v.push(to_owned_string(s1));
    v.push(to_owned_string(s2));
    v.push(to_owned_string(s3));
    v.push(to_owned_string(s4));
    v.push(to_owned_string(s5));
    proof {
        let segs = Seq::new(5, |k: int| decode_utf8(bb.subrange(segment_cuts()[k], segment_cuts()[k + 1])));
        assert(v@.map_values(|x: String| x@) =~= segs);
    }
    Some(v)
}

/// Identity of the network a chain adapter was built for.
#[derive(Clone, Debug, PartialEq, Eq)]
pub struct AdapterNetworkKey {
    pub id: String,
    pub rpc_url: String,
    pub chain_id: u64,
}

/// The key of the active network, or Ethereum's (no RPC URL, chain 1) when none is set.
pub fn current_network_key(active: Option<AdapterNetworkKey>) -> (r: AdapterNetworkKey)
    ensures
        active matches Some(k) ==> r == k,
        active is None ==> r.id@ == "ethereum"@ && r.rpc_url@ == ""@ && r.chain_id == 1,
{
    proof {
        reveal_strlit("");
        assert(""@ =~= Seq::<char>::empty());
    }
    match active {
        Some(k) => k,
        None => AdapterNetworkKey {
            id: to_owned_string("ethereum"),
            rpc_url: String::new(),
            chain_id: 1,
        },
    }
}

/// The adapter is rebuilt when the active network's key differs from the one it
/// was built for.
pub fn adapter_needs_rebuild(current: &AdapterNetworkKey, built_for: &AdapterNetworkKey) -> (r: bool)
    ensures
        r == !(current.id@ == built_for.id@ && current.rpc_url@ == built_for.rpc_url@
            && current.chain_id == built_for.chain_id),
{
    !(str_eq(current.id.as_str(), built_for.id.as_str()) && str_eq(
        current.rpc_url.as_str(),
        built_for.rpc_url.as_str(),
    ) && current.chain_id == built_for.chain_id)
}

} // verus!
