//! Validation and normalization of the Send form, fee bumping for replacement
//! transactions, and the user-facing error mapping.

use vstd::prelude::*;
use crate::errors::{opt_string_result_view, string_result_view, WalletError, WalletErrorView};
use crate::hexcodec::{hex_decodable, hex_decode, strip_0x_all, strip_prefix_all};
use crate::text::{
    chars_eq, chars_of, chars_start_with_str, contains_seq, decimal_seq, has_prefix, lower_chars, trim_string,
    lower_seq, push_str, string_from_chars, string_from_range, to_owned_string, trim_chars,
    trim_seq, chars_contain,
};
use crate::u256::{
    u256_add, u256_div, u256_from_str, u256_from_str_result, u256_from_u64, u256_is_zero,
    u256_modulus, u256_mul, u256_to_decimal, u256_value, limb_base,
};
use vstd::utf8::encode_utf8;

verus! {

broadcast use vstd::string::group_string_axioms;

/// View of an optional string.
pub open spec fn opt_view(o: Option<String>) -> Option<Seq<char>> {
    match o {
        Some(s) => Some(s@),
        None => None,
    }
}

/// View of an error-or-nothing outcome.
pub open spec fn unit_result_view(r: Result<(), WalletError>) -> Result<(), WalletErrorView> {
    match r {
        Ok(()) => Ok(()),
        Err(e) => Err(e@),
    }
}

/// Trimmed, non-empty calldata with exactly one `0x` in front of what follows an
/// optional `0x`/`0X` prefix.
pub open spec fn normalized_data(t: Seq<char>) -> Seq<char> {
    if has_prefix(t, "0x"@) || has_prefix(t, "0X"@) {
        "0x"@ + t.skip(2)
    } else {
        "0x"@ + t
    }
}

/// Optional calldata check of the Send form: blank means none; otherwise the
/// normalized hex must have an even UTF-8 length and decode.
pub open spec fn data_check_spec(data: Option<Seq<char>>) -> Result<Option<Seq<char>>, WalletErrorView> {
    match data {
        None => Ok(None),
        Some(d) => {
            let t = trim_seq(d);
            if t.len() == 0 {
                Ok(None)
            } else {
                let n = normalized_data(t);
                let raw = strip_prefix_all(n, "0x"@);
                if encode_utf8(raw).len() % 2 != 0 {
                    Err(WalletErrorView::InvalidTransaction("Data hex must have an even number of characters"@))
                } else if !hex_decodable(raw) {
                    Err(WalletErrorView::InvalidTransaction("Data must be valid hex"@))
                } else {
                    Ok(Some(n))
                }
            }
        },
    }
}

/// The amount check once the trimmed amount was parsed as a 256-bit integer: it
/// must parse and be positive.
pub open spec fn amount_check_spec(parsed: Option<[u64; 4]>) -> Result<(), WalletErrorView> {
    match parsed {
        None => Err(WalletErrorView::InvalidAmount("Amount must be a decimal wei value"@)),
        Some(l) => if u256_value(l) == 0 {
            Err(WalletErrorView::InvalidAmount("Amount must be greater than zero"@))
        } else {
            Ok(())
        },
    }
}

/// The checks of the Send form, in order: a recipient is given, it is an address
/// (`recipient_check`), it differs from the sender ignoring ASCII case, the amount is
/// given, parses as a 256-bit integer (`amount_parsed`) and is positive, and the
/// calldata is valid hex.
pub open spec fn send_inputs_from(
    from: Seq<char>,
    to: Seq<char>,
    value: Seq<char>,
    data: Option<Seq<char>>,
    recipient_check: Result<(), WalletErrorView>,
    amount_parsed: Option<[u64; 4]>,
) -> Result<(Seq<char>, Seq<char>, Option<Seq<char>>), WalletErrorView> {
    let to_t = trim_seq(to);
    let v = trim_seq(value);
    if to_t.len() == 0 {
        Err(WalletErrorView::InvalidAddress("Recipient address is required"@))
    } else if recipient_check is Err {
        Err(recipient_check->Err_0)
    } else if lower_seq(from) == lower_seq(to_t) {
        Err(WalletErrorView::InvalidTransaction("Sender and recipient cannot be the same address"@))
    } else if v.len() == 0 {
        Err(WalletErrorView::InvalidAmount("Amount is required"@))
    } else if amount_check_spec(amount_parsed) is Err {
        Err(amount_check_spec(amount_parsed)->Err_0)
    } else {
        match data_check_spec(data) {
            Err(e) => Err(e),
            Ok(d) => Ok((to_t, v, d)),
        }
    }
}

/// The checks of the Send form, with the amount parsed by `U256::from_str`.
pub open spec fn send_inputs_spec(
    from: Seq<char>,
    to: Seq<char>,
    value: Seq<char>,
    data: Option<Seq<char>>,
    recipient_check: Result<(), WalletErrorView>,
) -> Result<(Seq<char>, Seq<char>, Option<Seq<char>>), WalletErrorView> {
    send_inputs_from(from, to, value, data, recipient_check, u256_from_str_result(trim_seq(value)))
}

/// View of the Send form outcome.
pub open spec fn send_inputs_view(r: Result<(String, String, Option<String>), WalletError>) -> Result<
    (Seq<char>, Seq<char>, Option<Seq<char>>),
    WalletErrorView,
> {
    match r {
        Ok((a, b, c)) => Ok((a@, b@, opt_view(c))),
        Err(e) => Err(e@),
    }
}

fn check_data(data: Option<String>) -> (r: Result<Option<String>, WalletError>)
    ensures
        opt_string_result_view(r) == data_check_spec(opt_view(data)),
{
    match data {
        None => Ok(None),
        Some(d) => {
            let t = trim_chars(d.as_str());
            if t.len() == 0 {
                return Ok(None);
            }
            proof {
                reveal_strlit("0x");
                reveal_strlit("0X");
            }
            let normalized = if chars_start_with_str(&t, "0x") || chars_start_with_str(&t, "0X") {
                let mut n = to_owned_string("0x");
                let rest = string_from_range(&t, 2, t.len());
                push_str(&mut n, rest.as_str());
                assert(t@.subrange(2, t@.len() as int) =~= t@.skip(2));
                n
            } else {
                let mut n = to_owned_string("0x");
                let ts = string_from_chars(&t);
                push_str(&mut n, ts.as_str());
                n
            };
            let raw = strip_0x_all(normalized.as_str());
            let raw_bytes = raw.as_str().as_bytes();
            if raw_bytes.len() % 2 != 0 {
                return Err(
                    WalletError::InvalidTransaction(
                        to_owned_string("Data hex must have an even number of characters"),
                    ),
                );
            }
            match hex_decode(raw.as_str()) {
                None => Err(WalletError::InvalidTransaction(to_owned_string("Data must be valid hex"))),
                Some(_) => Ok(Some(normalized)),
            }
        },
    }
}

/// `str::eq_ignore_ascii_case`.
pub fn eq_ignore_ascii_case(a: &str, b: &str) -> (r: bool)
    ensures
        r == (lower_seq(a@) == lower_seq(b@)),
{
    let la = lower_chars(&chars_of(a));
    let lb = lower_chars(&chars_of(b));
    chars_eq(&la, &lb)
}

/// The amount check on a parsed amount.
pub fn amount_check(parsed: Option<[u64; 4]>) -> (r: Result<(), WalletError>)
    ensures
        unit_result_view(r) == amount_check_spec(parsed),
{
    match parsed {
        None => Err(WalletError::InvalidAmount(to_owned_string("Amount must be a decimal wei value"))),
        Some(l) => if u256_is_zero(l) {
            Err(WalletError::InvalidAmount(to_owned_string("Amount must be greater than zero")))
        } else {
            Ok(())
        },
    }
}

/// Validates the Send form given the outcome of the recipient's address parse and of
/// the trimmed amount's 256-bit parse, and normalizes it to
/// `(recipient, wei amount, calldata)`.
pub fn validate_send_form(
    from_addr: &str,
    to: String,
    value_wei: String,
    data: Option<String>,
    recipient_check: Result<(), WalletError>,
    amount_parsed: Option<[u64; 4]>,
) -> (r: Result<(String, String, Option<String>), WalletError>)
    ensures
        send_inputs_view(r) == send_inputs_from(
            from_addr@,
            to@,
            value_wei@,
            opt_view(data),
            unit_result_view(recipient_check),
            amount_parsed,
        ),
{
    let to_t = trim_chars(to.as_str());
    if to_t.len() == 0 {
        return Err(WalletError::InvalidAddress(to_owned_string("Recipient address is required")));
    }
    match recipient_check {
        Err(e) => {
            return Err(e);
        },
        Ok(()) => {},
    }
    let to_s = string_from_chars(&to_t);
    if eq_ignore_ascii_case(from_addr, to_s.as_str()) {
        return Err(
            WalletError::InvalidTransaction(
                to_owned_string("Sender and recipient cannot be the same address"),
            ),
        );
    }
    let v = trim_chars(value_wei.as_str());
    if v.len() == 0 {
        return Err(WalletError::InvalidAmount(to_owned_string("Amount is required")));
    }
    let v_s = string_from_chars(&v);
    match amount_check(amount_parsed) {
        Err(e) => {
            return Err(e);
        },
        Ok(()) => {},
    }
    match check_data(data) {
        Err(e) => Err(e),
        Ok(d) => Ok((to_s, v_s, d)),
    }
}

/// Validates the Send form and normalizes it to `(recipient, wei amount, calldata)`.
/// `recipient_check` is the outcome of address parsing on the trimmed recipient.
pub fn validate_and_normalize_send_inputs(
    from_addr: &str,
    to: String,
    value_wei: String,
    data: Option<String>,
    recipient_check: Result<(), WalletError>,
) -> (r: Result<(String, String, Option<String>), WalletError>)
    ensures
        send_inputs_view(r) == send_inputs_spec(
            from_addr@,
            to@,
            value_wei@,
            opt_view(data),
            unit_result_view(recipient_check),
        ),
{
    let trimmed = trim_string(value_wei.as_str());
    let amount_parsed = u256_from_str(trimmed.as_str());
    validate_send_form(from_addr, to, value_wei, data, recipient_check, amount_parsed)
}

/// A fee field's value once parsed: its decimal rendering, or the field's error.
pub open spec fn u256_field_from(parsed: Option<[u64; 4]>, field: Seq<char>) -> Result<Seq<char>, WalletErrorView> {
    match parsed {
        None => Err(WalletErrorView::InvalidAmount(field + " must be a decimal wei value"@)),
        Some(l) => Ok(decimal_seq(u256_value(l))),
    }
}

/// An optional fee field: blank means none; otherwise its 256-bit value in decimal.
pub open spec fn optional_u256_spec(value: Option<Seq<char>>, field: Seq<char>) -> Result<Option<Seq<char>>, WalletErrorView> {
    match value {
        None => Ok(None),
        Some(v) => {
            let t = trim_seq(v);
            if t.len() == 0 {
                Ok(None)
            } else {
                match u256_field_from(u256_from_str_result(t), field) {
                    Err(e) => Err(e),
                    Ok(d) => Ok(Some(d)),
                }
            }
        },
    }
}

/// A fee field's value once its trimmed text was parsed.
pub fn u256_field_after_parse(parsed: Option<[u64; 4]>, field: &str) -> (r: Result<String, WalletError>)
    ensures
        string_result_view(r) == u256_field_from(parsed, field@),
{
    match parsed {
        None => {
            let mut msg = to_owned_string(field);
            push_str(&mut msg, " must be a decimal wei value");
            Err(WalletError::InvalidAmount(msg))
        },
        Some(l) => Ok(u256_to_decimal(l)),
    }
}

/// Parses an optional wei field (e.g. `max_fee_per_gas`) and re-renders it in decimal.
pub fn parse_optional_u256_decimal(value: Option<String>, field: &str) -> (r: Result<Option<String>, WalletError>)
    ensures
        opt_string_result_view(r) == optional_u256_spec(opt_view(value), field@),
{
    let v = match value {
        None => {
            return Ok(None);
        },
        Some(v) => v,
    };
    let t = trim_chars(v.as_str());
    if t.len() == 0 {
        return Ok(None);
    }
    let ts = string_from_chars(&t);
    match u256_field_after_parse(u256_from_str(ts.as_str()), field) {
        Err(e) => Err(e),
        Ok(d) => Ok(Some(d)),
    }
}

/// A fee raised by 12% (rounded down) plus one wei, in 256-bit wrapping arithmetic.
pub open spec fn bumped_fee_value(v: nat) -> nat {
    ((v * 112) % u256_modulus() / 100 + 1) % u256_modulus()
}

/// A speed-up or cancel always outbids the replaced transaction: the raised fee is
/// above the base fee whenever `base * 112` stays below 2^256 (no wrap-around).
pub proof fn law_bump_raises_fee(v: nat)
    requires
        v * 112 < u256_modulus(),
    ensures
        bumped_fee_value(v) > v,
{
    let m = u256_modulus();
    assert(m > 112) by {
        assert(limb_base() > 112);
        assert(limb_base() * limb_base() >= limb_base()) by (nonlinear_arith)
            requires limb_base() > 112;
        assert(limb_base() * limb_base() * limb_base() >= limb_base() * limb_base()) by (nonlinear_arith)
            requires limb_base() > 112;
        assert(limb_base() * limb_base() * limb_base() * limb_base() >= limb_base() * limb_base() * limb_base())
            by (nonlinear_arith)
            requires limb_base() > 112;
    }
    assert((v * 112) % m == v * 112) by (nonlinear_arith)
        requires v * 112 < m, m > 0;
    assert((v * 112) / 100 >= v) by (nonlinear_arith);
    assert((v * 112) / 100 + 1 <= v * 112 + 1);
    if v == 0 {
        assert(((v * 112) / 100 + 1) % m == 1) by (nonlinear_arith)
            requires v == 0, m > 112;
    } else {
        assert((v * 112) / 100 + 1 <= v * 112) by (nonlinear_arith)
            requires v > 0;
        assert(((v * 112) / 100 + 1) % m == (v * 112) / 100 + 1) by (nonlinear_arith)
            requires (v * 112) / 100 + 1 < m;
    }
}

/// Replacement-transaction fee once the base fee was parsed:
/// `value * 112 / 100 + 1`, in decimal.
pub open spec fn bump_fee_from(parsed: Option<[u64; 4]>) -> Result<Seq<char>, WalletErrorView> {
    match parsed {
        None => Err(WalletErrorView::InvalidAmount("Invalid fee value"@)),
        Some(l) => Ok(decimal_seq(bumped_fee_value(u256_value(l)))),
    }
}

/// Replacement-transaction fee for a base fee given in decimal.
pub open spec fn bump_fee_spec(value_wei: Seq<char>) -> Result<Seq<char>, WalletErrorView> {
    bump_fee_from(u256_from_str_result(value_wei))
}

/// The raised fee once the base fee was parsed.
pub fn bump_fee_after_parse(parsed: Option<[u64; 4]>) -> (r: Result<String, WalletError>)
    ensures
        string_result_view(r) == bump_fee_from(parsed),
{
    let v = match parsed {
        None => {
            return Err(WalletError::InvalidAmount(to_owned_string("Invalid fee value")));
        },
        Some(l) => l,
    };
    let product = u256_mul(v, u256_from_u64(112));
    let quotient = u256_div(product, u256_from_u64(100));
    let bumped = u256_add(quotient, u256_from_u64(1));
    Ok(u256_to_decimal(bumped))
}

/// Raises a fee for a speed-up or cancel replacement: +12% and one more wei.
pub fn bump_fee_12_percent_plus_one(value_wei: &str) -> (r: Result<String, WalletError>)
    ensures
        string_result_view(r) == bump_fee_spec(value_wei@),
{
    bump_fee_after_parse(u256_from_str(value_wei))
}

/// The fee presets of the Send form's advanced section.
#[derive(Clone, Copy, Debug, PartialEq, Eq, Structural)]
pub enum FeePreset {
    /// 90% of the last estimate.
    Low,
    /// The last estimate as it is.
    Market,
    /// 120% of the last estimate.
    Aggressive,
}

/// Tenths of the estimate a preset asks for.
pub open spec fn preset_tenths(p: FeePreset) -> nat {
    match p {
        FeePreset::Low => 9,
        FeePreset::Market => 10,
        FeePreset::Aggressive => 12,
    }
}

/// A scaled preset once the estimate was parsed: `value * k / 10` (the product
/// wrapping at 2^256), in decimal; `None` when the estimate did not parse.
pub open spec fn scaled_preset_from(p: FeePreset, parsed: Option<[u64; 4]>) -> Option<Seq<char>> {
    match parsed {
        None => None,
        Some(l) => Some(decimal_seq(((u256_value(l) * preset_tenths(p)) % u256_modulus()) / 10)),
    }
}

/// What a preset puts in a fee field, given the last estimate for that field:
/// Market copies the estimate as given; Low and Aggressive scale its value.
/// `None` leaves the field as it is.
pub open spec fn fee_preset_spec(p: FeePreset, estimate: Seq<char>) -> Option<Seq<char>> {
    match p {
        FeePreset::Market => Some(estimate),
        _ => scaled_preset_from(p, u256_from_str_result(estimate)),
    }
}

/// A scaled preset (Low or Aggressive) once the estimate was parsed.
pub fn scaled_preset_after_parse(p: FeePreset, parsed: Option<[u64; 4]>) -> (r: Option<String>)
    ensures
        opt_view(r) == scaled_preset_from(p, parsed),
{
    match parsed {
        None => None,
        Some(v) => {
            let k: u64 = match p {
                FeePreset::Low => 9,
                FeePreset::Market => 10,
                FeePreset::Aggressive => 12,
            };
            let product = u256_mul(v, u256_from_u64(k));
            let scaled = u256_div(product, u256_from_u64(10));
            Some(u256_to_decimal(scaled))
        },
    }
}

/// The value a fee preset writes into a fee field whose last estimate is
/// `estimate`; `None` when the field keeps its value (an estimate that does not
/// parse as a 256-bit integer).
pub fn apply_fee_preset(p: FeePreset, estimate: &str) -> (r: Option<String>)
    ensures
        opt_view(r) == fee_preset_spec(p, estimate@),
{
    match p {
        FeePreset::Market => Some(to_owned_string(estimate)),
        _ => scaled_preset_after_parse(p, u256_from_str(estimate)),
    }
}

/// A fee field after a preset button: the preset's value when the last estimate
/// has one for this field and it applies, else the field as it was.
pub open spec fn preset_field_spec(p: FeePreset, estimate: Option<Seq<char>>, current: Seq<char>) -> Seq<char> {
    match estimate {
        None => current,
        Some(e) => match fee_preset_spec(p, e) {
            Some(v) => v,
            None => current,
        },
    }
}

/// The new text of a fee field (max fee or priority fee) when a preset button is
/// pressed, given the last estimate's value for that field.
pub fn preset_field(p: FeePreset, estimate: Option<String>, current: String) -> (r: String)
    ensures
        r@ == preset_field_spec(p, opt_view(estimate), current@),
{
    match estimate {
        None => current,
        Some(e) => match apply_fee_preset(p, e.as_str()) {
            Some(v) => v,
            None => current,
        },
    }
}

/// Replacement fees for a pending transaction: its own fee fields, else the fresh
/// estimate's, each bumped; missing both is refused.
pub open spec fn replacement_fees_spec(
    pending_max_fee: Option<Seq<char>>,
    estimate_max_fee: Option<Seq<char>>,
    pending_priority_fee: Option<Seq<char>>,
    estimate_priority_fee: Option<Seq<char>>,
) -> Result<(Seq<char>, Seq<char>), WalletErrorView> {
    let base_max = if pending_max_fee is Some { pending_max_fee } else { estimate_max_fee };
    let base_prio = if pending_priority_fee is Some { pending_priority_fee } else { estimate_priority_fee };
    if base_max is None {
        Err(WalletErrorView::InvalidTransaction("Missing max_fee_per_gas"@))
    } else if base_prio is None {
        Err(WalletErrorView::InvalidTransaction("Missing max_priority_fee_per_gas"@))
    } else {
        match bump_fee_spec(base_max->Some_0) {
            Err(e) => Err(e),
            Ok(m) => match bump_fee_spec(base_prio->Some_0) {
                Err(e) => Err(e),
                Ok(p) => Ok((m, p)),
            },
        }
    }
}

/// Fees `(max_fee_per_gas, max_priority_fee_per_gas)` of a speed-up or cancel.
pub fn replacement_fees(
    pending_max_fee: Option<String>,
    estimate_max_fee: Option<String>,
    pending_priority_fee: Option<String>,
    estimate_priority_fee: Option<String>,
) -> (r: Result<(String, String), WalletError>)
    ensures
        match r {
            Ok((m, p)) => replacement_fees_spec(
                opt_view(pending_max_fee),
                opt_view(estimate_max_fee),
                opt_view(pending_priority_fee),
                opt_view(estimate_priority_fee),
            ) == Ok::<(Seq<char>, Seq<char>), WalletErrorView>((m@, p@)),
            Err(e) => replacement_fees_spec(
                opt_view(pending_max_fee),
                opt_view(estimate_max_fee),
                opt_view(pending_priority_fee),
                opt_view(estimate_priority_fee),
            ) == Err::<(Seq<char>, Seq<char>), WalletErrorView>(e@),
        },
{
    let base_max = match pending_max_fee {
        Some(f) => Some(f),
        None => estimate_max_fee,
    };
    let base_prio = match pending_priority_fee {
        Some(f) => Some(f),
        None => estimate_priority_fee,
    };
    let base_max = match base_max {
        None => {
            return Err(WalletError::InvalidTransaction(to_owned_string("Missing max_fee_per_gas")));
        },
        Some(f) => f,
    };
    let base_prio = match base_prio {
        None => {
            return Err(WalletError::InvalidTransaction(to_owned_string("Missing max_priority_fee_per_gas")));
        },
        Some(f) => f,
    };
    let m = match bump_fee_12_percent_plus_one(base_max.as_str()) {
        Err(e) => {
            return Err(e);
        },
        Ok(m) => m,
    };
    let p = match bump_fee_12_percent_plus_one(base_prio.as_str()) {
        Err(e) => {
            return Err(e);
        },
        Ok(p) => p,
    };
    Ok((m, p))
}

/// The user-facing text for the send errors that have a wallet-style wording;
/// `None` for the others, which show their own message.
pub open spec fn metamask_message_spec(e: WalletErrorView) -> Option<Seq<char>> {
    match e {
        WalletErrorView::WalletLocked => Some("MetaMask-style: wallet is locked. Unlock and retry."@),
        WalletErrorView::InvalidAddress(_) => Some("MetaMask-style: invalid recipient address."@),
        WalletErrorView::InvalidAmount(_) => Some("MetaMask-style: invalid transaction amount."@),
        WalletErrorView::InsufficientBalance => Some("MetaMask-style: insufficient funds for gas * price + value."@),
        WalletErrorView::GasEstimationFailed(_) => Some(
            "MetaMask-style: cannot estimate gas; transaction may fail or require manual gas."@,
        ),
        WalletErrorView::SigningFailed(m) => if contains_seq(m, "User denied"@) {
            Some("MetaMask-style: user rejected the signature request."@)
        } else {
            None
        },
        WalletErrorView::TransactionFailed(_) => Some("MetaMask-style: transaction submission failed at RPC layer."@),
        _ => None,
    }
}

/// Maps a send error to its wallet-style wording, when it has one.
pub fn map_send_error_like_metamask(e: &WalletError) -> (r: Option<String>)
    ensures
        opt_view(r) == metamask_message_spec(e@),
{
    match e {
        WalletError::WalletLocked => Some(to_owned_string("MetaMask-style: wallet is locked. Unlock and retry.")),
        WalletError::InvalidAddress(_) => Some(to_owned_string("MetaMask-style: invalid recipient address.")),
        WalletError::InvalidAmount(_) => Some(to_owned_string("MetaMask-style: invalid transaction amount.")),
        WalletError::InsufficientBalance => Some(
            to_owned_string("MetaMask-style: insufficient funds for gas * price + value."),
        ),
        WalletError::GasEstimationFailed(_) => Some(
            to_owned_string(
                "MetaMask-style: cannot estimate gas; transaction may fail or require manual gas.",
            ),
        ),
        WalletError::SigningFailed(m) => {
            let mv = chars_of(m.as_str());
            let needle = chars_of("User denied");
            if chars_contain(&mv, &needle) {
                Some(to_owned_string("MetaMask-style: user rejected the signature request."))
            } else {
                None
            }
        },
        WalletError::TransactionFailed(_) => Some(
            to_owned_string("MetaMask-style: transaction submission failed at RPC layer."),
        ),
        _ => None,
    }
}

} // verus!
