//! Display and parsing of token amounts given as base-unit decimal strings.

use vstd::prelude::*;
use crate::errors::{WalletError, WalletErrorView, string_result_view};
use crate::text::{
    chars_sub, decimal_seq, find_char, first_index_of, push_decimal, push_str,
    all_digits, chars_all_digits, digit_value, digits_value, is_digit, lemma_strip_leading_zeros_skip, lemma_strip_trailing_zeros_take,
    push_char, push_chars_range, string_from_chars, strip_leading_zeros, strip_trailing_zeros,
    to_owned_string, trim_chars, trim_seq,
};

verus! {

broadcast use vstd::string::group_string_axioms;

/// `n` copies of `'0'`.
pub open spec fn zeros(n: nat) -> Seq<char> {
    Seq::new(n, |i: int| '0')
}

/// A digit string without leading zeros, `"0"` when nothing is left.
pub open spec fn normalized_digits(t: Seq<char>) -> Seq<char> {
    let z = strip_leading_zeros(t);
    if z.len() == 0 {
        seq!['0']
    } else {
        z
    }
}

/// How many fraction digits are kept for display: at most six.
pub open spec fn shown_fraction_len(d: nat) -> nat {
    if d < 6 {
        d
    } else {
        6
    }
}

/// Display form of a base-unit amount `raw` with `decimals` fraction digits:
/// the integer part, then up to six fraction digits without trailing zeros.
/// Input that is not a plain digit string is shown trimmed, as is.
pub open spec fn format_decimal_amount_spec(raw: Seq<char>, decimals: Option<u8>) -> Seq<char> {
    match decimals {
        None => raw,
        Some(d) => {
            let t = trim_seq(raw);
            if t.len() == 0 || !all_digits(t) {
                t
            } else {
                let digits = normalized_digits(t);
                let dn = d as nat;
                if dn == 0 {
                    digits
                } else {
                    let int_part = if digits.len() > dn {
                        digits.take(digits.len() - dn)
                    } else {
                        seq!['0']
                    };
                    let frac_full = if digits.len() > dn {
                        digits.skip(digits.len() - dn)
                    } else {
                        zeros((dn - digits.len()) as nat) + digits
                    };
                    let frac = strip_trailing_zeros(frac_full.take(shown_fraction_len(dn) as int));
                    if frac.len() == 0 {
                        int_part
                    } else {
                        int_part + seq!['.'] + frac
                    }
                }
            }
        }
    }
}

/// `t` without leading zeros, or `"0"` when it is all zeros.
fn normalize_digit_chars(t: &Vec<char>) -> (r: Vec<char>)
    ensures
        r@ == normalized_digits(t@),
{
    let mut k: usize = 0;
    while k < t.len() && t[k] == '0'
        invariant
            k <= t.len(),
            forall|i: int| 0 <= i < k ==> #[trigger] t@[i] == '0',
        decreases t.len() - k,
    {
        k += 1;
    }
    proof {
        lemma_strip_leading_zeros_skip(t@, k as int);
    }
    if k == t.len() {
        let r = vec!['0'];
        assert(r@ =~= seq!['0']);
        r
    } else {
        let r = chars_sub(t, k, t.len());
        assert(r@ =~= t@.skip(k as int));
        r
    }
}

/// Formats a base-unit integer amount (e.g. wei) as a human-readable decimal with
/// at most six fraction digits, trailing zeros trimmed. Without `decimals`, or when
/// `raw` is not a plain digit string, the input is returned (trimmed in the latter case).
pub fn format_decimal_amount(raw: &str, decimals: Option<u8>) -> (r: String)
    ensures
        r@ == format_decimal_amount_spec(raw@, decimals),
{
    let d = match decimals {
        None => {
            return to_owned_string(raw);
        },
        Some(d) => d,
    };
    let t = trim_chars(raw);
    if t.len() == 0 || !chars_all_digits(&t) {
        return string_from_chars(&t);
    }
    let digits = normalize_digit_chars(&t);
    let dd = d as usize;
    if dd == 0 {
        return string_from_chars(&digits);
    }
    let ghost dn = d as nat;
    let mut out = String::new();
    let mut frac: Vec<char> = Vec::new();
    if digits.len() > dd {
        let split = digits.len() - dd;
        push_chars_range(&mut out, &digits, 0, split);
        let mut i = split;
        while i < digits.len()
            invariant
                split <= i <= digits.len(),
                frac@ == digits@.subrange(split as int, i as int),
            decreases digits.len() - i,
        {
            frac.push(digits[i]);
            assert(digits@.subrange(split as int, i + 1) =~= digits@.subrange(split as int, i as int).push(
                digits@[i as int],
            ));
            i += 1;
        }
        assert(digits@.subrange(0, split as int) =~= digits@.take(digits@.len() - dn));
        assert(digits@.subrange(split as int, digits.len() as int) =~= digits@.skip(digits@.len() - dn));
    } else {
        push_char(&mut out, '0');
        let pad = dd - digits.len();
        let mut i: usize = 0;
        while i < pad
            invariant
                i <= pad,
                frac@ == zeros(i as nat),
            decreases pad - i,
        {
            frac.push('0');
            assert(frac@ =~= zeros((i + 1) as nat));
            i += 1;
        }
        let mut j: usize = 0;
        while j < digits.len()
            invariant
                j <= digits.len(),
                frac@ == zeros(pad as nat) + digits@.take(j as int),
            decreases digits.len() - j,
        {
            frac.push(digits[j]);
            assert(digits@.take(j + 1) =~= digits@.take(j as int).push(digits@[j as int]));
            j += 1;
        }
        assert(digits@.take(digits.len() as int) =~= digits@);
        assert(out@ =~= seq!['0']);
    }
    let take: usize = if dd < 6 { dd } else { 6 };
    assert(frac@.len() == dn);
    let mut e = take;
    while e > 0 && frac[e - 1] == '0'
        invariant
            e <= take <= frac.len(),
            forall|i: int| e <= i < take ==> #[trigger] frac@[i] == '0',
        decreases e,
    {
        e -= 1;
    }
    proof {
        let ft = frac@.take(take as int);
        assert forall|i: int| e <= i < ft.len() implies #[trigger] ft[i] == '0' by {
            assert(ft[i] == frac@[i]);
        }
        if e > 0 {
            assert(ft[e - 1] == frac@[e - 1]);
        }
        lemma_strip_trailing_zeros_take(ft, e as int);
        assert(ft.take(e as int) =~= frac@.subrange(0, e as int));
    }
    if e > 0 {
        push_char(&mut out, '.');
        push_chars_range(&mut out, &frac, 0, e);
    }
    out
}

/// Base-unit decimal string for a human amount with `decimals` fraction digits:
/// the result of [`parse_native_amount_to_wei`] on every input.
pub open spec fn parse_native_amount_spec(input: Seq<char>, decimals: u8) -> Result<Seq<char>, WalletErrorView> {
    let t = trim_seq(input);
    if t.len() == 0 {
        Err(WalletErrorView::InvalidAmount("Amount is required"@))
    } else if t[0] == '-' {
        Err(WalletErrorView::InvalidAmount("Amount must be non-negative"@))
    } else {
        let p = first_index_of(t, '.');
        let whole = t.take(p);
        let frac = if p < t.len() { t.skip(p + 1) } else { Seq::<char>::empty() };
        if p < t.len() && first_index_of(frac, '.') < frac.len() {
            Err(WalletErrorView::InvalidAmount("Invalid amount format"@))
        } else if !all_digits(whole) || !all_digits(frac) {
            Err(WalletErrorView::InvalidAmount("Invalid amount format"@))
        } else if frac.len() > decimals {
            Err(
                WalletErrorView::InvalidAmount(
                    "Too many decimal places (max "@ + decimal_seq(decimals as nat) + ")"@,
                ),
            )
        } else {
            let w = if whole.len() == 0 { seq!['0'] } else { whole };
            Ok(normalized_digits(w + frac + zeros((decimals - frac.len()) as nat)))
        }
    }
}

fn invalid_amount(msg: &str) -> (e: WalletError)
    ensures
        e@ == WalletErrorView::InvalidAmount(msg@),
{
    WalletError::InvalidAmount(to_owned_string(msg))
}

/// Converts a human amount such as `"1.5"` into base units for a token with
/// `decimals` fraction digits (e.g. wei for 18), without leading zeros.
pub fn parse_native_amount_to_wei(input: &str, decimals: u8) -> (r: Result<String, WalletError>)
    ensures
        string_result_view(r) == parse_native_amount_spec(input@, decimals),
{
    let t = trim_chars(input);
    if t.len() == 0 {
        return Err(invalid_amount("Amount is required"));
    }
    if t[0] == '-' {
        return Err(invalid_amount("Amount must be non-negative"));
    }
    let p = find_char(&t, '.');
    let whole = chars_sub(&t, 0, p);
    let frac = if p < t.len() {
        chars_sub(&t, p + 1, t.len())
    } else {
        Vec::new()
    };
    assert(whole@ =~= t@.take(p as int));
    assert(p < t.len() ==> frac@ =~= t@.skip(p + 1));
    assert(p >= t.len() ==> frac@ =~= Seq::<char>::empty());
    if p < t.len() && find_char(&frac, '.') < frac.len() {
        return Err(invalid_amount("Invalid amount format"));
    }
    if !chars_all_digits(&whole) || !chars_all_digits(&frac) {
        return Err(invalid_amount("Invalid amount format"));
    }
    let dd = decimals as usize;
    if frac.len() > dd {
        let mut msg = to_owned_string("Too many decimal places (max ");
        push_decimal(&mut msg, decimals as u64);
        push_str(&mut msg, ")");
        assert(msg@ =~= "Too many decimal places (max "@ + decimal_seq(decimals as nat) + ")"@);
        return Err(WalletError::InvalidAmount(msg));
    }
    let mut as_wei: Vec<char> = Vec::new();
    if whole.len() == 0 {
        as_wei.push('0');
    } else {
        let mut i: usize = 0;
        while i < whole.len()
            invariant
                i <= whole.len(),
                as_wei@ == whole@.take(i as int),
            decreases whole.len() - i,
        {
            as_wei.push(whole[i]);
            assert(whole@.take(i + 1) =~= whole@.take(i as int).push(whole@[i as int]));
            i += 1;
        }
        assert(whole@.take(whole.len() as int) =~= whole@);
    }
    let ghost w = as_wei@;
    assert(w =~= (if whole@.len() == 0 { seq!['0'] } else { whole@ }));
    let mut j: usize = 0;
    while j < frac.len()
        invariant
            j <= frac.len(),
            as_wei@ == w + frac@.take(j as int),
        decreases frac.len() - j,
    {
        as_wei.push(frac[j]);
        assert(frac@.take(j + 1) =~= frac@.take(j as int).push(frac@[j as int]));
        j += 1;
    }
    assert(frac@.take(frac.len() as int) =~= frac@);
    let pad = dd - frac.len();
    let mut k: usize = 0;
    while k < pad
        invariant
            k <= pad,
            as_wei@ == w + frac@ + zeros(k as nat),
        decreases pad - k,
    {
        as_wei.push('0');
        assert(zeros((k + 1) as nat) =~= zeros(k as nat).push('0'));
        k += 1;
    }
    let n = normalize_digit_chars(&as_wei);
    Ok(string_from_chars(&n))
}


// ---------------------------------------------------------------------------
// Numeric value of amounts
// ---------------------------------------------------------------------------

/// `10^n`.
pub open spec fn pow10(n: nat) -> nat
    decreases n,
{
    if n == 0 {
        1
    } else {
        10 * pow10((n - 1) as nat)
    }
}

/// Appending digits shifts the value left by their count.
pub proof fn lemma_digits_value_concat(a: Seq<char>, b: Seq<char>)
    ensures
        digits_value(a + b) == digits_value(a) * pow10(b.len()) + digits_value(b),
    decreases b.len(),
{
    if b.len() == 0 {
        assert(a + b =~= a);
        assert(digits_value(b) == 0);
        assert(pow10(0) == 1);
    } else {
        let b0 = b.drop_last();
        assert((a + b).drop_last() =~= a + b0);
        assert((a + b).last() == b.last());
        lemma_digits_value_concat(a, b0);
        let va = digits_value(a);
        let p = pow10(b0.len());
        let vb = digits_value(b0);
        let dl = digit_value(b.last());
        assert(digits_value(a + b) == digits_value(a + b0) * 10 + dl);
        assert(digits_value(b) == vb * 10 + dl);
        assert(pow10(b.len()) == 10 * p);
        assert((va * p + vb) * 10 == va * (10 * p) + vb * 10) by (nonlinear_arith);
    }
}

/// A run of zeros is worth nothing.
pub proof fn lemma_digits_value_zeros(n: nat)
    ensures
        digits_value(zeros(n)) == 0,
    decreases n,
{
    if n > 0 {
        assert(zeros(n).drop_last() =~= zeros((n - 1) as nat));
        lemma_digits_value_zeros((n - 1) as nat);
    }
}

proof fn lemma_digits_value_single_zero()
    ensures
        digits_value(seq!['0']) == 0,
{
    let z = seq!['0'];
    assert(z.drop_last() =~= Seq::<char>::empty());
    assert(digits_value(Seq::<char>::empty()) == 0);
    assert(z.last() == '0');
    assert(('0' as u32) == 48);
    assert(digit_value('0') == 0);
}

/// Removing leading zeros keeps a digit string a digit string, and keeps its value.
pub proof fn lemma_normalized_digits_value(s: Seq<char>)
    requires
        all_digits(s),
    ensures
        all_digits(normalized_digits(s)),
        digits_value(normalized_digits(s)) == digits_value(s),
{
    lemma_strip_leading_zeros_value(s);
    if strip_leading_zeros(s).len() == 0 {
        lemma_digits_value_single_zero();
    }
}

proof fn lemma_strip_leading_zeros_value(s: Seq<char>)
    requires
        all_digits(s),
    ensures
        all_digits(strip_leading_zeros(s)),
        digits_value(strip_leading_zeros(s)) == digits_value(s),
    decreases s.len(),
{
    if s.len() > 0 && s[0] == '0' {
        let t = s.drop_first();
        assert(s =~= seq!['0'] + t);
        lemma_digits_value_concat(seq!['0'], t);
        lemma_digits_value_single_zero();
        lemma_strip_leading_zeros_value(t);
    }
}

/// An accepted amount is worth what it says: with `whole` and `frac` the digits
/// before and after the point of the trimmed input, the result is a digit string
/// whose value is `whole * 10^decimals + frac * 10^(decimals - frac.len())`, the
/// amount in base units.
pub proof fn law_parsed_amount_value(input: Seq<char>, decimals: u8)
    requires
        parse_native_amount_spec(input, decimals) is Ok,
    ensures
        ({
            let t = trim_seq(input);
            let p = first_index_of(t, '.');
            let whole = t.take(p);
            let frac = if p < t.len() { t.skip(p + 1) } else { Seq::<char>::empty() };
            let w = parse_native_amount_spec(input, decimals)->Ok_0;
            &&& frac.len() <= decimals
            &&& all_digits(w)
            &&& digits_value(w) == digits_value(whole) * pow10(decimals as nat) + digits_value(frac) * pow10(
                (decimals - frac.len()) as nat,
            )
        }),
{
    let t = trim_seq(input);
    let p = first_index_of(t, '.');
    let whole = t.take(p);
    let frac = if p < t.len() { t.skip(p + 1) } else { Seq::<char>::empty() };
    let k = (decimals - frac.len()) as nat;
    let w0 = if whole.len() == 0 { seq!['0'] } else { whole };
    assert(digits_value(w0) == digits_value(whole)) by {
        lemma_digits_value_single_zero();
    }
    let all = w0 + frac + zeros(k);
    assert(all_digits(all)) by {
        assert forall|i: int| 0 <= i < all.len() implies is_digit(#[trigger] all[i]) by {
            if i < w0.len() {
                assert(all[i] == w0[i]);
            } else if i < w0.len() + frac.len() {
                assert(all[i] == frac[i - w0.len()]);
            } else {
                assert(all[i] == zeros(k)[i - w0.len() - frac.len()]);
            }
        }
    }
    lemma_normalized_digits_value(all);
    lemma_digits_value_concat(w0 + frac, zeros(k));
    lemma_digits_value_zeros(k);
    lemma_digits_value_concat(w0, frac);
    lemma_pow10_add(frac.len(), k);
    let vw = digits_value(w0);
    let vf = digits_value(frac);
    assert((vw * pow10(frac.len()) + vf) * pow10(k) == vw * (pow10(frac.len()) * pow10(k)) + vf * pow10(k))
        by (nonlinear_arith);
}

/// `10^(a + b) == 10^a * 10^b`.
pub proof fn lemma_pow10_add(a: nat, b: nat)
    ensures
        pow10(a + b) == pow10(a) * pow10(b),
    decreases a,
{
    if a == 0 {
        assert(pow10(0) == 1);
    } else {
        let a1 = (a - 1) as nat;
        lemma_pow10_add(a1, b);
        assert(pow10(a + b) == 10 * pow10(a1 + b));
        assert(pow10(a) == 10 * pow10(a1));
        assert(10 * (pow10(a1) * pow10(b)) == (10 * pow10(a1)) * pow10(b)) by (nonlinear_arith);
    }
}

/// A digit string of length `n` is worth less than `10^n`.
pub proof fn lemma_digits_value_bound(x: Seq<char>)
    requires
        all_digits(x),
    ensures
        digits_value(x) < pow10(x.len()),
    decreases x.len(),
{
    if x.len() > 0 {
        let x0 = x.drop_last();
        assert(all_digits(x0)) by {
            assert forall|i: int| 0 <= i < x0.len() implies is_digit(#[trigger] x0[i]) by {
                assert(x0[i] == x[i]);
            }
        }
        lemma_digits_value_bound(x0);
        assert(is_digit(x[x.len() - 1]));
        assert(digit_value(x.last()) <= 9);
        let v = digits_value(x0);
        let p = pow10(x0.len());
        assert(v * 10 + 9 < 10 * p) by (nonlinear_arith)
            requires
                v < p,
        ;
    } else {
        assert(pow10(0) == 1);
    }
}

proof fn lemma_strip_trailing_zeros_split(x: Seq<char>)
    ensures
        strip_trailing_zeros(x).len() <= x.len(),
        x == strip_trailing_zeros(x) + zeros((x.len() - strip_trailing_zeros(x).len()) as nat),
        strip_trailing_zeros(x) == x.take(strip_trailing_zeros(x).len() as int),
        strip_trailing_zeros(x).len() == 0 || strip_trailing_zeros(x).last() != '0',
    decreases x.len(),
{
    if x.len() > 0 && x.last() == '0' {
        let x0 = x.drop_last();
        lemma_strip_trailing_zeros_split(x0);
        let r = strip_trailing_zeros(x0);
        let m = (x0.len() - r.len()) as nat;
        assert(zeros((m + 1) as nat) =~= zeros(m).push('0'));
        assert(x =~= x0.push('0'));
        assert(x =~= r + zeros((m + 1) as nat));
        assert(x.take(r.len() as int) =~= x0.take(r.len() as int));
    } else {
        assert(zeros(0) =~= Seq::<char>::empty());
        assert(x =~= x + zeros(0));
        assert(x.take(x.len() as int) =~= x);
    }
}

proof fn lemma_digits_sub(x: Seq<char>, a: int, b: int)
    requires
        all_digits(x),
        0 <= a <= b <= x.len(),
    ensures
        all_digits(x.subrange(a, b)),
{
    assert forall|i: int| 0 <= i < b - a implies is_digit(#[trigger] x.subrange(a, b)[i]) by {
        assert(x.subrange(a, b)[i] == x[a + i]);
    }
}

/// Display `r` shows amount value `v` with `decimals` fraction digits as integer
/// part `ip` and fraction `fp`: `fp` holds at most the shown number of digits, has
/// no trailing zero, and is left out with its point when empty; `ip` is `v`
/// divided by `10^decimals`, and `fp` padded to the shown length is the leading
/// digits of the remainder.
pub open spec fn shows_amount(r: Seq<char>, v: nat, decimals: nat, ip: Seq<char>, fp: Seq<char>) -> bool {
    let sh = shown_fraction_len(decimals);
    &&& r == (if fp.len() == 0 { ip } else { ip + seq!['.'] + fp })
    &&& ip.len() > 0 && all_digits(ip) && all_digits(fp)
    &&& fp.len() <= sh
    &&& (fp.len() == 0 || fp.last() != '0')
    &&& digits_value(ip) == v / pow10(decimals)
    &&& digits_value(fp) * pow10((sh - fp.len()) as nat) == (v % pow10(decimals)) / pow10((decimals - sh) as nat)
}

/// The display of a plain digit amount is its value cut to the shown fraction
/// digits (see [`shows_amount`]).
pub proof fn law_formatted_amount_value(raw: Seq<char>, decimals: u8)
    requires
        trim_seq(raw).len() > 0,
        all_digits(trim_seq(raw)),
    ensures
        exists|ip: Seq<char>, fp: Seq<char>|
            #[trigger] shows_amount(
                format_decimal_amount_spec(raw, Some(decimals)),
                digits_value(trim_seq(raw)),
                decimals as nat,
                ip,
                fp,
            ),
{
    let t = trim_seq(raw);
    let v = digits_value(t);
    let dn = decimals as nat;
    let sh = shown_fraction_len(dn);
    let digits = normalized_digits(t);
    lemma_normalized_digits_value(t);
    let n = digits.len();
    lemma_pow10_positive(dn);
    lemma_pow10_positive((dn - sh) as nat);
    let r = format_decimal_amount_spec(raw, Some(decimals));
    if dn == 0 {
        assert(r == digits);
        assert(pow10(0) == 1);
        assert(v % 1 == 0 && v / 1 == v) by (nonlinear_arith);
        let fp = Seq::<char>::empty();
        assert(digits_value(fp) * pow10(0) == 0);
        assert(shows_amount(r, v, dn, digits, fp));
    } else {
        let int_part = if n > dn { digits.take(n - dn) } else { seq!['0'] };
        let frac_full = if n > dn { digits.skip(n - dn) } else { zeros((dn - n) as nat) + digits };
        assert(frac_full.len() == dn);
        assert(all_digits(int_part) && all_digits(frac_full) && digits_value(int_part) * pow10(dn) + digits_value(
            frac_full,
        ) == v) by {
            if n > dn {
                lemma_digits_sub(digits, 0, n - dn);
                lemma_digits_sub(digits, n - dn, n as int);
                assert(digits.take(n - dn) =~= digits.subrange(0, n - dn));
                assert(digits.skip(n - dn) =~= digits.subrange(n - dn, n as int));
                assert(digits =~= int_part + frac_full);
                lemma_digits_value_concat(int_part, frac_full);
            } else {
                lemma_digits_value_single_zero();
                let z = zeros((dn - n) as nat);
                lemma_digits_value_concat(z, digits);
                lemma_digits_value_zeros((dn - n) as nat);
                assert forall|i: int| 0 <= i < frac_full.len() implies is_digit(#[trigger] frac_full[i]) by {
                    if i < z.len() {
                        assert(frac_full[i] == z[i]);
                    } else {
                        assert(frac_full[i] == digits[i - z.len()]);
                    }
                }
                assert(0nat * pow10(dn) == 0);
            }
        }
        lemma_digits_value_bound(frac_full);
        let ip_v = digits_value(int_part);
        let fv = digits_value(frac_full);
        vstd::arithmetic::div_mod::lemma_fundamental_div_mod_converse(v as int, pow10(dn) as int, ip_v as int, fv as int);
        let ft = frac_full.take(sh as int);
        let rest = frac_full.skip(sh as int);
        lemma_digits_sub(frac_full, 0, sh as int);
        lemma_digits_sub(frac_full, sh as int, dn as int);
        assert(ft =~= frac_full.subrange(0, sh as int));
        assert(rest =~= frac_full.subrange(sh as int, dn as int));
        assert(frac_full =~= ft + rest);
        lemma_digits_value_concat(ft, rest);
        lemma_digits_value_bound(rest);
        vstd::arithmetic::div_mod::lemma_fundamental_div_mod_converse(
            fv as int,
            pow10((dn - sh) as nat) as int,
            digits_value(ft) as int,
            digits_value(rest) as int,
        );
        let fp = strip_trailing_zeros(ft);
        lemma_strip_trailing_zeros_split(ft);
        let m = (ft.len() - fp.len()) as nat;
        lemma_digits_value_concat(fp, zeros(m));
        lemma_digits_value_zeros(m);
        lemma_digits_sub(ft, 0, fp.len() as int);
        assert(fp =~= ft.subrange(0, fp.len() as int));
        assert(int_part.len() > 0);
        assert(r == (if fp.len() == 0 { int_part } else { int_part + seq!['.'] + fp }));
        assert(v % pow10(dn) == fv);
        assert(shows_amount(r, v, dn, int_part, fp));
    }
}

proof fn lemma_pow10_positive(n: nat)
    ensures
        pow10(n) > 0,
    decreases n,
{
    if n > 0 {
        lemma_pow10_positive((n - 1) as nat);
    }
}

} // verus!
