//! 256-bit unsigned amounts (wei values) through `alloy::primitives::U256`,
//! handled as four little-endian 64-bit limbs.

use std::str::FromStr;
use alloy::primitives::U256;
use vstd::prelude::*;
use crate::text::decimal_seq;

verus! {

/// 2^64.
pub open spec fn limb_base() -> nat {
    0x1_0000_0000_0000_0000nat
}

/// 2^256, the modulus of wrapping arithmetic.
pub open spec fn u256_modulus() -> nat {
    limb_base() * limb_base() * limb_base() * limb_base()
}

/// The number that four little-endian limbs stand for.
pub open spec fn u256_value(l: [u64; 4]) -> nat {
    l[0] as nat + limb_base() * (l[1] as nat + limb_base() * (l[2] as nat + limb_base() * (l[3] as nat)))
}

/// The limbs of a small constant.
pub open spec fn small_limbs(n: u64) -> [u64; 4] {
    [n, 0, 0, 0]
}

/// What `U256::from_str` gives for `s` (decimal, or `0x`/`0o`/`0b` prefixed
/// digits; `_` separators allowed), as limbs, or `None` on a parse error.
pub uninterp spec fn u256_from_str_result(s: Seq<char>) -> Option<[u64; 4]>;

/// Parses `s` with `U256::from_str`.
///
/// Trusted: the result is the named value `u256_from_str_result(s@)`.
#[verifier::external_body]
pub(crate) fn u256_from_str(s: &str) -> (r: Option<[u64; 4]>)
    ensures
        r == u256_from_str_result(s@),
{
    match U256::from_str(s) {
        Ok(v) => Some(v.into_limbs()),
        Err(_) => None,
    }
}

/// `U256` multiplication (`*`), which wraps at 2^256.
///
/// Trusted: the product is taken modulo 2^256, as `wrapping_mul` documents.
#[verifier::external_body]
pub(crate) fn u256_mul(a: [u64; 4], b: [u64; 4]) -> (r: [u64; 4])
    ensures
        u256_value(r) == (u256_value(a) * u256_value(b)) % u256_modulus(),
{
    (U256::from_limbs(a) * U256::from_limbs(b)).into_limbs()
}

/// `U256` division (`/`), rounding down.
///
/// Trusted: the quotient is `a / b` rounded down, as `wrapping_div` documents.
#[verifier::external_body]
pub(crate) fn u256_div(a: [u64; 4], b: [u64; 4]) -> (r: [u64; 4])
    requires
        u256_value(b) != 0,
    ensures
        u256_value(r) == u256_value(a) / u256_value(b),
{
    (U256::from_limbs(a) / U256::from_limbs(b)).into_limbs()
}

/// `U256` addition (`+`), which wraps at 2^256.
///
/// Trusted: the sum is taken modulo 2^256, as `wrapping_add` documents.
#[verifier::external_body]
pub(crate) fn u256_add(a: [u64; 4], b: [u64; 4]) -> (r: [u64; 4])
    ensures
        u256_value(r) == (u256_value(a) + u256_value(b)) % u256_modulus(),
{
    (U256::from_limbs(a) + U256::from_limbs(b)).into_limbs()
}

/// `U256`'s `Display` form.
///
/// Trusted: the text is the decimal rendering of the value, without leading zeros.
#[verifier::external_body]
pub(crate) fn u256_to_decimal(a: [u64; 4]) -> (s: String)
    ensures
        s@ == decimal_seq(u256_value(a)),
{
    U256::from_limbs(a).to_string()
}

/// `U256::is_zero`.
pub fn u256_is_zero(a: [u64; 4]) -> (z: bool)
    ensures
        z == (u256_value(a) == 0),
{
    proof {
        assert(u256_value(a) >= a[0] as nat);
        if a[1] != 0 || a[2] != 0 || a[3] != 0 {
            assert(limb_base() * (a[1] as nat + limb_base() * (a[2] as nat + limb_base() * (a[3] as nat)))
                >= limb_base()) by (nonlinear_arith)
                requires
                    a[1] != 0 || a[2] != 0 || a[3] != 0,
            ;
        }
    }
    a[0] == 0 && a[1] == 0 && a[2] == 0 && a[3] == 0
}

/// Limbs of a `u64` constant.
pub fn u256_from_u64(n: u64) -> (l: [u64; 4])
    ensures
        l == small_limbs(n),
        u256_value(l) == n,
{
    [n, 0, 0, 0]
}

} // verus!
