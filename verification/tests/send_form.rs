use vaughan_dioxus::amounts::parse_native_amount_to_wei;
use vaughan_dioxus::errors::WalletError;
use vaughan_dioxus::send_form::{
    amount_check, bump_fee_12_percent_plus_one, bump_fee_after_parse, eq_ignore_ascii_case,
    map_send_error_like_metamask, parse_optional_u256_decimal, replacement_fees, u256_field_after_parse,
    validate_and_normalize_send_inputs, validate_send_form, apply_fee_preset, preset_field, FeePreset,
};

const FROM: &str = "0x1111111111111111111111111111111111111111";
const TO: &str = "0x2222222222222222222222222222222222222222";

fn amount_err(msg: &str) -> WalletError {
    WalletError::InvalidAmount(msg.to_string())
}

#[test]
fn native_amount_to_wei_scales_by_decimals() {
    assert_eq!(parse_native_amount_to_wei("1.5", 18).unwrap(), "1500000000000000000");
    assert_eq!(parse_native_amount_to_wei(" 0.000 ", 18).unwrap(), "0");
    assert_eq!(parse_native_amount_to_wei("007", 0).unwrap(), "7");
    assert_eq!(parse_native_amount_to_wei(".25", 2).unwrap(), "25");
    assert_eq!(parse_native_amount_to_wei("3.", 2).unwrap(), "300");
}

#[test]
fn native_amount_errors() {
    assert_eq!(parse_native_amount_to_wei("   ", 18), Err(amount_err("Amount is required")));
    assert_eq!(parse_native_amount_to_wei("-1", 18), Err(amount_err("Amount must be non-negative")));
    assert_eq!(parse_native_amount_to_wei("1.2.3", 18), Err(amount_err("Invalid amount format")));
    assert_eq!(parse_native_amount_to_wei("1e5", 18), Err(amount_err("Invalid amount format")));
    assert_eq!(
        parse_native_amount_to_wei("1.1234567", 6),
        Err(amount_err("Too many decimal places (max 6)"))
    );
}

#[test]
fn send_inputs_are_trimmed_and_data_normalized() {
    let r = validate_and_normalize_send_inputs(
        FROM,
        format!("  {TO}  "),
        " 1000 ".to_string(),
        Some(" 0XdeadBEEF ".to_string()),
        Ok(()),
    );
    assert_eq!(r, Ok((TO.to_string(), "1000".to_string(), Some("0xdeadBEEF".to_string()))));
    let r = validate_and_normalize_send_inputs(FROM, TO.to_string(), "5".to_string(), Some("abcd".to_string()), Ok(()));
    assert_eq!(r, Ok((TO.to_string(), "5".to_string(), Some("0xabcd".to_string()))));
    let r = validate_and_normalize_send_inputs(FROM, TO.to_string(), "5".to_string(), Some("  ".to_string()), Ok(()));
    assert_eq!(r, Ok((TO.to_string(), "5".to_string(), None)));
}

#[test]
fn send_inputs_errors_in_order() {
    let r = validate_and_normalize_send_inputs(FROM, "  ".to_string(), "1".to_string(), None, Ok(()));
    assert_eq!(r, Err(WalletError::InvalidAddress("Recipient address is required".to_string())));
    let bad = WalletError::InvalidAddress("bad address".to_string());
    let r = validate_and_normalize_send_inputs(FROM, "nope".to_string(), "1".to_string(), None, Err(bad.clone()));
    assert_eq!(r, Err(bad));
    let r = validate_and_normalize_send_inputs(FROM, FROM.to_uppercase().replace("0X", "0x"), "1".to_string(), None, Ok(()));
    assert_eq!(
        r,
        Err(WalletError::InvalidTransaction("Sender and recipient cannot be the same address".to_string()))
    );
    let r = validate_and_normalize_send_inputs(FROM, TO.to_string(), " ".to_string(), None, Ok(()));
    assert_eq!(r, Err(amount_err("Amount is required")));
    let r = validate_and_normalize_send_inputs(FROM, TO.to_string(), "1.5".to_string(), None, Ok(()));
    assert_eq!(r, Err(amount_err("Amount must be a decimal wei value")));
    let r = validate_and_normalize_send_inputs(FROM, TO.to_string(), "0".to_string(), None, Ok(()));
    assert_eq!(r, Err(amount_err("Amount must be greater than zero")));
    let r = validate_and_normalize_send_inputs(FROM, TO.to_string(), "1".to_string(), Some("0xabc".to_string()), Ok(()));
    assert_eq!(
        r,
        Err(WalletError::InvalidTransaction("Data hex must have an even number of characters".to_string()))
    );
    let r = validate_and_normalize_send_inputs(FROM, TO.to_string(), "1".to_string(), Some("0xzz".to_string()), Ok(()));
    assert_eq!(r, Err(WalletError::InvalidTransaction("Data must be valid hex".to_string())));
}

#[test]
fn send_form_with_given_amount_parse() {
    let r = validate_send_form(FROM, TO.to_string(), "9".to_string(), None, Ok(()), None);
    assert_eq!(r, Err(amount_err("Amount must be a decimal wei value")));
    let r = validate_send_form(FROM, TO.to_string(), "9".to_string(), None, Ok(()), Some([0, 0, 0, 0]));
    assert_eq!(r, Err(amount_err("Amount must be greater than zero")));
    let r = validate_send_form(FROM, TO.to_string(), "9".to_string(), None, Ok(()), Some([0, 1, 0, 0]));
    assert_eq!(r, Ok((TO.to_string(), "9".to_string(), None)));
    assert_eq!(amount_check(Some([7, 0, 0, 0])), Ok(()));
}

#[test]
fn ascii_case_insensitive_equality() {
    assert!(eq_ignore_ascii_case("0xAbCd", "0XaBcD"));
    assert!(!eq_ignore_ascii_case("0xabcd", "0xabce"));
    assert!(!eq_ignore_ascii_case("É", "é"));
}

#[test]
fn optional_fee_fields() {
    assert_eq!(parse_optional_u256_decimal(None, "max_fee_per_gas"), Ok(None));
    assert_eq!(parse_optional_u256_decimal(Some("  ".to_string()), "max_fee_per_gas"), Ok(None));
    assert_eq!(
        parse_optional_u256_decimal(Some(" 0x10 ".to_string()), "max_fee_per_gas"),
        Ok(Some("16".to_string()))
    );
    assert_eq!(
        parse_optional_u256_decimal(Some("0042".to_string()), "max_fee_per_gas"),
        Ok(Some("42".to_string()))
    );
    assert_eq!(
        parse_optional_u256_decimal(Some("abc".to_string()), "max_priority_fee_per_gas"),
        Err(amount_err("max_priority_fee_per_gas must be a decimal wei value"))
    );
    assert_eq!(u256_field_after_parse(Some([5, 0, 0, 0]), "f"), Ok("5".to_string()));
    assert_eq!(u256_field_after_parse(None, "f"), Err(amount_err("f must be a decimal wei value")));
}

#[test]
fn fee_bump_is_twelve_percent_plus_one() {
    assert_eq!(bump_fee_12_percent_plus_one("100"), Ok("113".to_string()));
    assert_eq!(bump_fee_12_percent_plus_one("1000000000"), Ok("1120000001".to_string()));
    assert_eq!(bump_fee_12_percent_plus_one("0"), Ok("1".to_string()));
    assert_eq!(bump_fee_12_percent_plus_one("9"), Ok("11".to_string()));
    assert_eq!(bump_fee_12_percent_plus_one("x"), Err(amount_err("Invalid fee value")));
    assert_eq!(bump_fee_after_parse(Some([50, 0, 0, 0])), Ok("57".to_string()));
    assert_eq!(bump_fee_after_parse(None), Err(amount_err("Invalid fee value")));
}

#[test]
fn fee_bump_wraps_at_two_to_the_256() {
    let max = "115792089237316195423570985008687907853269984665640564039457584007913129639935";
    // (2^256 - 1) * 112 wraps to 2^256 - 112; divided by 100, plus one.
    let r = bump_fee_12_percent_plus_one(max).unwrap();
    assert_eq!(r, "1157920892373161954235709850086879078532699846656405640394575840079131296399");
}

#[test]
fn replacement_fees_prefer_pending_then_estimate() {
    let r = replacement_fees(Some("100".to_string()), Some("5".to_string()), None, Some("10".to_string()));
    assert_eq!(r, Ok(("113".to_string(), "12".to_string())));
    let r = replacement_fees(None, None, Some("1".to_string()), None);
    assert_eq!(r, Err(WalletError::InvalidTransaction("Missing max_fee_per_gas".to_string())));
    let r = replacement_fees(Some("1".to_string()), None, None, None);
    assert_eq!(r, Err(WalletError::InvalidTransaction("Missing max_priority_fee_per_gas".to_string())));
    let r = replacement_fees(Some("bad".to_string()), None, Some("1".to_string()), None);
    assert_eq!(r, Err(amount_err("Invalid fee value")));
}

#[test]
fn wallet_style_error_messages() {
    assert_eq!(
        map_send_error_like_metamask(&WalletError::WalletLocked),
        Some("MetaMask-style: wallet is locked. Unlock and retry.".to_string())
    );
    assert_eq!(
        map_send_error_like_metamask(&WalletError::InvalidAmount("x".to_string())),
        Some("MetaMask-style: invalid transaction amount.".to_string())
    );
    assert_eq!(
        map_send_error_like_metamask(&WalletError::SigningFailed("User denied signing".to_string())),
        Some("MetaMask-style: user rejected the signature request.".to_string())
    );
    assert_eq!(map_send_error_like_metamask(&WalletError::SigningFailed("hardware".to_string())), None);
    assert_eq!(map_send_error_like_metamask(&WalletError::Other("x".to_string())), None);
    assert_eq!(
        map_send_error_like_metamask(&WalletError::InsufficientBalance),
        Some("MetaMask-style: insufficient funds for gas * price + value.".to_string())
    );
}

#[test]
fn bumped_fee_outbids_the_base_fee() {
    for base in ["0", "1", "99", "100", "123456789012345678901234567890"] {
        let bumped: u128 = bump_fee_12_percent_plus_one(base).unwrap().parse().unwrap();
        let b: u128 = base.parse().unwrap();
        assert!(bumped > b);
    }
    assert_eq!(
        bump_fee_12_percent_plus_one("123456789012345678901234567890"),
        Ok("138271603693827160369382716037".to_string())
    );
}

#[test]
fn fee_presets_scale_the_estimate() {
    assert_eq!(apply_fee_preset(FeePreset::Low, "1000000001"), Some("900000000".to_string()));
    assert_eq!(apply_fee_preset(FeePreset::Aggressive, "1000000001"), Some("1200000001".to_string()));
    assert_eq!(apply_fee_preset(FeePreset::Market, " 77 "), Some(" 77 ".to_string()));
    assert_eq!(apply_fee_preset(FeePreset::Low, "gwei"), None);
    assert_eq!(apply_fee_preset(FeePreset::Aggressive, "0x10"), Some("19".to_string()));
}

#[test]
fn fee_preset_leaves_a_field_without_estimate() {
    assert_eq!(preset_field(FeePreset::Low, None, "5".to_string()), "5");
    assert_eq!(preset_field(FeePreset::Low, Some("bad".to_string()), "5".to_string()), "5");
    assert_eq!(preset_field(FeePreset::Low, Some("100".to_string()), "5".to_string()), "90");
    assert_eq!(preset_field(FeePreset::Market, Some("100".to_string()), "5".to_string()), "100");
}
