use vaughan_dioxus::amounts::{format_decimal_amount, parse_native_amount_to_wei};

#[test]
fn parsed_amount_is_worth_whole_and_fraction() {
    for (input, decimals, whole, frac) in [("12.5", 6u8, 12u128, "5"), (" 0.000001 ", 6, 0, "000001"), ("7", 3, 7, ""), (".25", 2, 0, "25")] {
        let w = parse_native_amount_to_wei(input, decimals).unwrap();
        assert!(w.chars().all(|c| c.is_ascii_digit()));
        let frac_value: u128 = if frac.is_empty() { 0 } else { frac.parse().unwrap() };
        let expected = whole * 10u128.pow(decimals as u32) + frac_value * 10u128.pow(decimals as u32 - frac.len() as u32);
        assert_eq!(w.parse::<u128>().unwrap(), expected, "{input}");
    }
}

#[test]
fn formatted_amount_is_the_value_cut_to_six_digits() {
    for (raw, decimals) in [("1234567891", 9u8), ("1500000000000000000", 18), ("42", 0), ("7", 3), ("120000", 4)] {
        let v: u128 = raw.parse().unwrap();
        let shown = format_decimal_amount(raw, Some(decimals));
        let (ip, fp) = match shown.split_once('.') {
            Some((i, f)) => (i.to_string(), f.to_string()),
            None => (shown.clone(), String::new()),
        };
        let sh = (decimals as u32).min(6);
        let p = 10u128.pow(decimals as u32);
        assert_eq!(ip.parse::<u128>().unwrap(), v / p, "{raw}");
        assert!(fp.len() as u32 <= sh && !fp.ends_with('0'));
        let fp_value: u128 = if fp.is_empty() { 0 } else { fp.parse().unwrap() };
        assert_eq!(fp_value * 10u128.pow(sh - fp.len() as u32), (v % p) / 10u128.pow(decimals as u32 - sh), "{raw}");
    }
}
