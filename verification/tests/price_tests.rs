use kitties::price::{parse_price_usd, Permill};

#[test]
fn parses_integer_and_six_decimals() {
    let r = parse_price_usd(b"6.123456".to_vec());
    assert_eq!(r, Some((6, Permill { parts: 123456 })));
}

#[test]
fn takes_exactly_six_decimals_of_a_longer_fraction() {
    let r = parse_price_usd(b"12.3456789".to_vec());
    assert_eq!(r, Some((12, Permill { parts: 345678 })));
}

#[test]
fn rejects_a_numeral_without_a_dot() {
    assert_eq!(parse_price_usd(b"1234567".to_vec()), None);
}

#[test]
fn rejects_a_short_fraction() {
    assert_eq!(parse_price_usd(b"6.123".to_vec()), None);
}

#[test]
fn rejects_an_empty_whole_part() {
    assert_eq!(parse_price_usd(b".123456".to_vec()), None);
}

#[test]
fn rejects_non_digits_in_either_part() {
    assert_eq!(parse_price_usd(b"6a.123456".to_vec()), None);
    assert_eq!(parse_price_usd(b"6.12x456".to_vec()), None);
}

#[test]
fn rejects_a_whole_part_beyond_the_64_bit_range() {
    assert_eq!(parse_price_usd(b"18446744073709551616.123456".to_vec()), None);
}

#[test]
fn accepts_the_largest_64_bit_whole_part() {
    let r = parse_price_usd(b"18446744073709551615.000001".to_vec());
    assert_eq!(r, Some((u64::MAX, Permill { parts: 1 })));
}

#[test]
fn splits_at_the_first_dot() {
    let r = parse_price_usd(b"1.234567.8".to_vec());
    assert_eq!(r, Some((1, Permill { parts: 234567 })));
}
