use intent_engine::amount::{scale_amount, Nat};
use intent_engine::errors::InvalidInput;

#[test]
fn scale_pads_the_fraction_to_the_precision() {
    assert_eq!(scale_amount("10.5", 8), Ok(Nat::from_u64(1_050_000_000)));
    assert_eq!(scale_amount("1.5", 1), Ok(Nat::from_u64(15)));
    assert_eq!(scale_amount("10", 0), Ok(Nat::from_u64(10)));
    assert_eq!(scale_amount("0.5", 8), Ok(Nat::from_u64(50_000_000)));
}

#[test]
fn scale_ignores_surrounding_whitespace_and_leading_zeros() {
    assert_eq!(scale_amount("  007.10 ", 2), Ok(Nat::from_u64(710)));
}

#[test]
fn scale_accepts_an_empty_side_of_the_point() {
    assert_eq!(scale_amount(".5", 1), Ok(Nat::from_u64(5)));
    assert_eq!(scale_amount("5.", 1), Ok(Nat::from_u64(50)));
    assert_eq!(scale_amount(".", 2), Ok(Nat::from_u64(0)));
}

#[test]
fn scale_reports_too_many_decimals() {
    assert_eq!(scale_amount("1.23", 1), Err(InvalidInput::TooManyDecimals { max: 1 }));
    assert_eq!(scale_amount("1.2x3", 1), Err(InvalidInput::TooManyDecimals { max: 1 }));
}

#[test]
fn scale_rejects_malformed_amounts() {
    assert_eq!(scale_amount("1.2.3", 8), Err(InvalidInput::InvalidAmountFormat));
    assert_eq!(scale_amount("12a", 2), Err(InvalidInput::InvalidAmountFormat));
    assert_eq!(scale_amount("1_000", 2), Err(InvalidInput::InvalidAmountFormat));
    assert_eq!(scale_amount("+5", 2), Err(InvalidInput::InvalidAmountFormat));
    assert_eq!(scale_amount("-5", 2), Err(InvalidInput::InvalidAmountFormat));
    assert_eq!(scale_amount("1 0", 2), Err(InvalidInput::InvalidAmountFormat));
    assert_eq!(scale_amount("", 0), Err(InvalidInput::InvalidAmountFormat));
    assert_eq!(scale_amount(".", 0), Err(InvalidInput::InvalidAmountFormat));
}

#[test]
fn scale_is_not_bounded_by_machine_integers() {
    let n = scale_amount("340282366920938463463374607431768211456.000000000000000001", 18).unwrap();
    assert_eq!(n.to_text(), "340_282_366_920_938_463_463_374_607_431_768_211_456_000_000_000_000_000_001");
    assert!(Nat::from_u128(u128::MAX).less_than(&n));
}

#[test]
fn scaled_amount_keeps_the_value_of_the_text() {
    // 12.34 at 6 decimals is 12340000: times 10^2 it is 1234 times 10^6.
    let scaled = scale_amount("12.34", 6).unwrap();
    assert_eq!(scaled, Nat::from_u64(12_340_000));
    assert_eq!(12_340_000u64 * 100, 1234u64 * 1_000_000);
}

#[test]
fn amounts_are_shown_in_groups_of_three() {
    assert_eq!(Nat::from_u64(0).to_text(), "0");
    assert_eq!(Nat::from_u64(999).to_text(), "999");
    assert_eq!(Nat::from_u64(1000).to_text(), "1_000");
    assert_eq!(Nat::from_u64(1_234_567).to_text(), "1_234_567");
}

#[test]
fn nat_arithmetic() {
    let a = Nat::from_u64(70);
    let b = Nat::from_u64(45);
    assert_eq!(a.plus(&b), Nat::from_u64(115));
    assert_eq!(a.minus(&b), Some(Nat::from_u64(25)));
    assert_eq!(b.minus(&a), None);
    assert!(b.less_than(&a));
    assert!(!a.less_than(&a));
    assert!(Nat::from_u64(0).is_zero());
    assert!(!a.is_zero());
    assert_eq!(a.clone(), a);
}

#[test]
fn nat_limbs_round_trip() {
    let n = Nat::from_u128(0x1_0000_0002_0000_0003);
    assert_eq!(n.to_limbs(), vec![3u32, 2, 1]);
    assert_eq!(Nat::from_limbs(&vec![3u32, 2, 1]), n);
    assert_eq!(Nat::from_u64(0).to_limbs(), Vec::<u32>::new());
    assert_eq!(Nat::from_limbs(&vec![7u32, 0]), Nat::from_u64(7));
}

#[test]
fn written_numbers_may_carry_a_plus_and_underscores() {
    assert_eq!(Nat::parse_number("1_000"), Some(Nat::from_u64(1000)));
    assert_eq!(Nat::parse_number("+42"), Some(Nat::from_u64(42)));
    assert_eq!(Nat::parse_number("+1__2_"), Some(Nat::from_u64(12)));
    assert_eq!(Nat::parse_number("007"), Some(Nat::from_u64(7)));
    assert_eq!(Nat::parse_number(""), None);
    assert_eq!(Nat::parse_number("+"), None);
    assert_eq!(Nat::parse_number("++1"), None);
    assert_eq!(Nat::parse_number("_1"), None);
    assert_eq!(Nat::parse_number("+_1"), None);
    assert_eq!(Nat::parse_number("1+"), None);
    assert_eq!(Nat::parse_number("-1"), None);
    assert_eq!(Nat::parse_number("1.5"), None);
    assert_eq!(Nat::parse_number(" 1"), None);
    assert_eq!(Nat::parse_number("1a"), None);
}

#[test]
fn nat_parse_digits() {
    assert_eq!(Nat::parse_digits("0042"), Some(Nat::from_u64(42)));
    assert_eq!(Nat::parse_digits(""), None);
    assert_eq!(Nat::parse_digits("4_2"), None);
    assert_eq!(Nat::parse_digits("+42"), None);
}

#[test]
fn invalid_input_messages() {
    assert_eq!(InvalidInput::InvalidAmountFormat.message("1.2.3"), "format amount tidak valid");
    assert_eq!(InvalidInput::TooManyDecimals { max: 8 }.message("1"), "maksimal 8 digit desimal");
    assert_eq!(
        InvalidInput::TooManyDecimals { max: 255 }.message(""),
        "maksimal 255 digit desimal"
    );
    assert_eq!(InvalidInput::UnknownAsset.message("DOGE"), "token tidak di-allowlist");
    assert_eq!(InvalidInput::InvalidLedgerId.message("ICP"), "ledger id invalid");
    assert_eq!(
        InvalidInput::UnknownRecipient.message("carol"),
        "alias/principal 'carol' tidak ditemukan"
    );
    assert_eq!(InvalidInput::UnknownRecipient.message(""), "alias/principal '' tidak ditemukan");
}
