use tx_ledger::amount::{Amount, MAX_UNITS};

#[test]
fn parse_keeps_four_fractional_digits() {
    assert_eq!(Amount::parse("1.1234").unwrap().units(), 11234);
    assert_eq!(Amount::parse("10.5").unwrap().units(), 105000);
    assert_eq!(Amount::parse("100").unwrap().units(), 1000000);
    assert_eq!(Amount::parse("1.0").unwrap().units(), 10000);
    assert_eq!(Amount::parse("0.5").unwrap().units(), 5000);
}

#[test]
fn parse_rounds_extra_digits_to_even() {
    assert_eq!(Amount::parse("1.23456").unwrap().units(), 12346);
    assert_eq!(Amount::parse("1.00005").unwrap().units(), 10000);
    assert_eq!(Amount::parse("1.00015").unwrap().units(), 10002);
}

#[test]
fn parse_negative_and_rejects() {
    assert_eq!(Amount::parse("-2.5").unwrap().units(), -25000);
    assert_eq!(Amount::parse("abc"), None);
    assert_eq!(Amount::parse(""), None);
    assert_eq!(Amount::parse("79228162514264337593543950335"), None);
}

#[test]
fn parse_largest_in_range() {
    assert_eq!(
        Amount::parse("7922816251426433759354395.0335").unwrap().units(),
        MAX_UNITS
    );
}

#[test]
fn from_decimal_parts_scales() {
    assert_eq!(Amount::from_decimal_parts(15, 1).unwrap().units(), 15000);
    assert_eq!(Amount::from_decimal_parts(123456, 6).unwrap().units(), 1235);
    assert_eq!(Amount::from_decimal_parts(MAX_UNITS, 0), None);
}

#[test]
fn to_decimal_string_four_digits() {
    assert_eq!(Amount::from_units(1000000).to_decimal_string().unwrap(), "100.0000");
    assert_eq!(Amount::from_units(9005678).to_decimal_string().unwrap(), "900.5678");
    assert_eq!(Amount::from_units(-5).to_decimal_string().unwrap(), "-0.0005");
    assert_eq!(Amount::zero().to_decimal_string().unwrap(), "0.0000");
    assert_eq!(Amount::from_units(i128::MAX).to_decimal_string(), None);
}

#[test]
fn parse_field_empty_and_invalid() {
    assert_eq!(Amount::parse_field(""), Ok(None));
    assert_eq!(Amount::parse_field("2.75").unwrap().unwrap().units(), 27500);
    assert_eq!(Amount::parse_field("x1"), Err(tx_ledger::amount::AmountError::Invalid));
}
