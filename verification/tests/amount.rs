use wallet_core::amount::{
    amount_from_limbs, has_sufficient_funds, parse_amount, parse_whole_amount, scale_token_amount,
    transaction_cost, AmountError,
};

const ETHER: u128 = 1_000_000_000_000_000_000;

#[test]
fn ether_text_is_read_as_wei() {
    assert_eq!(parse_amount("1"), Ok(ETHER));
    assert_eq!(parse_amount(" 0.96 "), Ok(960_000_000_000_000_000));
    assert_eq!(parse_amount("0.9"), Ok(900_000_000_000_000_000));
    assert_eq!(parse_amount("0.000000000000000001"), Ok(1));
    assert_eq!(parse_amount("0"), Ok(0));
    assert_eq!(parse_amount("340282366920938463463.374607431768211455"), Ok(u128::MAX));
}

#[test]
fn text_that_is_no_amount_is_malformed() {
    assert_eq!(parse_amount("abc"), Err(AmountError::Malformed));
    assert_eq!(parse_amount("1.2.3"), Err(AmountError::Malformed));
    assert_eq!(parse_amount("1,5"), Err(AmountError::Malformed));
    assert_eq!(parse_amount("1\u{e9}"), Err(AmountError::Malformed));
    let long = "1".repeat(41);
    assert_eq!(parse_amount(&long), Err(AmountError::Malformed));
}

#[test]
fn amounts_beyond_128_bits_are_too_large() {
    assert_eq!(parse_amount("340282366920938463463.374607431768211456"), Err(AmountError::TooLarge));
    assert_eq!(parse_amount("-1"), Err(AmountError::TooLarge));
    let forty = "9".repeat(40);
    assert_eq!(parse_amount(&forty), Err(AmountError::TooLarge));
}

#[test]
fn limbs_are_least_significant_first() {
    assert_eq!(amount_from_limbs(Some(vec![7, 0, 0, 0])), Ok(7));
    assert_eq!(amount_from_limbs(Some(vec![1, 2, 0, 0])), Ok((2u128 << 64) + 1));
    assert_eq!(amount_from_limbs(Some(vec![u64::MAX, u64::MAX, 0, 0])), Ok(u128::MAX));
    assert_eq!(amount_from_limbs(Some(vec![0, 0, 1, 0])), Err(AmountError::TooLarge));
    assert_eq!(amount_from_limbs(Some(vec![0, 0, 0, 1])), Err(AmountError::TooLarge));
    assert_eq!(amount_from_limbs(None), Err(AmountError::Malformed));
}

#[test]
fn funds_check_rejects_when_amount_and_fee_reach_the_balance() {
    let balance = ETHER;
    let fee = parse_amount("0.05").unwrap();
    assert!(!has_sufficient_funds(parse_amount("0.96").unwrap(), fee, balance));
    assert!(has_sufficient_funds(parse_amount("0.9").unwrap(), fee, balance));
    assert!(!has_sufficient_funds(parse_amount("0.95").unwrap(), fee, balance));
    assert!(has_sufficient_funds(parse_amount("0.949999999999999999").unwrap(), fee, balance));
    assert!(!has_sufficient_funds(u128::MAX, 1, u128::MAX));
    assert!(!has_sufficient_funds(0, 0, 0));
}

#[test]
fn three_tokens_with_six_decimals_are_three_million_units() {
    assert_eq!(parse_whole_amount("3"), Some(3));
    assert_eq!(scale_token_amount(3, 6), Some(3_000_000));
}

#[test]
fn whole_amounts_are_plain_decimal_counts() {
    assert_eq!(parse_whole_amount(" 42 "), Some(42));
    assert_eq!(parse_whole_amount("+7"), Some(7));
    assert_eq!(parse_whole_amount("007"), Some(7));
    assert_eq!(parse_whole_amount("18446744073709551615"), Some(u64::MAX));
    assert_eq!(parse_whole_amount("18446744073709551616"), None);
    assert_eq!(parse_whole_amount("0.5"), None);
    assert_eq!(parse_whole_amount("-1"), None);
    assert_eq!(parse_whole_amount("+"), None);
    assert_eq!(parse_whole_amount(""), None);
    assert_eq!(parse_whole_amount("1 2"), None);
    for text in ["0", "1", "99", "+5", "12a", "", " 8 "] {
        assert_eq!(parse_whole_amount(text), text.trim().parse::<u64>().ok());
    }
}

#[test]
fn scaling_is_exact_or_refused() {
    assert_eq!(scale_token_amount(0, 255), Some(0));
    assert_eq!(scale_token_amount(1, 0), Some(1));
    assert_eq!(scale_token_amount(1, 18), Some(ETHER));
    assert_eq!(scale_token_amount(1, 38), Some(10u128.pow(38)));
    assert_eq!(scale_token_amount(1, 39), None);
    assert_eq!(scale_token_amount(u64::MAX, 18), Some(u64::MAX as u128 * ETHER));
    assert_eq!(scale_token_amount(u64::MAX, 20), None);
    assert_eq!(scale_token_amount(4, 38), None);
    assert_eq!(scale_token_amount(3, 38), Some(3 * 10u128.pow(38)));
}

#[test]
fn cost_is_gas_times_price() {
    assert_eq!(transaction_cost(21_000, 30_000_000_000), Some(630_000_000_000_000));
    assert_eq!(transaction_cost(0, u128::MAX), Some(0));
    assert_eq!(transaction_cost(2, u128::MAX), None);
}
