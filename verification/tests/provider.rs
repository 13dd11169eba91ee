use wallet_core::amount::AmountError;
use wallet_core::provider::{
    estimate_gas, gas_price_options, gas_price_selector, parse_quantity, GasPriceError, ResultData,
};

fn prices(slow: &str, medium: &str, fast: &str) -> ResultData {
    ResultData {
        LastBlock: "18000000".to_string(),
        SafeGasPrice: slow.to_string(),
        ProposeGasPrice: medium.to_string(),
        FastGasPrice: fast.to_string(),
        suggestBaseFee: "24.1".to_string(),
        gasUsedRatio: "0.5".to_string(),
    }
}

#[test]
fn options_show_the_three_tiers() {
    assert_eq!(
        gas_price_options(&prices("25", "26", "28")),
        vec!["Slow 25".to_string(), "Medium 26".to_string(), "Fast 28".to_string()]
    );
}

#[test]
fn quantities_are_read_as_hexadecimal() {
    assert_eq!(parse_quantity("25"), Ok(0x25));
    assert_eq!(parse_quantity("0x25"), Ok(0x25));
    assert_eq!(parse_quantity("ff"), Ok(255));
    assert_eq!(parse_quantity("FfF"), Ok(0xfff));
    assert_eq!(parse_quantity(""), Ok(0));
    assert_eq!(parse_quantity("0x"), Ok(0));
    assert_eq!(parse_quantity("ffffffffffffffffffffffffffffffff"), Ok(u128::MAX));
    assert_eq!(parse_quantity("100000000000000000000000000000000"), Err(AmountError::TooLarge));
    assert_eq!(parse_quantity("25.3"), Err(AmountError::Malformed));
    assert_eq!(parse_quantity("0X25"), Err(AmountError::Malformed));
    assert_eq!(parse_quantity("0x0x25"), Err(AmountError::Malformed));
    assert_eq!(parse_quantity(" 25"), Err(AmountError::Malformed));
    let sixty_five = "1".repeat(65);
    assert_eq!(parse_quantity(&sixty_five), Err(AmountError::Malformed));
    let sixty_four = format!("{}1", "0".repeat(63));
    assert_eq!(parse_quantity(&sixty_four), Ok(1));
}

#[test]
fn selector_picks_the_tier() {
    let data = prices("25", "26", "28");
    assert_eq!(gas_price_selector(&data, Some(0)), Ok(0x25));
    assert_eq!(gas_price_selector(&data, Some(1)), Ok(0x26));
    assert_eq!(gas_price_selector(&data, Some(2)), Ok(0x28));
    assert_eq!(gas_price_selector(&data, Some(3)), Err(GasPriceError::NoSelection));
    assert_eq!(gas_price_selector(&data, None), Err(GasPriceError::NoSelection));
    let odd = prices("25.5", "26", "28");
    assert_eq!(
        gas_price_selector(&odd, Some(0)),
        Err(GasPriceError::Price(AmountError::Malformed))
    );
}

#[test]
fn estimate_uses_the_selected_price_or_the_network_price() {
    assert_eq!(estimate_gas(21_000, Some(2), 3), Some(42_000));
    assert_eq!(estimate_gas(21_000, None, 3), Some(63_000));
    assert_eq!(estimate_gas(2, Some(u128::MAX), 1), None);
}
