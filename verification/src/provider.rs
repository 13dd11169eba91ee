//! Gas prices: the tiers that the fee oracle offers, which one the user
//! picked, and what a transaction costs at that price.

use crate::address::hex_number;
use crate::amount::{amount_from_limbs, limbs_value, transaction_cost, units_result, AmountError};
use crate::text::{all_hex_digits, strip_0x};
use vstd::prelude::*;
use vstd::string::StringExecFns;

verus! {

/// Most hexadecimal digits of a 256-bit quantity.
pub const MAX_QUANTITY_DIGITS: usize = 64;

/// What the fee oracle answered, as it sent it.
#[allow(non_snake_case)]
#[derive(Debug, PartialEq, Eq)]
pub struct ResultData {
    pub LastBlock: String,
    pub SafeGasPrice: String,
    pub ProposeGasPrice: String,
    pub FastGasPrice: String,
    pub suggestBaseFee: String,
    pub gasUsedRatio: String,
}

/// A gas price tier.
#[derive(Clone, Copy, Debug, PartialEq, Eq, Structural)]
pub enum GasTier {
    Slow,
    Medium,
    Fast,
}

/// Why no gas price came out of a selection.
#[derive(Clone, Copy, Debug, PartialEq, Eq, Structural)]
pub enum GasPriceError {
    /// Nothing was selected, or the index is off the list.
    NoSelection,
    /// The price of the selected tier is no amount.
    Price(AmountError),
}

/// The shape of a quantity as `U256::from_str` reads it: an optional `0x`,
/// then at most sixty-four hexadecimal digits.
pub open spec fn is_hex_quantity(text: Seq<char>) -> bool {
    strip_0x(text).len() <= MAX_QUANTITY_DIGITS && all_hex_digits(strip_0x(text))
}

/// The number that a quantity text spells, if it has the shape of one.
pub open spec fn hex_quantity(text: Seq<char>) -> Option<nat> {
    if is_hex_quantity(text) {
        Some(hex_number(strip_0x(text)))
    } else {
        None
    }
}

/// The tier that an index of the selection list stands for.
pub open spec fn tier_of(selection: Option<usize>) -> Option<GasTier> {
    match selection {
        Some(0) => Some(GasTier::Slow),
        Some(1) => Some(GasTier::Medium),
        Some(2) => Some(GasTier::Fast),
        _ => None,
    }
}

/// The price text of a tier.
pub open spec fn tier_text(gas_prices: &ResultData, tier: GasTier) -> Seq<char> {
    match tier {
        GasTier::Slow => gas_prices.SafeGasPrice@,
        GasTier::Medium => gas_prices.ProposeGasPrice@,
        GasTier::Fast => gas_prices.FastGasPrice@,
    }
}

/// The gas price that a selection gives.
pub open spec fn selected_gas_price(gas_prices: &ResultData, selection: Option<usize>) -> Result<
    u128,
    GasPriceError,
> {
    match tier_of(selection) {
        None => Err(GasPriceError::NoSelection),
        Some(tier) => match units_result(hex_quantity(tier_text(gas_prices, tier))) {
            Ok(price) => Ok(price),
            Err(e) => Err(GasPriceError::Price(e)),
        },
    }
}

/// The gas price to estimate with: the selected one, or the network's
/// suggestion when none was selected.
pub open spec fn effective_gas_price(selected: Option<u128>, network: u128) -> u128 {
    match selected {
        Some(price) => price,
        None => network,
    }
}

/// `U256::from_str` of the `uint` crate, through `ethers::types::U256`: an
/// optional `0x`, then at most sixty-four hexadecimal digits, read as one
/// number; the empty text is zero. The result is handed out as the four
/// limbs of the `U256`.
#[verifier::external_body]
fn parse_u256_limbs(text: &str) -> (r: Option<Vec<u64>>)
    ensures
        match r {
            Some(limbs) => limbs@.len() == 4 && hex_quantity(text@) == Some(limbs_value(limbs@)),
            None => hex_quantity(text@) is None,
        },
{
    match text.parse::<ethers::types::U256>() {
        Ok(value) => Some(value.0.to_vec()),
        Err(_) => None,
    }
}

/// Reads a quantity text as an amount.
pub fn parse_quantity(text: &str) -> (r: Result<u128, AmountError>)
    ensures
        r == units_result(hex_quantity(text@)),
{
    amount_from_limbs(parse_u256_limbs(text))
}

/// The entries of the gas price list: `Slow`, `Medium` and `Fast`, each
/// with its price as the oracle sent it.
pub fn gas_price_options(gas_prices: &ResultData) -> (r: Vec<String>)
    ensures
        r@.len() == 3,
        r@[0]@ == "Slow "@ + gas_prices.SafeGasPrice@,
        r@[1]@ == "Medium "@ + gas_prices.ProposeGasPrice@,
        r@[2]@ == "Fast "@ + gas_prices.FastGasPrice@,
{
    let mut slow_option: String = String::from_str("Slow ");
    slow_option.append(gas_prices.SafeGasPrice.as_str());
    let mut medium_option: String = String::from_str("Medium ");
    medium_option.append(gas_prices.ProposeGasPrice.as_str());
    let mut fast_option: String = String::from_str("Fast ");
    fast_option.append(gas_prices.FastGasPrice.as_str());
    let mut options: Vec<String> = Vec::new();
    options.push(slow_option);
    options.push(medium_option);
    options.push(fast_option);
    options
}

/// The gas price of the tier that was selected from the list of
/// [`gas_price_options`].
pub fn gas_price_selector(gas_prices: &ResultData, selection: Option<usize>) -> (r: Result<
    u128,
    GasPriceError,
>)
    ensures
        r == selected_gas_price(gas_prices, selection),
{
    let parsed: Result<u128, AmountError> = match selection {
        Some(0) => parse_quantity(gas_prices.SafeGasPrice.as_str()),
        Some(1) => parse_quantity(gas_prices.ProposeGasPrice.as_str()),
        Some(2) => parse_quantity(gas_prices.FastGasPrice.as_str()),
        _ => {
            return Err(GasPriceError::NoSelection);
        },
    };
    match parsed {
        Ok(price) => Ok(price),
        Err(e) => Err(GasPriceError::Price(e)),
    }
}

/// The estimated cost of a transaction: the gas it needs times the gas
/// price, which is the selected price if there is one and the network's
/// otherwise. Nothing when the product does not fit in 128 bits.
pub fn estimate_gas(gas: u128, selected: Option<u128>, network_price: u128) -> (r: Option<u128>)
    ensures
        match r {
            Some(cost) => cost == gas * effective_gas_price(selected, network_price),
            None => gas * effective_gas_price(selected, network_price) > u128::MAX,
        },
{
    let price: u128 = match selected {
        Some(price) => price,
        None => network_price,
    };
    transaction_cost(gas, price)
}

} // verus!
