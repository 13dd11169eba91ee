//! Amounts in base units (wei for the native asset, the smallest unit for
//! a token), held in 128 bits and computed with exact integer arithmetic.
//! An amount that does not fit is refused, never rounded or wrapped.

use crate::text::{chars_of, decimal_digit_value, is_decimal_digit, trim, trim_bounds, trimmed};
use vstd::prelude::*;
use vstd::utf8::is_ascii_chars;

verus! {

/// Most characters of an amount of the native asset, once trimmed.
pub const MAX_AMOUNT_LEN: usize = 40;

/// Why a text is no amount.
#[derive(Clone, Copy, Debug, PartialEq, Eq, Structural)]
pub enum AmountError {
    /// The text is not a decimal amount.
    Malformed,
    /// The amount does not fit in 128 bits.
    TooLarge,
}

/// 2^64, the weight of the second limb.
pub open spec fn two_pow_64() -> nat {
    0x1_0000_0000_0000_0000nat
}

/// The number that four 64-bit limbs spell, least significant limb first.
pub open spec fn limbs_value(limbs: Seq<u64>) -> nat {
    limbs[0] as nat + limbs[1] as nat * two_pow_64() + limbs[2] as nat * two_pow_64()
        * two_pow_64() + limbs[3] as nat * two_pow_64() * two_pow_64() * two_pow_64()
}

/// The number of wei that `ethers::utils::parse_ether` reads from `text`,
/// if it reads one.
pub uninterp spec fn ether_in_wei(text: Seq<char>) -> Option<nat>;

/// 10 to the power `k`.
pub open spec fn pow10(k: nat) -> nat
    decreases k,
{
    if k == 0 {
        1
    } else {
        10 * pow10((k - 1) as nat)
    }
}

/// The number that the decimal digits `digits` spell.
pub open spec fn decimal_number(digits: Seq<char>) -> nat
    decreases digits.len(),
{
    if digits.len() == 0 {
        0
    } else {
        decimal_number(digits.drop_last()) * 10 + decimal_digit_value(digits.last())
    }
}

/// Whether every character of `s` is a decimal digit.
pub open spec fn all_decimal_digits(s: Seq<char>) -> bool {
    forall|i: int| 0 <= i < s.len() ==> is_decimal_digit(#[trigger] s[i])
}

/// What a parsed number of wei is as an amount: it must fit in 128 bits.
pub open spec fn units_result(units: Option<nat>) -> Result<u128, AmountError> {
    match units {
        None => Err(AmountError::Malformed),
        Some(v) => if v <= u128::MAX {
            Ok(v as u128)
        } else {
            Err(AmountError::TooLarge)
        },
    }
}

/// The amount of wei that a text in ether stands for: the text is trimmed,
/// must be ASCII of at most [`MAX_AMOUNT_LEN`] characters, and is then read
/// by `parse_ether`.
pub open spec fn amount_of(text: Seq<char>) -> Result<u128, AmountError> {
    let t = trimmed(text);
    if !is_ascii_chars(t) || t.len() > MAX_AMOUNT_LEN {
        Err(AmountError::Malformed)
    } else {
        units_result(ether_in_wei(t))
    }
}

/// The digits of a count of whole tokens: the trimmed text without a
/// leading `+`.
pub open spec fn whole_digits(text: Seq<char>) -> Seq<char> {
    let t = trimmed(text);
    if t.len() > 0 && t[0] == '+' {
        t.subrange(1, t.len() as int)
    } else {
        t
    }
}

/// The count of whole tokens that a text stands for: one or more decimal
/// digits, optionally after a `+`, whose number fits in 64 bits.
pub open spec fn whole_amount_of(text: Seq<char>) -> Option<u64> {
    let d = whole_digits(text);
    if d.len() > 0 && all_decimal_digits(d) && decimal_number(d) <= u64::MAX {
        Some(decimal_number(d) as u64)
    } else {
        None
    }
}

/// A count of whole tokens in the token's smallest unit.
pub open spec fn scaled(whole: u64, decimals: u8) -> nat {
    whole as nat * pow10(decimals as nat)
}

/// `ethers::utils::parse_ether`: the decimal text in ether as a number of
/// wei, handed out as the four limbs of the `U256`. The function slices the
/// text by bytes and multiplies without an overflow check, so it is only
/// called on short ASCII text.
#[verifier::external_body]
fn parse_ether_limbs(text: &str) -> (r: Option<Vec<u64>>)
    requires
        is_ascii_chars(text@),
        text@.len() <= MAX_AMOUNT_LEN,
    ensures
        match r {
            Some(limbs) => limbs@.len() == 4 && ether_in_wei(text@) == Some(limbs_value(limbs@)),
            None => ether_in_wei(text@) is None,
        },
{
    match ethers::utils::parse_ether(text) {
        Ok(value) => Some(value.0.to_vec()),
        Err(_) => None,
    }
}

/// The amount that a parsed `U256` stands for: its value when the two
/// upper limbs are zero, `TooLarge` otherwise, `Malformed` when nothing was
/// parsed.
pub fn amount_from_limbs(limbs: Option<Vec<u64>>) -> (r: Result<u128, AmountError>)
    requires
        limbs matches Some(l) ==> l@.len() == 4,
    ensures
        r == units_result(
            match limbs {
                Some(l) => Some(limbs_value(l@)),
                None => None,
            },
        ),
{
    match limbs {
        None => Err(AmountError::Malformed),
        Some(l) => {
            if l[2] != 0 || l[3] != 0 {
                assert(limbs_value(l@) > u128::MAX) by {
                    assert(two_pow_64() * two_pow_64() == 0x1_0000_0000_0000_0000_0000_0000_0000_0000nat);
                    if l@[2] != 0 {
                        assert(l@[2] as nat * two_pow_64() * two_pow_64() >= two_pow_64()
                            * two_pow_64()) by (nonlinear_arith)
                            requires
                                l@[2] as nat >= 1,
                        ;
                    } else {
                        assert(l@[3] as nat * two_pow_64() * two_pow_64() * two_pow_64()
                            >= two_pow_64() * two_pow_64()) by (nonlinear_arith)
                            requires
                                l@[3] as nat >= 1,
                        ;
                    }
                    assert(l@[2] as nat * two_pow_64() * two_pow_64() >= 0) by (nonlinear_arith);
                    assert(l@[3] as nat * two_pow_64() * two_pow_64() * two_pow_64() >= 0)
                        by (nonlinear_arith);
                }
                Err(AmountError::TooLarge)
            } else {
                let low: u128 = l[0] as u128;
                let high: u128 = l[1] as u128;
                assert(0 * two_pow_64() * two_pow_64() == 0) by (nonlinear_arith);
                assert(0 * two_pow_64() * two_pow_64() * two_pow_64() == 0) by (nonlinear_arith);
                Ok(high * 0x1_0000_0000_0000_0000u128 + low)
            }
        },
    }
}

/// Reads an amount of the native asset, written in ether, as wei.
pub fn parse_amount(text: &str) -> (r: Result<u128, AmountError>)
    ensures
        r == amount_of(text@),
{
    let t: &str = trim(text);
    if !t.is_ascii() || t.unicode_len() > MAX_AMOUNT_LEN {
        return Err(AmountError::Malformed);
    }
    amount_from_limbs(parse_ether_limbs(t))
}

proof fn lemma_decimal_number_grows(s: Seq<char>, i: int, j: int)
    requires
        0 <= i <= j <= s.len(),
    ensures
        decimal_number(s.subrange(0, i)) <= decimal_number(s.subrange(0, j)),
    decreases j - i,
{
    if i < j {
        lemma_decimal_number_grows(s, i, j - 1);
        assert(s.subrange(0, j).drop_last() =~= s.subrange(0, j - 1));
    }
}

/// Reads a count of whole tokens.
pub fn parse_whole_amount(text: &str) -> (r: Option<u64>)
    ensures
        r == whole_amount_of(text@),
{
    let chars: Vec<char> = chars_of(text);
    let (start, end) = trim_bounds(&chars);
    if start >= end {
        return None;
    }
    let ghost t = trimmed(chars@);
    let from: usize = if chars[start] == '+' {
        start + 1
    } else {
        start
    };
    let ghost d = whole_digits(chars@);
    assert(d =~= chars@.subrange(from as int, end as int));
    if from >= end {
        return None;
    }
    let mut value: u64 = 0;
    let mut i: usize = from;
    while i < end
        invariant
            from <= i <= end,
            end <= chars@.len(),
            chars@ == text@,
            d == chars@.subrange(from as int, end as int),
            d == whole_digits(chars@),
            d.len() > 0,
            forall|j: int| 0 <= j < i - from ==> is_decimal_digit(#[trigger] d[j]),
            value as nat == decimal_number(d.subrange(0, i - from)),
        decreases end - i,
    {
        let c: char = chars[i];
        assert(c == d[i - from]);
        if !('0' <= c && c <= '9') {
            assert(!is_decimal_digit(d[i - from]));
            return None;
        }
        let digit: u64 = (c as u32 - 0x30) as u64;
        proof {
            assert(d.subrange(0, i - from + 1).drop_last() =~= d.subrange(0, i - from));
            assert(d.subrange(0, i - from + 1).last() == c);
            assert(decimal_number(d.subrange(0, i - from + 1)) == value as nat * 10 + digit as nat);
            lemma_decimal_number_grows(d, i - from + 1, d.len() as int);
            assert(d.subrange(0, d.len() as int) =~= d);
        }
        let next: Option<u64> = match value.checked_mul(10) {
            Some(shifted) => shifted.checked_add(digit),
            None => None,
        };
        match next {
            Some(v) => {
                value = v;
            },
            None => {
                return None;
            },
        }
        i = i + 1;
    }
    assert(d.subrange(0, d.len() as int) =~= d);
    Some(value)
}

proof fn lemma_scaled_grows(whole: nat, a: nat, b: nat)
    requires
        a <= b,
    ensures
        whole * pow10(a) <= whole * pow10(b),
    decreases b - a,
{
    if a < b {
        lemma_scaled_grows(whole, a, (b - 1) as nat);
        assert(whole * pow10((b - 1) as nat) <= whole * (10 * pow10((b - 1) as nat)))
            by (nonlinear_arith);
    }
}

/// A count of whole tokens in the token's smallest unit: `whole` times ten
/// to the power `decimals`, or nothing when that does not fit in 128 bits.
pub fn scale_token_amount(whole: u64, decimals: u8) -> (r: Option<u128>)
    ensures
        match r {
            Some(v) => v as nat == scaled(whole, decimals),
            None => scaled(whole, decimals) > u128::MAX,
        },
{
    let mut value: u128 = whole as u128;
    let mut i: u8 = 0;
    assert(whole as nat * pow10(0) == whole as nat) by (nonlinear_arith)
        requires
            pow10(0) == 1,
    ;
    while i < decimals
        invariant
            i <= decimals,
            value as nat == whole as nat * pow10(i as nat),
        decreases decimals - i,
    {
        proof {
            assert(whole as nat * pow10((i + 1) as nat) == (whole as nat * pow10(i as nat)) * 10)
                by (nonlinear_arith)
                requires
                    pow10((i + 1) as nat) == 10 * pow10(i as nat),
            ;
            lemma_scaled_grows(whole as nat, (i + 1) as nat, decimals as nat);
        }
        match value.checked_mul(10) {
            Some(v) => {
                value = v;
            },
            None => {
                return None;
            },
        }
        i = i + 1;
    }
    Some(value)
}

/// The funds check: a transfer goes ahead only when the amount and the
/// estimated fee together stay below the available balance.
pub open spec fn funds_suffice(amount: u128, fee: u128, balance: u128) -> bool {
    amount + fee < balance
}

/// Executable form of [`funds_suffice`].
pub fn has_sufficient_funds(amount: u128, fee: u128, balance: u128) -> (r: bool)
    ensures
        r == funds_suffice(amount, fee, balance),
{
    match amount.checked_add(fee) {
        Some(total) => total < balance,
        None => false,
    }
}

/// The cost of a transaction: gas units times gas price, or nothing when
/// the product does not fit in 128 bits.
pub fn transaction_cost(gas: u128, gas_price: u128) -> (r: Option<u128>)
    ensures
        match r {
            Some(cost) => cost == gas * gas_price,
            None => gas * gas_price > u128::MAX,
        },
{
    gas.checked_mul(gas_price)
}

} // verus!
