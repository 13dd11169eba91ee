//! Account addresses: twenty bytes, held as a number below 2^160.

use crate::text::{
    all_hex_digits, has_0x_prefix, hex_digit_value, is_hex_digit, is_whitespace, lemma_one_word,
    trim, trimmed,
};
use crate::utils::{is_address_text, is_valid_ethereum_address, ValidationError, ADDRESS_LEN};
use vstd::arithmetic::div_mod::lemma_mod_breakdown;
use vstd::prelude::*;

verus! {

/// 2^128, the weight of [`Address::high`].
pub open spec fn two_pow_128() -> nat {
    0x1_0000_0000_0000_0000_0000_0000_0000_0000nat
}

/// An account address. Its twenty bytes, read as a big-endian number, are
/// `high * 2^128 + low`.
#[derive(Clone, Copy, Debug, PartialEq, Eq, Hash, Structural)]
pub struct Address {
    /// The first four bytes.
    pub high: u32,
    /// The last sixteen bytes.
    pub low: u128,
}

impl Address {
    /// The address as a number.
    pub open spec fn value(self) -> nat {
        self.high as nat * two_pow_128() + self.low as nat
    }
}

/// 256 to the power `k`.
pub open spec fn pow256(k: nat) -> nat
    decreases k,
{
    if k == 0 {
        1
    } else {
        256 * pow256((k - 1) as nat)
    }
}

/// The big-endian number that `bytes` spell.
pub open spec fn bytes_value(bytes: Seq<u8>) -> nat
    decreases bytes.len(),
{
    if bytes.len() == 0 {
        0
    } else {
        bytes_value(bytes.drop_last()) * 256 + bytes.last() as nat
    }
}

/// The number that the hexadecimal digits `digits` spell.
pub open spec fn hex_number(digits: Seq<char>) -> nat
    decreases digits.len(),
{
    if digits.len() == 0 {
        0
    } else {
        hex_number(digits.drop_last()) * 16 + hex_digit_value(digits.last())
    }
}

/// The number that an address text spells: its forty digits after `0x`.
pub open spec fn address_text_value(text: Seq<char>) -> nat {
    hex_number(text.subrange(2, ADDRESS_LEN as int))
}

proof fn lemma_pow256_values()
    ensures
        pow256(4) == 0x1_0000_0000,
        pow256(16) == two_pow_128(),
{
    reveal_with_fuel(pow256, 17);
}

proof fn lemma_pow256_monotone(a: nat, b: nat)
    requires
        a <= b,
    ensures
        pow256(a) <= pow256(b),
        pow256(a) >= 1,
    decreases b,
{
    if a < b {
        lemma_pow256_monotone(a, (b - 1) as nat);
    } else if a > 0 {
        lemma_pow256_monotone((a - 1) as nat, (b - 1) as nat);
    }
}

/// The address with the number `value`.
pub open spec fn address_of_value(value: nat) -> Address {
    Address { high: (value / two_pow_128()) as u32, low: (value % two_pow_128()) as u128 }
}

/// The address whose number is the one that `bytes` spell.
pub open spec fn address_of_bytes(bytes: Seq<u8>) -> Address {
    address_of_value(bytes_value(bytes))
}

/// The address that an address text spells.
pub open spec fn address_of_text(text: Seq<char>) -> Address {
    address_of_value(address_text_value(text))
}

/// The lowercase hexadecimal digit for a number below sixteen.
pub open spec fn hex_digit_char(n: nat) -> char {
    if n < 10 {
        (('0' as u32 + n) as u32) as char
    } else {
        (('a' as u32 + n - 10) as u32) as char
    }
}

/// The `count` lowest hexadecimal digits of `value`, lowest digit first.
pub open spec fn hex_digits_rev(value: nat, count: nat) -> Seq<char>
    decreases count,
{
    if count == 0 {
        Seq::empty()
    } else {
        seq![hex_digit_char(value % 16)] + hex_digits_rev(value / 16, (count - 1) as nat)
    }
}

/// The text of an address: `0x` and its forty lowercase hexadecimal
/// digits, highest digit first.
pub open spec fn address_text(address: Address) -> Seq<char> {
    seq!['0', 'x'] + (hex_digits_rev(address.low as nat, 32) + hex_digits_rev(
        address.high as nat,
        8,
    )).reverse()
}

/// The address that twenty bytes spell.
pub fn address_from_bytes(bytes: &[u8]) -> (r: Address)
    requires
        bytes@.len() == 20,
    ensures
        r.value() == bytes_value(bytes@),
        r == address_of_bytes(bytes@),
{
    let mut high: u32 = 0;
    let mut i: usize = 0;
    proof {
        lemma_pow256_values();
    }
    while i < 4
        invariant
            i <= 4,
            bytes@.len() == 20,
            high as nat == bytes_value(bytes@.subrange(0, i as int)),
            (high as nat) < pow256(i as nat),
            pow256(4) == 0x1_0000_0000,
        decreases 4 - i,
    {
        proof {
            lemma_pow256_monotone((i + 1) as nat, 4);
            assert(bytes@.subrange(0, i as int + 1).drop_last() =~= bytes@.subrange(0, i as int));
        }
        high = high * 256 + bytes[i] as u32;
        i = i + 1;
    }
    let mut low: u128 = 0;
    assert(pow256(0) == 1);
    assert(high as nat * pow256(0) == high as nat);
    while i < 20
        invariant
            4 <= i <= 20,
            bytes@.len() == 20,
            bytes_value(bytes@.subrange(0, i as int)) == high as nat * pow256((i - 4) as nat)
                + low as nat,
            (low as nat) < pow256((i - 4) as nat),
            pow256(16) == two_pow_128(),
        decreases 20 - i,
    {
        let ghost p = pow256((i - 4) as nat);
        proof {
            lemma_pow256_monotone((i - 3) as nat, 16);
            assert(bytes@.subrange(0, i as int + 1).drop_last() =~= bytes@.subrange(0, i as int));
            assert((high as nat * p + low as nat) * 256 == high as nat * (256 * p) + low as nat
                * 256) by (nonlinear_arith);
        }
        low = low * 256 + bytes[i] as u128;
        i = i + 1;
    }
    assert(bytes@.subrange(0, 20) =~= bytes@);
    Address { high, low }
}

/// `H160::from_str` of `fixed-hash`, through `ethers::types::H160`. For a
/// text of the address shape it returns the twenty bytes that the forty
/// digits spell, two digits to the byte, first byte first.
#[verifier::external_body]
fn parse_h160(text: &str) -> (r: Option<Vec<u8>>)
    ensures
        match r {
            Some(bytes) => bytes@.len() == 20 && (is_address_text(text@) ==> bytes_value(bytes@)
                == address_text_value(text@)),
            None => !is_address_text(text@),
        },
{
    match text.parse::<ethers::types::H160>() {
        Ok(hash) => Some(hash.0.to_vec()),
        Err(_) => None,
    }
}

/// Reads an address from a text that, trimmed, is `0x` and forty
/// hexadecimal digits; any other text is refused.
pub fn parse_address(text: &str) -> (r: Result<Address, ValidationError>)
    ensures
        match r {
            Ok(address) => is_address_text(trimmed(text@)) && address == address_of_text(
                trimmed(text@),
            ) && address.value() == address_text_value(trimmed(text@)),
            Err(e) => !is_address_text(trimmed(text@)) && e == ValidationError::InvalidAddress,
        },
{
    if !is_valid_ethereum_address(text) {
        return Err(ValidationError::InvalidAddress);
    }
    match parse_h160(trim(text)) {
        Some(bytes) => Ok(address_from_bytes(bytes.as_slice())),
        None => Err(ValidationError::InvalidAddress),
    }
}

/// The `count` lowest bytes of `value`, lowest byte first.
pub open spec fn bytes_rev(value: nat, count: nat) -> Seq<u8>
    decreases count,
{
    if count == 0 {
        Seq::empty()
    } else {
        seq![(value % 256) as u8] + bytes_rev(value / 256, (count - 1) as nat)
    }
}

/// The twenty bytes of an address, first byte first.
pub open spec fn address_bytes(address: Address) -> Seq<u8> {
    (bytes_rev(address.low as nat, 16) + bytes_rev(address.high as nat, 4)).reverse()
}

proof fn lemma_pow256_positive(k: nat)
    ensures
        pow256(k) > 0,
    decreases k,
{
    if k > 0 {
        lemma_pow256_positive((k - 1) as nat);
    }
}

proof fn lemma_bytes_rev_len(value: nat, count: nat)
    ensures
        bytes_rev(value, count).len() == count,
    decreases count,
{
    if count > 0 {
        lemma_bytes_rev_len(value / 256, (count - 1) as nat);
    }
}

proof fn lemma_bytes_value_of_rev(value: nat, count: nat)
    ensures
        bytes_value(bytes_rev(value, count).reverse()) == value % pow256(count),
    decreases count,
{
    if count == 0 {
        assert(bytes_rev(value, 0).reverse() =~= Seq::<u8>::empty());
    } else {
        let rest = bytes_rev(value / 256, (count - 1) as nat);
        let bytes = bytes_rev(value, count);
        let b = (value % 256) as u8;
        lemma_bytes_rev_len(value / 256, (count - 1) as nat);
        lemma_bytes_rev_len(value, count);
        lemma_bytes_value_of_rev(value / 256, (count - 1) as nat);
        assert(bytes.reverse() =~= rest.reverse().push(b));
        assert(bytes.reverse().drop_last() =~= rest.reverse());
        assert(bytes.reverse().last() == b);
        lemma_pow256_positive((count - 1) as nat);
        lemma_mod_breakdown(value as int, 256, pow256((count - 1) as nat) as int);
        assert(bytes_value(bytes.reverse()) == bytes_value(rest.reverse()) * 256 + value % 256);
    }
}

proof fn lemma_bytes_value_concat(x: Seq<u8>, y: Seq<u8>)
    ensures
        bytes_value(x + y) == bytes_value(x) * pow256(y.len()) + bytes_value(y),
    decreases y.len(),
{
    if y.len() == 0 {
        assert(x + y =~= x);
        assert(pow256(0) == 1);
        assert(bytes_value(x) * 1 == bytes_value(x));
        assert(bytes_value(y) == 0);
    } else {
        lemma_bytes_value_concat(x, y.drop_last());
        assert((x + y).drop_last() =~= x + y.drop_last());
        assert((x + y).last() == y.last());
        let p = pow256(y.drop_last().len());
        let hx = bytes_value(x);
        let hy = bytes_value(y.drop_last());
        assert(pow256(y.len()) == 256 * p);
        assert(bytes_value(x + y.drop_last()) == hx * p + hy);
        assert((hx * p + hy) * 256 == hx * (256 * p) + hy * 256) by (nonlinear_arith);
        assert(bytes_value(x + y) == bytes_value(x + y.drop_last()) * 256 + y.last() as nat);
        assert(bytes_value(y) == hy * 256 + y.last() as nat);
    }
}

/// Taking an address apart into bytes and putting the bytes together
/// again gives the address back.
pub proof fn lemma_address_bytes_round_trip(address: Address)
    ensures
        address_bytes(address).len() == 20,
        bytes_value(address_bytes(address)) == address.value(),
        address_of_bytes(address_bytes(address)) == address,
{
    let low = bytes_rev(address.low as nat, 16);
    let high = bytes_rev(address.high as nat, 4);
    lemma_bytes_rev_len(address.low as nat, 16);
    lemma_bytes_rev_len(address.high as nat, 4);
    assert((low + high).reverse() =~= high.reverse() + low.reverse());
    lemma_bytes_value_concat(high.reverse(), low.reverse());
    lemma_bytes_value_of_rev(address.high as nat, 4);
    lemma_bytes_value_of_rev(address.low as nat, 16);
    lemma_pow256_values();
    assert(bytes_value(address_bytes(address)) == address.high as nat * two_pow_128()
        + address.low as nat);
}

/// 16 to the power `k`.
pub open spec fn pow16(k: nat) -> nat
    decreases k,
{
    if k == 0 {
        1
    } else {
        16 * pow16((k - 1) as nat)
    }
}

proof fn lemma_pow16_positive(k: nat)
    ensures
        pow16(k) > 0,
    decreases k,
{
    if k > 0 {
        lemma_pow16_positive((k - 1) as nat);
    }
}

/// A digit character spells the number it was made for.
pub proof fn lemma_hex_digit_char(n: nat)
    requires
        n < 16,
    ensures
        is_hex_digit(hex_digit_char(n)),
        hex_digit_value(hex_digit_char(n)) == n,
        !is_whitespace(hex_digit_char(n)),
{
}

proof fn lemma_hex_digits_rev_shape(value: nat, count: nat)
    ensures
        hex_digits_rev(value, count).len() == count,
        all_hex_digits(hex_digits_rev(value, count)),
    decreases count,
{
    if count > 0 {
        lemma_hex_digits_rev_shape(value / 16, (count - 1) as nat);
        lemma_hex_digit_char(value % 16);
        let rest = hex_digits_rev(value / 16, (count - 1) as nat);
        let digits = hex_digits_rev(value, count);
        assert forall|i: int| 0 <= i < digits.len() implies is_hex_digit(#[trigger] digits[i]) by {
            if i > 0 {
                assert(digits[i] == rest[i - 1]);
            }
        }
    }
}

proof fn lemma_hex_number_of_digits(value: nat, count: nat)
    ensures
        hex_number(hex_digits_rev(value, count).reverse()) == value % pow16(count),
    decreases count,
{
    if count == 0 {
        assert(hex_digits_rev(value, 0).reverse() =~= Seq::<char>::empty());
    } else {
        let rest = hex_digits_rev(value / 16, (count - 1) as nat);
        let digits = hex_digits_rev(value, count);
        let c = hex_digit_char(value % 16);
        lemma_hex_digits_rev_shape(value / 16, (count - 1) as nat);
        lemma_hex_digits_rev_shape(value, count);
        lemma_hex_number_of_digits(value / 16, (count - 1) as nat);
        lemma_hex_digit_char(value % 16);
        assert(digits.reverse() =~= rest.reverse().push(c));
        assert(digits.reverse().drop_last() =~= rest.reverse());
        assert(digits.reverse().last() == c);
        lemma_pow16_positive((count - 1) as nat);
        lemma_mod_breakdown(value as int, 16, pow16((count - 1) as nat) as int);
        assert(hex_number(digits.reverse()) == hex_number(rest.reverse()) * 16 + value % 16);
    }
}

proof fn lemma_hex_number_concat(x: Seq<char>, y: Seq<char>)
    ensures
        hex_number(x + y) == hex_number(x) * pow16(y.len()) + hex_number(y),
    decreases y.len(),
{
    if y.len() == 0 {
        assert(x + y =~= x);
        assert(pow16(0) == 1);
        assert(hex_number(x) * 1 == hex_number(x));
        assert(hex_number(y) == 0);
    } else {
        lemma_hex_number_concat(x, y.drop_last());
        assert((x + y).drop_last() =~= x + y.drop_last());
        assert((x + y).last() == y.last());
        let p = pow16(y.drop_last().len());
        let hx = hex_number(x);
        let hy = hex_number(y.drop_last());
        assert(pow16(y.len()) == 16 * p);
        assert(hex_number(x + y.drop_last()) == hx * p + hy);
        assert((hx * p + hy) * 16 == hx * (16 * p) + hy * 16) by (nonlinear_arith);
        assert(hex_number(x + y) == hex_number(x + y.drop_last()) * 16 + hex_digit_value(
            y.last(),
        ));
        assert(hex_number(y) == hy * 16 + hex_digit_value(y.last()));
    }
}

proof fn lemma_pow16_values()
    ensures
        pow16(8) == 0x1_0000_0000,
        pow16(32) == two_pow_128(),
{
    reveal_with_fuel(pow16, 33);
}

/// Writing an address and reading the text again gives the address back:
/// the text of an address has the address shape, trimming leaves it as it
/// is, and the address that it spells is the one that was written.
pub proof fn lemma_address_text_round_trip(address: Address)
    ensures
        is_address_text(address_text(address)),
        trimmed(address_text(address)) == address_text(address),
        address_text_value(address_text(address)) == address.value(),
        address_of_text(address_text(address)) == address,
{
    let low = hex_digits_rev(address.low as nat, 32);
    let high = hex_digits_rev(address.high as nat, 8);
    let digits = (low + high).reverse();
    let text = address_text(address);
    lemma_hex_digits_rev_shape(address.low as nat, 32);
    lemma_hex_digits_rev_shape(address.high as nat, 8);
    assert(digits.len() == 40);
    assert(text.len() == 42);
    assert(text.subrange(2, ADDRESS_LEN as int) =~= digits);
    assert forall|i: int| 0 <= i < digits.len() implies is_hex_digit(#[trigger] digits[i]) by {
        let j = 39 - i;
        assert(digits[i] == (low + high)[j]);
        if j < 32 {
            assert((low + high)[j] == low[j]);
        } else {
            assert((low + high)[j] == high[j - 32]);
        }
    }
    assert(has_0x_prefix(text));
    assert forall|i: int| 0 <= i < text.len() implies !is_whitespace(
        #[trigger] text[i],
    ) by {
        if i >= 2 {
            assert(text[i] == digits[i - 2]);
            assert(is_hex_digit(digits[i - 2]));
        }
    }
    lemma_one_word(text);
    assert(digits =~= high.reverse() + low.reverse());
    lemma_hex_number_concat(high.reverse(), low.reverse());
    lemma_hex_number_of_digits(address.high as nat, 8);
    lemma_hex_number_of_digits(address.low as nat, 32);
    lemma_pow16_values();
    assert(hex_number(digits) == address.high as nat * two_pow_128() + address.low as nat);
}

/// `String::push`: appends one character.
#[verifier::external_body]
fn push_char(text: &mut String, c: char)
    ensures
        final(text)@ == old(text)@.push(c),
{
    text.push(c);
}

/// Executable form of [`hex_digit_char`].
fn nibble_char(n: u8) -> (r: char)
    requires
        n < 16,
    ensures
        r == hex_digit_char(n as nat),
{
    if n < 10 {
        (0x30u8 + n) as char
    } else {
        (0x61u8 + n - 10) as char
    }
}

/// Appends the `count` lowest hexadecimal digits of `value` to `digits`,
/// lowest digit first.
fn push_digits_rev(digits: &mut Vec<char>, value: u128, count: usize)
    ensures
        final(digits)@ == old(digits)@ + hex_digits_rev(value as nat, count as nat),
{
    let mut rest: u128 = value;
    let mut i: usize = 0;
    let ghost before = digits@;
    assert(before + hex_digits_rev(value as nat, count as nat) =~= digits@ + hex_digits_rev(
        rest as nat,
        (count - i) as nat,
    ));
    while i < count
        invariant
            i <= count,
            before + hex_digits_rev(value as nat, count as nat) == digits@ + hex_digits_rev(
                rest as nat,
                (count - i) as nat,
            ),
        decreases count - i,
    {
        let ghost shown = digits@;
        let nibble: u8 = (rest % 16) as u8;
        digits.push(nibble_char(nibble));
        proof {
            assert(shown + hex_digits_rev(rest as nat, (count - i) as nat) =~= shown.push(
                hex_digit_char(rest as nat % 16),
            ) + hex_digits_rev(rest as nat / 16, (count - i - 1) as nat));
        }
        rest = rest / 16;
        i = i + 1;
    }
    assert(hex_digits_rev(rest as nat, 0) =~= Seq::<char>::empty());
    assert(digits@ + Seq::<char>::empty() =~= digits@);
}

/// Appends the `count` lowest bytes of `value` to `bytes`, lowest byte
/// first.
fn push_bytes_rev(bytes: &mut Vec<u8>, value: u128, count: usize)
    ensures
        final(bytes)@ == old(bytes)@ + bytes_rev(value as nat, count as nat),
{
    let mut rest: u128 = value;
    let mut i: usize = 0;
    let ghost before = bytes@;
    assert(before + bytes_rev(value as nat, count as nat) =~= bytes@ + bytes_rev(
        rest as nat,
        (count - i) as nat,
    ));
    while i < count
        invariant
            i <= count,
            before + bytes_rev(value as nat, count as nat) == bytes@ + bytes_rev(
                rest as nat,
                (count - i) as nat,
            ),
        decreases count - i,
    {
        let ghost shown = bytes@;
        let byte: u8 = (rest % 256) as u8;
        bytes.push(byte);
        proof {
            assert(shown + bytes_rev(rest as nat, (count - i) as nat) =~= shown.push(byte)
                + bytes_rev(rest as nat / 256, (count - i - 1) as nat));
        }
        rest = rest / 256;
        i = i + 1;
    }
    assert(bytes_rev(rest as nat, 0) =~= Seq::<u8>::empty());
    assert(bytes@ + Seq::<u8>::empty() =~= bytes@);
}

/// The twenty bytes of an address, first byte first.
pub fn address_to_bytes(address: Address) -> (r: Vec<u8>)
    ensures
        r@ == address_bytes(address),
        r@.len() == 20,
        bytes_value(r@) == address.value(),
{
    let mut reversed: Vec<u8> = Vec::new();
    push_bytes_rev(&mut reversed, address.low, 16);
    push_bytes_rev(&mut reversed, address.high as u128, 4);
    let ghost rev = bytes_rev(address.low as nat, 16) + bytes_rev(address.high as nat, 4);
    assert(reversed@ =~= rev);
    proof {
        lemma_address_bytes_round_trip(address);
    }
    let mut bytes: Vec<u8> = Vec::new();
    let n: usize = reversed.len();
    let mut i: usize = n;
    assert(bytes@ =~= rev.reverse().subrange(0, 0));
    while i > 0
        invariant
            i <= n,
            n == reversed@.len(),
            reversed@ == rev,
            bytes@ == rev.reverse().subrange(0, n - i),
        decreases i,
    {
        i = i - 1;
        bytes.push(reversed[i]);
        assert(rev.reverse().subrange(0, n - i) =~= rev.reverse().subrange(0, n - i - 1).push(
            rev[i as int],
        ));
    }
    assert(rev.reverse().subrange(0, n as int) =~= rev.reverse());
    bytes
}

/// The text of an address.
pub fn address_to_hex(address: Address) -> (r: String)
    ensures
        r@ == address_text(address),
{
    let mut digits: Vec<char> = Vec::new();
    push_digits_rev(&mut digits, address.low, 32);
    push_digits_rev(&mut digits, address.high as u128, 8);
    let ghost rev = hex_digits_rev(address.low as nat, 32) + hex_digits_rev(address.high as nat, 8);
    assert(digits@ =~= rev);
    let mut text: String = String::new();
    push_char(&mut text, '0');
    push_char(&mut text, 'x');
    let n: usize = digits.len();
    let mut i: usize = n;
    assert(text@ =~= seq!['0', 'x'] + rev.reverse().subrange(0, 0));
    while i > 0
        invariant
            i <= n,
            n == digits@.len(),
            digits@ == rev,
            text@ == seq!['0', 'x'] + rev.reverse().subrange(0, n - i),
        decreases i,
    {
        i = i - 1;
        push_char(&mut text, digits[i]);
        assert(rev.reverse().subrange(0, n - i) =~= rev.reverse().subrange(0, n - i - 1).push(
            rev[i as int],
        ));
        assert(text@ =~= seq!['0', 'x'] + rev.reverse().subrange(0, n - i));
    }
    assert(rev.reverse().subrange(0, n as int) =~= rev.reverse());
    text
}

} // verus!
