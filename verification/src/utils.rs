//! Input policies and small decisions shared by the other modules: the
//! shape of a secret, of an address, of a password and of an account name,
//! the paths of an account's files, and what a menu selection means.

use crate::text::{
    all_hex_digits, char_is_hex_digit, chars_of, count_words, has_0x_prefix, is_hex_digit,
    is_whitespace, lemma_one_word, lemma_trimmed_twice, lemma_word_count_of_trimmed, strip_0x,
    trim, trim_bounds, trimmed, word_count,
};
use vstd::prelude::*;
use vstd::string::StringExecFns;

verus! {

/// Number of words of a seed phrase.
pub const SEED_PHRASE_LEN: usize = 12;

/// Number of hexadecimal digits of a private key.
pub const PKEY_LEN: usize = 64;

/// Number of characters of an address: `0x` and forty hexadecimal digits.
pub const ADDRESS_LEN: usize = 42;

/// Fewest characters of an account name or a beneficiary name.
pub const MIN_NAME_LEN: usize = 3;

/// Fewest characters of a password.
pub const MIN_PASSWORD_LEN: usize = 6;

/// How loud a message is.
#[allow(non_camel_case_types)]
#[derive(Clone, Copy, Debug, PartialEq, Eq, Structural)]
pub enum LogSeverity {
    INFO,
    WARN,
    ERROR,
}

/// What a secret is taken to be, by its shape alone.
#[derive(Clone, Copy, Debug, PartialEq, Eq, Structural)]
pub enum SecretKind {
    /// Sixty-four hexadecimal digits, with or without `0x` in front.
    PrivateKey,
    /// Twelve words separated by whitespace.
    Mnemonic,
}

/// Why an input was turned down.
#[derive(Clone, Copy, Debug, PartialEq, Eq, Structural)]
pub enum ValidationError {
    /// The name has fewer than [`MIN_NAME_LEN`] characters.
    NameTooShort,
    /// The password has fewer than [`MIN_PASSWORD_LEN`] characters.
    PasswordTooShort,
    /// The secret is neither a private key nor a seed phrase.
    InvalidSecret,
    /// The address is not `0x` followed by forty hexadecimal digits.
    InvalidAddress,
}

/// What an input is asked for.
#[derive(Clone, Copy, Debug, PartialEq, Eq, Structural)]
pub enum InputKind {
    /// Anything goes.
    Free,
    /// A private key or a seed phrase.
    Secret,
    /// The name of an account or of a beneficiary.
    Name,
    /// An address.
    Address,
    /// A password.
    Password,
}

/// A text without whitespace between its first and its last visible
/// character is read as a private key, any other as a seed phrase.
pub open spec fn is_pkey_text(secret: Seq<char>) -> bool {
    word_count(secret) <= 1
}

/// The shape of a private key: an optional `0x`, then exactly
/// [`PKEY_LEN`] hexadecimal digits.
pub open spec fn is_private_key_text(s: Seq<char>) -> bool {
    strip_0x(s).len() == PKEY_LEN && all_hex_digits(strip_0x(s))
}

/// How a secret classifies: a seed phrase when it splits into exactly
/// [`SEED_PHRASE_LEN`] words, a private key when it is one word of the
/// private key shape, nothing otherwise.
pub open spec fn secret_kind(secret: Seq<char>) -> Option<SecretKind> {
    if word_count(secret) == SEED_PHRASE_LEN {
        Some(SecretKind::Mnemonic)
    } else if word_count(secret) == 1 && is_private_key_text(trimmed(secret)) {
        Some(SecretKind::PrivateKey)
    } else {
        None
    }
}

/// The shape of an address: `0x`, then forty hexadecimal digits.
pub open spec fn is_address_text(s: Seq<char>) -> bool {
    &&& s.len() == ADDRESS_LEN
    &&& has_0x_prefix(s)
    &&& all_hex_digits(s.subrange(2, ADDRESS_LEN as int))
}

/// The password policy, on the trimmed text.
pub open spec fn is_password_text(s: Seq<char>) -> bool {
    trimmed(s).len() >= MIN_PASSWORD_LEN
}

/// The name policy, on the trimmed text.
pub open spec fn is_name_text(s: Seq<char>) -> bool {
    trimmed(s).len() >= MIN_NAME_LEN
}

/// The directory of an account: `accounts/` and the account's name.
pub open spec fn account_path(acc_name: Seq<char>) -> Seq<char> {
    "accounts/"@ + acc_name
}

/// The keystore file of an account.
pub open spec fn keystore_path(acc_name: Seq<char>) -> Seq<char> {
    account_path(acc_name) + "/keystore.json"@
}

/// The beneficiaries file of an account.
pub open spec fn beneficiaries_path(acc_name: Seq<char>) -> Seq<char> {
    account_path(acc_name) + "/beneficiaries.json"@
}

/// Whether `kind` accepts `raw`.
pub open spec fn input_accepted(kind: InputKind, raw: Seq<char>) -> bool {
    match kind {
        InputKind::Free => true,
        InputKind::Secret => secret_kind(raw) is Some,
        InputKind::Name => is_name_text(raw),
        InputKind::Address => is_address_text(trimmed(raw)),
        InputKind::Password => is_password_text(raw),
    }
}

/// The error that `kind` answers an input it does not accept with.
pub open spec fn input_error(kind: InputKind) -> ValidationError {
    match kind {
        InputKind::Free => ValidationError::InvalidSecret,
        InputKind::Secret => ValidationError::InvalidSecret,
        InputKind::Name => ValidationError::NameTooShort,
        InputKind::Address => ValidationError::InvalidAddress,
        InputKind::Password => ValidationError::PasswordTooShort,
    }
}

/// The shape rule for private keys: sixty-four hexadecimal digits, with or
/// without `0x` in front, classify as a private key.
pub proof fn lemma_hex_key_is_private_key(digits: Seq<char>)
    requires
        digits.len() == PKEY_LEN,
        all_hex_digits(digits),
    ensures
        secret_kind(digits) == Some(SecretKind::PrivateKey),
        secret_kind(seq!['0', 'x'] + digits) == Some(SecretKind::PrivateKey),
{
    let prefixed = seq!['0', 'x'] + digits;
    assert forall|i: int| 0 <= i < digits.len() implies !is_whitespace(#[trigger] digits[i]) by {
        assert(is_hex_digit(digits[i]));
    }
    assert forall|i: int| 0 <= i < prefixed.len() implies !is_whitespace(
        #[trigger] prefixed[i],
    ) by {
        if i >= 2 {
            assert(prefixed[i] == digits[i - 2]);
            assert(is_hex_digit(digits[i - 2]));
        }
    }
    lemma_one_word(digits);
    lemma_one_word(prefixed);
    assert(is_hex_digit(digits[1]));
    assert(!has_0x_prefix(digits));
    assert(strip_0x(prefixed) =~= digits);
}

/// The shape rule as a whole: a text classifies as a seed phrase exactly
/// when it splits into twelve words, as a private key exactly when it is
/// one word that is sixty-four hexadecimal digits after an optional `0x`,
/// and is rejected in every other case.
pub proof fn lemma_secret_shape(secret: Seq<char>)
    ensures
        secret_kind(secret) == Some(SecretKind::Mnemonic) <==> word_count(secret)
            == SEED_PHRASE_LEN,
        secret_kind(secret) == Some(SecretKind::PrivateKey) <==> word_count(secret) == 1
            && is_private_key_text(trimmed(secret)),
        secret_kind(secret) is None <==> word_count(secret) != SEED_PHRASE_LEN && !(word_count(
            secret,
        ) == 1 && is_private_key_text(trimmed(secret))),
{
}

/// Whitespace around a secret does not change how it classifies.
pub proof fn lemma_secret_kind_of_trimmed(secret: Seq<char>)
    ensures
        secret_kind(trimmed(secret)) == secret_kind(secret),
{
    lemma_word_count_of_trimmed(secret);
    lemma_trimmed_twice(secret);
}

/// Whether the characters `chars[start..end]` have the private key shape.
fn is_private_key_chars(chars: &Vec<char>, start: usize, end: usize) -> (r: bool)
    requires
        start <= end <= chars@.len(),
    ensures
        r == is_private_key_text(chars@.subrange(start as int, end as int)),
{
    let ghost s = chars@.subrange(start as int, end as int);
    let prefixed: bool = end - start >= 2 && chars[start] == '0' && chars[start + 1] == 'x';
    assert(prefixed == has_0x_prefix(s));
    let from: usize = if prefixed {
        start + 2
    } else {
        start
    };
    assert(strip_0x(s) =~= chars@.subrange(from as int, end as int));
    if end - from != PKEY_LEN {
        return false;
    }
    let mut i: usize = from;
    while i < end
        invariant
            start <= from <= i <= end,
            end <= chars@.len(),
            end - from == PKEY_LEN,
            strip_0x(chars@.subrange(start as int, end as int)) == chars@.subrange(
                from as int,
                end as int,
            ),
            forall|j: int| from <= j < i ==> is_hex_digit(#[trigger] chars@[j]),
        decreases end - i,
    {
        if !char_is_hex_digit(chars[i]) {
            assert(!is_hex_digit(chars@.subrange(from as int, end as int)[i - from]));
            return false;
        }
        i = i + 1;
    }
    assert forall|j: int| 0 <= j < end - from implies is_hex_digit(
        #[trigger] chars@.subrange(from as int, end as int)[j],
    ) by {
        assert(is_hex_digit(chars@[from + j]));
    }
    true
}

/// Whether the characters `chars[start..end]` have the address shape.
fn is_address_chars(chars: &Vec<char>, start: usize, end: usize) -> (r: bool)
    requires
        start <= end <= chars@.len(),
    ensures
        r == is_address_text(chars@.subrange(start as int, end as int)),
{
    let ghost s = chars@.subrange(start as int, end as int);
    if end - start != ADDRESS_LEN {
        return false;
    }
    if chars[start] != '0' || chars[start + 1] != 'x' {
        return false;
    }
    let ghost digits = s.subrange(2, ADDRESS_LEN as int);
    let mut i: usize = start + 2;
    while i < end
        invariant
            start + 2 <= i <= end,
            end <= chars@.len(),
            end - start == ADDRESS_LEN,
            digits == chars@.subrange(start as int, end as int).subrange(2, ADDRESS_LEN as int),
            forall|j: int| start + 2 <= j < i ==> is_hex_digit(#[trigger] chars@[j]),
        decreases end - i,
    {
        if !char_is_hex_digit(chars[i]) {
            assert(!is_hex_digit(digits[i - start - 2]));
            return false;
        }
        i = i + 1;
    }
    assert forall|j: int| 0 <= j < digits.len() implies is_hex_digit(#[trigger] digits[j]) by {
        assert(is_hex_digit(chars@[start + 2 + j]));
    }
    true
}

/// Classifies `secret` by its shape.
pub fn classify_secret(secret: &str) -> (r: Option<SecretKind>)
    ensures
        r == secret_kind(secret@),
{
    let chars: Vec<char> = chars_of(secret);
    let words: usize = count_words(&chars);
    if words == SEED_PHRASE_LEN {
        Some(SecretKind::Mnemonic)
    } else if words == 1 {
        let (start, end) = trim_bounds(&chars);
        if start < end && is_private_key_chars(&chars, start, end) {
            Some(SecretKind::PrivateKey)
        } else {
            if start >= end {
                assert(trimmed(chars@).len() == 0);
                assert(strip_0x(trimmed(chars@)) =~= trimmed(chars@));
            }
            None
        }
    } else {
        None
    }
}

/// Whether `secret` reads as a private key rather than as a seed phrase.
pub fn is_pkey(secret: &str) -> (r: bool)
    ensures
        r == is_pkey_text(secret@),
{
    let chars: Vec<char> = chars_of(secret);
    count_words(&chars) <= 1
}

/// Whether `secret` is a private key or a seed phrase of the right shape.
pub fn validate_secret_input(secret: &str) -> (r: bool)
    ensures
        r == (secret_kind(secret@) is Some),
        r == if is_pkey_text(secret@) {
            word_count(secret@) == 1 && is_private_key_text(trimmed(secret@))
        } else {
            word_count(secret@) == SEED_PHRASE_LEN
        },
{
    classify_secret(secret).is_some()
}

/// The directory that holds the files of the account `acc_name`.
pub fn get_account_path(acc_name: &str) -> (r: String)
    ensures
        r@ == account_path(acc_name@),
{
    let mut file_name: String = String::from_str("accounts/");
    file_name.append(acc_name);
    file_name
}

/// The keystore file of the account `acc_name`.
pub fn get_keystore_path(acc_name: &str) -> (r: String)
    ensures
        r@ == keystore_path(acc_name@),
{
    let mut path: String = get_account_path(acc_name);
    path.append("/keystore.json");
    path
}

/// The beneficiaries file of the account `acc_name`.
pub fn get_beneficiaries_path(acc_name: &str) -> (r: String)
    ensures
        r@ == beneficiaries_path(acc_name@),
{
    let mut path: String = get_account_path(acc_name);
    path.append("/beneficiaries.json");
    path
}

/// Whether `address`, trimmed, is `0x` followed by forty hexadecimal digits.
pub fn is_valid_ethereum_address(address: &str) -> (r: bool)
    ensures
        r == is_address_text(trimmed(address@)),
{
    let chars: Vec<char> = chars_of(address);
    let (start, end) = trim_bounds(&chars);
    if start < end {
        is_address_chars(&chars, start, end)
    } else {
        false
    }
}

/// Whether `password`, trimmed, has at least [`MIN_PASSWORD_LEN`] characters.
pub fn is_valid_password(password: &str) -> (r: bool)
    ensures
        r == is_password_text(password@),
{
    let chars: Vec<char> = chars_of(password);
    let (start, end) = trim_bounds(&chars);
    start < end && end - start >= MIN_PASSWORD_LEN
}

/// Checks a password that was typed: the password as it is when it meets
/// the policy, the error to show before asking again when it does not.
pub fn take_valid_password_input(password: &str) -> (r: Result<String, ValidationError>)
    ensures
        match r {
            Ok(accepted) => is_password_text(password@) && accepted@ == password@,
            Err(e) => !is_password_text(password@) && e == ValidationError::PasswordTooShort,
        },
{
    if is_valid_password(password) {
        Ok(String::from_str(password))
    } else {
        Err(ValidationError::PasswordTooShort)
    }
}

/// Whether `name`, trimmed, has at least [`MIN_NAME_LEN`] characters.
pub fn is_valid_name(name: &str) -> (r: bool)
    ensures
        r == is_name_text(name@),
{
    let chars: Vec<char> = chars_of(name);
    let (start, end) = trim_bounds(&chars);
    start < end && end - start >= MIN_NAME_LEN
}

/// Checks one answer to a prompt: the trimmed text when `kind` accepts it,
/// the error to show before asking again when it does not.
pub fn take_user_input(kind: InputKind, raw: &str) -> (r: Result<String, ValidationError>)
    ensures
        match r {
            Ok(text) => input_accepted(kind, raw@) && text@ == trimmed(raw@) && input_accepted(
                kind,
                text@,
            ),
            Err(e) => !input_accepted(kind, raw@) && e == input_error(kind),
        },
{
    proof {
        lemma_secret_kind_of_trimmed(raw@);
        lemma_trimmed_twice(raw@);
    }
    let accepted: bool = match kind {
        InputKind::Free => true,
        InputKind::Secret => validate_secret_input(raw),
        InputKind::Name => is_valid_name(raw),
        InputKind::Address => is_valid_ethereum_address(raw),
        InputKind::Password => is_valid_password(raw),
    };
    if accepted {
        Ok(String::from_str(trim(raw)))
    } else {
        Err(
            match kind {
                InputKind::Free => ValidationError::InvalidSecret,
                InputKind::Secret => ValidationError::InvalidSecret,
                InputKind::Name => ValidationError::NameTooShort,
                InputKind::Address => ValidationError::InvalidAddress,
                InputKind::Password => ValidationError::PasswordTooShort,
            },
        )
    }
}

/// An answer counts as yes when, trimmed, it is `y` or `Y`.
pub open spec fn is_yes(answer: Seq<char>) -> bool {
    trimmed(answer) == seq!['y'] || trimmed(answer) == seq!['Y']
}

/// Whether `answer` confirms.
pub fn is_affirmative(answer: &str) -> (r: bool)
    ensures
        r == is_yes(answer@),
{
    let chars: Vec<char> = chars_of(answer);
    let (start, end) = trim_bounds(&chars);
    if start < end && end - start == 1 {
        let c: char = chars[start];
        assert(trimmed(chars@) =~= seq![c]);
        if c == 'y' || c == 'Y' {
            true
        } else {
            assert(seq![c][0] != seq!['y'][0]);
            assert(seq![c][0] != seq!['Y'][0]);
            false
        }
    } else {
        assert(trimmed(chars@).len() != 1);
        assert(seq!['y'].len() == 1);
        assert(seq!['Y'].len() == 1);
        false
    }
}

/// The entry that a list with a way back ends with.
pub open spec fn go_back_label() -> Seq<char> {
    "Go back"@
}

/// The entries to show: `items`, and `Go back` after them when asked for.
pub fn selection_items(items: Vec<String>, with_go_back: bool) -> (r: Vec<String>)
    ensures
        with_go_back ==> r@.len() == items@.len() + 1 && r@.subrange(0, items@.len() as int)
            == items@ && r@[items@.len() as int]@ == go_back_label(),
        !with_go_back ==> r@ == items@,
{
    let mut shown: Vec<String> = items;
    if with_go_back {
        let ghost before = shown@;
        shown.push(String::from_str("Go back"));
        assert(shown@.subrange(0, before.len() as int) =~= before);
    }
    shown
}

/// What a selection among `shown` entries means: nothing when the user
/// left without choosing, picked the closing `Go back`, or the index is
/// off the list; the index of the entry otherwise.
pub open spec fn selection_meaning(
    selected: Option<usize>,
    shown: usize,
    with_go_back: bool,
) -> Option<usize> {
    match selected {
        None => None,
        Some(i) => if i >= shown || (with_go_back && i + 1 == shown) {
            None
        } else {
            Some(i)
        },
    }
}

/// Executable form of [`selection_meaning`].
pub fn perform_selection(selected: Option<usize>, shown: usize, with_go_back: bool) -> (r: Option<
    usize,
>)
    ensures
        r == selection_meaning(selected, shown, with_go_back),
{
    match selected {
        None => None,
        Some(i) => {
            if i >= shown || (with_go_back && i == shown - 1) {
                None
            } else {
                Some(i)
            }
        },
    }
}

/// The tag that a message of the given severity starts with.
pub open spec fn severity_tag(severity: LogSeverity) -> Seq<char> {
    match severity {
        LogSeverity::INFO => "[INFO] "@,
        LogSeverity::WARN => "[WARN] "@,
        LogSeverity::ERROR => "[ERROR] "@,
    }
}

/// The line to print for a message: the message itself without a
/// severity, else the severity's tag and the message.
pub open spec fn log_text(msg: Seq<char>, severity: Option<LogSeverity>) -> Seq<char> {
    match severity {
        None => msg,
        Some(s) => severity_tag(s) + msg,
    }
}

/// Executable form of [`log_text`].
pub fn log(msg: &str, severity: Option<LogSeverity>) -> (r: String)
    ensures
        r@ == log_text(msg@, severity),
{
    match severity {
        None => String::from_str(msg),
        Some(s) => {
            let mut line: String = match s {
                LogSeverity::INFO => String::from_str("[INFO] "),
                LogSeverity::WARN => String::from_str("[WARN] "),
                LogSeverity::ERROR => String::from_str("[ERROR] "),
            };
            line.append(msg);
            line
        },
    }
}

/// Whether a message of this severity goes to the error stream.
pub fn goes_to_error_stream(severity: Option<LogSeverity>) -> (r: bool)
    ensures
        r == (severity == Some(LogSeverity::ERROR)),
{
    match severity {
        Some(LogSeverity::ERROR) => true,
        _ => false,
    }
}

} // verus!
