use wallet_core::text::{chars_of, count_words, same_text, trim};
use wallet_core::utils::{
    classify_secret, get_account_path, goes_to_error_stream, is_affirmative, is_pkey,
    is_valid_ethereum_address, is_valid_name, is_valid_password, log, perform_selection,
    selection_items, take_user_input, take_valid_password_input, validate_secret_input, InputKind,
    LogSeverity, SecretKind, ValidationError,
};

const KEY: &str = "ac0974bec39a17e36ba4a6b4d238ff944bacb478cbed5efcae784d7bf4f2ff80";
const PHRASE: &str =
    "abandon abandon abandon abandon abandon abandon abandon abandon abandon abandon abandon about";

#[test]
fn sixty_four_hex_digits_are_a_private_key() {
    assert_eq!(classify_secret(KEY), Some(SecretKind::PrivateKey));
    assert!(validate_secret_input(KEY));
    assert!(is_pkey(KEY));
}

#[test]
fn prefixed_private_key_is_a_private_key() {
    let prefixed = format!("0x{}", KEY);
    assert_eq!(classify_secret(&prefixed), Some(SecretKind::PrivateKey));
    let padded = format!("  0x{}\n", KEY);
    assert_eq!(classify_secret(&padded), Some(SecretKind::PrivateKey));
}

#[test]
fn twelve_words_are_a_mnemonic() {
    assert_eq!(classify_secret(PHRASE), Some(SecretKind::Mnemonic));
    assert!(!is_pkey(PHRASE));
    let spaced = "a  b\tc\nd e f g h i j k l";
    assert_eq!(classify_secret(spaced), Some(SecretKind::Mnemonic));
    assert!(validate_secret_input("  one two three four five six seven eight nine ten eleven twelve  "));
}

#[test]
fn other_secrets_are_rejected() {
    assert_eq!(classify_secret(""), None);
    assert_eq!(classify_secret("   "), None);
    assert_eq!(classify_secret(&KEY[1..]), None);
    assert_eq!(classify_secret(&format!("{}0", KEY)), None);
    assert_eq!(classify_secret(&format!("0X{}", KEY)), None);
    let not_hex = "z".repeat(64);
    assert_eq!(classify_secret(&not_hex), None);
    assert_eq!(classify_secret("one two three four five six seven eight nine ten eleven"), None);
    assert_eq!(
        classify_secret("one two three four five six seven eight nine ten eleven twelve thirteen"),
        None
    );
    assert!(!validate_secret_input("two words"));
}

#[test]
fn words_are_split_on_unicode_whitespace() {
    let chars = chars_of("a\u{3000}b\u{a0}c \u{2003} d");
    assert_eq!(count_words(&chars), 4);
    assert_eq!(count_words(&chars_of("")), 0);
    assert_eq!(count_words(&chars_of(" \t ")), 0);
    assert_eq!(count_words(&chars_of("one")), 1);
}

#[test]
fn trim_agrees_with_std() {
    for text in ["", "  ", " a ", "a", "\t a b \n", "\u{3000}x\u{2028}", "no-space"] {
        assert_eq!(trim(text), text.trim());
    }
    assert!(same_text("abc", "abc"));
    assert!(!same_text("abc", "abd"));
    assert!(!same_text("abc", "ab"));
}

#[test]
fn account_path_is_under_accounts() {
    assert_eq!(get_account_path("alice"), "accounts/alice");
    assert_eq!(get_account_path(""), "accounts/");
}

#[test]
fn address_shape_is_0x_and_forty_hex_digits() {
    assert!(is_valid_ethereum_address("0xf39Fd6e51aad88F6F4ce6aB8827279cffFb92266"));
    assert!(is_valid_ethereum_address("  0xf39Fd6e51aad88F6F4ce6aB8827279cffFb92266\n"));
    assert!(!is_valid_ethereum_address("f39Fd6e51aad88F6F4ce6aB8827279cffFb92266"));
    assert!(!is_valid_ethereum_address("0xf39Fd6e51aad88F6F4ce6aB8827279cffFb9226"));
    assert!(!is_valid_ethereum_address("0xf39Fd6e51aad88F6F4ce6aB8827279cffFb9226g"));
    assert!(!is_valid_ethereum_address(""));
}

#[test]
fn password_and_name_policies() {
    assert!(is_valid_password("123456"));
    assert!(!is_valid_password("12345"));
    assert!(!is_valid_password("  12345  "));
    assert!(is_valid_name("abc"));
    assert!(is_valid_name(" abc "));
    assert!(!is_valid_name("ab"));
    assert!(!is_valid_name(" ab "));
}

#[test]
fn take_user_input_trims_or_names_the_error() {
    assert_eq!(take_user_input(InputKind::Name, " bob \n"), Ok("bob".to_string()));
    assert_eq!(take_user_input(InputKind::Name, "bo"), Err(ValidationError::NameTooShort));
    assert_eq!(take_user_input(InputKind::Password, "12345"), Err(ValidationError::PasswordTooShort));
    assert_eq!(take_user_input(InputKind::Secret, "nope"), Err(ValidationError::InvalidSecret));
    assert_eq!(take_user_input(InputKind::Address, "0x12"), Err(ValidationError::InvalidAddress));
    assert_eq!(take_user_input(InputKind::Free, "  anything "), Ok("anything".to_string()));
    assert_eq!(take_user_input(InputKind::Secret, &format!(" {} ", KEY)), Ok(KEY.to_string()));
}

#[test]
fn only_y_confirms() {
    assert!(is_affirmative("y"));
    assert!(is_affirmative(" Y\n"));
    assert!(!is_affirmative("yes"));
    assert!(!is_affirmative("n"));
    assert!(!is_affirmative(""));
}

#[test]
fn go_back_is_the_last_entry_and_means_nothing() {
    let items = vec!["one".to_string(), "two".to_string()];
    let shown = selection_items(items.clone(), true);
    assert_eq!(shown, vec!["one".to_string(), "two".to_string(), "Go back".to_string()]);
    assert_eq!(selection_items(items.clone(), false), items);
    assert_eq!(perform_selection(Some(0), 3, true), Some(0));
    assert_eq!(perform_selection(Some(2), 3, true), None);
    assert_eq!(perform_selection(Some(2), 3, false), Some(2));
    assert_eq!(perform_selection(Some(3), 3, false), None);
    assert_eq!(perform_selection(None, 3, true), None);
    assert_eq!(perform_selection(Some(0), 0, true), None);
}

#[test]
fn logs_carry_their_severity() {
    assert_eq!(log("hello", None), "hello");
    assert_eq!(log("hello", Some(LogSeverity::INFO)), "[INFO] hello");
    assert_eq!(log("hello", Some(LogSeverity::WARN)), "[WARN] hello");
    assert_eq!(log("hello", Some(LogSeverity::ERROR)), "[ERROR] hello");
    assert!(goes_to_error_stream(Some(LogSeverity::ERROR)));
    assert!(!goes_to_error_stream(Some(LogSeverity::INFO)));
    assert!(!goes_to_error_stream(None));
}

#[test]
fn whitespace_is_what_std_calls_whitespace() {
    for code in 0u32..=0x10ffff {
        if let Some(c) = char::from_u32(code) {
            assert_eq!(wallet_core::text::char_is_whitespace(c), c.is_whitespace(), "U+{:04X}", code);
        }
    }
}

#[test]
fn account_files_have_fixed_names() {
    assert_eq!(wallet_core::utils::get_keystore_path("alice"), "accounts/alice/keystore.json");
    assert_eq!(
        wallet_core::utils::get_beneficiaries_path("alice"),
        "accounts/alice/beneficiaries.json"
    );
}

#[test]
fn accepted_passwords_come_back_as_typed() {
    assert_eq!(take_valid_password_input(" 123456 "), Ok(" 123456 ".to_string()));
    assert_eq!(take_valid_password_input("12345"), Err(ValidationError::PasswordTooShort));
    assert_eq!(take_valid_password_input(""), Err(ValidationError::PasswordTooShort));
}
