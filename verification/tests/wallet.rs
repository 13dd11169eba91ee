use wallet_core::address::{parse_address, Address};
use wallet_core::session::Session;
use wallet_core::utils::{classify_secret, SecretKind};
use wallet_core::wallet::{
    build_wallet, generate_seed_phrase, get_wallet, identity_from_derivation, set_wallet,
    IdentityError, SigningIdentity,
};

const PHRASE: &str =
    "abandon abandon abandon abandon abandon abandon abandon abandon abandon abandon abandon about";
const KEY: &str = "ac0974bec39a17e36ba4a6b4d238ff944bacb478cbed5efcae784d7bf4f2ff80";

#[test]
fn private_key_gives_its_address() {
    let identity = SigningIdentity::build(KEY, 1).unwrap();
    assert_eq!(
        identity.address,
        parse_address("0xf39Fd6e51aad88F6F4ce6aB8827279cffFb92266").unwrap()
    );
    assert_eq!(identity.chain_id, 1);
    assert_eq!(identity.kind, SecretKind::PrivateKey);
    let prefixed = SigningIdentity::build(&format!(" 0x{} ", KEY), 5).unwrap();
    assert_eq!(prefixed.address, identity.address);
    assert_eq!(prefixed.chain_id, 5);
}

#[test]
fn mnemonic_gives_the_first_account_of_the_default_path() {
    let identity = SigningIdentity::build(PHRASE, 1).unwrap();
    assert_eq!(
        identity.address,
        parse_address("0x9858EfFD232B4033E47d90003D41EC34EcaEda94").unwrap()
    );
    assert_eq!(identity.kind, SecretKind::Mnemonic);
}

#[test]
fn address_is_the_same_on_every_chain() {
    let mainnet = SigningIdentity::build(PHRASE, 1).unwrap();
    let goerli = SigningIdentity::build(PHRASE, 5).unwrap();
    assert_eq!(mainnet.address, goerli.address);
    assert_eq!(mainnet.chain_id, 1);
    assert_eq!(goerli.chain_id, 5);
    assert_eq!(mainnet.with_chain_id(5), goerli);
}

#[test]
fn shape_is_checked_before_anything_is_derived() {
    assert_eq!(SigningIdentity::build("not a secret", 1), Err(IdentityError::InvalidSecret));
    assert_eq!(SigningIdentity::build("", 1), Err(IdentityError::InvalidSecret));
}

#[test]
fn well_shaped_secrets_can_still_be_rejected() {
    let zero = "0".repeat(64);
    assert_eq!(SigningIdentity::build(&zero, 1), Err(IdentityError::KeyRejected));
    let words = "zoo zone zoo zone zoo zone zoo zone zoo zone zoo zone";
    assert_eq!(SigningIdentity::build(words, 1), Err(IdentityError::KeyRejected));
    let double_space = PHRASE.replacen(' ', "  ", 1);
    assert_eq!(SigningIdentity::build(&double_space, 1), Err(IdentityError::KeyRejected));
}

#[test]
fn fresh_seed_phrases_are_mnemonics_and_differ() {
    let first = generate_seed_phrase();
    let second = generate_seed_phrase();
    assert_eq!(classify_secret(&first), Some(SecretKind::Mnemonic));
    assert_eq!(first.split(' ').count(), 12);
    assert_ne!(first, second);
    assert!(SigningIdentity::build(&first, 1).is_ok());
}

#[test]
fn build_wallet_replaces_the_identity_of_the_session() {
    let mut session = Session::new();
    assert_eq!(get_wallet(&session), None);
    assert_eq!(build_wallet(&mut session, KEY, 1), Ok(()));
    let first = get_wallet(&session).unwrap();
    assert_eq!(build_wallet(&mut session, "garbage", 1), Err(IdentityError::InvalidSecret));
    assert_eq!(get_wallet(&session), Some(first));
    assert_eq!(build_wallet(&mut session, PHRASE, 5), Ok(()));
    assert_ne!(get_wallet(&session), Some(first));
    set_wallet(&mut session, None);
    assert_eq!(get_wallet(&session), None);
}

#[test]
fn derived_bytes_become_the_address() {
    let mut bytes = vec![0u8; 20];
    bytes[19] = 7;
    assert_eq!(
        identity_from_derivation(Some(bytes), SecretKind::Mnemonic, 10),
        Ok(SigningIdentity {
            address: Address { high: 0, low: 7 },
            chain_id: 10,
            kind: SecretKind::Mnemonic
        })
    );
    assert_eq!(
        identity_from_derivation(None, SecretKind::PrivateKey, 10),
        Err(IdentityError::KeyRejected)
    );
}
