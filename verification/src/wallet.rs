//! Signing identities: the public address that a secret derives, bound to
//! a chain id.
//!
//! The derivation itself (secp256k1, BIP-32, BIP-39) is the `ethers`
//! crate's. This module proves what surrounds it: that only a secret of a
//! valid shape is handed to it, which error each refusal gives, and that
//! the address does not depend on the chain id.

use crate::address::{address_from_bytes, address_of_bytes, Address};
use crate::session::Session;
use crate::text::{trim, trimmed, word_count};
use crate::utils::{classify_secret, secret_kind, SecretKind, SEED_PHRASE_LEN};
use ethers::signers::coins_bip39::{English, Mnemonic};
use ethers::signers::{LocalWallet, MnemonicBuilder, Signer};
use ethers::types::PathOrString;
use vstd::prelude::*;

verus! {

/// Why no identity was built.
#[derive(Clone, Copy, Debug, PartialEq, Eq, Structural)]
pub enum IdentityError {
    /// The secret is neither a private key nor a seed phrase by its shape.
    InvalidSecret,
    /// The secret has a valid shape, but no key derives from it.
    KeyRejected,
}

/// A public address and the chain id that its signatures are bound to.
#[derive(Clone, Copy, Debug, PartialEq, Eq, Structural)]
pub struct SigningIdentity {
    /// The public address.
    pub address: Address,
    /// The chain that signatures are made for.
    pub chain_id: u32,
    /// What kind of secret the identity derives from.
    pub kind: SecretKind,
}

/// The twenty address bytes of the wallet that `LocalWallet::from_str`
/// builds from `key`, if it builds one.
pub uninterp spec fn private_key_address(key: Seq<char>) -> Option<Seq<u8>>;

/// The twenty address bytes of the wallet that `MnemonicBuilder` builds
/// from `phrase` with the English word list, no password and the path
/// `m/44'/60'/0'/0/0`, if it builds one.
pub uninterp spec fn mnemonic_address(phrase: Seq<char>) -> Option<Seq<u8>>;

/// The address bytes that a secret of the given kind derives.
pub open spec fn derived_address(kind: SecretKind, secret: Seq<char>) -> Option<Seq<u8>> {
    match kind {
        SecretKind::PrivateKey => private_key_address(secret),
        SecretKind::Mnemonic => mnemonic_address(secret),
    }
}

/// What a derivation gives: the identity at the derived address, or
/// `KeyRejected` when nothing was derived.
pub open spec fn derivation_result(
    derived: Option<Seq<u8>>,
    kind: SecretKind,
    chain_id: u32,
) -> Result<SigningIdentity, IdentityError> {
    match derived {
        Some(bytes) => Ok(SigningIdentity { address: address_of_bytes(bytes), chain_id, kind }),
        None => Err(IdentityError::KeyRejected),
    }
}

/// The identity that `secret` gives on the chain `chain_id`: the secret is
/// classified by its shape, and its trimmed text is handed to the
/// derivation of that kind.
pub open spec fn identity_of(secret: Seq<char>, chain_id: u32) -> Result<
    SigningIdentity,
    IdentityError,
> {
    match secret_kind(secret) {
        None => Err(IdentityError::InvalidSecret),
        Some(kind) => derivation_result(derived_address(kind, trimmed(secret)), kind, chain_id),
    }
}

/// Parses `key` with `LocalWallet::from_str` (hexadecimal digits of a
/// secp256k1 secret key) and returns the address of the wallet: the bytes
/// that [`private_key_address`] names.
#[verifier::external_body]
fn address_of_private_key(key: &str) -> (r: Option<Vec<u8>>)
    ensures
        match r {
            Some(bytes) => bytes@.len() == 20 && private_key_address(key@) == Some(bytes@),
            None => private_key_address(key@) is None,
        },
{
    match key.parse::<LocalWallet>() {
        Ok(wallet) => Some(wallet.address().0.to_vec()),
        Err(_) => None,
    }
}

/// Builds a wallet with `MnemonicBuilder::<English>::default()`, the
/// phrase given as a string (never as a path), and returns its address:
/// the bytes that [`mnemonic_address`] names.
#[verifier::external_body]
fn address_of_mnemonic(phrase: &str) -> (r: Option<Vec<u8>>)
    ensures
        match r {
            Some(bytes) => bytes@.len() == 20 && mnemonic_address(phrase@) == Some(bytes@),
            None => mnemonic_address(phrase@) is None,
        },
{
    let words = PathOrString::String(phrase.to_string());
    match MnemonicBuilder::<English>::default().phrase(words).build() {
        Ok(wallet) => Some(wallet.address().0.to_vec()),
        Err(_) => None,
    }
}

/// Draws a fresh seed phrase with `Mnemonic::<English>::new` and the
/// thread's random generator, and spells it with `to_phrase`. The words
/// differ from call to call; there are always twelve of them.
#[verifier::external_body]
fn random_phrase() -> (r: String)
    ensures
        word_count(r@) == SEED_PHRASE_LEN,
{
    Mnemonic::<English>::new(&mut rand::thread_rng()).to_phrase()
}

/// A fresh seed phrase. It has the shape of a mnemonic.
pub fn generate_seed_phrase() -> (r: String)
    ensures
        secret_kind(r@) == Some(SecretKind::Mnemonic),
{
    random_phrase()
}

/// Executable form of [`derivation_result`].
pub fn identity_from_derivation(derived: Option<Vec<u8>>, kind: SecretKind, chain_id: u32) -> (r:
    Result<SigningIdentity, IdentityError>)
    requires
        derived matches Some(bytes) ==> bytes@.len() == 20,
    ensures
        match derived {
            Some(bytes) => r == derivation_result(Some(bytes@), kind, chain_id),
            None => r == derivation_result(None, kind, chain_id),
        },
{
    match derived {
        Some(bytes) => Ok(
            SigningIdentity { address: address_from_bytes(bytes.as_slice()), chain_id, kind },
        ),
        None => Err(IdentityError::KeyRejected),
    }
}

impl SigningIdentity {
    /// Builds the identity of `secret` on the chain `chain_id`:
    /// `InvalidSecret` exactly when the secret has neither the shape of a
    /// private key nor that of a seed phrase, `KeyRejected` when the
    /// derivation refuses a secret of a valid shape.
    pub fn build(secret: &str, chain_id: u32) -> (r: Result<SigningIdentity, IdentityError>)
        ensures
            r == identity_of(secret@, chain_id),
    {
        match classify_secret(secret) {
            None => Err(IdentityError::InvalidSecret),
            Some(SecretKind::PrivateKey) => identity_from_derivation(
                address_of_private_key(trim(secret)),
                SecretKind::PrivateKey,
                chain_id,
            ),
            Some(SecretKind::Mnemonic) => identity_from_derivation(
                address_of_mnemonic(trim(secret)),
                SecretKind::Mnemonic,
                chain_id,
            ),
        }
    }

    /// The same identity, bound to another chain.
    pub fn with_chain_id(self, chain_id: u32) -> (r: SigningIdentity)
        ensures
            r.address == self.address,
            r.kind == self.kind,
            r.chain_id == chain_id,
    {
        SigningIdentity { address: self.address, chain_id, kind: self.kind }
    }
}

/// The signing identity of the session, if an account is unlocked.
pub fn get_wallet(session: &Session) -> (r: Option<SigningIdentity>)
    ensures
        r == session.wallet,
{
    session.wallet
}

/// Replaces the signing identity of the session; the previous one is
/// dropped.
pub fn set_wallet(session: &mut Session, wallet: Option<SigningIdentity>)
    ensures
        final(session).wallet == wallet,
        final(session).account_key == old(session).account_key,
        final(session).account_name == old(session).account_name,
        final(session).selected_chain == old(session).selected_chain,
{
    session.wallet = wallet;
}

/// Builds the identity of `account_key` on the chain `chain_id` and makes
/// it the identity of the session. Where no identity can be built, the
/// session keeps the one it had.
pub fn build_wallet(session: &mut Session, account_key: &str, chain_id: u32) -> (r: Result<
    (),
    IdentityError,
>)
    ensures
        match r {
            Ok(()) => identity_of(account_key@, chain_id) matches Ok(identity)
                && final(session).wallet == Some(identity),
            Err(e) => identity_of(account_key@, chain_id) matches Err(cause) && cause == e
                && final(session).wallet == old(session).wallet,
        },
        final(session).account_key == old(session).account_key,
        final(session).account_name == old(session).account_name,
        final(session).selected_chain == old(session).selected_chain,
{
    match SigningIdentity::build(account_key, chain_id) {
        Ok(identity) => {
            set_wallet(session, Some(identity));
            Ok(())
        },
        Err(e) => Err(e),
    }
}

/// Building the identity of one secret for two chains gives the same
/// address, bound to the first chain and to the second; where it fails, it
/// fails for both with the same error.
pub proof fn lemma_address_independent_of_chain(secret: Seq<char>, first: u32, second: u32)
    ensures
        match identity_of(secret, first) {
            Ok(a) => identity_of(secret, second) matches Ok(b) && a.address == b.address && a.kind
                == b.kind && a.chain_id == first && b.chain_id == second,
            Err(e) => identity_of(secret, second) == Err::<SigningIdentity, IdentityError>(e),
        },
{
}

} // verus!
