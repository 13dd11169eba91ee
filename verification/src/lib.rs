//! Secret custody for an EVM wallet, with every decision proved.
//!
//! - [`keystore`]: sealing a secret under a password and opening it again.
//! - [`account`]: the account store (create, unlock, change password,
//!   delete) and the account of the session.
//! - [`wallet`]: the signing identity that a secret gives on a chain.
//! - [`session`], [`networks`]: the unlocked session, the chain registry
//!   and the switch between chains.
//! - [`transfer`]: the transfer pipeline as a state machine, with the funds
//!   check.
//! - [`amount`], [`address`], [`tokens`], [`beneficiaries`], [`provider`]:
//!   the values that the pipeline works on.
//! - [`utils`], [`text`], [`lists`]: input policies and the facts about
//!   texts and sequences that the proofs rest on.
//!
//! The library does no input or output. Cryptography, key derivation and
//! JSON are the work of outside crates, reached through a small number of
//! private functions whose contracts are taken on trust; each of them says
//! in its documentation which outside function it calls and what is
//! claimed of it.

pub mod account;
pub mod address;
pub mod amount;
pub mod beneficiaries;
pub mod keystore;
pub mod lists;
pub mod networks;
pub mod provider;
pub mod session;
pub mod text;
pub mod tokens;
pub mod transfer;
pub mod utils;
pub mod wallet;
