//! The unlocked session: at most one account at a time, with its plaintext
//! secret, its name, its signing identity and the active chain id. It is a
//! value that the top-level loop owns and hands to whoever needs it.

use crate::wallet::{identity_of, SigningIdentity};
use vstd::prelude::*;

verus! {

/// The chain that a fresh session is on.
pub const DEFAULT_SELECTED_CHAINID: u32 = 1;

/// The state of the running session.
pub struct Session {
    /// The plaintext secret of the unlocked account.
    pub account_key: Option<String>,
    /// The name of the unlocked account.
    pub account_name: Option<String>,
    /// The signing identity of the unlocked account.
    pub wallet: Option<SigningIdentity>,
    /// The active chain id.
    pub selected_chain: u32,
}

impl Session {
    /// No account is unlocked: the session holds no secret, no name and no
    /// identity.
    pub open spec fn is_locked(&self) -> bool {
        self.account_key is None && self.account_name is None && self.wallet is None
    }

    /// An account is unlocked, and the identity is the one that its secret
    /// gives on the active chain.
    pub open spec fn is_unlocked(&self) -> bool {
        &&& self.account_key matches Some(key)
        &&& self.account_name is Some
        &&& self.wallet matches Some(wallet)
        &&& identity_of(key@, self.selected_chain) matches Ok(built)
        &&& built == wallet
    }

    /// The session is either locked or consistently unlocked.
    pub open spec fn wf(&self) -> bool {
        self.is_locked() || self.is_unlocked()
    }

    /// Whether the session has the account `name` unlocked.
    pub open spec fn holds_account(&self, name: Seq<char>) -> bool {
        self.account_name matches Some(n) && n@ == name
    }

    /// A locked session on the default chain.
    pub fn new() -> (r: Session)
        ensures
            r.is_locked(),
            r.wf(),
            r.selected_chain == DEFAULT_SELECTED_CHAINID,
    {
        Session {
            account_key: None,
            account_name: None,
            wallet: None,
            selected_chain: DEFAULT_SELECTED_CHAINID,
        }
    }

    /// Drops the secret, the name and the identity; the chain stays.
    pub fn clear(&mut self)
        ensures
            final(self).is_locked(),
            final(self).wf(),
            final(self).selected_chain == old(self).selected_chain,
    {
        self.account_key = None;
        self.account_name = None;
        self.wallet = None;
    }
}

/// A copy of an optional text.
pub fn clone_text(text: &Option<String>) -> (r: Option<String>)
    ensures
        r == *text,
{
    match text {
        Some(t) => Some(t.clone()),
        None => None,
    }
}

} // verus!
