//! The account store and the session's account: creating, unlocking,
//! re-keying and deleting accounts, and what the menus around them mean.
//!
//! The store is the library's picture of what is persisted: for every
//! account name one keystore document, the tracked tokens and the
//! beneficiary address book. The caller mirrors it to disk.

use crate::address::{address_of_text, Address};
use crate::beneficiaries::{beneficiary_check, Beneficiaries};
use crate::keystore::{
    deserialize_keystore, holds_secret, seal_secret, secret_text, DecryptError, EncryptError,
};
use crate::lists::{
    lemma_index_of_contained, lemma_index_of_unique, lemma_insert_new, lemma_push_new,
    lemma_remove_at,
};
use crate::session::{clone_text, Session};
use crate::text::{lemma_trimmed_twice, same_text, trim, trimmed};
use crate::tokens::{tokens_with, Token, TokenList, TokenView};
use crate::utils::{
    is_name_text, is_password_text, is_valid_name, is_valid_password,
    lemma_secret_kind_of_trimmed, secret_kind, validate_secret_input, SecretKind,
    ValidationError,
};
use crate::wallet::{generate_seed_phrase, identity_of, IdentityError, SigningIdentity};
use vstd::prelude::*;
use vstd::string::StringExecFns;

verus! {

/// Why an account did not unlock.
#[derive(Clone, Copy, Debug, PartialEq, Eq, Structural)]
pub enum AuthError {
    /// The password is wrong; ask again.
    WrongPassword,
    /// The keystore of the account is unreadable.
    Corrupt,
    /// There is no account of that name.
    NotFound,
}

/// Why an account was not created.
#[derive(Clone, Copy, Debug, PartialEq, Eq, Structural)]
pub enum CreateError {
    /// The name, the secret or the password was turned down.
    Invalid(ValidationError),
    /// The secret could not be sealed. It stands for the cipher's own
    /// error, which its fixed parameters never raise.
    Encrypt(EncryptError),
}

/// Why a password was not changed.
#[derive(Clone, Copy, Debug, PartialEq, Eq, Structural)]
pub enum ChangePasswordError {
    /// The old password did not unlock the account.
    Auth(AuthError),
    /// The new password was turned down.
    Invalid(ValidationError),
    /// The secret could not be sealed under the new password. It stands
    /// for the cipher's own error, which its fixed parameters never raise.
    Encrypt(EncryptError),
}

/// Why an account was not selected.
#[derive(Clone, Copy, Debug, PartialEq, Eq, Structural)]
pub enum LoginError {
    /// The account did not unlock.
    Auth(AuthError),
    /// The secret gave no signing identity.
    Identity(IdentityError),
}

/// One account as it is persisted.
pub struct Account {
    /// The name of the account, which is also the name of its directory.
    pub name: String,
    /// The keystore document.
    pub keystore: String,
    /// The tracked tokens.
    pub tokens: TokenList,
    /// The beneficiary address book.
    pub beneficiaries: Beneficiaries,
}

/// An [`Account`] as plain values.
pub struct AccountView {
    pub name: Seq<char>,
    pub keystore: Seq<char>,
    pub tokens: Seq<TokenView>,
    pub beneficiaries: Map<Seq<char>, Address>,
}

impl Account {
    /// The account as plain values.
    pub open spec fn view(&self) -> AccountView {
        AccountView {
            name: self.name@,
            keystore: self.keystore@,
            tokens: self.tokens.entries(),
            beneficiaries: self.beneficiaries@,
        }
    }

    /// The sub-stores of the account are well formed.
    pub open spec fn wf(&self) -> bool {
        self.tokens.wf() && self.beneficiaries.wf()
    }
}

/// How the outcome of the codec reads as the outcome of an unlock.
pub open spec fn auth_result(opened: Result<Seq<char>, DecryptError>) -> Result<
    Seq<char>,
    AuthError,
> {
    match opened {
        Ok(secret) => Ok(secret),
        Err(DecryptError::WrongPassword) => Err(AuthError::WrongPassword),
        Err(DecryptError::Corrupt) => Err(AuthError::Corrupt),
    }
}

/// What authenticating against `document` with `password` gives. The
/// password is trimmed, as it is when an account is created.
pub open spec fn authentication(document: Seq<char>, password: Seq<char>) -> Result<
    Seq<char>,
    AuthError,
> {
    auth_result(secret_text(document, trimmed(password)))
}

/// The first reason to refuse the creation of an account, if there is one:
/// the name, then the secret, then the password.
pub open spec fn creation_check(name: Seq<char>, secret: Seq<char>, password: Seq<char>) -> Option<
    ValidationError,
> {
    if !is_name_text(name) {
        Some(ValidationError::NameTooShort)
    } else if secret_kind(secret) is None {
        Some(ValidationError::InvalidSecret)
    } else if !is_password_text(password) {
        Some(ValidationError::PasswordTooShort)
    } else {
        None
    }
}

/// Authenticates against a keystore document: the secret text, or why
/// not.
pub fn authenticate_account(document: &str, password: &str) -> (r: Result<String, AuthError>)
    ensures
        match r {
            Ok(secret) => authentication(document@, password@) matches Ok(s) && s == secret@,
            Err(e) => authentication(document@, password@) matches Err(cause) && cause == e,
        },
{
    match deserialize_keystore(document, trim(password)) {
        Ok(secret) => Ok(secret),
        Err(DecryptError::WrongPassword) => Err(AuthError::WrongPassword),
        Err(DecryptError::Corrupt) => Err(AuthError::Corrupt),
    }
}

/// The accounts that are persisted. No name occurs twice; the accounts
/// keep the order in which their names first came in.
pub struct AccountStore {
    accounts: Vec<Account>,
}

impl AccountStore {
    /// The accounts, in order.
    pub closed spec fn entries(&self) -> Seq<AccountView> {
        Seq::new(self.accounts@.len(), |i: int| self.accounts@[i]@)
    }

    /// The sub-stores of every account are well formed.
    pub closed spec fn parts_wf(&self) -> bool {
        forall|i: int| 0 <= i < self.accounts@.len() ==> (#[trigger] self.accounts@[i]).wf()
    }

    /// The names of the accounts, in order.
    pub open spec fn names(&self) -> Seq<Seq<char>> {
        Seq::new(self.entries().len(), |i: int| self.entries()[i].name)
    }

    /// No name occurs twice, and every account is well formed.
    pub open spec fn wf(&self) -> bool {
        self.names().no_duplicates() && self.parts_wf()
    }

    /// Whether there is an account named `name`.
    pub open spec fn contains(&self, name: Seq<char>) -> bool {
        self.names().contains(name)
    }

    /// The account named `name`.
    pub open spec fn account(&self, name: Seq<char>) -> AccountView {
        self.entries()[self.names().index_of(name)]
    }

    /// What unlocking the account `name` with `password` gives: `NotFound`
    /// when there is no such account, else what authenticating against its
    /// keystore gives.
    pub open spec fn unlock_outcome(&self, name: Seq<char>, password: Seq<char>) -> Result<
        Seq<char>,
        AuthError,
    > {
        if self.contains(name) {
            authentication(self.account(name).keystore, password)
        } else {
            Err(AuthError::NotFound)
        }
    }

    /// Unlocking `name` with `password` gives `secret`.
    pub open spec fn unlocks_to(
        &self,
        name: Seq<char>,
        password: Seq<char>,
        secret: Seq<char>,
    ) -> bool {
        self.unlock_outcome(name, password) matches Ok(s) && s == secret
    }

    /// Unlocking `name` with `password` fails with `error`.
    pub open spec fn unlock_fails(
        &self,
        name: Seq<char>,
        password: Seq<char>,
        error: AuthError,
    ) -> bool {
        self.unlock_outcome(name, password) matches Err(e) && e == error
    }

    /// The account `name` is as in `before` but for its beneficiaries.
    pub open spec fn same_but_beneficiaries(&self, before: &AccountStore, name: Seq<char>) -> bool {
        &&& self.account(name).name == before.account(name).name
        &&& self.account(name).keystore == before.account(name).keystore
        &&& self.account(name).tokens == before.account(name).tokens
    }

    /// The account `name` is as in `before` but for its tokens.
    pub open spec fn same_but_tokens(&self, before: &AccountStore, name: Seq<char>) -> bool {
        &&& self.account(name).name == before.account(name).name
        &&& self.account(name).keystore == before.account(name).keystore
        &&& self.account(name).beneficiaries == before.account(name).beneficiaries
    }

    /// Every account but `name` is there as before, unchanged.
    pub open spec fn same_but(&self, before: &AccountStore, name: Seq<char>) -> bool {
        &&& forall|other: Seq<char>|
            other != name ==> self.contains(other) == before.contains(other)
        &&& forall|other: Seq<char>|
            other != name && before.contains(other) ==> self.account(other) == before.account(
                other,
            )
    }

    /// The account `name` has the tokens and the beneficiaries that it had
    /// in `before` at the place where it stood, or, where it is new, has
    /// none and stands at the end.
    pub open spec fn kept_or_fresh(&self, before: &AccountStore, name: Seq<char>) -> bool {
        if before.contains(name) {
            &&& self.account(name).tokens == before.account(name).tokens
            &&& self.account(name).beneficiaries == before.account(name).beneficiaries
            &&& self.names() == before.names()
        } else {
            &&& self.account(name).tokens.len() == 0
            &&& self.account(name).beneficiaries == Map::<Seq<char>, Address>::empty()
            &&& self.names() == before.names().push(name)
        }
    }

    /// The account `name` has a keystore that holds `secret` under
    /// `password`; its tokens and beneficiaries are as in `before`, or
    /// empty where the account is new; every other account is unchanged.
    pub open spec fn renewed(
        &self,
        before: &AccountStore,
        name: Seq<char>,
        password: Seq<char>,
        secret: Seq<char>,
    ) -> bool {
        &&& self.contains(name)
        &&& holds_secret(self.account(name).keystore, password, secret)
        &&& self.kept_or_fresh(before, name)
        &&& self.same_but(before, name)
    }

    /// An empty store.
    pub fn new() -> (r: AccountStore)
        ensures
            r.wf(),
            r.entries().len() == 0,
    {
        AccountStore { accounts: Vec::new() }
    }

    /// Number of accounts.
    pub fn len(&self) -> (r: usize)
        ensures
            r == self.entries().len(),
    {
        self.accounts.len()
    }

    /// Where the account `name` stands, if there is one.
    pub fn position(&self, name: &str) -> (r: Option<usize>)
        requires
            self.wf(),
        ensures
            match r {
                Some(i) => self.contains(name@) && i < self.entries().len() && i
                    == self.names().index_of(name@) && self.entries()[i as int].name == name@,
                None => !self.contains(name@),
            },
    {
        let key: String = String::from_str(name);
        let n: usize = self.accounts.len();
        let mut i: usize = 0;
        while i < n
            invariant
                i <= n,
                n == self.accounts@.len(),
                key@ == name@,
                self.names().no_duplicates(),
                forall|j: int| 0 <= j < i ==> self.names()[j] != name@,
            decreases n - i,
        {
            if self.accounts[i].name == key {
                proof {
                    assert(self.names()[i as int] == name@);
                    lemma_index_of_unique(self.names(), i as int);
                }
                return Some(i);
            }
            i = i + 1;
        }
        None
    }

    /// The account `name`, if there is one.
    pub fn get(&self, name: &str) -> (r: Option<&Account>)
        requires
            self.wf(),
        ensures
            match r {
                Some(account) => self.contains(name@) && account@ == self.account(name@)
                    && account.wf(),
                None => !self.contains(name@),
            },
    {
        match self.position(name) {
            Some(i) => Some(&self.accounts[i]),
            None => None,
        }
    }

    /// The names of the accounts, in order.
    pub fn account_names(&self) -> (r: Vec<String>)
        ensures
            r@.len() == self.names().len(),
            forall|i: int| 0 <= i < r@.len() ==> r@[i]@ == self.names()[i],
    {
        let n: usize = self.accounts.len();
        let mut out: Vec<String> = Vec::new();
        let mut i: usize = 0;
        while i < n
            invariant
                i <= n,
                n == self.accounts@.len(),
                out@.len() == i,
                forall|j: int| 0 <= j < i ==> out@[j]@ == self.accounts@[j].name@,
            decreases n - i,
        {
            out.push(self.accounts[i].name.clone());
            i = i + 1;
        }
        out
    }

    /// Appends an account whose name is not yet there.
    fn append(&mut self, account: Account)
        requires
            old(self).wf(),
            account.wf(),
            !old(self).contains(account@.name),
        ensures
            final(self).wf(),
            final(self).entries() == old(self).entries().push(account@),
            final(self).names() == old(self).names().push(account@.name),
            final(self).same_but(old(self), account@.name),
            final(self).contains(account@.name),
            final(self).account(account@.name) == account@,
    {
        let ghost before = *self;
        let ghost view = account@;
        self.accounts.push(account);
        proof {
            assert(self.entries() =~= before.entries().push(view));
            assert(self.names() =~= before.names().push(view.name));
            lemma_push_new(before.names(), view.name);
            assert forall|other: Seq<char>|
                other != view.name && before.contains(other) implies self.account(other)
                == before.account(other) by {
                lemma_index_of_contained(before.names(), other);
            }
            assert forall|i: int| 0 <= i < self.accounts@.len() implies (
            #[trigger] self.accounts@[i]).wf() by {
                if i < before.accounts@.len() {
                    assert(before.accounts@[i].wf());
                }
            }
        }
    }

    /// Takes the account at `index` out of the store.
    fn take_at(&mut self, index: usize) -> (r: Account)
        requires
            old(self).wf(),
            index < old(self).entries().len(),
        ensures
            final(self).wf(),
            r.wf(),
            r@ == old(self).entries()[index as int],
            final(self).entries() == old(self).entries().remove(index as int),
            final(self).names() == old(self).names().remove(index as int),
            !final(self).contains(r@.name),
            final(self).same_but(old(self), r@.name),
    {
        let ghost before = *self;
        let account: Account = self.accounts.remove(index);
        proof {
            assert(before.accounts@[index as int].wf());
            assert(self.entries() =~= before.entries().remove(index as int));
            assert(self.names() =~= before.names().remove(index as int));
            lemma_remove_at(before.names(), index as int);
            assert forall|other: Seq<char>|
                other != account@.name && before.contains(other) implies self.account(other)
                == before.account(other) by {
                lemma_index_of_contained(before.names(), other);
            }
            assert forall|i: int| 0 <= i < self.accounts@.len() implies (
            #[trigger] self.accounts@[i]).wf() by {
                if i < index {
                    assert(before.accounts@[i].wf());
                } else {
                    assert(before.accounts@[i + 1].wf());
                }
            }
        }
        account
    }

    /// Puts an account whose name is not there at `index`.
    fn insert_at(&mut self, index: usize, account: Account)
        requires
            old(self).wf(),
            index <= old(self).entries().len(),
            account.wf(),
            !old(self).contains(account@.name),
        ensures
            final(self).wf(),
            final(self).entries() == old(self).entries().insert(index as int, account@),
            final(self).names() == old(self).names().insert(index as int, account@.name),
            final(self).same_but(old(self), account@.name),
            final(self).contains(account@.name),
            final(self).account(account@.name) == account@,
    {
        let ghost before = *self;
        let ghost added = account;
        self.accounts.insert(index, account);
        proof {
            assert(self.accounts@ =~= before.accounts@.insert(index as int, added));
            assert(self.entries() =~= before.entries().insert(index as int, added@));
            assert(self.names() =~= before.names().insert(index as int, added@.name));
            lemma_insert_new(before.names(), index as int, added@.name);
            assert forall|other: Seq<char>|
                other != added@.name && before.contains(other) implies self.account(other)
                == before.account(other) by {
                lemma_index_of_contained(before.names(), other);
            }
            assert forall|k: int| 0 <= k < self.accounts@.len() implies (
            #[trigger] self.accounts@[k]).wf() by {
                if k < index {
                    assert(before.accounts@[k].wf());
                } else if k > index {
                    assert(before.accounts@[k - 1].wf());
                }
            }
        }
    }

    /// Puts the keystore document `document` under the account `name`.
    /// An account of that name keeps its tokens and its beneficiaries and
    /// gets the new keystore; a new account starts without tokens and
    /// without beneficiaries.
    pub fn put_keystore(&mut self, name: &str, document: String)
        requires
            old(self).wf(),
        ensures
            final(self).wf(),
            final(self).contains(name@),
            final(self).account(name@).keystore == document@,
            final(self).account(name@).name == name@,
            final(self).same_but(old(self), name@),
            old(self).contains(name@) ==> final(self).account(name@).tokens == old(self).account(
                name@,
            ).tokens && final(self).account(name@).beneficiaries == old(self).account(
                name@,
            ).beneficiaries && final(self).names() == old(self).names(),
            !old(self).contains(name@) ==> final(self).account(name@).tokens.len() == 0
                && final(self).account(name@).beneficiaries == Map::<Seq<char>, Address>::empty()
                && final(self).names() == old(self).names().push(name@),
    {
        match self.position(name) {
            Some(i) => {
                let ghost before = *self;
                let mut account: Account = self.take_at(i);
                account.keystore = document;
                self.insert_at(i, account);
                proof {
                    assert(self.names() =~= before.names());
                }
            },
            None => {
                let account = Account {
                    name: String::from_str(name),
                    keystore: document,
                    tokens: TokenList::new(),
                    beneficiaries: Beneficiaries::new(),
                };
                self.append(account);
            },
        }
    }

    /// Tracks `token` for the account `name`; says whether there is such
    /// an account. A token with the same contract address is replaced.
    pub fn add_token(&mut self, name: &str, token: Token) -> (r: bool)
        requires
            old(self).wf(),
        ensures
            final(self).wf(),
            r == old(self).contains(name@),
            final(self).same_but(old(self), name@),
            final(self).names() == old(self).names(),
            r ==> final(self).same_but_tokens(old(self), name@),
            r ==> final(self).account(name@).tokens == tokens_with(
                old(self).account(name@).tokens,
                token@,
            ),
            !r ==> final(self).entries() == old(self).entries(),
    {
        match self.position(name) {
            Some(i) => {
                let ghost before = *self;
                let ghost view = token@;
                let mut account: Account = self.take_at(i);
                account.tokens.add_token(token);
                self.insert_at(i, account);
                proof {
                    assert(self.names() =~= before.names());
                }
                true
            },
            None => false,
        }
    }

    /// Puts `address` under the beneficiary name `beneficiary` in the
    /// address book of the account `name`, as
    /// [`Beneficiaries::add`] does; nothing when there is no such account.
    /// For an account that is there the outcome is [`beneficiary_check`]:
    /// the address is stored exactly where name and address pass.
    pub fn add_beneficiary(&mut self, name: &str, beneficiary: &str, address: &str) -> (r: Option<
        Result<(), ValidationError>,
    >)
        requires
            old(self).wf(),
        ensures
            final(self).wf(),
            r is Some == old(self).contains(name@),
            final(self).same_but(old(self), name@),
            final(self).names() == old(self).names(),
            r is Some ==> final(self).same_but_beneficiaries(old(self), name@),
            r matches Some(outcome) ==> outcome == beneficiary_check(beneficiary@, address@),
            r matches Some(Ok(_)) ==> final(self).account(name@).beneficiaries == old(self).account(
                name@,
            ).beneficiaries.insert(trimmed(beneficiary@), address_of_text(trimmed(address@))),
            r matches Some(Err(_)) ==> final(self).account(name@) == old(self).account(name@),
            r is None ==> final(self).entries() == old(self).entries(),
    {
        match self.position(name) {
            Some(i) => {
                let ghost before = *self;
                let mut account: Account = self.take_at(i);
                let outcome = account.beneficiaries.add(beneficiary, address);
                self.insert_at(i, account);
                proof {
                    assert(self.names() =~= before.names());
                    match outcome {
                        Ok(done) => {
                            assert(done == ());
                        },
                        Err(_) => {},
                    }
                }
                Some(outcome)
            },
            None => None,
        }
    }

    /// Takes the beneficiary name `beneficiary` out of the address book of
    /// the account `name`; says whether it was there, or nothing when there
    /// is no such account.
    pub fn remove_beneficiary(&mut self, name: &str, beneficiary: &str) -> (r: Option<bool>)
        requires
            old(self).wf(),
        ensures
            final(self).wf(),
            r is Some == old(self).contains(name@),
            final(self).same_but(old(self), name@),
            final(self).names() == old(self).names(),
            r is Some ==> final(self).same_but_beneficiaries(old(self), name@),
            r matches Some(was_there) ==> was_there == old(self).account(
                name@,
            ).beneficiaries.contains_key(beneficiary@),
            r is Some ==> final(self).account(name@).beneficiaries == old(self).account(
                name@,
            ).beneficiaries.remove(beneficiary@),
            r is None ==> final(self).entries() == old(self).entries(),
    {
        match self.position(name) {
            Some(i) => {
                let ghost before = *self;
                let mut account: Account = self.take_at(i);
                let was_there: bool = account.beneficiaries.remove(beneficiary);
                self.insert_at(i, account);
                proof {
                    assert(self.names() =~= before.names());
                }
                Some(was_there)
            },
            None => None,
        }
    }

    /// Creates the account `name` for `secret` under `password`. The name
    /// must have at least three characters, the secret must be a private
    /// key or a seed phrase by its shape, and the password must have at
    /// least six characters; all three are trimmed. An account of the same
    /// name is overwritten: it gets the new keystore. What was created
    /// unlocks under the same password to the same secret. The account is
    /// created exactly where all three pass; the first that does not names
    /// the error, and the store stays as it was.
    pub fn create(&mut self, name: &str, secret: &str, password: &str) -> (r: Result<
        (),
        CreateError,
    >)
        requires
            old(self).wf(),
        ensures
            final(self).wf(),
            r is Ok <==> creation_check(name@, secret@, password@) is None,
            match r {
                Ok(()) => {
                    &&& final(self).renewed(
                        old(self),
                        trimmed(name@),
                        trimmed(password@),
                        trimmed(secret@),
                    )
                    &&& final(self).unlocks_to(trimmed(name@), password@, trimmed(secret@))
                },
                Err(e) => {
                    &&& creation_check(name@, secret@, password@) matches Some(cause)
                    &&& e == CreateError::Invalid(cause)
                    &&& final(self).entries() == old(self).entries()
                },
            },
    {
        if !is_valid_name(name) {
            return Err(CreateError::Invalid(ValidationError::NameTooShort));
        }
        if !validate_secret_input(secret) {
            return Err(CreateError::Invalid(ValidationError::InvalidSecret));
        }
        if !is_valid_password(password) {
            return Err(CreateError::Invalid(ValidationError::PasswordTooShort));
        }
        let account_name: &str = trim(name);
        match seal_secret(trim(secret), trim(password), account_name) {
            Ok(document) => {
                self.put_keystore(account_name, document);
                Ok(())
            },
            Err(e) => Err(CreateError::Encrypt(e)),
        }
    }

    /// Unlocks the account `name`: its secret text, `WrongPassword` to ask
    /// again, `Corrupt` when the keystore is unreadable, `NotFound` when
    /// there is no such account.
    pub fn unlock(&self, name: &str, password: &str) -> (r: Result<String, AuthError>)
        requires
            self.wf(),
        ensures
            match r {
                Ok(secret) => self.unlocks_to(name@, password@, secret@),
                Err(e) => self.unlock_fails(name@, password@, e),
            },
    {
        match self.position(name) {
            Some(i) => authenticate_account(self.accounts[i].keystore.as_str(), password),
            None => Err(AuthError::NotFound),
        }
    }

    /// Changes the password of the account `name`: the old password must
    /// unlock it, the new one must have at least six characters, and the
    /// keystore is replaced by one that holds the same secret under the
    /// new password. Tokens and beneficiaries stay. The password is changed
    /// exactly where both hold; every failure leaves the store as it was.
    pub fn change_password(&mut self, name: &str, old_password: &str, new_password: &str) -> (r:
        Result<(), ChangePasswordError>)
        requires
            old(self).wf(),
        ensures
            final(self).wf(),
            r is Ok <==> old(self).unlock_outcome(name@, old_password@) is Ok && is_password_text(
                new_password@,
            ),
            match r {
                Ok(()) => {
                    &&& old(self).unlock_outcome(name@, old_password@) matches Ok(secret)
                    &&& final(self).renewed(old(self), name@, trimmed(new_password@), secret)
                    &&& final(self).unlocks_to(name@, new_password@, secret)
                },
                Err(ChangePasswordError::Auth(e)) => {
                    &&& old(self).unlock_fails(name@, old_password@, e)
                    &&& final(self).entries() == old(self).entries()
                },
                Err(ChangePasswordError::Invalid(e)) => {
                    &&& old(self).unlock_outcome(name@, old_password@) is Ok
                    &&& !is_password_text(new_password@)
                    &&& e == ValidationError::PasswordTooShort
                    &&& final(self).entries() == old(self).entries()
                },
                Err(ChangePasswordError::Encrypt(_)) => false,
            },
    {
        let secret: String = match self.unlock(name, old_password) {
            Ok(secret) => secret,
            Err(e) => {
                return Err(ChangePasswordError::Auth(e));
            },
        };
        if !is_valid_password(new_password) {
            return Err(ChangePasswordError::Invalid(ValidationError::PasswordTooShort));
        }
        match seal_secret(secret.as_str(), trim(new_password), name) {
            Ok(document) => {
                self.put_keystore(name, document);
                Ok(())
            },
            Err(e) => Err(ChangePasswordError::Encrypt(e)),
        }
    }

    /// Deletes the account `name` with everything that is persisted for
    /// it, after `password` has unlocked it once more.
    pub fn delete(&mut self, name: &str, password: &str) -> (r: Result<(), AuthError>)
        requires
            old(self).wf(),
        ensures
            final(self).wf(),
            match r {
                Ok(()) => {
                    &&& old(self).unlock_outcome(name@, password@) is Ok
                    &&& !final(self).contains(name@)
                    &&& forall|again: Seq<char>| #[trigger]
                        final(self).unlock_fails(name@, again, AuthError::NotFound)
                    &&& final(self).same_but(old(self), name@)
                    &&& final(self).names() == old(self).names().remove(
                        old(self).names().index_of(name@),
                    )
                },
                Err(e) => {
                    &&& old(self).unlock_fails(name@, password@, e)
                    &&& final(self).entries() == old(self).entries()
                },
            },
    {
        match self.unlock(name, password) {
            Ok(_) => {
                match self.position(name) {
                    Some(i) => {
                        let _ = self.take_at(i);
                    },
                    None => {},
                }
                Ok(())
            },
            Err(e) => Err(e),
        }
    }
}

/// The plaintext secret of the unlocked account, if there is one.
pub fn get_account_key(session: &Session) -> (r: Option<String>)
    ensures
        r == session.account_key,
{
    clone_text(&session.account_key)
}

/// Replaces the plaintext secret that the session holds.
pub fn set_account_key(session: &mut Session, key: Option<String>)
    ensures
        final(session).account_key == key,
        final(session).account_name == old(session).account_name,
        final(session).wallet == old(session).wallet,
        final(session).selected_chain == old(session).selected_chain,
{
    session.account_key = key;
}

/// The name of the unlocked account, if there is one.
pub fn get_account_name(session: &Session) -> (r: Option<String>)
    ensures
        r == session.account_name,
{
    clone_text(&session.account_name)
}

/// Replaces the account name that the session holds.
pub fn set_account_name(session: &mut Session, name: Option<String>)
    ensures
        final(session).account_name == name,
        final(session).account_key == old(session).account_key,
        final(session).wallet == old(session).wallet,
        final(session).selected_chain == old(session).selected_chain,
{
    session.account_name = name;
}

/// What a selection from the list of accounts asks for.
#[derive(Clone, Copy, Debug, PartialEq, Eq, Structural)]
pub enum AccountChoice {
    /// Create an account with a fresh seed phrase.
    CreateNew,
    /// Import a private key or a seed phrase.
    ImportWallet,
    /// Unlock the account that the entry at `index` names.
    Existing { index: usize },
    /// Nothing was selected.
    Nothing,
}

/// What the dashboard of an unlocked account can ask for.
#[derive(Clone, Copy, Debug, PartialEq, Eq, Structural)]
pub enum DashboardAction {
    SendNative,
    ChangeNetwork,
    DisplayBalance,
    AddToken,
    SelectToken,
    Beneficiaries,
    ChangePassword,
    CheckGasPrices,
    DeleteAccount,
    Nothing,
}

/// What a selection from the list of accounts means: the two closing
/// entries create and import, every other entry names an account.
pub open spec fn account_choice(menu: Seq<Seq<char>>, selection: Option<usize>) -> AccountChoice {
    match selection {
        Some(i) => if i >= menu.len() {
            AccountChoice::Nothing
        } else if trimmed(menu[i as int]) == "Create new"@ {
            AccountChoice::CreateNew
        } else if trimmed(menu[i as int]) == "Import wallet"@ {
            AccountChoice::ImportWallet
        } else {
            AccountChoice::Existing { index: i }
        },
        None => AccountChoice::Nothing,
    }
}

/// What an index of the dashboard list means.
pub open spec fn dashboard_action(selection: usize) -> DashboardAction {
    if selection == 0 {
        DashboardAction::SendNative
    } else if selection == 1 {
        DashboardAction::ChangeNetwork
    } else if selection == 2 {
        DashboardAction::DisplayBalance
    } else if selection == 3 {
        DashboardAction::AddToken
    } else if selection == 4 {
        DashboardAction::SelectToken
    } else if selection == 5 {
        DashboardAction::Beneficiaries
    } else if selection == 6 {
        DashboardAction::ChangePassword
    } else if selection == 7 {
        DashboardAction::CheckGasPrices
    } else if selection == 8 {
        DashboardAction::DeleteAccount
    } else {
        DashboardAction::Nothing
    }
}

/// The list of accounts to choose from: the names of the accounts, then
/// `Create new` and `Import wallet`.
pub fn account_menu(store: &AccountStore) -> (r: Vec<String>)
    ensures
        r@.len() == store.names().len() + 2,
        forall|i: int| 0 <= i < store.names().len() ==> r@[i]@ == store.names()[i],
        r@[store.names().len() as int]@ == "Create new"@,
        r@[store.names().len() as int + 1]@ == "Import wallet"@,
{
    let mut menu: Vec<String> = store.account_names();
    menu.push(String::from_str("Create new"));
    menu.push(String::from_str("Import wallet"));
    menu
}

/// What a selection from the list of accounts asks for.
pub fn launch_app(menu: &Vec<String>, selection: Option<usize>) -> (r: AccountChoice)
    ensures
        r == account_choice(Seq::new(menu@.len(), |i: int| menu@[i]@), selection),
{
    match selection {
        Some(i) => {
            if i >= menu.len() {
                AccountChoice::Nothing
            } else {
                let entry: &str = trim(menu[i].as_str());
                if same_text(entry, "Create new") {
                    AccountChoice::CreateNew
                } else if same_text(entry, "Import wallet") {
                    AccountChoice::ImportWallet
                } else {
                    AccountChoice::Existing { index: i }
                }
            }
        },
        None => AccountChoice::Nothing,
    }
}

/// The entries of the dashboard.
pub fn dashboard_options() -> (r: Vec<String>)
    ensures
        r@.len() == 9,
        r@[0]@ == "Send native token"@,
        r@[1]@ == "Change network"@,
        r@[2]@ == "Display balance"@,
        r@[3]@ == "Add token"@,
        r@[4]@ == "Select token"@,
        r@[5]@ == "Beneficiary management"@,
        r@[6]@ == "Change password"@,
        r@[7]@ == "Check gas prices"@,
        r@[8]@ == "Delete account (danger)"@,
{
    let mut items: Vec<String> = Vec::new();
    items.push(String::from_str("Send native token"));
    items.push(String::from_str("Change network"));
    items.push(String::from_str("Display balance"));
    items.push(String::from_str("Add token"));
    items.push(String::from_str("Select token"));
    items.push(String::from_str("Beneficiary management"));
    items.push(String::from_str("Change password"));
    items.push(String::from_str("Check gas prices"));
    items.push(String::from_str("Delete account (danger)"));
    items
}

/// What a selection from the dashboard asks for, and whether the
/// dashboard is left after it: only deleting the account leaves it.
pub fn launch_authenticated_dashboard(selection: usize) -> (r: (DashboardAction, bool))
    ensures
        r.0 == dashboard_action(selection),
        r.1 == (r.0 == DashboardAction::DeleteAccount),
{
    if selection == 0 {
        (DashboardAction::SendNative, false)
    } else if selection == 1 {
        (DashboardAction::ChangeNetwork, false)
    } else if selection == 2 {
        (DashboardAction::DisplayBalance, false)
    } else if selection == 3 {
        (DashboardAction::AddToken, false)
    } else if selection == 4 {
        (DashboardAction::SelectToken, false)
    } else if selection == 5 {
        (DashboardAction::Beneficiaries, false)
    } else if selection == 6 {
        (DashboardAction::ChangePassword, false)
    } else if selection == 7 {
        (DashboardAction::CheckGasPrices, false)
    } else if selection == 8 {
        (DashboardAction::DeleteAccount, true)
    } else {
        (DashboardAction::Nothing, false)
    }
}

/// Unlocks the account `acc_name` and makes it the account of the
/// session: the session then holds its secret, its name and its identity on
/// the active chain. Where this fails, the session stays exactly as it
/// was; after `WrongPassword` the caller asks again.
pub fn select_account(
    session: &mut Session,
    store: &AccountStore,
    acc_name: &str,
    password: &str,
) -> (r: Result<(), LoginError>)
    requires
        store.wf(),
    ensures
        match r {
            Ok(()) => {
                &&& final(session).account_key matches Some(key)
                &&& store.unlocks_to(acc_name@, password@, key@)
                &&& final(session).holds_account(acc_name@)
                &&& final(session).is_unlocked()
                &&& final(session).selected_chain == old(session).selected_chain
            },
            Err(LoginError::Auth(e)) => {
                &&& store.unlock_fails(acc_name@, password@, e)
                &&& *final(session) == *old(session)
            },
            Err(LoginError::Identity(e)) => {
                &&& store.unlock_outcome(acc_name@, password@) matches Ok(secret)
                &&& identity_of(secret, old(session).selected_chain) matches Err(cause)
                &&& cause == e
                &&& *final(session) == *old(session)
            },
        },
{
    let secret: String = match store.unlock(acc_name, password) {
        Ok(secret) => secret,
        Err(e) => {
            return Err(LoginError::Auth(e));
        },
    };
    match SigningIdentity::build(secret.as_str(), session.selected_chain) {
        Ok(identity) => {
            session.account_key = Some(secret);
            session.account_name = Some(String::from_str(acc_name));
            session.wallet = Some(identity);
            Ok(())
        },
        Err(e) => Err(LoginError::Identity(e)),
    }
}

/// Locks the session: secret, name and identity are dropped.
pub fn logout(session: &mut Session)
    ensures
        final(session).is_locked(),
        final(session).selected_chain == old(session).selected_chain,
{
    session.clear();
}

/// Creates an account and returns its secret and its name. Without a
/// secret a fresh seed phrase is drawn; the caller shows it to the user.
/// The name, a given secret and the password are checked in this order,
/// and the first that is turned down names the error; where all pass, the
/// account is created. Every failure leaves the store as it was.
pub fn create_new_acc(
    store: &mut AccountStore,
    secret: Option<&str>,
    password: &str,
    account_name: &str,
) -> (r: Result<(String, String), CreateError>)
    requires
        old(store).wf(),
    ensures
        final(store).wf(),
        r is Ok <==> new_account_check(account_name@, given_secret(secret), password@) is None,
        match r {
            Ok((key, name)) => {
                &&& name@ == trimmed(account_name@)
                &&& secret_kind(key@) is Some
                &&& secret matches Some(given) ==> key@ == trimmed(given@)
                &&& secret is None ==> secret_kind(key@) == Some(SecretKind::Mnemonic)
                &&& final(store).renewed(old(store), name@, trimmed(password@), key@)
                &&& final(store).unlocks_to(name@, password@, key@)
            },
            Err(e) => {
                &&& new_account_check(account_name@, given_secret(secret), password@) matches Some(
                    cause,
                )
                &&& e == CreateError::Invalid(cause)
                &&& final(store).entries() == old(store).entries()
            },
        },
{
    let account_key: String = match secret {
        Some(given) => String::from_str(trim(given)),
        None => generate_seed_phrase(),
    };
    proof {
        lemma_trimmed_twice(account_key@);
        lemma_secret_kind_of_trimmed(account_key@);
        if secret is Some {
            lemma_trimmed_twice(secret->0@);
            lemma_secret_kind_of_trimmed(secret->0@);
        }
    }
    match store.create(account_name, account_key.as_str(), password) {
        Ok(()) => {
            let stored: String = String::from_str(trim(account_key.as_str()));
            Ok((stored, String::from_str(trim(account_name))))
        },
        Err(e) => Err(e),
    }
}

/// A secret that was given, as a sequence of characters.
pub open spec fn given_secret(secret: Option<&str>) -> Option<Seq<char>> {
    match secret {
        Some(given) => Some(given@),
        None => None,
    }
}

/// The first reason to refuse a new account, if there is one. A given
/// secret is checked like the one of [`creation_check`]; a seed phrase that
/// is drawn for the account needs no check.
pub open spec fn new_account_check(
    name: Seq<char>,
    secret: Option<Seq<char>>,
    password: Seq<char>,
) -> Option<ValidationError> {
    match secret {
        Some(given) => creation_check(name, given, password),
        None => if !is_name_text(name) {
            Some(ValidationError::NameTooShort)
        } else if !is_password_text(password) {
            Some(ValidationError::PasswordTooShort)
        } else {
            None
        },
    }
}

/// Deletes the account `acc_name` after `password` has unlocked it once
/// more. Everything that is persisted for the account goes, a session that
/// has this account unlocked is locked, and from then on unlocking the name
/// answers `NotFound` whatever the password.
pub fn delete_account(
    session: &mut Session,
    store: &mut AccountStore,
    acc_name: &str,
    password: &str,
) -> (r: Result<(), AuthError>)
    requires
        old(store).wf(),
    ensures
        final(store).wf(),
        final(session).selected_chain == old(session).selected_chain,
        match r {
            Ok(()) => {
                &&& old(store).unlock_outcome(acc_name@, password@) is Ok
                &&& !final(store).contains(acc_name@)
                &&& forall|again: Seq<char>| #[trigger]
                    final(store).unlock_fails(acc_name@, again, AuthError::NotFound)
                &&& final(store).same_but(old(store), acc_name@)
                &&& old(session).holds_account(acc_name@) ==> final(session).is_locked()
                &&& !old(session).holds_account(acc_name@) ==> *final(session) == *old(session)
            },
            Err(e) => {
                &&& old(store).unlock_fails(acc_name@, password@, e)
                &&& final(store).entries() == old(store).entries()
                &&& *final(session) == *old(session)
            },
        },
{
    match store.delete(acc_name, password) {
        Ok(()) => {
            let held: bool = match &session.account_name {
                Some(name) => same_text(name.as_str(), acc_name),
                None => false,
            };
            if held {
                session.clear();
            }
            Ok(())
        },
        Err(e) => Err(e),
    }
}

/// An account that is not in the store does not unlock, whatever the
/// password: the answer is `NotFound`, not `WrongPassword`.
pub proof fn lemma_missing_account_is_not_found(
    store: &AccountStore,
    name: Seq<char>,
    password: Seq<char>,
)
    requires
        !store.contains(name),
    ensures
        store.unlock_outcome(name, password) == Err::<Seq<char>, AuthError>(AuthError::NotFound),
{
}

/// What was created under a password unlocks under that password to the
/// secret that was given: if the keystore of the account `name` holds
/// `secret` under the trimmed password, unlocking `name` gives `secret`.
pub proof fn lemma_unlock_after_create(
    store: &AccountStore,
    name: Seq<char>,
    password: Seq<char>,
    secret: Seq<char>,
)
    requires
        store.contains(name),
        holds_secret(store.account(name).keystore, trimmed(password), secret),
    ensures
        store.unlock_outcome(name, password) == Ok::<Seq<char>, AuthError>(secret),
{
}

} // verus!
