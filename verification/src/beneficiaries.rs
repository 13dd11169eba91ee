//! The beneficiary address book of an account: names that stand for one
//! address each. Adding a name that is already there replaces its address.

use crate::address::{address_of_text, parse_address, Address};
use crate::lists::{
    lemma_index_of_contained, lemma_index_of_unique, lemma_push_new, lemma_remove_at,
};
use crate::text::{trim, trimmed};
use crate::utils::{is_address_text, is_name_text, is_valid_name, ValidationError};
use vstd::prelude::*;
use vstd::string::StringExecFns;

verus! {

/// What the beneficiary menu can ask for.
#[derive(Clone, Copy, Debug, PartialEq, Eq, Structural)]
pub enum BeneficiaryAction {
    /// Show the address book.
    List,
    /// Add a beneficiary.
    Add,
    /// Delete a beneficiary.
    Delete,
    /// Leave the menu.
    Nothing,
}

/// The address book. No name occurs twice; the entries keep the order in
/// which their names first came in.
pub struct Beneficiaries {
    names: Vec<String>,
    addresses: Vec<Address>,
}

impl Beneficiaries {
    /// The names, in order.
    pub closed spec fn names(&self) -> Seq<Seq<char>> {
        Seq::new(self.names@.len(), |i: int| self.names@[i]@)
    }

    /// The addresses, in the order of the names.
    pub closed spec fn addresses(&self) -> Seq<Address> {
        self.addresses@
    }

    /// Every name has one address, and no name occurs twice.
    pub open spec fn wf(&self) -> bool {
        self.names().len() == self.addresses().len() && self.names().no_duplicates()
    }

    /// The address book as a map from name to address.
    pub open spec fn view(&self) -> Map<Seq<char>, Address> {
        Map::new(
            |name: Seq<char>| self.names().contains(name),
            |name: Seq<char>| self.addresses()[self.names().index_of(name)],
        )
    }

    /// An empty address book.
    pub fn new() -> (r: Beneficiaries)
        ensures
            r.wf(),
            r.names().len() == 0,
            r@ == Map::<Seq<char>, Address>::empty(),
    {
        let r = Beneficiaries { names: Vec::new(), addresses: Vec::new() };
        assert(r@ =~= Map::<Seq<char>, Address>::empty());
        r
    }

    /// Number of beneficiaries.
    pub fn len(&self) -> (r: usize)
        requires
            self.wf(),
        ensures
            r == self.names().len(),
    {
        self.names.len()
    }

    /// Where `name` stands, if it is in the address book.
    pub fn position(&self, name: &str) -> (r: Option<usize>)
        requires
            self.wf(),
        ensures
            match r {
                Some(i) => self.names().contains(name@) && i < self.names().len() && i
                    == self.names().index_of(name@) && self.names()[i as int] == name@,
                None => !self.names().contains(name@),
            },
    {
        let key: String = String::from_str(name);
        let n: usize = self.names.len();
        let mut i: usize = 0;
        while i < n
            invariant
                i <= n,
                n == self.names@.len(),
                key@ == name@,
                self.names().no_duplicates(),
                forall|j: int| 0 <= j < i ==> self.names()[j] != name@,
            decreases n - i,
        {
            if self.names[i] == key {
                proof {
                    assert(self.names()[i as int] == name@);
                    lemma_index_of_unique(self.names(), i as int);
                }
                return Some(i);
            }
            i = i + 1;
        }
        None
    }

    /// The address of `name`, if it is in the address book.
    pub fn get(&self, name: &str) -> (r: Option<Address>)
        requires
            self.wf(),
        ensures
            r == if self@.contains_key(name@) {
                Some(self@[name@])
            } else {
                None
            },
    {
        match self.position(name) {
            Some(i) => Some(self.addresses[i]),
            None => None,
        }
    }

    /// Puts `address` under `name`, replacing the address that `name` had.
    pub fn insert(&mut self, name: &str, address: Address)
        requires
            old(self).wf(),
        ensures
            final(self).wf(),
            final(self)@ == old(self)@.insert(name@, address),
            old(self)@.contains_key(name@) ==> final(self).names() == old(self).names(),
            !old(self)@.contains_key(name@) ==> final(self).names() == old(self).names().push(
                name@,
            ),
    {
        let ghost before = *self;
        match self.position(name) {
            Some(i) => {
                self.addresses.set(i, address);
                proof {
                    assert(self.names() =~= before.names());
                    assert(self.addresses() =~= before.addresses().update(i as int, address));
                    assert forall|k: Seq<char>| #[trigger]
                        before.names().contains(k) && k != name@ implies before.names().index_of(
                        k,
                    ) != i by {
                        lemma_index_of_contained(before.names(), k);
                    }
                    assert(self@ =~= before@.insert(name@, address));
                }
            },
            None => {
                self.names.push(String::from_str(name));
                self.addresses.push(address);
                proof {
                    assert(self.names() =~= before.names().push(name@));
                    assert(self.addresses() =~= before.addresses().push(address));
                    lemma_push_new(before.names(), name@);
                    assert forall|k: Seq<char>| #[trigger]
                        before.names().contains(k) implies 0 <= before.names().index_of(k)
                        < before.names().len() by {
                        lemma_index_of_contained(before.names(), k);
                    }
                    assert(self@ =~= before@.insert(name@, address));
                }
            },
        }
    }

    /// Adds a beneficiary from what the user typed: the name, trimmed,
    /// must have at least three characters, and the address, trimmed, must
    /// be `0x` and forty hexadecimal digits. A name that is already there
    /// gets the new address.
    pub fn add(&mut self, name: &str, address: &str) -> (r: Result<(), ValidationError>)
        requires
            old(self).wf(),
        ensures
            final(self).wf(),
            match r {
                Ok(()) => is_name_text(name@) && is_address_text(trimmed(address@)) && final(self)@
                    == old(self)@.insert(trimmed(name@), address_of_text(trimmed(address@))),
                Err(e) => final(self)@ == old(self)@ && final(self).names() == old(self).names()
                    && e == if !is_name_text(name@) {
                    ValidationError::NameTooShort
                } else {
                    ValidationError::InvalidAddress
                } && !(is_name_text(name@) && is_address_text(trimmed(address@))),
            },
    {
        if !is_valid_name(name) {
            return Err(ValidationError::NameTooShort);
        }
        match parse_address(address) {
            Ok(parsed) => {
                self.insert(trim(name), parsed);
                Ok(())
            },
            Err(e) => Err(e),
        }
    }

    /// Takes `name` out of the address book; says whether it was there.
    pub fn remove(&mut self, name: &str) -> (r: bool)
        requires
            old(self).wf(),
        ensures
            final(self).wf(),
            r == old(self)@.contains_key(name@),
            final(self)@ == old(self)@.remove(name@),
            r ==> final(self).names() == old(self).names().remove(
                old(self).names().index_of(name@),
            ),
            !r ==> final(self).names() == old(self).names(),
    {
        let ghost before = *self;
        match self.position(name) {
            Some(i) => {
                self.names.remove(i);
                self.addresses.remove(i);
                proof {
                    assert(self.names() =~= before.names().remove(i as int));
                    assert(self.addresses() =~= before.addresses().remove(i as int));
                    lemma_remove_at(before.names(), i as int);
                    assert forall|k: Seq<char>| #[trigger]
                        before.names().contains(k) implies 0 <= before.names().index_of(k)
                        < before.names().len() by {
                        lemma_index_of_contained(before.names(), k);
                    }
                    assert(self@ =~= before@.remove(name@));
                }
                true
            },
            None => {
                assert(self@ =~= before@.remove(name@));
                false
            },
        }
    }

    /// The names, in order, as the selection list shows them.
    pub fn beneficiary_names(&self) -> (r: Vec<String>)
        requires
            self.wf(),
        ensures
            r@.len() == self.names().len(),
            forall|i: int| 0 <= i < r@.len() ==> r@[i]@ == self.names()[i],
    {
        let n: usize = self.names.len();
        let mut out: Vec<String> = Vec::new();
        let mut i: usize = 0;
        while i < n
            invariant
                i <= n,
                n == self.names@.len(),
                out@.len() == i,
                forall|j: int| 0 <= j < i ==> out@[j]@ == self.names@[j]@,
            decreases n - i,
        {
            out.push(self.names[i].clone());
            i = i + 1;
        }
        out
    }

    /// The address that a selection from the list of
    /// [`Beneficiaries::beneficiary_names`] stands for: none when nothing
    /// was selected or the index is off the list.
    pub fn select_beneficiary(&self, selection: Option<usize>) -> (r: Option<Address>)
        requires
            self.wf(),
        ensures
            r == match selection {
                Some(i) => if i < self.names().len() {
                    Some(self@[self.names()[i as int]])
                } else {
                    None
                },
                None => None,
            },
    {
        match selection {
            Some(i) => {
                if i < self.names.len() {
                    proof {
                        lemma_index_of_unique(self.names(), i as int);
                    }
                    Some(self.addresses[i])
                } else {
                    None
                }
            },
            None => None,
        }
    }

    /// The entry at `index`: its name and its address.
    pub fn entry(&self, index: usize) -> (r: (String, Address))
        requires
            self.wf(),
            index < self.names().len(),
        ensures
            r.0@ == self.names()[index as int],
            r.1 == self@[self.names()[index as int]],
    {
        proof {
            lemma_index_of_unique(self.names(), index as int);
        }
        (self.names[index].clone(), self.addresses[index])
    }
}

/// What adding a beneficiary from typed text comes to: a name of fewer
/// than three characters is turned down first, then an address that is
/// not `0x` and forty hexadecimal digits; both are taken without the
/// whitespace around them.
pub open spec fn beneficiary_check(name: Seq<char>, address: Seq<char>) -> Result<
    (),
    ValidationError,
> {
    if !is_name_text(name) {
        Err(ValidationError::NameTooShort)
    } else if !is_address_text(trimmed(address)) {
        Err(ValidationError::InvalidAddress)
    } else {
        Ok(())
    }
}

/// The entries of the beneficiary menu.
pub fn beneficiary_menu_options() -> (r: Vec<String>)
    ensures
        r@.len() == 3,
        r@[0]@ == "List beneficiaries"@,
        r@[1]@ == "Add beneficiary"@,
        r@[2]@ == "Delete beneficiary"@,
{
    let mut options: Vec<String> = Vec::new();
    options.push(String::from_str("List beneficiaries"));
    options.push(String::from_str("Add beneficiary"));
    options.push(String::from_str("Delete beneficiary"));
    options
}

/// What a selection from the beneficiary menu asks for.
pub fn beneficiary_menu(selection: Option<usize>) -> (r: BeneficiaryAction)
    ensures
        r == match selection {
            Some(0) => BeneficiaryAction::List,
            Some(1) => BeneficiaryAction::Add,
            Some(2) => BeneficiaryAction::Delete,
            _ => BeneficiaryAction::Nothing,
        },
{
    match selection {
        Some(0) => BeneficiaryAction::List,
        Some(1) => BeneficiaryAction::Add,
        Some(2) => BeneficiaryAction::Delete,
        _ => BeneficiaryAction::Nothing,
    }
}

} // verus!
