//! The tokens that an account tracks, and amounts of them.

use crate::address::{address_text, address_to_hex, Address};
use crate::amount::{
    parse_whole_amount, scale_token_amount, scaled, whole_amount_of, AmountError,
};
use crate::utils::{account_path, get_account_path};
use vstd::prelude::*;
use vstd::string::StringExecFns;

verus! {

/// A tracked token.
#[derive(Debug, PartialEq, Eq)]
pub struct Token {
    /// The display name.
    pub name: String,
    /// How many decimal places one whole token has.
    pub decimals: u8,
    /// The token contract.
    pub address: Address,
    /// The chain that the contract lives on.
    pub chain_id: u32,
}

/// A [`Token`] with its name as a sequence of characters.
pub struct TokenView {
    pub name: Seq<char>,
    pub decimals: u8,
    pub address: Address,
    pub chain_id: u32,
}

impl View for Token {
    type V = TokenView;

    open spec fn view(&self) -> TokenView {
        TokenView {
            name: self.name@,
            decimals: self.decimals,
            address: self.address,
            chain_id: self.chain_id,
        }
    }
}

impl Clone for Token {
    fn clone(&self) -> (r: Token)
        ensures
            r@ == self@,
    {
        Token {
            name: self.name.clone(),
            decimals: self.decimals,
            address: self.address,
            chain_id: self.chain_id,
        }
    }
}

/// What the menu of one token can ask for.
#[derive(Clone, Copy, Debug, PartialEq, Eq, Structural)]
pub enum TokenAction {
    /// Show the balance of the token.
    DisplayBalance,
    /// Send some of the token.
    Send,
    /// Leave the menu.
    Back,
    /// Show the menu again.
    Nothing,
}

/// The tokens of `tokens` that live on the chain `chain_id`, in order.
pub open spec fn on_chain(tokens: Seq<TokenView>, chain_id: u32) -> Seq<TokenView>
    decreases tokens.len(),
{
    if tokens.len() == 0 {
        Seq::empty()
    } else if tokens.last().chain_id == chain_id {
        on_chain(tokens.drop_last(), chain_id).push(tokens.last())
    } else {
        on_chain(tokens.drop_last(), chain_id)
    }
}

/// The views of a vector of tokens.
pub open spec fn token_views(tokens: Seq<Token>) -> Seq<TokenView> {
    Seq::new(tokens.len(), |i: int| tokens[i]@)
}

/// Whether one of `tokens` has the contract `address`.
pub open spec fn tracks(tokens: Seq<TokenView>, address: Address) -> bool {
    exists|i: int| 0 <= i < tokens.len() && tokens[i].address == address
}

/// The index of the token with the contract `address`, if there is one.
pub open spec fn token_position(tokens: Seq<TokenView>, address: Address) -> Option<int> {
    if tracks(tokens, address) {
        Some(choose|i: int| 0 <= i < tokens.len() && tokens[i].address == address)
    } else {
        None
    }
}

/// `tokens` with `token` tracked: in the place of the token with the same
/// contract address if there is one, at the end otherwise.
pub open spec fn tokens_with(tokens: Seq<TokenView>, token: TokenView) -> Seq<TokenView> {
    match token_position(tokens, token.address) {
        Some(i) => tokens.update(i, token),
        None => tokens.push(token),
    }
}

/// No contract address occurs twice.
pub open spec fn distinct_addresses(tokens: Seq<TokenView>) -> bool {
    forall|i: int, j: int|
        0 <= i < tokens.len() && 0 <= j < tokens.len() && i != j ==> tokens[i].address
            != tokens[j].address
}

/// Where addresses are distinct, a token is found where it stands.
pub proof fn lemma_token_position(tokens: Seq<TokenView>, i: int)
    requires
        distinct_addresses(tokens),
        0 <= i < tokens.len(),
    ensures
        token_position(tokens, tokens[i].address) == Some(i),
{
    let address = tokens[i].address;
    assert(tracks(tokens, address));
    let j = choose|j: int| 0 <= j < tokens.len() && tokens[j].address == address;
    assert(j == i);
}

/// The directory that holds the token files of an account.
pub open spec fn tokens_dir(acc_name: Seq<char>) -> Seq<char> {
    account_path(acc_name) + "/tokens"@
}

/// The file of one token: the token directory, `/`, and the text of the
/// contract address.
pub open spec fn token_file(acc_name: Seq<char>, address: Address) -> Seq<char> {
    tokens_dir(acc_name) + "/"@ + address_text(address)
}

/// The tokens that an account tracks. No contract address occurs twice;
/// the tokens keep the order in which their addresses first came in.
pub struct TokenList {
    tokens: Vec<Token>,
}

impl TokenList {
    /// The tokens, in order.
    pub closed spec fn entries(&self) -> Seq<TokenView> {
        token_views(self.tokens@)
    }

    /// No contract address occurs twice.
    pub open spec fn wf(&self) -> bool {
        distinct_addresses(self.entries())
    }

    /// An empty list.
    pub fn new() -> (r: TokenList)
        ensures
            r.wf(),
            r.entries().len() == 0,
    {
        TokenList { tokens: Vec::new() }
    }

    /// Number of tracked tokens.
    pub fn len(&self) -> (r: usize)
        ensures
            r == self.entries().len(),
    {
        self.tokens.len()
    }

    /// Where the token with the contract `address` stands, if it is tracked.
    pub fn position(&self, address: Address) -> (r: Option<usize>)
        ensures
            match r {
                Some(i) => i < self.entries().len() && self.entries()[i as int].address
                    == address,
                None => !tracks(self.entries(), address),
            },
    {
        let n: usize = self.tokens.len();
        let mut i: usize = 0;
        while i < n
            invariant
                i <= n,
                n == self.tokens@.len(),
                forall|j: int| 0 <= j < i ==> self.entries()[j].address != address,
            decreases n - i,
        {
            if self.tokens[i].address == address {
                return Some(i);
            }
            i = i + 1;
        }
        None
    }

    /// Tracks `token`. A token that is already tracked under the same
    /// contract address is replaced; every other token stays.
    pub fn add_token(&mut self, token: Token)
        requires
            old(self).wf(),
        ensures
            final(self).wf(),
            final(self).entries() == tokens_with(old(self).entries(), token@),
    {
        let ghost before = *self;
        let ghost view = token@;
        match self.position(token.address) {
            Some(i) => {
                proof {
                    lemma_token_position(before.entries(), i as int);
                }
                self.tokens.set(i, token);
                proof {
                    assert(self.entries() =~= before.entries().update(i as int, view));
                }
            },
            None => {
                self.tokens.push(token);
                proof {
                    assert(self.entries() =~= before.entries().push(view));
                }
            },
        }
    }

    /// The tracked tokens that live on the chain `chain_id`, in order.
    pub fn get_user_tokens(&self, chain_id: u32) -> (r: Vec<Token>)
        ensures
            token_views(r@) == on_chain(self.entries(), chain_id),
    {
        let n: usize = self.tokens.len();
        let mut out: Vec<Token> = Vec::new();
        let mut i: usize = 0;
        assert(token_views(out@) =~= on_chain(self.entries().subrange(0, 0), chain_id));
        while i < n
            invariant
                i <= n,
                n == self.tokens@.len(),
                token_views(out@) == on_chain(self.entries().subrange(0, i as int), chain_id),
            decreases n - i,
        {
            let ghost shown = token_views(out@);
            proof {
                assert(self.entries().subrange(0, i as int + 1).drop_last()
                    =~= self.entries().subrange(0, i as int));
                assert(self.entries().subrange(0, i as int + 1).last() == self.tokens@[i as int]@);
            }
            if self.tokens[i].chain_id == chain_id {
                out.push(self.tokens[i].clone());
                assert(token_views(out@) =~= shown.push(self.tokens@[i as int]@));
            }
            i = i + 1;
        }
        assert(self.entries().subrange(0, n as int) =~= self.entries());
        out
    }
}

/// The display names of `tokens`, in order.
pub fn token_names(tokens: &Vec<Token>) -> (r: Vec<String>)
    ensures
        r@.len() == tokens@.len(),
        forall|i: int| 0 <= i < r@.len() ==> r@[i]@ == tokens@[i].name@,
{
    let n: usize = tokens.len();
    let mut names: Vec<String> = Vec::new();
    let mut i: usize = 0;
    while i < n
        invariant
            i <= n,
            n == tokens@.len(),
            names@.len() == i,
            forall|j: int| 0 <= j < i ==> names@[j]@ == tokens@[j].name@,
        decreases n - i,
    {
        names.push(tokens[i].name.clone());
        i = i + 1;
    }
    names
}

/// The directory that holds the token files of the account `acc_name`.
pub fn get_tokens_path(acc_name: &str) -> (r: String)
    ensures
        r@ == tokens_dir(acc_name@),
{
    let mut path: String = get_account_path(acc_name);
    path.append("/tokens");
    path
}

/// The file of the token with the contract `address`, for the account
/// `acc_name`.
pub fn get_token_path(acc_name: &str, address: Address) -> (r: String)
    ensures
        r@ == token_file(acc_name@, address),
{
    let mut path: String = get_tokens_path(acc_name);
    path.append("/");
    let name: String = address_to_hex(address);
    path.append(name.as_str());
    path
}

/// What a selection from the menu of one token asks for: the balance, a
/// transfer, or the way back when nothing was selected.
pub fn launch_token_actions(selection: Option<usize>) -> (r: TokenAction)
    ensures
        r == match selection {
            None => TokenAction::Back,
            Some(0) => TokenAction::DisplayBalance,
            Some(1) => TokenAction::Send,
            Some(_) => TokenAction::Nothing,
        },
{
    match selection {
        None => TokenAction::Back,
        Some(0) => TokenAction::DisplayBalance,
        Some(1) => TokenAction::Send,
        Some(_) => TokenAction::Nothing,
    }
}

/// The amount of a token transfer in the token's smallest unit: the text
/// must be a count of whole tokens, and the count times ten to the power of
/// the token's decimals must fit in 128 bits.
pub open spec fn token_amount_of(text: Seq<char>, decimals: u8) -> Result<u128, AmountError> {
    match whole_amount_of(text) {
        None => Err(AmountError::Malformed),
        Some(whole) => if scaled(whole, decimals) <= u128::MAX {
            Ok(scaled(whole, decimals) as u128)
        } else {
            Err(AmountError::TooLarge)
        },
    }
}

/// Executable form of [`token_amount_of`].
pub fn token_transfer_amount(text: &str, decimals: u8) -> (r: Result<u128, AmountError>)
    ensures
        r == token_amount_of(text@, decimals),
{
    match parse_whole_amount(text) {
        None => Err(AmountError::Malformed),
        Some(whole) => match scale_token_amount(whole, decimals) {
            Some(amount) => Ok(amount),
            None => Err(AmountError::TooLarge),
        },
    }
}

} // verus!
