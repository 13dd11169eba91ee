use wallet_core::address::Address;
use wallet_core::amount::AmountError;
use wallet_core::tokens::{
    get_token_path, get_tokens_path, launch_token_actions, token_names, token_transfer_amount,
    Token, TokenAction, TokenList,
};

fn token(name: &str, low: u128, chain_id: u32) -> Token {
    Token { name: name.to_string(), decimals: 6, address: Address { high: 0, low }, chain_id }
}

#[test]
fn tokens_are_listed_by_chain() {
    let mut list = TokenList::new();
    list.add_token(token("USDC", 1, 1));
    list.add_token(token("DAI", 2, 137));
    list.add_token(token("WETH", 3, 1));
    assert_eq!(list.len(), 3);
    let mainnet = list.get_user_tokens(1);
    assert_eq!(mainnet, vec![token("USDC", 1, 1), token("WETH", 3, 1)]);
    assert_eq!(token_names(&mainnet), vec!["USDC".to_string(), "WETH".to_string()]);
    assert_eq!(list.get_user_tokens(137), vec![token("DAI", 2, 137)]);
    assert_eq!(list.get_user_tokens(5), vec![]);
}

#[test]
fn a_contract_is_tracked_once() {
    let mut list = TokenList::new();
    list.add_token(token("USDC", 1, 1));
    list.add_token(token("DAI", 2, 1));
    list.add_token(token("USD Coin", 1, 137));
    assert_eq!(list.len(), 2);
    assert_eq!(list.position(Address { high: 0, low: 1 }), Some(0));
    assert_eq!(list.position(Address { high: 0, low: 7 }), None);
    assert_eq!(list.get_user_tokens(1), vec![token("DAI", 2, 1)]);
    assert_eq!(list.get_user_tokens(137), vec![token("USD Coin", 1, 137)]);
}

#[test]
fn token_files_are_named_by_the_full_address() {
    assert_eq!(get_tokens_path("alice"), "accounts/alice/tokens");
    assert_eq!(
        get_token_path("alice", Address { high: 0xa0b86991, low: 0xc6218b36c1d19d4a2e9eb0ce3606eb48 }),
        "accounts/alice/tokens/0xa0b86991c6218b36c1d19d4a2e9eb0ce3606eb48"
    );
}

#[test]
fn token_menu() {
    assert_eq!(launch_token_actions(None), TokenAction::Back);
    assert_eq!(launch_token_actions(Some(0)), TokenAction::DisplayBalance);
    assert_eq!(launch_token_actions(Some(1)), TokenAction::Send);
    assert_eq!(launch_token_actions(Some(2)), TokenAction::Nothing);
}

#[test]
fn three_whole_tokens_with_six_decimals() {
    assert_eq!(token_transfer_amount("3", 6), Ok(3_000_000));
    assert_eq!(token_transfer_amount(" 3 ", 0), Ok(3));
    assert_eq!(token_transfer_amount("3", 18), Ok(3_000_000_000_000_000_000));
}

#[test]
fn fractions_and_overflows_are_refused() {
    assert_eq!(token_transfer_amount("0.5", 6), Err(AmountError::Malformed));
    assert_eq!(token_transfer_amount("three", 6), Err(AmountError::Malformed));
    assert_eq!(token_transfer_amount("", 6), Err(AmountError::Malformed));
    assert_eq!(token_transfer_amount("1", 39), Err(AmountError::TooLarge));
    assert_eq!(token_transfer_amount("0", 255), Ok(0));
}
