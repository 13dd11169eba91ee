use wallet_core::address::{parse_address, Address};
use wallet_core::beneficiaries::{
    beneficiary_menu, beneficiary_menu_options, Beneficiaries, BeneficiaryAction,
};
use wallet_core::utils::ValidationError;

const ALICE: &str = "0x00000000000000000000000000000000000000a1";
const BOB: &str = "0x00000000000000000000000000000000000000b0";

#[test]
fn menu_has_three_entries() {
    assert_eq!(
        beneficiary_menu_options(),
        vec![
            "List beneficiaries".to_string(),
            "Add beneficiary".to_string(),
            "Delete beneficiary".to_string()
        ]
    );
    assert_eq!(beneficiary_menu(Some(0)), BeneficiaryAction::List);
    assert_eq!(beneficiary_menu(Some(1)), BeneficiaryAction::Add);
    assert_eq!(beneficiary_menu(Some(2)), BeneficiaryAction::Delete);
    assert_eq!(beneficiary_menu(Some(3)), BeneficiaryAction::Nothing);
    assert_eq!(beneficiary_menu(None), BeneficiaryAction::Nothing);
}

#[test]
fn added_names_are_trimmed_and_found() {
    let mut book = Beneficiaries::new();
    assert_eq!(book.add(" alice ", ALICE), Ok(()));
    assert_eq!(book.add("bob", &format!(" {} ", BOB)), Ok(()));
    assert_eq!(book.len(), 2);
    assert_eq!(book.get("alice"), Some(Address { high: 0, low: 0xa1 }));
    assert_eq!(book.get("bob"), Some(parse_address(BOB).unwrap()));
    assert_eq!(book.get(" alice "), None);
    assert_eq!(book.beneficiary_names(), vec!["alice".to_string(), "bob".to_string()]);
    assert_eq!(book.entry(1), ("bob".to_string(), Address { high: 0, low: 0xb0 }));
}

#[test]
fn a_name_that_is_there_gets_the_new_address() {
    let mut book = Beneficiaries::new();
    book.add("alice", ALICE).unwrap();
    book.add("bob", BOB).unwrap();
    book.add("alice", BOB).unwrap();
    assert_eq!(book.len(), 2);
    assert_eq!(book.get("alice"), Some(Address { high: 0, low: 0xb0 }));
    assert_eq!(book.beneficiary_names(), vec!["alice".to_string(), "bob".to_string()]);
}

#[test]
fn bad_names_and_addresses_change_nothing() {
    let mut book = Beneficiaries::new();
    assert_eq!(book.add("al", ALICE), Err(ValidationError::NameTooShort));
    assert_eq!(book.add("alice", "0x12"), Err(ValidationError::InvalidAddress));
    assert_eq!(book.add("al", "0x12"), Err(ValidationError::NameTooShort));
    assert_eq!(book.len(), 0);
}

#[test]
fn removing_takes_one_name_out() {
    let mut book = Beneficiaries::new();
    book.add("alice", ALICE).unwrap();
    book.add("bob", BOB).unwrap();
    book.add("carol", ALICE).unwrap();
    assert!(book.remove("bob"));
    assert!(!book.remove("bob"));
    assert_eq!(book.get("bob"), None);
    assert_eq!(book.get("carol"), Some(Address { high: 0, low: 0xa1 }));
    assert_eq!(book.beneficiary_names(), vec!["alice".to_string(), "carol".to_string()]);
}

#[test]
fn selection_goes_by_the_order_of_the_names() {
    let mut book = Beneficiaries::new();
    book.add("alice", ALICE).unwrap();
    book.add("bob", BOB).unwrap();
    assert_eq!(book.select_beneficiary(Some(1)), Some(Address { high: 0, low: 0xb0 }));
    assert_eq!(book.select_beneficiary(Some(2)), None);
    assert_eq!(book.select_beneficiary(None), None);
}
