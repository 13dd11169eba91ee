use wallet_core::address::Address;
use wallet_core::session::Session;
use wallet_core::tokens::Token;
use wallet_core::transfer::{
    create_dummy_send_tx, log_tx, recipient_source, send_eth, send_options, send_token, step,
    Asset, PendingTransfer, RecipientSource, TransferAction, TransferEvent, TransferRequest,
    TransferState,
};
use wallet_core::utils::{LogSeverity, SecretKind};
use wallet_core::wallet::{set_wallet, SigningIdentity};

const ETHER: u128 = 1_000_000_000_000_000_000;

fn sender() -> SigningIdentity {
    SigningIdentity {
        address: Address { high: 1, low: 2 },
        chain_id: 1,
        kind: SecretKind::PrivateKey,
    }
}

fn recipient() -> Address {
    Address { high: 3, low: 4 }
}

fn estimating(amount: u128) -> TransferState {
    TransferState::Estimating { sender: sender(), asset: Asset::Native, recipient: recipient(), amount }
}

fn pending(amount: u128, confirmed: bool) -> PendingTransfer {
    PendingTransfer {
        sender: sender(),
        recipient: recipient(),
        asset: Asset::Native,
        amount,
        gas_price: 50_000_000_000_000,
        fee: 50_000_000_000_000_000,
        balance: ETHER,
        asset_balance: ETHER,
        confirmed,
    }
}

fn estimate() -> TransferEvent {
    TransferEvent::Estimated {
        gas_price: 50_000_000_000_000,
        gas: 1000,
        balance: ETHER,
        asset_balance: ETHER,
    }
}

#[test]
fn a_draft_asks_for_an_estimate() {
    let drafting = TransferState::Drafting { sender: sender(), asset: Asset::Native };
    let (state, action) = step(drafting, TransferEvent::Drafted { recipient: recipient(), amount: 5 });
    assert_eq!(state, estimating(5));
    assert_eq!(
        action,
        TransferAction::Estimate {
            request: TransferRequest {
                from: sender().address,
                to: recipient(),
                asset: Asset::Native,
                value: 5,
            },
        }
    );
}

#[test]
fn amount_of_0_96_with_fee_0_05_and_balance_1_is_rejected() {
    let amount = 960_000_000_000_000_000;
    let (state, action) = step(estimating(amount), estimate());
    assert_eq!(state, TransferState::Drafting { sender: sender(), asset: Asset::Native });
    assert_eq!(
        action,
        TransferAction::ReportInsufficientFunds {
            amount,
            fee: Some(50_000_000_000_000_000),
            balance: ETHER,
            asset_balance: ETHER,
        }
    );
}

#[test]
fn amount_of_0_9_with_fee_0_05_and_balance_1_is_accepted() {
    let amount = 900_000_000_000_000_000;
    let (state, action) = step(estimating(amount), estimate());
    assert_eq!(state, TransferState::AwaitingConfirmation { transfer: pending(amount, false) });
    assert_eq!(action, TransferAction::AskConfirmation { transfer: pending(amount, false) });
}

#[test]
fn a_fee_that_overflows_counts_as_insufficient_funds() {
    let event = TransferEvent::Estimated {
        gas_price: u128::MAX,
        gas: 2,
        balance: u128::MAX,
        asset_balance: u128::MAX,
    };
    let (state, action) = step(estimating(1), event);
    assert_eq!(state, TransferState::Drafting { sender: sender(), asset: Asset::Native });
    assert_eq!(
        action,
        TransferAction::ReportInsufficientFunds {
            amount: 1,
            fee: None,
            balance: u128::MAX,
            asset_balance: u128::MAX,
        }
    );
}

#[test]
fn yes_submits_and_no_cancels() {
    let waiting = TransferState::AwaitingConfirmation { transfer: pending(7, false) };
    let (state, action) = step(waiting, TransferEvent::Answered { yes: true });
    assert_eq!(state, TransferState::Submitted { transfer: pending(7, true) });
    assert_eq!(action, TransferAction::Submit { transfer: pending(7, true) });
    let (state, action) = step(waiting, TransferEvent::Answered { yes: false });
    assert_eq!(state, TransferState::Cancelled);
    assert_eq!(action, TransferAction::Nothing);
    let (state, action) = step(waiting, TransferEvent::Abandoned);
    assert_eq!(state, TransferState::Cancelled);
    assert_eq!(action, TransferAction::Nothing);
}

#[test]
fn a_submitted_transfer_ends_confirmed_or_failed() {
    let submitted = TransferState::Submitted { transfer: pending(7, true) };
    assert_eq!(
        step(submitted, TransferEvent::Included),
        (
            TransferState::Confirmed { transfer: pending(7, true) },
            TransferAction::ReportConfirmed { transfer: pending(7, true) }
        )
    );
    assert_eq!(
        step(submitted, TransferEvent::Rejected),
        (
            TransferState::Failed { transfer: pending(7, true) },
            TransferAction::ReportFailed { transfer: pending(7, true) }
        )
    );
    assert_eq!(step(submitted, TransferEvent::Abandoned), (submitted, TransferAction::Nothing));
    assert_eq!(
        step(submitted, TransferEvent::Answered { yes: true }),
        (submitted, TransferAction::Nothing)
    );
}

#[test]
fn final_states_and_unexpected_events_change_nothing() {
    let done = TransferState::Confirmed { transfer: pending(7, true) };
    for event in [
        TransferEvent::Abandoned,
        TransferEvent::Included,
        TransferEvent::Rejected,
        TransferEvent::Answered { yes: true },
        estimate(),
    ] {
        assert_eq!(step(done, event), (done, TransferAction::Nothing));
        assert_eq!(step(TransferState::Cancelled, event), (TransferState::Cancelled, TransferAction::Nothing));
    }
    let drafting = TransferState::Drafting { sender: sender(), asset: Asset::Native };
    assert_eq!(step(drafting, TransferEvent::Included), (drafting, TransferAction::Nothing));
    assert_eq!(step(drafting, estimate()), (drafting, TransferAction::Nothing));
    assert_eq!(step(drafting, TransferEvent::Abandoned), (TransferState::Cancelled, TransferAction::Nothing));
}

#[test]
fn token_transfers_check_the_token_balance_and_the_fee_apart() {
    let asset = Asset::Token { contract: Address { high: 9, low: 9 }, decimals: 6 };
    let state = TransferState::Estimating { sender: sender(), asset, recipient: recipient(), amount: 3_000_000 };
    let enough = TransferEvent::Estimated { gas_price: 10, gas: 10, balance: 101, asset_balance: 3_000_001 };
    assert!(matches!(step(state, enough).0, TransferState::AwaitingConfirmation { .. }));
    let no_tokens = TransferEvent::Estimated { gas_price: 10, gas: 10, balance: 101, asset_balance: 3_000_000 };
    assert_eq!(step(state, no_tokens).0, TransferState::Drafting { sender: sender(), asset });
    let no_gas = TransferEvent::Estimated { gas_price: 10, gas: 10, balance: 100, asset_balance: 3_000_001 };
    assert_eq!(step(state, no_gas).0, TransferState::Drafting { sender: sender(), asset });
}

#[test]
fn transfers_start_only_from_an_unlocked_session() {
    let mut session = Session::new();
    assert_eq!(send_eth(&session), None);
    assert_eq!(create_dummy_send_tx(&session), None);
    set_wallet(&mut session, Some(sender()));
    assert_eq!(
        send_eth(&session),
        Some(TransferState::Drafting { sender: sender(), asset: Asset::Native })
    );
    let token = Token {
        name: "USD Coin".to_string(),
        decimals: 6,
        address: Address { high: 9, low: 9 },
        chain_id: 1,
    };
    assert_eq!(
        send_token(&session, &token),
        Some(TransferState::Drafting {
            sender: sender(),
            asset: Asset::Token { contract: Address { high: 9, low: 9 }, decimals: 6 },
        })
    );
    assert_eq!(
        create_dummy_send_tx(&session),
        Some(TransferRequest {
            from: sender().address,
            to: sender().address,
            asset: Asset::Native,
            value: 0x10000000000,
        })
    );
}

#[test]
fn recipient_comes_from_the_book_or_is_typed() {
    assert_eq!(send_options(), vec!["select beneficiary".to_string(), "type address".to_string()]);
    assert_eq!(recipient_source(Some(0)), RecipientSource::Beneficiary);
    assert_eq!(recipient_source(Some(1)), RecipientSource::Typed);
    assert_eq!(recipient_source(None), RecipientSource::Back);
}

#[test]
fn reports_link_to_the_explorer() {
    let ok = log_tx("https://etherscan.io/", "0xabc", true);
    assert_eq!(ok.severity, LogSeverity::INFO);
    assert_eq!(ok.message, "Transaction successful. View transaction at:");
    assert_eq!(ok.link, "https://etherscan.io/tx/0xabc");
    let failed = log_tx("https://etherscan.io/", "0xabc", false);
    assert_eq!(failed.severity, LogSeverity::ERROR);
    assert_eq!(failed.message, "Transaction failed. View transaction at:");
    assert_eq!(failed.link, "https://etherscan.io/tx/0xabc");
}

#[test]
fn an_unreachable_chain_is_reported_and_ends_the_transfer() {
    assert_eq!(
        step(estimating(5), TransferEvent::Unreachable),
        (TransferState::Cancelled, TransferAction::ReportChainUnavailable)
    );
    let submitted = TransferState::Submitted { transfer: pending(7, true) };
    assert_eq!(
        step(submitted, TransferEvent::Unreachable),
        (TransferState::Failed { transfer: pending(7, true) }, TransferAction::ReportChainUnavailable)
    );
    let waiting = TransferState::AwaitingConfirmation { transfer: pending(7, false) };
    assert_eq!(step(waiting, TransferEvent::Unreachable), (waiting, TransferAction::Nothing));
}
