//! The transfer pipeline as a state machine. The library decides; the
//! caller performs what it is told (estimate, ask, submit, report) and hands
//! back what happened.
//!
//! `Drafting -> Estimating -> AwaitingConfirmation -> Submitted ->
//! Confirmed | Failed`, with `Cancelled` for a transfer that was given up
//! before it was submitted. A chain that cannot be reached is reported and
//! ends the transfer; nothing is retried.

use crate::address::Address;
use crate::amount::funds_suffice;
use crate::amount::has_sufficient_funds;
use crate::session::Session;
use crate::tokens::Token;
use crate::utils::LogSeverity;
use crate::wallet::SigningIdentity;
use vstd::prelude::*;
use vstd::string::StringExecFns;

verus! {

/// The value of the self-transfer that gas is estimated with.
pub const DUMMY_TRANSFER_VALUE: u128 = 0x100_0000_0000;

/// What is transferred.
#[derive(Clone, Copy, Debug, PartialEq, Eq, Structural)]
pub enum Asset {
    /// The chain's native asset; amounts are in wei.
    Native,
    /// A token; amounts are in the token's smallest unit.
    Token { contract: Address, decimals: u8 },
}

/// A transfer as the chain client needs it to estimate gas or to send.
#[derive(Clone, Copy, Debug, PartialEq, Eq, Structural)]
pub struct TransferRequest {
    pub from: Address,
    pub to: Address,
    pub asset: Asset,
    pub value: u128,
}

/// A transfer that passed the funds check.
#[derive(Clone, Copy, Debug, PartialEq, Eq, Structural)]
pub struct PendingTransfer {
    /// Who signs.
    pub sender: SigningIdentity,
    /// Who receives.
    pub recipient: Address,
    /// What is sent.
    pub asset: Asset,
    /// How much, in base units of the asset.
    pub amount: u128,
    /// The gas price that was resolved, in wei.
    pub gas_price: u128,
    /// The estimated fee, in wei.
    pub fee: u128,
    /// The native balance that the funds check was made against, in wei.
    pub balance: u128,
    /// The balance of the asset that the funds check was made against.
    pub asset_balance: u128,
    /// Whether the user confirmed.
    pub confirmed: bool,
}

/// Where a transfer stands.
#[derive(Clone, Copy, Debug, PartialEq, Eq, Structural)]
pub enum TransferState {
    /// Recipient and amount are being collected.
    Drafting { sender: SigningIdentity, asset: Asset },
    /// Gas price, gas and balances are being resolved.
    Estimating { sender: SigningIdentity, asset: Asset, recipient: Address, amount: u128 },
    /// The user is asked to confirm.
    AwaitingConfirmation { transfer: PendingTransfer },
    /// The signed transaction was handed to the background task.
    Submitted { transfer: PendingTransfer },
    /// The chain included the transaction.
    Confirmed { transfer: PendingTransfer },
    /// The chain rejected or reverted the transaction.
    Failed { transfer: PendingTransfer },
    /// The transfer was given up before it was submitted.
    Cancelled,
}

/// What happened outside.
#[derive(Clone, Copy, Debug, PartialEq, Eq, Structural)]
pub enum TransferEvent {
    /// Recipient and amount were entered.
    Drafted { recipient: Address, amount: u128 },
    /// The chain client answered: gas price and gas units, the native
    /// balance, and the balance of the asset that is sent.
    Estimated { gas_price: u128, gas: u128, balance: u128, asset_balance: u128 },
    /// The user answered the confirmation.
    Answered { yes: bool },
    /// The user gave up.
    Abandoned,
    /// The transaction was included.
    Included,
    /// The transaction was rejected or reverted.
    Rejected,
    /// The chain client could not be reached.
    Unreachable,
}

/// What the caller is to do next.
#[derive(Clone, Copy, Debug, PartialEq, Eq, Structural)]
pub enum TransferAction {
    /// Nothing.
    Nothing,
    /// Resolve gas price, gas and balances for this request.
    Estimate { request: TransferRequest },
    /// Show the transfer and ask for a yes or a no.
    AskConfirmation { transfer: PendingTransfer },
    /// Sign and broadcast in the background.
    Submit { transfer: PendingTransfer },
    /// Tell the user that the funds do not suffice, and ask again. Both
    /// balances are handed on: the native one, which pays the fee, and the
    /// one of the asset that is sent.
    ReportInsufficientFunds { amount: u128, fee: Option<u128>, balance: u128, asset_balance: u128 },
    /// Tell the user that the transfer went through.
    ReportConfirmed { transfer: PendingTransfer },
    /// Tell the user that the transfer failed.
    ReportFailed { transfer: PendingTransfer },
    /// Tell the user that the chain could not be reached. Nothing is tried
    /// again on its own.
    ReportChainUnavailable,
}

/// The request that a draft stands for.
pub open spec fn request_of(
    sender: SigningIdentity,
    asset: Asset,
    recipient: Address,
    amount: u128,
) -> TransferRequest {
    TransferRequest { from: sender.address, to: recipient, asset, value: amount }
}

/// The fee of `gas` units at `gas_price`, if it fits in 128 bits.
pub open spec fn fee_of(gas: u128, gas_price: u128) -> Option<u128> {
    if gas * gas_price <= u128::MAX {
        Some((gas * gas_price) as u128)
    } else {
        None
    }
}

/// Whether a transfer can be afforded. For the native asset the amount and
/// the fee together must stay below the balance. For a token the amount
/// must stay below the token balance and the fee below the native balance.
pub open spec fn affordable(
    asset: Asset,
    amount: u128,
    fee: u128,
    balance: u128,
    asset_balance: u128,
) -> bool {
    match asset {
        Asset::Native => funds_suffice(amount, fee, balance),
        Asset::Token { .. } => amount < asset_balance && fee < balance,
    }
}

/// What a pending transfer is known to satisfy: amount and fee passed the
/// funds check against the balances that it records.
pub open spec fn passed_funds_check(transfer: PendingTransfer) -> bool {
    affordable(
        transfer.asset,
        transfer.amount,
        transfer.fee,
        transfer.balance,
        transfer.asset_balance,
    )
}

/// The invariant of the state machine: whoever waits for confirmation has
/// passed the funds check and is not confirmed; whoever is submitted,
/// confirmed or failed has passed the funds check and was confirmed.
pub open spec fn state_inv(state: TransferState) -> bool {
    match state {
        TransferState::AwaitingConfirmation { transfer } => passed_funds_check(transfer)
            && !transfer.confirmed,
        TransferState::Submitted { transfer } => passed_funds_check(transfer) && transfer.confirmed,
        TransferState::Confirmed { transfer } => passed_funds_check(transfer) && transfer.confirmed,
        TransferState::Failed { transfer } => passed_funds_check(transfer) && transfer.confirmed,
        _ => true,
    }
}

/// Whether a state is final.
pub open spec fn is_terminal(state: TransferState) -> bool {
    state is Confirmed || state is Failed || state is Cancelled
}

/// The outcome of an estimate for a draft.
pub open spec fn after_estimate(
    sender: SigningIdentity,
    asset: Asset,
    recipient: Address,
    amount: u128,
    gas_price: u128,
    gas: u128,
    balance: u128,
    asset_balance: u128,
) -> (TransferState, TransferAction) {
    match fee_of(gas, gas_price) {
        Some(fee) => if affordable(asset, amount, fee, balance, asset_balance) {
            let transfer = PendingTransfer {
                sender,
                recipient,
                asset,
                amount,
                gas_price,
                fee,
                balance,
                asset_balance,
                confirmed: false,
            };
            (
                TransferState::AwaitingConfirmation { transfer },
                TransferAction::AskConfirmation { transfer },
            )
        } else {
            (
                TransferState::Drafting { sender, asset },
                TransferAction::ReportInsufficientFunds {
                    amount,
                    fee: Some(fee),
                    balance,
                    asset_balance,
                },
            )
        },
        None => (
            TransferState::Drafting { sender, asset },
            TransferAction::ReportInsufficientFunds { amount, fee: None, balance, asset_balance },
        ),
    }
}

/// The transfer, marked as confirmed.
pub open spec fn confirmed(transfer: PendingTransfer) -> PendingTransfer {
    PendingTransfer {
        sender: transfer.sender,
        recipient: transfer.recipient,
        asset: transfer.asset,
        amount: transfer.amount,
        gas_price: transfer.gas_price,
        fee: transfer.fee,
        balance: transfer.balance,
        asset_balance: transfer.asset_balance,
        confirmed: true,
    }
}

/// The transition function: the next state and what to do, for every
/// state and every event. An event that a state does not expect changes
/// nothing.
pub open spec fn transition(state: TransferState, event: TransferEvent) -> (
    TransferState,
    TransferAction,
) {
    match (state, event) {
        (TransferState::Drafting { sender, asset }, TransferEvent::Drafted { recipient, amount }) => (
            TransferState::Estimating { sender, asset, recipient, amount },
            TransferAction::Estimate { request: request_of(sender, asset, recipient, amount) },
        ),
        (TransferState::Drafting { .. }, TransferEvent::Abandoned) => (
            TransferState::Cancelled,
            TransferAction::Nothing,
        ),
        (
            TransferState::Estimating { sender, asset, recipient, amount },
            TransferEvent::Estimated { gas_price, gas, balance, asset_balance },
        ) => after_estimate(
            sender,
            asset,
            recipient,
            amount,
            gas_price,
            gas,
            balance,
            asset_balance,
        ),
        (TransferState::Estimating { .. }, TransferEvent::Abandoned) => (
            TransferState::Cancelled,
            TransferAction::Nothing,
        ),
        (TransferState::Estimating { .. }, TransferEvent::Unreachable) => (
            TransferState::Cancelled,
            TransferAction::ReportChainUnavailable,
        ),
        (TransferState::AwaitingConfirmation { transfer }, TransferEvent::Answered { yes }) => if yes {
            (
                TransferState::Submitted { transfer: confirmed(transfer) },
                TransferAction::Submit { transfer: confirmed(transfer) },
            )
        } else {
            (TransferState::Cancelled, TransferAction::Nothing)
        },
        (TransferState::AwaitingConfirmation { .. }, TransferEvent::Abandoned) => (
            TransferState::Cancelled,
            TransferAction::Nothing,
        ),
        (TransferState::Submitted { transfer }, TransferEvent::Included) => (
            TransferState::Confirmed { transfer },
            TransferAction::ReportConfirmed { transfer },
        ),
        (TransferState::Submitted { transfer }, TransferEvent::Rejected) => (
            TransferState::Failed { transfer },
            TransferAction::ReportFailed { transfer },
        ),
        (TransferState::Submitted { transfer }, TransferEvent::Unreachable) => (
            TransferState::Failed { transfer },
            TransferAction::ReportChainUnavailable,
        ),
        _ => (state, TransferAction::Nothing),
    }
}

/// Decides what an estimate means for a draft.
pub fn settle_estimate(
    sender: SigningIdentity,
    asset: Asset,
    recipient: Address,
    amount: u128,
    gas_price: u128,
    gas: u128,
    balance: u128,
    asset_balance: u128,
) -> (r: (TransferState, TransferAction))
    ensures
        r == after_estimate(
            sender,
            asset,
            recipient,
            amount,
            gas_price,
            gas,
            balance,
            asset_balance,
        ),
{
    match gas.checked_mul(gas_price) {
        Some(fee) => {
            let affordable: bool = match asset {
                Asset::Native => has_sufficient_funds(amount, fee, balance),
                Asset::Token { contract: _, decimals: _ } => amount < asset_balance && fee
                    < balance,
            };
            if affordable {
                let transfer = PendingTransfer {
                    sender,
                    recipient,
                    asset,
                    amount,
                    gas_price,
                    fee,
                    balance,
                    asset_balance,
                    confirmed: false,
                };
                (
                    TransferState::AwaitingConfirmation { transfer },
                    TransferAction::AskConfirmation { transfer },
                )
            } else {
                (
                    TransferState::Drafting { sender, asset },
                    TransferAction::ReportInsufficientFunds {
                    amount,
                    fee: Some(fee),
                    balance,
                    asset_balance,
                },
                )
            }
        },
        None => (
            TransferState::Drafting { sender, asset },
            TransferAction::ReportInsufficientFunds { amount, fee: None, balance, asset_balance },
        ),
    }
}

/// Marks a transfer as confirmed.
pub fn confirm(transfer: PendingTransfer) -> (r: PendingTransfer)
    ensures
        r == confirmed(transfer),
{
    PendingTransfer {
        sender: transfer.sender,
        recipient: transfer.recipient,
        asset: transfer.asset,
        amount: transfer.amount,
        gas_price: transfer.gas_price,
        fee: transfer.fee,
        balance: transfer.balance,
        asset_balance: transfer.asset_balance,
        confirmed: true,
    }
}

/// Advances a transfer by one event.
pub fn step(state: TransferState, event: TransferEvent) -> (r: (TransferState, TransferAction))
    ensures
        r == transition(state, event),
{
    match state {
        TransferState::Drafting { sender, asset } => match event {
            TransferEvent::Drafted { recipient, amount } => (
                TransferState::Estimating { sender, asset, recipient, amount },
                TransferAction::Estimate {
                    request: TransferRequest {
                        from: sender.address,
                        to: recipient,
                        asset,
                        value: amount,
                    },
                },
            ),
            TransferEvent::Abandoned => (TransferState::Cancelled, TransferAction::Nothing),
            _ => (state, TransferAction::Nothing),
        },
        TransferState::Estimating { sender, asset, recipient, amount } => match event {
            TransferEvent::Estimated { gas_price, gas, balance, asset_balance } => settle_estimate(
                sender,
                asset,
                recipient,
                amount,
                gas_price,
                gas,
                balance,
                asset_balance,
            ),
            TransferEvent::Abandoned => (TransferState::Cancelled, TransferAction::Nothing),
            TransferEvent::Unreachable => (
                TransferState::Cancelled,
                TransferAction::ReportChainUnavailable,
            ),
            _ => (state, TransferAction::Nothing),
        },
        TransferState::AwaitingConfirmation { transfer } => match event {
            TransferEvent::Answered { yes } => {
                if yes {
                    let sent = confirm(transfer);
                    (
                        TransferState::Submitted { transfer: sent },
                        TransferAction::Submit { transfer: sent },
                    )
                } else {
                    (TransferState::Cancelled, TransferAction::Nothing)
                }
            },
            TransferEvent::Abandoned => (TransferState::Cancelled, TransferAction::Nothing),
            _ => (state, TransferAction::Nothing),
        },
        TransferState::Submitted { transfer } => match event {
            TransferEvent::Included => (
                TransferState::Confirmed { transfer },
                TransferAction::ReportConfirmed { transfer },
            ),
            TransferEvent::Rejected => (
                TransferState::Failed { transfer },
                TransferAction::ReportFailed { transfer },
            ),
            TransferEvent::Unreachable => (
                TransferState::Failed { transfer },
                TransferAction::ReportChainUnavailable,
            ),
            _ => (state, TransferAction::Nothing),
        },
        _ => (state, TransferAction::Nothing),
    }
}

/// Where the recipient of a transfer comes from.
#[derive(Clone, Copy, Debug, PartialEq, Eq, Structural)]
pub enum RecipientSource {
    /// The user picks a beneficiary.
    Beneficiary,
    /// The user types an address.
    Typed,
    /// The user goes back; there is no transfer.
    Back,
}

/// What is told about a transaction once the chain has answered.
#[derive(Debug, PartialEq, Eq)]
pub struct TxReport {
    /// How loud the message is.
    pub severity: LogSeverity,
    /// The message.
    pub message: String,
    /// Where the transaction can be looked up.
    pub link: String,
}

/// The entries of the list that asks where the recipient comes from.
pub fn send_options() -> (r: Vec<String>)
    ensures
        r@.len() == 2,
        r@[0]@ == "select beneficiary"@,
        r@[1]@ == "type address"@,
{
    let mut options: Vec<String> = Vec::new();
    options.push(String::from_str("select beneficiary"));
    options.push(String::from_str("type address"));
    options
}

/// What a selection from the list of [`send_options`] means: the first
/// entry picks a beneficiary, any other types an address, none goes back.
pub fn recipient_source(selection: Option<usize>) -> (r: RecipientSource)
    ensures
        r == match selection {
            None => RecipientSource::Back,
            Some(0) => RecipientSource::Beneficiary,
            Some(_) => RecipientSource::Typed,
        },
{
    match selection {
        None => RecipientSource::Back,
        Some(0) => RecipientSource::Beneficiary,
        Some(_) => RecipientSource::Typed,
    }
}

/// The message for a transaction that the chain has answered.
pub open spec fn tx_message(included: bool) -> Seq<char> {
    if included {
        "Transaction successful. View transaction at:"@
    } else {
        "Transaction failed. View transaction at:"@
    }
}

/// The link of a transaction at a block explorer: the explorer's base
/// URL, `tx/`, and the transaction hash.
pub open spec fn tx_link(explorer_url: Seq<char>, tx_hash: Seq<char>) -> Seq<char> {
    explorer_url + "tx/"@ + tx_hash
}

/// What to tell about a transaction: a success is information, a failure
/// is an error, and both come with the link to the block explorer.
pub fn log_tx(explorer_url: &str, tx_hash: &str, included: bool) -> (r: TxReport)
    ensures
        r.severity == if included {
            LogSeverity::INFO
        } else {
            LogSeverity::ERROR
        },
        r.message@ == tx_message(included),
        r.link@ == tx_link(explorer_url@, tx_hash@),
{
    let mut link: String = String::from_str(explorer_url);
    link.append("tx/");
    link.append(tx_hash);
    if included {
        TxReport {
            severity: LogSeverity::INFO,
            message: String::from_str("Transaction successful. View transaction at:"),
            link,
        }
    } else {
        TxReport {
            severity: LogSeverity::ERROR,
            message: String::from_str("Transaction failed. View transaction at:"),
            link,
        }
    }
}

/// Starts a transfer of the native asset from the unlocked account, if
/// there is one.
pub fn send_eth(session: &Session) -> (r: Option<TransferState>)
    ensures
        r == match session.wallet {
            Some(sender) => Some(TransferState::Drafting { sender, asset: Asset::Native }),
            None => None,
        },
{
    begin_transfer(session, Asset::Native)
}

/// Starts a transfer of `token` from the unlocked account, if there is
/// one.
pub fn send_token(session: &Session, token: &Token) -> (r: Option<TransferState>)
    ensures
        r == match session.wallet {
            Some(sender) => Some(
                TransferState::Drafting {
                    sender,
                    asset: Asset::Token { contract: token.address, decimals: token.decimals },
                },
            ),
            None => None,
        },
{
    begin_transfer(session, Asset::Token { contract: token.address, decimals: token.decimals })
}

/// Starts a transfer of `asset` from the unlocked account, if there is one.
pub fn begin_transfer(session: &Session, asset: Asset) -> (r: Option<TransferState>)
    ensures
        r == match session.wallet {
            Some(sender) => Some(TransferState::Drafting { sender, asset }),
            None => None,
        },
{
    match session.wallet {
        Some(sender) => Some(TransferState::Drafting { sender, asset }),
        None => None,
    }
}

/// The self-transfer that gas prices are estimated with, if an account is
/// unlocked.
pub fn create_dummy_send_tx(session: &Session) -> (r: Option<TransferRequest>)
    ensures
        r == match session.wallet {
            Some(wallet) => Some(
                TransferRequest {
                    from: wallet.address,
                    to: wallet.address,
                    asset: Asset::Native,
                    value: DUMMY_TRANSFER_VALUE,
                },
            ),
            None => None,
        },
{
    match session.wallet {
        Some(wallet) => Some(
            TransferRequest {
                from: wallet.address,
                to: wallet.address,
                asset: Asset::Native,
                value: DUMMY_TRANSFER_VALUE,
            },
        ),
        None => None,
    }
}

/// Every transition keeps the invariant.
pub proof fn lemma_transition_keeps_invariant(state: TransferState, event: TransferEvent)
    requires
        state_inv(state),
    ensures
        state_inv(transition(state, event).0),
{
}

/// A transfer is only ever submitted when the user said yes to it while it
/// was awaiting confirmation; what is submitted is that transfer, it is
/// marked confirmed, and it passed the funds check.
pub proof fn lemma_submit_needs_confirmation(
    state: TransferState,
    event: TransferEvent,
    transfer: PendingTransfer,
)
    requires
        state_inv(state),
        transition(state, event).1 == (TransferAction::Submit { transfer }),
    ensures
        state matches TransferState::AwaitingConfirmation { transfer: asked } && transfer
            == confirmed(asked),
        event == (TransferEvent::Answered { yes: true }),
        transfer.confirmed,
        passed_funds_check(transfer),
        transition(state, event).0 == (TransferState::Submitted { transfer }),
{
}

/// A transfer whose amount and fee reach the balance is never asked for
/// confirmation: the draft returns to `Drafting` with a report, and the
/// amount is left as it was entered.
pub proof fn lemma_insufficient_funds_return_to_drafting(
    sender: SigningIdentity,
    recipient: Address,
    amount: u128,
    gas_price: u128,
    gas: u128,
    balance: u128,
)
    requires
        amount + gas * gas_price >= balance,
    ensures
        transition(
            TransferState::Estimating { sender, asset: Asset::Native, recipient, amount },
            TransferEvent::Estimated { gas_price, gas, balance, asset_balance: balance },
        ).0 == (TransferState::Drafting { sender, asset: Asset::Native }),
        transition(
            TransferState::Estimating { sender, asset: Asset::Native, recipient, amount },
            TransferEvent::Estimated { gas_price, gas, balance, asset_balance: balance },
        ).1 is ReportInsufficientFunds,
{
}

/// Saying no, or giving up, before a transfer is submitted cancels it and
/// asks the caller for nothing.
pub proof fn lemma_cancel_has_no_effect(state: TransferState, event: TransferEvent)
    requires
        state is Drafting || state is Estimating || state is AwaitingConfirmation,
        event == TransferEvent::Abandoned || event == (TransferEvent::Answered { yes: false }),
    ensures
        transition(state, event).1 == TransferAction::Nothing,
        state is AwaitingConfirmation || event == TransferEvent::Abandoned ==> transition(
            state,
            event,
        ).0 == TransferState::Cancelled,
{
}

/// A submitted transfer cannot be cancelled, and a final state stays.
pub proof fn lemma_no_way_back(state: TransferState, event: TransferEvent)
    ensures
        is_terminal(state) ==> transition(state, event) == (state, TransferAction::Nothing),
        state is Submitted ==> transition(state, event).0 is Submitted || is_terminal(
            transition(state, event).0,
        ),
        state is Submitted && (event == TransferEvent::Abandoned || event is Answered)
            ==> transition(state, event) == (state, TransferAction::Nothing),
{
}

} // verus!
