//! The records of the escrow store and of the outbound request registry, and
//! the events that their operations report.

use vstd::prelude::*;

verus! {

/// The life of an escrow: open until it is claimed or refunded, then final.
#[derive(Clone, Copy, Debug, PartialEq, Eq, Structural)]
pub enum SwapState {
    Open,
    Claimed,
    Refunded,
}

/// The view of an optional text.
pub open spec fn opt_text(o: Option<String>) -> Option<Seq<char>> {
    match o {
        Some(s) => Some(s@),
        None => None,
    }
}

/// Copies an optional text.
pub fn clone_opt_text(o: &Option<String>) -> (r: Option<String>)
    ensures
        opt_text(r) == opt_text(*o),
{
    match o {
        Some(s) => Some(s.clone()),
        None => None,
    }
}

/// An instruction to the ledger: pay `amount` to `to`.
#[derive(Debug)]
pub struct Transfer {
    pub to: String,
    pub amount: u128,
}

pub struct TransferView {
    pub to: Seq<char>,
    pub amount: u128,
}

impl View for Transfer {
    type V = TransferView;

    open spec fn view(&self) -> TransferView {
        TransferView { to: self.to@, amount: self.amount }
    }
}

/// A full-amount escrow: `amount` is locked by `sender` for `receiver` under
/// the textual commitment `hashlock` until `timelock`.
#[derive(Debug)]
pub struct HTLCSwap {
    pub sender: String,
    pub receiver: String,
    pub amount: u128,
    pub hashlock: String,
    pub timelock: u64,
    /// The revealed secret; present exactly when the escrow was claimed.
    pub secret: Option<String>,
    pub state: SwapState,
    /// The counterpart transaction on the foreign ledger, if known.
    pub eth_tx_hash: Option<String>,
}

pub struct HTLCSwapView {
    pub sender: Seq<char>,
    pub receiver: Seq<char>,
    pub amount: u128,
    pub hashlock: Seq<char>,
    pub timelock: u64,
    pub secret: Option<Seq<char>>,
    pub state: SwapState,
    pub eth_tx_hash: Option<Seq<char>>,
}

impl View for HTLCSwap {
    type V = HTLCSwapView;

    open spec fn view(&self) -> HTLCSwapView {
        HTLCSwapView {
            sender: self.sender@,
            receiver: self.receiver@,
            amount: self.amount,
            hashlock: self.hashlock@,
            timelock: self.timelock,
            secret: opt_text(self.secret),
            state: self.state,
            eth_tx_hash: opt_text(self.eth_tx_hash),
        }
    }
}

impl HTLCSwapView {
    /// Final: claimed or refunded.
    pub open spec fn is_completed(self) -> bool {
        self.state != SwapState::Open
    }

    pub open spec fn is_refunded(self) -> bool {
        self.state == SwapState::Refunded
    }

    /// What has been paid out to the receiver.
    pub open spec fn amount_claimed(self) -> u128 {
        if self.state == SwapState::Claimed {
            self.amount
        } else {
            0
        }
    }

    /// What has not been paid out to the receiver.
    pub open spec fn amount_remaining(self) -> u128 {
        if self.state == SwapState::Claimed {
            0
        } else {
            self.amount
        }
    }
}

impl Clone for HTLCSwap {
    fn clone(&self) -> (r: Self)
        ensures
            r@ == self@,
    {
        HTLCSwap {
            sender: self.sender.clone(),
            receiver: self.receiver.clone(),
            amount: self.amount,
            hashlock: self.hashlock.clone(),
            timelock: self.timelock,
            secret: clone_opt_text(&self.secret),
            state: self.state,
            eth_tx_hash: clone_opt_text(&self.eth_tx_hash),
        }
    }
}

impl HTLCSwap {
    /// Whether the escrow is final.
    pub fn is_completed(&self) -> (b: bool)
        ensures
            b == self@.is_completed(),
    {
        match self.state {
            SwapState::Open => false,
            _ => true,
        }
    }

    /// Whether the escrow went back to its sender.
    pub fn is_refunded(&self) -> (b: bool)
        ensures
            b == self@.is_refunded(),
    {
        match self.state {
            SwapState::Refunded => true,
            _ => false,
        }
    }

    /// What has been paid out to the receiver.
    pub fn amount_claimed(&self) -> (a: u128)
        ensures
            a == self@.amount_claimed(),
    {
        match self.state {
            SwapState::Claimed => self.amount,
            _ => 0,
        }
    }

    /// What has not been paid out to the receiver.
    pub fn amount_remaining(&self) -> (a: u128)
        ensures
            a == self@.amount_remaining(),
    {
        match self.state {
            SwapState::Claimed => 0,
            _ => self.amount,
        }
    }
}

/// A pending outbound request: `amount` is locked by `near_sender` until a
/// relayer settles it with the secret, or the deadline passes.
#[derive(Debug)]
pub struct EthSwapRequest {
    pub swap_id: String,
    pub near_sender: String,
    /// The recipient's address on the foreign ledger.
    pub eth_recipient: String,
    pub amount: u128,
    /// The token on the foreign ledger.
    pub eth_token: String,
    pub hashlock: String,
    pub timelock: u64,
    /// Parameters handed through to the relayer unread.
    pub fusion_order_params: String,
}

pub struct EthSwapRequestView {
    pub swap_id: Seq<char>,
    pub near_sender: Seq<char>,
    pub eth_recipient: Seq<char>,
    pub amount: u128,
    pub eth_token: Seq<char>,
    pub hashlock: Seq<char>,
    pub timelock: u64,
    pub fusion_order_params: Seq<char>,
}

impl View for EthSwapRequest {
    type V = EthSwapRequestView;

    open spec fn view(&self) -> EthSwapRequestView {
        EthSwapRequestView {
            swap_id: self.swap_id@,
            near_sender: self.near_sender@,
            eth_recipient: self.eth_recipient@,
            amount: self.amount,
            eth_token: self.eth_token@,
            hashlock: self.hashlock@,
            timelock: self.timelock,
            fusion_order_params: self.fusion_order_params@,
        }
    }
}

impl Clone for EthSwapRequest {
    fn clone(&self) -> (r: Self)
        ensures
            r@ == self@,
    {
        EthSwapRequest {
            swap_id: self.swap_id.clone(),
            near_sender: self.near_sender.clone(),
            eth_recipient: self.eth_recipient.clone(),
            amount: self.amount,
            eth_token: self.eth_token.clone(),
            hashlock: self.hashlock.clone(),
            timelock: self.timelock,
            fusion_order_params: self.fusion_order_params.clone(),
        }
    }
}

/// Reported when an escrow is created.
#[derive(Debug)]
pub struct SwapInitiatedEvent {
    pub swap_id: String,
    pub sender: String,
    pub receiver: String,
    pub amount: u128,
    pub hashlock: String,
    pub timelock: u64,
    pub eth_tx_hash: Option<String>,
}

/// Reported when an escrow is claimed. The ledger owes `amount` to `claimer`.
#[derive(Debug)]
pub struct SwapClaimedEvent {
    pub swap_id: String,
    pub claimer: String,
    pub secret: String,
    pub amount: u128,
    pub amount_remaining: u128,
    pub is_completed: bool,
}

/// Reported when an escrow is refunded. The ledger owes `amount` to `refunder`.
#[derive(Debug)]
pub struct SwapRefundedEvent {
    pub swap_id: String,
    pub refunder: String,
    pub amount: u128,
}

/// Reported when an outbound request is created, with what a relayer needs
/// to build the matching order on the foreign ledger.
#[derive(Debug)]
pub struct EthSwapRequestedEvent {
    pub swap_id: String,
    pub near_sender: String,
    pub eth_recipient: String,
    pub amount: u128,
    pub hashlock: String,
    pub timelock: u64,
    pub eth_token: String,
}

impl SwapClaimedEvent {
    /// The transfer that the claim asks of the ledger.
    pub fn payout(&self) -> (t: Transfer)
        ensures
            t@ == (TransferView { to: self.claimer@, amount: self.amount }),
    {
        Transfer { to: self.claimer.clone(), amount: self.amount }
    }
}

impl SwapRefundedEvent {
    /// The transfer that the refund asks of the ledger.
    pub fn payout(&self) -> (t: Transfer)
        ensures
            t@ == (TransferView { to: self.refunder@, amount: self.amount }),
    {
        Transfer { to: self.refunder.clone(), amount: self.amount }
    }
}

/// What a query reports about an escrow at a given time. Every field is
/// computed from the stored record when the query is made.
#[derive(Debug)]
pub struct SwapStatus {
    pub swap_id: String,
    pub is_completed: bool,
    pub is_refunded: bool,
    pub amount_total: u128,
    pub amount_remaining: u128,
    pub amount_claimed: u128,
    pub timelock: u64,
    pub current_time: u64,
    /// The deadline has been reached.
    pub is_expired: bool,
    /// The number of claims paid out: one after a claim, else none.
    pub claimers_count: u64,
    pub secret_revealed: bool,
}

} // verus!
