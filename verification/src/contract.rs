//! The records of the engine that keeps binary commitments: plain and
//! cross-chain escrows, orders that are filled in parts, and their fills.

use vstd::prelude::*;
use crate::swap::{clone_opt_text, opt_text, SwapState};

verus! {

/// Copies a byte string.
pub fn clone_bytes(b: &Vec<u8>) -> (r: Vec<u8>)
    ensures
        r@ == b@,
{
    let n = b.len();
    let mut r: Vec<u8> = Vec::new();
    let mut i: usize = 0;
    while i < n
        invariant
            n == b@.len(),
            i <= n,
            r@ == b@.take(i as int),
        decreases n - i,
    {
        r.push(b[i]);
        assert(b@.take(i + 1) =~= b@.take(i as int).push(b@[i as int]));
        i = i + 1;
    }
    assert(b@.take(n as int) =~= b@);
    r
}

/// An escrow under a binary commitment.
#[derive(Debug)]
pub struct HTLCContract {
    pub sender: String,
    pub receiver: String,
    pub amount: u128,
    /// The 32 bytes of the SHA-256 digest of the secret.
    pub hashlock: Vec<u8>,
    pub timelock: u64,
    pub state: SwapState,
    /// The counterparty's address on the foreign ledger.
    pub eth_address: String,
}

pub struct HTLCContractView {
    pub sender: Seq<char>,
    pub receiver: Seq<char>,
    pub amount: u128,
    pub hashlock: Seq<u8>,
    pub timelock: u64,
    pub state: SwapState,
    pub eth_address: Seq<char>,
}

impl View for HTLCContract {
    type V = HTLCContractView;

    open spec fn view(&self) -> HTLCContractView {
        HTLCContractView {
            sender: self.sender@,
            receiver: self.receiver@,
            amount: self.amount,
            hashlock: self.hashlock@,
            timelock: self.timelock,
            state: self.state,
            eth_address: self.eth_address@,
        }
    }
}

impl Clone for HTLCContract {
    fn clone(&self) -> (r: Self)
        ensures
            r@ == self@,
    {
        HTLCContract {
            sender: self.sender.clone(),
            receiver: self.receiver.clone(),
            amount: self.amount,
            hashlock: clone_bytes(&self.hashlock),
            timelock: self.timelock,
            state: self.state,
            eth_address: self.eth_address.clone(),
        }
    }
}

impl HTLCContract {
    /// A copy of the escrow in another state.
    pub fn with_state(&self, state: SwapState) -> (r: Self)
        ensures
            r@ == (HTLCContractView { state, ..self@ }),
    {
        HTLCContract {
            sender: self.sender.clone(),
            receiver: self.receiver.clone(),
            amount: self.amount,
            hashlock: clone_bytes(&self.hashlock),
            timelock: self.timelock,
            state,
            eth_address: self.eth_address.clone(),
        }
    }

    /// Whether the escrow was paid out to its receiver.
    pub fn withdrawn(&self) -> (b: bool)
        ensures
            b == (self@.state == SwapState::Claimed),
    {
        match self.state {
            SwapState::Claimed => true,
            _ => false,
        }
    }

    /// Whether the escrow went back to its sender.
    pub fn refunded(&self) -> (b: bool)
        ensures
            b == (self@.state == SwapState::Refunded),
    {
        match self.state {
            SwapState::Refunded => true,
            _ => false,
        }
    }
}

/// An escrow under a binary commitment that records the counterpart
/// transaction on the foreign ledger when it is completed.
#[derive(Debug)]
pub struct CrossChainHTLC {
    pub sender: String,
    pub receiver: String,
    pub amount: u128,
    pub hashlock: Vec<u8>,
    pub timelock: u64,
    pub state: SwapState,
    pub eth_address: String,
    /// The counterpart transaction; present exactly when completed.
    pub eth_tx_hash: Option<String>,
}

pub struct CrossChainHTLCView {
    pub sender: Seq<char>,
    pub receiver: Seq<char>,
    pub amount: u128,
    pub hashlock: Seq<u8>,
    pub timelock: u64,
    pub state: SwapState,
    pub eth_address: Seq<char>,
    pub eth_tx_hash: Option<Seq<char>>,
}

impl View for CrossChainHTLC {
    type V = CrossChainHTLCView;

    open spec fn view(&self) -> CrossChainHTLCView {
        CrossChainHTLCView {
            sender: self.sender@,
            receiver: self.receiver@,
            amount: self.amount,
            hashlock: self.hashlock@,
            timelock: self.timelock,
            state: self.state,
            eth_address: self.eth_address@,
            eth_tx_hash: opt_text(self.eth_tx_hash),
        }
    }
}

impl Clone for CrossChainHTLC {
    fn clone(&self) -> (r: Self)
        ensures
            r@ == self@,
    {
        CrossChainHTLC {
            sender: self.sender.clone(),
            receiver: self.receiver.clone(),
            amount: self.amount,
            hashlock: clone_bytes(&self.hashlock),
            timelock: self.timelock,
            state: self.state,
            eth_address: self.eth_address.clone(),
            eth_tx_hash: clone_opt_text(&self.eth_tx_hash),
        }
    }
}

impl CrossChainHTLC {
    /// A copy of the escrow in another state, with the counterpart
    /// transaction given.
    pub fn settled(&self, state: SwapState, eth_tx_hash: Option<String>) -> (r: Self)
        ensures
            r@ == (CrossChainHTLCView { state, eth_tx_hash: opt_text(eth_tx_hash), ..self@ }),
    {
        CrossChainHTLC {
            sender: self.sender.clone(),
            receiver: self.receiver.clone(),
            amount: self.amount,
            hashlock: clone_bytes(&self.hashlock),
            timelock: self.timelock,
            state,
            eth_address: self.eth_address.clone(),
            eth_tx_hash,
        }
    }

    /// Whether the escrow was paid out to its receiver.
    pub fn withdrawn(&self) -> (b: bool)
        ensures
            b == (self@.state == SwapState::Claimed),
    {
        match self.state {
            SwapState::Claimed => true,
            _ => false,
        }
    }

    /// Whether the escrow went back to its sender.
    pub fn refunded(&self) -> (b: bool)
        ensures
            b == (self@.state == SwapState::Refunded),
    {
        match self.state {
            SwapState::Refunded => true,
            _ => false,
        }
    }
}

/// The life of a fill: open until it is completed or refunded, then final.
#[derive(Clone, Copy, Debug, PartialEq, Eq, Structural)]
pub enum FillState {
    Open,
    Completed,
    Refunded,
}

/// One part of an order, locked under its own commitment. The receiver and
/// the deadline are those that the order had when the fill was created.
#[derive(Debug)]
pub struct PartialFill {
    pub fill_id: String,
    pub parent_swap_id: String,
    pub sender: String,
    pub receiver: String,
    pub fill_amount: u128,
    pub hashlock: Vec<u8>,
    pub timelock: u64,
    pub state: FillState,
    pub eth_address: String,
    /// The counterpart transaction; present exactly when completed.
    pub eth_tx_hash: Option<String>,
    pub created_at: u64,
}

pub struct PartialFillView {
    pub fill_id: Seq<char>,
    pub parent_swap_id: Seq<char>,
    pub sender: Seq<char>,
    pub receiver: Seq<char>,
    pub fill_amount: u128,
    pub hashlock: Seq<u8>,
    pub timelock: u64,
    pub state: FillState,
    pub eth_address: Seq<char>,
    pub eth_tx_hash: Option<Seq<char>>,
    pub created_at: u64,
}

impl View for PartialFill {
    type V = PartialFillView;

    open spec fn view(&self) -> PartialFillView {
        PartialFillView {
            fill_id: self.fill_id@,
            parent_swap_id: self.parent_swap_id@,
            sender: self.sender@,
            receiver: self.receiver@,
            fill_amount: self.fill_amount,
            hashlock: self.hashlock@,
            timelock: self.timelock,
            state: self.state,
            eth_address: self.eth_address@,
            eth_tx_hash: opt_text(self.eth_tx_hash),
            created_at: self.created_at,
        }
    }
}

impl Clone for PartialFill {
    fn clone(&self) -> (r: Self)
        ensures
            r@ == self@,
    {
        PartialFill {
            fill_id: self.fill_id.clone(),
            parent_swap_id: self.parent_swap_id.clone(),
            sender: self.sender.clone(),
            receiver: self.receiver.clone(),
            fill_amount: self.fill_amount,
            hashlock: clone_bytes(&self.hashlock),
            timelock: self.timelock,
            state: self.state,
            eth_address: self.eth_address.clone(),
            eth_tx_hash: clone_opt_text(&self.eth_tx_hash),
            created_at: self.created_at,
        }
    }
}

impl PartialFill {
    /// A copy of the fill in another state, with the counterpart transaction
    /// given.
    pub fn settled(&self, state: FillState, eth_tx_hash: Option<String>) -> (r: Self)
        ensures
            r@ == (PartialFillView { state, eth_tx_hash: opt_text(eth_tx_hash), ..self@ }),
    {
        PartialFill {
            fill_id: self.fill_id.clone(),
            parent_swap_id: self.parent_swap_id.clone(),
            sender: self.sender.clone(),
            receiver: self.receiver.clone(),
            fill_amount: self.fill_amount,
            hashlock: clone_bytes(&self.hashlock),
            timelock: self.timelock,
            state,
            eth_address: self.eth_address.clone(),
            eth_tx_hash,
            created_at: self.created_at,
        }
    }

    /// Whether the fill was paid out to its receiver.
    pub fn completed(&self) -> (b: bool)
        ensures
            b == (self@.state == FillState::Completed),
    {
        match self.state {
            FillState::Completed => true,
            _ => false,
        }
    }

    /// Whether the fill went back to its sender.
    pub fn refunded(&self) -> (b: bool)
        ensures
            b == (self@.state == FillState::Refunded),
    {
        match self.state {
            FillState::Refunded => true,
            _ => false,
        }
    }
}

/// An order that is filled in parts. `filled_amount` is what its fills that
/// were not refunded lock, `remaining_amount` what can still be filled.
#[derive(Debug)]
pub struct PartialFillSwap {
    pub swap_id: String,
    pub sender: String,
    pub receiver: String,
    pub total_amount: u128,
    pub filled_amount: u128,
    pub remaining_amount: u128,
    pub eth_address: String,
    pub timelock: u64,
    /// Nothing remains to be filled.
    pub completed: bool,
    pub created_at: u64,
    /// The number of fills ever created against the order.
    pub fill_count: u64,
}

pub struct PartialFillSwapView {
    pub swap_id: Seq<char>,
    pub sender: Seq<char>,
    pub receiver: Seq<char>,
    pub total_amount: u128,
    pub filled_amount: u128,
    pub remaining_amount: u128,
    pub eth_address: Seq<char>,
    pub timelock: u64,
    pub completed: bool,
    pub created_at: u64,
    pub fill_count: u64,
}

impl View for PartialFillSwap {
    type V = PartialFillSwapView;

    open spec fn view(&self) -> PartialFillSwapView {
        PartialFillSwapView {
            swap_id: self.swap_id@,
            sender: self.sender@,
            receiver: self.receiver@,
            total_amount: self.total_amount,
            filled_amount: self.filled_amount,
            remaining_amount: self.remaining_amount,
            eth_address: self.eth_address@,
            timelock: self.timelock,
            completed: self.completed,
            created_at: self.created_at,
            fill_count: self.fill_count,
        }
    }
}

impl PartialFillSwapView {
    /// The accounts of an order balance: what is filled and what remains
    /// make up the total, and the order is complete exactly when nothing
    /// remains.
    pub open spec fn balanced(self) -> bool {
        &&& self.filled_amount + self.remaining_amount == self.total_amount
        &&& self.completed <==> self.remaining_amount == 0
    }
}

impl PartialFillSwap {
    /// A copy of the order with other accounts.
    pub fn with_accounts(
        &self,
        filled_amount: u128,
        remaining_amount: u128,
        completed: bool,
        fill_count: u64,
    ) -> (r: Self)
        ensures
            r@ == (PartialFillSwapView {
                filled_amount,
                remaining_amount,
                completed,
                fill_count,
                ..self@
            }),
    {
        PartialFillSwap {
            swap_id: self.swap_id.clone(),
            sender: self.sender.clone(),
            receiver: self.receiver.clone(),
            total_amount: self.total_amount,
            filled_amount,
            remaining_amount,
            eth_address: self.eth_address.clone(),
            timelock: self.timelock,
            completed,
            created_at: self.created_at,
            fill_count,
        }
    }
}

impl Clone for PartialFillSwap {
    fn clone(&self) -> (r: Self)
        ensures
            r@ == self@,
    {
        PartialFillSwap {
            swap_id: self.swap_id.clone(),
            sender: self.sender.clone(),
            receiver: self.receiver.clone(),
            total_amount: self.total_amount,
            filled_amount: self.filled_amount,
            remaining_amount: self.remaining_amount,
            eth_address: self.eth_address.clone(),
            timelock: self.timelock,
            completed: self.completed,
            created_at: self.created_at,
            fill_count: self.fill_count,
        }
    }
}

/// How far an order has been filled.
#[derive(Clone, Copy, Debug, PartialEq, Eq, Structural)]
pub struct SwapProgress {
    pub total_amount: u128,
    pub filled_amount: u128,
    pub remaining_amount: u128,
    pub fill_count: u64,
    pub completed: bool,
    /// The filled part of the total in whole percent, rounded down.
    pub fill_percentage: u32,
}

/// The filled part of `total` in whole percent, rounded down; `0` when the
/// total is `0`.
pub open spec fn fill_percentage(filled: u128, total: u128) -> int {
    if total == 0 {
        0
    } else {
        (filled * 100) / (total as int)
    }
}

} // verus!
