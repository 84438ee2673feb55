//! The engine that keeps binary commitments: plain escrows, cross-chain
//! escrows, and orders that are filled in parts, with the owner's list of
//! authorized resolvers.
//!
//! As in the escrow store, every operation is described by a specification
//! function that names the first validation that fails and one that gives
//! the state after success. A refused operation changes nothing.

use vstd::prelude::*;
use crate::contract::{
    fill_percentage,
    CrossChainHTLC,
    CrossChainHTLCView,
    FillState,
    HTLCContract,
    HTLCContractView,
    PartialFill,
    PartialFillSwap,
    PartialFillSwapView,
    PartialFillView,
    SwapProgress,
};
use crate::error::HtlcError;
use crate::fills::{
    created_count,
    lemma_accounts_after_push,
    lemma_accounts_after_update,
    lemma_locked_sum_grows,
    locked_sum,
    percent_filled,
};
use crate::hashing::{hex_encode, hex_text, preimage_matches, sha256_digest};
use crate::ids::{contract_id, generate_contract_id, generate_order_id, order_id};
use crate::fusion::marks_for;
use crate::store::{key_views, value_views, Table, TableView};
use crate::swap::{
    clone_opt_text,
    SwapClaimedEvent,
    SwapInitiatedEvent,
    SwapRefundedEvent,
    SwapState,
    Transfer,
    TransferView,
};

verus! {

/// What holds of the order at position `i` of the book: it is stored under
/// its own identifier and balances, what it counts as filled is what its
/// fills that were not refunded lock, and its count is the number of fills
/// ever created against it.
pub open spec fn order_ok(
    orders: TableView<PartialFillSwapView>,
    fills: TableView<PartialFillView>,
    i: int,
) -> bool {
    let o = orders.vals[i];
    let id = orders.keys[i];
    &&& o.swap_id == id
    &&& o.total_amount > 0
    &&& o.balanced()
    &&& o.filled_amount == locked_sum(fills.vals, id, fills.vals.len() as int)
    &&& o.fill_count == created_count(fills.vals, id, fills.vals.len() as int)
}

/// What holds of the fill at position `j` of the book: it is stored under
/// its own identifier, is positive, has a commitment of 32 bytes and belongs
/// to an order of the book.
pub open spec fn fill_ok(
    orders: TableView<PartialFillSwapView>,
    fills: TableView<PartialFillView>,
    j: int,
) -> bool {
    let f = fills.vals[j];
    &&& f.fill_id == fills.keys[j]
    &&& f.fill_amount > 0
    &&& f.hashlock.len() == 32
    &&& orders.contains(f.parent_swap_id)
}

/// The invariant of the order book.
pub open spec fn book_wf(
    orders: TableView<PartialFillSwapView>,
    fills: TableView<PartialFillView>,
) -> bool {
    &&& forall|i: int| 0 <= i < orders.keys.len() ==> #[trigger] order_ok(orders, fills, i)
    &&& forall|j: int| 0 <= j < fills.keys.len() ==> #[trigger] fill_ok(orders, fills, j)
}

/// The model of the engine.
pub struct NearView {
    /// The plain escrows, by identifier.
    pub contracts: TableView<HTLCContractView>,
    /// The cross-chain escrows, by identifier.
    pub cross_chain_contracts: TableView<CrossChainHTLCView>,
    /// The orders, by identifier.
    pub partial_fill_swaps: TableView<PartialFillSwapView>,
    /// The fills of all orders, by identifier, in the order of their creation.
    pub partial_fills: TableView<PartialFillView>,
    /// The owner named at construction; it never changes.
    pub owner: Seq<char>,
    /// The accounts that the owner has ruled on, each with the ruling.
    pub authorized_resolvers: TableView<bool>,
    /// The identifiers whose payout has been started and not finished.
    pub claims_in_progress: TableView<bool>,
}

impl NearView {
    /// The invariant of the engine.
    pub open spec fn wf(self) -> bool {
        &&& self.contracts.wf()
        &&& self.cross_chain_contracts.wf()
        &&& self.partial_fill_swaps.wf()
        &&& self.partial_fills.wf()
        &&& self.authorized_resolvers.wf()
        &&& self.claims_in_progress.wf()
        &&& forall|i: int|
            0 <= i < self.claims_in_progress.vals.len() ==> #[trigger] self.claims_in_progress.vals[i]
        &&& forall|i: int|
            0 <= i < self.contracts.vals.len() ==> (#[trigger] self.contracts.vals[i]).amount > 0
                && self.contracts.vals[i].hashlock.len() == 32
        &&& forall|i: int|
            0 <= i < self.cross_chain_contracts.vals.len() ==> (
            #[trigger] self.cross_chain_contracts.vals[i]).amount > 0
                && self.cross_chain_contracts.vals[i].hashlock.len() == 32
        &&& book_wf(self.partial_fill_swaps, self.partial_fills)
    }

    /// Whether a payout for `id` has been started and not finished.
    pub open spec fn claiming(self, id: Seq<char>) -> bool {
        self.claims_in_progress.contains(id)
    }

    /// Whether the owner has authorized `resolver`.
    pub open spec fn authorized(self, resolver: Seq<char>) -> bool {
        self.authorized_resolvers.get(resolver) == Some(true)
    }

    /// The engine after the owner has ruled on `resolver`.
    pub open spec fn authorize_apply(self, resolver: Seq<char>, enabled: bool) -> NearView {
        NearView {
            authorized_resolvers: if self.authorized_resolvers.contains(resolver) {
                self.authorized_resolvers.update(resolver, enabled)
            } else {
                self.authorized_resolvers.insert(resolver, enabled)
            },
            ..self
        }
    }

    /// The refusal that everyone but the owner meets.
    pub open spec fn owner_check(self, caller: Seq<char>) -> Option<HtlcError> {
        if caller != self.owner {
            Some(HtlcError::Unauthorized)
        } else {
            None
        }
    }

    // ----- plain escrows -----

    /// The first reason for which creating a plain escrow is refused, if any.
    pub open spec fn create_htlc_check(
        self,
        sender: Seq<char>,
        receiver: Seq<char>,
        amount: u128,
        hashlock: Seq<u8>,
        timelock: u64,
        now: u64,
    ) -> Option<HtlcError> {
        if amount == 0 {
            Some(HtlcError::InvalidAmount)
        } else if timelock <= now {
            Some(HtlcError::Expired)
        } else if hashlock.len() != 32 {
            Some(HtlcError::InvalidCommitment)
        } else if self.contracts.contains(contract_id(""@, sender, receiver, amount, now)) {
            Some(HtlcError::Conflict)
        } else {
            None
        }
    }

    /// The engine after a plain escrow has been stored under `id`.
    pub open spec fn create_htlc_apply(self, id: Seq<char>, c: HTLCContractView) -> NearView {
        NearView { contracts: self.contracts.insert(id, c), ..self }
    }

    /// The first reason for which withdrawing a plain escrow is refused, if
    /// any.
    pub open spec fn withdraw_check(
        self,
        id: Seq<char>,
        preimage: Seq<u8>,
        caller: Seq<char>,
        now: u64,
    ) -> Option<HtlcError> {
        match self.contracts.get(id) {
            None => Some(HtlcError::NotFound),
            Some(c) => if c.state != SwapState::Open {
                Some(HtlcError::AlreadyFinalized)
            } else if now >= c.timelock {
                Some(HtlcError::Expired)
            } else if sha256_digest(preimage) != c.hashlock {
                Some(HtlcError::InvalidSecret)
            } else if caller != c.receiver {
                Some(HtlcError::Unauthorized)
            } else if self.claiming(id) {
                Some(HtlcError::ConcurrentClaim)
            } else {
                None
            },
        }
    }

    /// The first reason for which refunding a plain escrow is refused, if any.
    pub open spec fn refund_check(self, id: Seq<char>, caller: Seq<char>, now: u64) -> Option<
        HtlcError,
    > {
        match self.contracts.get(id) {
            None => Some(HtlcError::NotFound),
            Some(c) => if c.state != SwapState::Open {
                Some(HtlcError::AlreadyFinalized)
            } else if now < c.timelock {
                Some(HtlcError::NotYetExpired)
            } else if caller != c.sender {
                Some(HtlcError::Unauthorized)
            } else {
                None
            },
        }
    }

    /// The engine after the plain escrow `id` has reached `state`.
    pub open spec fn settle_htlc(self, id: Seq<char>, state: SwapState) -> NearView {
        NearView {
            contracts: self.contracts.update(
                id,
                HTLCContractView { state, ..self.contracts.get(id)->0 },
            ),
            ..self
        }
    }

    // ----- cross-chain escrows -----

    /// The first reason for which creating a cross-chain escrow is refused,
    /// if any.
    pub open spec fn create_cross_chain_check(
        self,
        sender: Seq<char>,
        receiver: Seq<char>,
        amount: u128,
        hashlock: Seq<u8>,
        timelock: u64,
        eth_address: Seq<char>,
        now: u64,
    ) -> Option<HtlcError> {
        if amount == 0 {
            Some(HtlcError::InvalidAmount)
        } else if timelock <= now {
            Some(HtlcError::Expired)
        } else if hashlock.len() != 32 {
            Some(HtlcError::InvalidCommitment)
        } else if eth_address.len() == 0 {
            Some(HtlcError::InvalidForeignAddress)
        } else if self.cross_chain_contracts.contains(
            contract_id("cc-"@, sender, receiver, amount, now),
        ) {
            Some(HtlcError::Conflict)
        } else {
            None
        }
    }

    /// The engine after a cross-chain escrow has been stored under `id`.
    pub open spec fn create_cross_chain_apply(self, id: Seq<char>, c: CrossChainHTLCView) -> NearView {
        NearView { cross_chain_contracts: self.cross_chain_contracts.insert(id, c), ..self }
    }

    /// The first reason for which completing a cross-chain escrow is
    /// refused, if any.
    pub open spec fn complete_cross_chain_check(
        self,
        id: Seq<char>,
        preimage: Seq<u8>,
        caller: Seq<char>,
        now: u64,
    ) -> Option<HtlcError> {
        match self.cross_chain_contracts.get(id) {
            None => Some(HtlcError::NotFound),
            Some(c) => if c.state != SwapState::Open {
                Some(HtlcError::AlreadyFinalized)
            } else if now >= c.timelock {
                Some(HtlcError::Expired)
            } else if sha256_digest(preimage) != c.hashlock {
                Some(HtlcError::InvalidSecret)
            } else if caller != c.receiver {
                Some(HtlcError::Unauthorized)
            } else if self.claiming(id) {
                Some(HtlcError::ConcurrentClaim)
            } else {
                None
            },
        }
    }

    /// The first reason for which refunding a cross-chain escrow is refused,
    /// if any.
    pub open spec fn refund_cross_chain_check(
        self,
        id: Seq<char>,
        caller: Seq<char>,
        now: u64,
    ) -> Option<HtlcError> {
        match self.cross_chain_contracts.get(id) {
            None => Some(HtlcError::NotFound),
            Some(c) => if c.state != SwapState::Open {
                Some(HtlcError::AlreadyFinalized)
            } else if now < c.timelock {
                Some(HtlcError::NotYetExpired)
            } else if caller != c.sender {
                Some(HtlcError::Unauthorized)
            } else {
                None
            },
        }
    }

    /// The engine after the cross-chain escrow `id` has reached `state`,
    /// with the counterpart transaction given.
    pub open spec fn settle_cross_chain(
        self,
        id: Seq<char>,
        state: SwapState,
        eth_tx_hash: Option<Seq<char>>,
    ) -> NearView {
        NearView {
            cross_chain_contracts: self.cross_chain_contracts.update(
                id,
                CrossChainHTLCView { state, eth_tx_hash, ..self.cross_chain_contracts.get(id)->0 },
            ),
            ..self
        }
    }

    // ----- order book -----

    /// The first reason for which creating an order is refused, if any.
    pub open spec fn create_order_check(
        self,
        sender: Seq<char>,
        total_amount: u128,
        eth_address: Seq<char>,
        timelock: u64,
        now: u64,
    ) -> Option<HtlcError> {
        if total_amount == 0 {
            Some(HtlcError::InvalidAmount)
        } else if timelock <= now {
            Some(HtlcError::Expired)
        } else if eth_address.len() == 0 {
            Some(HtlcError::InvalidForeignAddress)
        } else if self.partial_fill_swaps.contains(order_id("pf-swap-"@, sender, total_amount, now)) {
            Some(HtlcError::Conflict)
        } else {
            None
        }
    }

    /// The order that a successful creation stores: nothing filled, all of
    /// it remaining, no fills.
    pub open spec fn new_order(
        sender: Seq<char>,
        receiver: Seq<char>,
        total_amount: u128,
        eth_address: Seq<char>,
        timelock: u64,
        now: u64,
    ) -> PartialFillSwapView {
        PartialFillSwapView {
            swap_id: order_id("pf-swap-"@, sender, total_amount, now),
            sender,
            receiver,
            total_amount,
            filled_amount: 0,
            remaining_amount: total_amount,
            eth_address,
            timelock,
            completed: false,
            created_at: now,
            fill_count: 0,
        }
    }

    /// The engine after the order `o` has been stored.
    pub open spec fn create_order_apply(self, o: PartialFillSwapView) -> NearView {
        NearView { partial_fill_swaps: self.partial_fill_swaps.insert(o.swap_id, o), ..self }
    }

    /// The first reason for which creating a fill is refused, if any.
    pub open spec fn create_fill_check(
        self,
        swap_id: Seq<char>,
        hashlock: Seq<u8>,
        fill_amount: u128,
        caller: Seq<char>,
        attached: u128,
        now: u64,
    ) -> Option<HtlcError> {
        match self.partial_fill_swaps.get(swap_id) {
            None => Some(HtlcError::NotFound),
            Some(o) => if o.completed {
                Some(HtlcError::AlreadyFinalized)
            } else if fill_amount == 0 || fill_amount > o.remaining_amount {
                Some(HtlcError::InvalidAmount)
            } else if attached != fill_amount {
                Some(HtlcError::InvalidAmount)
            } else if hashlock.len() != 32 {
                Some(HtlcError::InvalidCommitment)
            } else if caller != o.sender {
                Some(HtlcError::Unauthorized)
            } else if self.partial_fills.contains(order_id("fill-"@, swap_id, fill_amount, now)) {
                Some(HtlcError::Conflict)
            } else {
                None
            },
        }
    }

    /// The fill that a successful creation stores. It takes the receiver,
    /// the deadline and the foreign address that the order has at that time.
    pub open spec fn new_fill(
        self,
        swap_id: Seq<char>,
        hashlock: Seq<u8>,
        fill_amount: u128,
        caller: Seq<char>,
        now: u64,
    ) -> PartialFillView {
        let o = self.partial_fill_swaps.get(swap_id)->0;
        PartialFillView {
            fill_id: order_id("fill-"@, swap_id, fill_amount, now),
            parent_swap_id: swap_id,
            sender: caller,
            receiver: o.receiver,
            fill_amount,
            hashlock,
            timelock: o.timelock,
            state: FillState::Open,
            eth_address: o.eth_address,
            eth_tx_hash: None,
            created_at: now,
        }
    }

    /// The engine after a fill has been created: the fill is stored, and its
    /// amount moves from what remains of the order to what is filled. The
    /// order is complete exactly when nothing remains.
    pub open spec fn create_fill_apply(
        self,
        swap_id: Seq<char>,
        hashlock: Seq<u8>,
        fill_amount: u128,
        caller: Seq<char>,
        now: u64,
    ) -> NearView {
        let o = self.partial_fill_swaps.get(swap_id)->0;
        let f = self.new_fill(swap_id, hashlock, fill_amount, caller, now);
        NearView {
            partial_fills: self.partial_fills.insert(f.fill_id, f),
            partial_fill_swaps: self.partial_fill_swaps.update(
                swap_id,
                PartialFillSwapView {
                    filled_amount: (o.filled_amount + fill_amount) as u128,
                    remaining_amount: (o.remaining_amount - fill_amount) as u128,
                    completed: o.remaining_amount == fill_amount,
                    fill_count: (o.fill_count + 1) as u64,
                    ..o
                },
            ),
            ..self
        }
    }

    /// The first reason for which completing a fill is refused, if any.
    pub open spec fn complete_fill_check(
        self,
        fill_id: Seq<char>,
        preimage: Seq<u8>,
        caller: Seq<char>,
        now: u64,
    ) -> Option<HtlcError> {
        match self.partial_fills.get(fill_id) {
            None => Some(HtlcError::NotFound),
            Some(f) => if f.state != FillState::Open {
                Some(HtlcError::AlreadyFinalized)
            } else if now >= f.timelock {
                Some(HtlcError::Expired)
            } else if caller != f.receiver {
                Some(HtlcError::Unauthorized)
            } else if sha256_digest(preimage) != f.hashlock {
                Some(HtlcError::InvalidSecret)
            } else if self.claiming(fill_id) {
                Some(HtlcError::ConcurrentClaim)
            } else {
                None
            },
        }
    }

    /// The engine after a fill has been completed: the fill is completed and
    /// holds the counterpart transaction. The accounts of its order stay.
    pub open spec fn complete_fill_apply(self, fill_id: Seq<char>, eth_tx_hash: Seq<char>) -> NearView {
        NearView {
            partial_fills: self.partial_fills.update(
                fill_id,
                PartialFillView {
                    state: FillState::Completed,
                    eth_tx_hash: Some(eth_tx_hash),
                    ..self.partial_fills.get(fill_id)->0
                },
            ),
            ..self
        }
    }

    /// The first reason for which refunding a fill is refused, if any.
    pub open spec fn refund_fill_check(self, fill_id: Seq<char>, caller: Seq<char>, now: u64) -> Option<
        HtlcError,
    > {
        match self.partial_fills.get(fill_id) {
            None => Some(HtlcError::NotFound),
            Some(f) => if f.state != FillState::Open {
                Some(HtlcError::AlreadyFinalized)
            } else if now < f.timelock {
                Some(HtlcError::NotYetExpired)
            } else if caller != f.sender {
                Some(HtlcError::Unauthorized)
            } else {
                None
            },
        }
    }

    /// The engine after a fill has been refunded: the fill is refunded, and
    /// its amount moves back from what is filled of its order to what
    /// remains, which opens the order again.
    pub open spec fn refund_fill_apply(self, fill_id: Seq<char>) -> NearView {
        let f = self.partial_fills.get(fill_id)->0;
        let o = self.partial_fill_swaps.get(f.parent_swap_id)->0;
        NearView {
            partial_fills: self.partial_fills.update(
                fill_id,
                PartialFillView { state: FillState::Refunded, ..f },
            ),
            partial_fill_swaps: self.partial_fill_swaps.update(
                f.parent_swap_id,
                PartialFillSwapView {
                    filled_amount: (o.filled_amount - f.fill_amount) as u128,
                    remaining_amount: (o.remaining_amount + f.fill_amount) as u128,
                    completed: false,
                    ..o
                },
            ),
            ..self
        }
    }

    /// The positions among the first `n` fills, in the order of their
    /// creation, of those created against the order `swap_id`.
    pub open spec fn fill_positions(self, swap_id: Seq<char>, n: int) -> Seq<int> {
        self.partial_fills.positions_where(|f: PartialFillView| f.parent_swap_id == swap_id, n)
    }
}

/// The engine that holds escrows under binary commitments and the order book.
pub struct HTLCNear {
    contracts: Table<HTLCContract>,
    cross_chain_contracts: Table<CrossChainHTLC>,
    partial_fill_swaps: Table<PartialFillSwap>,
    partial_fills: Table<PartialFill>,
    owner: String,
    authorized_resolvers: Table<bool>,
    claims_in_progress: Table<bool>,
}

impl View for HTLCNear {
    type V = NearView;

    closed spec fn view(&self) -> NearView {
        NearView {
            contracts: self.contracts@,
            cross_chain_contracts: self.cross_chain_contracts@,
            partial_fill_swaps: self.partial_fill_swaps@,
            partial_fills: self.partial_fills@,
            owner: self.owner@,
            authorized_resolvers: self.authorized_resolvers@,
            claims_in_progress: self.claims_in_progress@,
        }
    }
}

impl HTLCNear {
    /// Creates an engine without records, owned by `owner`.
    pub fn new(owner: String) -> (e: Self)
        ensures
            e@.wf(),
            e@ == (NearView {
                contracts: TableView::empty(),
                cross_chain_contracts: TableView::empty(),
                partial_fill_swaps: TableView::empty(),
                partial_fills: TableView::empty(),
                owner: owner@,
                authorized_resolvers: TableView::empty(),
                claims_in_progress: TableView::empty(),
            }),
    {
        HTLCNear {
            contracts: Table::new(),
            cross_chain_contracts: Table::new(),
            partial_fill_swaps: Table::new(),
            partial_fills: Table::new(),
            owner,
            authorized_resolvers: Table::new(),
            claims_in_progress: Table::new(),
        }
    }

    // ----- administration -----

    /// The owner named at construction.
    pub fn get_owner(&self) -> (o: String)
        ensures
            o@ == self@.owner,
    {
        self.owner.clone()
    }

    /// Lets the owner rule on `resolver`: authorized when `enabled`, else
    /// not. Everyone else is refused.
    pub fn authorize_resolver(&mut self, caller: String, resolver: String, enabled: bool) -> (r: Result<
        (),
        HtlcError,
    >)
        requires
            old(self)@.wf(),
        ensures
            final(self)@.wf(),
            match r {
                Ok(_) => old(self)@.owner_check(caller@) is None && final(self)@ == old(
                    self,
                )@.authorize_apply(resolver@, enabled) && final(self)@.authorized(resolver@)
                    == enabled,
                Err(e) => old(self)@.owner_check(caller@) == Some(e) && final(self)@ == old(self)@,
            },
    {
        if !(caller == self.owner) {
            return Err(HtlcError::Unauthorized);
        }
        match self.authorized_resolvers.find(&resolver) {
            Some(i) => {
                proof {
                    self@.authorized_resolvers.lemma_position(i as int);
                    self@.authorized_resolvers.lemma_update_at(i as int, enabled);
                }
                self.authorized_resolvers.set_at(i, enabled);
            },
            None => {
                proof {
                    self@.authorized_resolvers.lemma_insert(resolver@, enabled);
                }
                self.authorized_resolvers.insert(resolver, enabled);
            },
        }
        Ok(())
    }

    /// Whether the owner has authorized `resolver`.
    pub fn is_authorized_resolver(&self, resolver: String) -> (b: bool)
        requires
            self@.wf(),
        ensures
            b == self@.authorized(resolver@),
    {
        match self.authorized_resolvers.get(&resolver) {
            Some(enabled) => *enabled,
            None => false,
        }
    }

    /// Admits the owner's request to pause; everyone else is refused.
    /// Nothing is changed: the host decides what a pause means.
    pub fn emergency_pause(&self, caller: String) -> (r: Result<(), HtlcError>)
        ensures
            match r {
                Ok(_) => self@.owner_check(caller@) is None,
                Err(e) => self@.owner_check(caller@) == Some(e),
            },
    {
        if caller == self.owner {
            Ok(())
        } else {
            Err(HtlcError::Unauthorized)
        }
    }

    /// Admits the owner's request to enable the order book; everyone else is
    /// refused. Nothing is changed: the order book is part of every engine.
    pub fn migrate_to_partial_fills(&self, caller: String) -> (r: Result<(), HtlcError>)
        ensures
            match r {
                Ok(_) => self@.owner_check(caller@) is None,
                Err(e) => self@.owner_check(caller@) == Some(e),
            },
    {
        if caller == self.owner {
            Ok(())
        } else {
            Err(HtlcError::Unauthorized)
        }
    }

    // ----- guard -----

    /// Whether a payout for `id` has been started and not finished.
    pub fn is_claiming_in_progress(&self, id: &String) -> (b: bool)
        requires
            self@.wf(),
        ensures
            b == self@.claiming(id@),
    {
        self.claims_in_progress.contains_key(id)
    }

    /// Records that a payout for `id` has been started.
    pub fn mark_claim_in_progress(&mut self, id: &String)
        requires
            old(self)@.wf(),
        ensures
            final(self)@.wf(),
            final(self)@.claiming(id@),
            final(self)@ == (NearView {
                claims_in_progress: if old(self)@.claiming(id@) {
                    old(self)@.claims_in_progress
                } else {
                    old(self)@.claims_in_progress.insert(id@, true)
                },
                ..old(self)@
            }),
    {
        if !self.claims_in_progress.contains_key(id) {
            proof {
                self@.claims_in_progress.lemma_insert(id@, true);
            }
            self.claims_in_progress.insert(id.clone(), true);
        }
    }

    /// Records that the payout for `id` has been finished.
    pub fn clear_claim_in_progress(&mut self, id: &String)
        requires
            old(self)@.wf(),
        ensures
            final(self)@.wf(),
            !final(self)@.claiming(id@),
            final(self)@ == (NearView {
                claims_in_progress: old(self)@.claims_in_progress.remove(id@),
                ..old(self)@
            }),
    {
        match self.claims_in_progress.find(id) {
            Some(i) => {
                proof {
                    self@.claims_in_progress.lemma_remove_at(i as int);
                }
                self.claims_in_progress.remove_at(i);
            },
            None => {},
        }
    }

    // ----- plain escrows -----

    /// Creates a plain escrow of `amount`, locked by `sender` for `receiver`
    /// under the binary commitment `hashlock` until `timelock`, and reports
    /// it; the report gives the commitment in hexadecimal. The amount must be
    /// positive, the deadline later than `now`, the commitment 32 bytes long
    /// and the derived identifier unused.
    pub fn create_htlc(
        &mut self,
        sender: String,
        receiver: String,
        amount: u128,
        hashlock: Vec<u8>,
        timelock: u64,
        eth_address: String,
        now: u64,
    ) -> (r: Result<SwapInitiatedEvent, HtlcError>)
        requires
            old(self)@.wf(),
        ensures
            final(self)@.wf(),
            match r {
                Ok(ev) => {
                    &&& old(self)@.create_htlc_check(
                        sender@,
                        receiver@,
                        amount,
                        hashlock@,
                        timelock,
                        now,
                    ) is None
                    &&& ev.swap_id@ == contract_id(""@, sender@, receiver@, amount, now)
                    &&& ev.sender@ == sender@
                    &&& ev.receiver@ == receiver@
                    &&& ev.amount == amount
                    &&& ev.hashlock@ == hex_text(hashlock@)
                    &&& ev.timelock == timelock
                    &&& ev.eth_tx_hash is None
                    &&& final(self)@ == old(self)@.create_htlc_apply(
                        ev.swap_id@,
                        HTLCContractView {
                            sender: sender@,
                            receiver: receiver@,
                            amount,
                            hashlock: hashlock@,
                            timelock,
                            state: SwapState::Open,
                            eth_address: eth_address@,
                        },
                    )
                },
                Err(e) => {
                    &&& old(self)@.create_htlc_check(
                        sender@,
                        receiver@,
                        amount,
                        hashlock@,
                        timelock,
                        now,
                    ) == Some(e)
                    &&& final(self)@ == old(self)@
                },
            },
    {
        if amount == 0 {
            return Err(HtlcError::InvalidAmount);
        }
        if timelock <= now {
            return Err(HtlcError::Expired);
        }
        if hashlock.len() != 32 {
            return Err(HtlcError::InvalidCommitment);
        }
        let id = generate_contract_id("", sender.as_str(), receiver.as_str(), amount, now);
        if self.contracts.contains_key(&id) {
            return Err(HtlcError::Conflict);
        }
        let commitment = hex_encode(hashlock.as_slice());
        let contract = HTLCContract {
            sender: sender.clone(),
            receiver: receiver.clone(),
            amount,
            hashlock,
            timelock,
            state: SwapState::Open,
            eth_address,
        };
        self.contracts.insert(id.clone(), contract);
        Ok(
            SwapInitiatedEvent {
                swap_id: id,
                sender,
                receiver,
                amount,
                hashlock: commitment,
                timelock,
                eth_tx_hash: None,
            },
        )
    }

    /// Pays a plain escrow out to its receiver against the preimage of its
    /// commitment and reports the claim; the report gives the preimage in
    /// hexadecimal. The escrow must exist and be open, `now` must lie before
    /// the deadline, the preimage must hash to the commitment, the caller
    /// must be the receiver and no payout for the identifier may be in
    /// progress.
    pub fn withdraw(&mut self, contract_id: String, preimage: Vec<u8>, caller: String, now: u64) -> (r:
        Result<SwapClaimedEvent, HtlcError>)
        requires
            old(self)@.wf(),
        ensures
            final(self)@.wf(),
            match r {
                Ok(ev) => {
                    &&& old(self)@.withdraw_check(contract_id@, preimage@, caller@, now) is None
                    &&& final(self)@ == old(self)@.settle_htlc(contract_id@, SwapState::Claimed)
                    &&& ev.swap_id@ == contract_id@
                    &&& ev.claimer@ == caller@
                    &&& ev.secret@ == hex_text(preimage@)
                    &&& ev.amount == old(self)@.contracts.get(contract_id@)->0.amount
                    &&& ev.amount_remaining == 0
                    &&& ev.is_completed
                },
                Err(e) => {
                    &&& old(self)@.withdraw_check(contract_id@, preimage@, caller@, now) == Some(e)
                    &&& final(self)@ == old(self)@
                },
            },
    {
        let i = match self.contracts.find(&contract_id) {
            Some(i) => i,
            None => {
                return Err(HtlcError::NotFound);
            },
        };
        proof {
            self@.contracts.lemma_position(i as int);
        }
        let contract = self.contracts.value_at(i);
        match contract.state {
            SwapState::Open => {},
            _ => {
                return Err(HtlcError::AlreadyFinalized);
            },
        }
        if now >= contract.timelock {
            return Err(HtlcError::Expired);
        }
        if !preimage_matches(preimage.as_slice(), contract.hashlock.as_slice()) {
            return Err(HtlcError::InvalidSecret);
        }
        if !(caller == contract.receiver) {
            return Err(HtlcError::Unauthorized);
        }
        if self.is_claiming_in_progress(&contract_id) {
            return Err(HtlcError::ConcurrentClaim);
        }
        let amount = contract.amount;
        let secret = hex_encode(preimage.as_slice());
        let withdrawn = contract.with_state(SwapState::Claimed);
        self.mark_claim_in_progress(&contract_id);
        proof {
            self@.contracts.lemma_update_at(i as int, withdrawn@);
        }
        self.contracts.set_at(i, withdrawn);
        self.clear_claim_in_progress(&contract_id);
        proof {
            old(self)@.claims_in_progress.lemma_insert_then_remove(contract_id@, true);
        }
        Ok(
            SwapClaimedEvent {
                swap_id: contract_id,
                claimer: caller,
                secret,
                amount,
                amount_remaining: 0,
                is_completed: true,
            },
        )
    }

    /// Returns a plain escrow to its sender after the deadline. The escrow
    /// must exist and be open, `now` must have reached the deadline and the
    /// caller must be the sender.
    pub fn refund(&mut self, contract_id: String, caller: String, now: u64) -> (r: Result<
        SwapRefundedEvent,
        HtlcError,
    >)
        requires
            old(self)@.wf(),
        ensures
            final(self)@.wf(),
            match r {
                Ok(ev) => {
                    &&& old(self)@.refund_check(contract_id@, caller@, now) is None
                    &&& final(self)@ == old(self)@.settle_htlc(contract_id@, SwapState::Refunded)
                    &&& ev.swap_id@ == contract_id@
                    &&& ev.refunder@ == caller@
                    &&& ev.amount == old(self)@.contracts.get(contract_id@)->0.amount
                },
                Err(e) => {
                    &&& old(self)@.refund_check(contract_id@, caller@, now) == Some(e)
                    &&& final(self)@ == old(self)@
                },
            },
    {
        let i = match self.contracts.find(&contract_id) {
            Some(i) => i,
            None => {
                return Err(HtlcError::NotFound);
            },
        };
        proof {
            self@.contracts.lemma_position(i as int);
        }
        let contract = self.contracts.value_at(i);
        match contract.state {
            SwapState::Open => {},
            _ => {
                return Err(HtlcError::AlreadyFinalized);
            },
        }
        if now < contract.timelock {
            return Err(HtlcError::NotYetExpired);
        }
        if !(caller == contract.sender) {
            return Err(HtlcError::Unauthorized);
        }
        let amount = contract.amount;
        let refunded = contract.with_state(SwapState::Refunded);
        proof {
            self@.contracts.lemma_update_at(i as int, refunded@);
        }
        self.contracts.set_at(i, refunded);
        Ok(SwapRefundedEvent { swap_id: contract_id, refunder: caller, amount })
    }

    /// A copy of the plain escrow stored under `contract_id`, if there is one.
    pub fn get_contract(&self, contract_id: String) -> (r: Option<HTLCContract>)
        requires
            self@.wf(),
        ensures
            match r {
                Some(c) => self@.contracts.get(contract_id@) == Some(c@),
                None => self@.contracts.get(contract_id@) is None,
            },
    {
        match self.contracts.get(&contract_id) {
            Some(c) => Some(c.clone()),
            None => None,
        }
    }

    /// Whether `preimage` opens the commitment of the plain escrow
    /// `contract_id`; `false` when there is no such escrow.
    pub fn check_preimage(&self, contract_id: String, preimage: Vec<u8>) -> (ok: bool)
        requires
            self@.wf(),
        ensures
            ok == match self@.contracts.get(contract_id@) {
                Some(c) => sha256_digest(preimage@) == c.hashlock,
                None => false,
            },
    {
        match self.contracts.get(&contract_id) {
            Some(c) => preimage_matches(preimage.as_slice(), c.hashlock.as_slice()),
            None => false,
        }
    }

    /// The number of plain escrows ever created.
    pub fn get_contract_count(&self) -> (n: u64)
        ensures
            n == self@.contracts.keys.len(),
    {
        self.contracts.len() as u64
    }

    /// Copies of all plain escrows with their identifiers, in the order of
    /// their creation.
    pub fn get_all_contracts(&self) -> (r: Vec<(String, HTLCContract)>)
        requires
            self@.wf(),
        ensures
            r@.len() == self@.contracts.keys.len(),
            forall|k: int|
                0 <= k < r@.len() ==> (#[trigger] r@[k]).0@ == self@.contracts.keys[k] && r@[k].1@
                    == self@.contracts.vals[k],
    {
        let n = self.contracts.len();
        let mut out: Vec<(String, HTLCContract)> = Vec::new();
        let mut i: usize = 0;
        while i < n
            invariant
                self@.wf(),
                n == self@.contracts.keys.len(),
                i <= n,
                out@.len() == i,
                forall|k: int|
                    0 <= k < i ==> (#[trigger] out@[k]).0@ == self@.contracts.keys[k] && out@[k].1@
                        == self@.contracts.vals[k],
            decreases n - i,
        {
            let ghost listed = out@;
            let entry = (self.contracts.key_at(i).clone(), self.contracts.value_at(i).clone());
            out.push(entry);
            assert forall|k: int| 0 <= k < i + 1 implies (#[trigger] out@[k]).0@
                == self@.contracts.keys[k] && out@[k].1@ == self@.contracts.vals[k] by {
                if k < i {
                    assert(out@[k] == listed[k]);
                }
            }
            i = i + 1;
        }
        out
    }

    // ----- cross-chain escrows -----

    /// Creates a cross-chain escrow and reports it. The rules
    /// are those of a plain escrow, and the foreign address must not be empty.
    pub fn create_cross_chain_htlc(
        &mut self,
        sender: String,
        receiver: String,
        amount: u128,
        hashlock: Vec<u8>,
        timelock: u64,
        eth_address: String,
        now: u64,
    ) -> (r: Result<SwapInitiatedEvent, HtlcError>)
        requires
            old(self)@.wf(),
        ensures
            final(self)@.wf(),
            match r {
                Ok(ev) => {
                    &&& old(self)@.create_cross_chain_check(
                        sender@,
                        receiver@,
                        amount,
                        hashlock@,
                        timelock,
                        eth_address@,
                        now,
                    ) is None
                    &&& ev.swap_id@ == contract_id("cc-"@, sender@, receiver@, amount, now)
                    &&& ev.sender@ == sender@
                    &&& ev.receiver@ == receiver@
                    &&& ev.amount == amount
                    &&& ev.hashlock@ == hex_text(hashlock@)
                    &&& ev.timelock == timelock
                    &&& ev.eth_tx_hash is None
                    &&& final(self)@ == old(self)@.create_cross_chain_apply(
                        ev.swap_id@,
                        CrossChainHTLCView {
                            sender: sender@,
                            receiver: receiver@,
                            amount,
                            hashlock: hashlock@,
                            timelock,
                            state: SwapState::Open,
                            eth_address: eth_address@,
                            eth_tx_hash: None,
                        },
                    )
                },
                Err(e) => {
                    &&& old(self)@.create_cross_chain_check(
                        sender@,
                        receiver@,
                        amount,
                        hashlock@,
                        timelock,
                        eth_address@,
                        now,
                    ) == Some(e)
                    &&& final(self)@ == old(self)@
                },
            },
    {
        if amount == 0 {
            return Err(HtlcError::InvalidAmount);
        }
        if timelock <= now {
            return Err(HtlcError::Expired);
        }
        if hashlock.len() != 32 {
            return Err(HtlcError::InvalidCommitment);
        }
        if eth_address.as_str().is_empty() {
            return Err(HtlcError::InvalidForeignAddress);
        }
        let id = generate_contract_id("cc-", sender.as_str(), receiver.as_str(), amount, now);
        if self.cross_chain_contracts.contains_key(&id) {
            return Err(HtlcError::Conflict);
        }
        let commitment = hex_encode(hashlock.as_slice());
        let contract = CrossChainHTLC {
            sender: sender.clone(),
            receiver: receiver.clone(),
            amount,
            hashlock,
            timelock,
            state: SwapState::Open,
            eth_address,
            eth_tx_hash: None,
        };
        self.cross_chain_contracts.insert(id.clone(), contract);
        Ok(
            SwapInitiatedEvent {
                swap_id: id,
                sender,
                receiver,
                amount,
                hashlock: commitment,
                timelock,
                eth_tx_hash: None,
            },
        )
    }

    /// Pays a cross-chain escrow out to its receiver against the preimage
    /// and records the counterpart transaction. The rules are those of
    /// withdrawing a plain escrow.
    pub fn complete_cross_chain_swap(
        &mut self,
        contract_id: String,
        preimage: Vec<u8>,
        eth_tx_hash: String,
        caller: String,
        now: u64,
    ) -> (r: Result<SwapClaimedEvent, HtlcError>)
        requires
            old(self)@.wf(),
        ensures
            final(self)@.wf(),
            match r {
                Ok(ev) => {
                    &&& old(self)@.complete_cross_chain_check(
                        contract_id@,
                        preimage@,
                        caller@,
                        now,
                    ) is None
                    &&& final(self)@ == old(self)@.settle_cross_chain(
                        contract_id@,
                        SwapState::Claimed,
                        Some(eth_tx_hash@),
                    )
                    &&& ev.swap_id@ == contract_id@
                    &&& ev.claimer@ == caller@
                    &&& ev.secret@ == hex_text(preimage@)
                    &&& ev.amount == old(self)@.cross_chain_contracts.get(contract_id@)->0.amount
                    &&& ev.amount_remaining == 0
                    &&& ev.is_completed
                },
                Err(e) => {
                    &&& old(self)@.complete_cross_chain_check(
                        contract_id@,
                        preimage@,
                        caller@,
                        now,
                    ) == Some(e)
                    &&& final(self)@ == old(self)@
                },
            },
    {
        let i = match self.cross_chain_contracts.find(&contract_id) {
            Some(i) => i,
            None => {
                return Err(HtlcError::NotFound);
            },
        };
        proof {
            self@.cross_chain_contracts.lemma_position(i as int);
        }
        let contract = self.cross_chain_contracts.value_at(i);
        match contract.state {
            SwapState::Open => {},
            _ => {
                return Err(HtlcError::AlreadyFinalized);
            },
        }
        if now >= contract.timelock {
            return Err(HtlcError::Expired);
        }
        if !preimage_matches(preimage.as_slice(), contract.hashlock.as_slice()) {
            return Err(HtlcError::InvalidSecret);
        }
        if !(caller == contract.receiver) {
            return Err(HtlcError::Unauthorized);
        }
        if self.is_claiming_in_progress(&contract_id) {
            return Err(HtlcError::ConcurrentClaim);
        }
        let amount = contract.amount;
        let secret = hex_encode(preimage.as_slice());
        let completed = contract.settled(SwapState::Claimed, Some(eth_tx_hash));
        self.mark_claim_in_progress(&contract_id);
        proof {
            self@.cross_chain_contracts.lemma_update_at(i as int, completed@);
        }
        self.cross_chain_contracts.set_at(i, completed);
        self.clear_claim_in_progress(&contract_id);
        proof {
            old(self)@.claims_in_progress.lemma_insert_then_remove(contract_id@, true);
        }
        Ok(
            SwapClaimedEvent {
                swap_id: contract_id,
                claimer: caller,
                secret,
                amount,
                amount_remaining: 0,
                is_completed: true,
            },
        )
    }

    /// Returns a cross-chain escrow to its sender after the deadline. The
    /// rules are those of refunding a plain escrow.
    pub fn refund_cross_chain(&mut self, contract_id: String, caller: String, now: u64) -> (r: Result<
        SwapRefundedEvent,
        HtlcError,
    >)
        requires
            old(self)@.wf(),
        ensures
            final(self)@.wf(),
            match r {
                Ok(ev) => {
                    &&& old(self)@.refund_cross_chain_check(contract_id@, caller@, now) is None
                    &&& final(self)@ == old(self)@.settle_cross_chain(
                        contract_id@,
                        SwapState::Refunded,
                        old(self)@.cross_chain_contracts.get(contract_id@)->0.eth_tx_hash,
                    )
                    &&& ev.swap_id@ == contract_id@
                    &&& ev.refunder@ == caller@
                    &&& ev.amount == old(self)@.cross_chain_contracts.get(contract_id@)->0.amount
                },
                Err(e) => {
                    &&& old(self)@.refund_cross_chain_check(contract_id@, caller@, now) == Some(e)
                    &&& final(self)@ == old(self)@
                },
            },
    {
        let i = match self.cross_chain_contracts.find(&contract_id) {
            Some(i) => i,
            None => {
                return Err(HtlcError::NotFound);
            },
        };
        proof {
            self@.cross_chain_contracts.lemma_position(i as int);
        }
        let contract = self.cross_chain_contracts.value_at(i);
        match contract.state {
            SwapState::Open => {},
            _ => {
                return Err(HtlcError::AlreadyFinalized);
            },
        }
        if now < contract.timelock {
            return Err(HtlcError::NotYetExpired);
        }
        if !(caller == contract.sender) {
            return Err(HtlcError::Unauthorized);
        }
        let amount = contract.amount;
        let reference = clone_opt_text(&contract.eth_tx_hash);
        let refunded = contract.settled(SwapState::Refunded, reference);
        proof {
            self@.cross_chain_contracts.lemma_update_at(i as int, refunded@);
        }
        self.cross_chain_contracts.set_at(i, refunded);
        Ok(SwapRefundedEvent { swap_id: contract_id, refunder: caller, amount })
    }

    /// A copy of the cross-chain escrow stored under `contract_id`, if there
    /// is one.
    pub fn get_cross_chain_contract(&self, contract_id: String) -> (r: Option<CrossChainHTLC>)
        requires
            self@.wf(),
        ensures
            match r {
                Some(c) => self@.cross_chain_contracts.get(contract_id@) == Some(c@),
                None => self@.cross_chain_contracts.get(contract_id@) is None,
            },
    {
        match self.cross_chain_contracts.get(&contract_id) {
            Some(c) => Some(c.clone()),
            None => None,
        }
    }
}

impl HTLCNear {
    // ----- order book -----

    /// Creates an order of `total_amount` by `sender` for `receiver` and
    /// returns its identifier. Nothing is filled yet and all of it remains.
    /// The amount must be positive, the deadline later than `now`, the
    /// foreign address not empty and the derived identifier unused.
    pub fn create_partial_fill_swap(
        &mut self,
        sender: String,
        receiver: String,
        total_amount: u128,
        eth_address: String,
        timelock: u64,
        now: u64,
    ) -> (r: Result<String, HtlcError>)
        requires
            old(self)@.wf(),
        ensures
            final(self)@.wf(),
            match r {
                Ok(id) => {
                    &&& old(self)@.create_order_check(
                        sender@,
                        total_amount,
                        eth_address@,
                        timelock,
                        now,
                    ) is None
                    &&& id@ == order_id("pf-swap-"@, sender@, total_amount, now)
                    &&& final(self)@ == old(self)@.create_order_apply(
                        NearView::new_order(
                            sender@,
                            receiver@,
                            total_amount,
                            eth_address@,
                            timelock,
                            now,
                        ),
                    )
                },
                Err(e) => {
                    &&& old(self)@.create_order_check(
                        sender@,
                        total_amount,
                        eth_address@,
                        timelock,
                        now,
                    ) == Some(e)
                    &&& final(self)@ == old(self)@
                },
            },
    {
        if total_amount == 0 {
            return Err(HtlcError::InvalidAmount);
        }
        if timelock <= now {
            return Err(HtlcError::Expired);
        }
        if eth_address.as_str().is_empty() {
            return Err(HtlcError::InvalidForeignAddress);
        }
        let id = generate_order_id("pf-swap-", sender.as_str(), total_amount, now);
        if self.partial_fill_swaps.contains_key(&id) {
            return Err(HtlcError::Conflict);
        }
        let order = PartialFillSwap {
            swap_id: id.clone(),
            sender,
            receiver,
            total_amount,
            filled_amount: 0,
            remaining_amount: total_amount,
            eth_address,
            timelock,
            completed: false,
            created_at: now,
            fill_count: 0,
        };
        self.partial_fill_swaps.insert(id.clone(), order);
        proof {
            old(self)@.lemma_create_order_keeps_wf(
                sender@,
                receiver@,
                total_amount,
                eth_address@,
                timelock,
                now,
            );
        }
        Ok(id)
    }

    /// Creates a fill of `fill_amount` against the order `swap_id` under its
    /// own commitment and returns its identifier. The order must exist and
    /// not be complete, the amount must be positive, must not exceed what
    /// remains and must equal what was attached, the commitment must be 32
    /// bytes long, the caller must be the sender of the order and the
    /// derived identifier unused.
    pub fn create_partial_fill(
        &mut self,
        swap_id: String,
        hashlock: Vec<u8>,
        fill_amount: u128,
        caller: String,
        attached: u128,
        now: u64,
    ) -> (r: Result<String, HtlcError>)
        requires
            old(self)@.wf(),
        ensures
            final(self)@.wf(),
            match r {
                Ok(id) => {
                    &&& old(self)@.create_fill_check(
                        swap_id@,
                        hashlock@,
                        fill_amount,
                        caller@,
                        attached,
                        now,
                    ) is None
                    &&& id@ == order_id("fill-"@, swap_id@, fill_amount, now)
                    &&& final(self)@ == old(self)@.create_fill_apply(
                        swap_id@,
                        hashlock@,
                        fill_amount,
                        caller@,
                        now,
                    )
                },
                Err(e) => {
                    &&& old(self)@.create_fill_check(
                        swap_id@,
                        hashlock@,
                        fill_amount,
                        caller@,
                        attached,
                        now,
                    ) == Some(e)
                    &&& final(self)@ == old(self)@
                },
            },
    {
        let k = match self.partial_fill_swaps.find(&swap_id) {
            Some(k) => k,
            None => {
                return Err(HtlcError::NotFound);
            },
        };
        proof {
            self@.partial_fill_swaps.lemma_position(k as int);
            assert(order_ok(self@.partial_fill_swaps, self@.partial_fills, k as int));
        }
        let order = self.partial_fill_swaps.value_at(k);
        if order.completed {
            return Err(HtlcError::AlreadyFinalized);
        }
        if fill_amount == 0 || fill_amount > order.remaining_amount {
            return Err(HtlcError::InvalidAmount);
        }
        if attached != fill_amount {
            return Err(HtlcError::InvalidAmount);
        }
        if hashlock.len() != 32 {
            return Err(HtlcError::InvalidCommitment);
        }
        if !(caller == order.sender) {
            return Err(HtlcError::Unauthorized);
        }
        let id = generate_order_id("fill-", swap_id.as_str(), fill_amount, now);
        if self.partial_fills.contains_key(&id) {
            return Err(HtlcError::Conflict);
        }
        let fill = PartialFill {
            fill_id: id.clone(),
            parent_swap_id: swap_id,
            sender: caller,
            receiver: order.receiver.clone(),
            fill_amount,
            hashlock,
            timelock: order.timelock,
            state: FillState::Open,
            eth_address: order.eth_address.clone(),
            eth_tx_hash: None,
            created_at: now,
        };
        let ghost fv = fill@;
        proof {
            self@.partial_fills.lemma_insert(id@, fv);
            lemma_accounts_after_push(self@.partial_fills.vals, fv, swap_id@);
        }
        self.partial_fills.insert(id.clone(), fill);
        // The fills fit in memory, so their number fits the counter of the order.
        let stored = self.partial_fills.len();
        let order = self.partial_fill_swaps.value_at(k);
        let remaining = order.remaining_amount - fill_amount;
        let updated = order.with_accounts(
            order.filled_amount + fill_amount,
            remaining,
            remaining == 0,
            order.fill_count + 1,
        );
        proof {
            self@.partial_fill_swaps.lemma_update_at(k as int, updated@);
        }
        self.partial_fill_swaps.set_at(k, updated);
        proof {
            old(self)@.lemma_create_fill_keeps_wf(
                swap_id@,
                hashlock@,
                fill_amount,
                caller@,
                attached,
                now,
            );
        }
        Ok(id)
    }

    /// Pays a fill out to its receiver against the preimage of its
    /// commitment and records the counterpart transaction. The fill must
    /// exist and be open, `now` must lie before its deadline, the caller must
    /// be its receiver, the preimage must hash to its commitment and no
    /// payout for the identifier may be in progress. The accounts of the
    /// order are not touched.
    pub fn complete_partial_fill(
        &mut self,
        fill_id: String,
        preimage: Vec<u8>,
        eth_tx_hash: String,
        caller: String,
        now: u64,
    ) -> (r: Result<Transfer, HtlcError>)
        requires
            old(self)@.wf(),
        ensures
            final(self)@.wf(),
            match r {
                Ok(t) => {
                    &&& old(self)@.complete_fill_check(fill_id@, preimage@, caller@, now) is None
                    &&& final(self)@ == old(self)@.complete_fill_apply(fill_id@, eth_tx_hash@)
                    &&& t@ == (TransferView {
                        to: caller@,
                        amount: old(self)@.partial_fills.get(fill_id@)->0.fill_amount,
                    })
                },
                Err(e) => {
                    &&& old(self)@.complete_fill_check(fill_id@, preimage@, caller@, now) == Some(e)
                    &&& final(self)@ == old(self)@
                },
            },
    {
        let j = match self.partial_fills.find(&fill_id) {
            Some(j) => j,
            None => {
                return Err(HtlcError::NotFound);
            },
        };
        proof {
            self@.partial_fills.lemma_position(j as int);
            assert(fill_ok(self@.partial_fill_swaps, self@.partial_fills, j as int));
        }
        let fill = self.partial_fills.value_at(j);
        match fill.state {
            FillState::Open => {},
            _ => {
                return Err(HtlcError::AlreadyFinalized);
            },
        }
        if now >= fill.timelock {
            return Err(HtlcError::Expired);
        }
        if !(caller == fill.receiver) {
            return Err(HtlcError::Unauthorized);
        }
        if !preimage_matches(preimage.as_slice(), fill.hashlock.as_slice()) {
            return Err(HtlcError::InvalidSecret);
        }
        if self.is_claiming_in_progress(&fill_id) {
            return Err(HtlcError::ConcurrentClaim);
        }
        let amount = fill.fill_amount;
        let completed = fill.settled(FillState::Completed, Some(eth_tx_hash));
        let ghost cv = completed@;
        self.mark_claim_in_progress(&fill_id);
        proof {
            self@.partial_fills.lemma_update_at(j as int, cv);
            self@.lemma_complete_fill_keeps_wf(fill_id@, eth_tx_hash@);
        }
        self.partial_fills.set_at(j, completed);
        self.clear_claim_in_progress(&fill_id);
        proof {
            old(self)@.claims_in_progress.lemma_insert_then_remove(fill_id@, true);
        }
        Ok(Transfer { to: caller, amount })
    }

    /// Returns a fill to its sender after the deadline and gives its amount
    /// back to the order, which is open for new fills again. The fill must
    /// exist and be open, `now` must have reached its deadline and the caller
    /// must be its sender.
    pub fn refund_partial_fill(&mut self, fill_id: String, caller: String, now: u64) -> (r: Result<
        Transfer,
        HtlcError,
    >)
        requires
            old(self)@.wf(),
        ensures
            final(self)@.wf(),
            match r {
                Ok(t) => {
                    &&& old(self)@.refund_fill_check(fill_id@, caller@, now) is None
                    &&& final(self)@ == old(self)@.refund_fill_apply(fill_id@)
                    &&& t@ == (TransferView {
                        to: caller@,
                        amount: old(self)@.partial_fills.get(fill_id@)->0.fill_amount,
                    })
                },
                Err(e) => {
                    &&& old(self)@.refund_fill_check(fill_id@, caller@, now) == Some(e)
                    &&& final(self)@ == old(self)@
                },
            },
    {
        let j = match self.partial_fills.find(&fill_id) {
            Some(j) => j,
            None => {
                return Err(HtlcError::NotFound);
            },
        };
        proof {
            self@.partial_fills.lemma_position(j as int);
            assert(fill_ok(self@.partial_fill_swaps, self@.partial_fills, j as int));
        }
        let fill = self.partial_fills.value_at(j);
        match fill.state {
            FillState::Open => {},
            _ => {
                return Err(HtlcError::AlreadyFinalized);
            },
        }
        if now < fill.timelock {
            return Err(HtlcError::NotYetExpired);
        }
        if !(caller == fill.sender) {
            return Err(HtlcError::Unauthorized);
        }
        let amount = fill.fill_amount;
        let found = self.partial_fill_swaps.find(&fill.parent_swap_id);
        let k = found.unwrap();
        let refunded = fill.settled(FillState::Refunded, clone_opt_text(&fill.eth_tx_hash));
        let ghost rv = refunded@;
        let order = self.partial_fill_swaps.value_at(k);
        proof {
            self@.partial_fill_swaps.lemma_position(k as int);
            assert(order_ok(self@.partial_fill_swaps, self@.partial_fills, k as int));
            lemma_accounts_after_update(
                self@.partial_fills.vals,
                j as int,
                rv,
                self@.partial_fill_swaps.keys[k as int],
                self@.partial_fills.vals.len() as int,
            );
        }
        let reopened = order.with_accounts(
            order.filled_amount - amount,
            order.remaining_amount + amount,
            false,
            order.fill_count,
        );
        proof {
            self@.partial_fills.lemma_update_at(j as int, rv);
            self@.partial_fill_swaps.lemma_update_at(k as int, reopened@);
        }
        self.partial_fills.set_at(j, refunded);
        self.partial_fill_swaps.set_at(k, reopened);
        proof {
            old(self)@.lemma_refund_fill_keeps_wf(fill_id@, caller@, now);
        }
        Ok(Transfer { to: caller, amount })
    }

    /// A copy of the order stored under `swap_id`, if there is one. Its
    /// accounts balance.
    pub fn get_partial_fill_swap(&self, swap_id: String) -> (r: Option<PartialFillSwap>)
        requires
            self@.wf(),
        ensures
            match r {
                Some(o) => self@.partial_fill_swaps.get(swap_id@) == Some(o@) && o@.balanced(),
                None => self@.partial_fill_swaps.get(swap_id@) is None,
            },
    {
        match self.partial_fill_swaps.find(&swap_id) {
            Some(k) => {
                proof {
                    self@.partial_fill_swaps.lemma_position(k as int);
                    assert(order_ok(self@.partial_fill_swaps, self@.partial_fills, k as int));
                }
                Some(self.partial_fill_swaps.value_at(k).clone())
            },
            None => None,
        }
    }

    /// A copy of the fill stored under `fill_id`, if there is one.
    pub fn get_partial_fill(&self, fill_id: String) -> (r: Option<PartialFill>)
        requires
            self@.wf(),
        ensures
            match r {
                Some(f) => self@.partial_fills.get(fill_id@) == Some(f@),
                None => self@.partial_fills.get(fill_id@) is None,
            },
    {
        match self.partial_fills.get(&fill_id) {
            Some(f) => Some(f.clone()),
            None => None,
        }
    }

    /// Copies of the fills created against the order `swap_id`, in the
    /// order of their creation.
    pub fn get_swap_partial_fills(&self, swap_id: String) -> (r: Vec<PartialFill>)
        requires
            self@.wf(),
        ensures
            r@.len() == self@.fill_positions(
                swap_id@,
                self@.partial_fills.keys.len() as int,
            ).len(),
            forall|k: int|
                0 <= k < r@.len() ==> self@.lists(
                    self@.fill_positions(swap_id@, self@.partial_fills.keys.len() as int)[k],
                    #[trigger] r@[k],
                ),
    {
        let n = self.partial_fills.len();
        let mut out: Vec<PartialFill> = Vec::new();
        let mut i: usize = 0;
        while i < n
            invariant
                self@.wf(),
                n == self@.partial_fills.keys.len(),
                i <= n,
                out@.len() == self@.fill_positions(swap_id@, i as int).len(),
                forall|k: int|
                    0 <= k < out@.len() ==> self@.lists(
                        self@.fill_positions(swap_id@, i as int)[k],
                        #[trigger] out@[k],
                    ),
            decreases n - i,
        {
            let fill = self.partial_fills.value_at(i);
            let ghost before = self@.fill_positions(swap_id@, i as int);
            if fill.parent_swap_id == swap_id {
                let ghost listed = out@;
                let copy = fill.clone();
                assert(self@.lists(i as int, copy));
                out.push(copy);
                assert(self@.fill_positions(swap_id@, i + 1) == before.push(i as int));
                assert forall|k: int| 0 <= k < out@.len() implies self@.lists(
                    before.push(i as int)[k],
                    #[trigger] out@[k],
                ) by {
                    if k < listed.len() {
                        assert(out@[k] == listed[k]);
                    }
                }
            } else {
                assert(self@.fill_positions(swap_id@, i + 1) == before);
            }
            i = i + 1;
        }
        out
    }

    /// How far the order `swap_id` has been filled, if it exists.
    pub fn get_swap_progress(&self, swap_id: String) -> (r: Option<SwapProgress>)
        requires
            self@.wf(),
        ensures
            match r {
                None => self@.partial_fill_swaps.get(swap_id@) is None,
                Some(p) => {
                    &&& self@.partial_fill_swaps.get(swap_id@) matches Some(o)
                    &&& p.total_amount == o.total_amount
                    &&& p.filled_amount == o.filled_amount
                    &&& p.remaining_amount == o.remaining_amount
                    &&& p.fill_count == o.fill_count
                    &&& p.completed == o.completed
                    &&& p.fill_percentage == fill_percentage(o.filled_amount, o.total_amount)
                },
            },
    {
        match self.partial_fill_swaps.find(&swap_id) {
            Some(k) => {
                proof {
                    self@.partial_fill_swaps.lemma_position(k as int);
                    assert(order_ok(self@.partial_fill_swaps, self@.partial_fills, k as int));
                }
                let order = self.partial_fill_swaps.value_at(k);
                Some(
                    SwapProgress {
                        total_amount: order.total_amount,
                        filled_amount: order.filled_amount,
                        remaining_amount: order.remaining_amount,
                        fill_count: order.fill_count,
                        completed: order.completed,
                        fill_percentage: percent_filled(order.filled_amount, order.total_amount),
                    },
                )
            },
            None => None,
        }
    }
}

impl NearView {
    /// Whether `copy` is a copy of the fill at position `p`.
    pub open spec fn lists(self, p: int, copy: PartialFill) -> bool {
        &&& 0 <= p < self.partial_fills.keys.len()
        &&& copy@ == self.partial_fills.vals[p]
    }

    /// An order that the book does not hold has no fills: every fill
    /// belongs to an order of the book.
    pub proof fn lemma_no_fills_of_absent_order(self, id: Seq<char>, n: int)
        requires
            self.wf(),
            !self.partial_fill_swaps.contains(id),
            0 <= n <= self.partial_fills.vals.len(),
        ensures
            locked_sum(self.partial_fills.vals, id, n) == 0,
            created_count(self.partial_fills.vals, id, n) == 0,
        decreases n,
    {
        if n > 0 {
            self.lemma_no_fills_of_absent_order(id, n - 1);
            assert(fill_ok(self.partial_fill_swaps, self.partial_fills, n - 1));
        }
    }

    /// Creating an order keeps the invariant of the engine.
    pub proof fn lemma_create_order_keeps_wf(
        self,
        sender: Seq<char>,
        receiver: Seq<char>,
        total_amount: u128,
        eth_address: Seq<char>,
        timelock: u64,
        now: u64,
    )
        requires
            self.wf(),
            self.create_order_check(sender, total_amount, eth_address, timelock, now) is None,
        ensures
            self.create_order_apply(
                NearView::new_order(sender, receiver, total_amount, eth_address, timelock, now),
            ).wf(),
    {
        let o = NearView::new_order(sender, receiver, total_amount, eth_address, timelock, now);
        let t = self.create_order_apply(o);
        self.lemma_no_fills_of_absent_order(o.swap_id, self.partial_fills.vals.len() as int);
        self.partial_fill_swaps.lemma_insert(o.swap_id, o);
        assert forall|i: int| 0 <= i < t.partial_fill_swaps.keys.len() implies #[trigger] order_ok(
            t.partial_fill_swaps,
            t.partial_fills,
            i,
        ) by {
            if i < self.partial_fill_swaps.keys.len() {
                assert(order_ok(self.partial_fill_swaps, self.partial_fills, i));
            }
        }
        assert forall|j: int| 0 <= j < t.partial_fills.keys.len() implies #[trigger] fill_ok(
            t.partial_fill_swaps,
            t.partial_fills,
            j,
        ) by {
            assert(fill_ok(self.partial_fill_swaps, self.partial_fills, j));
        }
    }

    /// Creating a fill keeps the invariant of the engine, as long as the
    /// number of fills fits the counter of an order.
    pub proof fn lemma_create_fill_keeps_wf(
        self,
        swap_id: Seq<char>,
        hashlock: Seq<u8>,
        fill_amount: u128,
        caller: Seq<char>,
        attached: u128,
        now: u64,
    )
        requires
            self.wf(),
            self.partial_fills.keys.len() < u64::MAX,
            self.create_fill_check(swap_id, hashlock, fill_amount, caller, attached, now) is None,
        ensures
            self.create_fill_apply(swap_id, hashlock, fill_amount, caller, now).wf(),
            ({
                let o = self.partial_fill_swaps.get(swap_id)->0;
                o.balanced() && o.fill_count < u64::MAX
            }),
    {
        let t = self.create_fill_apply(swap_id, hashlock, fill_amount, caller, now);
        let f = self.new_fill(swap_id, hashlock, fill_amount, caller, now);
        self.partial_fill_swaps.lemma_index_of(swap_id);
        let k = self.partial_fill_swaps.index_of(swap_id);
        self.partial_fill_swaps.lemma_position(k);
        assert(order_ok(self.partial_fill_swaps, self.partial_fills, k));
        self.partial_fills.lemma_insert(f.fill_id, f);
        self.partial_fill_swaps.lemma_update_at(k, t.partial_fill_swaps.vals[k]);
        assert forall|i: int| 0 <= i < t.partial_fill_swaps.keys.len() implies #[trigger] order_ok(
            t.partial_fill_swaps,
            t.partial_fills,
            i,
        ) by {
            assert(order_ok(self.partial_fill_swaps, self.partial_fills, i));
            lemma_accounts_after_push(self.partial_fills.vals, f, self.partial_fill_swaps.keys[i]);
        }
        assert forall|j: int| 0 <= j < t.partial_fills.keys.len() implies #[trigger] fill_ok(
            t.partial_fill_swaps,
            t.partial_fills,
            j,
        ) by {
            if j < self.partial_fills.keys.len() {
                assert(fill_ok(self.partial_fill_swaps, self.partial_fills, j));
            }
        }
        lemma_accounts_after_push(self.partial_fills.vals, f, swap_id);
    }

    /// Completing a fill keeps the invariant of the engine: a completed fill
    /// locks what it locked while it was open.
    pub proof fn lemma_complete_fill_keeps_wf(self, fill_id: Seq<char>, eth_tx_hash: Seq<char>)
        requires
            self.wf(),
            self.partial_fills.get(fill_id) matches Some(f) && f.state == FillState::Open,
        ensures
            self.complete_fill_apply(fill_id, eth_tx_hash).wf(),
    {
        let t = self.complete_fill_apply(fill_id, eth_tx_hash);
        self.partial_fills.lemma_index_of(fill_id);
        let j = self.partial_fills.index_of(fill_id);
        self.partial_fills.lemma_position(j);
        let g = t.partial_fills.vals[j];
        self.partial_fills.lemma_update_at(j, g);
        assert forall|i: int| 0 <= i < t.partial_fill_swaps.keys.len() implies #[trigger] order_ok(
            t.partial_fill_swaps,
            t.partial_fills,
            i,
        ) by {
            assert(order_ok(self.partial_fill_swaps, self.partial_fills, i));
            lemma_accounts_after_update(
                self.partial_fills.vals,
                j,
                g,
                self.partial_fill_swaps.keys[i],
                self.partial_fills.vals.len() as int,
            );
        }
        assert forall|m: int| 0 <= m < t.partial_fills.keys.len() implies #[trigger] fill_ok(
            t.partial_fill_swaps,
            t.partial_fills,
            m,
        ) by {
            assert(fill_ok(self.partial_fill_swaps, self.partial_fills, m));
        }
    }

    /// Refunding a fill keeps the invariant of the engine: the fill locked
    /// no more than its order counts as filled, and its amount goes back to
    /// what remains of that order.
    pub proof fn lemma_refund_fill_keeps_wf(self, fill_id: Seq<char>, caller: Seq<char>, now: u64)
        requires
            self.wf(),
            self.refund_fill_check(fill_id, caller, now) is None,
        ensures
            self.refund_fill_apply(fill_id).wf(),
            self.refund_fill_apply(fill_id).partial_fills.keys == self.partial_fills.keys,
            ({
                let f = self.partial_fills.get(fill_id)->0;
                let before = self.partial_fill_swaps.get(f.parent_swap_id)->0;
                let after = self.refund_fill_apply(fill_id).partial_fill_swaps.get(
                    f.parent_swap_id,
                )->0;
                &&& self.partial_fill_swaps.contains(f.parent_swap_id)
                &&& self.refund_fill_apply(fill_id).partial_fill_swaps.contains(f.parent_swap_id)
                &&& before.balanced()
                &&& 0 < f.fill_amount <= before.filled_amount
                &&& after == (PartialFillSwapView {
                    filled_amount: (before.filled_amount - f.fill_amount) as u128,
                    remaining_amount: (before.remaining_amount + f.fill_amount) as u128,
                    completed: false,
                    ..before
                })
                &&& after.remaining_amount > 0
            }),
    {
        let t = self.refund_fill_apply(fill_id);
        self.partial_fills.lemma_index_of(fill_id);
        let j = self.partial_fills.index_of(fill_id);
        self.partial_fills.lemma_position(j);
        assert(fill_ok(self.partial_fill_swaps, self.partial_fills, j));
        let f = self.partial_fills.vals[j];
        let g = PartialFillView { state: FillState::Refunded, ..f };
        self.partial_fill_swaps.lemma_index_of(f.parent_swap_id);
        let k = self.partial_fill_swaps.index_of(f.parent_swap_id);
        self.partial_fill_swaps.lemma_position(k);
        assert(order_ok(self.partial_fill_swaps, self.partial_fills, k));
        let n = self.partial_fills.vals.len() as int;
        lemma_accounts_after_update(self.partial_fills.vals, j, g, self.partial_fill_swaps.keys[k], n);
        self.partial_fills.lemma_update_at(j, g);
        self.partial_fill_swaps.lemma_update_at(k, t.partial_fill_swaps.vals[k]);
        assert forall|i: int| 0 <= i < t.partial_fill_swaps.keys.len() implies #[trigger] order_ok(
            t.partial_fill_swaps,
            t.partial_fills,
            i,
        ) by {
            assert(order_ok(self.partial_fill_swaps, self.partial_fills, i));
            lemma_accounts_after_update(
                self.partial_fills.vals,
                j,
                g,
                self.partial_fill_swaps.keys[i],
                n,
            );
        }
        assert forall|m: int| 0 <= m < t.partial_fills.keys.len() implies #[trigger] fill_ok(
            t.partial_fill_swaps,
            t.partial_fills,
            m,
        ) by {
            assert(fill_ok(self.partial_fill_swaps, self.partial_fills, m));
        }
    }
}

/// Decides whether every fill of the book is as [`fill_ok`] asks.
fn fills_are_sound(orders: &Table<PartialFillSwap>, fills: &Table<PartialFill>) -> (ok: bool)
    requires
        orders@.wf(),
        fills@.wf(),
    ensures
        ok == (forall|j: int| 0 <= j < fills@.keys.len() ==> #[trigger] fill_ok(orders@, fills@, j)),
{
    let n = fills.len();
    let mut j: usize = 0;
    while j < n
        invariant
            orders@.wf(),
            fills@.wf(),
            n == fills@.keys.len(),
            j <= n,
            forall|m: int| 0 <= m < j ==> #[trigger] fill_ok(orders@, fills@, m),
        decreases n - j,
    {
        let f = fills.value_at(j);
        if !(f.fill_id == *fills.key_at(j)) || f.fill_amount == 0 || f.hashlock.len() != 32
            || !orders.contains_key(&f.parent_swap_id) {
            assert(!fill_ok(orders@, fills@, j as int));
            return false;
        }
        j = j + 1;
    }
    true
}

/// Decides whether the order at position `i` of the book is as [`order_ok`]
/// asks, by adding up its fills.
fn order_is_sound(orders: &Table<PartialFillSwap>, fills: &Table<PartialFill>, i: usize) -> (ok: bool)
    requires
        orders@.wf(),
        fills@.wf(),
        i < orders@.keys.len(),
    ensures
        ok == order_ok(orders@, fills@, i as int),
{
    let o = orders.value_at(i);
    let id = orders.key_at(i);
    if !(o.swap_id == *id) || o.total_amount == 0 || o.filled_amount > o.total_amount
        || o.total_amount - o.filled_amount != o.remaining_amount || o.completed != (
    o.remaining_amount == 0) {
        return false;
    }
    let n = fills.len();
    let mut sum: u128 = 0;
    let mut count: u64 = 0;
    let mut j: usize = 0;
    while j < n
        invariant
            fills@.wf(),
            n == fills@.keys.len(),
            j <= n,
            o@ == orders@.vals[i as int],
            id@ == orders@.keys[i as int],
            sum == locked_sum(fills@.vals, id@, j as int),
            sum <= o.filled_amount,
            count == created_count(fills@.vals, id@, j as int),
            count <= j,
        decreases n - j,
    {
        let f = fills.value_at(j);
        if f.parent_swap_id == *id {
            count = count + 1;
            let locks = match f.state {
                FillState::Refunded => false,
                _ => true,
            };
            if locks {
                if f.fill_amount > o.filled_amount - sum {
                    proof {
                        lemma_locked_sum_grows(fills@.vals, id@, j + 1, n as int);
                    }
                    return false;
                }
                sum = sum + f.fill_amount;
            }
        }
        j = j + 1;
    }
    sum == o.filled_amount && count == o.fill_count
}

/// Decides whether the book meets its invariant.
fn book_is_sound(orders: &Table<PartialFillSwap>, fills: &Table<PartialFill>) -> (ok: bool)
    requires
        orders@.wf(),
        fills@.wf(),
    ensures
        ok == book_wf(orders@, fills@),
{
    if !fills_are_sound(orders, fills) {
        return false;
    }
    let n = orders.len();
    let mut i: usize = 0;
    while i < n
        invariant
            orders@.wf(),
            fills@.wf(),
            n == orders@.keys.len(),
            i <= n,
            forall|k: int| 0 <= k < i ==> #[trigger] order_ok(orders@, fills@, k),
        decreases n - i,
    {
        if !order_is_sound(orders, fills, i) {
            return false;
        }
        i = i + 1;
    }
    true
}

/// Decides whether every plain escrow of a table has a positive amount and
/// a commitment of 32 bytes.
fn contracts_are_sound(contracts: &Table<HTLCContract>) -> (ok: bool)
    requires
        contracts@.wf(),
    ensures
        ok == (forall|k: int|
            0 <= k < contracts@.vals.len() ==> (#[trigger] contracts@.vals[k]).amount > 0
                && contracts@.vals[k].hashlock.len() == 32),
{
    let n = contracts.len();
    let mut i: usize = 0;
    while i < n
        invariant
            contracts@.wf(),
            n == contracts@.keys.len(),
            i <= n,
            forall|k: int|
                0 <= k < i ==> (#[trigger] contracts@.vals[k]).amount > 0
                    && contracts@.vals[k].hashlock.len() == 32,
        decreases n - i,
    {
        let c = contracts.value_at(i);
        if c.amount == 0 || c.hashlock.len() != 32 {
            assert(!(contracts@.vals[i as int].amount > 0 && contracts@.vals[i as int].hashlock.len()
                == 32));
            return false;
        }
        i = i + 1;
    }
    true
}

/// Decides whether every cross-chain escrow of a table has a positive
/// amount and a commitment of 32 bytes.
fn cross_chain_are_sound(contracts: &Table<CrossChainHTLC>) -> (ok: bool)
    requires
        contracts@.wf(),
    ensures
        ok == (forall|k: int|
            0 <= k < contracts@.vals.len() ==> (#[trigger] contracts@.vals[k]).amount > 0
                && contracts@.vals[k].hashlock.len() == 32),
{
    let n = contracts.len();
    let mut i: usize = 0;
    while i < n
        invariant
            contracts@.wf(),
            n == contracts@.keys.len(),
            i <= n,
            forall|k: int|
                0 <= k < i ==> (#[trigger] contracts@.vals[k]).amount > 0
                    && contracts@.vals[k].hashlock.len() == 32,
        decreases n - i,
    {
        let c = contracts.value_at(i);
        if c.amount == 0 || c.hashlock.len() != 32 {
            assert(!(contracts@.vals[i as int].amount > 0 && contracts@.vals[i as int].hashlock.len()
                == 32));
            return false;
        }
        i = i + 1;
    }
    true
}

/// The contents of an engine as plain lists, to be kept between calls: each
/// table as its keys and, at the same positions, its values.
#[derive(Debug)]
pub struct NearState {
    pub owner: String,
    pub contract_ids: Vec<String>,
    pub contracts: Vec<HTLCContract>,
    pub cross_chain_ids: Vec<String>,
    pub cross_chain_contracts: Vec<CrossChainHTLC>,
    pub swap_ids: Vec<String>,
    pub partial_fill_swaps: Vec<PartialFillSwap>,
    pub fill_ids: Vec<String>,
    pub partial_fills: Vec<PartialFill>,
    /// The accounts that the owner has ruled on.
    pub resolvers: Vec<String>,
    /// The owner's ruling on each of them.
    pub rulings: Vec<bool>,
    /// The identifiers whose payout has been started and not finished.
    pub claims_in_progress: Vec<String>,
}

impl View for NearState {
    type V = NearView;

    open spec fn view(&self) -> NearView {
        NearView {
            contracts: TableView {
                keys: key_views(self.contract_ids@),
                vals: value_views(self.contracts@),
            },
            cross_chain_contracts: TableView {
                keys: key_views(self.cross_chain_ids@),
                vals: value_views(self.cross_chain_contracts@),
            },
            partial_fill_swaps: TableView {
                keys: key_views(self.swap_ids@),
                vals: value_views(self.partial_fill_swaps@),
            },
            partial_fills: TableView {
                keys: key_views(self.fill_ids@),
                vals: value_views(self.partial_fills@),
            },
            owner: self.owner@,
            authorized_resolvers: TableView {
                keys: key_views(self.resolvers@),
                vals: value_views(self.rulings@),
            },
            claims_in_progress: TableView {
                keys: key_views(self.claims_in_progress@),
                vals: Seq::new(self.claims_in_progress@.len(), |i: int| true),
            },
        }
    }
}

impl HTLCNear {
    /// Takes the engine apart into plain lists.
    pub fn into_state(self) -> (state: NearState)
        requires
            self@.wf(),
        ensures
            state@ == self@,
    {
        let ghost model = self@;
        let (contract_ids, contracts) = self.contracts.into_parts();
        let (cross_chain_ids, cross_chain_contracts) = self.cross_chain_contracts.into_parts();
        let (swap_ids, partial_fill_swaps) = self.partial_fill_swaps.into_parts();
        let (fill_ids, partial_fills) = self.partial_fills.into_parts();
        let (resolvers, rulings) = self.authorized_resolvers.into_parts();
        let (claims_in_progress, marks) = self.claims_in_progress.into_parts();
        let state = NearState {
            owner: self.owner,
            contract_ids,
            contracts,
            cross_chain_ids,
            cross_chain_contracts,
            swap_ids,
            partial_fill_swaps,
            fill_ids,
            partial_fills,
            resolvers,
            rulings,
            claims_in_progress,
        };
        assert(state@.claims_in_progress.vals =~= model.claims_in_progress.vals);
        state
    }

    /// Rebuilds an engine from plain lists. There is an engine with these
    /// contents exactly when they meet the invariant of the engine: no
    /// identifier occurs twice in a table, every amount is positive, every
    /// commitment has 32 bytes, and the book of orders and fills balances.
    pub fn from_state(state: NearState) -> (r: Option<Self>)
        ensures
            match r {
                Some(e) => state@.wf() && e@ == state@,
                None => !state@.wf(),
            },
    {
        let ghost model = state@;
        let NearState {
            owner,
            contract_ids,
            contracts,
            cross_chain_ids,
            cross_chain_contracts,
            swap_ids,
            partial_fill_swaps,
            fill_ids,
            partial_fills,
            resolvers,
            rulings,
            claims_in_progress,
        } = state;
        let marks = marks_for(claims_in_progress.len());
        assert(value_views(marks@) =~= model.claims_in_progress.vals);
        let contracts = match Table::from_parts(contract_ids, contracts) {
            Some(t) => t,
            None => {
                return None;
            },
        };
        let cross_chain_contracts = match Table::from_parts(cross_chain_ids, cross_chain_contracts) {
            Some(t) => t,
            None => {
                return None;
            },
        };
        let partial_fill_swaps = match Table::from_parts(swap_ids, partial_fill_swaps) {
            Some(t) => t,
            None => {
                return None;
            },
        };
        let partial_fills = match Table::from_parts(fill_ids, partial_fills) {
            Some(t) => t,
            None => {
                return None;
            },
        };
        let authorized_resolvers = match Table::from_parts(resolvers, rulings) {
            Some(t) => t,
            None => {
                return None;
            },
        };
        let claims_in_progress = match Table::from_parts(claims_in_progress, marks) {
            Some(t) => t,
            None => {
                return None;
            },
        };
        if !contracts_are_sound(&contracts) || !cross_chain_are_sound(&cross_chain_contracts)
            || !book_is_sound(&partial_fill_swaps, &partial_fills) {
            return None;
        }
        Some(
            HTLCNear {
                contracts,
                cross_chain_contracts,
                partial_fill_swaps,
                partial_fills,
                owner,
                authorized_resolvers,
                claims_in_progress,
            },
        )
    }
}

} // verus!
