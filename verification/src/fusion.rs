//! The escrow store, the outbound request registry and the guard against
//! overlapping payouts.
//!
//! Every operation is described twice: by a pair of specification functions
//! on the engine's model, one that names the first validation that fails and
//! one that gives the state after success, and by the executable method,
//! whose contract ties it to that pair. A refused operation changes nothing.

use vstd::prelude::*;
use crate::error::HtlcError;
use crate::hashing::{commitment_of, hash_secret, secret_matches};
use crate::ids::{generate_request_id, generate_swap_id, request_id, swap_id};
use crate::store::{key_views, value_views, Table, TableView};
use crate::swap::{
    clone_opt_text,
    opt_text,
    Transfer,
    TransferView,
    EthSwapRequest,
    EthSwapRequestView,
    EthSwapRequestedEvent,
    HTLCSwap,
    HTLCSwapView,
    SwapClaimedEvent,
    SwapInitiatedEvent,
    SwapRefundedEvent,
    SwapState,
    SwapStatus,
};
use crate::text::{
    commitment_well_formed,
    foreign_address_well_formed,
    is_commitment_well_formed,
    is_foreign_address_well_formed,
};

verus! {

/// The model of the engine.
pub struct FusionView {
    /// The escrows, by identifier.
    pub swaps: TableView<HTLCSwapView>,
    /// The pending outbound requests, by identifier.
    pub eth_swap_requests: TableView<EthSwapRequestView>,
    /// The owner named at construction; it never changes.
    pub owner: Seq<char>,
    /// The identifiers whose payout has been started and not finished.
    pub claims_in_progress: TableView<bool>,
}

impl FusionView {
    /// The invariant of the engine.
    pub open spec fn wf(self) -> bool {
        &&& self.swaps.wf()
        &&& self.eth_swap_requests.wf()
        &&& self.claims_in_progress.wf()
        &&& forall|i: int|
            0 <= i < self.claims_in_progress.vals.len() ==> #[trigger] self.claims_in_progress.vals[i]
        &&& forall|i: int| 0 <= i < self.swaps.vals.len() ==> swap_sound(#[trigger] self.swaps.vals[i])
        &&& forall|i: int|
            0 <= i < self.eth_swap_requests.vals.len() ==> (
            #[trigger] self.eth_swap_requests.vals[i]).amount > 0
                && self.eth_swap_requests.vals[i].swap_id == self.eth_swap_requests.keys[i]
    }

    /// Whether a payout for `id` has been started and not finished.
    pub open spec fn claiming(self, id: Seq<char>) -> bool {
        self.claims_in_progress.contains(id)
    }

    // ----- escrow store -----

    /// The first reason for which creating an escrow is refused, if any.
    pub open spec fn initiate_check(
        self,
        sender: Seq<char>,
        receiver: Seq<char>,
        amount: u128,
        hashlock: Seq<char>,
        timelock: u64,
        now: u64,
    ) -> Option<HtlcError> {
        if amount == 0 {
            Some(HtlcError::InvalidAmount)
        } else if timelock <= now {
            Some(HtlcError::Expired)
        } else if !commitment_well_formed(hashlock) {
            Some(HtlcError::InvalidCommitment)
        } else if self.swaps.contains(swap_id(sender, receiver, hashlock, timelock, now)) {
            Some(HtlcError::Conflict)
        } else {
            None
        }
    }

    /// The engine after an escrow has been created.
    pub open spec fn initiate_apply(
        self,
        sender: Seq<char>,
        receiver: Seq<char>,
        amount: u128,
        hashlock: Seq<char>,
        timelock: u64,
        eth_tx_hash: Option<Seq<char>>,
        now: u64,
    ) -> FusionView {
        FusionView {
            swaps: self.swaps.insert(
                swap_id(sender, receiver, hashlock, timelock, now),
                HTLCSwapView {
                    sender,
                    receiver,
                    amount,
                    hashlock,
                    timelock,
                    secret: None,
                    state: SwapState::Open,
                    eth_tx_hash,
                },
            ),
            ..self
        }
    }

    /// The first reason for which a claim is refused, if any.
    pub open spec fn claim_check(
        self,
        id: Seq<char>,
        secret: Seq<char>,
        claimer: Seq<char>,
        now: u64,
    ) -> Option<HtlcError> {
        match self.swaps.get(id) {
            None => Some(HtlcError::NotFound),
            Some(s) => if s.state != SwapState::Open {
                Some(HtlcError::AlreadyFinalized)
            } else if now >= s.timelock {
                Some(HtlcError::Expired)
            } else if commitment_of(secret) != s.hashlock {
                Some(HtlcError::InvalidSecret)
            } else if claimer != s.receiver {
                Some(HtlcError::Unauthorized)
            } else if self.claiming(id) {
                Some(HtlcError::ConcurrentClaim)
            } else {
                None
            },
        }
    }

    /// The engine after a claim: the escrow is claimed and holds the secret.
    pub open spec fn claim_apply(self, id: Seq<char>, secret: Seq<char>) -> FusionView {
        FusionView {
            swaps: self.swaps.update(
                id,
                HTLCSwapView {
                    secret: Some(secret),
                    state: SwapState::Claimed,
                    ..self.swaps.get(id)->0
                },
            ),
            ..self
        }
    }

    /// The first reason for which a refund is refused, if any.
    pub open spec fn refund_check(self, id: Seq<char>, refunder: Seq<char>, now: u64) -> Option<
        HtlcError,
    > {
        match self.swaps.get(id) {
            None => Some(HtlcError::NotFound),
            Some(s) => if s.state != SwapState::Open {
                Some(HtlcError::AlreadyFinalized)
            } else if now < s.timelock {
                Some(HtlcError::NotYetExpired)
            } else if refunder != s.sender {
                Some(HtlcError::Unauthorized)
            } else {
                None
            },
        }
    }

    /// The engine after a refund: the escrow is refunded.
    pub open spec fn refund_apply(self, id: Seq<char>) -> FusionView {
        FusionView {
            swaps: self.swaps.update(
                id,
                HTLCSwapView { state: SwapState::Refunded, ..self.swaps.get(id)->0 },
            ),
            ..self
        }
    }

    /// Whether `id` names an open escrow whose deadline has been reached, so
    /// that only a refund can still settle it.
    pub open spec fn expired_open(self, id: Seq<char>, now: u64) -> bool {
        match self.swaps.get(id) {
            None => false,
            Some(s) => s.state == SwapState::Open && now >= s.timelock,
        }
    }

    // ----- outbound request registry -----

    /// The first reason for which an outbound request is refused, if any.
    pub open spec fn request_check(
        self,
        near_sender: Seq<char>,
        amount: u128,
        eth_recipient: Seq<char>,
        hashlock: Seq<char>,
        timelock: u64,
        now: u64,
    ) -> Option<HtlcError> {
        if amount == 0 {
            Some(HtlcError::InvalidAmount)
        } else if timelock <= now {
            Some(HtlcError::Expired)
        } else if !commitment_well_formed(hashlock) {
            Some(HtlcError::InvalidCommitment)
        } else if !foreign_address_well_formed(eth_recipient) {
            Some(HtlcError::InvalidForeignAddress)
        } else if self.eth_swap_requests.contains(
            request_id(near_sender, eth_recipient, amount, hashlock, timelock, now),
        ) {
            Some(HtlcError::Conflict)
        } else {
            None
        }
    }

    /// The engine after an outbound request has been recorded.
    pub open spec fn request_apply(self, req: EthSwapRequestView) -> FusionView {
        FusionView { eth_swap_requests: self.eth_swap_requests.insert(req.swap_id, req), ..self }
    }

    /// The first reason for which settling a request is refused, if any.
    pub open spec fn complete_check(self, id: Seq<char>, secret: Seq<char>, now: u64) -> Option<
        HtlcError,
    > {
        match self.eth_swap_requests.get(id) {
            None => Some(HtlcError::NotFound),
            Some(q) => if now > q.timelock {
                Some(HtlcError::Expired)
            } else if commitment_of(secret) != q.hashlock {
                Some(HtlcError::InvalidSecret)
            } else {
                None
            },
        }
    }

    /// The first reason for which refunding a request is refused, if any.
    pub open spec fn refund_request_check(self, id: Seq<char>, now: u64) -> Option<HtlcError> {
        match self.eth_swap_requests.get(id) {
            None => Some(HtlcError::NotFound),
            Some(q) => if now <= q.timelock {
                Some(HtlcError::NotYetExpired)
            } else {
                None
            },
        }
    }

    /// The engine after a request has been settled or refunded: the request
    /// is gone.
    pub open spec fn close_request(self, id: Seq<char>) -> FusionView {
        FusionView { eth_swap_requests: self.eth_swap_requests.remove(id), ..self }
    }
}

/// Whether an escrow was made by or for `account`.
pub open spec fn involves(s: HTLCSwapView, account: Seq<char>) -> bool {
    s.sender == account || s.receiver == account
}

/// The part of `all` that a page shows: up to `limit` items after the first
/// `from`.
pub open spec fn page(all: Seq<int>, from: nat, limit: nat) -> Seq<int> {
    let start = if from <= all.len() {
        from as int
    } else {
        all.len() as int
    };
    let end = if from + limit <= all.len() {
        (from + limit) as int
    } else {
        all.len() as int
    };
    all.subrange(start, end)
}

/// The engine that holds escrows and outbound requests.
pub struct FusionHTLC {
    swaps: Table<HTLCSwap>,
    eth_swap_requests: Table<EthSwapRequest>,
    owner: String,
    claims_in_progress: Table<bool>,
}

impl View for FusionHTLC {
    type V = FusionView;

    closed spec fn view(&self) -> FusionView {
        FusionView {
            swaps: self.swaps@,
            eth_swap_requests: self.eth_swap_requests@,
            owner: self.owner@,
            claims_in_progress: self.claims_in_progress@,
        }
    }
}

impl FusionHTLC {
    /// Creates an engine without records, owned by `owner`.
    pub fn new(owner: String) -> (e: Self)
        ensures
            e@.wf(),
            e@ == (FusionView {
                swaps: TableView::empty(),
                eth_swap_requests: TableView::empty(),
                owner: owner@,
                claims_in_progress: TableView::empty(),
            }),
    {
        FusionHTLC {
            swaps: Table::new(),
            eth_swap_requests: Table::new(),
            owner,
            claims_in_progress: Table::new(),
        }
    }

    /// The owner named at construction.
    pub fn get_owner(&self) -> (o: String)
        ensures
            o@ == self@.owner,
    {
        self.owner.clone()
    }

    // ----- guard -----

    /// Whether a payout for `swap_id` has been started and not finished.
    pub fn is_claiming_in_progress(&self, swap_id: &String) -> (b: bool)
        requires
            self@.wf(),
        ensures
            b == self@.claiming(swap_id@),
    {
        self.claims_in_progress.contains_key(swap_id)
    }

    /// Records that a payout for `swap_id` has been started.
    pub fn mark_claim_in_progress(&mut self, swap_id: &String)
        requires
            old(self)@.wf(),
        ensures
            final(self)@.wf(),
            final(self)@.claiming(swap_id@),
            final(self)@ == (FusionView {
                claims_in_progress: if old(self)@.claiming(swap_id@) {
                    old(self)@.claims_in_progress
                } else {
                    old(self)@.claims_in_progress.insert(swap_id@, true)
                },
                ..old(self)@
            }),
    {
        if !self.claims_in_progress.contains_key(swap_id) {
            proof {
                self@.claims_in_progress.lemma_insert(swap_id@, true);
            }
            self.claims_in_progress.insert(swap_id.clone(), true);
        }
    }

    /// Records that the payout for `swap_id` has been finished.
    pub fn clear_claim_in_progress(&mut self, swap_id: &String)
        requires
            old(self)@.wf(),
        ensures
            final(self)@.wf(),
            !final(self)@.claiming(swap_id@),
            final(self)@ == (FusionView {
                claims_in_progress: old(self)@.claims_in_progress.remove(swap_id@),
                ..old(self)@
            }),
    {
        match self.claims_in_progress.find(swap_id) {
            Some(i) => {
                proof {
                    self@.claims_in_progress.lemma_remove_at(i as int);
                }
                self.claims_in_progress.remove_at(i);
            },
            None => {},
        }
    }

    // ----- escrow store -----

    /// Creates an escrow of `amount`, locked by `sender` for `receiver` under
    /// `hashlock` until `timelock`, and reports it. The amount must be
    /// positive, the deadline later than `now`, the commitment well formed
    /// and the derived identifier unused.
    pub fn initiate_swap(
        &mut self,
        sender: String,
        receiver: String,
        amount: u128,
        hashlock: String,
        timelock: u64,
        eth_tx_hash: Option<String>,
        now: u64,
    ) -> (r: Result<SwapInitiatedEvent, HtlcError>)
        requires
            old(self)@.wf(),
        ensures
            final(self)@.wf(),
            match r {
                Ok(ev) => {
                    &&& old(self)@.initiate_check(
                        sender@,
                        receiver@,
                        amount,
                        hashlock@,
                        timelock,
                        now,
                    ) is None
                    &&& final(self)@ == old(self)@.initiate_apply(
                        sender@,
                        receiver@,
                        amount,
                        hashlock@,
                        timelock,
                        opt_text(eth_tx_hash),
                        now,
                    )
                    &&& ev.swap_id@ == swap_id(sender@, receiver@, hashlock@, timelock, now)
                    &&& ev.sender@ == sender@
                    &&& ev.receiver@ == receiver@
                    &&& ev.amount == amount
                    &&& ev.hashlock@ == hashlock@
                    &&& ev.timelock == timelock
                    &&& opt_text(ev.eth_tx_hash) == opt_text(eth_tx_hash)
                },
                Err(e) => {
                    &&& old(self)@.initiate_check(
                        sender@,
                        receiver@,
                        amount,
                        hashlock@,
                        timelock,
                        now,
                    ) == Some(e)
                    &&& final(self)@ == old(self)@
                },
            },
    {
        if amount == 0 {
            return Err(HtlcError::InvalidAmount);
        }
        if timelock <= now {
            return Err(HtlcError::Expired);
        }
        if !is_commitment_well_formed(hashlock.as_str()) {
            return Err(HtlcError::InvalidCommitment);
        }
        let id = generate_swap_id(
            sender.as_str(),
            receiver.as_str(),
            hashlock.as_str(),
            timelock,
            now,
        );
        if self.swaps.contains_key(&id) {
            return Err(HtlcError::Conflict);
        }
        let swap = HTLCSwap {
            sender: sender.clone(),
            receiver: receiver.clone(),
            amount,
            hashlock: hashlock.clone(),
            timelock,
            secret: None,
            state: SwapState::Open,
            eth_tx_hash: clone_opt_text(&eth_tx_hash),
        };
        self.swaps.insert(id.clone(), swap);
        Ok(SwapInitiatedEvent { swap_id: id, sender, receiver, amount, hashlock, timelock, eth_tx_hash })
    }

    /// Pays an escrow out to its receiver against the secret. The escrow
    /// must exist and be open, `now` must lie before the deadline, the
    /// secret must hash to the commitment, the claimer must be the receiver
    /// and no payout for the identifier may be in progress. The guard is set
    /// while the escrow is finalized and cleared before the call returns.
    pub fn claim_swap(&mut self, swap_id: String, secret: String, claimer: String, now: u64) -> (r:
        Result<SwapClaimedEvent, HtlcError>)
        requires
            old(self)@.wf(),
        ensures
            final(self)@.wf(),
            match r {
                Ok(ev) => {
                    &&& old(self)@.claim_check(swap_id@, secret@, claimer@, now) is None
                    &&& final(self)@ == old(self)@.claim_apply(swap_id@, secret@)
                    &&& ev.swap_id@ == swap_id@
                    &&& ev.claimer@ == claimer@
                    &&& ev.secret@ == secret@
                    &&& ev.amount == old(self)@.swaps.get(swap_id@)->0.amount
                    &&& ev.amount_remaining == 0
                    &&& ev.is_completed
                },
                Err(e) => {
                    &&& old(self)@.claim_check(swap_id@, secret@, claimer@, now) == Some(e)
                    &&& final(self)@ == old(self)@
                },
            },
    {
        let i = match self.swaps.find(&swap_id) {
            Some(i) => i,
            None => {
                return Err(HtlcError::NotFound);
            },
        };
        proof {
            self@.swaps.lemma_position(i as int);
        }
        let swap = self.swaps.value_at(i);
        match swap.state {
            SwapState::Open => {},
            _ => {
                return Err(HtlcError::AlreadyFinalized);
            },
        }
        if now >= swap.timelock {
            return Err(HtlcError::Expired);
        }
        if !secret_matches(secret.as_str(), &swap.hashlock) {
            return Err(HtlcError::InvalidSecret);
        }
        if !(claimer == swap.receiver) {
            return Err(HtlcError::Unauthorized);
        }
        if self.is_claiming_in_progress(&swap_id) {
            return Err(HtlcError::ConcurrentClaim);
        }
        let amount = swap.amount;
        let claimed = HTLCSwap {
            sender: swap.sender.clone(),
            receiver: swap.receiver.clone(),
            amount,
            hashlock: swap.hashlock.clone(),
            timelock: swap.timelock,
            secret: Some(secret.clone()),
            state: SwapState::Claimed,
            eth_tx_hash: clone_opt_text(&swap.eth_tx_hash),
        };
        self.mark_claim_in_progress(&swap_id);
        proof {
            self@.swaps.lemma_update_at(i as int, claimed@);
        }
        self.swaps.set_at(i, claimed);
        self.clear_claim_in_progress(&swap_id);
        proof {
            old(self)@.claims_in_progress.lemma_insert_then_remove(swap_id@, true);
        }
        Ok(
            SwapClaimedEvent {
                swap_id,
                claimer,
                secret,
                amount,
                amount_remaining: 0,
                is_completed: true,
            },
        )
    }

    /// Returns an escrow to its sender after the deadline. The escrow must
    /// exist and be open, `now` must have reached the deadline and the
    /// refunder must be the sender.
    pub fn refund_swap(&mut self, swap_id: String, refunder: String, now: u64) -> (r: Result<
        SwapRefundedEvent,
        HtlcError,
    >)
        requires
            old(self)@.wf(),
        ensures
            final(self)@.wf(),
            match r {
                Ok(ev) => {
                    &&& old(self)@.refund_check(swap_id@, refunder@, now) is None
                    &&& final(self)@ == old(self)@.refund_apply(swap_id@)
                    &&& ev.swap_id@ == swap_id@
                    &&& ev.refunder@ == refunder@
                    &&& ev.amount == old(self)@.swaps.get(swap_id@)->0.amount
                },
                Err(e) => {
                    &&& old(self)@.refund_check(swap_id@, refunder@, now) == Some(e)
                    &&& final(self)@ == old(self)@
                },
            },
    {
        let i = match self.swaps.find(&swap_id) {
            Some(i) => i,
            None => {
                return Err(HtlcError::NotFound);
            },
        };
        proof {
            self@.swaps.lemma_position(i as int);
        }
        let swap = self.swaps.value_at(i);
        match swap.state {
            SwapState::Open => {},
            _ => {
                return Err(HtlcError::AlreadyFinalized);
            },
        }
        if now < swap.timelock {
            return Err(HtlcError::NotYetExpired);
        }
        if !(refunder == swap.sender) {
            return Err(HtlcError::Unauthorized);
        }
        let amount = swap.amount;
        let refunded = HTLCSwap {
            sender: swap.sender.clone(),
            receiver: swap.receiver.clone(),
            amount,
            hashlock: swap.hashlock.clone(),
            timelock: swap.timelock,
            secret: None,
            state: SwapState::Refunded,
            eth_tx_hash: clone_opt_text(&swap.eth_tx_hash),
        };
        proof {
            self@.swaps.lemma_update_at(i as int, refunded@);
        }
        self.swaps.set_at(i, refunded);
        Ok(SwapRefundedEvent { swap_id, refunder, amount })
    }

    /// A copy of the escrow stored under `swap_id`, if there is one.
    pub fn get_swap(&self, swap_id: String) -> (r: Option<HTLCSwap>)
        requires
            self@.wf(),
        ensures
            match r {
                Some(s) => self@.swaps.get(swap_id@) == Some(s@),
                None => self@.swaps.get(swap_id@) is None,
            },
    {
        match self.swaps.get(&swap_id) {
            Some(s) => Some(s.clone()),
            None => None,
        }
    }
}

impl FusionView {
    /// The positions among the first `n` escrows, in store order, of those
    /// made by or for `account`.
    pub open spec fn account_positions(self, account: Seq<char>, n: int) -> Seq<int> {
        self.swaps.positions_where(|s: HTLCSwapView| involves(s, account), n)
    }

    /// Whether `entry` is a copy of the escrow at position `p` with its key.
    pub open spec fn shows(self, p: int, entry: (String, HTLCSwap)) -> bool {
        &&& 0 <= p < self.swaps.keys.len()
        &&& entry.0@ == self.swaps.keys[p]
        &&& entry.1@ == self.swaps.vals[p]
    }

    /// The positions of the escrows that a page of an account's escrows shows.
    pub open spec fn account_page(self, account: Seq<char>, from: u64, limit: u64) -> Seq<int> {
        page(
            self.account_positions(account, self.swaps.keys.len() as int),
            from as nat,
            limit as nat,
        )
    }

    /// Those of the first `n` identifiers in `ids`, in their order, that name
    /// an open escrow whose deadline has been reached.
    pub open spec fn expired_among(self, ids: Seq<Seq<char>>, now: u64, n: int) -> Seq<Seq<char>>
        decreases n,
    {
        if n <= 0 {
            Seq::empty()
        } else {
            let rest = self.expired_among(ids, now, n - 1);
            if self.expired_open(ids[n - 1], now) {
                rest.push(ids[n - 1])
            } else {
                rest
            }
        }
    }
}

impl FusionHTLC {
    /// The escrows made by or for `account`, in store order, skipping the
    /// first `from_index` of them and giving at most `limit`.
    pub fn get_swaps_by_account(&self, account: String, from_index: u64, limit: u64) -> (r: Vec<
        (String, HTLCSwap),
    >)
        requires
            self@.wf(),
        ensures
            r@.len() == self@.account_page(account@, from_index, limit).len(),
            forall|k: int|
                0 <= k < r@.len() ==> self@.shows(
                    self@.account_page(account@, from_index, limit)[k],
                    #[trigger] r@[k],
                ),
    {
        let n = self.swaps.len();
        let mut out: Vec<(String, HTLCSwap)> = Vec::new();
        let mut seen: u64 = 0;
        let mut i: usize = 0;
        while i < n
            invariant
                self@.wf(),
                n == self@.swaps.keys.len(),
                i <= n,
                seen == self@.account_positions(account@, i as int).len(),
                seen <= i,
                out@.len() == page(
                    self@.account_positions(account@, i as int),
                    from_index as nat,
                    limit as nat,
                ).len(),
                forall|k: int|
                    0 <= k < out@.len() ==> self@.shows(
                        page(
                            self@.account_positions(account@, i as int),
                            from_index as nat,
                            limit as nat,
                        )[k],
                        #[trigger] out@[k],
                    ),
            decreases n - i,
        {
            let swap = self.swaps.value_at(i);
            let ghost before = self@.account_positions(account@, i as int);
            let ghost shown = page(before, from_index as nat, limit as nat);
            if swap.sender == account || swap.receiver == account {
                let ghost after = self@.account_positions(account@, i + 1);
                assert(after == before.push(i as int));
                if seen >= from_index && seen - from_index < limit {
                    let ghost listed = out@;
                    let entry = (self.swaps.key_at(i).clone(), swap.clone());
                    assert(self@.shows(i as int, entry));
                    out.push(entry);
                    assert(page(after, from_index as nat, limit as nat) =~= shown.push(i as int));
                    assert forall|k: int| 0 <= k < out@.len() implies self@.shows(
                        shown.push(i as int)[k],
                        #[trigger] out@[k],
                    ) by {
                        if k < listed.len() {
                            assert(out@[k] == listed[k]);
                        }
                    }
                } else {
                    assert(page(after, from_index as nat, limit as nat) =~= shown);
                }
                seen = seen + 1;
            } else {
                assert(self@.account_positions(account@, i + 1) == before);
            }
            i = i + 1;
        }
        out
    }

    /// What is known of the escrow `swap_id` at time `now`, if it exists.
    pub fn get_swap_status(&self, swap_id: String, now: u64) -> (r: Option<SwapStatus>)
        requires
            self@.wf(),
        ensures
            match r {
                None => self@.swaps.get(swap_id@) is None,
                Some(st) => {
                    &&& self@.swaps.get(swap_id@) matches Some(s)
                    &&& st.swap_id@ == swap_id@
                    &&& st.is_completed == s.is_completed()
                    &&& st.is_refunded == s.is_refunded()
                    &&& st.amount_total == s.amount
                    &&& st.amount_remaining == s.amount_remaining()
                    &&& st.amount_claimed == s.amount_claimed()
                    &&& st.timelock == s.timelock
                    &&& st.current_time == now
                    &&& st.is_expired == (now >= s.timelock)
                    &&& st.claimers_count == (if s.state == SwapState::Claimed {
                        1u64
                    } else {
                        0u64
                    })
                    &&& st.secret_revealed == (s.secret is Some)
                },
            },
    {
        match self.swaps.get(&swap_id) {
            None => None,
            Some(s) => {
                let claimed = s.amount_claimed();
                let claimers: u64 = match s.state {
                    SwapState::Claimed => 1,
                    _ => 0,
                };
                Some(
                    SwapStatus {
                        swap_id,
                        is_completed: s.is_completed(),
                        is_refunded: s.is_refunded(),
                        amount_total: s.amount,
                        amount_remaining: s.amount_remaining(),
                        amount_claimed: claimed,
                        timelock: s.timelock,
                        current_time: now,
                        is_expired: now >= s.timelock,
                        claimers_count: claimers,
                        secret_revealed: s.secret.is_some(),
                    },
                )
            },
        }
    }

    /// Whether `swap_id` names an open escrow whose deadline has been
    /// reached at `now`, so that it waits for its refund. Nothing is changed:
    /// an escrow becomes final only through a claim or a refund.
    pub fn cleanup_expired_swap(&self, swap_id: String, now: u64) -> (expired: bool)
        requires
            self@.wf(),
        ensures
            expired == self@.expired_open(swap_id@, now),
    {
        match self.swaps.get(&swap_id) {
            None => false,
            Some(s) => {
                let open = match s.state {
                    SwapState::Open => true,
                    _ => false,
                };
                open && now >= s.timelock
            },
        }
    }

    /// Those of `swap_ids`, in their order, that name an open escrow whose
    /// deadline has been reached at `now`.
    pub fn cleanup_expired_swaps(&self, swap_ids: Vec<String>, now: u64) -> (cleaned: Vec<String>)
        requires
            self@.wf(),
        ensures
            key_views(cleaned@) == self@.expired_among(key_views(swap_ids@), now, swap_ids@.len() as int),
    {
        let n = swap_ids.len();
        let mut cleaned: Vec<String> = Vec::new();
        let mut i: usize = 0;
        while i < n
            invariant
                self@.wf(),
                n == swap_ids@.len(),
                i <= n,
                key_views(cleaned@) == self@.expired_among(key_views(swap_ids@), now, i as int),
            decreases n - i,
        {
            let id = swap_ids[i].clone();
            let ghost before = key_views(cleaned@);
            if self.cleanup_expired_swap(id.clone(), now) {
                cleaned.push(id);
                assert(key_views(cleaned@) =~= before.push(key_views(swap_ids@)[i as int]));
            }
            i = i + 1;
        }
        cleaned
    }

    /// Computes the textual commitment to `secret`.
    pub fn hash_secret(&self, secret: &String) -> (h: String)
        ensures
            h@ == commitment_of(secret@),
    {
        hash_secret(secret.as_str())
    }

    /// Derives the identifier of an escrow from its defining fields and its
    /// creation time.
    pub fn generate_swap_id(
        &self,
        sender: &String,
        receiver: &String,
        hashlock: &String,
        timelock: u64,
        now: u64,
    ) -> (id: String)
        ensures
            id@ == swap_id(sender@, receiver@, hashlock@, timelock, now),
    {
        generate_swap_id(sender.as_str(), receiver.as_str(), hashlock.as_str(), timelock, now)
    }

    /// Whether `secret` opens the commitment `hashlock`. Nothing is read or
    /// changed: a relayer can ask before it submits a claim.
    pub fn verify_secret(&self, secret: String, hashlock: String) -> (ok: bool)
        ensures
            ok == (commitment_of(secret@) == hashlock@),
    {
        secret_matches(secret.as_str(), &hashlock)
    }

    // ----- outbound request registry -----

    /// Records a request to swap `amount`, locked by `near_sender`, towards
    /// `eth_recipient` on the foreign ledger, and reports what a relayer needs
    /// to build the matching order there. The amount must be positive, the
    /// deadline later than `now`, the commitment and the foreign address well
    /// formed and the derived identifier unused.
    pub fn request_eth_swap(
        &mut self,
        near_sender: String,
        amount: u128,
        eth_recipient: String,
        eth_token: String,
        hashlock: String,
        timelock: u64,
        fusion_order_params: String,
        now: u64,
    ) -> (r: Result<EthSwapRequestedEvent, HtlcError>)
        requires
            old(self)@.wf(),
        ensures
            final(self)@.wf(),
            match r {
                Ok(ev) => {
                    &&& old(self)@.request_check(
                        near_sender@,
                        amount,
                        eth_recipient@,
                        hashlock@,
                        timelock,
                        now,
                    ) is None
                    &&& final(self)@ == old(self)@.request_apply(
                        EthSwapRequestView {
                            swap_id: request_id(
                                near_sender@,
                                eth_recipient@,
                                amount,
                                hashlock@,
                                timelock,
                                now,
                            ),
                            near_sender: near_sender@,
                            eth_recipient: eth_recipient@,
                            amount,
                            eth_token: eth_token@,
                            hashlock: hashlock@,
                            timelock,
                            fusion_order_params: fusion_order_params@,
                        },
                    )
                    &&& ev.swap_id@ == request_id(
                        near_sender@,
                        eth_recipient@,
                        amount,
                        hashlock@,
                        timelock,
                        now,
                    )
                    &&& ev.near_sender@ == near_sender@
                    &&& ev.eth_recipient@ == eth_recipient@
                    &&& ev.amount == amount
                    &&& ev.hashlock@ == hashlock@
                    &&& ev.timelock == timelock
                    &&& ev.eth_token@ == eth_token@
                },
                Err(e) => {
                    &&& old(self)@.request_check(
                        near_sender@,
                        amount,
                        eth_recipient@,
                        hashlock@,
                        timelock,
                        now,
                    ) == Some(e)
                    &&& final(self)@ == old(self)@
                },
            },
    {
        if amount == 0 {
            return Err(HtlcError::InvalidAmount);
        }
        if timelock <= now {
            return Err(HtlcError::Expired);
        }
        if !is_commitment_well_formed(hashlock.as_str()) {
            return Err(HtlcError::InvalidCommitment);
        }
        if !is_foreign_address_well_formed(eth_recipient.as_str()) {
            return Err(HtlcError::InvalidForeignAddress);
        }
        let id = generate_request_id(
            near_sender.as_str(),
            eth_recipient.as_str(),
            amount,
            hashlock.as_str(),
            timelock,
            now,
        );
        if self.eth_swap_requests.contains_key(&id) {
            return Err(HtlcError::Conflict);
        }
        let request = EthSwapRequest {
            swap_id: id.clone(),
            near_sender: near_sender.clone(),
            eth_recipient: eth_recipient.clone(),
            amount,
            eth_token: eth_token.clone(),
            hashlock: hashlock.clone(),
            timelock,
            fusion_order_params,
        };
        self.eth_swap_requests.insert(id.clone(), request);
        Ok(
            EthSwapRequestedEvent {
                swap_id: id,
                near_sender,
                eth_recipient,
                amount,
                hashlock,
                timelock,
                eth_token,
            },
        )
    }

    /// A copy of the pending request stored under `swap_id`, if there is one.
    pub fn get_eth_swap_request(&self, swap_id: String) -> (r: Option<EthSwapRequest>)
        requires
            self@.wf(),
        ensures
            match r {
                Some(q) => self@.eth_swap_requests.get(swap_id@) == Some(q@),
                None => self@.eth_swap_requests.get(swap_id@) is None,
            },
    {
        match self.eth_swap_requests.get(&swap_id) {
            Some(q) => Some(q.clone()),
            None => None,
        }
    }

    /// Settles a pending request against the secret: the request is removed
    /// and its amount is owed to `recipient`, whom the caller names. The
    /// request must exist, `now` must not lie after the deadline and the
    /// secret must hash to the commitment.
    pub fn complete_eth_swap(
        &mut self,
        swap_id: String,
        secret: String,
        recipient: String,
        now: u64,
    ) -> (r: Result<Transfer, HtlcError>)
        requires
            old(self)@.wf(),
        ensures
            final(self)@.wf(),
            match r {
                Ok(t) => {
                    &&& old(self)@.complete_check(swap_id@, secret@, now) is None
                    &&& final(self)@ == old(self)@.close_request(swap_id@)
                    &&& t@ == (TransferView {
                        to: recipient@,
                        amount: old(self)@.eth_swap_requests.get(swap_id@)->0.amount,
                    })
                },
                Err(e) => {
                    &&& old(self)@.complete_check(swap_id@, secret@, now) == Some(e)
                    &&& final(self)@ == old(self)@
                },
            },
    {
        let i = match self.eth_swap_requests.find(&swap_id) {
            Some(i) => i,
            None => {
                return Err(HtlcError::NotFound);
            },
        };
        proof {
            self@.eth_swap_requests.lemma_position(i as int);
            self@.eth_swap_requests.lemma_remove_at(i as int);
        }
        let request = self.eth_swap_requests.value_at(i);
        if now > request.timelock {
            return Err(HtlcError::Expired);
        }
        if !secret_matches(secret.as_str(), &request.hashlock) {
            return Err(HtlcError::InvalidSecret);
        }
        let amount = request.amount;
        self.eth_swap_requests.remove_at(i);
        Ok(Transfer { to: recipient, amount })
    }

    /// Gives a pending request back after its deadline: the request is
    /// removed and its amount is owed to its initiator. The request must
    /// exist and `now` must lie after the deadline.
    pub fn refund_eth_swap(&mut self, swap_id: String, now: u64) -> (r: Result<Transfer, HtlcError>)
        requires
            old(self)@.wf(),
        ensures
            final(self)@.wf(),
            match r {
                Ok(t) => {
                    &&& old(self)@.refund_request_check(swap_id@, now) is None
                    &&& final(self)@ == old(self)@.close_request(swap_id@)
                    &&& t@ == (TransferView {
                        to: old(self)@.eth_swap_requests.get(swap_id@)->0.near_sender,
                        amount: old(self)@.eth_swap_requests.get(swap_id@)->0.amount,
                    })
                },
                Err(e) => {
                    &&& old(self)@.refund_request_check(swap_id@, now) == Some(e)
                    &&& final(self)@ == old(self)@
                },
            },
    {
        let i = match self.eth_swap_requests.find(&swap_id) {
            Some(i) => i,
            None => {
                return Err(HtlcError::NotFound);
            },
        };
        proof {
            self@.eth_swap_requests.lemma_position(i as int);
            self@.eth_swap_requests.lemma_remove_at(i as int);
        }
        let request = self.eth_swap_requests.value_at(i);
        if now <= request.timelock {
            return Err(HtlcError::NotYetExpired);
        }
        let amount = request.amount;
        let to = request.near_sender.clone();
        self.eth_swap_requests.remove_at(i);
        Ok(Transfer { to, amount })
    }
}

/// As many marks as there are identifiers in progress.
pub(crate) fn marks_for(n: usize) -> (marks: Vec<bool>)
    ensures
        marks@.len() == n,
        forall|i: int| 0 <= i < n ==> marks@[i],
{
    let mut marks: Vec<bool> = Vec::new();
    let mut m: usize = 0;
    while m < n
        invariant
            m <= n,
            marks@.len() == m,
            forall|i: int| 0 <= i < m ==> marks@[i],
        decreases n - m,
    {
        marks.push(true);
        m = m + 1;
    }
    marks
}

/// What the engine asks of each escrow: a positive amount, and a secret
/// exactly when it was claimed.
pub open spec fn swap_sound(s: HTLCSwapView) -> bool {
    s.amount > 0 && (s.secret is Some <==> s.state == SwapState::Claimed)
}

/// Decides whether every escrow of a table is sound.
fn swaps_are_sound(swaps: &Table<HTLCSwap>) -> (ok: bool)
    requires
        swaps@.wf(),
    ensures
        ok == (forall|k: int| 0 <= k < swaps@.vals.len() ==> swap_sound(#[trigger] swaps@.vals[k])),
{
    let n = swaps.len();
    let mut i: usize = 0;
    while i < n
        invariant
            swaps@.wf(),
            n == swaps@.keys.len(),
            i <= n,
            forall|k: int| 0 <= k < i ==> swap_sound(#[trigger] swaps@.vals[k]),
        decreases n - i,
    {
        let s = swaps.value_at(i);
        let claimed = match s.state {
            SwapState::Claimed => true,
            _ => false,
        };
        if s.amount == 0 || s.secret.is_some() != claimed {
            assert(!swap_sound(swaps@.vals[i as int]));
            return false;
        }
        i = i + 1;
    }
    true
}

/// Decides whether every request of a table has a positive amount and is
/// stored under its own identifier.
fn requests_are_sound(requests: &Table<EthSwapRequest>) -> (ok: bool)
    requires
        requests@.wf(),
    ensures
        ok == (forall|k: int|
            0 <= k < requests@.vals.len() ==> (#[trigger] requests@.vals[k]).amount > 0
                && requests@.vals[k].swap_id == requests@.keys[k]),
{
    let n = requests.len();
    let mut i: usize = 0;
    while i < n
        invariant
            requests@.wf(),
            n == requests@.keys.len(),
            i <= n,
            forall|k: int|
                0 <= k < i ==> (#[trigger] requests@.vals[k]).amount > 0 && requests@.vals[k].swap_id
                    == requests@.keys[k],
        decreases n - i,
    {
        let q = requests.value_at(i);
        if q.amount == 0 || !(q.swap_id == *requests.key_at(i)) {
            assert(!(requests@.vals[i as int].amount > 0 && requests@.vals[i as int].swap_id
                == requests@.keys[i as int]));
            return false;
        }
        i = i + 1;
    }
    true
}

/// The contents of an engine as plain lists, to be kept between calls: each
/// table as its keys and, at the same positions, its values.
#[derive(Debug)]
pub struct FusionState {
    pub owner: String,
    pub swap_ids: Vec<String>,
    pub swaps: Vec<HTLCSwap>,
    pub request_ids: Vec<String>,
    pub requests: Vec<EthSwapRequest>,
    /// The identifiers whose payout has been started and not finished.
    pub claims_in_progress: Vec<String>,
}

impl View for FusionState {
    type V = FusionView;

    open spec fn view(&self) -> FusionView {
        FusionView {
            swaps: TableView { keys: key_views(self.swap_ids@), vals: value_views(self.swaps@) },
            eth_swap_requests: TableView {
                keys: key_views(self.request_ids@),
                vals: value_views(self.requests@),
            },
            owner: self.owner@,
            claims_in_progress: TableView {
                keys: key_views(self.claims_in_progress@),
                vals: Seq::new(self.claims_in_progress@.len(), |i: int| true),
            },
        }
    }
}

impl FusionHTLC {
    /// Takes the engine apart into plain lists.
    pub fn into_state(self) -> (state: FusionState)
        requires
            self@.wf(),
        ensures
            state@ == self@,
    {
        let ghost model = self@;
        let (swap_ids, swaps) = self.swaps.into_parts();
        let (request_ids, requests) = self.eth_swap_requests.into_parts();
        let (claims_in_progress, marks) = self.claims_in_progress.into_parts();
        let state = FusionState {
            owner: self.owner,
            swap_ids,
            swaps,
            request_ids,
            requests,
            claims_in_progress,
        };
        assert(state@.claims_in_progress.vals =~= model.claims_in_progress.vals);
        state
    }

    /// Rebuilds an engine from plain lists. There is an engine with these
    /// contents exactly when they meet the invariant of the engine: no
    /// identifier occurs twice in a table, every amount is positive, an
    /// escrow holds a secret exactly when it was claimed, and every request
    /// is stored under its own identifier.
    pub fn from_state(state: FusionState) -> (r: Option<Self>)
        ensures
            match r {
                Some(e) => state@.wf() && e@ == state@,
                None => !state@.wf(),
            },
    {
        let ghost model = state@;
        let FusionState { owner, swap_ids, swaps, request_ids, requests, claims_in_progress } =
            state;
        let marks = marks_for(claims_in_progress.len());
        assert(value_views(marks@) =~= model.claims_in_progress.vals);
        let swaps = match Table::from_parts(swap_ids, swaps) {
            Some(t) => t,
            None => {
                return None;
            },
        };
        let eth_swap_requests = match Table::from_parts(request_ids, requests) {
            Some(t) => t,
            None => {
                return None;
            },
        };
        let claims_in_progress = match Table::from_parts(claims_in_progress, marks) {
            Some(t) => t,
            None => {
                return None;
            },
        };
        if !swaps_are_sound(&swaps) || !requests_are_sound(&eth_swap_requests) {
            return None;
        }
        Some(FusionHTLC { swaps, eth_swap_requests, owner, claims_in_progress })
    }
}

} // verus!
