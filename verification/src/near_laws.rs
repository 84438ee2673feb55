//! What holds of the engine with binary commitments and of its order book
//! over every state and every sequence of operations.

use vstd::prelude::*;
use crate::contract::{CrossChainHTLCView, FillState, HTLCContractView};
use crate::error::HtlcError;
use crate::fills::{created_count, locked_sum};
use crate::hashing::sha256_digest;
use crate::ids::{contract_id, order_id};
use crate::near::{order_ok, NearView};
use crate::swap::SwapState;

verus! {

/// An operation that can change the engine, with its arguments.
pub enum NearOp {
    AuthorizeResolver { caller: Seq<char>, resolver: Seq<char>, enabled: bool },
    CreateHtlc {
        sender: Seq<char>,
        receiver: Seq<char>,
        amount: u128,
        hashlock: Seq<u8>,
        timelock: u64,
        eth_address: Seq<char>,
        now: u64,
    },
    Withdraw { contract_id: Seq<char>, preimage: Seq<u8>, caller: Seq<char>, now: u64 },
    Refund { contract_id: Seq<char>, caller: Seq<char>, now: u64 },
    CreateCrossChainHtlc {
        sender: Seq<char>,
        receiver: Seq<char>,
        amount: u128,
        hashlock: Seq<u8>,
        timelock: u64,
        eth_address: Seq<char>,
        now: u64,
    },
    CompleteCrossChainSwap {
        contract_id: Seq<char>,
        preimage: Seq<u8>,
        eth_tx_hash: Seq<char>,
        caller: Seq<char>,
        now: u64,
    },
    RefundCrossChain { contract_id: Seq<char>, caller: Seq<char>, now: u64 },
    CreatePartialFillSwap {
        sender: Seq<char>,
        receiver: Seq<char>,
        total_amount: u128,
        eth_address: Seq<char>,
        timelock: u64,
        now: u64,
    },
    CreatePartialFill {
        swap_id: Seq<char>,
        hashlock: Seq<u8>,
        fill_amount: u128,
        caller: Seq<char>,
        attached: u128,
        now: u64,
    },
    CompletePartialFill {
        fill_id: Seq<char>,
        preimage: Seq<u8>,
        eth_tx_hash: Seq<char>,
        caller: Seq<char>,
        now: u64,
    },
    RefundPartialFill { fill_id: Seq<char>, caller: Seq<char>, now: u64 },
    MarkClaimInProgress { id: Seq<char> },
    ClearClaimInProgress { id: Seq<char> },
}

/// The engine after `op`: changed as the operation says when it is
/// admitted, unchanged when it is refused.
pub open spec fn step(s: NearView, op: NearOp) -> NearView {
    match op {
        NearOp::AuthorizeResolver { caller, resolver, enabled } => {
            if s.owner_check(caller) is None {
                s.authorize_apply(resolver, enabled)
            } else {
                s
            }
        },
        NearOp::CreateHtlc { sender, receiver, amount, hashlock, timelock, eth_address, now } => {
            if s.create_htlc_check(sender, receiver, amount, hashlock, timelock, now) is None {
                s.create_htlc_apply(
                    contract_id(""@, sender, receiver, amount, now),
                    HTLCContractView {
                        sender,
                        receiver,
                        amount,
                        hashlock,
                        timelock,
                        state: SwapState::Open,
                        eth_address,
                    },
                )
            } else {
                s
            }
        },
        NearOp::Withdraw { contract_id, preimage, caller, now } => {
            if s.withdraw_check(contract_id, preimage, caller, now) is None {
                s.settle_htlc(contract_id, SwapState::Claimed)
            } else {
                s
            }
        },
        NearOp::Refund { contract_id, caller, now } => {
            if s.refund_check(contract_id, caller, now) is None {
                s.settle_htlc(contract_id, SwapState::Refunded)
            } else {
                s
            }
        },
        NearOp::CreateCrossChainHtlc {
            sender,
            receiver,
            amount,
            hashlock,
            timelock,
            eth_address,
            now,
        } => {
            if s.create_cross_chain_check(
                sender,
                receiver,
                amount,
                hashlock,
                timelock,
                eth_address,
                now,
            ) is None {
                s.create_cross_chain_apply(
                    contract_id("cc-"@, sender, receiver, amount, now),
                    CrossChainHTLCView {
                        sender,
                        receiver,
                        amount,
                        hashlock,
                        timelock,
                        state: SwapState::Open,
                        eth_address,
                        eth_tx_hash: None,
                    },
                )
            } else {
                s
            }
        },
        NearOp::CompleteCrossChainSwap { contract_id, preimage, eth_tx_hash, caller, now } => {
            if s.complete_cross_chain_check(contract_id, preimage, caller, now) is None {
                s.settle_cross_chain(contract_id, SwapState::Claimed, Some(eth_tx_hash))
            } else {
                s
            }
        },
        NearOp::RefundCrossChain { contract_id, caller, now } => {
            if s.refund_cross_chain_check(contract_id, caller, now) is None {
                s.settle_cross_chain(
                    contract_id,
                    SwapState::Refunded,
                    s.cross_chain_contracts.get(contract_id)->0.eth_tx_hash,
                )
            } else {
                s
            }
        },
        NearOp::CreatePartialFillSwap {
            sender,
            receiver,
            total_amount,
            eth_address,
            timelock,
            now,
        } => {
            if s.create_order_check(sender, total_amount, eth_address, timelock, now) is None {
                s.create_order_apply(
                    NearView::new_order(sender, receiver, total_amount, eth_address, timelock, now),
                )
            } else {
                s
            }
        },
        NearOp::CreatePartialFill { swap_id, hashlock, fill_amount, caller, attached, now } => {
            if s.create_fill_check(swap_id, hashlock, fill_amount, caller, attached, now) is None {
                s.create_fill_apply(swap_id, hashlock, fill_amount, caller, now)
            } else {
                s
            }
        },
        NearOp::CompletePartialFill { fill_id, preimage, eth_tx_hash, caller, now } => {
            if s.complete_fill_check(fill_id, preimage, caller, now) is None {
                s.complete_fill_apply(fill_id, eth_tx_hash)
            } else {
                s
            }
        },
        NearOp::RefundPartialFill { fill_id, caller, now } => {
            if s.refund_fill_check(fill_id, caller, now) is None {
                s.refund_fill_apply(fill_id)
            } else {
                s
            }
        },
        NearOp::MarkClaimInProgress { id } => {
            if s.claiming(id) {
                s
            } else {
                NearView { claims_in_progress: s.claims_in_progress.insert(id, true), ..s }
            }
        },
        NearOp::ClearClaimInProgress { id } => {
            NearView { claims_in_progress: s.claims_in_progress.remove(id), ..s }
        },
    }
}

/// The engine after `ops` have been applied one after the other.
pub open spec fn run(s: NearView, ops: Seq<NearOp>) -> NearView
    decreases ops.len(),
{
    if ops.len() == 0 {
        s
    } else {
        run(step(s, ops[0]), ops.drop_first())
    }
}

/// The kinds of record on whose account the ledger is asked for transfers.
pub enum Kind {
    Contract,
    CrossChain,
    Fill,
}

/// Whether `op`, applied to `s`, asks the ledger for a transfer on account
/// of the record `id` of the given kind: an admitted payout or refund of it.
pub open spec fn pays(s: NearView, op: NearOp, kind: Kind, id: Seq<char>) -> bool {
    match op {
        NearOp::Withdraw { contract_id, preimage, caller, now } => kind is Contract && contract_id
            == id && s.withdraw_check(contract_id, preimage, caller, now) is None,
        NearOp::Refund { contract_id, caller, now } => kind is Contract && contract_id == id
            && s.refund_check(contract_id, caller, now) is None,
        NearOp::CompleteCrossChainSwap { contract_id, preimage, eth_tx_hash, caller, now } => {
            kind is CrossChain && contract_id == id && s.complete_cross_chain_check(
                contract_id,
                preimage,
                caller,
                now,
            ) is None
        },
        NearOp::RefundCrossChain { contract_id, caller, now } => kind is CrossChain && contract_id
            == id && s.refund_cross_chain_check(contract_id, caller, now) is None,
        NearOp::CompletePartialFill { fill_id, preimage, eth_tx_hash, caller, now } => kind is Fill
            && fill_id == id && s.complete_fill_check(fill_id, preimage, caller, now) is None,
        NearOp::RefundPartialFill { fill_id, caller, now } => kind is Fill && fill_id == id
            && s.refund_fill_check(fill_id, caller, now) is None,
        _ => false,
    }
}

/// The number of transfers that the ledger is asked for on account of the
/// record `id` of the given kind while `ops` are applied to `s` one after
/// the other.
pub open spec fn payouts(s: NearView, ops: Seq<NearOp>, kind: Kind, id: Seq<char>) -> nat
    decreases ops.len(),
{
    if ops.len() == 0 {
        0
    } else {
        (if pays(s, ops[0], kind, id) {
            1nat
        } else {
            0nat
        }) + payouts(step(s, ops[0]), ops.drop_first(), kind, id)
    }
}

/// Whether the record `id` of the given kind exists and is final.
pub open spec fn settled(s: NearView, kind: Kind, id: Seq<char>) -> bool {
    match kind {
        Kind::Contract => s.contracts.get(id) matches Some(c) && c.state != SwapState::Open,
        Kind::CrossChain => s.cross_chain_contracts.get(id) matches Some(c) && c.state
            != SwapState::Open,
        Kind::Fill => s.partial_fills.get(id) matches Some(f) && f.state != FillState::Open,
    }
}

/// The tables of records that pay out hold no key twice.
pub open spec fn tables_wf(s: NearView) -> bool {
    &&& s.contracts.wf()
    &&& s.cross_chain_contracts.wf()
    &&& s.partial_fills.wf()
}

/// No operation makes a table of records ill-formed, and none reopens or
/// removes a final record; an operation that pays on account of a record
/// finds it open and leaves it final.
pub proof fn lemma_step_keeps_records(s: NearView, op: NearOp, kind: Kind, id: Seq<char>)
    requires
        tables_wf(s),
    ensures
        tables_wf(step(s, op)),
        settled(s, kind, id) ==> settled(step(s, op), kind, id),
        pays(s, op, kind, id) ==> settled(step(s, op), kind, id),
        pays(s, op, kind, id) ==> !settled(s, kind, id),
{
    let t = step(s, op);
    match op {
        NearOp::CreateHtlc { sender, receiver, amount, hashlock, timelock, eth_address, now } => {
            if s.create_htlc_check(sender, receiver, amount, hashlock, timelock, now) is None {
                let key = contract_id(""@, sender, receiver, amount, now);
                s.contracts.lemma_insert(key, t.contracts.vals.last());
                assert(t.contracts == s.contracts.insert(key, t.contracts.vals.last()));
            }
        },
        NearOp::Withdraw { contract_id, preimage, caller, now } => {
            if s.withdraw_check(contract_id, preimage, caller, now) is None {
                s.contracts.lemma_index_of(contract_id);
                let i = s.contracts.index_of(contract_id);
                s.contracts.lemma_update_at(i, t.contracts.vals[i]);
                assert(t.contracts == s.contracts.update_at(i, t.contracts.vals[i]));
            }
        },
        NearOp::Refund { contract_id, caller, now } => {
            if s.refund_check(contract_id, caller, now) is None {
                s.contracts.lemma_index_of(contract_id);
                let i = s.contracts.index_of(contract_id);
                s.contracts.lemma_update_at(i, t.contracts.vals[i]);
                assert(t.contracts == s.contracts.update_at(i, t.contracts.vals[i]));
            }
        },
        NearOp::CreateCrossChainHtlc {
            sender,
            receiver,
            amount,
            hashlock,
            timelock,
            eth_address,
            now,
        } => {
            if s.create_cross_chain_check(
                sender,
                receiver,
                amount,
                hashlock,
                timelock,
                eth_address,
                now,
            ) is None {
                let key = contract_id("cc-"@, sender, receiver, amount, now);
                s.cross_chain_contracts.lemma_insert(key, t.cross_chain_contracts.vals.last());
                assert(t.cross_chain_contracts == s.cross_chain_contracts.insert(
                    key,
                    t.cross_chain_contracts.vals.last(),
                ));
            }
        },
        NearOp::CompleteCrossChainSwap { contract_id, preimage, eth_tx_hash, caller, now } => {
            if s.complete_cross_chain_check(contract_id, preimage, caller, now) is None {
                s.cross_chain_contracts.lemma_index_of(contract_id);
                let i = s.cross_chain_contracts.index_of(contract_id);
                s.cross_chain_contracts.lemma_update_at(i, t.cross_chain_contracts.vals[i]);
                assert(t.cross_chain_contracts == s.cross_chain_contracts.update_at(
                    i,
                    t.cross_chain_contracts.vals[i],
                ));
            }
        },
        NearOp::RefundCrossChain { contract_id, caller, now } => {
            if s.refund_cross_chain_check(contract_id, caller, now) is None {
                s.cross_chain_contracts.lemma_index_of(contract_id);
                let i = s.cross_chain_contracts.index_of(contract_id);
                s.cross_chain_contracts.lemma_update_at(i, t.cross_chain_contracts.vals[i]);
                assert(t.cross_chain_contracts == s.cross_chain_contracts.update_at(
                    i,
                    t.cross_chain_contracts.vals[i],
                ));
            }
        },
        NearOp::CreatePartialFill { swap_id, hashlock, fill_amount, caller, attached, now } => {
            if s.create_fill_check(swap_id, hashlock, fill_amount, caller, attached, now) is None {
                let key = order_id("fill-"@, swap_id, fill_amount, now);
                s.partial_fills.lemma_insert(key, t.partial_fills.vals.last());
                assert(t.partial_fills == s.partial_fills.insert(key, t.partial_fills.vals.last()));
            }
        },
        NearOp::CompletePartialFill { fill_id, preimage, eth_tx_hash, caller, now } => {
            if s.complete_fill_check(fill_id, preimage, caller, now) is None {
                s.partial_fills.lemma_index_of(fill_id);
                let j = s.partial_fills.index_of(fill_id);
                s.partial_fills.lemma_update_at(j, t.partial_fills.vals[j]);
                assert(t.partial_fills == s.partial_fills.update_at(j, t.partial_fills.vals[j]));
            }
        },
        NearOp::RefundPartialFill { fill_id, caller, now } => {
            if s.refund_fill_check(fill_id, caller, now) is None {
                s.partial_fills.lemma_index_of(fill_id);
                let j = s.partial_fills.index_of(fill_id);
                s.partial_fills.lemma_update_at(j, t.partial_fills.vals[j]);
                assert(t.partial_fills == s.partial_fills.update_at(j, t.partial_fills.vals[j]));
            }
        },
        _ => {},
    }
}

/// At-most-once payout, first half: once a record is final, no sequence of
/// operations makes the ledger pay on its account.
pub proof fn law_settled_record_never_pays(s: NearView, ops: Seq<NearOp>, kind: Kind, id: Seq<char>)
    requires
        tables_wf(s),
        settled(s, kind, id),
    ensures
        payouts(s, ops, kind, id) == 0,
    decreases ops.len(),
{
    if ops.len() > 0 {
        lemma_step_keeps_records(s, ops[0], kind, id);
        law_settled_record_never_pays(step(s, ops[0]), ops.drop_first(), kind, id);
    }
}

/// At-most-once payout: whatever operations are applied to an engine, in
/// whatever order and with whatever arguments, the ledger is asked at most
/// once for a transfer on account of any one escrow or fill.
pub proof fn law_record_pays_at_most_once(s: NearView, ops: Seq<NearOp>, kind: Kind, id: Seq<char>)
    requires
        tables_wf(s),
    ensures
        payouts(s, ops, kind, id) <= 1,
    decreases ops.len(),
{
    if ops.len() > 0 {
        lemma_step_keeps_records(s, ops[0], kind, id);
        if pays(s, ops[0], kind, id) {
            law_settled_record_never_pays(step(s, ops[0]), ops.drop_first(), kind, id);
        } else {
            law_record_pays_at_most_once(step(s, ops[0]), ops.drop_first(), kind, id);
        }
    }
}

/// Conservation: in an engine that meets its invariant, what is filled of an
/// order and what remains of it make up its total, the order is complete
/// exactly when nothing remains, and what is filled is what its fills that
/// were not refunded lock.
pub proof fn law_conservation(s: NearView, id: Seq<char>)
    requires
        s.wf(),
        s.partial_fill_swaps.contains(id),
    ensures
        ({
            let o = s.partial_fill_swaps.get(id)->0;
            &&& o.filled_amount + o.remaining_amount == o.total_amount
            &&& o.completed <==> o.remaining_amount == 0
            &&& o.filled_amount == locked_sum(
                s.partial_fills.vals,
                id,
                s.partial_fills.vals.len() as int,
            )
            &&& o.fill_count == created_count(
                s.partial_fills.vals,
                id,
                s.partial_fills.vals.len() as int,
            )
        }),
{
    s.partial_fill_swaps.lemma_index_of(id);
    let i = s.partial_fill_swaps.index_of(id);
    assert(order_ok(s.partial_fill_swaps, s.partial_fills, i));
}

/// Every operation keeps the invariant of the engine, as long as the number
/// of fills fits the counter of an order, and adds at most one fill.
pub proof fn lemma_step_keeps_wf(s: NearView, op: NearOp)
    requires
        s.wf(),
        s.partial_fills.keys.len() < u64::MAX,
    ensures
        step(s, op).wf(),
        step(s, op).partial_fills.keys.len() <= s.partial_fills.keys.len() + 1,
{
    let t = step(s, op);
    match op {
        NearOp::AuthorizeResolver { caller, resolver, enabled } => {
            if s.owner_check(caller) is None {
                if s.authorized_resolvers.contains(resolver) {
                    s.authorized_resolvers.lemma_index_of(resolver);
                    s.authorized_resolvers.lemma_update_at(
                        s.authorized_resolvers.index_of(resolver),
                        enabled,
                    );
                } else {
                    s.authorized_resolvers.lemma_insert(resolver, enabled);
                }
            }
        },
        NearOp::CreateHtlc { sender, receiver, amount, hashlock, timelock, eth_address, now } => {
            if s.create_htlc_check(sender, receiver, amount, hashlock, timelock, now) is None {
                s.contracts.lemma_insert(
                    contract_id(""@, sender, receiver, amount, now),
                    t.contracts.vals.last(),
                );
            }
        },
        NearOp::Withdraw { contract_id, preimage, caller, now } => {
            if s.withdraw_check(contract_id, preimage, caller, now) is None {
                s.contracts.lemma_index_of(contract_id);
                let i = s.contracts.index_of(contract_id);
                s.contracts.lemma_update_at(i, t.contracts.vals[i]);
            }
        },
        NearOp::Refund { contract_id, caller, now } => {
            if s.refund_check(contract_id, caller, now) is None {
                s.contracts.lemma_index_of(contract_id);
                let i = s.contracts.index_of(contract_id);
                s.contracts.lemma_update_at(i, t.contracts.vals[i]);
            }
        },
        NearOp::CreateCrossChainHtlc {
            sender,
            receiver,
            amount,
            hashlock,
            timelock,
            eth_address,
            now,
        } => {
            if s.create_cross_chain_check(
                sender,
                receiver,
                amount,
                hashlock,
                timelock,
                eth_address,
                now,
            ) is None {
                s.cross_chain_contracts.lemma_insert(
                    contract_id("cc-"@, sender, receiver, amount, now),
                    t.cross_chain_contracts.vals.last(),
                );
            }
        },
        NearOp::CompleteCrossChainSwap { contract_id, preimage, eth_tx_hash, caller, now } => {
            if s.complete_cross_chain_check(contract_id, preimage, caller, now) is None {
                s.cross_chain_contracts.lemma_index_of(contract_id);
                let i = s.cross_chain_contracts.index_of(contract_id);
                s.cross_chain_contracts.lemma_update_at(i, t.cross_chain_contracts.vals[i]);
            }
        },
        NearOp::RefundCrossChain { contract_id, caller, now } => {
            if s.refund_cross_chain_check(contract_id, caller, now) is None {
                s.cross_chain_contracts.lemma_index_of(contract_id);
                let i = s.cross_chain_contracts.index_of(contract_id);
                s.cross_chain_contracts.lemma_update_at(i, t.cross_chain_contracts.vals[i]);
            }
        },
        NearOp::CreatePartialFillSwap {
            sender,
            receiver,
            total_amount,
            eth_address,
            timelock,
            now,
        } => {
            if s.create_order_check(sender, total_amount, eth_address, timelock, now) is None {
                s.lemma_create_order_keeps_wf(
                    sender,
                    receiver,
                    total_amount,
                    eth_address,
                    timelock,
                    now,
                );
            }
        },
        NearOp::CreatePartialFill { swap_id, hashlock, fill_amount, caller, attached, now } => {
            if s.create_fill_check(swap_id, hashlock, fill_amount, caller, attached, now) is None {
                s.lemma_create_fill_keeps_wf(swap_id, hashlock, fill_amount, caller, attached, now);
            }
        },
        NearOp::CompletePartialFill { fill_id, preimage, eth_tx_hash, caller, now } => {
            if s.complete_fill_check(fill_id, preimage, caller, now) is None {
                s.lemma_complete_fill_keeps_wf(fill_id, eth_tx_hash);
            }
        },
        NearOp::RefundPartialFill { fill_id, caller, now } => {
            if s.refund_fill_check(fill_id, caller, now) is None {
                s.lemma_refund_fill_keeps_wf(fill_id, caller, now);
            }
        },
        NearOp::MarkClaimInProgress { id } => {
            if !s.claiming(id) {
                s.claims_in_progress.lemma_insert(id, true);
            }
        },
        NearOp::ClearClaimInProgress { id } => {
            if s.claiming(id) {
                s.claims_in_progress.lemma_index_of(id);
                s.claims_in_progress.lemma_remove_at(s.claims_in_progress.index_of(id));
            }
        },
    }
}

/// Conservation at every observable point: whatever operations are applied
/// to an engine that meets its invariant, in whatever order and with
/// whatever arguments, the engine meets it afterwards, and what is filled of
/// each order and what remains of it make up its total. The number of fills
/// must fit the counter of an order.
pub proof fn law_conservation_along_every_run(s: NearView, ops: Seq<NearOp>)
    requires
        s.wf(),
        s.partial_fills.keys.len() + ops.len() <= u64::MAX,
    ensures
        run(s, ops).wf(),
        forall|i: int|
            0 <= i < run(s, ops).partial_fill_swaps.vals.len() ==> (
            #[trigger] run(s, ops).partial_fill_swaps.vals[i]).balanced(),
    decreases ops.len(),
{
    if ops.len() > 0 {
        lemma_step_keeps_wf(s, ops[0]);
        law_conservation_along_every_run(step(s, ops[0]), ops.drop_first());
    } else {
        assert forall|i: int| 0 <= i < s.partial_fill_swaps.vals.len() implies (
        #[trigger] s.partial_fill_swaps.vals[i]).balanced() by {
            assert(order_ok(s.partial_fill_swaps, s.partial_fills, i));
        }
    }
}

/// Reopening on refund: after a fill has been refunded, its order counts
/// less as filled and more as remaining by the amount of the fill, is not
/// complete, and admits every new fill by its sender that is positive, does
/// not exceed what remains, comes with a commitment of 32 bytes and with
/// exactly its amount attached, and whose identifier is unused.
pub proof fn law_refund_reopens_order(
    s: NearView,
    fill_id: Seq<char>,
    caller: Seq<char>,
    now: u64,
    hashlock: Seq<u8>,
    amount: u128,
    now2: u64,
)
    requires
        s.wf(),
        s.refund_fill_check(fill_id, caller, now) is None,
    ensures
        ({
            let f = s.partial_fills.get(fill_id)->0;
            let before = s.partial_fill_swaps.get(f.parent_swap_id)->0;
            let t = s.refund_fill_apply(fill_id);
            let after = t.partial_fill_swaps.get(f.parent_swap_id)->0;
            &&& after.filled_amount == before.filled_amount - f.fill_amount
            &&& after.remaining_amount == before.remaining_amount + f.fill_amount
            &&& after.fill_count == before.fill_count
            &&& !after.completed
            &&& (0 < amount <= after.remaining_amount && hashlock.len() == 32
                && !t.partial_fills.contains(order_id("fill-"@, f.parent_swap_id, amount, now2))
                ==> t.create_fill_check(
                f.parent_swap_id,
                hashlock,
                amount,
                before.sender,
                amount,
                now2,
            ) is None)
        }),
{
    s.lemma_refund_fill_keeps_wf(fill_id, caller, now);
}

/// Completion leaves the accounts: completing a fill changes no order.
pub proof fn law_completion_keeps_accounts(s: NearView, fill_id: Seq<char>, eth_tx_hash: Seq<char>)
    ensures
        s.complete_fill_apply(fill_id, eth_tx_hash).partial_fill_swaps == s.partial_fill_swaps,
{
}

/// Commitment soundness of a plain escrow: where nothing else stands in the
/// way, a withdrawal is admitted exactly when the digest of the preimage
/// equals the whole stored commitment, and is refused as an invalid secret
/// otherwise.
pub proof fn law_withdraw_needs_the_preimage(
    s: NearView,
    id: Seq<char>,
    preimage: Seq<u8>,
    caller: Seq<char>,
    now: u64,
)
    requires
        s.contracts.get(id) matches Some(c) && c.state == SwapState::Open && now < c.timelock
            && caller == c.receiver,
        !s.claiming(id),
    ensures
        s.withdraw_check(id, preimage, caller, now) is None <==> sha256_digest(preimage)
            == s.contracts.get(id)->0.hashlock,
        sha256_digest(preimage) != s.contracts.get(id)->0.hashlock ==> s.withdraw_check(
            id,
            preimage,
            caller,
            now,
        ) == Some(HtlcError::InvalidSecret),
{
}

/// Commitment soundness of a cross-chain escrow, as for a plain escrow.
pub proof fn law_complete_cross_chain_needs_the_preimage(
    s: NearView,
    id: Seq<char>,
    preimage: Seq<u8>,
    caller: Seq<char>,
    now: u64,
)
    requires
        s.cross_chain_contracts.get(id) matches Some(c) && c.state == SwapState::Open && now
            < c.timelock && caller == c.receiver,
        !s.claiming(id),
    ensures
        s.complete_cross_chain_check(id, preimage, caller, now) is None <==> sha256_digest(preimage)
            == s.cross_chain_contracts.get(id)->0.hashlock,
        sha256_digest(preimage) != s.cross_chain_contracts.get(id)->0.hashlock
            ==> s.complete_cross_chain_check(id, preimage, caller, now) == Some(
            HtlcError::InvalidSecret,
        ),
{
}

/// Commitment soundness of a fill, as for a plain escrow.
pub proof fn law_complete_fill_needs_the_preimage(
    s: NearView,
    id: Seq<char>,
    preimage: Seq<u8>,
    caller: Seq<char>,
    now: u64,
)
    requires
        s.partial_fills.get(id) matches Some(f) && f.state == FillState::Open && now < f.timelock
            && caller == f.receiver,
        !s.claiming(id),
    ensures
        s.complete_fill_check(id, preimage, caller, now) is None <==> sha256_digest(preimage)
            == s.partial_fills.get(id)->0.hashlock,
        sha256_digest(preimage) != s.partial_fills.get(id)->0.hashlock ==> s.complete_fill_check(
            id,
            preimage,
            caller,
            now,
        ) == Some(HtlcError::InvalidSecret),
{
}

/// Time-gating of a plain escrow: from the deadline on every withdrawal of
/// an open escrow is refused as expired, before it every refund is refused
/// as not yet expired; so no time admits both.
pub proof fn law_contract_is_time_gated(
    s: NearView,
    id: Seq<char>,
    preimage: Seq<u8>,
    caller: Seq<char>,
    now: u64,
)
    requires
        s.contracts.get(id) matches Some(c) && c.state == SwapState::Open,
    ensures
        now >= s.contracts.get(id)->0.timelock ==> s.withdraw_check(id, preimage, caller, now)
            == Some(HtlcError::Expired),
        now < s.contracts.get(id)->0.timelock ==> s.refund_check(id, caller, now) == Some(
            HtlcError::NotYetExpired,
        ),
        !(s.withdraw_check(id, preimage, caller, now) is None && s.refund_check(
            id,
            caller,
            now,
        ) is None),
{
}

/// Time-gating of a cross-chain escrow, as for a plain escrow.
pub proof fn law_cross_chain_is_time_gated(
    s: NearView,
    id: Seq<char>,
    preimage: Seq<u8>,
    caller: Seq<char>,
    now: u64,
)
    requires
        s.cross_chain_contracts.get(id) matches Some(c) && c.state == SwapState::Open,
    ensures
        now >= s.cross_chain_contracts.get(id)->0.timelock ==> s.complete_cross_chain_check(
            id,
            preimage,
            caller,
            now,
        ) == Some(HtlcError::Expired),
        now < s.cross_chain_contracts.get(id)->0.timelock ==> s.refund_cross_chain_check(
            id,
            caller,
            now,
        ) == Some(HtlcError::NotYetExpired),
        !(s.complete_cross_chain_check(id, preimage, caller, now) is None
            && s.refund_cross_chain_check(id, caller, now) is None),
{
}

/// Time-gating of a fill, as for a plain escrow.
pub proof fn law_fill_is_time_gated(
    s: NearView,
    id: Seq<char>,
    preimage: Seq<u8>,
    caller: Seq<char>,
    now: u64,
)
    requires
        s.partial_fills.get(id) matches Some(f) && f.state == FillState::Open,
    ensures
        now >= s.partial_fills.get(id)->0.timelock ==> s.complete_fill_check(
            id,
            preimage,
            caller,
            now,
        ) == Some(HtlcError::Expired),
        now < s.partial_fills.get(id)->0.timelock ==> s.refund_fill_check(id, caller, now) == Some(
            HtlcError::NotYetExpired,
        ),
        !(s.complete_fill_check(id, preimage, caller, now) is None && s.refund_fill_check(
            id,
            caller,
            now,
        ) is None),
{
}

/// Idempotent refusal: after an operation has paid on account of a record,
/// every further payout and every further refund of that record is refused
/// as already finalized, whatever preimage, caller and time it comes with.
pub proof fn law_second_settlement_is_refused(
    s: NearView,
    op: NearOp,
    kind: Kind,
    id: Seq<char>,
    preimage: Seq<u8>,
    caller: Seq<char>,
    now: u64,
)
    requires
        tables_wf(s),
        pays(s, op, kind, id),
    ensures
        match kind {
            Kind::Contract => step(s, op).withdraw_check(id, preimage, caller, now) == Some(
                HtlcError::AlreadyFinalized,
            ) && step(s, op).refund_check(id, caller, now) == Some(HtlcError::AlreadyFinalized),
            Kind::CrossChain => step(s, op).complete_cross_chain_check(id, preimage, caller, now)
                == Some(HtlcError::AlreadyFinalized) && step(s, op).refund_cross_chain_check(
                id,
                caller,
                now,
            ) == Some(HtlcError::AlreadyFinalized),
            Kind::Fill => step(s, op).complete_fill_check(id, preimage, caller, now) == Some(
                HtlcError::AlreadyFinalized,
            ) && step(s, op).refund_fill_check(id, caller, now) == Some(
                HtlcError::AlreadyFinalized,
            ),
        },
{
    lemma_step_keeps_records(s, op, kind, id);
}

} // verus!
