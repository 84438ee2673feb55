//! What holds of the escrow store and of the request registry over every
//! state and every sequence of operations.

use vstd::prelude::*;
use crate::error::HtlcError;
use crate::fusion::FusionView;
use crate::hashing::commitment_of;
use crate::swap::{EthSwapRequestView, SwapState};
use crate::ids::request_id;

verus! {

/// An operation that can change the engine, with its arguments.
pub enum FusionOp {
    InitiateSwap {
        sender: Seq<char>,
        receiver: Seq<char>,
        amount: u128,
        hashlock: Seq<char>,
        timelock: u64,
        eth_tx_hash: Option<Seq<char>>,
        now: u64,
    },
    ClaimSwap { swap_id: Seq<char>, secret: Seq<char>, claimer: Seq<char>, now: u64 },
    RefundSwap { swap_id: Seq<char>, refunder: Seq<char>, now: u64 },
    RequestEthSwap {
        near_sender: Seq<char>,
        amount: u128,
        eth_recipient: Seq<char>,
        eth_token: Seq<char>,
        hashlock: Seq<char>,
        timelock: u64,
        fusion_order_params: Seq<char>,
        now: u64,
    },
    CompleteEthSwap { swap_id: Seq<char>, secret: Seq<char>, recipient: Seq<char>, now: u64 },
    RefundEthSwap { swap_id: Seq<char>, now: u64 },
    MarkClaimInProgress { swap_id: Seq<char> },
    ClearClaimInProgress { swap_id: Seq<char> },
}

/// The engine after `op`: changed as the operation says when it is
/// admitted, unchanged when it is refused.
pub open spec fn step(s: FusionView, op: FusionOp) -> FusionView {
    match op {
        FusionOp::InitiateSwap { sender, receiver, amount, hashlock, timelock, eth_tx_hash, now } => {
            if s.initiate_check(sender, receiver, amount, hashlock, timelock, now) is None {
                s.initiate_apply(sender, receiver, amount, hashlock, timelock, eth_tx_hash, now)
            } else {
                s
            }
        },
        FusionOp::ClaimSwap { swap_id, secret, claimer, now } => {
            if s.claim_check(swap_id, secret, claimer, now) is None {
                s.claim_apply(swap_id, secret)
            } else {
                s
            }
        },
        FusionOp::RefundSwap { swap_id, refunder, now } => {
            if s.refund_check(swap_id, refunder, now) is None {
                s.refund_apply(swap_id)
            } else {
                s
            }
        },
        FusionOp::RequestEthSwap {
            near_sender,
            amount,
            eth_recipient,
            eth_token,
            hashlock,
            timelock,
            fusion_order_params,
            now,
        } => {
            if s.request_check(near_sender, amount, eth_recipient, hashlock, timelock, now) is None {
                s.request_apply(
                    EthSwapRequestView {
                        swap_id: request_id(
                            near_sender,
                            eth_recipient,
                            amount,
                            hashlock,
                            timelock,
                            now,
                        ),
                        near_sender,
                        eth_recipient,
                        amount,
                        eth_token,
                        hashlock,
                        timelock,
                        fusion_order_params,
                    },
                )
            } else {
                s
            }
        },
        FusionOp::CompleteEthSwap { swap_id, secret, recipient, now } => {
            if s.complete_check(swap_id, secret, now) is None {
                s.close_request(swap_id)
            } else {
                s
            }
        },
        FusionOp::RefundEthSwap { swap_id, now } => {
            if s.refund_request_check(swap_id, now) is None {
                s.close_request(swap_id)
            } else {
                s
            }
        },
        FusionOp::MarkClaimInProgress { swap_id } => {
            if s.claiming(swap_id) {
                s
            } else {
                FusionView { claims_in_progress: s.claims_in_progress.insert(swap_id, true), ..s }
            }
        },
        FusionOp::ClearClaimInProgress { swap_id } => {
            FusionView { claims_in_progress: s.claims_in_progress.remove(swap_id), ..s }
        },
    }
}

/// Whether `op`, applied to `s`, asks the ledger for a transfer on account
/// of the escrow `id`: an admitted claim or refund of that escrow.
pub open spec fn pays_swap(s: FusionView, op: FusionOp, id: Seq<char>) -> bool {
    match op {
        FusionOp::ClaimSwap { swap_id, secret, claimer, now } => swap_id == id && s.claim_check(
            swap_id,
            secret,
            claimer,
            now,
        ) is None,
        FusionOp::RefundSwap { swap_id, refunder, now } => swap_id == id && s.refund_check(
            swap_id,
            refunder,
            now,
        ) is None,
        _ => false,
    }
}

/// The number of transfers that the ledger is asked for on account of the
/// escrow `id` while `ops` are applied to `s` one after the other.
pub open spec fn swap_payouts(s: FusionView, ops: Seq<FusionOp>, id: Seq<char>) -> nat
    decreases ops.len(),
{
    if ops.len() == 0 {
        0
    } else {
        (if pays_swap(s, ops[0], id) {
            1nat
        } else {
            0nat
        }) + swap_payouts(step(s, ops[0]), ops.drop_first(), id)
    }
}

/// Whether the escrow `id` exists and is final.
pub open spec fn swap_settled(s: FusionView, id: Seq<char>) -> bool {
    s.swaps.get(id) matches Some(e) && e.state != SwapState::Open
}

/// No operation makes the escrow table ill-formed, and none reopens or
/// removes a final escrow.
pub proof fn lemma_step_keeps_swaps(s: FusionView, op: FusionOp, id: Seq<char>)
    requires
        s.swaps.wf(),
    ensures
        step(s, op).swaps.wf(),
        swap_settled(s, id) ==> swap_settled(step(s, op), id),
        pays_swap(s, op, id) ==> swap_settled(step(s, op), id),
        pays_swap(s, op, id) ==> !swap_settled(s, id),
{
    match op {
        FusionOp::InitiateSwap { sender, receiver, amount, hashlock, timelock, eth_tx_hash, now } => {
            if s.initiate_check(sender, receiver, amount, hashlock, timelock, now) is None {
                let t = s.initiate_apply(sender, receiver, amount, hashlock, timelock, eth_tx_hash, now);
                let key = crate::ids::swap_id(sender, receiver, hashlock, timelock, now);
                s.swaps.lemma_insert(key, t.swaps.vals.last());
                assert(t.swaps == s.swaps.insert(key, t.swaps.vals.last()));
            }
        },
        FusionOp::ClaimSwap { swap_id, secret, claimer, now } => {
            if s.claim_check(swap_id, secret, claimer, now) is None {
                s.swaps.lemma_index_of(swap_id);
                let i = s.swaps.index_of(swap_id);
                s.swaps.lemma_update_at(i, step(s, op).swaps.vals[i]);
                assert(step(s, op).swaps == s.swaps.update_at(i, step(s, op).swaps.vals[i]));
            }
        },
        FusionOp::RefundSwap { swap_id, refunder, now } => {
            if s.refund_check(swap_id, refunder, now) is None {
                s.swaps.lemma_index_of(swap_id);
                let i = s.swaps.index_of(swap_id);
                s.swaps.lemma_update_at(i, step(s, op).swaps.vals[i]);
                assert(step(s, op).swaps == s.swaps.update_at(i, step(s, op).swaps.vals[i]));
            }
        },
        _ => {},
    }
}

/// At-most-once payout, first half: once an escrow is final, no sequence of
/// operations makes the ledger pay on its account.
pub proof fn law_settled_swap_never_pays(s: FusionView, ops: Seq<FusionOp>, id: Seq<char>)
    requires
        s.swaps.wf(),
        swap_settled(s, id),
    ensures
        swap_payouts(s, ops, id) == 0,
    decreases ops.len(),
{
    if ops.len() > 0 {
        lemma_step_keeps_swaps(s, ops[0], id);
        law_settled_swap_never_pays(step(s, ops[0]), ops.drop_first(), id);
    }
}

/// At-most-once payout: whatever operations are applied to an engine, in
/// whatever order and with whatever arguments, the ledger is asked at most
/// once for a transfer on account of any one escrow.
pub proof fn law_swap_pays_at_most_once(s: FusionView, ops: Seq<FusionOp>, id: Seq<char>)
    requires
        s.swaps.wf(),
    ensures
        swap_payouts(s, ops, id) <= 1,
    decreases ops.len(),
{
    if ops.len() > 0 {
        lemma_step_keeps_swaps(s, ops[0], id);
        if pays_swap(s, ops[0], id) {
            law_settled_swap_never_pays(step(s, ops[0]), ops.drop_first(), id);
        } else {
            law_swap_pays_at_most_once(step(s, ops[0]), ops.drop_first(), id);
        }
    }
}

/// At-most-once payout of a request: settling or refunding a pending
/// request removes it, so that every later attempt to settle or refund it
/// finds nothing, whatever its arguments.
pub proof fn law_closed_request_is_gone(
    s: FusionView,
    id: Seq<char>,
    secret: Seq<char>,
    now: u64,
    secret2: Seq<char>,
    now2: u64,
)
    requires
        s.eth_swap_requests.wf(),
        s.complete_check(id, secret, now) is None || s.refund_request_check(id, now) is None,
    ensures
        s.close_request(id).eth_swap_requests.wf(),
        s.close_request(id).complete_check(id, secret2, now2) == Some(HtlcError::NotFound),
        s.close_request(id).refund_request_check(id, now2) == Some(HtlcError::NotFound),
{
    s.eth_swap_requests.lemma_index_of(id);
    s.eth_swap_requests.lemma_remove_at(s.eth_swap_requests.index_of(id));
}

/// Commitment soundness of a claim: where nothing else stands in the way, a
/// claim is admitted exactly when the secret hashes to the whole stored
/// commitment, and is refused as an invalid secret otherwise. Two secrets
/// with the same commitment are treated alike.
pub proof fn law_claim_needs_the_secret(
    s: FusionView,
    id: Seq<char>,
    secret: Seq<char>,
    other: Seq<char>,
    claimer: Seq<char>,
    now: u64,
)
    requires
        s.swaps.get(id) matches Some(e) && e.state == SwapState::Open && now < e.timelock
            && claimer == e.receiver,
        !s.claiming(id),
    ensures
        s.claim_check(id, secret, claimer, now) is None <==> commitment_of(secret) == s.swaps.get(
            id,
        )->0.hashlock,
        commitment_of(secret) != s.swaps.get(id)->0.hashlock ==> s.claim_check(
            id,
            secret,
            claimer,
            now,
        ) == Some(HtlcError::InvalidSecret),
        commitment_of(secret) == commitment_of(other) ==> s.claim_check(id, secret, claimer, now)
            == s.claim_check(id, other, claimer, now),
{
}

/// Commitment soundness of settling a request: before the deadline has
/// passed, a pending request is settled exactly when the secret hashes to
/// the whole stored commitment.
pub proof fn law_complete_needs_the_secret(
    s: FusionView,
    id: Seq<char>,
    secret: Seq<char>,
    now: u64,
)
    requires
        s.eth_swap_requests.get(id) matches Some(q) && now <= q.timelock,
    ensures
        s.complete_check(id, secret, now) is None <==> commitment_of(secret)
            == s.eth_swap_requests.get(id)->0.hashlock,
        commitment_of(secret) != s.eth_swap_requests.get(id)->0.hashlock ==> s.complete_check(
            id,
            secret,
            now,
        ) == Some(HtlcError::InvalidSecret),
{
}

/// Time-gating of an escrow: from the deadline on every claim of an open
/// escrow is refused as expired, before it every refund is refused as not
/// yet expired; so a claim can be admitted only before the deadline and a
/// refund only from the deadline on.
pub proof fn law_swap_is_time_gated(
    s: FusionView,
    id: Seq<char>,
    secret: Seq<char>,
    caller: Seq<char>,
    now: u64,
)
    requires
        s.swaps.get(id) matches Some(e) && e.state == SwapState::Open,
    ensures
        now >= s.swaps.get(id)->0.timelock ==> s.claim_check(id, secret, caller, now) == Some(
            HtlcError::Expired,
        ),
        now < s.swaps.get(id)->0.timelock ==> s.refund_check(id, caller, now) == Some(
            HtlcError::NotYetExpired,
        ),
        !(s.claim_check(id, secret, caller, now) is None && s.refund_check(id, caller, now) is None),
{
}

/// Time-gating of a request: after the deadline every attempt to settle a
/// pending request is refused as expired, up to the deadline every refund is
/// refused as not yet expired; so no time admits both. At the deadline
/// itself a request can still be settled.
pub proof fn law_request_is_time_gated(s: FusionView, id: Seq<char>, secret: Seq<char>, now: u64)
    requires
        s.eth_swap_requests.get(id) is Some,
    ensures
        now > s.eth_swap_requests.get(id)->0.timelock ==> s.complete_check(id, secret, now) == Some(
            HtlcError::Expired,
        ),
        now <= s.eth_swap_requests.get(id)->0.timelock ==> s.refund_request_check(id, now) == Some(
            HtlcError::NotYetExpired,
        ),
        !(s.complete_check(id, secret, now) is None && s.refund_request_check(id, now) is None),
{
}

/// Idempotent refusal: after a claim or a refund of an escrow has been
/// admitted, every further claim and every further refund of it is refused
/// as already finalized, whatever secret, caller and time it comes with.
pub proof fn law_second_settlement_is_refused(
    s: FusionView,
    id: Seq<char>,
    secret: Seq<char>,
    caller: Seq<char>,
    now: u64,
    secret2: Seq<char>,
    caller2: Seq<char>,
    now2: u64,
)
    requires
        s.swaps.wf(),
    ensures
        s.claim_check(id, secret, caller, now) is None ==> s.claim_apply(id, secret).claim_check(
            id,
            secret2,
            caller2,
            now2,
        ) == Some(HtlcError::AlreadyFinalized) && s.claim_apply(id, secret).refund_check(
            id,
            caller2,
            now2,
        ) == Some(HtlcError::AlreadyFinalized),
        s.refund_check(id, caller, now) is None ==> s.refund_apply(id).refund_check(
            id,
            caller2,
            now2,
        ) == Some(HtlcError::AlreadyFinalized) && s.refund_apply(id).claim_check(
            id,
            secret2,
            caller2,
            now2,
        ) == Some(HtlcError::AlreadyFinalized),
{
    if s.claim_check(id, secret, caller, now) is None {
        lemma_step_keeps_swaps(s, FusionOp::ClaimSwap { swap_id: id, secret, claimer: caller, now }, id);
    }
    if s.refund_check(id, caller, now) is None {
        lemma_step_keeps_swaps(s, FusionOp::RefundSwap { swap_id: id, refunder: caller, now }, id);
    }
}

/// The engine after `ops` have been applied one after the other.
pub open spec fn run(s: FusionView, ops: Seq<FusionOp>) -> FusionView
    decreases ops.len(),
{
    if ops.len() == 0 {
        s
    } else {
        run(step(s, ops[0]), ops.drop_first())
    }
}

/// Every operation keeps the invariant of the engine.
pub proof fn lemma_step_keeps_wf(s: FusionView, op: FusionOp)
    requires
        s.wf(),
    ensures
        step(s, op).wf(),
{
    let t = step(s, op);
    match op {
        FusionOp::InitiateSwap { sender, receiver, amount, hashlock, timelock, eth_tx_hash, now } => {
            if s.initiate_check(sender, receiver, amount, hashlock, timelock, now) is None {
                s.swaps.lemma_insert(
                    crate::ids::swap_id(sender, receiver, hashlock, timelock, now),
                    t.swaps.vals.last(),
                );
            }
        },
        FusionOp::ClaimSwap { swap_id, secret, claimer, now } => {
            if s.claim_check(swap_id, secret, claimer, now) is None {
                s.swaps.lemma_index_of(swap_id);
                let i = s.swaps.index_of(swap_id);
                s.swaps.lemma_update_at(i, t.swaps.vals[i]);
            }
        },
        FusionOp::RefundSwap { swap_id, refunder, now } => {
            if s.refund_check(swap_id, refunder, now) is None {
                s.swaps.lemma_index_of(swap_id);
                let i = s.swaps.index_of(swap_id);
                s.swaps.lemma_position(i);
                s.swaps.lemma_update_at(i, t.swaps.vals[i]);
            }
        },
        FusionOp::RequestEthSwap {
            near_sender,
            amount,
            eth_recipient,
            eth_token,
            hashlock,
            timelock,
            fusion_order_params,
            now,
        } => {
            if s.request_check(near_sender, amount, eth_recipient, hashlock, timelock, now) is None {
                s.eth_swap_requests.lemma_insert(
                    request_id(near_sender, eth_recipient, amount, hashlock, timelock, now),
                    t.eth_swap_requests.vals.last(),
                );
            }
        },
        FusionOp::CompleteEthSwap { swap_id, secret, recipient, now } => {
            if s.complete_check(swap_id, secret, now) is None {
                s.eth_swap_requests.lemma_index_of(swap_id);
                s.eth_swap_requests.lemma_remove_at(s.eth_swap_requests.index_of(swap_id));
            }
        },
        FusionOp::RefundEthSwap { swap_id, now } => {
            if s.refund_request_check(swap_id, now) is None {
                s.eth_swap_requests.lemma_index_of(swap_id);
                s.eth_swap_requests.lemma_remove_at(s.eth_swap_requests.index_of(swap_id));
            }
        },
        FusionOp::MarkClaimInProgress { swap_id } => {
            if !s.claiming(swap_id) {
                s.claims_in_progress.lemma_insert(swap_id, true);
            }
        },
        FusionOp::ClearClaimInProgress { swap_id } => {
            if s.claiming(swap_id) {
                s.claims_in_progress.lemma_index_of(swap_id);
                s.claims_in_progress.lemma_remove_at(s.claims_in_progress.index_of(swap_id));
            }
        },
    }
}

/// The invariant holds at every observable point: whatever operations are
/// applied to an engine that meets its invariant, in whatever order and with
/// whatever arguments, the engine meets it afterwards.
pub proof fn law_invariant_along_every_run(s: FusionView, ops: Seq<FusionOp>)
    requires
        s.wf(),
    ensures
        run(s, ops).wf(),
    decreases ops.len(),
{
    if ops.len() > 0 {
        lemma_step_keeps_wf(s, ops[0]);
        law_invariant_along_every_run(step(s, ops[0]), ops.drop_first());
    }
}

/// Whether `op`, applied to `s`, records the request `id`.
pub open spec fn locks_request(s: FusionView, op: FusionOp, id: Seq<char>) -> bool {
    match op {
        FusionOp::RequestEthSwap {
            near_sender,
            amount,
            eth_recipient,
            eth_token,
            hashlock,
            timelock,
            fusion_order_params,
            now,
        } => request_id(near_sender, eth_recipient, amount, hashlock, timelock, now) == id
            && s.request_check(near_sender, amount, eth_recipient, hashlock, timelock, now) is None,
        _ => false,
    }
}

/// Whether `op`, applied to `s`, asks the ledger for a transfer on account
/// of the request `id`: an admitted settlement or refund of that request.
pub open spec fn pays_request(s: FusionView, op: FusionOp, id: Seq<char>) -> bool {
    match op {
        FusionOp::CompleteEthSwap { swap_id, secret, recipient, now } => swap_id == id
            && s.complete_check(swap_id, secret, now) is None,
        FusionOp::RefundEthSwap { swap_id, now } => swap_id == id && s.refund_request_check(
            swap_id,
            now,
        ) is None,
        _ => false,
    }
}

/// How often the request `id` is recorded while `ops` are applied to `s`
/// one after the other.
pub open spec fn request_locks(s: FusionView, ops: Seq<FusionOp>, id: Seq<char>) -> nat
    decreases ops.len(),
{
    if ops.len() == 0 {
        0
    } else {
        (if locks_request(s, ops[0], id) {
            1nat
        } else {
            0nat
        }) + request_locks(step(s, ops[0]), ops.drop_first(), id)
    }
}

/// The number of transfers that the ledger is asked for on account of the
/// request `id` while `ops` are applied to `s` one after the other.
pub open spec fn request_payouts(s: FusionView, ops: Seq<FusionOp>, id: Seq<char>) -> nat
    decreases ops.len(),
{
    if ops.len() == 0 {
        0
    } else {
        (if pays_request(s, ops[0], id) {
            1nat
        } else {
            0nat
        }) + request_payouts(step(s, ops[0]), ops.drop_first(), id)
    }
}

/// At-most-once payout of a request: whatever operations are applied to an
/// engine, the ledger is asked for no more transfers on account of a request
/// identifier than there were amounts locked under it: one for the request
/// that is pending at the start, if there is one, and one for each time the
/// request is recorded anew after it has been closed.
pub proof fn law_request_pays_at_most_once_per_lock(
    s: FusionView,
    ops: Seq<FusionOp>,
    id: Seq<char>,
)
    requires
        s.eth_swap_requests.wf(),
    ensures
        request_payouts(s, ops, id) <= request_locks(s, ops, id) + if s.eth_swap_requests.contains(
            id,
        ) {
            1nat
        } else {
            0nat
        },
    decreases ops.len(),
{
    if ops.len() > 0 {
        let op = ops[0];
        let t = step(s, op);
        match op {
            FusionOp::RequestEthSwap {
                near_sender,
                amount,
                eth_recipient,
                eth_token,
                hashlock,
                timelock,
                fusion_order_params,
                now,
            } => {
                if s.request_check(near_sender, amount, eth_recipient, hashlock, timelock, now) is None {
                    s.eth_swap_requests.lemma_insert(
                        request_id(near_sender, eth_recipient, amount, hashlock, timelock, now),
                        t.eth_swap_requests.vals.last(),
                    );
                }
            },
            FusionOp::CompleteEthSwap { swap_id, secret, recipient, now } => {
                if s.complete_check(swap_id, secret, now) is None {
                    s.eth_swap_requests.lemma_index_of(swap_id);
                    s.eth_swap_requests.lemma_remove_at(s.eth_swap_requests.index_of(swap_id));
                }
            },
            FusionOp::RefundEthSwap { swap_id, now } => {
                if s.refund_request_check(swap_id, now) is None {
                    s.eth_swap_requests.lemma_index_of(swap_id);
                    s.eth_swap_requests.lemma_remove_at(s.eth_swap_requests.index_of(swap_id));
                }
            },
            _ => {},
        }
        law_request_pays_at_most_once_per_lock(t, ops.drop_first(), id);
    }
}

} // verus!
