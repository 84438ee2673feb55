//! The accounts of an order over its fills: what the fills lock, how many
//! were created, and how far the order is filled.

use vstd::prelude::*;
use vstd::arithmetic::div_mod::lemma_fundamental_div_mod_converse;
use crate::contract::{fill_percentage, FillState, PartialFillView};

verus! {

/// What a fill locks for the order `parent`: its amount while it belongs to
/// that order and was not refunded.
pub open spec fn locked_by(f: PartialFillView, parent: Seq<char>) -> nat {
    if f.parent_swap_id == parent && f.state != FillState::Refunded {
        f.fill_amount as nat
    } else {
        0
    }
}

/// What the first `n` fills lock for the order `parent`.
pub open spec fn locked_sum(fills: Seq<PartialFillView>, parent: Seq<char>, n: int) -> nat
    decreases n,
{
    if n <= 0 {
        0
    } else {
        locked_sum(fills, parent, n - 1) + locked_by(fills[n - 1], parent)
    }
}

/// How many of the first `n` fills were created against the order `parent`.
pub open spec fn created_count(fills: Seq<PartialFillView>, parent: Seq<char>, n: int) -> nat
    decreases n,
{
    if n <= 0 {
        0
    } else {
        created_count(fills, parent, n - 1) + if fills[n - 1].parent_swap_id == parent {
            1nat
        } else {
            0nat
        }
    }
}

/// The accounts over a prefix depend on that prefix alone.
pub proof fn lemma_accounts_of_prefix(
    a: Seq<PartialFillView>,
    b: Seq<PartialFillView>,
    parent: Seq<char>,
    n: int,
)
    requires
        0 <= n <= a.len(),
        n <= b.len(),
        forall|i: int| 0 <= i < n ==> a[i] == b[i],
    ensures
        locked_sum(a, parent, n) == locked_sum(b, parent, n),
        created_count(a, parent, n) == created_count(b, parent, n),
    decreases n,
{
    if n > 0 {
        lemma_accounts_of_prefix(a, b, parent, n - 1);
    }
}

/// A new last fill adds what it locks, and counts once for its own order.
pub proof fn lemma_accounts_after_push(
    fills: Seq<PartialFillView>,
    f: PartialFillView,
    parent: Seq<char>,
)
    ensures
        locked_sum(fills.push(f), parent, fills.len() as int + 1) == locked_sum(
            fills,
            parent,
            fills.len() as int,
        ) + locked_by(f, parent),
        created_count(fills.push(f), parent, fills.len() as int + 1) == created_count(
            fills,
            parent,
            fills.len() as int,
        ) + if f.parent_swap_id == parent {
            1nat
        } else {
            0nat
        },
        created_count(fills, parent, fills.len() as int) <= fills.len(),
{
    lemma_accounts_of_prefix(fills.push(f), fills, parent, fills.len() as int);
    lemma_count_bound(fills, parent, fills.len() as int);
}

/// No more fills were created against an order than there are fills.
pub proof fn lemma_count_bound(fills: Seq<PartialFillView>, parent: Seq<char>, n: int)
    requires
        0 <= n,
    ensures
        created_count(fills, parent, n) <= n,
    decreases n,
{
    if n > 0 {
        lemma_count_bound(fills, parent, n - 1);
    }
}

/// Replacing the fill at `j` exchanges what it locked for what its
/// replacement locks, and a fill locks no more than the sum it is part of.
/// The count stays when the replacement belongs to the same order.
pub proof fn lemma_accounts_after_update(
    fills: Seq<PartialFillView>,
    j: int,
    g: PartialFillView,
    parent: Seq<char>,
    n: int,
)
    requires
        0 <= j < fills.len(),
        0 <= n <= fills.len(),
    ensures
        j < n ==> locked_by(fills[j], parent) <= locked_sum(fills, parent, n),
        j < n ==> locked_sum(fills.update(j, g), parent, n) == locked_sum(fills, parent, n)
            - locked_by(fills[j], parent) + locked_by(g, parent),
        j >= n ==> locked_sum(fills.update(j, g), parent, n) == locked_sum(fills, parent, n),
        g.parent_swap_id == fills[j].parent_swap_id ==> created_count(
            fills.update(j, g),
            parent,
            n,
        ) == created_count(fills, parent, n),
    decreases n,
{
    if n > 0 {
        lemma_accounts_after_update(fills, j, g, parent, n - 1);
    }
}

/// What a longer prefix locks is at least what a shorter one locks.
pub proof fn lemma_locked_sum_grows(fills: Seq<PartialFillView>, parent: Seq<char>, a: int, b: int)
    requires
        0 <= a <= b,
    ensures
        locked_sum(fills, parent, a) <= locked_sum(fills, parent, b),
    decreases b,
{
    if a < b {
        lemma_locked_sum_grows(fills, parent, a, b - 1);
    }
}

/// Computes the filled part of `total` in whole percent, rounded down,
/// without forming the product `filled * 100`.
pub fn percent_filled(filled: u128, total: u128) -> (p: u32)
    requires
        filled <= total,
    ensures
        p == fill_percentage(filled, total),
        p <= 100,
{
    if total == 0 {
        return 0;
    }
    let gap: u128 = total - filled;
    let mut quotient: u32 = 0;
    let mut rest: u128 = 0;
    let mut k: u32 = 0;
    while k < 100
        invariant
            k <= 100,
            quotient <= k,
            filled <= total,
            gap == total - filled,
            rest < total,
            k * filled == quotient * total + rest,
        decreases 100 - k,
    {
        let ghost before = k * filled;
        assert((k + 1) * filled == k * filled + filled) by (nonlinear_arith);
        if rest >= gap {
            assert((quotient + 1) * total == quotient * total + total) by (nonlinear_arith);
            rest = rest - gap;
            quotient = quotient + 1;
        } else {
            rest = rest + filled;
        }
        k = k + 1;
    }
    proof {
        lemma_fundamental_div_mod_converse(
            filled * 100,
            total as int,
            quotient as int,
            rest as int,
        );
    }
    quotient
}

} // verus!
