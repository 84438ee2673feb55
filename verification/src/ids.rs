//! The identifier generator.
//!
//! An identifier is the textual SHA-256 commitment to the canonical form of a
//! record: its defining fields, separated by `-`, numbers in decimal, followed
//! by the creation time. It is deterministic: the same fields submitted at the
//! same instant give the same identifier, which the stores then refuse.

use vstd::prelude::*;
use crate::hashing::{commitment_of_bytes, hash_bytes};
use crate::text::{decimal_digits, push_decimal, push_text, text_bytes};

verus! {

/// The separator between the fields of a canonical form.
pub open spec fn dash() -> Seq<u8> {
    text_bytes("-"@)
}

/// Canonical form of an escrow: sender, receiver, commitment, deadline and
/// creation time.
pub open spec fn swap_id_preimage(
    sender: Seq<char>,
    receiver: Seq<char>,
    hashlock: Seq<char>,
    timelock: u64,
    now: u64,
) -> Seq<u8> {
    text_bytes(sender) + dash() + text_bytes(receiver) + dash() + text_bytes(hashlock) + dash()
        + decimal_digits(timelock as nat) + dash() + decimal_digits(now as nat)
}

/// The identifier of an escrow.
pub open spec fn swap_id(
    sender: Seq<char>,
    receiver: Seq<char>,
    hashlock: Seq<char>,
    timelock: u64,
    now: u64,
) -> Seq<char> {
    commitment_of_bytes(swap_id_preimage(sender, receiver, hashlock, timelock, now))
}

/// Derives the identifier of an escrow.
pub fn generate_swap_id(
    sender: &str,
    receiver: &str,
    hashlock: &str,
    timelock: u64,
    now: u64,
) -> (id: String)
    ensures
        id@ == swap_id(sender@, receiver@, hashlock@, timelock, now),
{
    let mut buf: Vec<u8> = Vec::new();
    push_text(&mut buf, sender);
    push_text(&mut buf, "-");
    push_text(&mut buf, receiver);
    push_text(&mut buf, "-");
    push_text(&mut buf, hashlock);
    push_text(&mut buf, "-");
    push_decimal(&mut buf, timelock as u128);
    push_text(&mut buf, "-");
    push_decimal(&mut buf, now as u128);
    assert(buf@ =~= swap_id_preimage(sender@, receiver@, hashlock@, timelock, now));
    hash_bytes(buf.as_slice())
}

/// Canonical form of an outbound request: a tag, the initiator, the foreign
/// recipient, the amount, the commitment, the deadline and the creation time.
pub open spec fn request_id_preimage(
    near_sender: Seq<char>,
    eth_recipient: Seq<char>,
    amount: u128,
    hashlock: Seq<char>,
    timelock: u64,
    now: u64,
) -> Seq<u8> {
    text_bytes("near_to_eth_"@) + text_bytes(near_sender) + dash() + text_bytes(eth_recipient)
        + dash() + decimal_digits(amount as nat) + dash() + text_bytes(hashlock) + dash()
        + decimal_digits(timelock as nat) + dash() + decimal_digits(now as nat)
}

/// The identifier of an outbound request.
pub open spec fn request_id(
    near_sender: Seq<char>,
    eth_recipient: Seq<char>,
    amount: u128,
    hashlock: Seq<char>,
    timelock: u64,
    now: u64,
) -> Seq<char> {
    commitment_of_bytes(
        request_id_preimage(near_sender, eth_recipient, amount, hashlock, timelock, now),
    )
}

/// Derives the identifier of an outbound request.
pub fn generate_request_id(
    near_sender: &str,
    eth_recipient: &str,
    amount: u128,
    hashlock: &str,
    timelock: u64,
    now: u64,
) -> (id: String)
    ensures
        id@ == request_id(near_sender@, eth_recipient@, amount, hashlock@, timelock, now),
{
    let mut buf: Vec<u8> = Vec::new();
    push_text(&mut buf, "near_to_eth_");
    push_text(&mut buf, near_sender);
    push_text(&mut buf, "-");
    push_text(&mut buf, eth_recipient);
    push_text(&mut buf, "-");
    push_decimal(&mut buf, amount);
    push_text(&mut buf, "-");
    push_text(&mut buf, hashlock);
    push_text(&mut buf, "-");
    push_decimal(&mut buf, timelock as u128);
    push_text(&mut buf, "-");
    push_decimal(&mut buf, now as u128);
    assert(buf@ =~= request_id_preimage(
        near_sender@,
        eth_recipient@,
        amount,
        hashlock@,
        timelock,
        now,
    ));
    hash_bytes(buf.as_slice())
}

/// Canonical form of a record made by two accounts: a tag, the sender, the
/// receiver, the amount and the creation time.
pub open spec fn contract_id_preimage(
    tag: Seq<char>,
    sender: Seq<char>,
    receiver: Seq<char>,
    amount: u128,
    now: u64,
) -> Seq<u8> {
    text_bytes(tag) + text_bytes(sender) + dash() + text_bytes(receiver) + dash()
        + decimal_digits(amount as nat) + dash() + decimal_digits(now as nat)
}

/// The identifier of a record made by two accounts.
pub open spec fn contract_id(
    tag: Seq<char>,
    sender: Seq<char>,
    receiver: Seq<char>,
    amount: u128,
    now: u64,
) -> Seq<char> {
    commitment_of_bytes(contract_id_preimage(tag, sender, receiver, amount, now))
}

/// Derives the identifier of a record made by two accounts. The tag tells
/// the kinds of record apart.
pub fn generate_contract_id(
    tag: &str,
    sender: &str,
    receiver: &str,
    amount: u128,
    now: u64,
) -> (id: String)
    ensures
        id@ == contract_id(tag@, sender@, receiver@, amount, now),
{
    let mut buf: Vec<u8> = Vec::new();
    push_text(&mut buf, tag);
    push_text(&mut buf, sender);
    push_text(&mut buf, "-");
    push_text(&mut buf, receiver);
    push_text(&mut buf, "-");
    push_decimal(&mut buf, amount);
    push_text(&mut buf, "-");
    push_decimal(&mut buf, now as u128);
    assert(buf@ =~= contract_id_preimage(tag@, sender@, receiver@, amount, now));
    hash_bytes(buf.as_slice())
}

/// Canonical form of an order or of a fill: a tag, the owner (the sender of
/// an order, the order of a fill), the amount and the creation time.
pub open spec fn order_id_preimage(tag: Seq<char>, owner: Seq<char>, amount: u128, now: u64) -> Seq<
    u8,
> {
    text_bytes(tag) + text_bytes(owner) + dash() + decimal_digits(amount as nat) + dash()
        + decimal_digits(now as nat)
}

/// The identifier of an order or of a fill.
pub open spec fn order_id(tag: Seq<char>, owner: Seq<char>, amount: u128, now: u64) -> Seq<char> {
    commitment_of_bytes(order_id_preimage(tag, owner, amount, now))
}

/// Derives the identifier of an order or of a fill.
pub fn generate_order_id(tag: &str, owner: &str, amount: u128, now: u64) -> (id: String)
    ensures
        id@ == order_id(tag@, owner@, amount, now),
{
    let mut buf: Vec<u8> = Vec::new();
    push_text(&mut buf, tag);
    push_text(&mut buf, owner);
    push_text(&mut buf, "-");
    push_decimal(&mut buf, amount);
    push_text(&mut buf, "-");
    push_decimal(&mut buf, now as u128);
    assert(buf@ =~= order_id_preimage(tag@, owner@, amount, now));
    hash_bytes(buf.as_slice())
}

} // verus!
