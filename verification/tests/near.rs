use fusion_htlc::{FillState, HTLCNear, HtlcError, SwapState};
use sha2::{Digest, Sha256};

const ATTACHED_DEPOSIT: u128 = 1_000_000_000_000_000_000_000_000;

fn accounts(i: usize) -> String {
    ["alice", "bob", "charlie", "danny", "eugene", "fargo"][i].to_string()
}

fn digest(secret: &[u8]) -> Vec<u8> {
    Sha256::digest(secret).to_vec()
}

#[test]
fn test_create_htlc() {
    let mut contract = HTLCNear::new(accounts(0));
    let hashlock = vec![1u8; 32];
    let timelock = 2_000_000;

    let contract_id = contract
        .create_htlc(
            accounts(1),
            accounts(2),
            ATTACHED_DEPOSIT,
            hashlock.clone(),
            timelock,
            "0x1234567890abcdef".to_string(),
            1_000_000,
        )
        .unwrap()
        .swap_id;

    let htlc = contract.get_contract(contract_id).unwrap();
    assert_eq!(htlc.sender, accounts(1).to_string());
    assert_eq!(htlc.receiver, accounts(2).to_string());
    assert_eq!(htlc.amount.to_string(), ATTACHED_DEPOSIT.to_string());
    assert_eq!(hex::encode(&htlc.hashlock), hex::encode(&hashlock));
    assert_eq!(htlc.timelock, timelock);
    assert!(!htlc.withdrawn());
    assert!(!htlc.refunded());
    assert_eq!(htlc.eth_address, "0x1234567890abcdef");
}

#[test]
fn test_withdraw_with_valid_preimage() {
    let mut contract = HTLCNear::new(accounts(0));
    let preimage = b"test_secret";
    let hashlock = digest(preimage);
    let timelock = 2_000_000;

    let contract_id = contract
        .create_htlc(
            accounts(1),
            accounts(2),
            ATTACHED_DEPOSIT,
            hashlock,
            timelock,
            "0x1234567890abcdef".to_string(),
            1_000_000,
        )
        .unwrap()
        .swap_id;

    let claimed = contract
        .withdraw(contract_id.clone(), preimage.to_vec(), accounts(2), 1_500_000)
        .unwrap();
    assert_eq!(claimed.swap_id, contract_id);
    assert_eq!(claimed.secret, hex::encode(preimage));
    assert_eq!(claimed.payout().to, accounts(2));
    assert_eq!(claimed.payout().amount, ATTACHED_DEPOSIT);

    let htlc = contract.get_contract(contract_id).unwrap();
    assert!(htlc.withdrawn());
    assert!(!htlc.refunded());
}

#[test]
fn test_withdraw_with_invalid_preimage() {
    let mut contract = HTLCNear::new(accounts(0));
    let hashlock = vec![1u8; 32];
    let timelock = 2_000_000;

    let contract_id = contract
        .create_htlc(
            accounts(1),
            accounts(2),
            ATTACHED_DEPOSIT,
            hashlock,
            timelock,
            "0x1234567890abcdef".to_string(),
            1_000_000,
        )
        .unwrap()
        .swap_id;

    let wrong_preimage = b"wrong_secret";
    let r = contract.withdraw(contract_id.clone(), wrong_preimage.to_vec(), accounts(2), 1_500_000);
    assert_eq!(r.map(|e| e.amount), Err(HtlcError::InvalidSecret));
    let htlc = contract.get_contract(contract_id).unwrap();
    assert!(!htlc.withdrawn());
    assert!(!htlc.refunded());
}

#[test]
fn lib_test_refund_after_timelock() {
    let mut contract = HTLCNear::new(accounts(0));
    let hashlock = vec![1u8; 32];
    let timelock = 2_000_000;

    let contract_id = contract
        .create_htlc(
            accounts(1),
            accounts(2),
            ATTACHED_DEPOSIT,
            hashlock,
            timelock,
            "0x1234567890abcdef".to_string(),
            1_000_000,
        )
        .unwrap()
        .swap_id;

    let refunded = contract.refund(contract_id.clone(), accounts(1), 2_500_000).unwrap();
    assert_eq!(refunded.swap_id, contract_id);
    assert_eq!(refunded.payout().to, accounts(1));
    assert_eq!(refunded.payout().amount, ATTACHED_DEPOSIT);

    let htlc = contract.get_contract(contract_id).unwrap();
    assert!(!htlc.withdrawn());
    assert!(htlc.refunded());
}

#[test]
fn test_refund_before_timelock() {
    let mut contract = HTLCNear::new(accounts(0));
    let hashlock = vec![1u8; 32];
    let timelock = 2_000_000;

    let contract_id = contract
        .create_htlc(
            accounts(1),
            accounts(2),
            ATTACHED_DEPOSIT,
            hashlock,
            timelock,
            "0x1234567890abcdef".to_string(),
            1_000_000,
        )
        .unwrap()
        .swap_id;

    let r = contract.refund(contract_id.clone(), accounts(1), 1_500_000);
    let e = r.map(|e| e.amount).unwrap_err();
    assert_eq!(e, HtlcError::NotYetExpired);
    assert_eq!(e.message(), "deadline not yet expired");
    assert!(!contract.get_contract(contract_id).unwrap().refunded());
}

#[test]
fn test_check_preimage() {
    let mut contract = HTLCNear::new(accounts(0));
    let preimage = b"test_secret";
    let hashlock = digest(preimage);
    let timelock = 2_000_000;

    let contract_id = contract
        .create_htlc(
            accounts(1),
            accounts(2),
            ATTACHED_DEPOSIT,
            hashlock,
            timelock,
            "0x1234567890abcdef".to_string(),
            1_000_000,
        )
        .unwrap()
        .swap_id;

    assert!(contract.check_preimage(contract_id.clone(), preimage.to_vec()));

    let wrong_preimage = b"wrong_secret";
    assert!(!contract.check_preimage(contract_id, wrong_preimage.to_vec()));
    assert!(!contract.check_preimage("nothing".to_string(), preimage.to_vec()));
}

// Settlement in parts is the order book's: an order of 2 units of 10^24 is
// filled by 0.5, 1 and 0.5 of them.
#[test]
fn test_partial_claims() {
    let mut contract = HTLCNear::new(accounts(0));
    let secret = b"test_secret_partial";
    let hashlock = digest(secret);

    let swap_id = contract
        .create_partial_fill_swap(
            accounts(0),
            accounts(1),
            2_000_000_000_000_000_000_000_000,
            "0x1234567890abcdef".to_string(),
            2_000_000_000,
            1_000_000_000,
        )
        .unwrap();

    let first = contract
        .create_partial_fill(
            swap_id.clone(),
            hashlock.clone(),
            500_000_000_000_000_000_000_000,
            accounts(0),
            500_000_000_000_000_000_000_000,
            1_000_000_000,
        )
        .unwrap();
    let paid = contract
        .complete_partial_fill(first, secret.to_vec(), "0xa".to_string(), accounts(1), 1_000_000_000)
        .unwrap();
    assert_eq!(paid.amount, 500_000_000_000_000_000_000_000);
    let swap = contract.get_partial_fill_swap(swap_id.clone()).unwrap();
    assert_eq!(swap.remaining_amount, 1_500_000_000_000_000_000_000_000);
    assert!(!swap.completed);

    let second = contract
        .create_partial_fill(
            swap_id.clone(),
            hashlock.clone(),
            1_000_000_000_000_000_000_000_000,
            accounts(0),
            1_000_000_000_000_000_000_000_000,
            1_000_000_000,
        )
        .unwrap();
    contract
        .complete_partial_fill(second, secret.to_vec(), "0xb".to_string(), accounts(1), 1_000_000_000)
        .unwrap();
    let swap = contract.get_partial_fill_swap(swap_id.clone()).unwrap();
    assert_eq!(swap.remaining_amount, 500_000_000_000_000_000_000_000);
    assert!(!swap.completed);

    let third = contract
        .create_partial_fill(
            swap_id.clone(),
            hashlock,
            500_000_000_000_000_000_000_000,
            accounts(0),
            500_000_000_000_000_000_000_000,
            1_000_000_001,
        )
        .unwrap();
    contract
        .complete_partial_fill(third, secret.to_vec(), "0xc".to_string(), accounts(1), 1_000_000_001)
        .unwrap();
    let swap = contract.get_partial_fill_swap(swap_id.clone()).unwrap();
    assert_eq!(swap.remaining_amount, 0);
    assert!(swap.completed);
    assert_eq!(contract.get_swap_partial_fills(swap_id).len(), 3);
}

fn book_with_order(total: u128, timelock: u64, now: u64) -> (HTLCNear, String) {
    let mut contract = HTLCNear::new(accounts(0));
    let id = contract
        .create_partial_fill_swap(accounts(1), accounts(2), total, "0xeth".to_string(), timelock, now)
        .unwrap();
    (contract, id)
}

fn fill(c: &mut HTLCNear, order: &str, secret: &[u8], amount: u128, now: u64) -> Result<String, HtlcError> {
    c.create_partial_fill(order.to_string(), digest(secret), amount, accounts(1), amount, now)
}

#[test]
fn order_is_filled_and_paid_in_part() {
    // Times are relative to T = 1000.
    let (mut contract, order) = book_with_order(1000, 1100, 1000);
    let fill1 = fill(&mut contract, &order, b"s", 600, 1000).unwrap();
    let paid = contract
        .complete_partial_fill(fill1.clone(), b"s".to_vec(), "0xtx".to_string(), accounts(2), 1001)
        .unwrap();
    assert_eq!(paid.to, accounts(2));
    assert_eq!(paid.amount, 600);
    let o = contract.get_partial_fill_swap(order.clone()).unwrap();
    assert_eq!((o.filled_amount, o.remaining_amount, o.completed), (600, 400, false));
    assert_eq!(o.total_amount, 1000);
    assert_eq!(o.fill_count, 1);
    let f = contract.get_partial_fill(fill1).unwrap();
    assert_eq!(f.state, FillState::Completed);
    assert!(f.completed() && !f.refunded());
    assert_eq!(f.eth_tx_hash, Some("0xtx".to_string()));
    assert_eq!(f.parent_swap_id, order);
    assert_eq!(f.sender, accounts(1));
    assert_eq!(f.receiver, accounts(2));
    assert_eq!(f.timelock, 1100);
    assert_eq!(f.eth_address, "0xeth");
    assert_eq!(f.created_at, 1000);
}

#[test]
fn fill_beyond_what_remains_is_refused_and_changes_nothing() {
    let (mut contract, order) = book_with_order(1000, 1100, 1000);
    fill(&mut contract, &order, b"a", 600, 1000).unwrap();
    let before = contract.get_partial_fill_swap(order.clone()).unwrap();
    assert_eq!(fill(&mut contract, &order, b"b", 401, 1001), Err(HtlcError::InvalidAmount));
    assert_eq!(fill(&mut contract, &order, b"b", u128::MAX, 1001), Err(HtlcError::InvalidAmount));
    let after = contract.get_partial_fill_swap(order.clone()).unwrap();
    assert_eq!(after.filled_amount, before.filled_amount);
    assert_eq!(after.remaining_amount, before.remaining_amount);
    assert_eq!(after.fill_count, before.fill_count);
    assert_eq!((after.filled_amount, after.remaining_amount, after.fill_count), (600, 400, 1));
    assert_eq!(contract.get_swap_partial_fills(order).len(), 1);
}

#[test]
fn refund_of_a_fill_reopens_the_order() {
    let (mut contract, order) = book_with_order(1000, 1100, 1000);
    let a = fill(&mut contract, &order, b"a", 600, 1000).unwrap();
    contract
        .complete_partial_fill(a.clone(), b"a".to_vec(), "0xa".to_string(), accounts(2), 1050)
        .unwrap();
    let b = fill(&mut contract, &order, b"b", 400, 1001).unwrap();
    let o = contract.get_partial_fill_swap(order.clone()).unwrap();
    assert_eq!((o.filled_amount, o.remaining_amount, o.completed), (1000, 0, true));
    assert_eq!(fill(&mut contract, &order, b"c", 1, 1002), Err(HtlcError::AlreadyFinalized));

    let back = contract.refund_partial_fill(b.clone(), accounts(1), 1100).unwrap();
    assert_eq!(back.to, accounts(1));
    assert_eq!(back.amount, 400);
    let o = contract.get_partial_fill_swap(order.clone()).unwrap();
    assert_eq!((o.filled_amount, o.remaining_amount, o.completed), (600, 400, false));
    assert_eq!(o.fill_count, 2);
    assert_eq!(contract.get_partial_fill(b).unwrap().state, FillState::Refunded);

    let c = fill(&mut contract, &order, b"c", 400, 1100).unwrap();
    let o = contract.get_partial_fill_swap(order.clone()).unwrap();
    assert_eq!((o.filled_amount, o.remaining_amount, o.completed), (1000, 0, true));
    assert_eq!(o.fill_count, 3);
    let listed: Vec<String> =
        contract.get_swap_partial_fills(order).into_iter().map(|f| f.fill_id).collect();
    assert_eq!(listed, vec![a, contract.get_partial_fill(listed[1].clone()).unwrap().fill_id, c]);
}

#[test]
fn accounts_of_every_order_balance_at_every_point() {
    let (mut contract, first) = book_with_order(1000, 1100, 1000);
    let second = contract
        .create_partial_fill_swap(accounts(1), accounts(3), 50, "0xeth".to_string(), 1100, 1000)
        .unwrap();
    let balanced = |c: &HTLCNear| {
        for (id, total) in [(&first, 1000u128), (&second, 50u128)] {
            let o = c.get_partial_fill_swap(id.clone()).unwrap();
            assert_eq!(o.filled_amount + o.remaining_amount, total);
            assert_eq!(o.total_amount, total);
            assert_eq!(o.completed, o.remaining_amount == 0);
            let locked: u128 = c
                .get_swap_partial_fills(id.clone())
                .iter()
                .filter(|f| f.state != FillState::Refunded)
                .map(|f| f.fill_amount)
                .sum();
            assert_eq!(o.filled_amount, locked);
            assert_eq!(o.fill_count as usize, c.get_swap_partial_fills(id.clone()).len());
        }
    };
    balanced(&contract);
    let a = fill(&mut contract, &first, b"a", 300, 1000).unwrap();
    balanced(&contract);
    let b = fill(&mut contract, &second, b"b", 50, 1000).unwrap();
    balanced(&contract);
    let c = fill(&mut contract, &first, b"c", 700, 1001).unwrap();
    balanced(&contract);
    let _ = fill(&mut contract, &first, b"d", 1, 1002);
    balanced(&contract);
    contract.complete_partial_fill(a, b"a".to_vec(), "0x".to_string(), accounts(2), 1099).unwrap();
    balanced(&contract);
    let _ = contract.refund_partial_fill(b.clone(), accounts(1), 1099);
    balanced(&contract);
    contract.refund_partial_fill(b.clone(), accounts(1), 1100).unwrap();
    balanced(&contract);
    let _ = contract.refund_partial_fill(b, accounts(1), 1100);
    balanced(&contract);
    contract.refund_partial_fill(c, accounts(1), 2000).unwrap();
    balanced(&contract);
    let o = contract.get_partial_fill_swap(first).unwrap();
    assert_eq!((o.filled_amount, o.remaining_amount, o.fill_count), (300, 700, 2));
    let o = contract.get_partial_fill_swap(second).unwrap();
    assert_eq!((o.filled_amount, o.remaining_amount, o.fill_count), (0, 50, 1));
}

#[test]
fn order_creation_is_validated_in_order() {
    let mut contract = HTLCNear::new(accounts(0));
    let make = |c: &mut HTLCNear, total: u128, eth: &str, timelock: u64, now: u64| {
        c.create_partial_fill_swap(accounts(1), accounts(2), total, eth.to_string(), timelock, now)
    };
    assert_eq!(make(&mut contract, 0, "", 5, 5), Err(HtlcError::InvalidAmount));
    assert_eq!(make(&mut contract, 1, "", 5, 5), Err(HtlcError::Expired));
    assert_eq!(make(&mut contract, 1, "", 6, 5), Err(HtlcError::InvalidForeignAddress));
    let id = make(&mut contract, 1, "0x", 6, 5).unwrap();
    assert_eq!(id, hex::encode(Sha256::digest(b"pf-swap-bob-1-5")));
    assert_eq!(make(&mut contract, 1, "0xother", 9, 5), Err(HtlcError::Conflict));
    let o = contract.get_partial_fill_swap(id.clone()).unwrap();
    assert_eq!(o.swap_id, id);
    assert_eq!((o.sender.as_str(), o.receiver.as_str()), ("bob", "charlie"));
    assert_eq!((o.total_amount, o.filled_amount, o.remaining_amount), (1, 0, 1));
    assert_eq!((o.fill_count, o.completed, o.created_at, o.timelock), (0, false, 5, 6));
    assert_eq!(o.eth_address, "0x");
    assert!(contract.get_partial_fill_swap("nothing".to_string()).is_none());
}

#[test]
fn fill_creation_is_validated_in_order() {
    let (mut contract, order) = book_with_order(100, 1100, 1000);
    let make = |c: &mut HTLCNear, order: &str, h: Vec<u8>, amount: u128, who: usize, attached: u128| {
        c.create_partial_fill(order.to_string(), h, amount, accounts(who), attached, 1000)
    };
    let good = digest(b"s");
    assert_eq!(make(&mut contract, "nothing", vec![], 0, 3, 1), Err(HtlcError::NotFound));
    assert_eq!(make(&mut contract, &order, vec![], 0, 3, 1), Err(HtlcError::InvalidAmount));
    assert_eq!(make(&mut contract, &order, vec![], 101, 3, 1), Err(HtlcError::InvalidAmount));
    assert_eq!(make(&mut contract, &order, vec![], 100, 3, 99), Err(HtlcError::InvalidAmount));
    assert_eq!(make(&mut contract, &order, vec![], 100, 3, 101), Err(HtlcError::InvalidAmount));
    assert_eq!(make(&mut contract, &order, vec![], 100, 3, 100), Err(HtlcError::InvalidCommitment));
    assert_eq!(make(&mut contract, &order, vec![0; 31], 100, 3, 100), Err(HtlcError::InvalidCommitment));
    assert_eq!(make(&mut contract, &order, vec![0; 33], 100, 3, 100), Err(HtlcError::InvalidCommitment));
    assert_eq!(make(&mut contract, &order, good.clone(), 40, 3, 40), Err(HtlcError::Unauthorized));
    assert_eq!(make(&mut contract, &order, good.clone(), 40, 2, 40), Err(HtlcError::Unauthorized));
    let id = make(&mut contract, &order, good.clone(), 40, 1, 40).unwrap();
    assert_eq!(id, hex::encode(Sha256::digest(format!("fill-{}-40-1000", order).as_bytes())));
    assert_eq!(make(&mut contract, &order, digest(b"t"), 40, 1, 40), Err(HtlcError::Conflict));
    assert!(make(&mut contract, &order, good.clone(), 60, 1, 60).is_ok());
    assert_eq!(make(&mut contract, &order, good, 1, 1, 1), Err(HtlcError::AlreadyFinalized));
    assert!(contract.get_partial_fill("nothing".to_string()).is_none());
}

#[test]
fn fill_completion_is_validated_in_order() {
    let (mut contract, order) = book_with_order(100, 1100, 1000);
    let id = fill(&mut contract, &order, b"s", 40, 1000).unwrap();
    let complete = |c: &mut HTLCNear, id: &str, secret: &[u8], who: usize, now: u64| {
        c.complete_partial_fill(id.to_string(), secret.to_vec(), "0xtx".to_string(), accounts(who), now)
            .map(|t| t.amount)
    };
    assert_eq!(complete(&mut contract, "nothing", b"s", 2, 1001), Err(HtlcError::NotFound));
    assert_eq!(complete(&mut contract, &id, b"x", 1, 1100), Err(HtlcError::Expired));
    assert_eq!(complete(&mut contract, &id, b"s", 2, 1100), Err(HtlcError::Expired));
    assert_eq!(complete(&mut contract, &id, b"x", 1, 1099), Err(HtlcError::Unauthorized));
    assert_eq!(complete(&mut contract, &id, b"x", 2, 1099), Err(HtlcError::InvalidSecret));
    contract.mark_claim_in_progress(&id);
    assert_eq!(complete(&mut contract, &id, b"s", 2, 1099), Err(HtlcError::ConcurrentClaim));
    assert_eq!(contract.get_partial_fill(id.clone()).unwrap().state, FillState::Open);
    contract.clear_claim_in_progress(&id);
    assert_eq!(complete(&mut contract, &id, b"s", 2, 1099), Ok(40));
    assert!(!contract.is_claiming_in_progress(&id));
    assert_eq!(complete(&mut contract, &id, b"x", 1, 2000), Err(HtlcError::AlreadyFinalized));
    assert_eq!(
        contract.refund_partial_fill(id, accounts(1), 2000).map(|t| t.amount),
        Err(HtlcError::AlreadyFinalized)
    );
}

#[test]
fn fill_refund_is_validated_in_order() {
    let (mut contract, order) = book_with_order(100, 1100, 1000);
    let id = fill(&mut contract, &order, b"s", 40, 1000).unwrap();
    let refund = |c: &mut HTLCNear, id: &str, who: usize, now: u64| {
        c.refund_partial_fill(id.to_string(), accounts(who), now).map(|t| t.amount)
    };
    assert_eq!(refund(&mut contract, "nothing", 1, 1100), Err(HtlcError::NotFound));
    assert_eq!(refund(&mut contract, &id, 2, 1099), Err(HtlcError::NotYetExpired));
    assert_eq!(refund(&mut contract, &id, 1, 1099), Err(HtlcError::NotYetExpired));
    assert_eq!(refund(&mut contract, &id, 2, 1100), Err(HtlcError::Unauthorized));
    assert_eq!(refund(&mut contract, &id, 1, 1100), Ok(40));
    assert_eq!(refund(&mut contract, &id, 2, 0), Err(HtlcError::AlreadyFinalized));
    assert_eq!(refund(&mut contract, &id, 1, 1100), Err(HtlcError::AlreadyFinalized));
    let f = contract.get_partial_fill(id.clone()).unwrap();
    assert!(f.refunded() && !f.completed());
    assert_eq!(f.eth_tx_hash, None);
    let again = contract
        .complete_partial_fill(id, b"s".to_vec(), "0x".to_string(), accounts(2), 1001)
        .map(|t| t.amount);
    assert_eq!(again, Err(HtlcError::AlreadyFinalized));
}

#[test]
fn fill_keeps_the_deadline_and_receiver_it_was_created_with() {
    let (mut contract, order) = book_with_order(100, 1100, 1000);
    let id = fill(&mut contract, &order, b"s", 40, 1050).unwrap();
    let f = contract.get_partial_fill(id).unwrap();
    let o = contract.get_partial_fill_swap(order).unwrap();
    assert_eq!(f.timelock, o.timelock);
    assert_eq!(f.receiver, o.receiver);
    assert_eq!(f.created_at, 1050);
}

#[test]
fn progress_gives_the_percentage_rounded_down() {
    let (mut contract, order) = book_with_order(3, 1100, 1000);
    assert!(contract.get_swap_progress("nothing".to_string()).is_none());
    let p = contract.get_swap_progress(order.clone()).unwrap();
    assert_eq!((p.total_amount, p.filled_amount, p.remaining_amount), (3, 0, 3));
    assert_eq!((p.fill_count, p.completed, p.fill_percentage), (0, false, 0));
    fill(&mut contract, &order, b"a", 1, 1000).unwrap();
    assert_eq!(contract.get_swap_progress(order.clone()).unwrap().fill_percentage, 33);
    fill(&mut contract, &order, b"b", 1, 1001).unwrap();
    let p = contract.get_swap_progress(order.clone()).unwrap();
    assert_eq!((p.filled_amount, p.remaining_amount, p.fill_count), (2, 1, 2));
    assert_eq!(p.fill_percentage, 66);
    fill(&mut contract, &order, b"c", 1, 1002).unwrap();
    let p = contract.get_swap_progress(order).unwrap();
    assert_eq!((p.fill_percentage, p.completed), (100, true));

    let (mut big, order) = book_with_order(u128::MAX, 1100, 1000);
    fill(&mut big, &order, b"a", u128::MAX / 2, 1000).unwrap();
    assert_eq!(big.get_swap_progress(order.clone()).unwrap().fill_percentage, 49);
    fill(&mut big, &order, b"b", u128::MAX / 2, 1001).unwrap();
    assert_eq!(big.get_swap_progress(order.clone()).unwrap().fill_percentage, 99);
    fill(&mut big, &order, b"c", 1, 1002).unwrap();
    let p = big.get_swap_progress(order).unwrap();
    assert_eq!((p.fill_percentage, p.filled_amount, p.remaining_amount), (100, u128::MAX, 0));

    let (mut sixty, order) = book_with_order(1000, 1100, 1000);
    fill(&mut sixty, &order, b"a", 600, 1000).unwrap();
    assert_eq!(sixty.get_swap_progress(order).unwrap().fill_percentage, 60);
}

#[test]
fn fills_are_listed_by_order_in_creation_order() {
    let (mut contract, first) = book_with_order(100, 1100, 1000);
    let second = contract
        .create_partial_fill_swap(accounts(1), accounts(3), 50, "0xeth".to_string(), 1100, 1000)
        .unwrap();
    let a = fill(&mut contract, &first, b"a", 10, 1000).unwrap();
    let b = fill(&mut contract, &second, b"b", 20, 1000).unwrap();
    let c = fill(&mut contract, &first, b"c", 30, 1000).unwrap();
    let ids = |c: &HTLCNear, order: &str| -> Vec<String> {
        c.get_swap_partial_fills(order.to_string()).into_iter().map(|f| f.fill_id).collect()
    };
    assert_eq!(ids(&contract, &first), vec![a, c]);
    assert_eq!(ids(&contract, &second), vec![b]);
    assert_eq!(ids(&contract, "nothing"), Vec::<String>::new());
    let listed = contract.get_swap_partial_fills(first);
    assert_eq!((listed[0].fill_amount, listed[1].fill_amount), (10, 30));
}

#[test]
fn plain_escrow_is_validated_in_order() {
    let mut contract = HTLCNear::new(accounts(0));
    let make = |c: &mut HTLCNear, amount: u128, h: Vec<u8>, timelock: u64, now: u64| {
        c.create_htlc(accounts(1), accounts(2), amount, h, timelock, String::new(), now)
            .map(|e| e.swap_id)
    };
    assert_eq!(make(&mut contract, 0, vec![], 5, 5), Err(HtlcError::InvalidAmount));
    assert_eq!(make(&mut contract, 9, vec![], 5, 5), Err(HtlcError::Expired));
    assert_eq!(make(&mut contract, 9, vec![], 6, 5), Err(HtlcError::InvalidCommitment));
    assert_eq!(make(&mut contract, 9, vec![1; 31], 6, 5), Err(HtlcError::InvalidCommitment));
    let id = make(&mut contract, 9, digest(b"s"), 100, 5).unwrap();
    assert_eq!(id, hex::encode(Sha256::digest(b"bob-charlie-9-5")));
    assert_eq!(make(&mut contract, 9, digest(b"t"), 200, 5), Err(HtlcError::Conflict));
    assert_eq!(contract.get_contract_count(), 1);

    let withdraw = |c: &mut HTLCNear, id: &str, secret: &[u8], who: usize, now: u64| {
        c.withdraw(id.to_string(), secret.to_vec(), accounts(who), now).map(|t| t.amount)
    };
    assert_eq!(withdraw(&mut contract, "nothing", b"s", 2, 6), Err(HtlcError::NotFound));
    assert_eq!(withdraw(&mut contract, &id, b"x", 1, 100), Err(HtlcError::Expired));
    assert_eq!(withdraw(&mut contract, &id, b"x", 1, 99), Err(HtlcError::InvalidSecret));
    assert_eq!(withdraw(&mut contract, &id, b"s", 1, 99), Err(HtlcError::Unauthorized));
    contract.mark_claim_in_progress(&id);
    assert_eq!(withdraw(&mut contract, &id, b"s", 2, 99), Err(HtlcError::ConcurrentClaim));
    contract.clear_claim_in_progress(&id);
    assert_eq!(
        contract.refund(id.clone(), accounts(1), 99).map(|t| t.amount),
        Err(HtlcError::NotYetExpired)
    );
    assert_eq!(
        contract.refund(id.clone(), accounts(2), 100).map(|t| t.amount),
        Err(HtlcError::Unauthorized)
    );
    assert_eq!(
        contract.refund("nothing".to_string(), accounts(1), 100).map(|t| t.amount),
        Err(HtlcError::NotFound)
    );
    assert_eq!(withdraw(&mut contract, &id, b"s", 2, 99), Ok(9));
    assert_eq!(withdraw(&mut contract, &id, b"s", 2, 99), Err(HtlcError::AlreadyFinalized));
    assert_eq!(
        contract.refund(id.clone(), accounts(1), 100).map(|t| t.amount),
        Err(HtlcError::AlreadyFinalized)
    );
    assert_eq!(contract.get_contract(id).unwrap().state, SwapState::Claimed);
    assert!(contract.get_contract("nothing".to_string()).is_none());
}

#[test]
fn all_plain_escrows_are_listed_in_creation_order() {
    let mut contract = HTLCNear::new(accounts(0));
    assert_eq!(contract.get_contract_count(), 0);
    assert!(contract.get_all_contracts().is_empty());
    let mut ids = Vec::new();
    for k in 1..=3u128 {
        ids.push(
            contract
                .create_htlc(accounts(1), accounts(2), k, vec![7; 32], 100, "0xe".to_string(), 5)
                .unwrap()
                .swap_id,
        );
    }
    contract.refund(ids[1].clone(), accounts(1), 100).unwrap();
    let all = contract.get_all_contracts();
    assert_eq!(contract.get_contract_count(), 3);
    assert_eq!(all.iter().map(|(id, _)| id.clone()).collect::<Vec<_>>(), ids);
    assert_eq!(all.iter().map(|(_, c)| c.amount).collect::<Vec<_>>(), vec![1, 2, 3]);
    assert_eq!(
        all.iter().map(|(_, c)| c.state).collect::<Vec<_>>(),
        vec![SwapState::Open, SwapState::Refunded, SwapState::Open]
    );
}

#[test]
fn cross_chain_escrow_records_the_counterpart_transaction() {
    let mut contract = HTLCNear::new(accounts(0));
    let make = |c: &mut HTLCNear, amount: u128, h: Vec<u8>, timelock: u64, eth: &str, now: u64| {
        c.create_cross_chain_htlc(accounts(1), accounts(2), amount, h, timelock, eth.to_string(), now)
            .map(|e| e.swap_id)
    };
    assert_eq!(make(&mut contract, 0, vec![], 5, "", 5), Err(HtlcError::InvalidAmount));
    assert_eq!(make(&mut contract, 9, vec![], 5, "", 5), Err(HtlcError::Expired));
    assert_eq!(make(&mut contract, 9, vec![], 6, "", 5), Err(HtlcError::InvalidCommitment));
    assert_eq!(make(&mut contract, 9, digest(b"s"), 6, "", 5), Err(HtlcError::InvalidForeignAddress));
    let id = make(&mut contract, 9, digest(b"s"), 100, "0xeth", 5).unwrap();
    assert_eq!(id, hex::encode(Sha256::digest(b"cc-bob-charlie-9-5")));
    assert_eq!(make(&mut contract, 9, digest(b"s"), 100, "0xeth", 5), Err(HtlcError::Conflict));
    let other = make(&mut contract, 8, digest(b"s"), 100, "0xeth", 5).unwrap();
    assert!(contract.get_contract(id.clone()).is_none());
    assert_eq!(contract.get_contract_count(), 0);

    let complete = |c: &mut HTLCNear, id: &str, secret: &[u8], who: usize, now: u64| {
        c.complete_cross_chain_swap(id.to_string(), secret.to_vec(), "0xtx".to_string(), accounts(who), now)
            .map(|e| (e.payout().to, e.amount))
    };
    assert_eq!(complete(&mut contract, "nothing", b"s", 2, 6), Err(HtlcError::NotFound));
    assert_eq!(complete(&mut contract, &id, b"x", 1, 100), Err(HtlcError::Expired));
    assert_eq!(complete(&mut contract, &id, b"x", 1, 99), Err(HtlcError::InvalidSecret));
    assert_eq!(complete(&mut contract, &id, b"s", 1, 99), Err(HtlcError::Unauthorized));
    contract.mark_claim_in_progress(&id);
    assert_eq!(complete(&mut contract, &id, b"s", 2, 99), Err(HtlcError::ConcurrentClaim));
    contract.clear_claim_in_progress(&id);
    assert_eq!(complete(&mut contract, &id, b"s", 2, 99), Ok((accounts(2), 9)));
    assert_eq!(complete(&mut contract, &id, b"s", 2, 99), Err(HtlcError::AlreadyFinalized));
    let c = contract.get_cross_chain_contract(id.clone()).unwrap();
    assert!(c.withdrawn() && !c.refunded());
    assert_eq!(c.eth_tx_hash, Some("0xtx".to_string()));
    assert_eq!(c.eth_address, "0xeth");

    let refund = |c: &mut HTLCNear, id: &str, who: usize, now: u64| {
        c.refund_cross_chain(id.to_string(), accounts(who), now).map(|e| (e.payout().to, e.amount))
    };
    assert_eq!(refund(&mut contract, "nothing", 1, 100), Err(HtlcError::NotFound));
    assert_eq!(refund(&mut contract, &id, 1, 100), Err(HtlcError::AlreadyFinalized));
    assert_eq!(refund(&mut contract, &other, 2, 99), Err(HtlcError::NotYetExpired));
    assert_eq!(refund(&mut contract, &other, 2, 100), Err(HtlcError::Unauthorized));
    assert_eq!(refund(&mut contract, &other, 1, 100), Ok((accounts(1), 8)));
    let c = contract.get_cross_chain_contract(other).unwrap();
    assert!(!c.withdrawn() && c.refunded());
    assert_eq!(c.eth_tx_hash, None);
    assert!(contract.get_cross_chain_contract("nothing".to_string()).is_none());
}

#[test]
fn only_the_owner_rules_on_resolvers() {
    let mut contract = HTLCNear::new(accounts(0));
    assert_eq!(contract.get_owner(), "alice");
    assert!(!contract.is_authorized_resolver(accounts(3)));
    assert_eq!(
        contract.authorize_resolver(accounts(1), accounts(3), true),
        Err(HtlcError::Unauthorized)
    );
    assert!(!contract.is_authorized_resolver(accounts(3)));
    assert_eq!(contract.authorize_resolver(accounts(0), accounts(3), true), Ok(()));
    assert!(contract.is_authorized_resolver(accounts(3)));
    assert!(!contract.is_authorized_resolver(accounts(4)));
    assert_eq!(contract.authorize_resolver(accounts(0), accounts(3), false), Ok(()));
    assert!(!contract.is_authorized_resolver(accounts(3)));
    assert_eq!(contract.authorize_resolver(accounts(0), accounts(4), false), Ok(()));
    assert!(!contract.is_authorized_resolver(accounts(4)));
    assert_eq!(contract.authorize_resolver(accounts(0), accounts(3), true), Ok(()));
    assert!(contract.is_authorized_resolver(accounts(3)));
    assert_eq!(contract.emergency_pause(accounts(0)), Ok(()));
    assert_eq!(contract.emergency_pause(accounts(1)), Err(HtlcError::Unauthorized));
    assert_eq!(contract.migrate_to_partial_fills(accounts(0)), Ok(()));
    assert_eq!(contract.migrate_to_partial_fills(accounts(3)), Err(HtlcError::Unauthorized));
    assert_eq!(contract.get_owner(), "alice");
}

#[test]
fn each_record_pays_at_most_once_whatever_is_tried() {
    let (mut contract, order) = book_with_order(100, 1100, 1000);
    let f = fill(&mut contract, &order, b"s", 40, 1000).unwrap();
    let h = contract
        .create_htlc(accounts(1), accounts(2), 5, digest(b"s"), 1100, String::new(), 1000)
        .unwrap()
        .swap_id;
    let x = contract
        .create_cross_chain_htlc(accounts(1), accounts(2), 5, digest(b"s"), 1100, "0xe".to_string(), 1000)
        .unwrap()
        .swap_id;
    let (mut paid_f, mut paid_h, mut paid_x) = (0, 0, 0);
    for now in [1001u64, 1099, 1100, 5000] {
        for who in 0..4 {
            for secret in [b"s".to_vec(), b"t".to_vec()] {
                let tx = "0x".to_string();
                paid_f += contract
                    .complete_partial_fill(f.clone(), secret.clone(), tx.clone(), accounts(who), now)
                    .is_ok() as u32;
                paid_f += contract.refund_partial_fill(f.clone(), accounts(who), now).is_ok() as u32;
                paid_h += contract.withdraw(h.clone(), secret.clone(), accounts(who), now).is_ok() as u32;
                paid_h += contract.refund(h.clone(), accounts(who), now).is_ok() as u32;
                paid_x += contract
                    .complete_cross_chain_swap(x.clone(), secret.clone(), tx, accounts(who), now)
                    .is_ok() as u32;
                paid_x += contract.refund_cross_chain(x.clone(), accounts(who), now).is_ok() as u32;
            }
        }
    }
    assert_eq!((paid_f, paid_h, paid_x), (1, 1, 1));
}
