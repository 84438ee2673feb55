use fusion_htlc::{FillState, FusionHTLC, FusionState, HTLCNear, HtlcError, NearState, SwapState};
use sha2::{Digest, Sha256};

fn accounts(i: usize) -> String {
    ["alice", "bob", "charlie", "danny", "eugene", "fargo"][i].to_string()
}

fn digest(secret: &[u8]) -> Vec<u8> {
    Sha256::digest(secret).to_vec()
}

fn busy_fusion() -> (FusionHTLC, String, String, String) {
    let mut engine = FusionHTLC::new(accounts(0));
    let hash = hex::encode(Sha256::digest(b"s"));
    let a = engine
        .initiate_swap(accounts(0), accounts(1), 10, hash.clone(), 100, None, 1)
        .unwrap()
        .swap_id;
    let b = engine
        .initiate_swap(accounts(0), accounts(1), 20, hash.clone(), 100, None, 2)
        .unwrap()
        .swap_id;
    engine.claim_swap(b.clone(), "s".to_string(), accounts(1), 50).unwrap();
    let q = engine
        .request_eth_swap(
            accounts(2),
            5,
            "0x1234567890123456789012345678901234567890".to_string(),
            "0xtoken".to_string(),
            hash,
            100,
            "{}".to_string(),
            1,
        )
        .unwrap()
        .swap_id;
    engine.mark_claim_in_progress(&a);
    (engine, a, b, q)
}

#[test]
fn escrow_engine_survives_being_stored() {
    let (engine, a, b, q) = busy_fusion();
    let state = engine.into_state();
    assert_eq!(state.owner, "alice");
    assert_eq!(state.swap_ids, vec![a.clone(), b.clone()]);
    assert_eq!(state.request_ids, vec![q.clone()]);
    assert_eq!(state.claims_in_progress, vec![a.clone()]);
    assert_eq!(state.swaps[1].state, SwapState::Claimed);
    let mut engine = FusionHTLC::from_state(state).unwrap();
    assert_eq!(engine.get_owner(), "alice");
    assert!(engine.is_claiming_in_progress(&a));
    assert_eq!(engine.get_swap(a.clone()).unwrap().amount, 10);
    assert_eq!(engine.get_swap(b).unwrap().secret, Some("s".to_string()));
    assert_eq!(engine.get_eth_swap_request(q).unwrap().amount, 5);
    assert_eq!(
        engine.claim_swap(a.clone(), "s".to_string(), accounts(1), 50).unwrap_err(),
        HtlcError::ConcurrentClaim
    );
    engine.clear_claim_in_progress(&a);
    assert!(engine.claim_swap(a, "s".to_string(), accounts(1), 50).is_ok());
}

#[test]
fn escrow_engine_refuses_contents_that_break_its_invariant() {
    let fresh = || busy_fusion().0.into_state();
    assert!(FusionHTLC::from_state(fresh()).is_some());
    let empty = FusionState {
        owner: accounts(0),
        swap_ids: vec![],
        swaps: vec![],
        request_ids: vec![],
        requests: vec![],
        claims_in_progress: vec![],
    };
    assert!(FusionHTLC::from_state(empty).is_some());

    let mut s = fresh();
    s.swap_ids[1] = s.swap_ids[0].clone();
    assert!(FusionHTLC::from_state(s).is_none());
    let mut s = fresh();
    s.swap_ids.pop();
    assert!(FusionHTLC::from_state(s).is_none());
    let mut s = fresh();
    s.swaps[0].amount = 0;
    assert!(FusionHTLC::from_state(s).is_none());
    let mut s = fresh();
    s.swaps[0].secret = Some("s".to_string());
    assert!(FusionHTLC::from_state(s).is_none());
    let mut s = fresh();
    s.swaps[1].secret = None;
    assert!(FusionHTLC::from_state(s).is_none());
    let mut s = fresh();
    s.requests[0].swap_id = "other".to_string();
    assert!(FusionHTLC::from_state(s).is_none());
    let mut s = fresh();
    s.requests[0].amount = 0;
    assert!(FusionHTLC::from_state(s).is_none());
    let mut s = fresh();
    s.claims_in_progress.push(s.claims_in_progress[0].clone());
    assert!(FusionHTLC::from_state(s).is_none());
}

fn busy_near() -> (HTLCNear, String, Vec<String>) {
    let mut engine = HTLCNear::new(accounts(0));
    engine.create_htlc(accounts(1), accounts(2), 5, digest(b"s"), 100, String::new(), 1).unwrap();
    engine
        .create_cross_chain_htlc(accounts(1), accounts(2), 5, digest(b"s"), 100, "0xe".to_string(), 1)
        .unwrap();
    engine.authorize_resolver(accounts(0), accounts(3), true).unwrap();
    let order = engine
        .create_partial_fill_swap(accounts(1), accounts(2), 1000, "0xe".to_string(), 100, 1)
        .unwrap();
    let mut fills = Vec::new();
    for (k, amount) in [300u128, 200, 100].into_iter().enumerate() {
        fills.push(
            engine
                .create_partial_fill(order.clone(), digest(b"s"), amount, accounts(1), amount, k as u64)
                .unwrap(),
        );
    }
    engine
        .complete_partial_fill(fills[0].clone(), b"s".to_vec(), "0xtx".to_string(), accounts(2), 50)
        .unwrap();
    engine.refund_partial_fill(fills[1].clone(), accounts(1), 100).unwrap();
    (engine, order, fills)
}

#[test]
fn order_book_survives_being_stored() {
    let (engine, order, fills) = busy_near();
    let state = engine.into_state();
    assert_eq!(state.swap_ids, vec![order.clone()]);
    assert_eq!(state.fill_ids, fills);
    assert_eq!(state.resolvers, vec![accounts(3)]);
    assert_eq!(state.rulings, vec![true]);
    assert_eq!(state.contracts.len(), 1);
    assert_eq!(state.cross_chain_contracts.len(), 1);
    assert_eq!(
        state.partial_fills.iter().map(|f| f.state).collect::<Vec<_>>(),
        vec![FillState::Completed, FillState::Refunded, FillState::Open]
    );
    let mut engine = HTLCNear::from_state(state).unwrap();
    let o = engine.get_partial_fill_swap(order.clone()).unwrap();
    assert_eq!((o.filled_amount, o.remaining_amount, o.fill_count), (400, 600, 3));
    assert!(engine.is_authorized_resolver(accounts(3)));
    assert_eq!(engine.get_contract_count(), 1);
    assert!(engine.refund_partial_fill(fills[2].clone(), accounts(1), 100).is_ok());
    let o = engine.get_partial_fill_swap(order).unwrap();
    assert_eq!((o.filled_amount, o.remaining_amount, o.fill_count), (300, 700, 3));
}

#[test]
fn order_book_refuses_contents_that_break_its_invariant() {
    let fresh = || busy_near().0.into_state();
    assert!(HTLCNear::from_state(fresh()).is_some());
    let empty = NearState {
        owner: accounts(0),
        contract_ids: vec![],
        contracts: vec![],
        cross_chain_ids: vec![],
        cross_chain_contracts: vec![],
        swap_ids: vec![],
        partial_fill_swaps: vec![],
        fill_ids: vec![],
        partial_fills: vec![],
        resolvers: vec![],
        rulings: vec![],
        claims_in_progress: vec![],
    };
    assert!(HTLCNear::from_state(empty).is_some());

    let broken: Vec<fn(&mut NearState)> = vec![
        |s| s.partial_fill_swaps[0].filled_amount += 1,
        |s| s.partial_fill_swaps[0].remaining_amount -= 1,
        |s| {
            s.partial_fill_swaps[0].filled_amount -= 1;
            s.partial_fill_swaps[0].remaining_amount += 1;
        },
        |s| {
            s.partial_fill_swaps[0].filled_amount += 1;
            s.partial_fill_swaps[0].remaining_amount -= 1;
        },
        |s| s.partial_fill_swaps[0].completed = true,
        |s| s.partial_fill_swaps[0].fill_count = 2,
        |s| s.partial_fill_swaps[0].fill_count = 4,
        |s| s.partial_fill_swaps[0].swap_id = "other".to_string(),
        |s| s.swap_ids[0] = "other".to_string(),
        |s| s.partial_fills[2].fill_amount += 1,
        |s| s.partial_fills[2].fill_amount = u128::MAX,
        |s| s.partial_fills[0].state = FillState::Refunded,
        |s| s.partial_fills[1].state = FillState::Open,
        |s| s.partial_fills[0].parent_swap_id = "other".to_string(),
        |s| s.partial_fills[0].fill_id = "other".to_string(),
        |s| s.partial_fills[0].hashlock.pop().map(|_| ()).unwrap(),
        |s| s.fill_ids[1] = s.fill_ids[0].clone(),
        |s| s.fill_ids.pop().map(|_| ()).unwrap(),
        |s| s.contracts[0].amount = 0,
        |s| s.contracts[0].hashlock.push(0),
        |s| s.cross_chain_contracts[0].amount = 0,
        |s| s.cross_chain_contracts[0].hashlock.clear(),
        |s| s.rulings.push(false),
        |s| s.claims_in_progress = vec!["a".to_string(), "a".to_string()],
    ];
    for (k, spoil) in broken.into_iter().enumerate() {
        let mut s = fresh();
        spoil(&mut s);
        assert!(HTLCNear::from_state(s).is_none(), "entry {}", k);
    }
    let mut s = fresh();
    s.partial_fills[1].state = FillState::Completed;
    s.partial_fill_swaps[0].filled_amount += 200;
    s.partial_fill_swaps[0].remaining_amount -= 200;
    assert!(HTLCNear::from_state(s).is_some());
}
