use deposit_graph::eth::{EthAddress, Uint256};
use deposit_graph::events::{DepositMade, SharesUpdated, UserSignedUp, WithdrawalRequested};
use deposit_graph::listener::{BatchAction, ChainListener, EventBatch, PollAction, PollOutcome};
use deposit_graph::registry::{ContractRegistry, ProcessedEvents};

#[test]
fn listener_scans_each_block_once() {
    let mut l = ChainListener::start(10, 100);
    assert_eq!(l.on_poll(PollOutcome::LatestBlock(100)), PollAction::NoNewBlocks);
    assert_eq!(l.on_poll(PollOutcome::ChainCheckFailed), PollAction::Skip);
    assert_eq!(
        l.on_poll(PollOutcome::LatestBlock(105)),
        PollAction::ProcessRange { from_block: 101, to_block: 105 }
    );
    assert_eq!(l.last_processed_block, 105);
    assert_eq!(l.on_poll(PollOutcome::LatestBlockFailed), PollAction::Skip);
    assert_eq!(l.on_poll(PollOutcome::LatestBlock(103)), PollAction::NoNewBlocks);
    assert_eq!(l.last_processed_block, 105);
    assert_eq!(
        l.on_poll(PollOutcome::LatestBlock(106)),
        PollAction::ProcessRange { from_block: 106, to_block: 106 }
    );
    assert_eq!(l.chain_id, 10);
}

fn addr(b: u8) -> EthAddress {
    EthAddress { bytes: [b; 20] }
}

fn w(b: u8, amount: u64) -> WithdrawalRequested {
    WithdrawalRequested { user: addr(b), shares_withdrawn: Uint256::from_u64(1), token_amount: Uint256::from_u64(amount) }
}

#[test]
fn batch_handles_events_in_order_and_pays_each_withdrawal_once() {
    let chain = Uint256::from_u64(5);
    let mut handled = ProcessedEvents::new();
    let shares = SharesUpdated { user: addr(3), new_shares: Uint256::from_u64(2), chain_id: chain };
    let signup = UserSignedUp { user: addr(4), chain_id: chain };
    let dep = DepositMade { user: addr(5), amount: Uint256::from_u64(1), new_shares: Uint256::from_u64(1), chain_id: chain };
    // the same withdrawal twice, then another one
    let mut batch = EventBatch::new(chain, vec![w(1, 10), w(1, 10), w(2, 20)], vec![shares], vec![signup], vec![dep]);

    let a = batch.step(&mut handled, false);
    let first_id = match a {
        BatchAction::ProcessWithdrawal { event_id, event } => {
            assert_eq!(event.token_amount.limbs[0], 10);
            event_id
        }
        _ => panic!("expected a withdrawal"),
    };
    assert_eq!(first_id, format!("withdrawal_5_0x0101\u{2026}0101_1_10"));
    // paid: the duplicate is passed over, the next withdrawal is handed out
    match batch.step(&mut handled, true) {
        BatchAction::ProcessWithdrawal { event, .. } => assert_eq!(event.token_amount.limbs[0], 20),
        _ => panic!("expected the second withdrawal"),
    }
    assert!(handled.contains(&first_id));
    // the second withdrawal fails: not recorded, not counted
    match batch.step(&mut handled, false) {
        BatchAction::SaveRecord(r) => assert_eq!(r.fields[0].1, "SharesUpdated"),
        _ => panic!("expected the shares record"),
    }
    match batch.step(&mut handled, true) {
        BatchAction::SaveRecord(r) => assert_eq!(r.fields[0].1, "UserSignedUp"),
        _ => panic!("expected the sign-up record"),
    }
    match batch.step(&mut handled, false) {
        BatchAction::SaveRecord(r) => assert_eq!(r.fields[0].1, "Deposit"),
        _ => panic!("expected the deposit record"),
    }
    match batch.step(&mut handled, true) {
        BatchAction::Finished { event_count } => assert_eq!(event_count, 3),
        _ => panic!("expected the end"),
    }
    match batch.step(&mut handled, true) {
        BatchAction::Finished { event_count } => assert_eq!(event_count, 3),
        _ => panic!("expected the end again"),
    }

    // a later batch with the paid withdrawal passes it over
    let mut later = EventBatch::new(chain, vec![w(1, 10)], vec![], vec![], vec![]);
    match later.step(&mut handled, false) {
        BatchAction::Finished { event_count } => assert_eq!(event_count, 0),
        _ => panic!("a paid withdrawal must not be handed out again"),
    }
}

#[test]
fn one_listener_per_registered_chain() {
    let mut r = ContractRegistry::new();
    r.insert(1, "a");
    r.insert(2, "b");
    r.insert(1, "c");
    r.insert(3, "d");
    let mut started: Vec<(u64, &str)> = r.chain_ids().into_iter().map(|id| (id, *r.contract_of(id).unwrap())).collect();
    started.sort();
    assert_eq!(started, vec![(1, "c"), (2, "b"), (3, "d")]);
}
