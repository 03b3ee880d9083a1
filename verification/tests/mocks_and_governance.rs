use honzon::assets::{Assets, NATIVE, STABLE};
use honzon::bounties_mock::{
    approve_payment, create_funded_parent_bounty, expect_events, get_payment_id, last_event, last_events, paid, reject_payment, set_status,
    setup_bounty, unpay, BountyStatus, PaymentLedger, PaymentState, PaymentStatus, TestBountiesPay, TestSpendOrigin,
    TestTreasuryPay,
};
use honzon::connections::{Error as ConnError, Event as ConnEvent, Pallet as Connections};
use honzon::opf::{conviction_index, Conviction, Pallet as Opf, ProjectInfo, SpendInfo, VoteInfo, VotingRoundInfo};
use honzon::traits::{DispatchError, ModuleError, Origin};

#[test]
fn bounty_payments_are_recorded_and_approved() {
    let mut ledger = PaymentLedger::new();
    assert_eq!(TestBountiesPay::pay(&mut ledger, 0, 7, 1, 30), Ok(0));
    assert_eq!(TestBountiesPay::pay(&mut ledger, 0, 7, 1, 20), Ok(1));
    assert_eq!(paid(&ledger, 7, 1), 50);
    assert_eq!(paid(&ledger, 7, 2), 0);
    unpay(&mut ledger, 7, 1, 60);
    assert_eq!(paid(&ledger, 7, 1), 0);
    assert_eq!(TestBountiesPay::check_payment(&ledger, 1), PaymentStatus::InProgress);
    set_status(&mut ledger, 1, PaymentStatus::Failure);
    assert_eq!(TestBountiesPay::check_payment(&ledger, 1), PaymentStatus::Failure);
    assert_eq!(TestTreasuryPay::pay(1, 1, 1), Ok(0));
    assert_eq!(TestTreasuryPay::check_payment(3), PaymentStatus::InProgress);

    let status = BountyStatus::PayoutAttempted {
        curator_stash: (7, PaymentState::Attempted { id: 4 }),
        beneficiary: (5, PaymentState::Succeeded),
    };
    assert_eq!(get_payment_id(status, Some(7)), Some(4));
    assert_eq!(get_payment_id(status, Some(5)), None);
    assert_eq!(get_payment_id(status, None), None);
    assert_eq!(get_payment_id(BountyStatus::RefundAttempted { payment_status: PaymentState::Attempted { id: 2 } }, None), Some(2));
    assert_eq!(get_payment_id(BountyStatus::Other, Some(7)), None);

    assert_eq!(TestBountiesPay::pay(&mut ledger, 0, 7, 1, 9), Ok(2));
    assert_eq!(approve_payment(&mut ledger, 7, status, 1, 9), 4);
    assert_eq!(TestBountiesPay::check_payment(&ledger, 4), PaymentStatus::Success);
}

#[test]
fn funded_parent_bounty() {
    let mut ledger = PaymentLedger::new();
    let mut balances = Assets::new();
    let bounty = setup_bounty(&mut balances, 3);
    assert_eq!(bounty.curator_deposit, 3);
    assert_eq!(balances.balance(NATIVE, 4), 100);
    assert_eq!(balances.balance(NATIVE, 8), 100);
    assert_eq!(bounty.value, 50);
    assert_eq!(TestBountiesPay::pay(&mut ledger, 0, 99, bounty.asset_kind, bounty.value), Ok(0));
    let status = BountyStatus::FundingAttempted { payment_status: PaymentState::Attempted { id: 0 } };
    let funded = create_funded_parent_bounty(&mut ledger, bounty, 2, 99, status);
    assert_eq!(funded.parent_bounty_id, 2);
    assert_eq!(funded.value, bounty.value);
    assert_eq!(TestBountiesPay::check_payment(&ledger, 0), PaymentStatus::Success);
}

#[test]
fn spend_origins_and_event_helpers() {
    assert_eq!(TestSpendOrigin::try_origin(Origin::Root), Ok(u64::MAX));
    assert_eq!(TestSpendOrigin::try_origin(Origin::Signed(12)), Ok(20));
    assert_eq!(TestSpendOrigin::try_origin(Origin::Signed(3)), Err(Origin::Signed(3)));
    let log = vec![1u32, 2, 3, 4];
    assert_eq!(last_events(&log, 2), vec![3, 4]);
    assert_eq!(last_events(&log, 9), log);
    assert_eq!(last_event(&log), 4);
    assert!(expect_events(&log, &vec![3, 4]));
    assert!(!expect_events(&log, &vec![2, 4]));
}

#[test]
fn opf_rounds_and_spends() {
    let mut opf = Opf::new(100, 10);
    let round = VotingRoundInfo::new(&mut opf, 5);
    assert_eq!(round.round_number, 0);
    assert_eq!(round.round_ending_block, 15);
    assert_eq!(opf.voting_round_number, 1);
    let project = ProjectInfo { project_id: 3, submission_block: 1, amount: 40 };
    let spend = SpendInfo::new(&mut opf, &project, 20);
    assert_eq!(spend.expire, 120);
    assert!(!spend.claimed);
    assert_eq!(opf.spends.get(3), Some(spend));
    let mut vote = VoteInfo::default_vote(&opf);
    assert_eq!(vote.amount, 0);
    assert_eq!(vote.conviction, Conviction::Unlocked);
    vote.funds_unlock_block = 0;
    vote.funds_unlock();
    assert_eq!(vote.funds_unlock_block, 15);
    assert_eq!(conviction_index(Conviction::Locked6x), 6);
    assert_eq!(conviction_index(Conviction::Unlocked), 0);
}

#[test]
fn connections_admin_calls() {
    let mut c = Connections::new(40, 41);
    assert_eq!(c.set_stability_fee(Origin::Signed(1), 3, Some(5)), Err(DispatchError::BadOrigin));
    assert!(c.set_stability_fee(Origin::Root, 3, Some(5)).is_ok());
    assert_eq!(c.stability_fee_overrides(3), Some(5));
    assert!(c.set_stability_fee(Origin::Root, 3, None).is_ok());
    assert_eq!(c.stability_fee_overrides(3), None);
    assert_eq!(c.owned_active(0, 1), Err(DispatchError::Module(ModuleError::Connections(ConnError::ConnectionNotFound))));

    let mut assets = Assets::new();
    assert_eq!(c.inject_liquidity(Origin::Signed(2), &mut assets, 9, 10), Err(DispatchError::BadOrigin));
    assert!(c.inject_liquidity(Origin::Root, &mut assets, 9, 10).is_ok());
    assert_eq!(assets.balance(STABLE, 9), 10);
    assert_eq!(assets.balance(STABLE, c.account_id()), 0);
    assert_eq!(c.events.last(), Some(&ConnEvent::LiquidityInjected { destination: 9, amount: 10 }));
}

#[test]
fn rejected_payment_is_taken_back() {
    let mut ledger = PaymentLedger::new();
    assert_eq!(TestBountiesPay::pay(&mut ledger, 0, 5, 1, 40), Ok(0));
    let status = BountyStatus::PayoutAttempted {
        curator_stash: (7, PaymentState::Succeeded),
        beneficiary: (5, PaymentState::Attempted { id: 0 }),
    };
    assert_eq!(reject_payment(&mut ledger, 5, status, 1, 40), 0);
    assert_eq!(paid(&ledger, 5, 1), 0);
    assert_eq!(TestBountiesPay::check_payment(&ledger, 0), PaymentStatus::Failure);
    assert_eq!(TestSpendOrigin::try_successful_origin(false), Ok(Origin::Root));
    assert_eq!(TestSpendOrigin::try_successful_origin(true), Err(()));
}
