use honzon::assets::{Assets, NATIVE, STABLE};
use honzon::network_bridge::{rx_action, tx_action, RxAction, RxEvent, TxAction, TxEvent};
use honzon::node_service::{node_plan, Consensus, Sealing};
use honzon::savings::{Error as SavingsError, Pallet as Savings, PoolData, RewardTransfer};
use honzon::traits::{DispatchError, ModuleError, Origin};
use honzon::weights::{RuntimeDbWeight, SubstrateWeight, Weight, WeightInfo, WeightMeter, ZeroWeight};

#[test]
fn tx_side_decisions() {
    assert_eq!(tx_action(TxEvent::Conclude), TxAction::Stop);
    assert_eq!(tx_action(TxEvent::OtherSignal), TxAction::Ignore);
    assert_eq!(tx_action(TxEvent::SendRequest { authority: 4, peer_connected: true }), TxAction::Forward { authority: 4 });
    assert_eq!(tx_action(TxEvent::SendRequest { authority: 4, peer_connected: false }), TxAction::RespondNotConnected);
    assert_eq!(tx_action(TxEvent::ReportPeer), TxAction::Ignore);
    assert_eq!(tx_action(TxEvent::Unexpected), TxAction::Unsupported);
}

#[test]
fn rx_side_decisions() {
    assert_eq!(rx_action(RxEvent::BitfieldFromPeer), RxAction::DeliverBitfield);
    assert_eq!(rx_action(RxEvent::OtherPeerMessage), RxAction::Unsupported);
    assert_eq!(rx_action(RxEvent::RequestFromPeer { has_inbound_queue: true }), RxAction::QueueRequest);
    assert_eq!(rx_action(RxEvent::RequestFromPeer { has_inbound_queue: false }), RxAction::Ignore);
    assert_eq!(rx_action(RxEvent::RequestFromNode), RxAction::Unsupported);
    assert_eq!(rx_action(RxEvent::NetworkClosed), RxAction::Ignore);
    assert_eq!(rx_action(RxEvent::Conclude), RxAction::Stop);
    assert_eq!(rx_action(RxEvent::OverseerMessage), RxAction::Unsupported);
}

#[test]
fn node_plan_follows_consensus() {
    let p = node_plan(Consensus::ManualSeal(Some(3000)), true, 0);
    assert_eq!(p.sealing, Sealing::ManualEvery { millis: 3000 });
    assert!(p.offchain_workers);
    assert!(!p.telemetry);
    assert_eq!(node_plan(Consensus::ManualSeal(None), false, 2).sealing, Sealing::Manual);
    assert!(node_plan(Consensus::ManualSeal(None), false, 2).telemetry);
    assert_eq!(node_plan(Consensus::InstantSeal, false, 0).sealing, Sealing::Instant);
    assert_eq!(node_plan(Consensus::NoSealing, false, 0).sealing, Sealing::Off);
    assert_eq!(node_plan(Consensus::NoSealing, false, 0).rpc_consensus, Consensus::NoSealing);
}

#[test]
fn weights_are_linear_and_saturate() {
    let db = RuntimeDbWeight { read: 25_000_000, write: 100_000_000 };
    let w = SubstrateWeight { db };
    assert_eq!(
        w.on_initialize_ongoing(1, 1),
        Weight {
            ref_time: 2_036_000_000 + 20_614_626 + 1_324_037 + 8 * 25_000_000 + 4 * 100_000_000,
            proof_size: 15414 + 27 + 80,
        }
    );
    assert_eq!(w.on_initialize_ongoing_finalize_failed(5, 5), Weight { ref_time: 4_659_677, proof_size: 0 });
    assert_eq!(w.finalize_async_verification(2, 3), Weight { ref_time: 3_354_301 + 2 * 907 + 3 * 65, proof_size: 0 });
    assert_eq!(db.reads(u64::MAX), Weight { ref_time: u64::MAX, proof_size: 0 });
    assert_eq!(db.reads_writes(2, 1), Weight { ref_time: 150_000_000, proof_size: 0 });
    assert_eq!(
        Weight::from_parts(u64::MAX, 1).saturating_add(Weight::from_parts(1, 1)),
        Weight { ref_time: u64::MAX, proof_size: 2 }
    );
    let z = ZeroWeight;
    assert_eq!(z.verify_sync_paged(9, 9), Weight::zero());
}

#[test]
fn weight_meter_never_exceeds_its_limit() {
    let mut meter = WeightMeter::with_limit(Weight::from_parts(100, 10));
    assert!(meter.try_consume(Weight::from_parts(60, 5)).is_ok());
    assert_eq!(meter.remaining(), Weight::from_parts(40, 5));
    assert!(meter.try_consume(Weight::from_parts(41, 0)).is_err());
    assert_eq!(meter.remaining(), Weight::from_parts(40, 5));
    assert!(meter.try_consume(Weight::from_parts(40, 5)).is_ok());
    assert_eq!(meter.remaining(), Weight::zero());
}

#[test]
fn savings_pools_and_rewards() {
    let mut s = Savings::new(1, 10, 99);
    assert_eq!(s.create_pool(Origin::Signed(2), 0, 1, 5, Ok(0)), Err(DispatchError::BadOrigin));
    assert_eq!(s.create_pool(Origin::Signed(1), 0, 1, 5, Err(DispatchError::Other)), Err(DispatchError::Other));
    assert!(s.create_pool(Origin::Signed(1), 0, 1, 5, Ok(7)).is_ok());
    assert_eq!(s.reward_pools(), vec![PoolData { pool_id: 7, reward_asset_id: 1, reward_rate_per_block: 5 }]);
    assert_eq!(
        s.create_pool(Origin::Signed(1), 0, 2, 5, Ok(8)),
        Err(DispatchError::Module(ModuleError::Savings(SavingsError::TooManyPools)))
    );
    assert_eq!(s.reward_transfers(20), vec![RewardTransfer { asset_id: 1, pool_id: 7, amount: 50 }]);
    assert!(s.reward_transfers(21).is_empty());
    let req = s.create_pool_request(Origin::Signed(1), 100, 0, 1, 5, None).unwrap();
    assert_eq!(req.creator, 99);
    assert_eq!(req.expiry, 110);
}

#[test]
fn savings_block_hook_funds_pools() {
    let mut s = Savings::new(2, 10, 99);
    assert!(s.create_pool(Origin::Signed(1), 0, STABLE, 5, Ok(7)).is_ok());
    assert!(s.create_pool(Origin::Signed(1), 0, STABLE, 3, Ok(8)).is_ok());
    let mut assets = Assets::new();
    assert!(assets.mint_into(STABLE, 99, 70).is_ok());
    assert!(assets.mint_into(NATIVE, 99, 70).is_ok());
    // not a multiple of the period: nothing moves
    s.on_initialize(&mut assets, 500, 21);
    assert_eq!(assets.balance(STABLE, 99), 70);
    assert_eq!(assets.balance(STABLE, 500), 0);
    // the first pool takes 50, the second's 30 cannot be paid from the remaining 20
    s.on_initialize(&mut assets, 500, 20);
    assert_eq!(assets.balance(STABLE, 99), 20);
    assert_eq!(assets.balance(STABLE, 500), 50);
    assert_eq!(assets.balance(NATIVE, 99), 70);
    // funding the savings account itself moves nothing
    s.on_initialize(&mut assets, 99, 30);
    assert_eq!(assets.balance(STABLE, 99), 20);
}

#[test]
fn setting_a_free_balance_moves_the_issuance_with_it() {
    let mut assets = Assets::new();
    assets.mint_into(NATIVE, 1, 100).unwrap();
    assets.make_free_balance_be(NATIVE, 1, 40);
    assert_eq!(assets.balance(NATIVE, 1), 40);
    assert_eq!(assets.native.issuance, 40);
    assets.make_free_balance_be(NATIVE, 2, 10);
    assert_eq!(assets.native.issuance, 50);
    assert_eq!(assets.stable.issuance, 0);
}
