use honzon::adjustment::BalanceAdjustment;
use honzon::assets::{Assets, NATIVE, STABLE};
use honzon::auction;
use honzon::cdp_engine::{CompoundFactor, Error as EngineError, OffchainErr, Pallet as Engine, RiskManagementParams, DEFAULT_MAX_ITERATIONS};
use honzon::cdp_treasury;
use honzon::connections::VaultProvider;
use honzon::engine_vaults::EngineVaults;
use honzon::honzon_loans;
use honzon::traits::{total_collateral_auction, total_collateral_in_auction, DispatchError, MockAuctionManager, MockLiquidationStrategy, MockPriceProvider, ModuleError, Origin};
use honzon::weights::{RuntimeDbWeight, Weight};

const ONE: u128 = 1_000_000_000_000_000_000;
const ALICE: u64 = 1;
const BOB: u64 = 2;
const LOANS_ACCOUNT: u64 = 50;
const CDP_TREASURY: u64 = 100;
const TREASURY_ACCOUNT: u64 = 10;
const VAULTS_ACCOUNT: u64 = 77;

fn engine() -> Engine<MockPriceProvider> {
    let params = RiskManagementParams {
        maximum_total_debit_value: 1_000_000,
        interest_rate_per_sec: 0,
        liquidation_ratio: ONE * 3 / 2,
        liquidation_penalty: 0,
        required_collateral_ratio: None,
    };
    Engine::new(params, CompoundFactor::one(), 100, 0, 0, MockPriceProvider)
}

fn engine_err(e: EngineError) -> DispatchError {
    DispatchError::Module(ModuleError::CdpEngine(e))
}

#[test]
fn unsigned_calls_check_origin_and_shutdown() {
    let mut e = engine();
    let mut loans = honzon_loans::Pallet::new(LOANS_ACCOUNT);
    let mut liquidator = MockLiquidationStrategy;
    let mut treasury = cdp_treasury::Pallet::new(CDP_TREASURY, TREASURY_ACCOUNT, 5);
    let mut manager = MockAuctionManager::new();
    let mut auctions = auction::Pallet::new();
    let mut assets = Assets::new();
    assert_eq!(
        e.liquidate(Origin::Signed(ALICE), false, &mut loans, &mut liquidator, &mut treasury, &mut manager,
            &mut auctions, &mut assets, 1, ALICE, Ok(0)),
        Err(DispatchError::BadOrigin)
    );
    assert_eq!(
        e.liquidate(Origin::Unsigned, true, &mut loans, &mut liquidator, &mut treasury, &mut manager,
            &mut auctions, &mut assets, 1, ALICE, Ok(0)),
        Err(engine_err(EngineError::AlreadyShutdown))
    );
    // an empty position is safe, so it is not liquidated
    assert_eq!(
        e.liquidate(Origin::Unsigned, false, &mut loans, &mut liquidator, &mut treasury, &mut manager,
            &mut auctions, &mut assets, 1, ALICE, Ok(0)),
        Err(engine_err(EngineError::LiquidationFailed))
    );
    assert_eq!(
        e.settle(Origin::Unsigned, false, &mut loans, &mut liquidator, &mut treasury, &mut assets, ALICE),
        Err(engine_err(EngineError::MustAfterShutdown))
    );
    assert_eq!(
        e.settle(Origin::Root, true, &mut loans, &mut liquidator, &mut treasury, &mut assets, ALICE),
        Err(DispatchError::BadOrigin)
    );
    assert_eq!(
        e.settle(Origin::Unsigned, true, &mut loans, &mut liquidator, &mut treasury, &mut assets, ALICE),
        Err(engine_err(EngineError::NoDebitValue))
    );
}

#[test]
fn on_initialize_accrues_from_the_second_block() {
    let mut e = engine();
    let loans = honzon_loans::Pallet::new(LOANS_ACCOUNT);
    let mut treasury = cdp_treasury::Pallet::new(CDP_TREASURY, TREASURY_ACCOUNT, 5);
    let mut assets = Assets::new();
    let base = Weight::from_parts(1000, 7);
    let db = RuntimeDbWeight { read: 10, write: 20 };
    assert_eq!(e.on_initialize(&mut treasury, &mut assets, &loans, false, 1, 500, base, db), base);
    assert_eq!(e.last_accumulation_secs(), 0);
    // no debit: only the time is recorded, one read and one write
    assert_eq!(e.on_initialize(&mut treasury, &mut assets, &loans, false, 2, 500, base, db), Weight::from_parts(1030, 7));
    assert_eq!(e.last_accumulation_secs(), 500);
    assert_eq!(e.on_initialize(&mut treasury, &mut assets, &loans, true, 3, 600, base, db), base);
}

#[test]
fn expand_then_shrink_position() {
    let e = engine();
    let mut loans = honzon_loans::Pallet::new(LOANS_ACCOUNT);
    let mut treasury = cdp_treasury::Pallet::new(CDP_TREASURY, TREASURY_ACCOUNT, 5);
    let mut assets = Assets::new();
    assets.mint_into(NATIVE, ALICE, 1000).unwrap();

    // the swap fails: nothing changes
    assert_eq!(
        e.expand_position_collateral(&mut loans, &mut treasury, &mut assets, ALICE, 100, 0, Err(DispatchError::Other)),
        Err(DispatchError::Other)
    );
    assert_eq!(assets.total_issuance(STABLE), 0);

    // 100 stable coin issued in advance bought 150 collateral
    assert!(e.expand_position_collateral(&mut loans, &mut treasury, &mut assets, ALICE, 100, 140, Ok(150)).is_ok());
    assert_eq!(loans.positions(ALICE).collateral, 150);
    assert_eq!(loans.positions(ALICE).debit.units, 100);
    assert_eq!(assets.balance_on_hold(NATIVE, ALICE), 150);
    assert_eq!(assets.balance(STABLE, LOANS_ACCOUNT), 100);
    assert_eq!(assets.balance(STABLE, ALICE), 100);

    // too much collateral to sell
    assert_eq!(
        e.shrink_position_debit(&mut loans, &mut treasury, &mut assets, ALICE, 151, 0, Ok(120)),
        Err(engine_err(EngineError::CollateralNotEnough))
    );
    // the stable coin the swap delivers to the loans account
    assets.mint_into(STABLE, LOANS_ACCOUNT, 120).unwrap();
    // selling all collateral for 120 repays the debit value 100 and returns 20
    assert!(e.shrink_position_debit(&mut loans, &mut treasury, &mut assets, ALICE, 150, 110, Ok(120)).is_ok());
    assert!(!loans.contains_position(ALICE));
    assert_eq!(assets.balance_on_hold(NATIVE, ALICE), 0);
    assert_eq!(assets.balance(STABLE, ALICE), 20);
    assert_eq!(assets.balance(STABLE, LOANS_ACCOUNT), 100);
}

#[test]
fn engine_vaults_life_cycle() {
    let mut vaults = EngineVaults {
        engine: engine(),
        loans: honzon_loans::Pallet::new(LOANS_ACCOUNT),
        treasury: cdp_treasury::Pallet::new(CDP_TREASURY, TREASURY_ACCOUNT, 5),
        vault_account: VAULTS_ACCOUNT,
    };
    let mut assets = Assets::new();
    assets.mint_into(NATIVE, ALICE, 1000).unwrap();

    assert!(vaults.deposit_collateral(&mut assets, 3, ALICE, 2000).is_err());
    assert!(vaults.deposit_collateral(&mut assets, 3, ALICE, 500).is_ok());
    assert_eq!(assets.balance(NATIVE, ALICE), 500);
    assert_eq!(assets.balance_on_hold(NATIVE, VAULTS_ACCOUNT), 500);
    assert_eq!(vaults.get_position(3), Ok((500, 0)));
    assert_eq!(vaults.has_debt(3), Ok(false));

    assert!(vaults.mint(&mut assets, 3, BOB, 100).is_ok());
    assert_eq!(assets.balance(STABLE, BOB), 100);
    assert_eq!(vaults.get_position(3), Ok((500, 100)));
    assert_eq!(vaults.has_debt(3), Ok(true));
    // below the liquidation ratio
    assert!(vaults.mint(&mut assets, 3, BOB, 300).is_err());
    assert_eq!(vaults.get_position(3), Ok((500, 100)));
    assert_eq!(vaults.close_vault(3), Err(DispatchError::Other));

    assert!(vaults.set_stability_fee(3, Some(5)).is_ok());
    assert!(vaults.repay(&mut assets, 3, BOB, 100).is_ok());
    assert_eq!(assets.balance(STABLE, BOB), 0);
    assert_eq!(vaults.get_position(3), Ok((500, 0)));

    assert!(vaults.withdraw_all_collateral(&mut assets, 3, ALICE).is_ok());
    assert_eq!(assets.balance(NATIVE, ALICE), 1000);
    assert_eq!(vaults.get_position(3), Ok((0, 0)));
    assert!(vaults.close_vault(3).is_ok());
}

#[test]
fn offchain_worker_runs_only_for_a_validator_with_the_lock() {
    let e = engine();
    let loans = honzon_loans::Pallet::new(LOANS_ACCOUNT);
    assert_eq!(e.offchain_worker(&loans, false, true, false, None, None).map(|r| r.1), Err(OffchainErr::NotValidator));
    assert_eq!(e.offchain_worker(&loans, true, false, false, None, None).map(|r| r.1), Err(OffchainErr::OffchainLock));
    let (calls, next) = e.offchain_worker(&loans, true, true, false, None, None).unwrap();
    assert!(calls.is_empty());
    assert_eq!(next, None);
    assert_eq!(DEFAULT_MAX_ITERATIONS, 1000);
}

#[test]
fn unsafe_position_is_liquidated_through_auctions() {
    let mut e = engine();
    let mut loans = honzon_loans::Pallet::new(LOANS_ACCOUNT);
    let mut liquidator = MockLiquidationStrategy;
    let mut treasury = cdp_treasury::Pallet::new(CDP_TREASURY, TREASURY_ACCOUNT, 5);
    let mut manager = MockAuctionManager::new();
    let mut auctions = auction::Pallet::new();
    let mut assets = Assets::new();
    assets.mint_into(NATIVE, ALICE, 100).unwrap();
    assets.hold(NATIVE, ALICE, 100).unwrap();
    assert!(loans
        .update_loan(&e, ALICE, BalanceAdjustment::Increase(100), BalanceAdjustment::Increase(1000), None)
        .is_ok());
    // 100 collateral at price one cannot back 1000 of debit at a ratio of 150%
    assert!(e
        .liquidate(Origin::Unsigned, false, &mut loans, &mut liquidator, &mut treasury, &mut manager,
            &mut auctions, &mut assets, 1, ALICE, Err(DispatchError::Other))
        .is_ok());
    assert_eq!(loans.positions(ALICE).collateral, 0);
    assert_eq!(treasury.debit_pool(), 1000);
    assert_eq!(assets.balance(NATIVE, CDP_TREASURY), 100);
    assert_eq!(total_collateral_auction(&manager), 1);
    assert_eq!(total_collateral_in_auction(&manager), 100);
}

#[test]
fn unsafe_position_is_liquidated_through_the_swap() {
    let mut e = engine();
    let mut loans = honzon_loans::Pallet::new(LOANS_ACCOUNT);
    let mut liquidator = MockLiquidationStrategy;
    let mut treasury = cdp_treasury::Pallet::new(CDP_TREASURY, TREASURY_ACCOUNT, 5);
    let mut manager = MockAuctionManager::new();
    let mut auctions = auction::Pallet::new();
    let mut assets = Assets::new();
    assets.mint_into(NATIVE, ALICE, 100).unwrap();
    assets.hold(NATIVE, ALICE, 100).unwrap();
    assert!(loans
        .update_loan(&e, ALICE, BalanceAdjustment::Increase(100), BalanceAdjustment::Increase(1000), None)
        .is_ok());
    // the swap spends 60 of the collateral: the other 40 go back to the owner
    assert!(e
        .liquidate(Origin::Unsigned, false, &mut loans, &mut liquidator, &mut treasury, &mut manager,
            &mut auctions, &mut assets, 1, ALICE, Ok(60))
        .is_ok());
    assert_eq!(assets.balance(NATIVE, ALICE), 40);
    assert_eq!(assets.balance(NATIVE, CDP_TREASURY), 60);
    assert_eq!(total_collateral_auction(&manager), 0);
}

#[test]
fn settling_after_shutdown_confiscates_the_debit_value() {
    let mut e = engine();
    let mut loans = honzon_loans::Pallet::new(LOANS_ACCOUNT);
    let mut liquidator = MockLiquidationStrategy;
    let mut treasury = cdp_treasury::Pallet::new(CDP_TREASURY, TREASURY_ACCOUNT, 5);
    let mut assets = Assets::new();
    assets.mint_into(NATIVE, ALICE, 2000).unwrap();
    assets.hold(NATIVE, ALICE, 2000).unwrap();
    assert!(loans
        .update_loan(&e, ALICE, BalanceAdjustment::Increase(2000), BalanceAdjustment::Increase(1000), None)
        .is_ok());
    assert!(e.settle(Origin::Unsigned, true, &mut loans, &mut liquidator, &mut treasury, &mut assets, ALICE).is_ok());
    // at a price of one, collateral worth the 1000 of debit is confiscated
    assert_eq!(loans.positions(ALICE).collateral, 1000);
    assert_eq!(treasury.debit_pool(), 1000);
    assert_eq!(assets.balance(NATIVE, CDP_TREASURY), 1000);
}
