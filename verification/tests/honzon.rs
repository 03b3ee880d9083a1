use honzon::adjustment::BalanceAdjustment;
use honzon::assets::{Assets, NATIVE, STABLE};
use honzon::cdp_engine::{CompoundFactor, RiskManagementParams};
use honzon::cdp_engine;
use honzon::cdp_treasury;
use honzon::honzon::Pallet as Honzon;
use honzon::honzon_loans;
use honzon::issuance_buffer;
use honzon::traits::{DispatchError, MockPriceProvider, Origin};

const ALICE: u64 = 1;
const BOB: u64 = 2;
const LOANS_ACCOUNT: u64 = 50;
const CDP_TREASURY: u64 = 100;
const TREASURY_ACCOUNT: u64 = 10;
const BUFFER_ACCOUNT: u64 = 70;
const ONE: u128 = 1_000_000_000_000_000_000;

fn engine() -> cdp_engine::Pallet<MockPriceProvider> {
    let params = RiskManagementParams {
        maximum_total_debit_value: 1_000_000,
        interest_rate_per_sec: 0,
        liquidation_ratio: ONE * 3 / 2,
        liquidation_penalty: 0,
        required_collateral_ratio: None,
    };
    cdp_engine::Pallet::new(params, CompoundFactor::one(), 100, 0, 0, MockPriceProvider)
}

fn setup() -> (cdp_engine::Pallet<MockPriceProvider>, honzon_loans::Pallet, cdp_treasury::Pallet, Assets) {
    let mut assets = Assets::new();
    for who in [ALICE, BOB] {
        assets.mint_into(NATIVE, who, 1000).unwrap();
        assets.mint_into(STABLE, who, 1000).unwrap();
    }
    (
        engine(),
        honzon_loans::Pallet::new(LOANS_ACCOUNT),
        cdp_treasury::Pallet::new(CDP_TREASURY, TREASURY_ACCOUNT, 5),
        assets,
    )
}

#[test]
fn set_stability_fee_should_work_for_admin() {
    let (engine, mut loans, mut treasury, mut assets) = setup();
    let new_fee = ONE / 100; // 1%
    assert!(Honzon::set_stability_fee(Origin::Root, &engine, &mut loans, &mut treasury, &mut assets, ALICE, new_fee).is_ok());
}

#[test]
fn set_stability_fee_should_fail_for_non_admin() {
    let (engine, mut loans, mut treasury, mut assets) = setup();
    let new_fee = ONE / 100; // 1%
    assert_eq!(
        Honzon::set_stability_fee(Origin::Signed(ALICE), &engine, &mut loans, &mut treasury, &mut assets, ALICE, new_fee),
        Err(DispatchError::BadOrigin)
    );
    assert!(!loans.contains_position(ALICE));
}

#[test]
fn get_position_reads_loans() {
    let (engine, mut loans, _treasury, _assets) = setup();
    assert!(loans
        .update_loan(&engine, ALICE, BalanceAdjustment::Increase(300), BalanceAdjustment::Increase(0), None)
        .is_ok());
    assert_eq!(Honzon::get_position(&loans, ALICE).collateral, 300);
    assert_eq!(Honzon::get_position(&loans, BOB).collateral, 0);
}

#[test]
fn it_works_for_default_value() {
    let treasury = cdp_treasury::Pallet::new(CDP_TREASURY, TREASURY_ACCOUNT, 5);
    let mut assets = Assets::new();
    let mut buffer = issuance_buffer::Pallet::new(BUFFER_ACCOUNT, 0, 0, MockPriceProvider);
    assert!(buffer.fund(Origin::Root, &treasury, &mut assets, 100).is_ok());
}

#[test]
fn issuance_buffer_fund_and_defund() {
    let treasury = cdp_treasury::Pallet::new(CDP_TREASURY, TREASURY_ACCOUNT, 5);
    let mut assets = Assets::new();
    let mut buffer = issuance_buffer::Pallet::new(BUFFER_ACCOUNT, 0, 0, MockPriceProvider);
    assert_eq!(buffer.fund(Origin::Signed(ALICE), &treasury, &mut assets, 100), Err(DispatchError::BadOrigin));
    assert!(buffer.fund(Origin::Root, &treasury, &mut assets, 100).is_ok());
    assert_eq!(assets.balance(STABLE, treasury.account_id()), 100);
    assert!(buffer.defund(Origin::Root, &treasury, &mut assets, 40).is_ok());
    assert_eq!(assets.balance(STABLE, treasury.account_id()), 60);
    assert!(buffer.defund(Origin::Root, &treasury, &mut assets, 61).is_err());
    assert_eq!(assets.balance(STABLE, treasury.account_id()), 60);
    assert!(buffer.set_discount(Origin::Root, 50_000).is_ok());
    assert_eq!(buffer.discount(), 50_000);
    assert_eq!(buffer.set_issuance_quota(Origin::Signed(BOB), 7), Err(DispatchError::BadOrigin));
    assert!(buffer.set_issuance_quota(Origin::Root, 7).is_ok());
    assert_eq!(buffer.issuance_quota(), 7);
}
