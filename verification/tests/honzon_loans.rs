use honzon::adjustment::{ArithmeticError, BalanceAdjustment};
use honzon::assets::{Assets, NATIVE};
use honzon::assets::TokenError;
use honzon::cdp_treasury;
use honzon::honzon_loans::{Event, MockRiskManager, Pallet, Position};
use honzon::traits::{DispatchError, MockLiquidationStrategy};

const ALICE: u64 = 1;
const BOB: u64 = 2;
const LOANS_ACCOUNT: u64 = 50;
const CDP_TREASURY: u64 = 100;
const TREASURY_ACCOUNT: u64 = 10;

fn setup() -> (Pallet, cdp_treasury::Pallet, Assets) {
    let mut assets = Assets::new();
    assets.mint_into(NATIVE, ALICE, 10000).unwrap();
    assets.mint_into(NATIVE, BOB, 10000).unwrap();
    (Pallet::new(LOANS_ACCOUNT), cdp_treasury::Pallet::new(CDP_TREASURY, TREASURY_ACCOUNT, 5), assets)
}

fn debit_value(p: &Position) -> u128 {
    // The mock risk manager values a unit at one.
    p.debit.units
}

#[test]
fn check_update_loan_underflow_work() {
    let (mut loans, _t, _assets) = setup();
    let risk = MockRiskManager;
    assert!(loans
        .update_loan(&risk, ALICE, BalanceAdjustment::Increase(100), BalanceAdjustment::Increase(50), None)
        .is_ok());
    let before = loans.positions(ALICE);

    // collateral underflow
    assert_eq!(
        loans.update_loan(&risk, ALICE, BalanceAdjustment::Decrease(200), BalanceAdjustment::Increase(0), None),
        Err(DispatchError::Arithmetic(ArithmeticError::Underflow))
    );
    assert_eq!(loans.positions(ALICE), before);

    // debit underflow
    assert_eq!(
        loans.update_loan(&risk, ALICE, BalanceAdjustment::Increase(0), BalanceAdjustment::Decrease(100), None),
        Err(DispatchError::Arithmetic(ArithmeticError::Underflow))
    );
    assert_eq!(loans.positions(ALICE), before);
}

#[test]
fn update_loan_should_work() {
    let (mut loans, _t, assets) = setup();
    let risk = MockRiskManager;
    assert_eq!(assets.balance(NATIVE, loans.account_id()), 0);
    assert_eq!(assets.balance(NATIVE, ALICE), 10000);
    assert_eq!(debit_value(&loans.positions(ALICE)), 0);
    assert_eq!(loans.positions(ALICE).collateral, 0);
    assert!(!loans.contains_position(ALICE));

    let alice_ref_count_0 = loans.consumers(ALICE);

    assert!(loans
        .update_loan(&risk, ALICE, BalanceAdjustment::Increase(3000), BalanceAdjustment::Increase(2000), None)
        .is_ok());

    // just update records
    assert_eq!(debit_value(&loans.positions(ALICE)), 2000);
    assert_eq!(loans.positions(ALICE).collateral, 3000);
    assert_eq!(loans.positions(ALICE).debit.stability_fee, 0);
    assert_eq!(loans.total_debit_by_stability_fee(0), 2000);

    // increase ref count when open new position
    let alice_ref_count_1 = loans.consumers(ALICE);
    assert_eq!(alice_ref_count_1, alice_ref_count_0 + 1);

    // do not manipulate balance
    assert_eq!(assets.balance(NATIVE, loans.account_id()), 0);
    assert_eq!(assets.balance(NATIVE, ALICE), 10000);

    // should remove position storage if zero
    assert!(loans.contains_position(ALICE));
    assert!(loans
        .update_loan(&risk, ALICE, BalanceAdjustment::Decrease(3000), BalanceAdjustment::Decrease(2000), None)
        .is_ok());
    assert_eq!(debit_value(&loans.positions(ALICE)), 0);
    assert_eq!(loans.positions(ALICE).collateral, 0);
    assert_eq!(loans.total_debit_by_stability_fee(1_000_000_000_000_000_000), 0);
    assert!(!loans.contains_position(ALICE));

    // decrease ref count after remove position
    let alice_ref_count_2 = loans.consumers(ALICE);
    assert_eq!(alice_ref_count_2, alice_ref_count_1 - 1);
}

#[test]
fn transfer_loan_should_work() {
    let (mut loans, _t, _assets) = setup();
    let risk = MockRiskManager;
    assert!(loans
        .update_loan(&risk, ALICE, BalanceAdjustment::Increase(1000), BalanceAdjustment::Increase(500), None)
        .is_ok());
    assert!(loans
        .update_loan(&risk, BOB, BalanceAdjustment::Increase(1200), BalanceAdjustment::Increase(600), None)
        .is_ok());
    assert_eq!(debit_value(&loans.positions(ALICE)), 500);
    assert_eq!(loans.positions(ALICE).collateral, 1000);
    assert_eq!(loans.positions(ALICE).debit.stability_fee, 0);
    assert_eq!(debit_value(&loans.positions(BOB)), 600);
    assert_eq!(loans.positions(BOB).collateral, 1200);
    assert_eq!(loans.positions(BOB).debit.stability_fee, 0);

    assert!(loans.transfer_loan(&risk, ALICE, BOB).is_ok());
    assert_eq!(debit_value(&loans.positions(ALICE)), 0);
    assert_eq!(loans.positions(ALICE).collateral, 0);
    assert_eq!(loans.positions(ALICE).debit.stability_fee, 0);
    assert_eq!(debit_value(&loans.positions(BOB)), 1100);
    assert_eq!(loans.positions(BOB).collateral, 2200);
    assert_eq!(loans.positions(BOB).debit.stability_fee, 0);
    assert_eq!(loans.total_debit_by_stability_fee(0), 1100);
    assert_eq!(loans.events.last(), Some(&Event::TransferLoan { from: ALICE, to: BOB }));
}

#[test]
fn confiscate_collateral_and_debit_work() {
    let (mut loans, mut t, mut assets) = setup();
    let risk = MockRiskManager;
    assert!(loans
        .update_loan(&risk, BOB, BalanceAdjustment::Increase(5000), BalanceAdjustment::Increase(1000), None)
        .is_ok());
    assert_eq!(assets.balance(NATIVE, loans.account_id()), 0);
    let before = loans.positions(BOB);

    // attempting to confiscate more collateral than held should fail
    let mut liquidator = MockLiquidationStrategy;
    assert_eq!(
        loans.confiscate_collateral_and_debit(&risk, &mut liquidator, &mut t, &mut assets, BOB, 6000, 1000),
        Err(DispatchError::Token(TokenError::Frozen))
    );
    assert_eq!(loans.positions(BOB), before);
    assert_eq!(t.debit_pool(), 0);
}

#[test]
fn confiscate_collateral_and_debit_work_success() {
    let (mut loans, mut t, mut assets) = setup();
    let risk = MockRiskManager;
    assert!(loans
        .update_loan(&risk, ALICE, BalanceAdjustment::Increase(500), BalanceAdjustment::Increase(200), None)
        .is_ok());
    // update_loan moves no balance, so the collateral is put on hold by hand
    assert!(assets.hold(NATIVE, ALICE, 500).is_ok());
    assert_eq!(t.total_collaterals(&assets), 0);
    assert_eq!(t.debit_pool(), 0);
    assert_eq!(debit_value(&loans.positions(ALICE)), 200);
    assert_eq!(loans.positions(ALICE).collateral, 500);
    assert_eq!(assets.balance_on_hold(NATIVE, ALICE), 500);

    let mut liquidator = MockLiquidationStrategy;
    assert!(loans
        .confiscate_collateral_and_debit(&risk, &mut liquidator, &mut t, &mut assets, ALICE, 300, 200)
        .is_ok());
    assert_eq!(t.total_collaterals(&assets), 300);
    assert_eq!(t.debit_pool(), 200);
    assert_eq!(debit_value(&loans.positions(ALICE)), 0);
    assert_eq!(loans.positions(ALICE).collateral, 200);
    assert_eq!(assets.balance_on_hold(NATIVE, ALICE), 200);
    assert_eq!(
        loans.events.last(),
        Some(&Event::ConfiscateCollateralAndDebit {
            owner: ALICE,
            confiscated_collateral_amount: 300,
            deduct_debit_value: 200,
        })
    );
}

#[test]
fn confiscate_collateral_and_debit_underflow_leaves_state() {
    let (mut loans, mut t, mut assets) = setup();
    let risk = MockRiskManager;
    assert!(loans
        .update_loan(&risk, ALICE, BalanceAdjustment::Increase(500), BalanceAdjustment::Increase(200), None)
        .is_ok());
    assert!(assets.hold(NATIVE, ALICE, 500).is_ok());
    let mut liquidator = MockLiquidationStrategy;
    // more debit than the position has
    assert_eq!(
        loans.confiscate_collateral_and_debit(&risk, &mut liquidator, &mut t, &mut assets, ALICE, 100, 300),
        Err(DispatchError::Arithmetic(ArithmeticError::Underflow))
    );
    assert_eq!(assets.balance_on_hold(NATIVE, ALICE), 500);
    assert_eq!(t.debit_pool(), 0);
    assert_eq!(loans.positions(ALICE).collateral, 500);
}

#[test]
fn update_loan_with_new_stability_fee_moves_units() {
    let (mut loans, _t, _assets) = setup();
    let risk = MockRiskManager;
    assert!(loans
        .update_loan(&risk, ALICE, BalanceAdjustment::Increase(100), BalanceAdjustment::Increase(50), None)
        .is_ok());
    assert!(loans
        .update_loan(&risk, ALICE, BalanceAdjustment::Increase(0), BalanceAdjustment::Increase(10), Some(7))
        .is_ok());
    assert_eq!(loans.total_debit_by_stability_fee(0), 0);
    assert_eq!(loans.total_debit_by_stability_fee(7), 60);
    assert_eq!(loans.positions(ALICE).debit.stability_fee, 7);
    assert_eq!(loans.positions(ALICE).debit.units, 60);
}

#[test]
fn balance_adjustment_basic_operations() {
    let increase = BalanceAdjustment::increase(100u128);
    let decrease = BalanceAdjustment::decrease(50u128);

    assert!(increase.is_increase());
    assert!(!increase.is_decrease());
    assert!(decrease.is_decrease());
    assert!(!decrease.is_increase());

    assert_eq!(increase.amount(), 100u128);
    assert_eq!(decrease.amount(), 50u128);
}

#[test]
fn balance_adjustment_apply_to() {
    let increase = BalanceAdjustment::increase(100u128);
    let decrease = BalanceAdjustment::decrease(50u128);

    assert_eq!(increase.apply_to(200u128), Ok(300u128));
    assert_eq!(decrease.apply_to(200u128), Ok(150u128));
    assert_eq!(decrease.apply_to(30u128), Err(ArithmeticError::Underflow));
}

#[test]
fn balance_adjustment_overflow_and_saturation() {
    let increase = BalanceAdjustment::increase(2);
    assert_eq!(increase.apply_to(u128::MAX - 1), Err(ArithmeticError::Overflow));
    assert_eq!(increase.saturating_apply_to(u128::MAX - 1), u128::MAX);
    assert_eq!(BalanceAdjustment::decrease(5).saturating_apply_to(3), 0);
    assert!(BalanceAdjustment::decrease(0).is_zero());
    assert!(!BalanceAdjustment::increase(1).is_zero());
    // an increase followed by the same decrease gives the balance back
    let v = increase.apply_to(40).unwrap();
    assert_eq!(BalanceAdjustment::decrease(2).apply_to(v), Ok(40));
}
