use honzon::assets::{Assets, NATIVE, STABLE};
use honzon::cdp_engine::{CompoundFactor, CompoundFactorDecodeError, CompoundFactorError, Pallet as Engine, RiskManagementParams};
use honzon::cdp_treasury;
use honzon::emergency_shutdown::{Error as ShutdownError, Event as ShutdownEvent, MockLockablePrice, Pallet as Shutdown};
use honzon::issuance_buffer;
use honzon::loans;
use honzon::traits::{AcceptLoanUpdates, DispatchError, LiquidationTarget, LoanUpdateHandler, MockAuctionManager, MockPriceProvider, MockRiskManager, ModuleError, Origin, PriceProvider};

const ONE: u128 = 1_000_000_000_000_000_000;
const CDP_TREASURY: u64 = 100;
const TREASURY_ACCOUNT: u64 = 10;
const ALICE: u64 = 1;
const BOB: u64 = 2;

fn engine() -> Engine<MockPriceProvider> {
    let params = RiskManagementParams {
        maximum_total_debit_value: 1_000_000,
        interest_rate_per_sec: 0,
        liquidation_ratio: ONE * 3 / 2,
        liquidation_penalty: 0,
        required_collateral_ratio: None,
    };
    Engine::new(params, CompoundFactor::one(), 100, 0, 0, MockPriceProvider)
}

#[test]
fn compound_factor_arithmetic() {
    assert_eq!(CompoundFactor::try_from_inner(ONE - 1), Err(CompoundFactorError::LessThanOne));
    let two = CompoundFactor::try_from_inner(2 * ONE).unwrap();
    assert_eq!(two.reciprocal(), ONE / 2);
    let one_and_half = CompoundFactor::checked_from_rational(3, 2).unwrap();
    assert_eq!(one_and_half.into_inner(), ONE * 3 / 2);
    assert_eq!(one_and_half.saturating_mul_int(100), 150);
    assert_eq!(one_and_half.saturating_mul(ONE / 5), ONE * 3 / 10);
    assert_eq!(CompoundFactor::checked_from_rational(1, 2), None);
    assert_eq!(CompoundFactor::checked_from_rational(1, 0), None);
    assert_eq!(two.saturating_add(u128::MAX).into_inner(), u128::MAX);
}

#[test]
fn compound_interest_rate_compounds() {
    // 10% per second over two seconds: 1.1^2 - 1 = 0.21
    assert_eq!(Engine::<MockPriceProvider>::compound_interest_rate(ONE / 10, 2), ONE * 21 / 100);
    assert_eq!(Engine::<MockPriceProvider>::compound_interest_rate(ONE / 10, 0), 0);
    assert_eq!(Engine::<MockPriceProvider>::compound_interest_rate(0, 1000), 0);
}

#[test]
fn collateral_ratio_and_debit_conversion() {
    assert_eq!(Engine::<MockPriceProvider>::calculate_collateral_ratio(100, 2 * ONE, 100), 2 * ONE);
    assert_eq!(Engine::<MockPriceProvider>::calculate_collateral_ratio(100, 2 * ONE, 0), u128::MAX);
    let mut e = engine();
    assert_eq!(e.compound_factors.get(7), None);
    assert_eq!(e.convert_to_debit_value(500, 7), 500);
    // the first conversion stores the default factor
    assert_eq!(e.compound_factors.get(7), Some(ONE));
    assert_eq!(e.convert_to_debit_balance(500, 7), 500);
    assert_eq!(e.get_liquidation_ratio(), ONE * 3 / 2);
}

#[test]
fn relative_price_divides_prices() {
    let p = MockPriceProvider;
    assert_eq!(p.get_price(NATIVE), Some(100));
    assert_eq!(p.get_relative_price(NATIVE, STABLE), Some(ONE));
    assert_eq!(engine().feed_price(), Some(ONE));
}

#[test]
fn issuance_buffer_buys_at_discount_within_quota() {
    let mut assets = Assets::new();
    assets.mint_into(NATIVE, ALICE, 1000).unwrap();
    let mut treasury = cdp_treasury::Pallet::new(CDP_TREASURY, TREASURY_ACCOUNT, 5);
    let mut buffer = issuance_buffer::Pallet::new(70, 900_000, 90, MockPriceProvider);
    // price 1, discounted to 0.9; a quota of 90 buys at most 99 collateral, worth 89
    assert_eq!(buffer.liquidate(&mut assets, &mut treasury, ALICE, NATIVE, 1000, 500), Ok((98, 89)));
    assert_eq!(treasury.total_collaterals(&assets), 98);
    assert_eq!(treasury.debit_pool(), 89);
    assert_eq!(buffer.issuance_used(), 89);
    assert_eq!(assets.balance(NATIVE, ALICE), 902);
    // unsupported collateral
    assert!(buffer.liquidate(&mut assets, &mut treasury, ALICE, STABLE, 10, 10).is_err());
}

#[test]
fn emergency_shutdown_then_refund() {
    let mut assets = Assets::new();
    assets.mint_into(STABLE, ALICE, 1000).unwrap();
    let treasury = cdp_treasury::Pallet::new(CDP_TREASURY, TREASURY_ACCOUNT, 5);
    assets.mint_into(NATIVE, treasury.account_id(), 500).unwrap();
    let manager = MockAuctionManager::new();
    let loans = loans::Pallet::new(50);
    let mut shutdown = Shutdown::new(MockLockablePrice);

    assert_eq!(shutdown.emergency_shutdown(Origin::Signed(BOB), 1), Err(DispatchError::BadOrigin));
    assert_eq!(
        shutdown.open_collateral_refund(Origin::Signed(1), &manager, &loans, 1),
        Err(DispatchError::Module(ModuleError::EmergencyShutdown(ShutdownError::MustAfterShutdown)))
    );
    assert_eq!(
        shutdown.refund_collaterals(Origin::Signed(ALICE), &treasury, &mut assets, 200),
        Err(DispatchError::Module(ModuleError::EmergencyShutdown(ShutdownError::CanNotRefund)))
    );
    assert!(shutdown.emergency_shutdown(Origin::Signed(1), 7).is_ok());
    assert!(shutdown.is_shutdown());
    assert_eq!(
        shutdown.emergency_shutdown(Origin::Signed(1), 8),
        Err(DispatchError::Module(ModuleError::EmergencyShutdown(ShutdownError::AlreadyShutdown)))
    );
    assert!(shutdown.is_shutdown());
    assert!(shutdown.open_collateral_refund(Origin::Signed(1), &manager, &loans, 9).is_ok());
    assert!(shutdown.can_refund());

    // 200 of the 1000 stable coin issued redeem a fifth of the 500 collateral
    assert!(shutdown.refund_collaterals(Origin::Signed(ALICE), &treasury, &mut assets, 200).is_ok());
    assert_eq!(assets.balance(STABLE, ALICE), 800);
    assert_eq!(assets.balance(NATIVE, ALICE), 100);
    assert_eq!(treasury.total_collaterals(&assets), 400);
    assert_eq!(
        shutdown.events.last(),
        Some(&ShutdownEvent::Refund {
            who: ALICE,
            stable_coin_amount: 200,
            refunded_collateral_currency_id: NATIVE,
            refunded_collateral_amount: 100,
        })
    );
    assert_eq!(shutdown.refund_collaterals(Origin::Root, &treasury, &mut assets, 1), Err(DispatchError::BadOrigin));
}

#[test]
fn compound_factor_encoding_round_trips() {
    let f = CompoundFactor::checked_from_rational(3, 2).unwrap();
    let bytes = f.encode();
    assert_eq!(bytes, (ONE * 3 / 2).to_le_bytes().to_vec());
    assert_eq!(CompoundFactor::decode(&bytes), Ok(f));
    let mut longer = bytes.clone();
    longer.push(7);
    assert_eq!(CompoundFactor::decode(&longer), Ok(f));
    assert_eq!(CompoundFactor::decode(&bytes[..15]), Err(CompoundFactorDecodeError::NotEnoughData));
    assert_eq!(CompoundFactor::decode(&(ONE / 2).to_le_bytes()), Err(CompoundFactorDecodeError::LessThanOne));
}

/// A handler of loan changes that refuses every one.
struct RefuseLoanUpdates;

impl LoanUpdateHandler for RefuseLoanUpdates {
    fn accepts_all(&self) -> bool {
        false
    }

    fn handle_result(&self, _who: u64, _collateral_adjustment: i128, _collateral: u128) -> Result<(), DispatchError> {
        Err(DispatchError::Other)
    }

    fn handle(&mut self, _who: u64, _collateral_adjustment: i128, _collateral: u128) -> Result<(), DispatchError> {
        Err(DispatchError::Other)
    }
}

#[test]
fn a_refused_loan_update_changes_nothing() {
    let mut assets = Assets::new();
    assets.mint_into(NATIVE, ALICE, 1000).unwrap();
    let mut treasury = cdp_treasury::Pallet::new(CDP_TREASURY, TREASURY_ACCOUNT, 5);
    let mut loans = loans::Pallet::new(50);
    assert_eq!(
        loans.adjust_position(&MockRiskManager, &mut RefuseLoanUpdates, &mut treasury, &mut assets, ALICE, 500, 100),
        Err(DispatchError::Other)
    );
    assert_eq!(loans.positions(ALICE), loans::Position { collateral: 0, debit: 0 });
    assert_eq!(assets.balance(NATIVE, ALICE), 1000);
    assert!(loans
        .adjust_position(&MockRiskManager, &mut AcceptLoanUpdates, &mut treasury, &mut assets, ALICE, 500, 100)
        .is_ok());
    assert_eq!(loans.positions(ALICE), loans::Position { collateral: 500, debit: 100 });
    assert_eq!(assets.balance(NATIVE, ALICE), 500);
    assert_eq!(assets.balance(NATIVE, 50), 500);
}
