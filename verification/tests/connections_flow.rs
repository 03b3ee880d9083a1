use honzon::assets::{Assets, NATIVE, STABLE};
use honzon::cdp_engine::{CompoundFactor, Pallet as Engine, RiskManagementParams};
use honzon::cdp_treasury;
use honzon::connections::{Connection, ConnectionStatus, Error as ConnError, Event, LiquidityRouter, Pallet as Connections, VaultProvider};
use honzon::traits::ModuleError;
use honzon::engine_vaults::EngineVaults;
use honzon::honzon_loans;
use honzon::traits::{DispatchError, MockPriceProvider, Origin};

const ONE: u128 = 1_000_000_000_000_000_000;
const ALICE: u64 = 1;
const PALLET_ACCOUNT: u64 = 40;
const DESTINATION_ACCOUNT: u64 = 90;

/// A destination that keeps what is deposited in one account.
struct TestRouter {
    account: u64,
}

impl LiquidityRouter for TestRouter {
    fn router_wf(&self) -> bool {
        true
    }

    fn deposit(&mut self, assets: &mut Assets, _destination_id: u64, from: u64, amount: u128) -> Result<(), DispatchError> {
        assets.transfer(STABLE, from, self.account, amount).map_err(DispatchError::Token)
    }

    fn withdraw(&mut self, _destination_id: u64, _account: u64, _amount: u128) -> Result<(), DispatchError> {
        Ok(())
    }

    fn withdraw_all(&mut self, assets: &mut Assets, _destination_id: u64, account: u64) -> Result<(), DispatchError> {
        let all = assets.balance(STABLE, self.account);
        assets.transfer(STABLE, self.account, account, all).map_err(DispatchError::Token)
    }

    fn deposit_ok(&self, assets: Assets, _destination_id: u64, from: u64, amount: u128) -> bool {
        assets.balance(STABLE, from) >= amount
    }

    fn deposit_done(&self, _a: Assets, _b: Assets, _destination_id: u64, _from: u64, _amount: u128) -> bool {
        true
    }

    fn withdraw_all_done(&self, _a: Assets, _b: Assets, _destination_id: u64, _account: u64) -> bool {
        true
    }

    fn destination_of(&self, _destination_id: u64) -> Result<u64, DispatchError> {
        Ok(self.account)
    }

    fn get_destination_account(&self, _destination_id: u64) -> Result<u64, DispatchError> {
        Ok(self.account)
    }
}

fn vaults() -> EngineVaults<MockPriceProvider> {
    let params = RiskManagementParams {
        maximum_total_debit_value: 1_000_000,
        interest_rate_per_sec: 0,
        liquidation_ratio: ONE * 3 / 2,
        liquidation_penalty: 0,
        required_collateral_ratio: None,
    };
    EngineVaults {
        engine: Engine::new(params, CompoundFactor::one(), 10, 0, 0, MockPriceProvider),
        loans: honzon_loans::Pallet::new(50),
        treasury: cdp_treasury::Pallet::new(100, 10, 5),
        vault_account: 77,
    }
}

#[test]
fn open_withdraw_and_close_a_connection() {
    let mut assets = Assets::new();
    assets.mint_into(NATIVE, ALICE, 2000).unwrap();
    let mut v = vaults();
    let mut router = TestRouter { account: DESTINATION_ACCOUNT };
    let mut c = Connections::new(PALLET_ACCOUNT, PALLET_ACCOUNT);

    assert!(c.open_connection(Origin::Signed(ALICE), &mut v, &mut router, &mut assets, 1, 500, 100).is_ok());
    assert_eq!(c.next_connection_id(), 1);
    assert_eq!(c.connections(0).unwrap().status, ConnectionStatus::Active);
    assert_eq!(assets.balance(STABLE, DESTINATION_ACCOUNT), 100);
    assert_eq!(assets.balance(NATIVE, PALLET_ACCOUNT), 500);

    assert!(c.initiate_withdrawal(Origin::Signed(ALICE), &mut router, 5, 0, 40).is_ok());
    assert_eq!(
        c.connections(0).unwrap().status,
        ConnectionStatus::WithdrawalInProgress { amount: 40, initiated_at: 5 }
    );
    // only active connections can be closed
    assert!(c.close_connection(Origin::Signed(ALICE), &mut v, &mut router, &mut assets, 0).is_err());
    // the destination's account completes the withdrawal: the pallet repays 40
    assets.transfer(STABLE, DESTINATION_ACCOUNT, PALLET_ACCOUNT, 40).unwrap();
    assert!(c
        .complete_withdrawal(Origin::Signed(DESTINATION_ACCOUNT), &mut v, &router, &mut assets, 0, 40)
        .is_ok());
    assert_eq!(c.connections(0).unwrap().status, ConnectionStatus::Active);
    // the round trip leaves the connection as it was opened
    assert_eq!(
        c.connections(0),
        Some(Connection { owner: ALICE, destination_id: 1, status: ConnectionStatus::Active })
    );

    assert!(c.close_connection(Origin::Signed(ALICE), &mut v, &mut router, &mut assets, 0).is_ok());
    assert_eq!(c.connections(0), None);
    assert_eq!(c.events.last(), Some(&Event::ConnectionClosed { connection_id: 0 }));
    assert_eq!(assets.balance(NATIVE, ALICE), 2000);
}

fn conn_err(e: ConnError) -> DispatchError {
    DispatchError::Module(ModuleError::Connections(e))
}

#[test]
fn completing_a_withdrawal_checks_caller_status_and_amount() {
    let mut assets = Assets::new();
    assets.mint_into(NATIVE, ALICE, 2000).unwrap();
    let mut v = vaults();
    let mut router = TestRouter { account: DESTINATION_ACCOUNT };
    let mut c = Connections::new(PALLET_ACCOUNT, PALLET_ACCOUNT);
    // the collateral transfer fails before anything else
    assert_eq!(
        c.open_connection(Origin::Signed(ALICE), &mut v, &mut router, &mut assets, 1, 5000, 100),
        Err(DispatchError::Token(honzon::assets::TokenError::FundsUnavailable))
    );
    assert!(c.open_connection(Origin::Signed(ALICE), &mut v, &mut router, &mut assets, 1, 500, 100).is_ok());
    // the connection's own account (base + id) deposited at the destination
    assert_eq!(c.connection_account_of(0), PALLET_ACCOUNT);
    assert_eq!(c.connection_account_of(1), PALLET_ACCOUNT + 1);
    // not in progress yet
    assert_eq!(
        c.complete_withdrawal(Origin::Signed(DESTINATION_ACCOUNT), &mut v, &router, &mut assets, 0, 40),
        Err(conn_err(ConnError::InvalidStatus))
    );
    assert!(c.initiate_withdrawal(Origin::Signed(ALICE), &mut router, 5, 0, 40).is_ok());
    // only the destination's account may complete it
    assert_eq!(
        c.complete_withdrawal(Origin::Signed(ALICE), &mut v, &router, &mut assets, 0, 40),
        Err(conn_err(ConnError::BadOrigin))
    );
    assert_eq!(
        c.complete_withdrawal(Origin::Signed(DESTINATION_ACCOUNT), &mut v, &router, &mut assets, 0, 39),
        Err(conn_err(ConnError::AmountMismatch))
    );
    // the pallet's account holds no stable coin to repay with
    assert_eq!(
        c.complete_withdrawal(Origin::Signed(DESTINATION_ACCOUNT), &mut v, &router, &mut assets, 0, 40),
        Err(conn_err(ConnError::RepayFailed))
    );
}

#[test]
fn closing_repays_the_debt_and_hands_back_the_rest() {
    let mut assets = Assets::new();
    assets.mint_into(NATIVE, ALICE, 2000).unwrap();
    let mut v = vaults();
    let mut router = TestRouter { account: DESTINATION_ACCOUNT };
    let mut c = Connections::new(PALLET_ACCOUNT, PALLET_ACCOUNT);
    assert!(c.open_connection(Origin::Signed(ALICE), &mut v, &mut router, &mut assets, 1, 500, 100).is_ok());
    // 500 went to the pallet's account and 500 into the vault
    assert_eq!(assets.balance(NATIVE, ALICE), 1000);
    assert_eq!(v.get_position(0), Ok((500, 100)));
    // the destination earned 30 on the deposit
    assets.mint_into(STABLE, DESTINATION_ACCOUNT, 30).unwrap();
    assert!(c.close_connection(Origin::Signed(ALICE), &mut v, &mut router, &mut assets, 0).is_ok());
    // 130 withdrawn to the connection's account: 100 repaid, 30 to the owner
    assert_eq!(assets.balance(STABLE, PALLET_ACCOUNT), 0);
    assert_eq!(assets.balance(STABLE, ALICE), 30);
    assert_eq!(assets.balance(STABLE, DESTINATION_ACCOUNT), 0);
    // the collateral is back with the owner
    assert_eq!(assets.balance(NATIVE, ALICE), 2000);
    assert_eq!(assets.balance(NATIVE, PALLET_ACCOUNT), 0);
    assert_eq!(c.connections(0), None);
}

#[test]
fn closing_with_less_than_the_debt_repays_what_there_is() {
    assert_eq!(honzon::connections::close_split(100, 130), (100, 30));
    assert_eq!(honzon::connections::close_split(100, 60), (60, 0));
    assert_eq!(honzon::connections::close_split(0, 60), (0, 60));
}

#[test]
fn opening_applies_the_destination_fee_override() {
    let mut assets = Assets::new();
    assets.mint_into(NATIVE, ALICE, 2000).unwrap();
    let mut v = vaults();
    let mut router = TestRouter { account: DESTINATION_ACCOUNT };
    let mut c = Connections::new(PALLET_ACCOUNT, PALLET_ACCOUNT);
    assert!(c.set_stability_fee(Origin::Root, 1, Some(ONE / 100)).is_ok());
    assert!(c.open_connection(Origin::Signed(ALICE), &mut v, &mut router, &mut assets, 1, 500, 100).is_ok());
    assert_eq!(v.engine.stability_fee_overrides.get(0), Some(ONE / 100));
    assert_eq!(assets.balance(STABLE, DESTINATION_ACCOUNT), 100);
    // a destination without an override leaves the vault's fee alone
    let mut v2 = vaults();
    let mut c2 = Connections::new(PALLET_ACCOUNT, PALLET_ACCOUNT);
    assert!(c2.open_connection(Origin::Signed(ALICE), &mut v2, &mut router, &mut assets, 2, 500, 100).is_ok());
    assert_eq!(v2.engine.stability_fee_overrides.get(0), None);
}
