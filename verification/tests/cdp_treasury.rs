use honzon::adjustment::ArithmeticError;
use honzon::assets::{Assets, NATIVE, STABLE};
use honzon::auction;
use honzon::cdp_treasury::{Error, Event, Pallet, SwapLimit, SwapRequest};
use honzon::traits::{liquidate_in_turn, total_collateral_auction, total_collateral_in_auction, DispatchError, MockAuctionManager, ModuleError, Origin};

const ALICE: u64 = 0;
const BOB: u64 = 1;
const TREASURY_ACCOUNT: u64 = 10;
const CDP_TREASURY: u64 = 100;

fn setup() -> (Pallet, Assets) {
    let mut assets = Assets::new();
    for who in [ALICE, BOB] {
        assets.mint_into(NATIVE, who, 100000).unwrap();
        assets.mint_into(STABLE, who, 100000).unwrap();
    }
    (Pallet::new(CDP_TREASURY, TREASURY_ACCOUNT, 5), assets)
}

fn treasury_err(e: Error) -> DispatchError {
    DispatchError::Module(ModuleError::CdpTreasury(e))
}

#[test]
fn surplus_pool_work() {
    let (t, mut assets) = setup();
    assert_eq!(t.surplus_pool(&assets), 0);
    assert!(assets.transfer(STABLE, ALICE, t.account_id(), 500).is_ok());
    assert_eq!(t.surplus_pool(&assets), 500);
}

#[test]
fn total_collaterals_work() {
    let (t, mut assets) = setup();
    assert_eq!(t.total_collaterals(&assets), 0);
    assert!(assets.transfer(NATIVE, ALICE, t.account_id(), 10).is_ok());
    assert_eq!(t.total_collaterals(&assets), 10);
}

#[test]
fn on_system_debit_work() {
    let (mut t, _assets) = setup();
    assert_eq!(t.debit_pool(), 0);
    assert!(t.on_system_debit(1000).is_ok());
    assert_eq!(t.debit_pool(), 1000);
    assert_eq!(t.on_system_debit(u128::MAX), Err(DispatchError::Arithmetic(ArithmeticError::Overflow)));
    assert_eq!(t.debit_pool(), 1000);
}

#[test]
fn on_system_surplus_work() {
    let (mut t, mut assets) = setup();
    assert_eq!(assets.balance(STABLE, t.account_id()), 0);
    assert_eq!(t.surplus_pool(&assets), 0);
    assert!(t.on_system_surplus(&mut assets, 1000).is_ok());
    assert_eq!(assets.balance(STABLE, t.account_id()), 1000);
    assert_eq!(t.surplus_pool(&assets), 1000);
}

#[test]
fn offset_surplus_and_debit_on_finalize_work() {
    let (mut t, mut assets) = setup();
    assert_eq!(assets.balance(STABLE, t.account_id()), 0);
    assert_eq!(t.surplus_pool(&assets), 0);
    assert_eq!(t.debit_pool(), 0);
    assert!(t.on_system_surplus(&mut assets, 1000).is_ok());
    assert_eq!(assets.balance(STABLE, t.account_id()), 1000);
    assert_eq!(t.surplus_pool(&assets), 1000);
    t.on_finalize(&mut assets, 1);
    assert_eq!(assets.balance(STABLE, t.account_id()), 1000);
    assert_eq!(t.surplus_pool(&assets), 1000);
    assert_eq!(t.debit_pool(), 0);
    assert!(t.on_system_debit(300).is_ok());
    assert_eq!(t.debit_pool(), 300);
    t.on_finalize(&mut assets, 2);
    assert_eq!(assets.balance(STABLE, t.account_id()), 700);
    assert_eq!(t.surplus_pool(&assets), 700);
    assert_eq!(t.debit_pool(), 0);
    assert!(t.on_system_debit(800).is_ok());
    assert_eq!(t.debit_pool(), 800);
    t.on_finalize(&mut assets, 3);
    assert_eq!(assets.balance(STABLE, t.account_id()), 0);
    assert_eq!(t.surplus_pool(&assets), 0);
    assert_eq!(t.debit_pool(), 100);
}

#[test]
fn issue_debit_work() {
    let (mut t, mut assets) = setup();
    assert_eq!(assets.balance(STABLE, ALICE), 100000);
    assert_eq!(t.debit_pool(), 0);
    assert!(t.issue_debit(&mut assets, ALICE, 1000, true).is_ok());
    assert_eq!(assets.balance(STABLE, ALICE), 101000);
    assert_eq!(t.debit_pool(), 0);
    assert!(t.issue_debit(&mut assets, ALICE, 1000, false).is_ok());
    assert_eq!(assets.balance(STABLE, ALICE), 102000);
    assert_eq!(t.debit_pool(), 1000);
}

#[test]
fn burn_debit_work() {
    let (t, mut assets) = setup();
    assert_eq!(assets.balance(STABLE, ALICE), 100000);
    assert_eq!(t.debit_pool(), 0);
    assert!(t.burn_debit(&mut assets, ALICE, 300).is_ok());
    assert_eq!(assets.balance(STABLE, ALICE), 99700);
    assert_eq!(t.debit_pool(), 0);
}

#[test]
fn deposit_surplus_work() {
    let (t, mut assets) = setup();
    assert_eq!(assets.balance(STABLE, ALICE), 100000);
    assert_eq!(assets.balance(STABLE, t.account_id()), 0);
    assert_eq!(t.surplus_pool(&assets), 0);
    assert!(t.deposit_surplus(&mut assets, ALICE, 300).is_ok());
    assert_eq!(assets.balance(STABLE, ALICE), 99700);
    assert_eq!(assets.balance(STABLE, t.account_id()), 300);
    assert_eq!(t.surplus_pool(&assets), 300);
}

#[test]
fn withdraw_surplus_work() {
    let (t, mut assets) = setup();
    assert!(t.deposit_surplus(&mut assets, ALICE, 300).is_ok());
    assert_eq!(assets.balance(STABLE, ALICE), 99700);
    assert_eq!(assets.balance(STABLE, t.account_id()), 300);
    assert_eq!(t.surplus_pool(&assets), 300);
    assert!(t.withdraw_surplus(&mut assets, ALICE, 200).is_ok());
    assert_eq!(assets.balance(STABLE, ALICE), 99900);
    assert_eq!(assets.balance(STABLE, t.account_id()), 100);
    assert_eq!(t.surplus_pool(&assets), 100);
}

#[test]
fn deposit_collateral_work() {
    let (t, mut assets) = setup();
    assert_eq!(t.total_collaterals(&assets), 0);
    assert_eq!(assets.balance(NATIVE, t.account_id()), 0);
    assert_eq!(assets.balance(NATIVE, ALICE), 100000);
    assert!(!t.deposit_collateral(&mut assets, ALICE, 100001).is_ok());
    assert!(t.deposit_collateral(&mut assets, ALICE, 500).is_ok());
    assert_eq!(t.total_collaterals(&assets), 500);
    assert_eq!(assets.balance(NATIVE, t.account_id()), 500);
    assert_eq!(assets.balance(NATIVE, ALICE), 99500);
}

#[test]
fn withdraw_collateral_work() {
    let (t, mut assets) = setup();
    assert!(t.deposit_collateral(&mut assets, ALICE, 500).is_ok());
    assert_eq!(t.total_collaterals(&assets), 500);
    assert_eq!(assets.balance(NATIVE, t.account_id()), 500);
    assert_eq!(assets.balance(NATIVE, BOB), 100000);
    assert!(!t.withdraw_collateral(&mut assets, BOB, 501).is_ok());
    assert!(t.withdraw_collateral(&mut assets, BOB, 400).is_ok());
    assert_eq!(t.total_collaterals(&assets), 100);
    assert_eq!(assets.balance(NATIVE, t.account_id()), 100);
    assert_eq!(assets.balance(NATIVE, BOB), 100400);
}

#[test]
fn get_total_collaterals_work() {
    let (t, mut assets) = setup();
    assert!(t.deposit_collateral(&mut assets, ALICE, 500).is_ok());
    assert_eq!(t.get_total_collaterals(&assets), 500);
}

#[test]
fn get_debit_proportion_work() {
    let (t, assets) = setup();
    assert_eq!(t.get_debit_proportion(&assets, 100), 100 * 1_000_000_000_000_000_000u128 / assets.total_issuance(STABLE));
    assert_eq!(t.get_debit_proportion(&assets, 100), 500_000_000_000_000);
}

#[test]
fn create_collateral_auctions_work() {
    let (mut t, mut assets) = setup();
    let mut manager = MockAuctionManager::new();
    let mut auctions = auction::Pallet::new();
    assert!(assets.transfer(NATIVE, ALICE, t.account_id(), 10000).is_ok());
    assert_eq!(t.expected_collateral_auction_size(), 0);
    assert_eq!(
        t.create_collateral_auctions(&mut manager, &mut auctions, &mut assets, 0, 10001, 1000, ALICE, true),
        Err(treasury_err(Error::CollateralNotEnough))
    );

    assert!(t.create_collateral_auctions(&mut manager, &mut auctions, &mut assets, 0, 1000, 1000, ALICE, true).is_ok());
    assert_eq!(total_collateral_auction(&manager), 1);
    assert_eq!(total_collateral_in_auction(&manager), 1000);

    assert!(t.set_expected_collateral_auction_size(Origin::Signed(1), 300).is_ok());

    assert!(t.create_collateral_auctions(&mut manager, &mut auctions, &mut assets, 0, 200, 1000, ALICE, true).is_ok());
    assert_eq!(total_collateral_auction(&manager), 2);
    assert_eq!(total_collateral_in_auction(&manager), 1200);

    assert!(t.create_collateral_auctions(&mut manager, &mut auctions, &mut assets, 0, 1000, 1000, ALICE, true).is_ok());
    assert_eq!(total_collateral_auction(&manager), 6);
    assert_eq!(total_collateral_in_auction(&manager), 2200);

    assert!(t.create_collateral_auctions(&mut manager, &mut auctions, &mut assets, 0, 2000, 1000, ALICE, true).is_ok());
    assert_eq!(total_collateral_auction(&manager), 11);
    assert_eq!(total_collateral_in_auction(&manager), 4200);
}

#[test]
fn set_expected_collateral_auction_size_work() {
    let (mut t, _assets) = setup();
    assert_eq!(t.expected_collateral_auction_size(), 0);
    assert_eq!(t.set_expected_collateral_auction_size(Origin::Signed(5), 200), Err(DispatchError::BadOrigin));
    assert!(t.set_expected_collateral_auction_size(Origin::Signed(1), 200).is_ok());
    assert_eq!(*t.events.last().unwrap(), Event::ExpectedCollateralAuctionSizeUpdated { new_size: 200 });
}

#[test]
fn extract_surplus_to_treasury_work() {
    let (mut t, mut assets) = setup();
    assert!(t.on_system_surplus(&mut assets, 1000).is_ok());
    assert_eq!(t.surplus_pool(&assets), 1000);
    assert_eq!(assets.balance(STABLE, t.account_id()), 1000);
    assert_eq!(assets.balance(STABLE, TREASURY_ACCOUNT), 0);

    assert_eq!(t.extract_surplus_to_treasury(Origin::Signed(5), &mut assets, 200), Err(DispatchError::BadOrigin));
    assert!(t.extract_surplus_to_treasury(Origin::Signed(1), &mut assets, 200).is_ok());
    assert_eq!(t.surplus_pool(&assets), 800);
    assert_eq!(assets.balance(STABLE, t.account_id()), 800);
    assert_eq!(assets.balance(STABLE, TREASURY_ACCOUNT), 200);
}

#[test]
fn auction_collateral_work() {
    let (t, mut assets) = setup();
    let mut manager = MockAuctionManager::new();
    let mut auctions = auction::Pallet::new();
    assert!(assets.transfer(NATIVE, ALICE, t.account_id(), 10000).is_ok());
    assert_eq!(t.expected_collateral_auction_size(), 0);
    assert_eq!(t.total_collaterals(&assets), 10000);
    assert_eq!(t.total_collaterals_not_in_auction(&assets, &manager), 10000);
    assert_eq!(
        t.auction_collateral(Origin::Signed(5), &mut manager, &mut auctions, &mut assets, 0, 10000, 1000, false),
        Err(DispatchError::BadOrigin)
    );
    assert_eq!(
        t.auction_collateral(Origin::Signed(1), &mut manager, &mut auctions, &mut assets, 0, 10001, 1000, false),
        Err(treasury_err(Error::CollateralNotEnough))
    );

    assert!(t.auction_collateral(Origin::Signed(1), &mut manager, &mut auctions, &mut assets, 0, 1000, 1000, false).is_ok());
    assert_eq!(total_collateral_auction(&manager), 1);
    assert_eq!(total_collateral_in_auction(&manager), 1000);

    assert_eq!(t.total_collaterals(&assets), 10000);
    assert_eq!(t.total_collaterals_not_in_auction(&assets, &manager), 9000);
    assert_eq!(
        t.auction_collateral(Origin::Signed(1), &mut manager, &mut auctions, &mut assets, 0, 9001, 1000, false),
        Err(treasury_err(Error::CollateralNotEnough))
    );
}

#[test]
fn set_debit_offset_buffer_work() {
    let (mut t, _assets) = setup();
    assert_eq!(t.debit_offset_buffer(), 0);
    assert_eq!(t.set_debit_offset_buffer(Origin::Signed(5), 200), Err(DispatchError::BadOrigin));
    assert!(t.set_debit_offset_buffer(Origin::Signed(1), 200).is_ok());
    assert_eq!(*t.events.last().unwrap(), Event::DebitOffsetBufferUpdated { amount: 200 });
}

#[test]
fn offset_surplus_and_debit_limited_by_debit_offset_buffer() {
    let (mut t, mut assets) = setup();
    assert!(t.on_system_surplus(&mut assets, 1000).is_ok());
    assert!(t.on_system_debit(2000).is_ok());
    assert_eq!(t.surplus_pool(&assets), 1000);
    assert_eq!(t.debit_pool(), 2000);
    assert_eq!(t.debit_offset_buffer(), 0);

    t.offset_surplus_and_debit(&mut assets);
    assert_eq!(t.surplus_pool(&assets), 0);
    assert_eq!(t.debit_pool(), 1000);
    assert_eq!(t.debit_offset_buffer(), 0);

    assert!(t.set_debit_offset_buffer(Origin::Signed(1), 100).is_ok());
    assert_eq!(t.debit_offset_buffer(), 100);
    assert!(t.on_system_surplus(&mut assets, 2000).is_ok());
    assert_eq!(t.surplus_pool(&assets), 2000);

    t.offset_surplus_and_debit(&mut assets);
    assert_eq!(t.surplus_pool(&assets), 1100);
    assert_eq!(t.debit_pool(), 100);
    assert_eq!(t.debit_offset_buffer(), 100);

    assert!(t.set_debit_offset_buffer(Origin::Signed(1), 200).is_ok());
    assert_eq!(t.debit_offset_buffer(), 200);
    assert!(t.on_system_debit(1400).is_ok());
    assert_eq!(t.debit_pool(), 1500);

    t.offset_surplus_and_debit(&mut assets);
    assert_eq!(t.surplus_pool(&assets), 0);
    assert_eq!(t.debit_pool(), 400);
    assert_eq!(t.debit_offset_buffer(), 200);
}

#[test]
fn swap_request_sells_collateral_from_and_to_the_treasury() {
    let (pallet, _) = setup();
    let r = pallet.swap_request(SwapLimit::ExactTarget(300, 100));
    assert_eq!(
        r,
        SwapRequest {
            sender: pallet.account_id,
            path_from: NATIVE,
            path_to: STABLE,
            limit: SwapLimit::ExactTarget(300, 100),
            recipient: pallet.account_id,
            keep_alive: true,
        }
    );
}

#[test]
fn liquidation_strategies_are_tried_in_turn() {
    assert_eq!(liquidate_in_turn(&vec![]), Err(DispatchError::Other));
    assert_eq!(liquidate_in_turn(&vec![Err(DispatchError::BadOrigin), Ok(())]), Ok(()));
    assert_eq!(
        liquidate_in_turn(&vec![Err(DispatchError::Other), Err(DispatchError::BadOrigin)]),
        Err(DispatchError::BadOrigin)
    );
}
