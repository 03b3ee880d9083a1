use honzon::assets::{Assets, NATIVE, STABLE};
use honzon::auction;
use honzon::auction::AuctionHandler;
use honzon::auction_manager::{CollateralAuctionHandler, Config, Error, Event, Pallet};
use honzon::traits::{DispatchError, ModuleError};

const ALICE: u64 = 1;
const BOB: u64 = 2;
const CAROL: u64 = 3;
const TREASURY: u64 = 100;
const ONE: u128 = 1_000_000_000_000_000_000;

fn rate(n: u128, d: u128) -> u128 {
    n * ONE / d
}

fn setup(treasury_collateral: u128) -> (auction::Pallet, CollateralAuctionHandler) {
    let mut assets = Assets::new();
    for who in [ALICE, BOB, CAROL] {
        assets.mint_into(STABLE, who, 1000).unwrap();
        assets.mint_into(NATIVE, who, 1000).unwrap();
    }
    if treasury_collateral > 0 {
        assets.mint_into(NATIVE, TREASURY, treasury_collateral).unwrap();
    }
    let config = Config {
        minimum_increment_size: rate(1, 20),
        auction_time_to_close: 100,
        auction_duration_soft_cap: 2000,
    };
    (auction::Pallet::new(), CollateralAuctionHandler { manager: Pallet::new(config), assets, treasury_account: TREASURY })
}

fn new_auction(auctions: &mut auction::Pallet, h: &mut CollateralAuctionHandler, now: u64, who: u64, amount: u128, target: u128)
    -> Result<(), DispatchError> {
    h.manager.new_collateral_auction(auctions, &mut h.assets, TREASURY, now, who, NATIVE, amount, target)
}

fn manager_err(e: Error) -> DispatchError {
    DispatchError::Module(ModuleError::AuctionManager(e))
}

#[test]
fn collateral_auction_methods() {
    let (mut auctions, mut h) = setup(0);
    assert!(new_auction(&mut auctions, &mut h, 0, ALICE, 10, 100).is_ok());
    let auction = auctions.auctions(0).unwrap();
    assert_eq!(auction.bid, None);
    assert_eq!(auction.start, 0);
    assert_eq!(auction.end, None);
    let positive = h.manager.collateral_auctions(0).unwrap();
    assert!(!positive.always_forward());
    assert!(!positive.in_reverse_stage(rate(9, 1)));
    assert!(positive.in_reverse_stage(rate(10, 1)));
    assert!(positive.in_reverse_stage(rate(11, 1)));
    assert_eq!(positive.payment_amount(rate(9, 1)), 90);
    assert_eq!(positive.payment_amount(rate(10, 1)), 100);
    assert_eq!(positive.payment_amount(rate(11, 1)), 100);

    assert!(new_auction(&mut auctions, &mut h, 0, ALICE, 10, 0).is_ok());
    let zero = h.manager.collateral_auctions(1).unwrap();
    assert!(zero.always_forward());
    assert!(!zero.in_reverse_stage(rate(0, 1)));
    assert!(!zero.in_reverse_stage(rate(100, 1)));
    assert_eq!(zero.payment_amount(rate(99, 1)), 990);
    assert_eq!(zero.payment_amount(rate(101, 1)), 1010);
}

#[test]
fn new_collateral_auction_work() {
    let (mut auctions, mut h) = setup(0);
    assert_eq!(new_auction(&mut auctions, &mut h, 1, ALICE, 0, 100), Err(manager_err(Error::InvalidAmount)));

    assert!(new_auction(&mut auctions, &mut h, 1, ALICE, 10, 100).is_ok());
    assert_eq!(
        *h.manager.events.last().unwrap(),
        Event::NewCollateralAuction { auction_id: 0, collateral_type: NATIVE, collateral_amount: 10, target_bid_price: 100 }
    );
    assert_eq!(h.manager.total_collateral_in_auction(), 10);
    assert_eq!(h.manager.total_target_in_auction(), 100);
    assert_eq!(auctions.auctions_index(), 1);

    assert_eq!(
        new_auction(&mut auctions, &mut h, 1, ALICE, u128::MAX, u128::MAX),
        Err(manager_err(Error::InvalidAmount))
    );
}

#[test]
fn collateral_auction_bid_handler_work() {
    let (mut auctions, mut h) = setup(0);
    assert_eq!(auctions.bid(&mut h, 1, BOB, 0, 4), Err(auction::Error::AuctionNotExist));

    assert!(new_auction(&mut auctions, &mut h, 1, ALICE, 10, 100).is_ok());
    assert_eq!(h.assets.balance(STABLE, TREASURY), 0);
    assert_eq!(h.assets.balance(STABLE, BOB), 1000);

    assert_eq!(auctions.bid(&mut h, 1, BOB, 0, 40), Err(auction::Error::BidNotAccepted));
    assert!(auctions.bid(&mut h, 1, BOB, 0, 50).is_ok());
    assert_eq!(h.assets.balance(STABLE, TREASURY), 50);
    assert_eq!(h.assets.balance(STABLE, BOB), 950);

    assert!(auctions.bid(&mut h, 1, CAROL, 0, 100).is_ok());
    assert_eq!(h.assets.balance(STABLE, TREASURY), 100);
    assert_eq!(h.assets.balance(STABLE, BOB), 1000);
    assert_eq!(h.assets.balance(STABLE, CAROL), 900);
    assert_eq!(h.manager.collateral_auctions(0).unwrap().amount, 10);

    assert!(auctions.bid(&mut h, 1, BOB, 0, 200).is_ok());
    assert_eq!(h.assets.balance(STABLE, TREASURY), 100);
    assert_eq!(h.assets.balance(STABLE, BOB), 900);
    assert_eq!(h.assets.balance(STABLE, CAROL), 1000);
    assert_eq!(h.manager.collateral_auctions(0).unwrap().amount, 5);
}

#[test]
fn bid_when_soft_cap_for_collateral_auction_work() {
    let (mut auctions, mut h) = setup(0);
    assert!(new_auction(&mut auctions, &mut h, 1, ALICE, 10, 100).is_ok());
    assert!(auctions.bid(&mut h, 1, BOB, 0, 100).is_ok());
    assert_eq!(auctions.auctions(0).unwrap().end, Some(101));

    assert_eq!(auctions.bid(&mut h, 2001, CAROL, 0, 100), Err(auction::Error::InvalidBidPrice));
    assert!(auctions.bid(&mut h, 2001, CAROL, 0, 110).is_ok());
    assert_eq!(auctions.auctions(0).unwrap().end, Some(2051));
}

#[test]
fn always_forward_collateral_auction_without_bid_aborted() {
    let (mut auctions, mut h) = setup(100);
    assert!(new_auction(&mut auctions, &mut h, 1, TREASURY, 100, 0).is_ok());
    assert_eq!(h.manager.total_collateral_in_auction(), 100);
    assert_eq!(h.assets.balance(STABLE, TREASURY), 0);

    h.on_auction_ended(0, None);
    assert_eq!(
        *h.manager.events.last().unwrap(),
        Event::CollateralAuctionAborted {
            auction_id: 0,
            collateral_type: NATIVE,
            collateral_amount: 100,
            target_stable_amount: 0,
            refund_recipient: TREASURY,
        }
    );
    assert_eq!(h.assets.balance(NATIVE, TREASURY), 100);
    assert_eq!(h.manager.total_collateral_in_auction(), 0);
    assert_eq!(h.assets.balance(STABLE, TREASURY), 0);
}

#[test]
fn always_forward_collateral_auction_dealt() {
    let (mut auctions, mut h) = setup(100);
    assert!(new_auction(&mut auctions, &mut h, 1, TREASURY, 100, 0).is_ok());
    assert!(auctions.bid(&mut h, 1, BOB, 0, 2).is_ok());
    assert_eq!(h.manager.total_collateral_in_auction(), 100);
    assert_eq!(h.assets.balance(STABLE, TREASURY), 200);
    assert_eq!(h.assets.balance(STABLE, BOB), 800);

    h.on_auction_ended(0, Some((BOB, 2)));
    assert_eq!(
        *h.manager.events.last().unwrap(),
        Event::CollateralAuctionDealt { auction_id: 0, collateral_type: NATIVE, collateral_amount: 100, winner: BOB, payment_amount: 200 }
    );
    assert_eq!(h.manager.total_collateral_in_auction(), 0);
    assert_eq!(h.assets.balance(STABLE, TREASURY), 200);
    assert_eq!(h.assets.balance(NATIVE, BOB), 1100);
}

#[test]
fn cancel_collateral_auction_failed() {
    let (mut auctions, mut h) = setup(0);
    assert!(new_auction(&mut auctions, &mut h, 0, ALICE, 10, 100).is_ok());
    assert_eq!(
        h.manager.cancel_auction(&mut auctions, &mut h.assets, TREASURY, false, 0),
        Err(manager_err(Error::MustAfterShutdown))
    );

    assert!(auctions.bid(&mut h, 0, ALICE, 0, 100).is_ok());
    let item = h.manager.collateral_auctions(0).unwrap();
    assert!(!item.always_forward());
    assert_eq!(auctions.auctions(0).and_then(|a| a.bid), Some((ALICE, 100)));
    assert!(item.in_reverse_stage(rate(10, 1)));
    assert_eq!(
        h.manager.cancel_auction(&mut auctions, &mut h.assets, TREASURY, true, 0),
        Err(manager_err(Error::InReverseStage))
    );
}

#[test]
fn cancel_collateral_auction_work() {
    let (mut auctions, mut h) = setup(0);
    assert!(new_auction(&mut auctions, &mut h, 1, ALICE, 10, 100).is_ok());
    assert_eq!(h.manager.total_collateral_in_auction(), 10);
    assert_eq!(h.manager.total_target_in_auction(), 100);
    assert_eq!(h.assets.balance(STABLE, TREASURY), 0);
    assert!(auctions.bid(&mut h, 1, BOB, 0, 80).is_ok());
    assert_eq!(h.assets.balance(STABLE, BOB), 920);
    assert_eq!(h.assets.balance(STABLE, TREASURY), 80);

    assert!(h.manager.cancel_auction(&mut auctions, &mut h.assets, TREASURY, true, 0).is_ok());
    assert_eq!(*h.manager.events.last().unwrap(), Event::CancelAuction { auction_id: 0 });
    assert_eq!(h.assets.balance(STABLE, BOB), 1000);
    assert_eq!(h.manager.total_collateral_in_auction(), 0);
    assert_eq!(h.manager.total_target_in_auction(), 0);
    assert_eq!(h.assets.balance(STABLE, TREASURY), 0);
    assert!(h.manager.collateral_auctions(0).is_none());
    assert!(auctions.auctions(0).is_none());
}

#[test]
fn accepted_bid_is_recorded_with_its_event() {
    let (mut auctions, mut h) = setup(0);
    assert!(new_auction(&mut auctions, &mut h, 1, ALICE, 10, 100).is_ok());
    assert!(auctions.bid(&mut h, 1, BOB, 0, 100).is_ok());
    assert_eq!(*auctions.events.last().unwrap(), auction::Event::Bid { auction_id: 0, bidder: BOB, amount: 100 });
    assert_eq!(auctions.events.len(), 1);
    // a rejected bid records nothing
    assert_eq!(auctions.bid(&mut h, 1, CAROL, 0, 100), Err(auction::Error::InvalidBidPrice));
    assert_eq!(auctions.events.len(), 1);
}

#[test]
fn large_bid_on_auction_with_target_is_in_range() {
    let (mut auctions, mut h) = setup(0);
    assert!(new_auction(&mut auctions, &mut h, 1, ALICE, 10, 100).is_ok());
    assert!(h.winner_in_range(0, Some((BOB, u128::MAX))));
    assert!(new_auction(&mut auctions, &mut h, 1, ALICE, 10, 0).is_ok());
    assert!(!h.winner_in_range(1, Some((BOB, u128::MAX))));
    assert!(h.winner_in_range(1, Some((BOB, 1000))));
}
