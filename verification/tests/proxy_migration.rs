use honzon::proxy_migration::{AccountVerification, Event, Kind, MigrationCursor, MigrationState, SteppedMigrationError, VerifyError};
use honzon::weights::{RuntimeDbWeight, Weight, WeightMeter};

fn db() -> RuntimeDbWeight {
    RuntimeDbWeight { read: 25, write: 100 }
}

fn block_weight() -> Weight {
    Weight { ref_time: 2_000_000_000_000, proof_size: u64::MAX }
}

fn setup_account_with_reserve(state: &mut MigrationState, who: u64, reserved: u64) {
    state.free.insert(who, reserved + 100);
    state.reserves.insert(who, reserved);
}

fn run_to_completion(state: &mut MigrationState, limit: Weight) -> usize {
    let mut cursor = None;
    let mut steps = 0;
    loop {
        let mut meter = WeightMeter::with_limit(limit);
        cursor = state.step(cursor, &mut meter).expect("Migration step should succeed");
        steps += 1;
        if cursor.is_none() {
            break;
        }
    }
    steps
}

#[test]
fn migration_test() {
    let mut state = MigrationState::new(db());
    for who in 1..=3u64 {
        setup_account_with_reserve(&mut state, who, 1000);
    }
    // accounts with zero deposits
    for who in 4..=6u64 {
        state.proxies.insert(who, (0, 0));
    }
    for who in 1..=3u64 {
        let count = if who == 2 { 1 } else { 2 };
        state.proxies.insert(who, (count, 500));
        state.announcements.insert(who, (1, 500));
    }
    let pre = state.pre_upgrade();

    run_to_completion(&mut state, block_weight());

    assert_eq!(state.post_upgrade(&pre), Ok(()));
    assert_eq!(state.try_post_upgrade(&pre), Some(Ok(())));

    for who in 1..=3u64 {
        assert_eq!(state.reserved_balance(who), 0);
        let proxy_held = state.balance_on_hold(Kind::Proxy, who);
        let announcement_held = state.balance_on_hold(Kind::Announcement, who);
        assert!(proxy_held > 0 || announcement_held > 0);
    }
    for who in 4..=6u64 {
        assert_eq!(state.reserved_balance(who), 0);
        assert_eq!(state.balance_on_hold(Kind::Proxy, who), 0, "Zero deposit account should have no holds");
        assert_eq!(state.proxies.get(who), Some((0, 0)), "Zero deposit proxies should remain");
    }
}

#[test]
fn migrate_proxy_graceful_degradation_on_hold_failure() {
    let mut state = MigrationState::new(db());
    let who = 1;
    let reserved = 1000;
    setup_account_with_reserve(&mut state, who, reserved);
    state.proxies.insert(who, (2, reserved));
    // the account cannot afford the hold any more
    state.free.insert(who, 1100 - 1050);
    let pre = state.pre_upgrade();

    run_to_completion(&mut state, block_weight());

    assert_eq!(state.proxies.get(who), None);
    assert_eq!(state.balance_on_hold(Kind::Proxy, who), 0);
    assert_eq!(
        state.verify_account_migration(who, reserved, 0),
        Ok(AccountVerification::GracefulDegradation { released_amount: reserved })
    );
    assert!(state.events.contains(&Event::ProxyRemovedDuringMigration { delegator: who, proxy_count: 2, refunded: reserved }));
    let _ = pre;
}

#[test]
fn step_refuses_without_room_for_one_account() {
    let mut state = MigrationState::new(db());
    let required = state.weight_per_account();
    assert_eq!(required, Weight { ref_time: 3 * 25 + 3 * 100, proof_size: 0 });
    let mut meter = WeightMeter::with_limit(Weight { ref_time: required.ref_time - 1, proof_size: 0 });
    assert_eq!(state.step(None, &mut meter), Err(SteppedMigrationError::InsufficientWeight { required }));
    assert!(state.events.is_empty());
}

#[test]
fn migration_runs_in_several_steps_under_a_small_budget() {
    let mut state = MigrationState::new(db());
    for who in 1..=4u64 {
        setup_account_with_reserve(&mut state, who, 300);
        state.proxies.insert(who, (1, 300));
    }
    let per_account = state.weight_per_account();
    let steps = run_to_completion(&mut state, Weight { ref_time: per_account.ref_time * 2, proof_size: 0 });
    assert!(steps > 1);
    assert_eq!(state.events.first(), Some(&Event::MigrationStarted));
    assert_eq!(state.events.last(), Some(&Event::MigrationCompleted));
    // a completed cursor finishes at once
    let mut meter = WeightMeter::with_limit(block_weight());
    assert_eq!(state.step(Some(MigrationCursor::Complete), &mut meter), Ok(None));
}

#[test]
fn unreserve_and_hold() {
    let mut state = MigrationState::new(db());
    setup_account_with_reserve(&mut state, 9, 50);
    assert_eq!(state.unreserve(9, 80), 30);
    assert_eq!(state.reserved_balance(9), 0);
    assert_eq!(state.hold(Kind::Announcement, 9, 200), Err(()));
    assert_eq!(state.hold(Kind::Announcement, 9, 150), Ok(()));
    assert_eq!(state.balance_on_hold(Kind::Announcement, 9), 150);
    assert_eq!(state.balance_on_hold(Kind::Proxy, 9), 0);
}

#[test]
fn post_upgrade_refuses_state_that_does_not_decode() {
    let state = MigrationState::new(db());
    // a length prefix of one entry, then too few bytes for it
    assert_eq!(state.post_upgrade(&[4u8, 1, 2, 3]), Err(VerifyError::DecodeFailed));
    // the empty list decodes, and nothing is to be checked
    assert_eq!(state.post_upgrade(&state.pre_upgrade()), Ok(()));
    assert_eq!(state.pre_upgrade(), vec![0u8]);
}

fn encoded_entry(who: u64, proxy: u64, announcement: u64) -> Vec<u8> {
    let mut v = who.to_le_bytes().to_vec();
    v.extend_from_slice(&proxy.to_le_bytes());
    v.extend_from_slice(&announcement.to_le_bytes());
    v
}

#[test]
fn pre_upgrade_writes_a_compact_length_and_little_endian_entries() {
    let mut state = MigrationState::new(db());
    state.proxies.insert(3, (1, 500));
    let mut expected = vec![4u8];
    expected.extend(encoded_entry(3, 500, 0));
    assert_eq!(state.pre_upgrade(), expected);
}

#[test]
fn post_upgrade_keeps_the_last_entry_of_an_account() {
    let mut state = MigrationState::new(db());
    // account 7 keeps a hold but no proxies: a deposit before would be an error
    state.held_proxy.insert(7, 50);
    let mut first_bad = vec![8u8];
    first_bad.extend(encoded_entry(7, 100, 0));
    first_bad.extend(encoded_entry(7, 0, 0));
    // collected into a map, the later entry (no deposits) is the one checked
    assert_eq!(state.post_upgrade(&first_bad), Ok(()));
    let mut last_bad = vec![8u8];
    last_bad.extend(encoded_entry(7, 0, 0));
    last_bad.extend(encoded_entry(7, 100, 0));
    assert_eq!(state.post_upgrade(&last_bad), Err(VerifyError::HoldsWithoutStorage));
}

#[test]
fn post_upgrade_checks_accounts_in_ascending_order() {
    let mut state = MigrationState::new(db());
    // account 9 lost its proxy deposit's hold, account 8 keeps a hold without storage
    state.proxies.insert(9, (1, 500));
    state.held_proxy.insert(8, 50);
    let mut bytes = vec![8u8];
    bytes.extend(encoded_entry(9, 500, 0));
    bytes.extend(encoded_entry(8, 100, 0));
    assert_eq!(state.post_upgrade(&bytes), Err(VerifyError::HoldsWithoutStorage));
}

#[test]
fn pre_upgrade_writes_accounts_in_ascending_order() {
    let mut state = MigrationState::new(db());
    state.proxies.insert(9, (1, 500));
    state.announcements.insert(3, (1, 200));
    state.proxies.insert(3, (2, 700));
    let mut expected = vec![8u8];
    expected.extend(encoded_entry(3, 700, 200));
    expected.extend(encoded_entry(9, 500, 0));
    assert_eq!(state.pre_upgrade(), expected);
}
