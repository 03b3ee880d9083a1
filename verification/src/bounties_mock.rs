//! Test doubles for the multi-asset bounties pallet: payment ledgers that record what
//! was paid and the status of each payment, the spend origin's limits, the event log
//! readers and the bounty fixture.

use crate::assets::{Assets, NATIVE};
use crate::traits::Origin;
use vstd::prelude::*;
use vstd::std_specs::cmp::PartialEqSpec;

verus! {

/// The status of a payment.
#[derive(Clone, Copy, Debug, PartialEq, Eq, Structural)]
pub enum PaymentStatus {
    InProgress,
    Success,
    Failure,
    Unknown,
}

/// The state of a bounty's payment.
#[derive(Clone, Copy, Debug, PartialEq, Eq, Structural)]
pub enum PaymentState {
    Pending,
    Attempted { id: u64 },
    Failed,
    Succeeded,
}

/// The statuses of a bounty that carry payments.
#[derive(Clone, Copy, Debug, PartialEq, Eq)]
pub enum BountyStatus {
    FundingAttempted { payment_status: PaymentState },
    RefundAttempted { payment_status: PaymentState },
    PayoutAttempted { curator_stash: (u128, PaymentState), beneficiary: (u128, PaymentState) },
    /// Any status without a payment in flight.
    Other,
}

/// Whether some entry of `s` is for key `k`.
pub open spec fn paid_has(s: Seq<((u128, u32), u64)>, k: (u128, u32)) -> bool {
    exists|i: int| 0 <= i < s.len() && s[i].0 == k
}

/// The amounts paid per (beneficiary, asset): entries with distinct keys.
pub open spec fn paid_map(s: Seq<((u128, u32), u64)>) -> Map<(u128, u32), u64> {
    Map::new(|k: (u128, u32)| paid_has(s, k), |k: (u128, u32)| s[choose|i: int| 0 <= i < s.len() && s[i].0 == k].1)
}

/// The amount paid to `who` in `asset` (zero when nothing was).
pub open spec fn paid_of(m: Map<(u128, u32), u64>, who: u128, asset: u32) -> u64 {
    if m.dom().contains((who, asset)) { m[(who, asset)] } else { 0 }
}

/// What the bounties' paymaster recorded: amounts paid, statuses set, and the next id.
pub struct PaymentLedger {
    pub paid: Vec<((u128, u32), u64)>,
    pub status: crate::store::Store<PaymentStatus>,
    pub last_id: u64,
}

impl PaymentLedger {
    pub open spec fn wf(&self) -> bool {
        &&& self.status.wf()
        &&& forall|i: int, j: int| 0 <= i < self.paid@.len() && 0 <= j < self.paid@.len() && i != j
            ==> self.paid@[i].0 != self.paid@[j].0
    }

    /// The amounts paid.
    pub open spec fn paid_view(&self) -> Map<(u128, u32), u64> {
        paid_map(self.paid@)
    }

    /// The status recorded for payment `id`, if any.
    pub open spec fn status_of(&self, id: u64) -> PaymentStatus {
        if self.status.view_map().dom().contains(id) { self.status.view_map()[id] } else { PaymentStatus::InProgress }
    }

    /// Nothing paid, no status, ids from zero.
    pub fn new() -> (r: Self)
        ensures
            r.wf(),
            r.paid_view() == Map::<(u128, u32), u64>::empty(),
            r.status.view_map() == Map::<u64, PaymentStatus>::empty(),
            r.last_id == 0,
    {
        let r = PaymentLedger { paid: Vec::new(), status: crate::store::Store::new(), last_id: 0 };
        assert(r.paid_view() =~= Map::<(u128, u32), u64>::empty());
        r
    }

    fn find(&self, who: u128, asset: u32) -> (r: Option<usize>)
        requires
            self.wf(),
        ensures
            r is None ==> !paid_has(self.paid@, (who, asset)),
            r matches Some(i) ==> i < self.paid@.len() && self.paid@[i as int].0 == (who, asset),
    {
        let mut i: usize = 0;
        while i < self.paid.len()
            invariant
                i <= self.paid@.len(),
                forall|j: int| 0 <= j < i ==> self.paid@[j].0 != (who, asset),
            decreases self.paid@.len() - i,
        {
            if self.paid[i].0.0 == who && self.paid[i].0.1 == asset {
                return Some(i);
            }
            i = i + 1;
        }
        None
    }

    /// Set the amount paid to `who` in `asset`.
    fn set_paid(&mut self, who: u128, asset: u32, amount: u64)
        requires
            old(self).wf(),
        ensures
            final(self).wf(),
            final(self).paid_view() == old(self).paid_view().insert((who, asset), amount),
            final(self).status == old(self).status,
            final(self).last_id == old(self).last_id,
    {
        let ghost s0 = self.paid@;
        let k = (who, asset);
        match self.find(who, asset) {
            Some(i) => {
                self.paid.set(i, (k, amount));
                proof {
                    let s = self.paid@;
                    assert forall|key: (u128, u32)| #[trigger] paid_has(s, key) == (paid_has(s0, key)) by {
                        if paid_has(s0, key) {
                            let j = choose|j: int| 0 <= j < s0.len() && s0[j].0 == key;
                            assert(s[j].0 == key);
                        }
                        if paid_has(s, key) {
                            let j = choose|j: int| 0 <= j < s.len() && s[j].0 == key;
                            assert(s0[j].0 == key);
                        }
                    }
                    assert forall|key: (u128, u32)| paid_has(s, key) implies
                        paid_map(s)[key] == paid_map(s0).insert(k, amount)[key] by {
                        let c = choose|j: int| 0 <= j < s.len() && s[j].0 == key;
                        if key == k {
                            assert(c == i as int);
                        } else {
                            let c0 = choose|j: int| 0 <= j < s0.len() && s0[j].0 == key;
                            assert(s[c0].0 == key);
                            assert(c == c0);
                        }
                    }
                    assert(paid_map(s) =~= paid_map(s0).insert(k, amount));
                }
            },
            None => {
                self.paid.push((k, amount));
                proof {
                    let s = self.paid@;
                    assert forall|key: (u128, u32)| #[trigger] paid_has(s, key) == (paid_has(s0, key) || key == k) by {
                        if paid_has(s0, key) {
                            let j = choose|j: int| 0 <= j < s0.len() && s0[j].0 == key;
                            assert(s[j].0 == key);
                        }
                        if key == k {
                            assert(s[s0.len() as int].0 == k);
                        }
                        if paid_has(s, key) {
                            let j = choose|j: int| 0 <= j < s.len() && s[j].0 == key;
                            if j < s0.len() {
                                assert(s0[j].0 == key);
                            }
                        }
                    }
                    assert forall|key: (u128, u32)| paid_has(s, key) implies
                        paid_map(s)[key] == paid_map(s0).insert(k, amount)[key] by {
                        let c = choose|j: int| 0 <= j < s.len() && s[j].0 == key;
                        if key == k {
                            assert(s[s0.len() as int].0 == k);
                            assert(c == s0.len() as int);
                        } else {
                            let c0 = choose|j: int| 0 <= j < s0.len() && s0[j].0 == key;
                            assert(s[c0].0 == key);
                            assert(c == c0);
                        }
                    }
                    assert(paid_map(s) =~= paid_map(s0).insert(k, amount));
                }
            },
        }
    }
}

/// The amount paid to `who` in `asset_id`.
pub fn paid(ledger: &PaymentLedger, who: u128, asset_id: u32) -> (r: u64)
    requires
        ledger.wf(),
    ensures
        r == paid_of(ledger.paid_view(), who, asset_id),
{
    match ledger.find(who, asset_id) {
        Some(i) => {
            proof {
                let s = ledger.paid@;
                let c = choose|j: int| 0 <= j < s.len() && s[j].0 == (who, asset_id);
                assert(c == i as int);
            }
            ledger.paid[i].1
        },
        None => 0,
    }
}

/// Reduce the amount paid to `who` in `asset_id` by `amount`, down to zero.
pub fn unpay(ledger: &mut PaymentLedger, who: u128, asset_id: u32, amount: u64)
    requires
        old(ledger).wf(),
    ensures
        final(ledger).wf(),
        final(ledger).paid_view() == old(ledger).paid_view().insert((who, asset_id), ({
            let p = paid_of(old(ledger).paid_view(), who, asset_id);
            if p < amount { 0u64 } else { (p - amount) as u64 }
        })),
        final(ledger).status == old(ledger).status,
        final(ledger).last_id == old(ledger).last_id,
{
    let p = paid(ledger, who, asset_id);
    let n = if p < amount { 0 } else { p - amount };
    ledger.set_paid(who, asset_id, n);
}

/// Record status `s` for payment `id`.
pub fn set_status(ledger: &mut PaymentLedger, id: u64, s: PaymentStatus)
    requires
        old(ledger).wf(),
    ensures
        final(ledger).wf(),
        final(ledger).status.view_map() == old(ledger).status.view_map().insert(id, s),
        final(ledger).paid == old(ledger).paid,
        final(ledger).last_id == old(ledger).last_id,
{
    ledger.status.insert(id, s);
}

/// The treasury's paymaster in tests: every payment gets id zero and stays in progress.
#[derive(Clone, Copy, Debug, PartialEq, Eq, Structural)]
pub struct TestTreasuryPay;

impl TestTreasuryPay {
    /// Accept a payment; its id is zero.
    pub fn pay(beneficiary: u128, asset_kind: u32, amount: u64) -> (r: Result<u64, ()>)
        ensures
            r == Ok::<u64, ()>(0),
    {
        Ok(0)
    }

    /// Every payment is in progress.
    pub fn check_payment(id: u64) -> (r: PaymentStatus)
        ensures
            r == PaymentStatus::InProgress,
    {
        PaymentStatus::InProgress
    }
}

/// The bounties' paymaster in tests: it records each payment in a ledger.
#[derive(Clone, Copy, Debug, PartialEq, Eq, Structural)]
pub struct TestBountiesPay;

impl TestBountiesPay {
    /// Record `amount` paid to `to` in `asset_kind`; the payment gets the next id.
    pub fn pay(ledger: &mut PaymentLedger, source: u128, to: u128, asset_kind: u32, amount: u64) -> (r: Result<u64, ()>)
        requires
            old(ledger).wf(),
            paid_of(old(ledger).paid_view(), to, asset_kind) + amount <= u64::MAX,
            old(ledger).last_id < u64::MAX,
        ensures
            final(ledger).wf(),
            r == Ok::<u64, ()>(old(ledger).last_id),
            final(ledger).last_id == old(ledger).last_id + 1,
            final(ledger).paid_view() == old(ledger).paid_view().insert((to, asset_kind),
                (paid_of(old(ledger).paid_view(), to, asset_kind) + amount) as u64),
            final(ledger).status == old(ledger).status,
    {
        let p = paid(ledger, to, asset_kind);
        ledger.set_paid(to, asset_kind, p + amount);
        let id = ledger.last_id;
        ledger.last_id = id + 1;
        Ok(id)
    }

    /// The status recorded for payment `id` (in progress when none is).
    pub fn check_payment(ledger: &PaymentLedger, id: u64) -> (r: PaymentStatus)
        requires
            ledger.wf(),
        ensures
            r == ledger.status_of(id),
    {
        match ledger.status.get(id) {
            Some(s) => s,
            None => PaymentStatus::InProgress,
        }
    }
}

/// The spend limit of the root origin.
pub const SPEND_LIMIT: u64 = 18_446_744_073_709_551_615u64;

/// The spend limit of an origin, if it may spend.
pub open spec fn spend_limit(o: Origin) -> Option<u64> {
    match o {
        Origin::Root => Some(SPEND_LIMIT),
        Origin::Signed(10) => Some(5),
        Origin::Signed(11) => Some(10),
        Origin::Signed(12) => Some(20),
        Origin::Signed(13) => Some(50),
        Origin::Signed(14) => Some(500),
        _ => None,
    }
}

/// The treasury's spend origin in tests: root, and accounts 10 to 14 with limits.
#[derive(Clone, Copy, Debug, PartialEq, Eq, Structural)]
pub struct TestSpendOrigin;

impl TestSpendOrigin {
    /// The spend limit of `o`, or `o` back when it may not spend.
    pub fn try_origin(o: Origin) -> (r: Result<u64, Origin>)
        ensures
            r == (match spend_limit(o) { Some(l) => Ok(l), None => Err(o) }),
    {
        match o {
            Origin::Root => Ok(SPEND_LIMIT),
            Origin::Signed(10) => Ok(5),
            Origin::Signed(11) => Ok(10),
            Origin::Signed(12) => Ok(20),
            Origin::Signed(13) => Ok(50),
            Origin::Signed(14) => Ok(500),
            _ => Err(o),
        }
    }

    /// An origin that may spend, for benchmarks: root, unless the test asked for the
    /// failure (`fail`).
    pub fn try_successful_origin(fail: bool) -> (r: Result<Origin, ()>)
        ensures
            r == (if fail { Err::<Origin, ()>(()) } else { Ok(Origin::Root) }),
    {
        if fail {
            Err(())
        } else {
            Ok(Origin::Root)
        }
    }
}

/// The last `n` events of a log, oldest first (all of them when there are fewer).
pub open spec fn spec_last_events<T>(log: Seq<T>, n: nat) -> Seq<T> {
    if n >= log.len() { log } else { log.subrange(log.len() - n, log.len() as int) }
}

/// The last `n` events of `log`, oldest first.
pub fn last_events<T: Copy>(log: &Vec<T>, n: usize) -> (r: Vec<T>)
    ensures
        r@ == spec_last_events(log@, n as nat),
{
    let len = log.len();
    let start = if n >= len { 0 } else { len - n };
    let mut r: Vec<T> = Vec::new();
    let mut i: usize = start;
    while i < len
        invariant
            start <= i <= len,
            len == log@.len(),
            start == (if n >= len { 0 } else { len - n }),
            r@ == log@.subrange(start as int, i as int),
        decreases len - i,
    {
        r.push(log[i]);
        proof {
            assert(log@.subrange(start as int, i + 1) =~= log@.subrange(start as int, i as int).push(log@[i as int]));
        }
        i = i + 1;
    }
    proof {
        if n >= len {
            assert(log@.subrange(0, len as int) =~= log@);
        }
    }
    r
}

/// The last event of a non-empty log.
pub fn last_event<T: Copy>(log: &Vec<T>) -> (r: T)
    requires
        log@.len() > 0,
    ensures
        r == log@.last(),
{
    log[log.len() - 1]
}

/// Whether the last events of `log` are exactly `expected`.
pub fn expect_events<T: Copy + PartialEq>(log: &Vec<T>, expected: &Vec<T>) -> (r: bool)
    requires
        vstd::laws_eq::obeys_concrete_eq::<T>(),
    ensures
        r == (spec_last_events(log@, expected@.len()) == expected@),
{
    proof {
        reveal(vstd::laws_eq::obeys_concrete_eq);
    }
    let got = last_events(log, expected.len());
    if got.len() != expected.len() {
        return false;
    }
    let mut i: usize = 0;
    while i < got.len()
        invariant
            got@ == spec_last_events(log@, expected@.len()),
            got@.len() == expected@.len(),
            i <= got@.len(),
            vstd::laws_eq::obeys_concrete_eq::<T>(),
            T::obeys_eq_spec(),
            forall|x: T, y: T| x.eq_spec(&y) <==> x == y,
            forall|j: int| 0 <= j < i ==> got@[j] == expected@[j],
        decreases got@.len() - i,
    {
        if !(got[i] == expected[i]) {
            return false;
        }
        i = i + 1;
    }
    assert(got@ =~= expected@);
    true
}

/// The id of the payment in flight for a bounty in `status`: its funding or refund, or
/// the payout to `dest` (the curator's stash or the beneficiary).
pub fn get_payment_id(status: BountyStatus, dest: Option<u128>) -> (r: Option<u64>)
    ensures
        r == (match status {
            BountyStatus::FundingAttempted { payment_status: PaymentState::Attempted { id } } => Some(id),
            BountyStatus::RefundAttempted { payment_status: PaymentState::Attempted { id } } => Some(id),
            BountyStatus::PayoutAttempted { curator_stash, beneficiary } => match dest {
                Some(account) => if account == curator_stash.0 {
                    match curator_stash.1 { PaymentState::Attempted { id } => Some(id), _ => None }
                } else if account == beneficiary.0 {
                    match beneficiary.1 { PaymentState::Attempted { id } => Some(id), _ => None }
                } else {
                    None
                },
                None => None,
            },
            _ => None::<u64>,
        }),
{
    match status {
        BountyStatus::FundingAttempted { payment_status: PaymentState::Attempted { id } } => Some(id),
        BountyStatus::RefundAttempted { payment_status: PaymentState::Attempted { id } } => Some(id),
        BountyStatus::PayoutAttempted { curator_stash, beneficiary } => match dest {
            Some(account) => {
                if account == curator_stash.0 {
                    if let PaymentState::Attempted { id } = curator_stash.1 {
                        return Some(id);
                    }
                } else if account == beneficiary.0 {
                    if let PaymentState::Attempted { id } = beneficiary.1 {
                        return Some(id);
                    }
                }
                None
            },
            None => None,
        },
        _ => None,
    }
}

/// The accounts and amounts of a bounty under test.
#[derive(Clone, Copy, Debug, PartialEq, Eq, Structural)]
pub struct TestBounty {
    pub parent_bounty_id: u32,
    pub child_bounty_id: u32,
    pub asset_kind: u32,
    pub value: u64,
    pub child_value: u64,
    pub fee: u64,
    pub child_fee: u64,
    pub curator: u128,
    pub child_curator: u128,
    pub curator_deposit: u64,
    pub curator_stash: u128,
    pub child_curator_stash: u128,
    pub beneficiary: u128,
    pub child_beneficiary: u128,
}

/// The fixture bounty, with the curator deposit that its fee requires; the curator and
/// the child curator are given a free balance of 100.
pub fn setup_bounty(balances: &mut Assets, expected_deposit: u64) -> (r: TestBounty)
    requires
        old(balances).wf(),
    ensures
        final(balances).wf(),
        final(balances).free(NATIVE, 4) == 100,
        final(balances).free(NATIVE, 8) == 100,
        forall|w: u64| w != 4 && w != 8 ==> final(balances).free(NATIVE, w) == old(balances).free(NATIVE, w),
        final(balances).stable == old(balances).stable,
        r == (TestBounty {
            parent_bounty_id: 0,
            child_bounty_id: 0,
            asset_kind: 1,
            value: 50,
            child_value: 10,
            fee: 10,
            child_fee: 6,
            curator: 4,
            child_curator: 8,
            curator_deposit: expected_deposit,
            curator_stash: 7,
            child_curator_stash: 10,
            beneficiary: 5,
            child_beneficiary: 9,
        }),
{
    balances.make_free_balance_be(NATIVE, 4, 100);
    balances.make_free_balance_be(NATIVE, 8, 100);
    TestBounty {
        parent_bounty_id: 0,
        child_bounty_id: 0,
        asset_kind: 1,
        value: 50,
        child_value: 10,
        fee: 10,
        child_fee: 6,
        curator: 4,
        child_curator: 8,
        curator_deposit: expected_deposit,
        curator_stash: 7,
        child_curator_stash: 10,
        beneficiary: 5,
        child_beneficiary: 9,
    }
}

/// Approve the payment of `amount` in flight to `dest` for a bounty in `status`: it
/// must have been paid, and its status becomes success.  Returns the payment's id.
pub fn approve_payment(ledger: &mut PaymentLedger, dest: u128, status: BountyStatus, asset_kind: u32, amount: u64)
    -> (r: u64)
    requires
        old(ledger).wf(),
        paid_of(old(ledger).paid_view(), dest, asset_kind) == amount,
        get_payment_id_spec(status, Some(dest)) is Some,
    ensures
        final(ledger).wf(),
        r == get_payment_id_spec(status, Some(dest))->Some_0,
        final(ledger).status.view_map() == old(ledger).status.view_map().insert(r, PaymentStatus::Success),
        final(ledger).paid == old(ledger).paid,
        final(ledger).last_id == old(ledger).last_id,
{
    let id = match get_payment_id(status, Some(dest)) {
        Some(id) => id,
        None => 0,
    };
    set_status(ledger, id, PaymentStatus::Success);
    id
}

/// Reject the payment of `amount` in flight to `dest` for a bounty in `status`: the
/// amount is taken back from what `dest` was paid and the payment's status becomes
/// failure.  Returns the payment's id.
pub fn reject_payment(ledger: &mut PaymentLedger, dest: u128, status: BountyStatus, asset_kind: u32, amount: u64)
    -> (r: u64)
    requires
        old(ledger).wf(),
        get_payment_id_spec(status, Some(dest)) is Some,
    ensures
        final(ledger).wf(),
        r == get_payment_id_spec(status, Some(dest))->Some_0,
        final(ledger).paid_view() == old(ledger).paid_view().insert((dest, asset_kind), ({
            let p = paid_of(old(ledger).paid_view(), dest, asset_kind);
            if p < amount { 0u64 } else { (p - amount) as u64 }
        })),
        final(ledger).status.view_map() == old(ledger).status.view_map().insert(r, PaymentStatus::Failure),
        final(ledger).last_id == old(ledger).last_id,
{
    unpay(ledger, dest, asset_kind, amount);
    let id = match get_payment_id(status, Some(dest)) {
        Some(id) => id,
        None => 0,
    };
    set_status(ledger, id, PaymentStatus::Failure);
    id
}

/// The id `get_payment_id` returns.
pub open spec fn get_payment_id_spec(status: BountyStatus, dest: Option<u128>) -> Option<u64> {
    match status {
        BountyStatus::FundingAttempted { payment_status: PaymentState::Attempted { id } } => Some(id),
        BountyStatus::RefundAttempted { payment_status: PaymentState::Attempted { id } } => Some(id),
        BountyStatus::PayoutAttempted { curator_stash, beneficiary } => match dest {
            Some(account) => if account == curator_stash.0 {
                match curator_stash.1 { PaymentState::Attempted { id } => Some(id), _ => None }
            } else if account == beneficiary.0 {
                match beneficiary.1 { PaymentState::Attempted { id } => Some(id), _ => None }
            } else {
                None
            },
            None => None,
        },
        _ => None,
    }
}

/// The fixture bounty funded: created as bounty `parent_bounty_id` with account
/// `parent_bounty_account`, whose funding payment (in flight per `status`) is approved.
pub fn create_funded_parent_bounty(
    ledger: &mut PaymentLedger,
    bounty: TestBounty,
    parent_bounty_id: u32,
    parent_bounty_account: u128,
    status: BountyStatus,
) -> (r: TestBounty)
    requires
        old(ledger).wf(),
        paid_of(old(ledger).paid_view(), parent_bounty_account, bounty.asset_kind) == bounty.value,
        get_payment_id_spec(status, Some(parent_bounty_account)) is Some,
    ensures
        final(ledger).wf(),
        r == (TestBounty { parent_bounty_id, ..bounty }),
        final(ledger).status.view_map() == old(ledger).status.view_map().insert(
            get_payment_id_spec(status, Some(parent_bounty_account))->Some_0, PaymentStatus::Success),
{
    let mut s = bounty;
    s.parent_bounty_id = parent_bounty_id;
    approve_payment(ledger, parent_bounty_account, status, s.asset_kind, s.value);
    s
}

} // verus!
