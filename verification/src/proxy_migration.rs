//! The migration of proxy and announcement deposits from reserves of the old currency
//! to holds of the new one, in batches bounded by a weight budget, and its check.

use crate::scale::{decode_deposits, decoded_deposits, encode_deposits, encoded_deposits, lemma_deposits_roundtrip};
use crate::store::{collect_sorted, entries_map, has_key, keys_ascending, keys_distinct, lemma_entries_map_take, lemma_sorted_collect_len,
    lemma_sorted_collect_map, sorted_collect, Store};
use crate::weights::{any_lt, RuntimeDbWeight, Weight, WeightMeter};
use vstd::prelude::*;

verus! {

/// Where the migration stands: the stage and the last account seen in it.
#[derive(Clone, Copy, Debug, PartialEq, Eq, Structural)]
pub enum MigrationCursor {
    Proxies { last_key: Option<u64> },
    Announcements { last_key: Option<u64> },
    Complete,
}

/// How the migration of one account went.
#[derive(Clone, Copy, Debug, PartialEq, Eq, Structural)]
pub enum AccountMigrationResult {
    Success,
    /// The deposit could not be held; the account's entries were removed and the amount
    /// taken off its reserve is left to it.
    GracefulRemoval { refunded: u64 },
}

/// Why a migration step could not run.
#[derive(Clone, Copy, Debug, PartialEq, Eq, Structural)]
pub enum SteppedMigrationError {
    InsufficientWeight { required: Weight },
}

/// What the check found for one account.
#[derive(Clone, Copy, Debug, PartialEq, Eq, Structural)]
pub enum AccountVerification {
    SuccessfulConversion { proxy_held: u64, announcement_held: u64 },
    GracefulDegradation { released_amount: u64 },
    AccountCleanedup { released_amount: u64 },
}

/// Why the check failed.
#[derive(Clone, Copy, Debug, PartialEq, Eq, Structural)]
pub enum VerifyError {
    DepositAmountsChanged,
    InsufficientHolds,
    ProxyDepositChanged,
    InsufficientProxyHold,
    AnnouncementDepositChanged,
    InsufficientAnnouncementHold,
    HoldsWithoutStorage,
    FundConservationViolated,
    /// The state handed over from before the upgrade does not decode.
    DecodeFailed,
}

/// Events of the migration.
#[derive(Clone, Copy, Debug, PartialEq, Eq, Structural)]
pub enum Event {
    MigrationStarted,
    MigrationCompleted,
    ProxyDepositMigrated { delegator: u64, amount: u64 },
    ProxyRemovedDuringMigration { delegator: u64, proxy_count: u32, refunded: u64 },
    AnnouncementDepositMigrated { announcer: u64, amount: u64 },
    AnnouncementsRemovedDuringMigration { announcer: u64, announcement_count: u32, refunded: u64 },
}

/// The value of `k` in `m`, zero when absent.
pub open spec fn val(m: Map<u64, u64>, k: u64) -> u64 {
    if m.dom().contains(k) { m[k] } else { 0 }
}

/// The two kinds of deposit.
#[derive(Clone, Copy, Debug, PartialEq, Eq, Structural)]
pub enum Kind {
    Proxy,
    Announcement,
}

/// The proxies and announcements (per account: their number and the deposit), the old
/// currency's reserves, the new currency's free balances and holds, and the events.
pub struct MigrationState {
    pub proxies: Store<(u32, u64)>,
    pub announcements: Store<(u32, u64)>,
    pub reserves: Store<u64>,
    pub free: Store<u64>,
    pub held_proxy: Store<u64>,
    pub held_announcement: Store<u64>,
    pub db: RuntimeDbWeight,
    pub events: Vec<Event>,
}

impl MigrationState {
    pub open spec fn wf(&self) -> bool {
        &&& self.proxies.wf()
        &&& self.announcements.wf()
        &&& self.reserves.wf()
        &&& self.free.wf()
        &&& self.held_proxy.wf()
        &&& self.held_announcement.wf()
    }

    pub open spec fn reserved_of(&self, who: u64) -> u64 {
        val(self.reserves.view_map(), who)
    }

    pub open spec fn free_of(&self, who: u64) -> u64 {
        val(self.free.view_map(), who)
    }

    pub open spec fn held_of(&self, kind: Kind, who: u64) -> u64 {
        match kind {
            Kind::Proxy => val(self.held_proxy.view_map(), who),
            Kind::Announcement => val(self.held_announcement.view_map(), who),
        }
    }

    /// The entries of a kind.
    pub open spec fn entries_of(&self, kind: Kind) -> Map<u64, (u32, u64)> {
        match kind {
            Kind::Proxy => self.proxies.view_map(),
            Kind::Announcement => self.announcements.view_map(),
        }
    }

    /// The state the migration works on.
    pub open spec fn view_of(&self) -> MigrationView {
        (self.reserves.view_map(), self.free.view_map(), self.held_proxy.view_map(),
            self.held_announcement.view_map(), self.proxies.entries@, self.announcements.entries@, self.events@)
    }

    /// The entries of a kind, in storage order.
    pub open spec fn seq_of(&self, kind: Kind) -> Seq<(u64, (u32, u64))> {
        match kind {
            Kind::Proxy => self.proxies.entries@,
            Kind::Announcement => self.announcements.entries@,
        }
    }

    /// An empty state.
    pub fn new(db: RuntimeDbWeight) -> (r: Self)
        ensures
            r.wf(),
            r.db == db,
            r.proxies.view_map() == Map::<u64, (u32, u64)>::empty(),
            r.announcements.view_map() == Map::<u64, (u32, u64)>::empty(),
            r.events@.len() == 0,
            forall|w: u64| r.reserved_of(w) == 0 && r.free_of(w) == 0
                && r.held_of(Kind::Proxy, w) == 0 && r.held_of(Kind::Announcement, w) == 0,
    {
        MigrationState {
            proxies: Store::new(),
            announcements: Store::new(),
            reserves: Store::new(),
            free: Store::new(),
            held_proxy: Store::new(),
            held_announcement: Store::new(),
            db,
            events: Vec::new(),
        }
    }

    fn get_or_zero(s: &Store<u64>, k: u64) -> (r: u64)
        requires
            s.wf(),
        ensures
            r == val(s.view_map(), k),
    {
        match s.get(k) {
            Some(v) => v,
            None => 0,
        }
    }

    /// The reserve of `who` in the old currency.
    pub fn reserved_balance(&self, who: u64) -> (r: u64)
        requires
            self.wf(),
        ensures
            r == self.reserved_of(who),
    {
        Self::get_or_zero(&self.reserves, who)
    }

    /// The hold of `who` for `kind` in the new currency.
    pub fn balance_on_hold(&self, kind: Kind, who: u64) -> (r: u64)
        requires
            self.wf(),
        ensures
            r == self.held_of(kind, who),
    {
        match kind {
            Kind::Proxy => Self::get_or_zero(&self.held_proxy, who),
            Kind::Announcement => Self::get_or_zero(&self.held_announcement, who),
        }
    }

    /// Release up to `value` of `who`'s reserve; returns the part of `value` that was
    /// not reserved.
    pub fn unreserve(&mut self, who: u64, value: u64) -> (r: u64)
        requires
            old(self).wf(),
        ensures
            final(self).wf(),
            ({
                let cur = old(self).reserved_of(who);
                &&& r == (if cur >= value { 0 } else { (value - cur) as u64 })
                &&& final(self).reserves.view_map() == old(self).reserves.view_map().insert(who,
                    if cur >= value { (cur - value) as u64 } else { 0 })
            }),
            final(self).proxies == old(self).proxies,
            final(self).announcements == old(self).announcements,
            final(self).free == old(self).free,
            final(self).held_proxy == old(self).held_proxy,
            final(self).held_announcement == old(self).held_announcement,
            final(self).events == old(self).events,
            final(self).db == old(self).db,
    {
        let cur = self.reserved_balance(who);
        if cur >= value {
            self.reserves.insert(who, cur - value);
            0
        } else {
            self.reserves.insert(who, 0);
            value - cur
        }
    }

    /// Put `amount` of `who`'s free balance on hold for `kind`.
    pub fn hold(&mut self, kind: Kind, who: u64, amount: u64) -> (r: Result<(), ()>)
        requires
            old(self).wf(),
        ensures
            final(self).wf(),
            r is Ok <==> (old(self).free_of(who) >= amount && old(self).held_of(kind, who) + amount <= u64::MAX),
            r is Err ==> final(self).free == old(self).free && final(self).held_proxy == old(self).held_proxy
                && final(self).held_announcement == old(self).held_announcement,
            r is Ok ==> final(self).free.view_map() == old(self).free.view_map().insert(who, (old(self).free_of(who) - amount) as u64)
                && (kind == Kind::Proxy ==> final(self).held_proxy.view_map()
                    == old(self).held_proxy.view_map().insert(who, (old(self).held_of(kind, who) + amount) as u64)
                    && final(self).held_announcement == old(self).held_announcement)
                && (kind == Kind::Announcement ==> final(self).held_announcement.view_map()
                    == old(self).held_announcement.view_map().insert(who, (old(self).held_of(kind, who) + amount) as u64)
                    && final(self).held_proxy == old(self).held_proxy),
            final(self).proxies == old(self).proxies,
            final(self).announcements == old(self).announcements,
            final(self).reserves == old(self).reserves,
            final(self).events == old(self).events,
            final(self).db == old(self).db,
    {
        let f = Self::get_or_zero(&self.free, who);
        let h = self.balance_on_hold(kind, who);
        if f < amount {
            return Err(());
        }
        let nh = match h.checked_add(amount) {
            Some(v) => v,
            None => return Err(()),
        };
        self.free.insert(who, f - amount);
        match kind {
            Kind::Proxy => self.held_proxy.insert(who, nh),
            Kind::Announcement => self.announcements_hold_insert(who, nh),
        }
        Ok(())
    }

    fn announcements_hold_insert(&mut self, who: u64, v: u64)
        requires
            old(self).wf(),
        ensures
            final(self).wf(),
            final(self).held_announcement.view_map() == old(self).held_announcement.view_map().insert(who, v),
            final(self).proxies == old(self).proxies,
            final(self).announcements == old(self).announcements,
            final(self).reserves == old(self).reserves,
            final(self).free == old(self).free,
            final(self).held_proxy == old(self).held_proxy,
            final(self).events == old(self).events,
            final(self).db == old(self).db,
    {
        self.held_announcement.insert(who, v);
    }

    /// The weight of migrating one account.
    pub fn weight_per_account(&self) -> (r: Weight)
        ensures
            r == (Weight { ref_time: crate::weights::sat_add(crate::weights::sat_mul(self.db.read, 3),
                crate::weights::sat_mul(self.db.write, 3)), proof_size: 0 }),
    {
        self.db.reads_writes(3, 3)
    }

    /// Move `who`'s deposit of `kind` (`old_deposit`, as far as it is reserved) from the
    /// reserve to a hold.  When it cannot be held, the account's entries of that kind
    /// are removed and the amount released is left to it.
    pub fn migrate_account(&mut self, kind: Kind, who: u64, count: u32, old_deposit: u64) -> (r: AccountMigrationResult)
        requires
            old(self).wf(),
        ensures
            final(self).wf(),
            final(self).db == old(self).db,
            (final(self).view_of(), r) == spec_migrate_account(old(self).view_of(), kind, who, count, old_deposit),
            ({
                let to = if old_deposit < old(self).reserved_of(who) { old_deposit } else { old(self).reserved_of(who) };
                let held_ok = old(self).free_of(who) >= to && old(self).held_of(kind, who) + to <= u64::MAX;
                &&& final(self).reserved_of(who) == old(self).reserved_of(who) - to
                &&& forall|w: u64| w != who ==> final(self).reserved_of(w) == old(self).reserved_of(w)
                &&& to == 0 ==> r == AccountMigrationResult::Success
                    && final(self).free == old(self).free
                    && final(self).held_proxy == old(self).held_proxy
                    && final(self).held_announcement == old(self).held_announcement
                    && final(self).proxies == old(self).proxies
                    && final(self).announcements == old(self).announcements
                    && final(self).events@ == old(self).events@
                &&& to != 0 && held_ok ==> r == AccountMigrationResult::Success
                    && final(self).held_of(kind, who) == old(self).held_of(kind, who) + to
                    && final(self).free_of(who) == old(self).free_of(who) - to
                    && final(self).proxies == old(self).proxies
                    && final(self).announcements == old(self).announcements
                    && final(self).events@ == old(self).events@.push(match kind {
                        Kind::Proxy => Event::ProxyDepositMigrated { delegator: who, amount: to },
                        Kind::Announcement => Event::AnnouncementDepositMigrated { announcer: who, amount: to },
                    })
                &&& to != 0 && !held_ok ==> r == AccountMigrationResult::GracefulRemoval { refunded: to }
                    && final(self).held_of(kind, who) == old(self).held_of(kind, who)
                    && final(self).free == old(self).free
                    && final(self).entries_of(kind) == old(self).entries_of(kind).remove(who)
                    && (kind == Kind::Proxy ==> final(self).announcements == old(self).announcements)
                    && (kind == Kind::Announcement ==> final(self).proxies == old(self).proxies)
                    && final(self).events@ == old(self).events@.push(match kind {
                        Kind::Proxy => Event::ProxyRemovedDuringMigration { delegator: who, proxy_count: count, refunded: to },
                        Kind::Announcement => Event::AnnouncementsRemovedDuringMigration {
                            announcer: who, announcement_count: count, refunded: to },
                    })
                &&& forall|w: u64| w != who ==> final(self).held_of(Kind::Proxy, w) == old(self).held_of(Kind::Proxy, w)
                    && final(self).held_of(Kind::Announcement, w) == old(self).held_of(Kind::Announcement, w)
                    && final(self).free_of(w) == old(self).free_of(w)
                &&& kind == Kind::Proxy ==> final(self).held_of(Kind::Announcement, who) == old(self).held_of(Kind::Announcement, who)
                &&& kind == Kind::Announcement ==> final(self).held_of(Kind::Proxy, who) == old(self).held_of(Kind::Proxy, who)
                &&& (r matches AccountMigrationResult::GracefulRemoval { .. }) ==> !final(self).entries_of(kind).dom().contains(who)
                    && (has_key(old(self).seq_of(kind), who) ==> final(self).seq_of(kind).len() == old(self).seq_of(kind).len() - 1)
                &&& r == AccountMigrationResult::Success ==> final(self).proxies == old(self).proxies
                    && final(self).announcements == old(self).announcements
            }),
    {
        let reserved = self.reserved_balance(who);
        let to_migrate = if old_deposit < reserved { old_deposit } else { reserved };
        if to_migrate == 0 {
            return AccountMigrationResult::Success;
        }
        let not_unreserved = self.unreserve(who, to_migrate);
        let actually_unreserved = if to_migrate < not_unreserved { 0 } else { to_migrate - not_unreserved };
        match self.hold(kind, who, actually_unreserved) {
            Ok(()) => {
                match kind {
                    Kind::Proxy => self.events.push(Event::ProxyDepositMigrated { delegator: who, amount: actually_unreserved }),
                    Kind::Announcement => self.events.push(Event::AnnouncementDepositMigrated {
                        announcer: who,
                        amount: actually_unreserved,
                    }),
                }
                AccountMigrationResult::Success
            },
            Err(()) => {
                match kind {
                    Kind::Proxy => {
                        self.proxies.remove(who);
                        self.events.push(Event::ProxyRemovedDuringMigration {
                            delegator: who,
                            proxy_count: count,
                            refunded: actually_unreserved,
                        });
                    },
                    Kind::Announcement => {
                        self.announcements.remove(who);
                        self.events.push(Event::AnnouncementsRemovedDuringMigration {
                            announcer: who,
                            announcement_count: count,
                            refunded: actually_unreserved,
                        });
                    },
                }
                AccountMigrationResult::GracefulRemoval { refunded: actually_unreserved }
            },
        }
    }
}


/// What the migration works on: reserves, free balances, the holds for proxies and for
/// announcements, the entries of proxies and of announcements in storage order, and
/// the events.
pub type MigrationView = (
    Map<u64, u64>,
    Map<u64, u64>,
    Map<u64, u64>,
    Map<u64, u64>,
    Seq<(u64, (u32, u64))>,
    Seq<(u64, (u32, u64))>,
    Seq<Event>,
);

/// The position of key `k` among entries.
pub open spec fn key_index(s: Seq<(u64, (u32, u64))>, k: u64) -> int {
    choose|j: int| 0 <= j < s.len() && s[j].0 == k
}

/// The entries without the one of key `k`.
pub open spec fn remove_key(s: Seq<(u64, (u32, u64))>, k: u64) -> Seq<(u64, (u32, u64))> {
    if has_key(s, k) { s.remove(key_index(s, k)) } else { s }
}

/// The entries of `kind` in a view.
pub open spec fn view_seq(v: MigrationView, kind: Kind) -> Seq<(u64, (u32, u64))> {
    match kind {
        Kind::Proxy => v.4,
        Kind::Announcement => v.5,
    }
}

/// Migrating the deposit `dep` of `who` for `kind` (with `count` entries): the part of
/// it still reserved is released and held; when it cannot be held the account's
/// entries of that kind are removed instead.
pub open spec fn spec_migrate_account(v: MigrationView, kind: Kind, who: u64, count: u32, dep: u64)
    -> (MigrationView, AccountMigrationResult) {
    let (reserves, free, hp, ha, proxies, anns, events) = v;
    let cur = val(reserves, who);
    let to: u64 = if dep < cur { dep } else { cur };
    if to == 0 {
        (v, AccountMigrationResult::Success)
    } else {
        let reserves2 = reserves.insert(who, (cur - to) as u64);
        let held = match kind { Kind::Proxy => val(hp, who), Kind::Announcement => val(ha, who) };
        let f = val(free, who);
        if f >= to && held + to <= u64::MAX {
            let free2 = free.insert(who, (f - to) as u64);
            match kind {
                Kind::Proxy => ((reserves2, free2, hp.insert(who, (held + to) as u64), ha, proxies, anns,
                    events.push(Event::ProxyDepositMigrated { delegator: who, amount: to })),
                    AccountMigrationResult::Success),
                Kind::Announcement => ((reserves2, free2, hp, ha.insert(who, (held + to) as u64), proxies, anns,
                    events.push(Event::AnnouncementDepositMigrated { announcer: who, amount: to })),
                    AccountMigrationResult::Success),
            }
        } else {
            match kind {
                Kind::Proxy => ((reserves2, free, hp, ha, remove_key(proxies, who), anns,
                    events.push(Event::ProxyRemovedDuringMigration { delegator: who, proxy_count: count, refunded: to })),
                    AccountMigrationResult::GracefulRemoval { refunded: to }),
                Kind::Announcement => ((reserves2, free, hp, ha, proxies, remove_key(anns, who),
                    events.push(Event::AnnouncementsRemovedDuringMigration {
                        announcer: who, announcement_count: count, refunded: to })),
                    AccountMigrationResult::GracefulRemoval { refunded: to }),
            }
        }
    }
}

/// Whether `w` fits in what is left of the meter's budget.
pub open spec fn meter_fits(m: WeightMeter, w: Weight) -> bool {
    let t = m.consumed.ref_time + w.ref_time;
    let p = m.consumed.proof_size + w.proof_size;
    t <= u64::MAX && p <= u64::MAX && t <= m.limit.ref_time && p <= m.limit.proof_size
}

/// The meter after consuming `w` (when it fits).
pub open spec fn meter_after(m: WeightMeter, w: Weight) -> WeightMeter {
    WeightMeter {
        consumed: Weight {
            ref_time: (m.consumed.ref_time + w.ref_time) as u64,
            proof_size: (m.consumed.proof_size + w.proof_size) as u64,
        },
        ..m
    }
}

/// A batch of the stage of `kind` from entry `i` on: each account in turn, while the
/// meter has room for `w`, is migrated (a removed account's successor takes its place);
/// the result is the view, the meter, and where to resume.
pub open spec fn spec_batch(v: MigrationView, kind: Kind, i: nat, m: WeightMeter, w: Weight)
    -> (MigrationView, WeightMeter, MigrationCursor)
    decreases view_seq(v, kind).len() - i,
{
    let s = view_seq(v, kind);
    if i >= s.len() {
        (v, m, after_stage(kind))
    } else if !meter_fits(m, w) {
        (v, m, resume_at(kind, s[i as int].0))
    } else {
        let e = s[i as int];
        let (v2, res) = spec_migrate_account(v, kind, e.0, e.1.0, e.1.1);
        proof {
            assert(has_key(s, e.0));
            if !(res is Success) {
                assert(view_seq(v2, kind) == remove_key(s, e.0));
            }
        }
        if res is Success {
            spec_batch(v2, kind, i + 1, meter_after(m, w), w)
        } else {
            spec_batch(v2, kind, i, meter_after(m, w), w)
        }
    }
}

/// A view with one more event.
pub open spec fn view_with_event(v: MigrationView, e: Event) -> MigrationView {
    (v.0, v.1, v.2, v.3, v.4, v.5, v.6.push(e))
}

/// One step of the migration from `cursor` with meter `m`, an account weighing `w`.
pub open spec fn spec_step(v: MigrationView, cursor: Option<MigrationCursor>, m: WeightMeter, w: Weight)
    -> (MigrationView, WeightMeter, Result<Option<MigrationCursor>, SteppedMigrationError>) {
    if any_lt(m.remaining_spec(), w) {
        (v, m, Err(SteppedMigrationError::InsufficientWeight { required: w }))
    } else {
        let (v0, cur) = match cursor {
            Some(c) => (v, c),
            None => (view_with_event(v, Event::MigrationStarted), MigrationCursor::Proxies { last_key: None }),
        };
        match cur {
            MigrationCursor::Proxies { last_key } => {
                let (v1, m1, next) = spec_batch(v0, Kind::Proxy, batch_start(v0.4, last_key), m, w);
                (v1, m1, Ok(Some(next)))
            },
            MigrationCursor::Announcements { last_key } => {
                let (v1, m1, next) = spec_batch(v0, Kind::Announcement, batch_start(v0.5, last_key), m, w);
                if next == MigrationCursor::Complete {
                    (view_with_event(v1, Event::MigrationCompleted), m1, Ok(None))
                } else {
                    (v1, m1, Ok(Some(next)))
                }
            },
            MigrationCursor::Complete => (view_with_event(v0, Event::MigrationCompleted), m, Ok(None)),
        }
    }
}

/// Where a batch after account `last_key` starts: after that account, at the start when
/// there is none, at the end when it is gone.
pub open spec fn batch_start(s: Seq<(u64, (u32, u64))>, last_key: Option<u64>) -> nat {
    match last_key {
        None => 0,
        Some(k) => if has_key(s, k) { (key_index(s, k) + 1) as nat } else { s.len() },
    }
}

/// In entries with distinct keys, the position of a key is where it stands.
pub proof fn lemma_key_index(s: Seq<(u64, (u32, u64))>, i: int)
    requires
        crate::store::keys_distinct(s),
        0 <= i < s.len(),
    ensures
        key_index(s, s[i].0) == i,
        has_key(s, s[i].0),
{
    assert(has_key(s, s[i].0));
}

/// The cursor that resumes a stage of `kind` after account `who`.
pub open spec fn resume_at(kind: Kind, who: u64) -> MigrationCursor {
    match kind {
        Kind::Proxy => MigrationCursor::Proxies { last_key: Some(who) },
        Kind::Announcement => MigrationCursor::Announcements { last_key: Some(who) },
    }
}

/// The cursor after the stage of `kind` is done.
pub open spec fn after_stage(kind: Kind) -> MigrationCursor {
    match kind {
        Kind::Proxy => MigrationCursor::Announcements { last_key: None },
        Kind::Announcement => MigrationCursor::Complete,
    }
}

impl MigrationState {
    fn entry_at(&self, kind: Kind, i: usize) -> (r: (u64, (u32, u64)))
        requires
            i < self.seq_of(kind).len(),
        ensures
            r == self.seq_of(kind)[i as int],
    {
        match kind {
            Kind::Proxy => self.proxies.entries[i],
            Kind::Announcement => self.announcements.entries[i],
        }
    }

    fn len_of(&self, kind: Kind) -> (r: usize)
        ensures
            r == self.seq_of(kind).len(),
    {
        match kind {
            Kind::Proxy => self.proxies.entries.len(),
            Kind::Announcement => self.announcements.entries.len(),
        }
    }

    fn find_in(&self, kind: Kind, k: u64) -> (r: Option<usize>)
        requires
            self.wf(),
        ensures
            r matches Some(i) ==> i < self.seq_of(kind).len() && self.seq_of(kind)[i as int].0 == k,
            r is None ==> !has_key(self.seq_of(kind), k),
    {
        match kind {
            Kind::Proxy => self.proxies.find(k),
            Kind::Announcement => self.announcements.find(k),
        }
    }

    /// Migrate the accounts of `kind` after `last_key` (from the first when none), as
    /// long as `meter` has room for each: returns where to resume (the account that did
    /// not fit), or the next stage when all were seen.
    pub fn process_batch(&mut self, kind: Kind, last_key: Option<u64>, meter: &mut WeightMeter) -> (r: MigrationCursor)
        requires
            old(self).wf(),
        ensures
            final(self).wf(),
            final(self).db == old(self).db,
            r == after_stage(kind) || exists|who: u64| r == resume_at(kind, who)
                && #[trigger] final(self).entries_of(kind).dom().contains(who),
            forall|w: u64| #[trigger] final(self).entries_of(kind).dom().contains(w) ==> old(self).entries_of(kind).dom().contains(w),
            kind == Kind::Proxy ==> final(self).announcements == old(self).announcements,
            kind == Kind::Announcement ==> final(self).proxies == old(self).proxies,
            final(meter).limit == old(meter).limit,
            (final(self).view_of(), *final(meter), r) == spec_batch(old(self).view_of(), kind,
                batch_start(old(self).seq_of(kind), last_key), *old(meter), old(self).weight_per_account_spec()),
    {
        let w = self.weight_per_account();
        let n = self.len_of(kind);
        let mut i: usize = match last_key {
            None => 0,
            Some(k) => match self.find_in(kind, k) {
                Some(j) => {
                    proof {
                        lemma_key_index(self.seq_of(kind), j as int);
                    }
                    if j < n { j + 1 } else { n }
                },
                None => n,
            },
        };
        let ghost goal = spec_batch(old(self).view_of(), kind, batch_start(old(self).seq_of(kind), last_key),
            *old(meter), old(self).weight_per_account_spec());
        assert(i as nat == batch_start(old(self).seq_of(kind), last_key));
        while i < self.len_of(kind)
            invariant
                self.wf(),
                self.db == old(self).db,
                w == self.weight_per_account_spec(),
                w == old(self).weight_per_account_spec(),
                goal == spec_batch(self.view_of(), kind, i as nat, *meter, w),
                goal == spec_batch(old(self).view_of(), kind, batch_start(old(self).seq_of(kind), last_key),
                    *old(meter), old(self).weight_per_account_spec()),
                i <= self.seq_of(kind).len(),
                forall|x: u64| #[trigger] self.entries_of(kind).dom().contains(x) ==> old(self).entries_of(kind).dom().contains(x),
                kind == Kind::Proxy ==> self.announcements == old(self).announcements,
                kind == Kind::Announcement ==> self.proxies == old(self).proxies,
                meter.limit == old(meter).limit,
            decreases self.seq_of(kind).len() - i,
        {
            let (who, (count, deposit)) = self.entry_at(kind, i);
            proof {
                assert(has_key(self.seq_of(kind), who));
                match kind {
                    Kind::Proxy => {
                        assert(self.proxies.view_map().dom().contains(who));
                    },
                    Kind::Announcement => {
                        assert(self.announcements.view_map().dom().contains(who));
                    },
                }
            }
            let ghost m0 = *meter;
            if meter.try_consume(w).is_err() {
                let c = match kind {
                    Kind::Proxy => MigrationCursor::Proxies { last_key: Some(who) },
                    Kind::Announcement => MigrationCursor::Announcements { last_key: Some(who) },
                };
                assert(c == resume_at(kind, who) && self.entries_of(kind).dom().contains(who));
                proof {
                    assert(*meter == m0);
                    assert(!meter_fits(m0, w));
                    assert(view_seq(self.view_of(), kind)[i as int].0 == who);
                    assert(goal == (self.view_of(), *meter, c));
                }
                return c;
            }
            let ghost before = *self;
            match self.migrate_account(kind, who, count, deposit) {
                AccountMigrationResult::Success => {
                    i = i + 1;
                },
                AccountMigrationResult::GracefulRemoval { .. } => {},
            }
            assert forall|x: u64| #[trigger] self.entries_of(kind).dom().contains(x) implies old(self).entries_of(kind).dom().contains(x) by {
                assert(before.entries_of(kind).dom().contains(x));
            }
        }
        match kind {
            Kind::Proxy => MigrationCursor::Announcements { last_key: None },
            Kind::Announcement => MigrationCursor::Complete,
        }
    }

    /// One step of the migration: refused without room for one account; otherwise it
    /// starts (announcing it) when there is no cursor, runs a batch of the current stage,
    /// and announces completion after the last.  Returns the cursor to resume from, or
    /// none when done.
    pub fn step(&mut self, cursor: Option<MigrationCursor>, meter: &mut WeightMeter)
        -> (r: Result<Option<MigrationCursor>, SteppedMigrationError>)
        requires
            old(self).wf(),
        ensures
            final(self).wf(),
            final(self).db == old(self).db,
            (final(self).view_of(), *final(meter), r) == spec_step(old(self).view_of(), cursor, *old(meter),
                old(self).weight_per_account_spec()),
            ({
                let required = old(self).weight_per_account_spec();
                &&& any_lt(old(meter).remaining_spec(), required) ==> r == Err::<Option<MigrationCursor>, SteppedMigrationError>(
                    SteppedMigrationError::InsufficientWeight { required })
                    && final(self).events@ == old(self).events@
                &&& !any_lt(old(meter).remaining_spec(), required) ==> r is Ok
                &&& cursor == Some(MigrationCursor::Complete) && !any_lt(old(meter).remaining_spec(), required)
                    ==> r == Ok::<Option<MigrationCursor>, SteppedMigrationError>(None)
                        && final(self).events@ == old(self).events@.push(Event::MigrationCompleted)
                &&& r matches Ok(Some(c)) ==> c !is Complete
            }),
    {
        let required = self.weight_per_account();
        let remaining = meter.remaining();
        if remaining.ref_time < required.ref_time || remaining.proof_size < required.proof_size {
            return Err(SteppedMigrationError::InsufficientWeight { required });
        }
        let current = match cursor {
            Some(c) => c,
            None => {
                self.events.push(Event::MigrationStarted);
                MigrationCursor::Proxies { last_key: None }
            },
        };
        match current {
            MigrationCursor::Proxies { last_key } => {
                let next = self.process_batch(Kind::Proxy, last_key, meter);
                Ok(Some(next))
            },
            MigrationCursor::Announcements { last_key } => {
                let next = self.process_batch(Kind::Announcement, last_key, meter);
                match next {
                    MigrationCursor::Complete => {
                        self.events.push(Event::MigrationCompleted);
                        Ok(None)
                    },
                    other => Ok(Some(other)),
                }
            },
            MigrationCursor::Complete => {
                self.events.push(Event::MigrationCompleted);
                Ok(None)
            },
        }
    }

    /// The weight of migrating one account.
    pub open spec fn weight_per_account_spec(&self) -> Weight {
        Weight { ref_time: crate::weights::sat_add(crate::weights::sat_mul(self.db.read, 3),
            crate::weights::sat_mul(self.db.write, 3)), proof_size: 0 }
    }
}


/// The deposits per account before the migration: (proxy deposit, announcement deposit).
pub open spec fn deposits_of(p: Map<u64, (u32, u64)>, a: Map<u64, (u32, u64)>) -> Map<u64, (u64, u64)> {
    Map::new(
        |k: u64| p.dom().contains(k) || a.dom().contains(k),
        |k: u64| (if p.dom().contains(k) { p[k].1 } else { 0 }, if a.dom().contains(k) { a[k].1 } else { 0 }),
    )
}

/// The entry of `who` in a map of entries (none and no deposit when absent).
pub open spec fn entry_or_empty(m: Map<u64, (u32, u64)>, who: u64) -> (u32, u64) {
    if m.dom().contains(who) { m[who] } else { (0, 0) }
}

/// The amount an account's check accounts for: what is held, or what was released.
pub open spec fn accounted_amount(v: AccountVerification) -> int {
    match v {
        AccountVerification::SuccessfulConversion { proxy_held, announcement_held } => proxy_held + announcement_held,
        AccountVerification::GracefulDegradation { released_amount } => released_amount as int,
        AccountVerification::AccountCleanedup { released_amount } => released_amount as int,
    }
}

impl MigrationState {
    /// The check of one account against its deposits before the migration.
    pub open spec fn spec_verify(&self, who: u64, old_proxy_deposit: u64, old_announcement_deposit: u64)
        -> Result<AccountVerification, VerifyError> {
        let (pc, pd) = entry_or_empty(self.proxies.view_map(), who);
        let (ac, ad) = entry_or_empty(self.announcements.view_map(), who);
        let hp = self.held_of(Kind::Proxy, who);
        let ha = self.held_of(Kind::Announcement, who);
        if pc != 0 && ac != 0 {
            if !(pd == old_proxy_deposit && ad == old_announcement_deposit) {
                Err(VerifyError::DepositAmountsChanged)
            } else if !(hp >= pd && ha >= ad) {
                Err(VerifyError::InsufficientHolds)
            } else {
                Ok(AccountVerification::SuccessfulConversion { proxy_held: hp, announcement_held: ha })
            }
        } else if pc != 0 {
            if pd != old_proxy_deposit {
                Err(VerifyError::ProxyDepositChanged)
            } else if hp < pd {
                Err(VerifyError::InsufficientProxyHold)
            } else {
                Ok(AccountVerification::SuccessfulConversion { proxy_held: hp, announcement_held: old_announcement_deposit })
            }
        } else if ac != 0 {
            if ad != old_announcement_deposit {
                Err(VerifyError::AnnouncementDepositChanged)
            } else if ha < ad {
                Err(VerifyError::InsufficientAnnouncementHold)
            } else {
                Ok(AccountVerification::SuccessfulConversion { proxy_held: old_proxy_deposit, announcement_held: ha })
            }
        } else if old_proxy_deposit + old_announcement_deposit == 0 {
            Ok(AccountVerification::AccountCleanedup { released_amount: 0 })
        } else if !(hp == 0 && ha == 0) {
            Err(VerifyError::HoldsWithoutStorage)
        } else {
            Ok(AccountVerification::GracefulDegradation { released_amount: (old_proxy_deposit + old_announcement_deposit) as u64 })
        }
    }

    /// The checks of the accounts in order: the first failure, or the amounts accounted
    /// for and the deposits before, summed.
    pub open spec fn spec_verify_all(&self, s: Seq<(u64, (u64, u64))>) -> Result<(int, int), VerifyError>
        decreases s.len(),
    {
        if s.len() == 0 {
            Ok((0, 0))
        } else {
            match self.spec_verify_all(s.drop_last()) {
                Err(e) => Err(e),
                Ok((acc, orig)) => match self.spec_verify(s.last().0, s.last().1.0, s.last().1.1) {
                    Err(e) => Err(e),
                    Ok(v) => Ok((acc + accounted_amount(v), orig + s.last().1.0 + s.last().1.1)),
                },
            }
        }
    }

    /// The deposits before the upgrade, encoded for the check after it: each account's
    /// proxy and announcement deposits, as a map ordered by account.
    pub fn pre_upgrade(&self) -> (r: Vec<u8>)
        requires
            self.wf(),
            self.proxies.entries@.len() + self.announcements.entries@.len() <= u32::MAX,
        ensures
            decoded_deposits(r@) is Some,
            r@ == encoded_deposits(decoded_deposits(r@)->Some_0),
            keys_distinct(decoded_deposits(r@)->Some_0),
            keys_ascending(decoded_deposits(r@)->Some_0),
            entries_map(decoded_deposits(r@)->Some_0) == deposits_of(self.proxies.view_map(), self.announcements.view_map()),
    {
        let d = self.deposits_before();
        let sorted = collect_sorted(&d.entries);
        proof {
            lemma_sorted_collect_map(d.entries@);
            lemma_sorted_collect_len(d.entries@);
        }
        let r = encode_deposits(&sorted);
        proof {
            lemma_deposits_roundtrip(sorted@);
        }
        r
    }

    /// The deposits before the upgrade, per account.
    fn deposits_before(&self) -> (r: Store<(u64, u64)>)
        requires
            self.wf(),
        ensures
            r.wf(),
            r.view_map() == deposits_of(self.proxies.view_map(), self.announcements.view_map()),
            r.entries@.len() <= self.proxies.entries@.len() + self.announcements.entries@.len(),
    {
        let mut r: Store<(u64, u64)> = Store::new();
        let ghost ps = self.proxies.entries@;
        let ghost an = self.announcements.entries@;
        let mut i: usize = 0;
        assert(entries_map(ps.take(0)) =~= Map::<u64, (u32, u64)>::empty());
        assert(r.view_map() =~= deposits_of(entries_map(ps.take(0)), Map::empty()));
        while i < self.proxies.entries.len()
            invariant
                self.wf(),
                r.wf(),
                ps == self.proxies.entries@,
                i <= ps.len(),
                r.view_map() == deposits_of(entries_map(ps.take(i as int)), Map::empty()),
                r.entries@.len() <= i,
            decreases ps.len() - i,
        {
            let (who, (_, deposit)) = self.proxies.entries[i];
            let ghost m0 = r.view_map();
            r.insert(who, (deposit, 0));
            proof {
                lemma_entries_map_take(ps, i as int);
                assert(r.view_map() =~= deposits_of(entries_map(ps.take(i + 1)), Map::empty()));
            }
            i = i + 1;
        }
        assert(ps.take(ps.len() as int) =~= ps);
        let mut j: usize = 0;
        assert(entries_map(an.take(0)) =~= Map::<u64, (u32, u64)>::empty());
        assert(deposits_of(self.proxies.view_map(), entries_map(an.take(0))) =~= deposits_of(self.proxies.view_map(), Map::empty()));
        while j < self.announcements.entries.len()
            invariant
                self.wf(),
                r.wf(),
                an == self.announcements.entries@,
                j <= an.len(),
                r.view_map() == deposits_of(self.proxies.view_map(), entries_map(an.take(j as int))),
                r.entries@.len() <= ps.len() + j,
                ps == self.proxies.entries@,
            decreases an.len() - j,
        {
            let (who, (_, deposit)) = self.announcements.entries[j];
            match r.get(who) {
                Some((pd, _)) => r.insert(who, (pd, deposit)),
                None => r.insert(who, (0, deposit)),
            }
            proof {
                lemma_entries_map_take(an, j as int);
                assert(r.view_map() =~= deposits_of(self.proxies.view_map(), entries_map(an.take(j + 1))));
            }
            j = j + 1;
        }
        assert(an.take(an.len() as int) =~= an);
        r
    }

    fn entry_or_zero(s: &Store<(u32, u64)>, who: u64) -> (r: (u32, u64))
        requires
            s.wf(),
        ensures
            r == entry_or_empty(s.view_map(), who),
    {
        match s.get(who) {
            Some(e) => e,
            None => (0, 0),
        }
    }

    /// Check one account against its deposits before the migration: an account that
    /// keeps proxies or announcements must keep their deposits and hold at least them;
    /// an account that keeps neither must hold nothing (its deposits were released).
    pub fn verify_account_migration(&self, who: u64, old_proxy_deposit: u64, old_announcement_deposit: u64)
        -> (r: Result<AccountVerification, VerifyError>)
        requires
            self.wf(),
            old_proxy_deposit + old_announcement_deposit <= u64::MAX,
        ensures
            r == self.spec_verify(who, old_proxy_deposit, old_announcement_deposit),
    {
        let (pc, pd) = Self::entry_or_zero(&self.proxies, who);
        let (ac, ad) = Self::entry_or_zero(&self.announcements, who);
        let hp = self.balance_on_hold(Kind::Proxy, who);
        let ha = self.balance_on_hold(Kind::Announcement, who);
        if pc != 0 && ac != 0 {
            if !(pd == old_proxy_deposit && ad == old_announcement_deposit) {
                return Err(VerifyError::DepositAmountsChanged);
            }
            if !(hp >= pd && ha >= ad) {
                return Err(VerifyError::InsufficientHolds);
            }
            return Ok(AccountVerification::SuccessfulConversion { proxy_held: hp, announcement_held: ha });
        }
        if pc != 0 {
            if pd != old_proxy_deposit {
                return Err(VerifyError::ProxyDepositChanged);
            }
            if hp < pd {
                return Err(VerifyError::InsufficientProxyHold);
            }
            return Ok(AccountVerification::SuccessfulConversion { proxy_held: hp, announcement_held: old_announcement_deposit });
        }
        if ac != 0 {
            if ad != old_announcement_deposit {
                return Err(VerifyError::AnnouncementDepositChanged);
            }
            if ha < ad {
                return Err(VerifyError::InsufficientAnnouncementHold);
            }
            return Ok(AccountVerification::SuccessfulConversion { proxy_held: old_proxy_deposit, announcement_held: ha });
        }
        let total = old_proxy_deposit + old_announcement_deposit;
        if total == 0 {
            return Ok(AccountVerification::AccountCleanedup { released_amount: 0 });
        }
        if !(hp == 0 && ha == 0) {
            return Err(VerifyError::HoldsWithoutStorage);
        }
        Ok(AccountVerification::GracefulDegradation { released_amount: total })
    }

    /// The check after the upgrade of the deposits before it, handed over as `state`:
    /// state that does not decode fails; otherwise the decoded entries are collected
    /// into a map ordered by account (a later entry for an account replaces an earlier
    /// one), every account is checked in that order, then that the amounts held or
    /// released add up to the deposits before.
    pub fn post_upgrade(&self, state: &[u8]) -> (r: Result<(), VerifyError>)
        requires
            self.wf(),
            decoded_deposits(state@) matches Some(s) ==> deposits_in_range(sorted_collect(s)),
        ensures
            r == (match decoded_deposits(state@) {
                None => Err(VerifyError::DecodeFailed),
                Some(s) => self.spec_post_upgrade(sorted_collect(s)),
            }),
    {
        match decode_deposits(state) {
            None => Err(VerifyError::DecodeFailed),
            Some(pre) => {
                let deposits = collect_sorted(&pre);
                self.verify_deposits(&deposits)
            },
        }
    }

    /// `post_upgrade` where the collected deposits can be added up (the check's counters
    /// and sums would overflow otherwise); `None` when they cannot.
    pub fn try_post_upgrade(&self, state: &[u8]) -> (r: Option<Result<(), VerifyError>>)
        requires
            self.wf(),
        ensures
            (decoded_deposits(state@) matches Some(s) && !deposits_in_range(sorted_collect(s))) <==> r is None,
            r matches Some(v) ==> v == (match decoded_deposits(state@) {
                None => Err(VerifyError::DecodeFailed),
                Some(s) => self.spec_post_upgrade(sorted_collect(s)),
            }),
    {
        match decode_deposits(state) {
            None => Some(Err(VerifyError::DecodeFailed)),
            Some(pre) => {
                let deposits = collect_sorted(&pre);
                if deposits.len() > 0xFFFF_FFFF {
                    return None;
                }
                let mut i: usize = 0;
                while i < deposits.len()
                    invariant
                        i <= deposits@.len(),
                        deposits@.len() <= u32::MAX,
                        decoded_deposits(state@) == Some(pre@),
                        deposits@ == sorted_collect(pre@),
                        forall|k: int| 0 <= k < i ==> #[trigger] deposits@[k].1.0 + deposits@[k].1.1 <= u64::MAX,
                    decreases deposits@.len() - i,
                {
                    let (_, (p, a)) = deposits[i];
                    if p > u64::MAX - a {
                        assert(deposits@[i as int].1.0 + deposits@[i as int].1.1 > u64::MAX);
                        return None;
                    }
                    i = i + 1;
                }
                Some(self.post_upgrade(state))
            },
        }
    }

    /// What the check after the upgrade gives on the decoded deposits `s`.
    pub open spec fn spec_post_upgrade(&self, s: Seq<(u64, (u64, u64))>) -> Result<(), VerifyError> {
        match self.spec_verify_all(s) {
            Err(e) => Err(e),
            Ok((acc, orig)) => if acc == orig { Ok(()) } else { Err(VerifyError::FundConservationViolated) },
        }
    }

    /// Check every account of `pre` (the deposits before), then that the amounts held
    /// or released add up to the deposits before: no funds were lost or made.
    fn verify_deposits(&self, pre: &Vec<(u64, (u64, u64))>) -> (r: Result<(), VerifyError>)
        requires
            self.wf(),
            deposits_in_range(pre@),
        ensures
            r == self.spec_post_upgrade(pre@),
    {
        let ghost s = pre@;
        let mut accounted: u128 = 0;
        let mut deposited: u128 = 0;
        let mut i: usize = 0;
        while i < pre.len()
            invariant
                self.wf(),
                s == pre@,
                s.len() <= u32::MAX,
                forall|k: int| 0 <= k < s.len() ==> #[trigger] s[k].1.0 + s[k].1.1 <= u64::MAX,
                i <= s.len(),
                self.spec_verify_all(s.take(i as int)) == Ok::<(int, int), VerifyError>((accounted as int, deposited as int)),
                accounted <= i * 0x4_0000_0000_0000_0000u128,
                deposited <= i * 0x4_0000_0000_0000_0000u128,
            decreases s.len() - i,
        {
            let (who, (p, a)) = pre[i];
            proof {
                assert(s.take(i + 1).drop_last() =~= s.take(i as int));
                assert(s.take(i + 1).last() == s[i as int]);
                assert(p + a <= u64::MAX);
            }
            let v = match self.verify_account_migration(who, p, a) {
                Ok(v) => v,
                Err(e) => {
                    proof {
                        lemma_verify_all_prefix_err(*self, s, i as int + 1);
                    }
                    return Err(e);
                },
            };
            let amount: u128 = match v {
                AccountVerification::SuccessfulConversion { proxy_held, announcement_held } => proxy_held as u128 + announcement_held as u128,
                AccountVerification::GracefulDegradation { released_amount } => released_amount as u128,
                AccountVerification::AccountCleanedup { released_amount } => released_amount as u128,
            };
            proof {
                assert(amount <= 0x4_0000_0000_0000_0000u128);
                assert((i + 1) * 0x4_0000_0000_0000_0000u128 == i * 0x4_0000_0000_0000_0000u128 + 0x4_0000_0000_0000_0000u128) by (nonlinear_arith);
                assert(i * 0x4_0000_0000_0000_0000u128 <= 0xFFFF_FFFF * 0x4_0000_0000_0000_0000u128) by (nonlinear_arith)
                    requires i <= 0xFFFF_FFFFusize;
            }
            accounted = accounted + amount;
            deposited = deposited + p as u128 + a as u128;
            i = i + 1;
        }
        assert(s.take(s.len() as int) =~= s);
        if accounted == deposited {
            Ok(())
        } else {
            Err(VerifyError::FundConservationViolated)
        }
    }
}

/// Deposits whose check can be added up: at most `u32::MAX` accounts (the check counts
/// them in `u32`), each with deposits whose sum fits in `u64`.
pub open spec fn deposits_in_range(s: Seq<(u64, (u64, u64))>) -> bool {
    &&& s.len() <= u32::MAX
    &&& forall|i: int| 0 <= i < s.len() ==> #[trigger] s[i].1.0 + s[i].1.1 <= u64::MAX
}

/// The check after the upgrade reads the state written before it as written: deposits
/// in ascending account order (as `pre_upgrade` writes them) are checked as they are,
/// one account after the other.
pub proof fn lemma_post_upgrade_reads_back(st: MigrationState, s: Seq<(u64, (u64, u64))>)
    requires
        keys_ascending(s),
    ensures
        st.spec_post_upgrade(sorted_collect(s)) == st.spec_post_upgrade(s),
{
    crate::store::lemma_sorted_collect_ascending(s);
}

/// A failure in a prefix is the failure of the whole.
pub proof fn lemma_verify_all_prefix_err(st: MigrationState, s: Seq<(u64, (u64, u64))>, n: int)
    requires
        0 <= n <= s.len(),
        st.spec_verify_all(s.take(n)) is Err,
    ensures
        st.spec_verify_all(s) == st.spec_verify_all(s.take(n)),
    decreases s.len() - n,
{
    if n < s.len() {
        assert(s.take(n + 1).drop_last() =~= s.take(n));
        lemma_verify_all_prefix_err(st, s, n + 1);
    } else {
        assert(s.take(n) =~= s);
    }
}

} // verus!
