//! The generic auction: auctions with a start, an optional end and the best bid,
//! an index of end blocks, and bidding that consults a handler.

use crate::store::Store;
use vstd::prelude::*;

verus! {

/// The state of one auction.
#[derive(Clone, Copy, Debug, PartialEq, Eq)]
pub struct AuctionInfo {
    /// The current bidder and their bid, if any.
    pub bid: Option<(u64, u128)>,
    /// The block at which the auction started.
    pub start: u64,
    /// The block at which the auction ends, if set.
    pub end: Option<u64>,
}

/// A potential change of the end of an auction.
#[derive(Clone, Copy, Debug, PartialEq, Eq, Structural)]
pub enum Change {
    /// Keep the end.
    NoChange,
    /// Set the end to this value.
    NewValue(Option<u64>),
}

/// The answer of a handler to a new bid.
#[derive(Clone, Copy, Debug, PartialEq, Eq, Structural)]
pub struct OnNewBidResult {
    /// Whether the bid is accepted.
    pub accept_bid: bool,
    /// A change of the auction's end.
    pub auction_end_change: Change,
}

/// Receives the events of auctions: new bids and ended auctions.
pub trait AuctionHandler: Sized {
    /// The handler's own invariant.
    spec fn ready(&self) -> bool;

    /// The handler's answer to bid `new_bid` on auction `id` at block `now` over `last_bid`.
    spec fn bid_result(&self, now: u64, id: u64, new_bid: (u64, u128), last_bid: Option<(u64, u128)>) -> OnNewBidResult;

    /// The bids that the handler can judge (beyond them its arithmetic would overflow).
    spec fn bid_ok(&self, now: u64, id: u64, new_bid: (u64, u128)) -> bool;

    /// The winners of auction `id` that the handler can settle.
    spec fn winner_ok(&self, id: u64, winner: Option<(u64, u128)>) -> bool;

    /// What judging bid `new_bid` on auction `id` at block `now` over `last_bid` makes of
    /// the handler: `next`.
    spec fn bid_done(&self, next: Self, now: u64, id: u64, new_bid: (u64, u128), last_bid: Option<(u64, u128)>) -> bool;

    /// A new bid `new_bid` on auction `id` at block `now`, over `last_bid`.
    fn on_new_bid(&mut self, now: u64, id: u64, new_bid: (u64, u128), last_bid: Option<(u64, u128)>) -> (r: OnNewBidResult)
        requires
            old(self).ready(),
            old(self).bid_ok(now, id, new_bid),
        ensures
            final(self).ready(),
            r == old(self).bid_result(now, id, new_bid, last_bid),
            old(self).bid_done(*final(self), now, id, new_bid, last_bid),
            forall|i: u64, w: Option<(u64, u128)>| old(self).winner_ok(i, w) ==> #[trigger] final(self).winner_ok(i, w),
    ;

    /// Auction `id` ended with `winner`, if any.
    fn on_auction_ended(&mut self, id: u64, winner: Option<(u64, u128)>)
        requires
            old(self).ready(),
            old(self).winner_ok(id, winner),
        ensures
            final(self).ready(),
            forall|i: u64, w: Option<(u64, u128)>| i != id && old(self).winner_ok(i, w) ==> #[trigger] final(self).winner_ok(i, w),
    ;
}

/// Events of the auction module.
#[derive(Clone, Copy, Debug, PartialEq, Eq, Structural)]
pub enum Event {
    /// A bid was placed on an auction.
    Bid { auction_id: u64, bidder: u64, amount: u128 },
}

/// The end of an auction after a bid answered with `change`.
pub open spec fn end_after(change: Change, end: Option<u64>) -> Option<u64> {
    match change {
        Change::NewValue(e) => e,
        Change::NoChange => end,
    }
}

/// Errors of the auction module.
#[derive(Clone, Copy, Debug, PartialEq, Eq, Structural)]
pub enum Error {
    AuctionNotExist,
    AuctionNotStarted,
    BidNotAccepted,
    InvalidBidPrice,
    NoAvailableAuctionId,
}

/// The auctions, the next auction id and the index of end blocks.
pub struct Pallet {
    pub auctions: Store<AuctionInfo>,
    pub auctions_index: u64,
    /// Auction id => end block: the entries `(end, id)` of the end-time index.
    pub auction_end_time: Store<u64>,
    pub events: Vec<Event>,
}

/// The end-time index agrees with the auctions' ends.
pub open spec fn end_index_consistent(auctions: Map<u64, AuctionInfo>, ends: Map<u64, u64>) -> bool {
    &&& forall|id: u64| #[trigger] ends.dom().contains(id) ==>
        auctions.dom().contains(id) && auctions[id].end == Some(ends[id])
    &&& forall|id: u64| #[trigger] auctions.dom().contains(id) && auctions[id].end is Some ==>
        ends.dom().contains(id) && ends[id] == auctions[id].end.unwrap()
}

/// The number of entries `(id, end)` of the end-time index that end at `now`.
pub open spec fn count_ending(s: Seq<(u64, u64)>, now: u64) -> nat
    decreases s.len(),
{
    if s.len() == 0 {
        0
    } else {
        count_ending(s.drop_last(), now) + if s.last().1 == now { 1nat } else { 0nat }
    }
}

/// Whether `value` may be bid over the current bid of an auction.
pub open spec fn bid_value_valid(info: AuctionInfo, value: u128) -> bool {
    match info.bid {
        Some(b) => value > b.1,
        None => value != 0,
    }
}

impl Pallet {
    pub open spec fn wf(&self) -> bool {
        &&& self.auctions.wf()
        &&& self.auction_end_time.wf()
        &&& end_index_consistent(self.auctions.view_map(), self.auction_end_time.view_map())
    }

    pub open spec fn auctions_map(&self) -> Map<u64, AuctionInfo> {
        self.auctions.view_map()
    }

    /// No auctions.
    pub fn new() -> (r: Self)
        ensures
            r.wf(),
            r.auctions_map() == Map::<u64, AuctionInfo>::empty(),
            r.auctions_index == 0,
            r.events@.len() == 0,
    {
        let r = Pallet { auctions: Store::new(), auctions_index: 0, auction_end_time: Store::new(), events: Vec::new() };
        r
    }

    /// The auction with id `id`.
    pub fn auctions(&self, id: u64) -> (r: Option<AuctionInfo>)
        requires
            self.wf(),
        ensures
            r == (if self.auctions_map().dom().contains(id) { Some(self.auctions_map()[id]) } else { None::<AuctionInfo> }),
    {
        self.auctions.get(id)
    }

    /// The auction with id `id`.
    pub fn auction_info(&self, id: u64) -> (r: Option<AuctionInfo>)
        requires
            self.wf(),
        ensures
            r == (if self.auctions_map().dom().contains(id) { Some(self.auctions_map()[id]) } else { None::<AuctionInfo> }),
    {
        self.auctions.get(id)
    }

    /// The next auction id.
    pub fn auctions_index(&self) -> (r: u64)
        ensures
            r == self.auctions_index,
    {
        self.auctions_index
    }

    /// Set the end of auction `id` in the index (`None` removes it).
    fn set_end_index(&mut self, id: u64, end: Option<u64>)
        requires
            old(self).auctions.wf(),
            old(self).auction_end_time.wf(),
        ensures
            final(self).auctions == old(self).auctions,
            final(self).auctions_index == old(self).auctions_index,
            final(self).events == old(self).events,
            final(self).auction_end_time.wf(),
            final(self).auction_end_time.view_map() == (match end {
                Some(b) => old(self).auction_end_time.view_map().insert(id, b),
                None => old(self).auction_end_time.view_map().remove(id),
            }),
    {
        match end {
            Some(b) => self.auction_end_time.insert(id, b),
            None => self.auction_end_time.remove(id),
        }
    }

    /// Create an auction starting at `start` and ending at `end`; its id is the
    /// current index, which advances by one.
    pub fn new_auction(&mut self, start: u64, end: Option<u64>) -> (r: Result<u64, Error>)
        requires
            old(self).wf(),
        ensures
            final(self).wf(),
            r is Err <==> old(self).auctions_index == u64::MAX,
            r is Err ==> r == Err::<u64, Error>(Error::NoAvailableAuctionId) && *final(self) == *old(self),
            r matches Ok(id) ==> id == old(self).auctions_index
                && final(self).auctions_index == old(self).auctions_index + 1
                && final(self).auctions_map() == old(self).auctions_map().insert(id, AuctionInfo { bid: None, start, end }),
    {
        if self.auctions_index == u64::MAX {
            return Err(Error::NoAvailableAuctionId);
        }
        let id = self.auctions_index;
        self.auctions_index = id + 1;
        let ghost e0 = self.auction_end_time.view_map();
        self.auctions.insert(id, AuctionInfo { bid: None, start, end });
        self.set_end_index(id, end);
        proof {
            let a = self.auctions_map();
            let e = self.auction_end_time.view_map();
            assert forall|k: u64| #[trigger] e.dom().contains(k) implies a.dom().contains(k) && a[k].end == Some(e[k]) by {
                if k != id {
                    assert(e0.dom().contains(k));
                }
            }
            assert forall|k: u64| #[trigger] a.dom().contains(k) && a[k].end is Some implies
                e.dom().contains(k) && e[k] == a[k].end.unwrap() by {
            }
        }
        Ok(id)
    }

    /// Replace the information of an existing auction.
    pub fn update_auction(&mut self, id: u64, info: AuctionInfo) -> (r: Result<(), Error>)
        requires
            old(self).wf(),
        ensures
            final(self).wf(),
            r is Err <==> !old(self).auctions_map().dom().contains(id),
            r is Err ==> r == Err::<(), Error>(Error::AuctionNotExist) && *final(self) == *old(self),
            r is Ok ==> final(self).auctions_map() == old(self).auctions_map().insert(id, info)
                && final(self).auctions_index == old(self).auctions_index,
    {
        match self.auctions.get(id) {
            None => Err(Error::AuctionNotExist),
            Some(_) => {
                self.auctions.insert(id, info);
                self.set_end_index(id, info.end);
                Ok(())
            },
        }
    }

    /// Remove an auction and its end-time entry.
    pub fn remove_auction(&mut self, id: u64)
        requires
            old(self).wf(),
        ensures
            final(self).wf(),
            final(self).auctions_map() == old(self).auctions_map().remove(id),
            final(self).auctions_index == old(self).auctions_index,
    {
        if let Some(_) = self.auctions.get(id) {
            self.auctions.remove(id);
            self.set_end_index(id, None);
        }
    }

    /// Place bid `value` of `from` on auction `id` at block `now`.  The handler decides
    /// whether the bid is accepted and may move the end of the auction.
    pub fn bid<H: AuctionHandler>(&mut self, handler: &mut H, now: u64, from: u64, id: u64, value: u128) -> (r: Result<(), Error>)
        requires
            old(self).wf(),
            old(handler).ready(),
            old(handler).bid_ok(now, id, (from, value)),
        ensures
            final(self).wf(),
            final(handler).ready(),
            final(self).auctions_index == old(self).auctions_index,
            !old(self).auctions_map().dom().contains(id) ==> r == Err::<(), Error>(Error::AuctionNotExist)
                && *final(handler) == *old(handler),
            old(self).auctions_map().dom().contains(id) ==> ({
                let info = old(self).auctions_map()[id];
                &&& now < info.start ==> r == Err::<(), Error>(Error::AuctionNotStarted) && *final(handler) == *old(handler)
                &&& now >= info.start && !bid_value_valid(info, value) ==> r == Err::<(), Error>(Error::InvalidBidPrice)
                    && *final(handler) == *old(handler)
                &&& now >= info.start && bid_value_valid(info, value) ==> ({
                    let res = old(handler).bid_result(now, id, (from, value), info.bid);
                    &&& old(handler).bid_done(*final(handler), now, id, (from, value), info.bid)
                    &&& r is Ok <==> res.accept_bid
                    &&& !res.accept_bid ==> r == Err::<(), Error>(Error::BidNotAccepted)
                    &&& r is Ok ==> final(self).auctions_map() == old(self).auctions_map().insert(id,
                        AuctionInfo { bid: Some((from, value)), start: info.start, end: end_after(res.auction_end_change, info.end) })
                })
            }),
            r is Err ==> final(self).auctions_map() == old(self).auctions_map() && final(self).events@ == old(self).events@,
            r is Ok ==> final(self).events@ == old(self).events@.push(Event::Bid { auction_id: id, bidder: from, amount: value }),
    {
        let info = match self.auctions.get(id) {
            None => return Err(Error::AuctionNotExist),
            Some(i) => i,
        };
        if now < info.start {
            return Err(Error::AuctionNotStarted);
        }
        match info.bid {
            Some(b) => {
                if value <= b.1 {
                    return Err(Error::InvalidBidPrice);
                }
            },
            None => {
                if value == 0 {
                    return Err(Error::InvalidBidPrice);
                }
            },
        }
        let bid_result = handler.on_new_bid(now, id, (from, value), info.bid);
        if !bid_result.accept_bid {
            return Err(Error::BidNotAccepted);
        }
        let new_end = match bid_result.auction_end_change {
            Change::NewValue(e) => e,
            Change::NoChange => info.end,
        };
        let new_info = AuctionInfo { bid: Some((from, value)), start: info.start, end: new_end };
        self.auctions.insert(id, new_info);
        self.set_end_index(id, new_end);
        self.events.push(Event::Bid { auction_id: id, bidder: from, amount: value });
        Ok(())
    }

    /// The number of auctions that end at block `now`.
    pub fn count_ending_at(&self, now: u64) -> (r: usize)
        requires
            self.wf(),
        ensures
            r == count_ending(self.auction_end_time.entries@, now),
    {
        let mut n: usize = 0;
        let mut i: usize = 0;
        while i < self.auction_end_time.entries.len()
            invariant
                i <= self.auction_end_time.entries@.len(),
                n == count_ending(self.auction_end_time.entries@.take(i as int), now),
                n <= i,
            decreases self.auction_end_time.entries@.len() - i,
        {
            proof {
                let s = self.auction_end_time.entries@;
                assert(s.take(i + 1).drop_last() =~= s.take(i as int));
            }
            if self.auction_end_time.entries[i].1 == now {
                n = n + 1;
            }
            i = i + 1;
        }
        assert(self.auction_end_time.entries@.take(self.auction_end_time.entries@.len() as int)
            =~= self.auction_end_time.entries@);
        n
    }

    /// End every auction whose end is block `now`: remove it and tell the handler its
    /// winner.  Returns the ids ended.
    pub fn on_finalize<H: AuctionHandler>(&mut self, handler: &mut H, now: u64) -> (r: Vec<u64>)
        requires
            old(self).wf(),
            old(handler).ready(),
            forall|id: u64| #[trigger] old(self).auctions_map().dom().contains(id) ==> old(handler).winner_ok(id, old(self).auctions_map()[id].bid),
        ensures
            final(self).wf(),
            final(handler).ready(),
            final(self).auctions_index == old(self).auctions_index,
            forall|id: u64| #[trigger] final(self).auctions_map().dom().contains(id) ==>
                old(self).auctions_map().dom().contains(id) && final(self).auctions_map()[id] == old(self).auctions_map()[id]
                && old(self).auctions_map()[id].end != Some(now),
            forall|id: u64| #[trigger] old(self).auctions_map().dom().contains(id) && old(self).auctions_map()[id].end != Some(now) ==>
                final(self).auctions_map().dom().contains(id),
            forall|k: int| 0 <= k < r@.len() ==> old(self).auctions_map().dom().contains(#[trigger] r@[k])
                && old(self).auctions_map()[r@[k]].end == Some(now),
    {
        let mut ids: Vec<u64> = Vec::new();
        let mut i: usize = 0;
        while i < self.auction_end_time.entries.len()
            invariant
                self.wf(),
                i <= self.auction_end_time.entries@.len(),
                forall|k: int| 0 <= k < ids@.len() ==> self.auctions_map().dom().contains(#[trigger] ids@[k])
                    && self.auctions_map()[ids@[k]].end == Some(now),
                forall|k: int| 0 <= k < i && #[trigger] self.auction_end_time.entries@[k].1 == now ==>
                    exists|m: int| 0 <= m < ids@.len() && ids@[m] == self.auction_end_time.entries@[k].0,
            decreases self.auction_end_time.entries@.len() - i,
        {
            let (id, b) = self.auction_end_time.entries[i];
            if b == now {
                proof {
                    let s = self.auction_end_time.entries@;
                    assert(crate::store::has_key(s, id));
                    let c = choose|j: int| 0 <= j < s.len() && s[j].0 == id;
                    assert(c == i as int);
                    assert(self.auction_end_time.view_map().dom().contains(id));
                    assert(self.auction_end_time.view_map()[id] == now);
                }
                let ghost ids0 = ids@;
                ids.push(id);
                proof {
                    assert(ids@[ids@.len() - 1] == id);
                    assert forall|k: int| 0 <= k < i + 1 && #[trigger] self.auction_end_time.entries@[k].1 == now implies
                        exists|m: int| 0 <= m < ids@.len() && ids@[m] == self.auction_end_time.entries@[k].0 by {
                        if k < i {
                            assert(self.auction_end_time.entries@[k].1 == now);
                            let m0 = choose|m: int| 0 <= m < ids0.len() && ids0[m] == self.auction_end_time.entries@[k].0;
                            assert(ids@[m0] == ids0[m0]);
                        } else {
                            assert(ids@[ids@.len() - 1] == self.auction_end_time.entries@[k].0);
                        }
                    }
                }
            }
            i = i + 1;
        }
        proof {
            let a = self.auctions_map();
            let e = self.auction_end_time.view_map();
            let s = self.auction_end_time.entries@;
            assert forall|id: u64| a.dom().contains(id) && a[id].end == Some(now) implies
                exists|m: int| 0 <= m < ids@.len() && ids@[m] == id by {
                assert(e.dom().contains(id));
                let c = choose|j: int| 0 <= j < s.len() && s[j].0 == id;
                assert(s[c].1 == e[id]);
                assert(s[c].1 == now);
            }
        }
        let ghost a0 = self.auctions_map();
        let mut j: usize = 0;
        while j < ids.len()
            invariant
                self.wf(),
                handler.ready(),
                forall|id: u64| #[trigger] self.auctions_map().dom().contains(id) ==> handler.winner_ok(id, self.auctions_map()[id].bid),
                self.auctions_index == old(self).auctions_index,
                a0 == old(self).auctions_map(),
                forall|k: int| 0 <= k < ids@.len() ==> a0.dom().contains(#[trigger] ids@[k]) && a0[ids@[k]].end == Some(now),
                forall|id: u64| #[trigger] self.auctions_map().dom().contains(id) ==>
                    a0.dom().contains(id) && self.auctions_map()[id] == a0[id],
                forall|id: u64| #[trigger] a0.dom().contains(id) && a0[id].end != Some(now) ==>
                    self.auctions_map().dom().contains(id),
                forall|id: u64| a0.dom().contains(id) && a0[id].end == Some(now) ==>
                    exists|m: int| 0 <= m < ids@.len() && ids@[m] == id,
                forall|k: int| 0 <= k < j ==> !self.auctions_map().dom().contains(#[trigger] ids@[k]),
                j <= ids@.len(),
            decreases ids@.len() - j,
        {
            let id = ids[j];
            match self.auctions.get(id) {
                Some(info) => {
                    self.remove_auction(id);
                    handler.on_auction_ended(id, info.bid);
                },
                None => {},
            }
            j = j + 1;
        }
        proof {
            let a = self.auctions_map();
            assert forall|id: u64| #[trigger] a.dom().contains(id) implies a0[id].end != Some(now) by {
                if a0[id].end == Some(now) {
                    let m = choose|m: int| 0 <= m < ids@.len() && ids@[m] == id;
                    assert(!a.dom().contains(ids@[m]));
                }
            }
        }
        ids
    }
}

} // verus!
