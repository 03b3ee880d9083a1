//! Optimistic project funding: the records of spends, votes and voting rounds, and the
//! interfaces through which referenda are submitted and votes cast.

use crate::store::Store;
use vstd::prelude::*;

verus! {

/// Whether a spend was claimed.
#[derive(Clone, Copy, Debug, PartialEq, Eq, Structural)]
pub enum SpendState {
    Unclaimed,
    Completed,
    Failed,
}

/// A project whitelisted for reward distribution.
#[derive(Clone, Copy, Debug, PartialEq, Eq, Structural)]
pub struct ProjectInfo {
    /// The account that will receive the payment.
    pub project_id: u64,
    /// The block at which the project was submitted.
    pub submission_block: u64,
    /// The amount locked and paid for the project.
    pub amount: u128,
}

/// A spend owed to a project.
#[derive(Clone, Copy, Debug, PartialEq, Eq, Structural)]
pub struct SpendInfo {
    pub amount: u128,
    /// The block from which the spend can be claimed.
    pub valid_from: u64,
    pub whitelisted_project: ProjectInfo,
    pub claimed: bool,
    /// The block after which the claim expires.
    pub expire: u64,
}

/// How long a vote's funds stay locked.
#[derive(Clone, Copy, Debug, PartialEq, Eq, Structural)]
pub enum Conviction {
    Unlocked,
    Locked1x,
    Locked2x,
    Locked3x,
    Locked4x,
    Locked5x,
    Locked6x,
}

/// A voting round: its number, its blocks and its vote totals.
#[derive(Clone, Copy, Debug, PartialEq, Eq, Structural)]
pub struct VotingRoundInfo {
    pub round_number: u32,
    pub round_starting_block: u64,
    pub round_ending_block: u64,
    pub total_positive_votes_amount: u128,
    pub total_negative_votes_amount: u128,
}

/// A vote on a project.
#[derive(Clone, Copy, Debug, PartialEq, Eq, Structural)]
pub struct VoteInfo {
    /// The amount staked on the vote.
    pub amount: u128,
    /// The round the vote was cast in.
    pub round: VotingRoundInfo,
    /// Whether the vote is to fund.
    pub is_fund: bool,
    pub conviction: Conviction,
    pub funds_unlock_block: u64,
}

/// Events of the project funding.
#[derive(Clone, Copy, Debug, PartialEq, Eq, Structural)]
pub enum Event {
    VotingRoundStarted { when: u64, round_number: u32 },
}

/// The conviction as its multiplier index (none is zero).
pub fn conviction_index(c: Conviction) -> (r: u8)
    ensures
        r == (match c {
            Conviction::Unlocked => 0u8,
            Conviction::Locked1x => 1u8,
            Conviction::Locked2x => 2u8,
            Conviction::Locked3x => 3u8,
            Conviction::Locked4x => 4u8,
            Conviction::Locked5x => 5u8,
            Conviction::Locked6x => 6u8,
        }),
{
    match c {
        Conviction::Unlocked => 0,
        Conviction::Locked1x => 1,
        Conviction::Locked2x => 2,
        Conviction::Locked3x => 3,
        Conviction::Locked4x => 4,
        Conviction::Locked5x => 5,
        Conviction::Locked6x => 6,
    }
}

/// The spends, the voting rounds and the round counter.
pub struct Pallet {
    /// Project => spend.
    pub spends: Store<SpendInfo>,
    /// Round number => round.
    pub voting_rounds: Store<VotingRoundInfo>,
    pub voting_round_number: u32,
    /// Blocks a spend can be claimed for.
    pub claiming_period: u64,
    /// Blocks a voting round lasts.
    pub voting_period: u64,
    pub events: Vec<Event>,
}

impl Pallet {
    pub open spec fn wf(&self) -> bool {
        self.spends.wf() && self.voting_rounds.wf()
    }

    /// No spends, no rounds.
    pub fn new(claiming_period: u64, voting_period: u64) -> (r: Self)
        ensures
            r.wf(),
            r.spends.view_map() == Map::<u64, SpendInfo>::empty(),
            r.voting_rounds.view_map() == Map::<u64, VotingRoundInfo>::empty(),
            r.voting_round_number == 0,
            r.claiming_period == claiming_period,
            r.voting_period == voting_period,
            r.events@.len() == 0,
    {
        Pallet {
            spends: Store::new(),
            voting_rounds: Store::new(),
            voting_round_number: 0,
            claiming_period,
            voting_period,
            events: Vec::new(),
        }
    }
}

impl SpendInfo {
    /// The spend of a whitelisted project, claimable from `now` for the claiming period;
    /// it is recorded under the project.
    pub fn new(opf: &mut Pallet, whitelisted: &ProjectInfo, now: u64) -> (r: Self)
        requires
            old(opf).wf(),
        ensures
            final(opf).wf(),
            r == (SpendInfo {
                amount: whitelisted.amount,
                valid_from: now,
                whitelisted_project: *whitelisted,
                claimed: false,
                expire: if now + old(opf).claiming_period > u64::MAX { u64::MAX } else { (now + old(opf).claiming_period) as u64 },
            }),
            final(opf).spends.view_map() == old(opf).spends.view_map().insert(whitelisted.project_id, r),
            final(opf).voting_rounds == old(opf).voting_rounds,
            final(opf).voting_round_number == old(opf).voting_round_number,
            final(opf).claiming_period == old(opf).claiming_period,
            final(opf).voting_period == old(opf).voting_period,
            final(opf).events@ == old(opf).events@,
    {
        let expire = match now.checked_add(opf.claiming_period) {
            Some(e) => e,
            None => u64::MAX,
        };
        let spend = SpendInfo { amount: whitelisted.amount, valid_from: now, whitelisted_project: *whitelisted, claimed: false, expire };
        opf.spends.insert(whitelisted.project_id, spend);
        spend
    }
}

impl VoteInfo {
    /// The vote's funds unlock when its round ends.
    pub fn funds_unlock(&mut self)
        ensures
            *final(self) == (VoteInfo { funds_unlock_block: old(self).round.round_ending_block, ..*old(self) }),
    {
        let _conviction_coeff = conviction_index(self.conviction);
        self.funds_unlock_block = self.round.round_ending_block;
    }

    /// The placeholder vote: nothing staked, against, without conviction, in round zero
    /// (which must exist).
    pub fn default_vote(opf: &Pallet) -> (r: Self)
        requires
            opf.wf(),
            opf.voting_rounds.view_map().dom().contains(0),
        ensures
            r == (VoteInfo {
                amount: 0,
                round: opf.voting_rounds.view_map()[0],
                is_fund: false,
                conviction: Conviction::Unlocked,
                funds_unlock_block: opf.voting_rounds.view_map()[0].round_ending_block,
            }),
    {
        let round = match opf.voting_rounds.get(0) {
            Some(r) => r,
            None => VotingRoundInfo {
                round_number: 0,
                round_starting_block: 0,
                round_ending_block: 0,
                total_positive_votes_amount: 0,
                total_negative_votes_amount: 0,
            },
        };
        VoteInfo { amount: 0, round, is_fund: false, conviction: Conviction::Unlocked, funds_unlock_block: round.round_ending_block }
    }
}

impl VotingRoundInfo {
    /// Start the next voting round at `now`: it ends one voting period later, the round
    /// counter moves on, and the round is recorded and announced.
    pub fn new(opf: &mut Pallet, now: u64) -> (r: Self)
        requires
            old(opf).wf(),
            now + old(opf).voting_period <= u64::MAX,
            old(opf).voting_round_number < u32::MAX,
        ensures
            final(opf).wf(),
            r == (VotingRoundInfo {
                round_number: old(opf).voting_round_number,
                round_starting_block: now,
                round_ending_block: (now + old(opf).voting_period) as u64,
                total_positive_votes_amount: 0,
                total_negative_votes_amount: 0,
            }),
            final(opf).voting_round_number == old(opf).voting_round_number + 1,
            final(opf).voting_rounds.view_map() == old(opf).voting_rounds.view_map().insert(r.round_number as u64, r),
            final(opf).events@ == old(opf).events@.push(Event::VotingRoundStarted { when: now, round_number: r.round_number }),
            final(opf).spends == old(opf).spends,
            final(opf).claiming_period == old(opf).claiming_period,
            final(opf).voting_period == old(opf).voting_period,
    {
        let round_ending_block = now + opf.voting_period;
        let round_number = opf.voting_round_number;
        opf.voting_round_number = round_number + 1;
        opf.events.push(Event::VotingRoundStarted { when: now, round_number });
        let info = VotingRoundInfo {
            round_number,
            round_starting_block: now,
            round_ending_block,
            total_positive_votes_amount: 0,
            total_negative_votes_amount: 0,
        };
        opf.voting_rounds.insert(round_number as u64, info);
        info
    }
}

/// Submits referenda and reads them back.
pub trait ReferendumTrait {
    /// Submit `proposal` (by hash) from `origin`, to be enacted at `enactment_moment`;
    /// returns the referendum count afterwards.
    fn submit_proposal(&mut self, origin: u64, proposal: u64, proposal_origin: u64, enactment_moment: u64) -> u32;

    /// The status of a referendum (by its track's encoding), if it exists.
    fn get_referendum_info(&self, index: u32) -> Option<u64>;
}

/// Casts and removes conviction votes.
pub trait ConvictionVotingTrait {
    /// Vote on referendum `ref_index`.
    fn try_vote(&mut self, ref_index: u32, vote: u128) -> Result<(), ()>;

    /// Remove the vote on referendum `ref_index`.
    fn try_remove_vote(&mut self, ref_index: u32) -> Result<(), ()>;
}

} // verus!
