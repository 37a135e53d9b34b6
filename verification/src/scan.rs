//! The walk over the slot range and the records of the report. The driver
//! that fetches and sleeps lives outside; what it reports and how long it
//! pauses is decided here.

use vstd::prelude::*;
use rand::Rng;
use std::collections::HashMap;
use crate::block::{
    extract_vote_transactions, match_positions, matching_votes, picks, vote_positions, Block,
    Transaction,
};
use crate::leader::leader_of;
use crate::vote::Extraction;

verus! {

/// The shortest pause between two live requests, in milliseconds.
pub const MIN_PAUSE_MILLIS: u64 = 3000;

/// The longest pause between two live requests, in milliseconds.
pub const MAX_PAUSE_MILLIS: u64 = 6000;

/// What is known of the slot that a matched transaction voted for.
#[derive(Clone, Debug)]
pub enum VotedSlot {
    /// The recovered slot.
    Slot(u64),
    /// The transaction was read and gave no slot.
    Unknown,
    /// The detail of the transaction could not be obtained.
    Failed(String),
}

/// One record of the report.
#[derive(Clone, Debug)]
pub enum Record {
    /// No block could be obtained for the slot within the retry budget.
    BlockMissing { slot: u64 },
    /// Fetching the block of the slot failed.
    BlockFailed { slot: u64, message: String },
    /// A vote of the target account in the block of the slot.
    Vote { slot: u64, signature: String, voted: VotedSlot, position: usize },
    /// The block of the slot holds no vote of the target account.
    NoVote { slot: u64, vote_count: usize, leader: String },
}

/// What a block holds for the audit of one account.
#[derive(Clone, Debug)]
pub struct Survey<'a> {
    /// The number of vote transactions in the block.
    pub vote_count: usize,
    /// The leader of the block's slot, `unknown` where the table lacks it.
    pub leader: String,
    /// The votes of the account, each with its position in the block.
    pub matches: Vec<(usize, &'a Transaction)>,
}

/// The leader that the table gives for `slot`, as text.
pub open spec fn leader_text(table: Map<u64, String>, slot: u64) -> Seq<char> {
    if table.contains_key(slot) {
        table[slot]@
    } else {
        "unknown"@
    }
}

/// The slot that lies `offset` below `start`, and slot zero where that would
/// be negative.
pub open spec fn slot_below(start: u64, offset: u64) -> u64 {
    if offset <= start {
        (start - offset) as u64
    } else {
        0
    }
}

/// The walk over the slots from `start` down over `distance` further slots.
#[derive(Clone, Copy, Debug)]
pub struct Walk {
    /// The slot at which the walk starts.
    pub start: u64,
    /// How many slots below the start are scanned too.
    pub distance: u64,
    /// The offset of the next slot, while the walk is not done.
    pub offset: u64,
    /// Every slot has been handed out.
    pub done: bool,
}

impl Walk {
    /// The invariant of the walk: the offset stays within the distance, and
    /// a walk that is done stands at the last offset.
    pub open spec fn wf(&self) -> bool {
        &&& self.offset <= self.distance
        &&& self.done ==> self.offset == self.distance
    }

    /// The number of slots handed out so far.
    pub open spec fn handed_out(&self) -> nat {
        if self.done {
            (self.distance + 1) as nat
        } else {
            self.offset as nat
        }
    }

    /// A walk from `start` over `distance` further slots, none handed out yet.
    pub fn new(start: u64, distance: u64) -> (walk: Walk)
        ensures
            walk.wf(),
            walk.start == start,
            walk.distance == distance,
            walk.handed_out() == 0,
    {
        Walk { start, distance, offset: 0, done: false }
    }

    /// The next slot of the walk: the slot at the next offset, `None` once
    /// `distance + 1` slots have been handed out.
    pub fn next_slot(&mut self) -> (slot: Option<u64>)
        requires
            old(self).wf(),
        ensures
            final(self).wf(),
            final(self).start == old(self).start,
            final(self).distance == old(self).distance,
            slot is None <==> old(self).handed_out() == old(self).distance + 1,
            slot is None ==> *final(self) == *old(self),
            slot is Some ==> slot == Some(
                slot_below(old(self).start, old(self).handed_out() as u64),
            ) && final(self).handed_out() == old(self).handed_out() + 1,
    {
        if self.done {
            return None;
        }
        let slot = slot_at(self.start, self.offset);
        if self.offset == self.distance {
            self.done = true;
        } else {
            self.offset = self.offset + 1;
        }
        Some(slot)
    }
}

/// What the result of an extraction says of the voted slot.
pub open spec fn voted_of(result: Result<Extraction, String>) -> VotedSlot {
    match result {
        Ok(extraction) => match extraction.voted_slot {
            Some(slot) => VotedSlot::Slot(slot),
            None => VotedSlot::Unknown,
        },
        Err(message) => VotedSlot::Failed(message),
    }
}

/// The slot to scan at the given offset from the start slot: the walk
/// descends and stops at slot zero.
pub fn slot_at(start: u64, offset: u64) -> (slot: u64)
    ensures
        slot == slot_below(start, offset),
{
    if offset <= start {
        start - offset
    } else {
        0
    }
}

/// The record for a slot whose block was not obtained, and `None` for a slot
/// whose block is there.
pub fn block_failure_record(slot: u64, fetched: &Result<Option<Block>, String>) -> (record: Option<
    Record,
>)
    ensures
        match *fetched {
            Ok(Some(_)) => record is None,
            Ok(None) => record == Some(Record::BlockMissing { slot }),
            Err(message) => record == Some(Record::BlockFailed { slot, message }),
        },
{
    match fetched {
        Ok(Some(_)) => None,
        Ok(None) => Some(Record::BlockMissing { slot }),
        Err(message) => Some(Record::BlockFailed { slot, message: message.clone() }),
    }
}

/// Surveys a block for one account: counts its vote transactions, looks up
/// the leader of its slot, and selects the votes of the account in block
/// order.
pub fn survey_block<'a>(block: &'a Block, account: &String, table: &HashMap<u64, String>) -> (survey:
    Survey<'a>)
    ensures
        survey.vote_count == vote_positions(block.transactions@).len(),
        survey.leader@ == leader_text(table@, block.slot),
        picks(survey.matches@, block.transactions@, match_positions(block.transactions@, account@)),
{
    let votes = extract_vote_transactions(block);
    let matches = matching_votes(block, account);
    Survey { vote_count: votes.len(), leader: leader_of(table, block.slot), matches }
}

/// The record for a matched vote transaction: its first signature, what its
/// extraction gave, and its position in the block.
pub fn vote_record(
    slot: u64,
    tx: &Transaction,
    position: usize,
    result: &Result<Extraction, String>,
) -> (record: Record)
    requires
        tx.wf(),
    ensures
        record == (Record::Vote {
            slot,
            signature: tx.signatures@[0],
            voted: voted_of(*result),
            position,
        }),
{
    let voted = match result {
        Ok(extraction) => match extraction.voted_slot {
            Some(voted_slot) => VotedSlot::Slot(voted_slot),
            None => VotedSlot::Unknown,
        },
        Err(message) => VotedSlot::Failed(message.clone()),
    };
    Record::Vote { slot, signature: tx.signatures[0].clone(), voted, position }
}

/// The record for a block without a vote of the target account: the number
/// of vote transactions in the block and the leader of the slot, `unknown`
/// where the table does not hold the slot.
pub fn no_vote_record(slot: u64, vote_count: usize, table: &HashMap<u64, String>) -> (record:
    Record)
    ensures
        record matches Record::NoVote { slot: s, vote_count: c, leader } && s == slot && c
            == vote_count && leader@ == leader_text(table@, slot),
{
    Record::NoVote { slot, vote_count, leader: leader_of(table, slot) }
}

/// Trusted: `Rng::random_range` of `rand` on the thread's generator, with an
/// inclusive range. Whatever number is drawn lies within the range; an empty
/// range, on which the method panics, is left out.
#[verifier::external_body]
fn random_between(low: u64, high: u64) -> (value: u64)
    requires
        low <= high,
    ensures
        low <= value <= high,
{
    rand::rng().random_range(low..=high)
}

/// The pause before the next live request, in milliseconds: drawn at random
/// between the two bounds, so that requests do not fall into step.
pub fn pause_between_requests() -> (millis: u64)
    ensures
        MIN_PAUSE_MILLIS <= millis <= MAX_PAUSE_MILLIS,
{
    random_between(MIN_PAUSE_MILLIS, MAX_PAUSE_MILLIS)
}

/// The walk descends: a larger offset never gives a larger slot, no slot lies
/// above the start, and within reach of the start each step goes down by one.
pub proof fn walk_descends(start: u64, offset: u64)
    requires
        offset < u64::MAX,
    ensures
        slot_below(start, offset) <= start,
        slot_below(start, (offset + 1) as u64) <= slot_below(start, offset),
        offset < start ==> slot_below(start, (offset + 1) as u64) == slot_below(start, offset) - 1,
        slot_below(start, 0) == start,
{
}

} // verus!
