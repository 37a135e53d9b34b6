#[allow(deprecated)]
use solana_program::vote::instruction::VoteInstruction;
#[allow(deprecated)]
use solana_program::vote::state::Vote;
use std::collections::HashMap;
use vote_checker::block::{extract_vote_transactions, matching_votes, Block, Transaction};
use vote_checker::leader::{map_leader_slots, LeaderSlots};
use vote_checker::retry::{classify_call, Action, RetryState};
use vote_checker::scan::{
    block_failure_record, no_vote_record, pause_between_requests, slot_at, survey_block,
    vote_record, Record, VotedSlot, Walk, MAX_PAUSE_MILLIS, MIN_PAUSE_MILLIS,
};
use vote_checker::json::Json;
use vote_checker::vote::{extract_voted_slot, Extraction};

const VOTE_PROGRAM: &str = "Vote111111111111111111111111111111111111111";
const INVOKE: &str = "Program Vote111111111111111111111111111111111111111 invoke [1]";

fn object(members: Vec<(&str, Json)>) -> Json {
    Json::Object(members.into_iter().map(|(name, value)| (name.to_string(), value)).collect())
}

fn vote_tx(signature: &str, account: &str) -> Transaction {
    Transaction {
        signatures: vec![signature.to_string()],
        account_keys: vec![account.to_string(), VOTE_PROGRAM.to_string()],
        log_messages: Some(vec![INVOKE.to_string()]),
    }
}

#[test]
fn walk_descends_and_stops_at_zero() {
    assert_eq!(slot_at(100, 0), 100);
    assert_eq!(slot_at(100, 1), 99);
    assert_eq!(slot_at(100, 100), 0);
    assert_eq!(slot_at(100, 101), 0);
    assert_eq!(slot_at(0, u64::MAX), 0);
    assert_eq!(slot_at(u64::MAX, 1), u64::MAX - 1);
    let walked: Vec<u64> = (0..=4u64).map(|offset| slot_at(2, offset)).collect();
    assert_eq!(walked, vec![2, 1, 0, 0, 0]);
}

#[test]
fn block_failures_become_records() {
    let missing: Result<Option<Block>, String> = Ok(None);
    let failed: Result<Option<Block>, String> = Err("boom".to_string());
    let present: Result<Option<Block>, String> = Ok(Some(Block { slot: 9, transactions: Vec::new() }));
    match block_failure_record(9, &missing) {
        Some(Record::BlockMissing { slot }) => assert_eq!(slot, 9),
        other => panic!("unexpected {:?}", other),
    }
    match block_failure_record(9, &failed) {
        Some(Record::BlockFailed { slot, message }) => {
            assert_eq!(slot, 9);
            assert_eq!(message, "boom");
        }
        other => panic!("unexpected {:?}", other),
    }
    assert!(block_failure_record(9, &present).is_none());
}

#[test]
fn no_vote_record_names_the_leader() {
    let schedule = vec![LeaderSlots { identity: "A".to_string(), offsets: vec![0, 3] }];
    let table = map_leader_slots(1000, &schedule).unwrap();
    match no_vote_record(1003, 17, &table) {
        Record::NoVote { slot, vote_count, leader } => {
            assert_eq!((slot, vote_count, leader.as_str()), (1003, 17, "A"));
        }
        other => panic!("unexpected {:?}", other),
    }
    match no_vote_record(1005, 0, &HashMap::new()) {
        Record::NoVote { slot, vote_count, leader } => {
            assert_eq!((slot, vote_count, leader.as_str()), (1005, 0, "unknown"));
        }
        other => panic!("unexpected {:?}", other),
    }
}

#[test]
fn vote_record_reports_unknown_and_failure() {
    let tx = vote_tx("SIG9", "me");
    let unknown: Result<Extraction, String> = Ok(Extraction { voted_slot: None, trace: Vec::new() });
    match vote_record(5, &tx, 2, &unknown) {
        Record::Vote { slot, signature, voted, position } => {
            assert_eq!((slot, signature.as_str(), position), (5, "SIG9", 2));
            assert!(matches!(voted, VotedSlot::Unknown));
        }
        other => panic!("unexpected {:?}", other),
    }
    let failed: Result<Extraction, String> = Err("bad gateway".to_string());
    match vote_record(5, &tx, 2, &failed) {
        Record::Vote { voted: VotedSlot::Failed(message), .. } => assert_eq!(message, "bad gateway"),
        other => panic!("unexpected {:?}", other),
    }
}

#[test]
fn pause_lies_within_its_bounds() {
    assert_eq!((MIN_PAUSE_MILLIS, MAX_PAUSE_MILLIS), (3000, 6000));
    for _ in 0..200 {
        let millis = pause_between_requests();
        assert!(MIN_PAUSE_MILLIS <= millis && millis <= MAX_PAUSE_MILLIS);
    }
}

#[test]
fn target_vote_in_block_becomes_report_entry() {
    let block = Block {
        slot: 250,
        transactions: vec![vote_tx("SIG0", "someone-else"), vote_tx("SIG1", "target")],
    };
    assert_eq!(extract_vote_transactions(&block).len(), 2);
    let matches = matching_votes(&block, &"target".to_string());
    assert_eq!(matches.len(), 1);
    let (position, tx) = matches[0];
    let data = bs58::encode(
        bincode::serialize(&VoteInstruction::Vote(Vote::new(vec![10, 11, 12], solana_program::hash::Hash::default()))).unwrap(),
    )
    .into_string();
    let instruction = object(vec![("programIdIndex", Json::Unsigned(1)), ("data", Json::Text(data))]);
    let message = object(vec![
        ("accountKeys", Json::Array(vec![Json::Text("target".to_string()), Json::Text(VOTE_PROGRAM.to_string())])),
        ("instructions", Json::Array(vec![instruction])),
    ]);
    let answer = object(vec![("result", object(vec![("transaction", object(vec![("message", message)]))]))]);
    let result = extract_voted_slot(&answer);
    match vote_record(block.slot, tx, position, &result) {
        Record::Vote { slot, signature, voted, position } => {
            assert_eq!(slot, 250);
            assert_eq!(signature, "SIG1");
            assert!(matches!(voted, VotedSlot::Slot(12)));
            assert_eq!(position, 1);
        }
        other => panic!("unexpected {:?}", other),
    }
}

#[test]
fn throttled_on_every_attempt_yields_a_failed_entry_and_the_scan_goes_on() {
    let block = Block { slot: 8, transactions: vec![vote_tx("SIG1", "target"), vote_tx("SIG2", "target")] };
    let matches = matching_votes(&block, &"target".to_string());
    assert_eq!(matches.len(), 2);
    let throttled = object(vec![("error", object(vec![("code", Json::Unsigned(429))]))]);
    let mut records = Vec::new();
    for (position, tx) in matches {
        let mut state = RetryState::new(3, 5).unwrap();
        let mut calls = 0;
        let mut result = extract_voted_slot(&throttled);
        calls += 1;
        while let Action::Retry { .. } = state.next(classify_call(&result)) {
            result = extract_voted_slot(&throttled);
            calls += 1;
        }
        assert_eq!(calls, 5);
        records.push(vote_record(block.slot, tx, position, &result));
    }
    assert_eq!(records.len(), 2);
    for (k, record) in records.iter().enumerate() {
        match record {
            Record::Vote { voted: VotedSlot::Failed(message), position, .. } => {
                assert_eq!(message, "429");
                assert_eq!(*position, k);
            }
            other => panic!("unexpected {:?}", other),
        }
    }
}

#[test]
fn survey_counts_votes_and_selects_the_account() {
    let plain = Transaction {
        signatures: vec!["SIGX".to_string()],
        account_keys: vec!["target".to_string()],
        log_messages: Some(vec!["Program 11111111111111111111111111111111 invoke [1]".to_string()]),
    };
    let block = Block {
        slot: 1001,
        transactions: vec![
            vote_tx("SIG0", "someone-else"),
            plain,
            vote_tx("SIG1", "target"),
            vote_tx("SIG2", "target"),
        ],
    };
    let schedule = vec![LeaderSlots { identity: "B".to_string(), offsets: vec![1, 2] }];
    let table = map_leader_slots(1000, &schedule).unwrap();
    let survey = survey_block(&block, &"target".to_string(), &table);
    assert_eq!(survey.vote_count, 3);
    assert_eq!(survey.leader, "B");
    let found: Vec<(usize, &str)> =
        survey.matches.iter().map(|(i, t)| (*i, t.signatures[0].as_str())).collect();
    assert_eq!(found, vec![(2, "SIG1"), (3, "SIG2")]);
    let nobody = survey_block(&block, &"nobody".to_string(), &HashMap::new());
    assert_eq!(nobody.vote_count, 3);
    assert_eq!(nobody.leader, "unknown");
    assert!(nobody.matches.is_empty());
}

fn walked(start: u64, distance: u64) -> Vec<u64> {
    let mut walk = Walk::new(start, distance);
    let mut slots = Vec::new();
    while let Some(slot) = walk.next_slot() {
        slots.push(slot);
    }
    assert_eq!(walk.next_slot(), None);
    slots
}

#[test]
fn walk_hands_out_every_slot_once_in_descending_order() {
    assert_eq!(walked(100, 3), vec![100, 99, 98, 97]);
    assert_eq!(walked(100, 0), vec![100]);
    assert_eq!(walked(0, 0), vec![0]);
    assert_eq!(walked(u64::MAX, 1), vec![u64::MAX, u64::MAX - 1]);
}

#[test]
fn walk_stays_at_zero_below_the_chain_start() {
    assert_eq!(walked(2, 4), vec![2, 1, 0, 0, 0]);
    assert_eq!(walked(0, 2), vec![0, 0, 0]);
}

#[test]
fn walk_with_the_largest_distance_does_not_overflow() {
    let mut walk = Walk::new(5, u64::MAX);
    assert_eq!(walk.next_slot(), Some(5));
    assert_eq!(walk.next_slot(), Some(4));
    walk.offset = u64::MAX;
    assert_eq!(walk.next_slot(), Some(0));
    assert_eq!(walk.next_slot(), None);
}
