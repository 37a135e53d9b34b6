use vote_checker::block::{extract_vote_transactions, invokes_vote_program, matching_votes, votes_from, Block, Transaction};

const INVOKE: &str = "Program Vote111111111111111111111111111111111111111 invoke [1]";

fn tx(signature: &str, first_key: &str, logs: Option<Vec<&str>>) -> Transaction {
    Transaction {
        signatures: vec![signature.to_string()],
        account_keys: vec![first_key.to_string(), "other".to_string()],
        log_messages: logs.map(|l| l.into_iter().map(|s| s.to_string()).collect()),
    }
}

fn sample_block() -> Block {
    Block {
        slot: 77,
        transactions: vec![
            tx("s0", "alice", Some(vec!["Program 11111111111111111111111111111111 invoke [1]"])),
            tx("s1", "bob", Some(vec!["first line", INVOKE, "Program Vote111111111111111111111111111111111111111 success"])),
            tx("s2", "alice", None),
            tx("s3", "alice", Some(vec![INVOKE])),
            tx("s4", "carol", Some(vec![])),
            tx("s5", "bob", Some(vec![INVOKE])),
        ],
    }
}

#[test]
fn vote_transactions_keep_order_and_position() {
    let block = sample_block();
    let votes = extract_vote_transactions(&block);
    let seen: Vec<(usize, &str)> = votes.iter().map(|(i, t)| (*i, t.signatures[0].as_str())).collect();
    assert_eq!(seen, vec![(1, "s1"), (3, "s3"), (5, "s5")]);
}

#[test]
fn filtering_twice_gives_the_same_sequence() {
    let block = sample_block();
    let first = extract_vote_transactions(&block);
    let second = extract_vote_transactions(&block);
    assert_eq!(first.len(), second.len());
    for k in 0..first.len() {
        assert_eq!(first[k].0, second[k].0);
        assert!(std::ptr::eq(first[k].1, second[k].1));
    }
}

#[test]
fn empty_block_has_no_votes() {
    let block = Block { slot: 1, transactions: Vec::new() };
    assert!(extract_vote_transactions(&block).is_empty());
    assert!(matching_votes(&block, &"alice".to_string()).is_empty());
}

#[test]
fn log_line_must_start_with_the_prefix() {
    assert!(invokes_vote_program(&tx("s", "a", Some(vec![INVOKE]))));
    assert!(invokes_vote_program(&tx("s", "a", Some(vec!["Program Vote111111111111111111111111111111111111111 invoke"]))));
    assert!(!invokes_vote_program(&tx("s", "a", Some(vec![" Program Vote111111111111111111111111111111111111111 invoke [1]"]))));
    assert!(!invokes_vote_program(&tx("s", "a", Some(vec!["Program Vote111111111111111111111111111111111111111 success"]))));
    assert!(!invokes_vote_program(&tx("s", "a", Some(vec!["Program Vote111111111111111111111111111111111111111 invok"]))));
    assert!(!invokes_vote_program(&tx("s", "a", Some(vec![]))));
    assert!(!invokes_vote_program(&tx("s", "a", None)));
}

#[test]
fn matches_go_by_the_first_account_key() {
    let block = sample_block();
    let alice = "alice".to_string();
    let bob = "bob".to_string();
    let found: Vec<(usize, &str)> = matching_votes(&block, &alice).iter().map(|(i, t)| (*i, t.signatures[0].as_str())).collect();
    assert_eq!(found, vec![(3, "s3")]);
    let found: Vec<usize> = matching_votes(&block, &bob).iter().map(|(i, _)| *i).collect();
    assert_eq!(found, vec![1, 5]);
    assert!(matching_votes(&block, &"other".to_string()).is_empty());
    assert!(matching_votes(&block, &"carol".to_string()).is_empty());
}

#[test]
fn transaction_without_account_keys_matches_nobody() {
    let bare = Transaction {
        signatures: vec!["s".to_string()],
        account_keys: Vec::new(),
        log_messages: Some(vec![INVOKE.to_string()]),
    };
    assert!(invokes_vote_program(&bare));
    assert!(!votes_from(&bare, &"alice".to_string()));
    assert!(!votes_from(&bare, &String::new()));
}
