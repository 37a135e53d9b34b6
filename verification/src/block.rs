//! Blocks and their transactions, and the selection of vote transactions.

use vstd::prelude::*;
use crate::text::{has_prefix, text_starts_with};

verus! {

/// One transaction of a block.
#[derive(Clone, Debug)]
pub struct Transaction {
    /// The signatures; the first identifies the transaction.
    pub signatures: Vec<String>,
    /// The account table of the message.
    pub account_keys: Vec<String>,
    /// The log lines of the metadata, where the transaction has any.
    pub log_messages: Option<Vec<String>>,
}

/// A block: its slot and its transactions in on-chain order.
#[derive(Clone, Debug)]
pub struct Block {
    pub slot: u64,
    pub transactions: Vec<Transaction>,
}

impl Transaction {
    /// A transaction that is present has at least one signature.
    pub open spec fn wf(&self) -> bool {
        self.signatures@.len() > 0
    }
}

impl Block {
    /// Every transaction of the block is well formed.
    pub open spec fn wf(&self) -> bool {
        forall|i: int| 0 <= i < self.transactions@.len() ==> (#[trigger] self.transactions@[i]).wf()
    }
}

/// The start of a log line that reports an invocation of the vote program.
pub open spec fn invoke_prefix() -> Seq<char> {
    "Program Vote111111111111111111111111111111111111111 invoke"@
}

/// Some log line among the first `n` reports an invocation of the vote program.
pub open spec fn some_line_invokes(logs: Seq<String>, n: int) -> bool {
    exists|i: int| 0 <= i < n && has_prefix(#[trigger] logs[i]@, invoke_prefix())
}

/// The transaction invoked the vote program, going by its log lines.
pub open spec fn is_vote_transaction(tx: Transaction) -> bool {
    match tx.log_messages {
        Some(logs) => some_line_invokes(logs@, logs@.len() as int),
        None => false,
    }
}

/// The transaction is a vote transaction whose first account key is `account`.
pub open spec fn is_vote_of(tx: Transaction, account: Seq<char>) -> bool {
    is_vote_transaction(tx) && tx.account_keys@.len() > 0 && tx.account_keys@[0]@ == account
}

/// The positions below `n`, in rising order, of the transactions that
/// `selected` holds of.
pub open spec fn positions(
    transactions: Seq<Transaction>,
    selected: spec_fn(Transaction) -> bool,
    n: int,
) -> Seq<int>
    decreases n,
{
    if n <= 0 {
        Seq::empty()
    } else if selected(transactions[n - 1]) {
        positions(transactions, selected, n - 1).push(n - 1)
    } else {
        positions(transactions, selected, n - 1)
    }
}

/// The positions of the vote transactions of a block.
pub open spec fn vote_positions(transactions: Seq<Transaction>) -> Seq<int> {
    positions(transactions, |tx: Transaction| is_vote_transaction(tx), transactions.len() as int)
}

/// The positions of the vote transactions of a block that come from `account`.
pub open spec fn match_positions(transactions: Seq<Transaction>, account: Seq<char>) -> Seq<int> {
    positions(transactions, |tx: Transaction| is_vote_of(tx, account), transactions.len() as int)
}

/// `picked` pairs each of the given positions, in order, with the transaction
/// that stands there.
pub open spec fn picks(
    picked: Seq<(usize, &Transaction)>,
    transactions: Seq<Transaction>,
    at: Seq<int>,
) -> bool {
    &&& picked.len() == at.len()
    &&& forall|k: int|
        0 <= k < picked.len() ==> {
            &&& (#[trigger] picked[k]).0 == at[k]
            &&& 0 <= at[k] < transactions.len()
            &&& *picked[k].1 == transactions[at[k]]
        }
}

/// Whether the transaction invoked the vote program: some log line starts
/// with the invocation prefix.
pub fn invokes_vote_program(tx: &Transaction) -> (yes: bool)
    ensures
        yes == is_vote_transaction(*tx),
{
    match &tx.log_messages {
        None => false,
        Some(logs) => {
            let mut i: usize = 0;
            while i < logs.len()
                invariant
                    i <= logs.len(),
                    tx.log_messages == Some(*logs),
                    !some_line_invokes(logs@, i as int),
                decreases logs.len() - i,
            {
                if text_starts_with(
                    logs[i].as_str(),
                    "Program Vote111111111111111111111111111111111111111 invoke",
                ) {
                    return true;
                }
                i = i + 1;
            }
            false
        },
    }
}

/// Whether the transaction is a vote transaction from `account`: its first
/// account key is the account.
pub fn votes_from(tx: &Transaction, account: &String) -> (yes: bool)
    ensures
        yes == is_vote_of(*tx, account@),
{
    if tx.account_keys.len() == 0 {
        return false;
    }
    tx.account_keys[0] == *account && invokes_vote_program(tx)
}

/// The vote transactions of a block, each with its position in the block, in
/// block order.
pub fn extract_vote_transactions(block: &Block) -> (votes: Vec<(usize, &Transaction)>)
    ensures
        picks(votes@, block.transactions@, vote_positions(block.transactions@)),
{
    let mut votes: Vec<(usize, &Transaction)> = Vec::new();
    let ghost selected = |tx: Transaction| is_vote_transaction(tx);
    let mut i: usize = 0;
    while i < block.transactions.len()
        invariant
            i <= block.transactions.len(),
            selected == (|tx: Transaction| is_vote_transaction(tx)),
            picks(votes@, block.transactions@, positions(block.transactions@, selected, i as int)),
        decreases block.transactions.len() - i,
    {
        let tx = &block.transactions[i];
        let ghost before = votes@;
        let ghost at = positions(block.transactions@, selected, i as int);
        if invokes_vote_program(tx) {
            votes.push((i, tx));
        }
        proof {
            assert(selected(block.transactions@[i as int]) == is_vote_transaction(*tx));
            let now = positions(block.transactions@, selected, i as int + 1);
            assert(now == if is_vote_transaction(*tx) {
                at.push(i as int)
            } else {
                at
            });
            assert forall|k: int| 0 <= k < votes@.len() implies (#[trigger] votes@[k]).0 == now[k]
                && 0 <= now[k] < block.transactions@.len() && *votes@[k].1
                == block.transactions@[now[k]] by {
                if k < before.len() {
                    assert(votes@[k] == before[k]);
                }
            }
        }
        i = i + 1;
    }
    votes
}

/// The vote transactions of a block that come from `account`, each with its
/// position in the block, in block order.
pub fn matching_votes<'a>(block: &'a Block, account: &String) -> (votes: Vec<
    (usize, &'a Transaction),
>)
    ensures
        picks(votes@, block.transactions@, match_positions(block.transactions@, account@)),
{
    let mut votes: Vec<(usize, &Transaction)> = Vec::new();
    let ghost selected = |tx: Transaction| is_vote_of(tx, account@);
    let mut i: usize = 0;
    while i < block.transactions.len()
        invariant
            i <= block.transactions.len(),
            selected == (|tx: Transaction| is_vote_of(tx, account@)),
            picks(votes@, block.transactions@, positions(block.transactions@, selected, i as int)),
        decreases block.transactions.len() - i,
    {
        let tx = &block.transactions[i];
        let ghost before = votes@;
        let ghost at = positions(block.transactions@, selected, i as int);
        if votes_from(tx, account) {
            votes.push((i, tx));
        }
        proof {
            assert(selected(block.transactions@[i as int]) == is_vote_of(*tx, account@));
            let now = positions(block.transactions@, selected, i as int + 1);
            assert(now == if is_vote_of(*tx, account@) {
                at.push(i as int)
            } else {
                at
            });
            assert forall|k: int| 0 <= k < votes@.len() implies (#[trigger] votes@[k]).0 == now[k]
                && 0 <= now[k] < block.transactions@.len() && *votes@[k].1
                == block.transactions@[now[k]] by {
                if k < before.len() {
                    assert(votes@[k] == before[k]);
                }
            }
        }
        i = i + 1;
    }
    votes
}

/// The selected positions are exactly the positions below `n` of the
/// transactions that `selected` holds of, each once and in rising order.
pub proof fn positions_are_exact(
    transactions: Seq<Transaction>,
    selected: spec_fn(Transaction) -> bool,
    n: int,
)
    requires
        0 <= n <= transactions.len(),
    ensures
        forall|k: int|
            0 <= k < positions(transactions, selected, n).len() ==> {
                let p = #[trigger] positions(transactions, selected, n)[k];
                0 <= p < n && selected(transactions[p])
            },
        forall|j: int, k: int|
            0 <= j < k < positions(transactions, selected, n).len() ==> positions(
                transactions,
                selected,
                n,
            )[j] < positions(transactions, selected, n)[k],
        forall|p: int|
            0 <= p < n && selected(#[trigger] transactions[p]) ==> positions(
                transactions,
                selected,
                n,
            ).contains(p),
    decreases n,
{
    if n > 0 {
        positions_are_exact(transactions, selected, n - 1);
        let before = positions(transactions, selected, n - 1);
        let now = positions(transactions, selected, n);
        assert forall|p: int| 0 <= p < n && selected(#[trigger] transactions[p]) implies now.contains(
            p,
        ) by {
            if p < n - 1 {
                let k = choose|k: int| 0 <= k < before.len() && before[k] == p;
                assert(now[k] == p);
            } else {
                assert(now[now.len() - 1] == p);
            }
        }
    }
}

/// Filtering is stable: two runs of the filter over one block give the same
/// positions with the same transactions, in the same order, and the positions
/// rise along the result.
pub proof fn filter_is_stable(
    block: Block,
    first: Seq<(usize, &Transaction)>,
    second: Seq<(usize, &Transaction)>,
)
    requires
        picks(first, block.transactions@, vote_positions(block.transactions@)),
        picks(second, block.transactions@, vote_positions(block.transactions@)),
    ensures
        first.len() == second.len(),
        forall|k: int|
            0 <= k < first.len() ==> first[k].0 == second[k].0 && *first[k].1 == *second[k].1,
        forall|j: int, k: int| 0 <= j < k < first.len() ==> first[j].0 < first[k].0,
        forall|k: int| 0 <= k < first.len() ==> is_vote_transaction(*first[k].1),
{
    let selected = |tx: Transaction| is_vote_transaction(tx);
    positions_are_exact(block.transactions@, selected, block.transactions@.len() as int);
    let at = vote_positions(block.transactions@);
    assert forall|j: int, k: int| 0 <= j < k < first.len() implies first[j].0 < first[k].0 by {
        assert(first[j].0 == at[j]);
        assert(first[k].0 == at[k]);
    }
    assert forall|k: int| 0 <= k < first.len() implies is_vote_transaction(*first[k].1) by {
        assert(first[k].0 == at[k]);
        assert(selected(block.transactions@[at[k]]));
    }
}

/// Every vote of an account is a vote transaction of the block: each matched
/// position is among the vote positions.
pub proof fn matches_are_votes(transactions: Seq<Transaction>, account: Seq<char>, k: int)
    requires
        0 <= k < match_positions(transactions, account).len(),
    ensures
        vote_positions(transactions).contains(match_positions(transactions, account)[k]),
        is_vote_of(transactions[match_positions(transactions, account)[k]], account),
{
    let of_account = |tx: Transaction| is_vote_of(tx, account);
    let any = |tx: Transaction| is_vote_transaction(tx);
    positions_are_exact(transactions, of_account, transactions.len() as int);
    positions_are_exact(transactions, any, transactions.len() as int);
    let p = positions(transactions, of_account, transactions.len() as int)[k];
    assert(of_account(transactions[p]));
    assert(any(transactions[p]));
}

/// In a well-formed block every picked transaction is well formed: it has a
/// first signature to report.
pub proof fn picked_are_well_formed(block: Block, picked: Seq<(usize, &Transaction)>, at: Seq<int>)
    requires
        block.wf(),
        picks(picked, block.transactions@, at),
    ensures
        forall|k: int| 0 <= k < picked.len() ==> (#[trigger] picked[k]).1.wf(),
{
    assert forall|k: int| 0 <= k < picked.len() implies (#[trigger] picked[k]).1.wf() by {
        assert(picked[k].0 == at[k]);
        assert(0 <= at[k] < block.transactions@.len());
        assert(block.transactions@[at[k]].wf());
        assert(*picked[k].1 == block.transactions@[at[k]]);
    }
}

} // verus!
