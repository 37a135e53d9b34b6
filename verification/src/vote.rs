//! Decoding of vote instructions: from the detail of a transaction to the
//! slot that the validator voted for most recently.

use vstd::prelude::*;
use crate::json::{field_of, items_of, text_of, unsigned_of, Json};

verus! {

/// A voted slot together with the number of votes cast on top of it.
#[derive(Clone, Copy, Debug, PartialEq, Eq, Structural)]
pub struct Lockout {
    pub slot: u64,
    pub confirmation_count: u32,
}

/// What a vote instruction carries, as far as the audit reads it.
#[derive(Clone, Debug)]
pub enum VotePayload {
    /// The legacy variant: the voted slots, oldest first.
    Vote(Vec<u64>),
    /// The newer variant: the lockouts with their explicit counts.
    TowerSync(Vec<Lockout>),
    /// Any other instruction of the vote program.
    Other,
}

/// The mathematical content of a [`VotePayload`].
pub ghost enum PayloadModel {
    Vote(Seq<u64>),
    TowerSync(Seq<Lockout>),
    Other,
}

impl View for VotePayload {
    type V = PayloadModel;

    open spec fn view(&self) -> PayloadModel {
        match self {
            VotePayload::Vote(slots) => PayloadModel::Vote(slots@),
            VotePayload::TowerSync(lockouts) => PayloadModel::TowerSync(lockouts@),
            VotePayload::Other => PayloadModel::Other,
        }
    }
}

/// Why an instruction, or the whole transaction, gave no voted slot.
#[derive(Clone, Copy, Debug, PartialEq, Eq, Structural)]
pub enum DeadEnd {
    /// The response holds no transaction message.
    MissingMessage,
    /// The message holds no instruction list.
    MissingInstructions,
    /// The message holds no account-key table.
    MissingAccountKeys,
    /// An instruction holds no program-id index.
    MissingProgramIdIndex,
    /// A program-id index points outside the account-key table, or at an
    /// entry that is no string.
    MissingProgramId,
    /// A vote-program instruction holds no data.
    MissingData,
    /// The data is not valid base58.
    Base58Failed,
    /// The bytes are no vote instruction.
    DeserializeFailed,
    /// The instruction is neither a vote nor a tower sync.
    NotVoteOrTowerSync,
    /// No instruction of the transaction gave a slot.
    NoMatchingInstruction,
}

/// The recovered slot, if any, and the dead ends met on the way, in order.
#[derive(Clone, Debug)]
pub struct Extraction {
    pub voted_slot: Option<u64>,
    pub trace: Vec<DeadEnd>,
}

/// What one instruction contributes to the scan.
pub ghost enum Step {
    /// The instruction gives this slot: the scan ends.
    Found(u64),
    /// The instruction gives nothing and leaves no record.
    Silent,
    /// The instruction gives nothing, for this reason.
    Dead(DeadEnd),
}

/// The bytes that a base58 text stands for, where it is valid base58.
pub uninterp spec fn base58_decoded(text: Seq<char>) -> Option<Seq<u8>>;

/// The payload that the bytes of a vote instruction deserialize to, where
/// they do.
pub uninterp spec fn deserialized_instruction(bytes: Seq<u8>) -> Option<PayloadModel>;

/// The identifier of the vote program.
pub open spec fn vote_program() -> Seq<char> {
    "Vote111111111111111111111111111111111111111"@
}

/// The implicit confirmation count of the entry at `index` in a vote of
/// `len` slots: the last entry has count 1.
pub open spec fn implicit_confirmation_count(len: nat, index: nat) -> nat
    recommends
        index < len,
{
    (len - index) as nat
}

/// The slot of the first lockout at or after `from` whose count is 1.
pub open spec fn first_confirmed(lockouts: Seq<Lockout>, from: int) -> Option<u64>
    decreases lockouts.len() - from,
{
    if from < 0 || from >= lockouts.len() {
        None
    } else if lockouts[from].confirmation_count == 1 {
        Some(lockouts[from].slot)
    } else {
        first_confirmed(lockouts, from + 1)
    }
}

/// The most recently voted slot that a payload gives: the last slot of a
/// vote, the slot of the first lockout with count 1 of a tower sync.
pub open spec fn recovered(payload: PayloadModel) -> Option<u64> {
    match payload {
        PayloadModel::Vote(slots) => if slots.len() > 0 {
            Some(slots.last())
        } else {
            None
        },
        PayloadModel::TowerSync(lockouts) => first_confirmed(lockouts, 0),
        PayloadModel::Other => None,
    }
}

/// What a deserialized payload contributes to the scan.
pub open spec fn payload_step(payload: PayloadModel) -> Step {
    match payload {
        PayloadModel::Other => Step::Dead(DeadEnd::NotVoteOrTowerSync),
        _ => match recovered(payload) {
            Some(slot) => Step::Found(slot),
            None => Step::Silent,
        },
    }
}

/// What the data of a vote-program instruction contributes to the scan.
pub open spec fn data_step(encoded: Seq<char>) -> Step {
    match base58_decoded(encoded) {
        None => Step::Dead(DeadEnd::Base58Failed),
        Some(bytes) => match deserialized_instruction(bytes) {
            None => Step::Dead(DeadEnd::DeserializeFailed),
            Some(payload) => payload_step(payload),
        },
    }
}

/// The account key that a program-id index resolves to: `None` where the
/// index points outside the table or at an entry that is no text.
pub open spec fn resolved_program(index: u64, account_keys: Seq<Json>) -> Option<Seq<char>> {
    if index < account_keys.len() {
        account_keys[index as int].text()
    } else {
        None
    }
}

/// What one instruction contributes to the scan.
pub open spec fn instruction_step(instruction: Json, account_keys: Seq<Json>) -> Step {
    match unsigned_of(instruction.field("programIdIndex"@)) {
        None => Step::Dead(DeadEnd::MissingProgramIdIndex),
        Some(index) => match resolved_program(index, account_keys) {
            None => Step::Dead(DeadEnd::MissingProgramId),
            Some(program) => if program != vote_program() {
                Step::Silent
            } else {
                match text_of(instruction.field("data"@)) {
                    None => Step::Dead(DeadEnd::MissingData),
                    Some(encoded) => data_step(encoded),
                }
            },
        },
    }
}

/// The result of scanning the instructions from `from` on: the slot of the
/// first instruction that gives one, and the dead ends met before it. Where
/// no instruction gives a slot the trace ends with `NoMatchingInstruction`.
pub open spec fn scan(instructions: Seq<Json>, account_keys: Seq<Json>, from: int) -> (
    Option<u64>,
    Seq<DeadEnd>,
)
    decreases instructions.len() - from,
{
    if from < 0 || from >= instructions.len() {
        (None, seq![DeadEnd::NoMatchingInstruction])
    } else {
        match instruction_step(instructions[from], account_keys) {
            Step::Found(slot) => (Some(slot), Seq::empty()),
            Step::Silent => scan(instructions, account_keys, from + 1),
            Step::Dead(reason) => {
                let rest = scan(instructions, account_keys, from + 1);
                (rest.0, seq![reason] + rest.1)
            },
        }
    }
}

/// The answer carries the error code for throttling: its member `error` has
/// the member `code` with the number 429.
pub open spec fn is_throttled(response: Json) -> bool {
    unsigned_of(field_of(response.field("error"@), "code"@)) == Some(429u64)
}

/// The message of the transaction in an answer: the member `message` of the
/// member `transaction` of the member `result`.
pub open spec fn message_of(response: Json) -> Option<Json> {
    field_of(field_of(response.field("result"@), "transaction"@), "message"@)
}

/// The result of the whole extraction on an answer that is not throttled.
pub open spec fn extraction_of(response: Json) -> (Option<u64>, Seq<DeadEnd>) {
    match message_of(response) {
        None => (None, seq![DeadEnd::MissingMessage]),
        Some(message) => match items_of(message.field("instructions"@)) {
            None => (None, seq![DeadEnd::MissingInstructions]),
            Some(instructions) => match items_of(message.field("accountKeys"@)) {
                None => (None, seq![DeadEnd::MissingAccountKeys]),
                Some(account_keys) => scan(instructions, account_keys, 0),
            },
        },
    }
}

/// The content of an optional payload.
pub open spec fn payload_model(payload: Option<VotePayload>) -> Option<PayloadModel> {
    match payload {
        Some(p) => Some(p@),
        None => None,
    }
}

/// The content of an optional byte vector.
pub open spec fn bytes_model(bytes: Option<Vec<u8>>) -> Option<Seq<u8>> {
    match bytes {
        Some(b) => Some(b@),
        None => None,
    }
}

/// Trusted: `bs58::decode(..).into_vec()` with the default alphabet. The
/// result depends on the text alone; it is `None` where the crate reports an
/// error.
#[verifier::external_body]
fn base58_decode(text: &str) -> (bytes: Option<Vec<u8>>)
    ensures
        bytes_model(bytes) == base58_decoded(text@),
{
    match bs58::decode(text).into_vec() {
        Ok(bytes) => Some(bytes),
        Err(_) => None,
    }
}

/// Trusted: `bincode::deserialize` at the type
/// `solana_program::vote::instruction::VoteInstruction`. The result depends on
/// the bytes alone; it is `None` where bincode reports an error. Of a `Vote`
/// the slots are kept, of a `TowerSync` the slot and the count of each
/// lockout, in order; every other variant becomes `Other`.
#[verifier::external_body]
#[allow(deprecated)]
fn deserialize_instruction(bytes: &[u8]) -> (payload: Option<VotePayload>)
    ensures
        payload_model(payload) == deserialized_instruction(bytes@),
{
    match bincode::deserialize::<solana_program::vote::instruction::VoteInstruction>(bytes) {
        Ok(solana_program::vote::instruction::VoteInstruction::Vote(vote)) => Some(
            VotePayload::Vote(vote.slots),
        ),
        Ok(solana_program::vote::instruction::VoteInstruction::TowerSync(sync)) => Some(
            VotePayload::TowerSync(
                sync.lockouts.iter().map(
                    |l| Lockout { slot: l.slot(), confirmation_count: l.confirmation_count() },
                ).collect(),
            ),
        ),
        Ok(_) => Some(VotePayload::Other),
        Err(_) => None,
    }
}

/// The most recently voted slot that a payload gives.
pub fn recovered_slot(payload: &VotePayload) -> (slot: Option<u64>)
    ensures
        slot == recovered(payload@),
{
    match payload {
        VotePayload::Vote(slots) => {
            if slots.len() > 0 {
                Some(slots[slots.len() - 1])
            } else {
                None
            }
        },
        VotePayload::TowerSync(lockouts) => {
            let mut i: usize = 0;
            while i < lockouts.len()
                invariant
                    i <= lockouts.len(),
                    payload@ == PayloadModel::TowerSync(lockouts@),
                    first_confirmed(lockouts@, 0) == first_confirmed(lockouts@, i as int),
                decreases lockouts.len() - i,
            {
                if lockouts[i].confirmation_count == 1 {
                    return Some(lockouts[i].slot);
                }
                i = i + 1;
            }
            None
        },
        VotePayload::Other => None,
    }
}

/// Decodes the data of a vote-program instruction: base58 text to bytes,
/// bytes to a payload. The error says which of the two steps failed.
pub fn decode_instruction_data(encoded: &str) -> (payload: Result<VotePayload, DeadEnd>)
    ensures
        match payload {
            Ok(p) => base58_decoded(encoded@) is Some && deserialized_instruction(
                base58_decoded(encoded@).unwrap(),
            ) == Some(p@),
            Err(reason) => if base58_decoded(encoded@) is None {
                reason == DeadEnd::Base58Failed
            } else {
                reason == DeadEnd::DeserializeFailed && deserialized_instruction(
                    base58_decoded(encoded@).unwrap(),
                ) is None
            },
        },
{
    match base58_decode(encoded) {
        None => Err(DeadEnd::Base58Failed),
        Some(bytes) => match deserialize_instruction(bytes.as_slice()) {
            None => Err(DeadEnd::DeserializeFailed),
            Some(payload) => Ok(payload),
        },
    }
}

/// Whether an account key names the vote program.
pub fn is_vote_program(key: &str) -> (yes: bool)
    ensures
        yes == (key@ == vote_program()),
{
    let program = "Vote111111111111111111111111111111111111111".to_owned();
    let owned = key.to_owned();
    owned == program
}

/// Whether the answer carries the error code for throttling.
pub fn answer_is_throttled(response: &Json) -> (yes: bool)
    ensures
        yes == is_throttled(*response),
{
    match response.get("error") {
        Some(error) => match error.get("code") {
            Some(code) => match code.as_u64() {
                Some(number) => number == 429,
                None => false,
            },
            None => false,
        },
        None => false,
    }
}

/// The message of the transaction in an answer.
pub fn transaction_message(response: &Json) -> (message: Option<&Json>)
    ensures
        match message {
            Some(found) => message_of(*response) == Some(*found),
            None => message_of(*response) is None,
        },
{
    match response.get("result") {
        Some(result) => match result.get("transaction") {
            Some(transaction) => transaction.get("message"),
            None => None,
        },
        None => None,
    }
}

/// The array that is the member `key` of `value`.
pub fn array_field<'a>(value: &'a Json, key: &str) -> (items: Option<&'a Vec<Json>>)
    ensures
        match items {
            Some(found) => items_of(value.field(key@)) == Some(found@),
            None => items_of(value.field(key@)) is None,
        },
{
    match value.get(key) {
        Some(member) => member.as_array(),
        None => None,
    }
}

/// The slot that a transaction voted for, read from the answer to a request
/// for the detail of the transaction. A throttled answer is an error with the
/// text `429`. Otherwise the instructions are scanned in order and the first
/// that gives a slot wins; every dead end on the way is recorded in the trace.
pub fn extract_voted_slot(response: &Json) -> (result: Result<Extraction, String>)
    ensures
        is_throttled(*response) ==> result is Err && result.unwrap_err()@ == "429"@,
        !is_throttled(*response) ==> result is Ok && result.unwrap().voted_slot == extraction_of(
            *response,
        ).0 && result.unwrap().trace@ == extraction_of(*response).1,
{
    if answer_is_throttled(response) {
        return Err("429".to_owned());
    }
    let mut trace: Vec<DeadEnd> = Vec::new();
    let message = match transaction_message(response) {
        Some(message) => message,
        None => {
            trace.push(DeadEnd::MissingMessage);
            return Ok(Extraction { voted_slot: None, trace });
        },
    };
    let instructions = match array_field(message, "instructions") {
        Some(instructions) => instructions,
        None => {
            trace.push(DeadEnd::MissingInstructions);
            return Ok(Extraction { voted_slot: None, trace });
        },
    };
    let account_keys = match array_field(message, "accountKeys") {
        Some(account_keys) => account_keys,
        None => {
            trace.push(DeadEnd::MissingAccountKeys);
            return Ok(Extraction { voted_slot: None, trace });
        },
    };
    let mut i: usize = 0;
    while i < instructions.len()
        invariant
            i <= instructions.len(),
            !is_throttled(*response),
            extraction_of(*response) == scan(instructions@, account_keys@, 0),
            scan(instructions@, account_keys@, 0).0 == scan(instructions@, account_keys@, i as int).0,
            scan(instructions@, account_keys@, 0).1 == trace@ + scan(
                instructions@,
                account_keys@,
                i as int,
            ).1,
        decreases instructions.len() - i,
    {
        let ghost before = trace@;
        let ghost rest = scan(instructions@, account_keys@, i as int + 1);
        let found = scan_instruction(&instructions[i], account_keys, &mut trace);
        proof {
            match instruction_step(instructions@[i as int], account_keys@) {
                Step::Found(_) => {
                    assert(trace@ + Seq::<DeadEnd>::empty() == trace@);
                },
                Step::Silent => {},
                Step::Dead(reason) => {
                    assert(before + (seq![reason] + rest.1) == before.push(reason) + rest.1);
                },
            }
        }
        match found {
            Some(slot) => {
                return Ok(Extraction { voted_slot: Some(slot), trace });
            },
            None => {},
        }
        i = i + 1;
    }
    let ghost before = trace@;
    trace.push(DeadEnd::NoMatchingInstruction);
    proof {
        assert(before + seq![DeadEnd::NoMatchingInstruction] == trace@);
    }
    Ok(Extraction { voted_slot: None, trace })
}

/// What one instruction gives: its slot, or nothing with at most one dead end
/// appended to the trace. An index outside the account-key table is a dead
/// end like any other.
pub fn scan_instruction(instruction: &Json, account_keys: &Vec<Json>, trace: &mut Vec<DeadEnd>) -> (slot:
    Option<u64>)
    ensures
        match instruction_step(*instruction, account_keys@) {
            Step::Found(found) => slot == Some(found) && final(trace)@ == old(trace)@,
            Step::Silent => slot is None && final(trace)@ == old(trace)@,
            Step::Dead(reason) => slot is None && final(trace)@ == old(trace)@.push(reason),
        },
{
    let index = match instruction.get("programIdIndex") {
        Some(member) => member.as_u64(),
        None => None,
    };
    let index = match index {
        Some(index) => index,
        None => {
            trace.push(DeadEnd::MissingProgramIdIndex);
            return None;
        },
    };
    if index >= account_keys.len() as u64 {
        trace.push(DeadEnd::MissingProgramId);
        return None;
    }
    let program = match account_keys[index as usize].as_str() {
        Some(program) => program,
        None => {
            trace.push(DeadEnd::MissingProgramId);
            return None;
        },
    };
    if !is_vote_program(program) {
        return None;
    }
    let encoded = match instruction.get("data") {
        Some(member) => member.as_str(),
        None => None,
    };
    let encoded = match encoded {
        Some(encoded) => encoded,
        None => {
            trace.push(DeadEnd::MissingData);
            return None;
        },
    };
    match decode_instruction_data(encoded) {
        Err(reason) => {
            trace.push(reason);
            None
        },
        Ok(payload) => match payload {
            VotePayload::Other => {
                trace.push(DeadEnd::NotVoteOrTowerSync);
                None
            },
            _ => recovered_slot(&payload),
        },
    }
}

/// A vote with the single slot `slot` gives back exactly that slot.
pub proof fn single_vote_recovers(slot: u64)
    ensures
        recovered(PayloadModel::Vote(seq![slot])) == Some(slot),
{
    assert(seq![slot].last() == slot);
}

/// Within a vote the implicit confirmation counts fall towards the end of
/// the sequence, and the last entry, which is the recovered slot, has count 1.
pub proof fn implicit_counts_decrease(slots: Seq<u64>, i: nat, j: nat)
    requires
        i < j < slots.len(),
    ensures
        implicit_confirmation_count(slots.len(), i) > implicit_confirmation_count(slots.len(), j),
        implicit_confirmation_count(slots.len(), (slots.len() - 1) as nat) == 1,
        recovered(PayloadModel::Vote(slots)) == Some(slots[slots.len() - 1]),
{
}

/// The slot recovered from a tower sync is that of the first lockout whose
/// count is 1, and none is recovered exactly when no lockout has count 1.
pub proof fn first_confirmed_is_least(lockouts: Seq<Lockout>, from: int)
    requires
        0 <= from <= lockouts.len(),
    ensures
        match first_confirmed(lockouts, from) {
            Some(slot) => exists|i: int|
                {
                    &&& from <= i < lockouts.len()
                    &&& (#[trigger] lockouts[i]).confirmation_count == 1
                    &&& lockouts[i].slot == slot
                    &&& forall|j: int| from <= j < i ==> (#[trigger] lockouts[j]).confirmation_count != 1
                },
            None => forall|j: int|
                from <= j < lockouts.len() ==> (#[trigger] lockouts[j]).confirmation_count != 1,
        },
    decreases lockouts.len() - from,
{
    if from < lockouts.len() {
        if lockouts[from].confirmation_count == 1 {
            assert(forall|j: int| from <= j < from ==> (#[trigger] lockouts[j]).confirmation_count != 1);
        } else {
            first_confirmed_is_least(lockouts, from + 1);
            match first_confirmed(lockouts, from + 1) {
                Some(slot) => {
                    let i = choose|i: int|
                        {
                            &&& from + 1 <= i < lockouts.len()
                            &&& (#[trigger] lockouts[i]).confirmation_count == 1
                            &&& lockouts[i].slot == slot
                            &&& forall|j: int|
                                from + 1 <= j < i ==> (#[trigger] lockouts[j]).confirmation_count
                                    != 1
                        };
                    assert forall|j: int| from <= j < i implies (#[trigger] lockouts[j]).confirmation_count
                        != 1 by {}
                },
                None => {
                    assert forall|j: int| from <= j < lockouts.len() implies (
                    #[trigger] lockouts[j]).confirmation_count != 1 by {}
                },
            }
        }
    }
}

/// A scan that gives no slot never ends silently: its trace is not empty and
/// ends with `NoMatchingInstruction`. A scan that gives a slot holds no such
/// entry.
pub proof fn scan_leaves_a_trace(instructions: Seq<Json>, account_keys: Seq<Json>, from: int)
    requires
        0 <= from <= instructions.len(),
    ensures
        scan(instructions, account_keys, from).0 is None ==> scan(
            instructions,
            account_keys,
            from,
        ).1.len() > 0 && scan(instructions, account_keys, from).1.last()
            == DeadEnd::NoMatchingInstruction,
        scan(instructions, account_keys, from).0 is Some ==> !scan(
            instructions,
            account_keys,
            from,
        ).1.contains(DeadEnd::NoMatchingInstruction),
    decreases instructions.len() - from,
{
    if from < instructions.len() {
        scan_leaves_a_trace(instructions, account_keys, from + 1);
        let rest = scan(instructions, account_keys, from + 1);
        match instruction_step(instructions[from], account_keys) {
            Step::Dead(reason) => {
                let whole = seq![reason] + rest.1;
                assert(whole == scan(instructions, account_keys, from).1);
                if rest.0 is None {
                    assert(whole.last() == rest.1.last());
                } else {
                    assert(reason != DeadEnd::NoMatchingInstruction);
                    if whole.contains(DeadEnd::NoMatchingInstruction) {
                        let k = choose|k: int|
                            0 <= k < whole.len() && whole[k] == DeadEnd::NoMatchingInstruction;
                        assert(k > 0);
                        assert(rest.1[k - 1] == DeadEnd::NoMatchingInstruction);
                    }
                }
            },
            _ => {},
        }
    }
}

/// An extraction that gives no slot always says why: its trace is not empty.
pub proof fn no_slot_is_never_silent(response: Json)
    ensures
        extraction_of(response).0 is None ==> extraction_of(response).1.len() > 0,
{
    match message_of(response) {
        Some(message) => match (
            items_of(message.field("instructions"@)),
            items_of(message.field("accountKeys"@)),
        ) {
            (Some(instructions), Some(account_keys)) => {
                scan_leaves_a_trace(instructions, account_keys, 0);
            },
            _ => {},
        },
        None => {},
    }
}

} // verus!
