//! The leader schedule: the epoch that a slot lies in, and the expansion of
//! an epoch's schedule into a table from absolute slot to leader identity.

use vstd::prelude::*;
use std::collections::HashMap;

verus! {

broadcast use vstd::std_specs::hash::group_hash_axioms;

/// The parameters of the chain's epoch schedule.
#[derive(Clone, Copy, Debug, PartialEq, Eq, Structural)]
pub struct EpochParams {
    /// The number of slots of an epoch after the warm-up.
    pub slots_per_epoch: u64,
    /// How many slots before an epoch its leader schedule is computed.
    pub leader_schedule_slot_offset: u64,
    /// Whether epochs start short and grow.
    pub warmup: bool,
    /// The first epoch after the warm-up.
    pub first_normal_epoch: u64,
    /// The first slot after the warm-up.
    pub first_normal_slot: u64,
}

/// The slots of one leader, as offsets from the first slot of the epoch.
#[derive(Clone, Debug)]
pub struct LeaderSlots {
    pub identity: String,
    pub offsets: Vec<usize>,
}

/// The epoch that holds `slot` under the given schedule.
pub uninterp spec fn epoch_containing(params: EpochParams, slot: u64) -> u64;

/// The first slot of `epoch` under the given schedule.
pub uninterp spec fn first_slot_of_epoch(params: EpochParams, epoch: u64) -> u64;

/// The largest slot within the warm-up whose epoch can be computed.
pub const MAX_WARMUP_SLOT: u64 = 0x7fff_ffff_ffff_ffdf;

/// The slots whose epoch can be computed: every slot after the warm-up, and
/// within the warm-up those up to [`MAX_WARMUP_SLOT`].
pub open spec fn epoch_defined(params: EpochParams, slot: u64) -> bool {
    slot >= params.first_normal_slot || slot <= MAX_WARMUP_SLOT
}

/// Trusted: `EpochSchedule::get_epoch` of `solana_program::epoch_schedule`, on
/// a schedule with the given fields. The result depends on the fields and the
/// slot alone. Within the warm-up the method rounds `slot + 33` up to a power
/// of two, which overflows above [`MAX_WARMUP_SLOT`]: those slots are left out.
#[verifier::external_body]
#[allow(deprecated)]
fn epoch_of(params: &EpochParams, slot: u64) -> (epoch: u64)
    requires
        epoch_defined(*params, slot),
    ensures
        epoch == epoch_containing(*params, slot),
{
    let schedule = solana_program::epoch_schedule::EpochSchedule {
        slots_per_epoch: params.slots_per_epoch,
        leader_schedule_slot_offset: params.leader_schedule_slot_offset,
        warmup: params.warmup,
        first_normal_epoch: params.first_normal_epoch,
        first_normal_slot: params.first_normal_slot,
    };
    schedule.get_epoch(slot)
}

/// Trusted: `EpochSchedule::get_first_slot_in_epoch` of
/// `solana_program::epoch_schedule`, on a schedule with the given fields. The
/// result depends on the fields and the epoch alone; the method saturates and
/// returns on every input.
#[verifier::external_body]
#[allow(deprecated)]
fn first_slot_in_epoch(params: &EpochParams, epoch: u64) -> (slot: u64)
    ensures
        slot == first_slot_of_epoch(*params, epoch),
{
    let schedule = solana_program::epoch_schedule::EpochSchedule {
        slots_per_epoch: params.slots_per_epoch,
        leader_schedule_slot_offset: params.leader_schedule_slot_offset,
        warmup: params.warmup,
        first_normal_epoch: params.first_normal_epoch,
        first_normal_slot: params.first_normal_slot,
    };
    schedule.get_first_slot_in_epoch(epoch)
}

/// The first slot of the epoch that holds `slot`.
pub fn get_epoch_start_slot(params: &EpochParams, slot: u64) -> (start: u64)
    requires
        epoch_defined(*params, slot),
    ensures
        start == first_slot_of_epoch(*params, epoch_containing(*params, slot)),
{
    let epoch = epoch_of(params, slot);
    first_slot_in_epoch(params, epoch)
}

/// Among the first `n` offsets of `entry`, one lands on `slot`.
pub open spec fn assigns_within(entry: LeaderSlots, epoch_start: u64, slot: u64, n: int) -> bool {
    exists|j: int| 0 <= j < n && epoch_start + #[trigger] entry.offsets@[j] == slot
}

/// One of the offsets of `entry` lands on `slot`.
pub open spec fn assigns(entry: LeaderSlots, epoch_start: u64, slot: u64) -> bool {
    assigns_within(entry, epoch_start, slot, entry.offsets@.len() as int)
}

/// The leader of `slot`: the identity of the last entry of the schedule that
/// assigns the slot, if any does.
pub open spec fn leader_at(schedule: Seq<LeaderSlots>, epoch_start: u64, slot: u64) -> Option<
    Seq<char>,
>
    decreases schedule.len(),
{
    if schedule.len() == 0 {
        None
    } else if assigns(schedule.last(), epoch_start, slot) {
        Some(schedule.last().identity@)
    } else {
        leader_at(schedule.drop_last(), epoch_start, slot)
    }
}

/// Every absolute slot of the schedule fits a 64-bit integer.
pub open spec fn all_fit(schedule: Seq<LeaderSlots>, epoch_start: u64) -> bool {
    forall|i: int, j: int|
        0 <= i < schedule.len() && 0 <= j < schedule[i].offsets@.len() ==> epoch_start
            + #[trigger] schedule[i].offsets@[j] <= u64::MAX
}

/// The table holds exactly the slots that the schedule assigns, each with its
/// leader.
pub open spec fn is_expansion(
    table: Map<u64, String>,
    schedule: Seq<LeaderSlots>,
    epoch_start: u64,
) -> bool {
    forall|slot: u64|
        #![trigger table.contains_key(slot)]
        #![trigger leader_at(schedule, epoch_start, slot)]
        {
            &&& table.contains_key(slot) <==> leader_at(schedule, epoch_start, slot) is Some
            &&& table.contains_key(slot) ==> table[slot]@ == leader_at(
                schedule,
                epoch_start,
                slot,
            ).unwrap()
        }
}

/// The leader of `slot` while the entry after `before` is being expanded and
/// its first `n` offsets are in the table.
pub open spec fn leader_during(
    before: Seq<LeaderSlots>,
    entry: LeaderSlots,
    n: int,
    epoch_start: u64,
    slot: u64,
) -> Option<Seq<char>> {
    if assigns_within(entry, epoch_start, slot, n) {
        Some(entry.identity@)
    } else {
        leader_at(before, epoch_start, slot)
    }
}

/// Expands a schedule into the table from absolute slot to leader identity:
/// every offset of every entry becomes the slot `epoch_start + offset`. Where
/// two entries assign one slot the later entry stands. The result is `None`
/// exactly when some slot would not fit a 64-bit integer.
pub fn map_leader_slots(epoch_start: u64, schedule: &Vec<LeaderSlots>) -> (table: Option<
    HashMap<u64, String>,
>)
    ensures
        table is Some <==> all_fit(schedule@, epoch_start),
        table matches Some(t) ==> is_expansion(t@, schedule@, epoch_start),
{
    let mut table: HashMap<u64, String> = HashMap::new();
    let mut i: usize = 0;
    while i < schedule.len()
        invariant
            i <= schedule.len(),
            all_fit(schedule@.take(i as int), epoch_start),
            is_expansion(table@, schedule@.take(i as int), epoch_start),
        decreases schedule.len() - i,
    {
        let entry = &schedule[i];
        let ghost before = schedule@.take(i as int);
        let mut j: usize = 0;
        while j < entry.offsets.len()
            invariant
                j <= entry.offsets.len(),
                i < schedule.len(),
                *entry == schedule@[i as int],
                before == schedule@.take(i as int),
                forall|k: int| 0 <= k < j ==> epoch_start + #[trigger] entry.offsets@[k] <= u64::MAX,
                forall|slot: u64|
                    {
                        &&& table@.contains_key(slot) <==> (#[trigger] leader_during(
                            before,
                            *entry,
                            j as int,
                            epoch_start,
                            slot,
                        )) is Some
                        &&& table@.contains_key(slot) ==> table@[slot]@ == leader_during(
                            before,
                            *entry,
                            j as int,
                            epoch_start,
                            slot,
                        ).unwrap()
                    },
            decreases entry.offsets.len() - j,
        {
            let offset = entry.offsets[j] as u64;
            if offset > u64::MAX - epoch_start {
                assert(!all_fit(schedule@, epoch_start)) by {
                    assert(epoch_start + schedule@[i as int].offsets@[j as int] > u64::MAX);
                }
                return None;
            }
            let slot = epoch_start + offset;
            let ghost old_table = table@;
            let identity = entry.identity.clone();
            table.insert(slot, identity);
            proof {
                assert forall|s: u64|
                    {
                        &&& table@.contains_key(s) <==> (#[trigger] leader_during(
                            before,
                            *entry,
                            j as int + 1,
                            epoch_start,
                            s,
                        )) is Some
                        &&& table@.contains_key(s) ==> table@[s]@ == leader_during(
                            before,
                            *entry,
                            j as int + 1,
                            epoch_start,
                            s,
                        ).unwrap()
                    } by {
                    let was = leader_during(before, *entry, j as int, epoch_start, s);
                    if s == slot {
                        assert(epoch_start + entry.offsets@[j as int] == s);
                    } else if assigns_within(*entry, epoch_start, s, j as int + 1) {
                        let k = choose|k: int|
                            0 <= k < j + 1 && epoch_start + #[trigger] entry.offsets@[k] == s;
                        assert(k < j);
                        assert(assigns_within(*entry, epoch_start, s, j as int));
                    } else {
                        assert(!assigns_within(*entry, epoch_start, s, j as int));
                    }
                }
            }
            j = j + 1;
        }
        proof {
            let after = schedule@.take(i as int + 1);
            assert(after.last() == *entry);
            assert(after.drop_last() == before);
            assert forall|slot: u64|
                leader_during(before, *entry, j as int, epoch_start, slot) == #[trigger] leader_at(
                    after,
                    epoch_start,
                    slot,
                ) by {}
            assert forall|a: int, b: int|
                0 <= a < after.len() && 0 <= b < after[a].offsets@.len() implies epoch_start
                + #[trigger] after[a].offsets@[b] <= u64::MAX by {
                if a < i {
                    assert(after[a] == before[a]);
                }
            }
        }
        i = i + 1;
    }
    proof {
        assert(schedule@.take(i as int) == schedule@);
    }
    Some(table)
}

/// The leader of `slot` by the table, or `unknown` for a slot that the table
/// does not hold.
pub fn leader_of(table: &HashMap<u64, String>, slot: u64) -> (leader: String)
    ensures
        leader@ == if table@.contains_key(slot) {
            table@[slot]@
        } else {
            "unknown"@
        },
{
    match table.get(&slot) {
        Some(identity) => identity.clone(),
        None => "unknown".to_owned(),
    }
}

/// A slot has a leader exactly when some entry of the schedule assigns it,
/// and its leader is then the identity of an entry that assigns it.
pub proof fn leader_exists_iff_assigned(schedule: Seq<LeaderSlots>, epoch_start: u64, slot: u64)
    ensures
        leader_at(schedule, epoch_start, slot) is Some <==> exists|i: int|
            0 <= i < schedule.len() && assigns(#[trigger] schedule[i], epoch_start, slot),
        leader_at(schedule, epoch_start, slot) matches Some(identity) ==> exists|i: int|
            0 <= i < schedule.len() && assigns(#[trigger] schedule[i], epoch_start, slot)
                && schedule[i].identity@ == identity,
    decreases schedule.len(),
{
    if schedule.len() > 0 {
        let front = schedule.drop_last();
        leader_exists_iff_assigned(front, epoch_start, slot);
        if assigns(schedule.last(), epoch_start, slot) {
            assert(assigns(schedule[schedule.len() - 1], epoch_start, slot));
        } else {
            if leader_at(front, epoch_start, slot) is Some {
                let i = choose|i: int|
                    0 <= i < front.len() && assigns(#[trigger] front[i], epoch_start, slot)
                        && front[i].identity@ == leader_at(front, epoch_start, slot).unwrap();
                assert(schedule[i] == front[i]);
            }
            if exists|i: int|
                0 <= i < schedule.len() && assigns(#[trigger] schedule[i], epoch_start, slot) {
                let i = choose|i: int|
                    0 <= i < schedule.len() && assigns(#[trigger] schedule[i], epoch_start, slot);
                assert(i < schedule.len() - 1);
                assert(front[i] == schedule[i]);
            }
        }
    }
}

/// Every slot of an expansion lies at or after the start of the epoch.
pub proof fn expansion_starts_at_epoch(
    table: Map<u64, String>,
    schedule: Seq<LeaderSlots>,
    epoch_start: u64,
    slot: u64,
)
    requires
        is_expansion(table, schedule, epoch_start),
        table.contains_key(slot),
    ensures
        slot >= epoch_start,
{
    leader_exists_iff_assigned(schedule, epoch_start, slot);
    assert(leader_at(schedule, epoch_start, slot) is Some);
}

} // verus!
