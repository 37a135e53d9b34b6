use vote_checker::leader::{get_epoch_start_slot, leader_of, map_leader_slots, EpochParams, LeaderSlots};

fn entry(identity: &str, offsets: &[usize]) -> LeaderSlots {
    LeaderSlots { identity: identity.to_string(), offsets: offsets.to_vec() }
}

#[test]
fn schedule_expands_to_absolute_slots() {
    let schedule = vec![entry("A", &[0, 3]), entry("B", &[1, 2])];
    let table = map_leader_slots(1000, &schedule).unwrap();
    assert_eq!(table.len(), 4);
    assert_eq!(table.get(&1000).map(|s| s.as_str()), Some("A"));
    assert_eq!(table.get(&1003).map(|s| s.as_str()), Some("A"));
    assert_eq!(table.get(&1001).map(|s| s.as_str()), Some("B"));
    assert_eq!(table.get(&1002).map(|s| s.as_str()), Some("B"));
    assert_eq!(leader_of(&table, 1000), "A");
    assert_eq!(leader_of(&table, 1002), "B");
    assert_eq!(leader_of(&table, 1005), "unknown");
    assert_eq!(leader_of(&table, 999), "unknown");
}

#[test]
fn empty_schedule_gives_empty_table() {
    let table = map_leader_slots(5, &Vec::new()).unwrap();
    assert!(table.is_empty());
    assert_eq!(leader_of(&table, 5), "unknown");
}

#[test]
fn later_entry_stands_where_two_assign_one_slot() {
    let schedule = vec![entry("A", &[1, 2]), entry("B", &[2])];
    let table = map_leader_slots(10, &schedule).unwrap();
    assert_eq!(table.len(), 2);
    assert_eq!(leader_of(&table, 11), "A");
    assert_eq!(leader_of(&table, 12), "B");
}

#[test]
fn slot_beyond_the_integers_is_refused() {
    let schedule = vec![entry("A", &[0, 1]), entry("B", &[2])];
    assert!(map_leader_slots(u64::MAX - 1, &schedule).is_none());
    assert!(map_leader_slots(u64::MAX - 2, &schedule).is_some());
}

#[test]
fn epoch_start_without_warmup() {
    let params = EpochParams {
        slots_per_epoch: 432000,
        leader_schedule_slot_offset: 432000,
        warmup: false,
        first_normal_epoch: 0,
        first_normal_slot: 0,
    };
    assert_eq!(get_epoch_start_slot(&params, 1_000_000), 864_000);
    assert_eq!(get_epoch_start_slot(&params, 0), 0);
    assert_eq!(get_epoch_start_slot(&params, 431_999), 0);
    assert_eq!(get_epoch_start_slot(&params, 432_000), 432_000);
}

#[test]
fn epoch_start_within_and_after_warmup() {
    let params = EpochParams {
        slots_per_epoch: 256,
        leader_schedule_slot_offset: 256,
        warmup: true,
        first_normal_epoch: 3,
        first_normal_slot: 224,
    };
    assert_eq!(get_epoch_start_slot(&params, 0), 0);
    assert_eq!(get_epoch_start_slot(&params, 31), 0);
    assert_eq!(get_epoch_start_slot(&params, 32), 32);
    assert_eq!(get_epoch_start_slot(&params, 100), 96);
    assert_eq!(get_epoch_start_slot(&params, 223), 96);
    assert_eq!(get_epoch_start_slot(&params, 224), 224);
    assert_eq!(get_epoch_start_slot(&params, 500), 480);
}
