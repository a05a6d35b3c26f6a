use routing_core::selection_cooldown::{
    CooldownTable, ResourceTable, SelectionCooldownRegistry, MAX_TRACKED_ACCOUNTS, MAX_TRACKED_CREDENTIALS,
    MAX_TRACKED_QUOTA_GROUPS,
};
use routing_core::{HealthTick, SnapshotVersion};

fn tick(value: u64) -> HealthTick {
    HealthTick::new(value)
}

#[test]
fn cooldown_table_uses_maximum_deadline_exact_expiry_and_recovers_slots_on_write() {
    let mut table = CooldownTable::new(2);
    assert!(!table.record(1, tick(20), tick(10)));
    assert!(!table.record(1, tick(15), tick(10)));
    assert!(table.is_active(1, tick(15)));
    assert!(!table.is_active(1, tick(20)));
    assert!(!table.record(2, tick(30), tick(20)));
    assert!(!table.record(3, tick(30), tick(20)));
    assert!(table.is_active(2, tick(20)));
    assert!(table.is_active(3, tick(20)));
}

#[test]
fn full_cooldown_table_reports_overflow() {
    let mut table = CooldownTable::new(2);
    assert!(!table.record(1, tick(10), tick(1)));
    assert!(!table.record(2, tick(10), tick(1)));
    assert!(table.record(3, tick(20), tick(1)));
}

fn fill_then_overflow(registry: &mut SelectionCooldownRegistry, table: ResourceTable, capacity: usize) {
    for id in 1..=capacity as u64 {
        registry.record_entry(table, id, tick(10), tick(1));
    }
    assert_eq!(registry.overflow_until(), tick(0));
    registry.record_entry(table, capacity as u64 + 1, tick(20), tick(1));
    assert_eq!(registry.overflow_until(), tick(20));
}

#[test]
fn every_resource_table_escalates_full_capacity_to_global_overflow() {
    fill_then_overflow(&mut SelectionCooldownRegistry::new(), ResourceTable::Account, MAX_TRACKED_ACCOUNTS);
    fill_then_overflow(&mut SelectionCooldownRegistry::new(), ResourceTable::Credential, MAX_TRACKED_CREDENTIALS);
    fill_then_overflow(&mut SelectionCooldownRegistry::new(), ResourceTable::QuotaGroup, MAX_TRACKED_QUOTA_GROUPS);
}

#[test]
fn newer_generation_clears_all_resource_tables_and_rejects_rollback() {
    let mut registry = SelectionCooldownRegistry::new();
    assert!(registry.activate_generation(SnapshotVersion::new(1).expect("test first version is non-zero")));
    registry.record_entry(ResourceTable::Account, 1, tick(20), tick(1));
    registry.record_entry(ResourceTable::Credential, 2, tick(20), tick(1));
    registry.record_entry(ResourceTable::QuotaGroup, 3, tick(20), tick(1));
    assert!(registry.table(ResourceTable::Account).is_active(1, tick(1)));

    assert!(registry.activate_generation(SnapshotVersion::new(2).expect("test newer version is non-zero")));
    assert!(!registry.table(ResourceTable::Account).is_active(1, tick(1)));
    assert!(!registry.table(ResourceTable::Credential).is_active(2, tick(1)));
    assert!(!registry.table(ResourceTable::QuotaGroup).is_active(3, tick(1)));
    assert_eq!(registry.overflow_until(), tick(0));
    assert!(!registry.activate_generation(SnapshotVersion::new(1).expect("test older version is non-zero")));
}

#[test]
fn registry_state_stays_within_local_memory_budget() {
    assert!(core::mem::size_of::<SelectionCooldownRegistry>() <= 5 * 1024);
}

#[test]
fn expired_entries_are_reclaimed_and_rollback_is_clamped() {
    let mut table = CooldownTable::new(1);
    assert!(!table.record(5, tick(10), tick(1)));
    assert!(table.record(6, tick(30), tick(9)));
    assert!(!table.record(6, tick(30), tick(10)));
    assert!(!table.is_active(5, tick(0)));
    assert!(table.is_active(6, tick(29)));

    let mut registry = SelectionCooldownRegistry::new();
    assert_eq!(registry.observe_now(tick(50)), tick(50));
    assert_eq!(registry.observe_now(tick(40)), tick(50));
    assert!(registry.activate_generation(SnapshotVersion::new(3).expect("test version is non-zero")));
    assert!(registry.activate_generation(SnapshotVersion::new(3).expect("test version is non-zero")));
}
