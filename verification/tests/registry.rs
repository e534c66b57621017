use brig::registry::ProgressRegistry;
use brig::sync_state::SyncState;

fn state(dataset: &str, src: &str, dst: &str, total: u64, sent: u64) -> SyncState {
    SyncState {
        dataset: dataset.to_string(),
        src: src.to_string(),
        dst: dst.to_string(),
        total_bytes: total,
        sent_bytes: sent,
    }
}

#[test]
fn fresh_state_has_nothing_to_send_and_nothing_sent() {
    assert_eq!(SyncState::new("x", "A", "B"), state("x", "A", "B", 0, 0));
    assert_eq!(SyncState::default(), state("", "", "", 0, 0));
}

#[test]
fn bytes_sent_never_pass_the_total() {
    let mut s = SyncState::new("x", "A", "B");
    s.add_sent(10);
    assert_eq!(s.sent_bytes, 0);
    s.set_total(4096);
    assert_eq!((s.total_bytes, s.sent_bytes), (4096, 0));
    s.add_sent(4000);
    assert_eq!(s.sent_bytes, 4000);
    s.add_sent(96);
    assert_eq!(s.sent_bytes, 4096);
    s.add_sent(1);
    assert_eq!(s.sent_bytes, 4096);
    s.add_sent(u64::MAX);
    assert_eq!(s.sent_bytes, 4096);
    s.set_total(100);
    assert_eq!((s.total_bytes, s.sent_bytes), (100, 100));
}

#[test]
fn bytes_sent_add_up_without_overflow() {
    let mut s = SyncState::new("x", "A", "B");
    s.set_total(u64::MAX);
    s.add_sent(u64::MAX - 1);
    assert_eq!(s.sent_bytes, u64::MAX - 1);
    s.add_sent(5);
    assert_eq!(s.sent_bytes, u64::MAX);
}

#[test]
fn registry_starts_empty() {
    let registry = ProgressRegistry::new();
    assert!(registry.is_empty());
    assert_eq!(registry.len(), 0);
    assert_eq!(registry.snapshot(), Vec::<SyncState>::new());
    assert_eq!(registry.find_by_dataset("x"), None);
    assert!(!registry.has_dataset("x"));
}

#[test]
fn registry_keeps_entries_in_order() {
    let mut registry = ProgressRegistry::new();
    assert!(registry.insert(SyncState::new("x", "A", "B")));
    assert!(registry.insert(SyncState::new("x", "A", "C")));
    assert!(registry.insert(SyncState::new("y", "B", "A")));
    assert_eq!(registry.len(), 3);
    assert!(!registry.is_empty());
    assert_eq!(
        registry.snapshot(),
        vec![state("x", "A", "B", 0, 0), state("x", "A", "C", 0, 0), state("y", "B", "A", 0, 0)]
    );
}

#[test]
fn registry_refuses_a_second_entry_for_a_dataset_and_replica() {
    let mut registry = ProgressRegistry::new();
    assert!(registry.insert(SyncState::new("x", "A", "B")));
    assert!(!registry.insert(SyncState::new("x", "A", "B")));
    assert!(!registry.insert(SyncState::new("x", "C", "B")));
    assert_eq!(registry.snapshot(), vec![state("x", "A", "B", 0, 0)]);
}

#[test]
fn registry_refuses_an_entry_that_has_sent_more_than_its_total() {
    let mut registry = ProgressRegistry::new();
    assert!(!registry.insert(state("x", "A", "B", 10, 11)));
    assert!(registry.is_empty());
    assert!(registry.insert(state("x", "A", "B", 10, 10)));
}

#[test]
fn registry_finds_the_first_entry_of_a_dataset() {
    let mut registry = ProgressRegistry::new();
    registry.insert(SyncState::new("x", "A", "B"));
    registry.insert(SyncState::new("x", "A", "C"));
    assert_eq!(registry.find_by_dataset("x"), Some(state("x", "A", "B", 0, 0)));
    assert_eq!(registry.find_by_dataset("y"), None);
    assert!(registry.has_dataset("x"));
    assert!(!registry.has_dataset("y"));
}

#[test]
fn registry_removes_the_first_entry_of_a_dataset() {
    let mut registry = ProgressRegistry::new();
    registry.insert(SyncState::new("x", "A", "B"));
    registry.insert(SyncState::new("y", "A", "B"));
    registry.insert(SyncState::new("x", "A", "C"));
    assert!(registry.remove_by_dataset("x"));
    assert_eq!(registry.snapshot(), vec![state("y", "A", "B", 0, 0), state("x", "A", "C", 0, 0)]);
    assert!(registry.remove_by_dataset("x"));
    assert!(!registry.remove_by_dataset("x"));
    assert_eq!(registry.snapshot(), vec![state("y", "A", "B", 0, 0)]);
}

#[test]
fn registry_removes_the_entry_of_a_dataset_and_replica() {
    let mut registry = ProgressRegistry::new();
    registry.insert(SyncState::new("x", "A", "B"));
    registry.insert(SyncState::new("x", "A", "C"));
    assert!(registry.remove("x", "C"));
    assert!(!registry.remove("x", "C"));
    assert!(!registry.remove("y", "B"));
    assert_eq!(registry.snapshot(), vec![state("x", "A", "B", 0, 0)]);
}

#[test]
fn registry_counts_bytes_for_one_entry_only() {
    let mut registry = ProgressRegistry::new();
    registry.insert(SyncState::new("x", "A", "B"));
    registry.insert(SyncState::new("x", "A", "C"));
    registry.set_total("x", "C", 4096);
    registry.add_sent("x", "C", 1000);
    registry.add_sent("x", "C", 24);
    registry.add_sent("x", "B", 5);
    registry.set_total("y", "C", 9);
    registry.add_sent("y", "C", 9);
    assert_eq!(registry.snapshot(), vec![state("x", "A", "B", 0, 0), state("x", "A", "C", 4096, 1024)]);
    registry.add_sent("x", "C", 1_000_000);
    assert_eq!(registry.find_by_dataset("x"), Some(state("x", "A", "B", 0, 0)));
    assert_eq!(registry.snapshot()[1], state("x", "A", "C", 4096, 4096));
}

#[test]
fn registry_snapshot_never_shows_more_sent_than_total() {
    let mut registry = ProgressRegistry::new();
    registry.insert(SyncState::new("x", "A", "B"));
    registry.insert(state("y", "A", "B", 7, 7));
    registry.add_sent("x", "B", 99);
    registry.set_total("y", "B", 3);
    for entry in registry.snapshot() {
        assert!(entry.sent_bytes <= entry.total_bytes);
    }
}
