use tuned_rs::rollback::{rollback_key, restore_entry, Rollback, RollbackError, RollbackKind};

#[test]
fn keys_join_kind_and_target() {
    assert_eq!(rollback_key("sysfs", "/sys/block/sda/queue/scheduler"), "sysfs:/sys/block/sda/queue/scheduler");
}

#[test]
fn restore_entries_split_at_the_first_colon() {
    let a = restore_entry("vm:dirty_ratio", "20").unwrap();
    assert_eq!(a.kind, RollbackKind::Vm);
    assert_eq!(a.target, "dirty_ratio");
    assert_eq!(a.value, "20");
    let b = restore_entry("sysfs:/sys/x:y", "v").unwrap();
    assert_eq!(b.kind, RollbackKind::Sysfs);
    assert_eq!(b.target, "/sys/x:y");
    assert_eq!(restore_entry("nocolon", "v").unwrap_err(), RollbackError::InvalidKey);
    assert_eq!(restore_entry("disk:sda", "v").unwrap_err(), RollbackError::UnknownKind);
}

#[test]
fn record_original_keeps_the_first_value() {
    let mut r = Rollback::new();
    assert!(r.record_original("sysctl:vm.swappiness", "60"));
    assert!(!r.record_original("sysctl:vm.swappiness", "10"));
    assert!(r.record_original("vm:dirty_ratio", "20"));
    assert_eq!(r.len(), 2);
    assert_eq!(
        r.entries(),
        vec![
            ("sysctl:vm.swappiness".to_string(), "60".to_string()),
            ("vm:dirty_ratio".to_string(), "20".to_string())
        ]
    );
    let restores = r.restore_all();
    assert_eq!(restores.len(), 2);
    assert_eq!(restores[0].as_ref().unwrap().value, "60");
    assert!(r.restore_all().is_empty());
}

#[test]
fn from_entries_keeps_the_last_duplicate_and_clear_empties() {
    let mut r = Rollback::from_entries(vec![
        ("a:x".to_string(), "1".to_string()),
        ("a:x".to_string(), "2".to_string()),
    ]);
    assert_eq!(r.len(), 1);
    assert_eq!(r.entries()[0].1, "2");
    r.clear();
    assert_eq!(r.len(), 0);
}
