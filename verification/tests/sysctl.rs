use tuned_rs::rollback::{Rollback, RollbackKind};
use tuned_rs::tuning::modifiers::{parse_assignment, resolve_numeric_assignment, AssignmentOp};
use tuned_rs::tuning::sysctl::{apply_option, read, sysctl_path, validate_value, write_raw};
use tuned_rs::tuning::TuningError;

#[test]
fn assignment_operators_match_tuned_semantics() {
    let ge = parse_assignment("=>2048");
    assert_eq!(ge.op, AssignmentOp::GreaterEqual);
    assert_eq!(resolve_numeric_assignment(&ge, "4096").unwrap(), None);
    assert_eq!(
        resolve_numeric_assignment(&ge, "1024").unwrap(),
        Some("2048".to_string())
    );
}

#[test]
fn rollback_records_original_sysctl_value() {
    let mut rollback = Rollback::new();
    let write = apply_option(&mut rollback, "vm.swappiness", "10", "60")
        .unwrap()
        .unwrap();
    assert_eq!(write.path, "/proc/sys/vm/swappiness");
    assert_eq!(write.value, "10");

    let restores = rollback.restore_all();
    assert_eq!(restores.len(), 1);
    let action = restores[0].as_ref().unwrap();
    assert_eq!(action.kind, RollbackKind::Sysctl);
    assert_eq!(action.target, "vm.swappiness");
    assert_eq!(action.value.trim(), "60");
    assert_eq!(rollback.len(), 0);
}

#[test]
fn rejects_invalid_sysctl_keys() {
    assert!(sysctl_path("../secret").is_err());
    assert!(sysctl_path("vm.swappiness").is_ok());
}

#[test]
fn sysctl_paths_replace_dots() {
    assert_eq!(
        sysctl_path("net.core.somaxconn").unwrap(),
        "/proc/sys/net/core/somaxconn"
    );
    assert_eq!(sysctl_path(".vm"), Err(TuningError::InvalidSysctlKey));
    assert_eq!(sysctl_path("vm."), Err(TuningError::InvalidSysctlKey));
    assert_eq!(sysctl_path("vm..x"), Err(TuningError::InvalidSysctlKey));
    assert_eq!(sysctl_path(""), Err(TuningError::InvalidSysctlKey));
    assert_eq!(sysctl_path("vm/x"), Err(TuningError::InvalidSysctlKey));
    assert_eq!(
        sysctl_path("net.ipv4.neigh.default.base_reachable_time"),
        Err(TuningError::DeprecatedSysctlOption)
    );
    assert_eq!(
        sysctl_path("net.ipv6.neigh.eth0.retrans_time"),
        Err(TuningError::DeprecatedSysctlOption)
    );
}

#[test]
fn sysctl_values_are_checked() {
    assert_eq!(validate_value(""), Err(TuningError::InvalidSysctlValue));
    assert_eq!(
        validate_value(&"1".repeat(4097)),
        Err(TuningError::InvalidSysctlValue)
    );
    assert_eq!(
        validate_value("1\n2"),
        Err(TuningError::SysctlValueControlChars)
    );
    assert_eq!(validate_value("a\0"), Err(TuningError::SysctlValueControlChars));
    assert!(validate_value("4096 16384 4194304").is_ok());
    assert_eq!(
        write_raw("vm.swappiness", "").unwrap_err(),
        TuningError::InvalidSysctlValue
    );
    assert_eq!(
        write_raw("../x", "1").unwrap_err(),
        TuningError::InvalidSysctlKey
    );
}

#[test]
fn read_trims_the_current_value() {
    assert_eq!(read("vm.swappiness", " 60\n").unwrap(), "60");
    assert_eq!(read("bad key", "60"), Err(TuningError::InvalidSysctlKey));
}

#[test]
fn relative_sysctl_values_keep_larger_current_values() {
    let mut rollback = Rollback::new();
    let kept = apply_option(&mut rollback, "net.core.somaxconn", ">2048", "4096").unwrap();
    assert!(kept.is_none());
    assert_eq!(rollback.len(), 0);
    let raised = apply_option(&mut rollback, "net.core.somaxconn", ">2048", "128")
        .unwrap()
        .unwrap();
    assert_eq!(raised.value, "2048");
    assert_eq!(rollback.len(), 1);
}

#[test]
fn first_recorded_original_is_restored() {
    let mut rollback = Rollback::new();
    apply_option(&mut rollback, "vm.swappiness", "10", "60").unwrap();
    apply_option(&mut rollback, "vm.swappiness", "5", "10").unwrap();
    let restores = rollback.restore_all();
    assert_eq!(restores.len(), 1);
    assert_eq!(restores[0].as_ref().unwrap().value, "60");
}
