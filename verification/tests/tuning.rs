use tuned_rs::rollback::{restore_entry, RestoreAction, Rollback, RollbackKind};
use tuned_rs::tuning::acpi::apply_platform_profile;
use tuned_rs::tuning::cpu::{
    apply_epp, apply_governor, cpu_targets, epp_path, is_cpu_node, scaling_governor_path,
    validate_cpu_payload, write_cpu_node,
};
use tuned_rs::tuning::disk::{
    apply_device_option, apply_elevator, apply_options as disk_options, apply_readahead,
    device_option_path, is_tunable_block_device, parse_readahead_kb, resolve_devices,
    write_raw as disk_write_raw, DiskOption,
};
use tuned_rs::tuning::sysfs::{allowed_sysfs_path, write_with_rollback};
use tuned_rs::tuning::vm::{
    apply_option as vm_option, apply_options as vm_options, apply_transparent_hugepage_defrag,
    apply_percent_option, apply_transparent_hugepages, apply_vm_sysctl, percent_bytes, thp_set_on_cmdline,
    total_memory_bytes, vm_path, VmRoute,
};
use tuned_rs::tuning::{restore_write, TuningError};

fn strings(v: &[&str]) -> Vec<String> {
    v.iter().map(|s| s.to_string()).collect()
}

#[test]
fn governor_choice_skips_unknown_governors() {
    assert_eq!(apply_governor("turbo|schedutil|performance"), Some("schedutil".to_string()));
    assert_eq!(apply_governor("turbo"), None);
    assert_eq!(apply_epp("balance_power|power"), Some("balance_power".to_string()));
}

#[test]
fn cpu_nodes_and_paths() {
    assert!(is_cpu_node("cpu0"));
    assert!(is_cpu_node("policy12"));
    assert!(is_cpu_node("cpu"));
    assert!(!is_cpu_node("cpufreq"));
    assert!(!is_cpu_node("cpuidle"));
    assert_eq!(
        scaling_governor_path("policy0", "/sys/devices/system/cpu/cpufreq/policy0"),
        "/sys/devices/system/cpu/cpufreq/policy0/scaling_governor"
    );
    assert_eq!(
        epp_path("cpu3", "/sys/devices/system/cpu/cpu3"),
        "/sys/devices/system/cpu/cpu3/cpufreq/energy_performance_preference"
    );
    let names = strings(&["cpu0", "cpufreq", "policy1", "online"]);
    assert_eq!(
        cpu_targets("/sys/devices/system/cpu", &names, "scaling_governor"),
        strings(&[
            "/sys/devices/system/cpu/cpu0/cpufreq/scaling_governor",
            "/sys/devices/system/cpu/policy1/scaling_governor"
        ])
    );
}

#[test]
fn cpu_payloads_follow_the_allowlists() {
    assert_eq!(
        validate_cpu_payload("/sys/devices/system/cpu/cpu0/cpufreq/scaling_governor", "turbo"),
        Err(TuningError::UnknownGovernor)
    );
    assert_eq!(
        validate_cpu_payload(
            "/sys/devices/system/cpu/cpu0/cpufreq/energy_performance_preference",
            "turbo"
        ),
        Err(TuningError::UnknownEpp)
    );
    assert!(validate_cpu_payload("/sys/devices/system/cpu/cpu0/cpufreq/scaling_governor", "powersave").is_ok());
    let mut rb = Rollback::new();
    let target = "/sys/devices/system/cpu/cpu0/cpufreq/scaling_governor";
    let w = write_cpu_node(&mut rb, target, target, "powersave", "performance").unwrap();
    assert_eq!(w.path, target);
    assert_eq!(w.value, "performance");
    assert_eq!(rb.entries(), vec![(format!("sysfs:{target}"), "powersave".to_string())]);
    assert_eq!(
        write_cpu_node(&mut rb, "/etc/passwd", "/etc/passwd", "x", "performance").unwrap_err(),
        TuningError::NotAllowlisted
    );
}

#[test]
fn sysfs_allowlist() {
    assert!(allowed_sysfs_path("/sys/block/sda/queue/scheduler").is_ok());
    assert!(allowed_sysfs_path("/sys/kernel/mm/transparent_hugepage/enabled").is_ok());
    assert_eq!(allowed_sysfs_path("/proc/sys/vm/swappiness"), Err(TuningError::NotAllowlisted));
    assert_eq!(
        allowed_sysfs_path("/sys/block/../../etc/shadow"),
        Err(TuningError::NotAllowlisted)
    );
    assert_eq!(
        allowed_sysfs_path("/sys/devices/system/cpu/cpu0/../../../../etc/passwd"),
        Err(TuningError::NotAllowlisted)
    );
    assert!(allowed_sysfs_path("/sys/block/sda/queue/..scheduler").is_ok());
    let mut escaped = Rollback::new();
    assert_eq!(
        write_with_rollback(
            &mut escaped,
            "sysfs",
            "/sys/devices/system/cpu/cpu0/cpufreq/scaling_governor",
            "/etc/shadow",
            "x",
            "performance"
        )
        .unwrap_err(),
        TuningError::NotAllowlisted
    );
    assert_eq!(escaped.len(), 0);
    let mut rb = Rollback::new();
    assert_eq!(
        write_with_rollback(&mut rb, "sysfs", "/sys/power/state", "/sys/power/state", "", "mem")
            .unwrap_err(),
        TuningError::NotAllowlisted
    );
    assert_eq!(rb.len(), 0);
}

#[test]
fn vm_routes() {
    assert!(matches!(vm_option("transparent_hugepages", " always "), Ok(VmRoute::Hugepages(v)) if v == "always"));
    assert!(matches!(vm_option("transparent_hugepage", "bogus"), Ok(VmRoute::UnsupportedHugepages(v)) if v == "bogus"));
    assert!(matches!(vm_option("transparent_hugepage.defrag", "defer"), Ok(VmRoute::HugepageDefrag(v)) if v == "defer"));
    assert!(matches!(vm_option("dirty_bytes", "40%"), Ok(VmRoute::Percent(40))));
    assert!(matches!(vm_option("dirty_background_bytes", "5%%"), Ok(VmRoute::Percent(5))));
    assert_eq!(vm_option("dirty_bytes", "x%").unwrap_err(), TuningError::InvalidVmPercentage);
    assert!(matches!(vm_option("dirty_ratio", "40%"), Ok(VmRoute::Sysctl)));
    assert!(matches!(vm_option("swappiness", "10"), Ok(VmRoute::Unsupported)));
    let routes = vm_options(&vec![
        ("dirty_ratio".to_string(), "20".to_string()),
        ("nope".to_string(), "1".to_string()),
    ]);
    assert_eq!(routes.len(), 2);
    assert!(matches!(routes[1], Ok(VmRoute::Unsupported)));
    assert_eq!(vm_path("dirty_ratio").unwrap(), "/proc/sys/vm/dirty_ratio");
    assert_eq!(vm_path("swappiness"), Err(TuningError::UnsupportedVmOption));
}

#[test]
fn vm_writes_record_originals() {
    let mut rb = Rollback::new();
    let w = apply_vm_sysctl(&mut rb, "dirty_ratio", ">30", "20").unwrap();
    assert_eq!(w.path, "/proc/sys/vm/dirty_ratio");
    assert_eq!(w.value, "30");
    assert!(apply_vm_sysctl(&mut rb, "dirty_ratio", ">30", "40").is_none());
    assert!(apply_vm_sysctl(&mut rb, "swappiness", "30", "40").is_none());
    let thp = apply_transparent_hugepages(&mut rb, "/sys/kernel/mm/transparent_hugepage/enabled", "always [madvise] never", "never");
    assert_eq!(thp.value, "never");
    let defrag = apply_transparent_hugepage_defrag(&mut rb, "/sys/kernel/mm/transparent_hugepage/defrag", "madvise", " defer ");
    assert_eq!(defrag.value, "defer");
    assert_eq!(rb.len(), 3);
}

#[test]
fn percent_of_memory() {
    assert_eq!(percent_bytes(1000, 40), "400");
    assert_eq!(percent_bytes(u64::MAX, 200), (u64::MAX / 100).to_string());
    assert_eq!(total_memory_bytes("MemFree: 1 kB\nMemTotal:       16303716 kB\n").unwrap(), 16303716 * 1024);
    assert_eq!(total_memory_bytes("MemTotal: 7\n").unwrap(), 7 * 1024);
    assert_eq!(total_memory_bytes("MemFree: 1 kB\n"), Err(TuningError::MemTotalUnavailable));
    assert_eq!(total_memory_bytes("MemTotal: lots kB\n"), Err(TuningError::MemTotalUnavailable));
    let mut rb = Rollback::new();
    let w = apply_percent_option(&mut rb, "dirty_bytes", 10, 2000, "0").unwrap();
    assert_eq!(w.path, "/proc/sys/vm/dirty_bytes");
    assert_eq!(w.value, "200");
    assert_eq!(rb.entries(), vec![("vm:dirty_bytes".to_string(), "0".to_string())]);
    assert!(thp_set_on_cmdline("ro quiet transparent_hugepage=never"));
    assert!(!thp_set_on_cmdline("ro quiet"));
}

#[test]
fn disk_devices_and_paths() {
    assert_eq!(resolve_devices(Some("sda, sdb ,,nvme0n1"), &Vec::new()), strings(&["sda", "sdb", "nvme0n1"]));
    let found = strings(&["sdb", "loop0", "sda", "dm-0", "sr0", "ram1", "fd0", "nvme0n1"]);
    assert_eq!(resolve_devices(None, &found), strings(&["nvme0n1", "sda", "sdb"]));
    assert!(is_tunable_block_device("sda"));
    assert!(!is_tunable_block_device("loop7"));
    assert_eq!(device_option_path("sda", "scheduler").unwrap(), "/sys/block/sda/queue/scheduler");
    assert_eq!(device_option_path("../sda", "scheduler"), Err(TuningError::InvalidBlockDevice));
    assert_eq!(device_option_path("", "scheduler"), Err(TuningError::InvalidBlockDevice));
    let w = disk_write_raw("sda", "read_ahead_kb", "4096").unwrap();
    assert_eq!(w.path, "/sys/block/sda/queue/read_ahead_kb");
    assert_eq!(w.value, "4096");
    let jobs = disk_options(Some("sda sdb"), &Vec::new(), &vec![
        ("elevator".to_string(), "mq-deadline".to_string()),
        ("readahead".to_string(), "4096".to_string()),
    ]);
    let seen: Vec<(String, String)> = jobs.iter().map(|j| (j.device.clone(), j.option.clone())).collect();
    assert_eq!(seen, vec![
        ("sda".to_string(), "elevator".to_string()),
        ("sda".to_string(), "readahead".to_string()),
        ("sdb".to_string(), "elevator".to_string()),
        ("sdb".to_string(), "readahead".to_string()),
    ]);
    assert_eq!(apply_device_option("elevator"), DiskOption::Elevator);
    assert_eq!(apply_device_option("readahead"), DiskOption::Readahead);
    assert_eq!(apply_device_option("apm"), DiskOption::Unsupported);
}

#[test]
fn disk_settings() {
    let mut rb = Rollback::new();
    let w = apply_elevator(&mut rb, "/sys/block/sda/queue/scheduler", "bfq|mq-deadline", "[none] mq-deadline kyber");
    assert_eq!(w.value, "mq-deadline");
    let w = apply_elevator(&mut rb, "/sys/block/sdb/queue/scheduler", " bfq ", "[none]");
    assert_eq!(w.value, "bfq");
    assert_eq!(parse_readahead_kb("4096").unwrap(), 4096);
    assert_eq!(parse_readahead_kb("8192 s").unwrap(), 4096);
    assert_eq!(parse_readahead_kb("-3 s").unwrap(), -1);
    assert_eq!(parse_readahead_kb(""), Err(TuningError::MissingReadahead));
    assert_eq!(parse_readahead_kb("x"), Err(TuningError::InvalidReadahead));
    assert_eq!(parse_readahead_kb("10 kb"), Err(TuningError::UnsupportedReadaheadUnit));
    let path = "/sys/block/sda/queue/read_ahead_kb";
    assert!(apply_readahead(&mut rb, path, "=>4096", "8192").unwrap().is_none());
    let w = apply_readahead(&mut rb, path, "=>8192 s", "128").unwrap().unwrap();
    assert_eq!(w.value, "4096");
    assert_eq!(apply_readahead(&mut rb, path, "=>x", "128").unwrap_err(), TuningError::InvalidReadahead);
    assert_eq!(rb.len(), 3);
}

#[test]
fn platform_profile_uses_the_first_available_choice() {
    let mut rb = Rollback::new();
    let w = apply_platform_profile(&mut rb, "performance|balanced", "low-power balanced", "low-power").unwrap();
    assert_eq!(w.path, "/sys/firmware/acpi/platform_profile");
    assert_eq!(w.value, "balanced");
    assert_eq!(rb.entries(), vec![("sysfs:/sys/firmware/acpi/platform_profile".to_string(), "low-power".to_string())]);
    let mut rb2 = Rollback::new();
    assert!(apply_platform_profile(&mut rb2, "turbo", "low-power balanced", "balanced").is_none());
    assert_eq!(rb2.len(), 0);
}

#[test]
fn restore_actions_find_their_files() {
    let action = |kind, target: &str, value: &str| RestoreAction {
        kind,
        target: target.to_string(),
        value: value.to_string(),
    };
    let w = restore_write(&action(RollbackKind::Sysctl, "vm.swappiness", "60"), None).unwrap();
    assert_eq!((w.path.as_str(), w.value.as_str(), w.under_root), ("/proc/sys/vm/swappiness", "60", true));
    let thp = Some("/sys/kernel/mm/transparent_hugepage");
    let w = restore_write(&action(RollbackKind::Vm, "transparent_hugepage.defrag", "madvise"), thp).unwrap();
    assert_eq!(w.path, "/sys/kernel/mm/transparent_hugepage/defrag");
    assert!(!w.under_root);
    let w = restore_write(&action(RollbackKind::Vm, "transparent_hugepages", "always"), thp).unwrap();
    assert_eq!(w.path, "/sys/kernel/mm/transparent_hugepage/enabled");
    assert_eq!(
        restore_write(&action(RollbackKind::Vm, "transparent_hugepages", "always"), None).unwrap_err(),
        TuningError::HugepageInterfaceMissing
    );
    let w = restore_write(&action(RollbackKind::Vm, "dirty_ratio", "20"), None).unwrap();
    assert_eq!(w.path, "/proc/sys/vm/dirty_ratio");
    assert_eq!(
        restore_write(&action(RollbackKind::Vm, "swappiness", "20"), None).unwrap_err(),
        TuningError::UnsupportedVmOption
    );
    let w = restore_write(&action(RollbackKind::Sysfs, "/sys/block/sda/queue/scheduler", "bfq"), None).unwrap();
    assert_eq!(w.path, "/sys/block/sda/queue/scheduler");
    let entry = restore_entry("vm:transparent_hugepage.defrag", "madvise").unwrap();
    assert_eq!(entry.kind, RollbackKind::Vm);
    assert_eq!(restore_write(&entry, thp).unwrap().value, "madvise");
}
