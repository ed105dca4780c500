use tuned_rs::profile::{
    load_profile, read_active_profile, save_active_profile, save_profile_mode, ActiveProfileError,
    ProfileCatalog, ProfileSource,
};

fn source(name: &str, content: &str) -> ProfileSource {
    ProfileSource { name: name.to_string(), content: content.to_string() }
}

#[test]
fn parses_extended_profile_sections() {
    let content = "[main]\nsummary=Performance\n\n[cpu]\ngovernor=performance\n\n[vm]\ndirty_bytes=40%\n\n[disk]\nreadahead=>4096\n\n[acpi]\nplatform_profile=performance|balanced\n\n[sysctl]\nvm.swappiness=10\nnet.core.somaxconn=>2048\n\n";
    let profile = load_profile(content, "performance").unwrap();
    assert_eq!(profile.cpu.governor.as_deref(), Some("performance"));
    assert_eq!(profile.vm.dirty_bytes.as_deref(), Some("40%"));
    assert_eq!(profile.disk.readahead.as_deref(), Some(">4096"));
    assert_eq!(
        profile.acpi.platform_profile.as_deref(),
        Some("performance|balanced")
    );
    assert_eq!(
        profile.sysctl.get("net.core.somaxconn"),
        Some(&">2048".to_string())
    );
}

#[test]
fn later_profile_dir_overrides_name() {
    let sources = vec![
        source("balanced", &format!("[main]\nsummary={}\n", "system")),
        source("balanced", &format!("[main]\nsummary={}\n", "custom")),
    ];
    let catalog = ProfileCatalog::load_from_dirs(&sources);
    assert_eq!(catalog.get("balanced").unwrap().summary, "custom");
}

#[test]
fn profile_fields_are_trimmed_and_blank_ones_dropped() {
    let content = "[main]\nsummary=  Spaced  \ndescription=Long text\n[cpu]\ngovernor=\nenergy_performance_preference= power \n[vm]\ntransparent_hugepage=never\n";
    let p = load_profile(content, "spaced").unwrap();
    assert_eq!(p.name, "spaced");
    assert_eq!(p.summary, "Spaced");
    assert_eq!(p.description, "Long text");
    assert_eq!(p.cpu.governor, None);
    assert_eq!(p.cpu.energy_performance_preference.as_deref(), Some("power"));
    assert_eq!(p.vm.transparent_hugepages.as_deref(), Some("never"));
    assert_eq!(p.disk.devices, None);
    assert_eq!(p.sysctl.len(), 0);
}

#[test]
fn catalog_skips_invalid_names_and_broken_files() {
    let sources = vec![
        source("good", "[main]\nsummary=Good\n"),
        source("bad name", "[main]\nsummary=Bad\n"),
        source("b", "[main]\nsummary=B\n"),
        source("broken", "[main\nsummary=Broken\n"),
    ];
    let catalog = ProfileCatalog::load_from_dirs(&sources);
    assert_eq!(catalog.names(), vec!["b".to_string(), "good".to_string()]);
    assert_eq!(
        catalog.summaries(),
        vec![
            ("b".to_string(), "B".to_string()),
            ("good".to_string(), "Good".to_string())
        ]
    );
    assert!(catalog.get("bad name").is_none());
    assert!(catalog.get("broken").is_none());
    assert_eq!(catalog.recommend(), "b");
}

#[test]
fn profile_info_reports_missing_profiles() {
    let catalog = ProfileCatalog::load_from_dirs(&vec![source(
        "balanced",
        "[main]\nsummary=General\ndescription=Default profile\n",
    )]);
    assert_eq!(
        catalog.profile_info("balanced"),
        (
            true,
            "General".to_string(),
            "Default profile".to_string(),
            String::new()
        )
    );
    assert_eq!(
        catalog.profile_info("nope"),
        (
            false,
            String::new(),
            String::new(),
            "Profile 'nope' not found".to_string()
        )
    );
    assert_eq!(catalog.recommend(), "balanced");
    let empty = ProfileCatalog::load_from_dirs(&Vec::new());
    assert_eq!(empty.recommend(), "balanced");
    assert!(empty.names().is_empty());
}

#[test]
fn active_profile_file_round_trip() {
    let content = save_active_profile("throughput-performance").unwrap();
    assert_eq!(content, "throughput-performance\n");
    assert_eq!(
        read_active_profile(Some(&content)).unwrap(),
        Some("throughput-performance".to_string())
    );
    assert_eq!(read_active_profile(None).unwrap(), None);
    assert_eq!(read_active_profile(Some("  \n")).unwrap(), None);
    assert_eq!(
        read_active_profile(Some("../etc\n")),
        Err(ActiveProfileError::InvalidProfileName)
    );
    assert_eq!(
        save_active_profile("a/b"),
        Err(ActiveProfileError::InvalidProfileName)
    );
    assert_eq!(save_profile_mode(true), "manual\n");
    assert_eq!(save_profile_mode(false), "auto\n");
}

#[test]
fn set_options_are_listed_in_plugin_order() {
    let content = "[vm]\ndirty_ratio=20\ntransparent_hugepages=never\n[disk]\nreadahead=4096\n";
    let p = load_profile(content, "opts").unwrap();
    assert_eq!(
        p.vm_options(),
        vec![
            ("transparent_hugepages".to_string(), "never".to_string()),
            ("dirty_ratio".to_string(), "20".to_string())
        ]
    );
    assert_eq!(p.disk_options(), vec![("readahead".to_string(), "4096".to_string())]);
}
