use tuned_rs::config::rollback_on_exit_from_sections;
use tuned_rs::ini::IniSections;
use tuned_rs::ppd::config::{PpdConfig, PpdConfigError};
use tuned_rs::profile::{profile_from_sections, ProfileCatalog, ProfileSource};
use tuned_rs::strmap::StrMap;

fn section(pairs: &[(&str, Option<&str>)]) -> StrMap<Option<String>> {
    StrMap {
        entries: pairs.iter().map(|(k, v)| (k.to_string(), v.map(|s| s.to_string()))).collect(),
    }
}

fn sections(list: Vec<(&str, StrMap<Option<String>>)>) -> IniSections {
    StrMap { entries: list.into_iter().map(|(n, s)| (n.to_string(), s)).collect() }
}

#[test]
fn ppd_config_from_sections() {
    let ini = sections(vec![
        ("main", section(&[("default", Some("performance")), ("sysfs_acpi_monitor", Some("no"))])),
        (
            "profiles",
            section(&[
                ("power-saver", Some("powersave")),
                ("balanced", Some("balanced")),
                ("performance", Some("throughput-performance")),
                ("note", None),
            ]),
        ),
    ]);
    let tuned: Vec<String> = ["powersave", "balanced", "throughput-performance"]
        .iter()
        .map(|s| s.to_string())
        .collect();
    let c = PpdConfig::from_sections(&ini, &tuned).unwrap();
    assert_eq!(c.default_profile, "performance");
    assert!(!c.battery_detection);
    assert!(!c.sysfs_acpi_monitor);
    assert_eq!(c.ppd_to_tuned.get("performance", true).unwrap(), "throughput-performance");
    assert_eq!(c.tuned_to_ppd.reverse_lookup("powersave", false), Some("power-saver"));
    let missing = sections(vec![("main", section(&[]))]);
    assert!(matches!(
        PpdConfig::from_sections(&missing, &tuned),
        Err(PpdConfigError::MissingProfilesSection)
    ));
}

#[test]
fn profile_from_parsed_sections() {
    let ini = sections(vec![
        ("main", section(&[("summary", Some(" Fast ")), ("description", None)])),
        ("cpu", section(&[("governor", Some("performance|schedutil"))])),
        ("sysctl", section(&[("vm.swappiness", Some(" 10 ")), ("kernel.flag", None)])),
    ]);
    let p = profile_from_sections(&ini, "fast");
    assert_eq!(p.name, "fast");
    assert_eq!(p.summary, "Fast");
    assert_eq!(p.description, "");
    assert_eq!(p.cpu.governor.as_deref(), Some("performance|schedutil"));
    assert_eq!(p.sysctl.get("vm.swappiness"), Some(&"10".to_string()));
    assert_eq!(p.sysctl.get("kernel.flag"), None);
}

#[test]
fn rollback_setting_from_sections() {
    let off = sections(vec![("main", section(&[("rollback", Some("not_on_exit"))]))]);
    let on = sections(vec![("main", section(&[("rollback", Some("auto"))]))]);
    let empty = sections(vec![]);
    assert!(!rollback_on_exit_from_sections(&off));
    assert!(rollback_on_exit_from_sections(&on));
    assert!(rollback_on_exit_from_sections(&empty));
}

#[test]
fn summaries_follow_names() {
    let sources: Vec<ProfileSource> = ["zeta", "alpha", "mid"]
        .iter()
        .map(|n| ProfileSource { name: n.to_string(), content: format!("[main]\nsummary={n}!\n") })
        .collect();
    let catalog = ProfileCatalog::load_from_dirs(&sources);
    let names = catalog.names();
    let summaries = catalog.summaries();
    let listed: Vec<String> = summaries.iter().map(|e| e.0.clone()).collect();
    assert_eq!(listed, names);
    for (n, s) in &summaries {
        assert_eq!(s, &catalog.get(n).unwrap().summary);
    }
}
