use tuned_rs::ppd::config::{platform_profile_to_ppd, PpdConfig, PpdConfigError};
use tuned_rs::ppd::PpdError;

fn names(v: &[&str]) -> Vec<String> {
    v.iter().map(|s| s.to_string()).collect()
}

#[test]
fn loads_valid_config() {
    let content = "[main]\n\
                   default=balanced\n\
                   battery_detection=false\n\
                   [profiles]\n\
                   power-saver=powersave\n\
                   balanced=balanced\n\
                   performance=latency-performance\n";
    let profiles = names(&["powersave", "balanced", "latency-performance"]);
    let config = PpdConfig::load(content, &profiles).unwrap();
    assert_eq!(config.default_profile, "balanced");
    assert_eq!(config.ppd_to_tuned.get("balanced", false).unwrap(), "balanced");
    assert_eq!(
        config
            .tuned_to_ppd
            .reverse_lookup("latency-performance", false)
            .unwrap(),
        "performance"
    );
    assert_eq!(
        config.tuned_to_ppd.reverse_lookup("balanced", false).unwrap(),
        "balanced"
    );
}

#[test]
fn reverse_lookup_uses_battery_map_on_dc() {
    let content = "[main]\n\
                   default=balanced\n\
                   [profiles]\n\
                   power-saver=powersave\n\
                   balanced=throughput-performance\n\
                   performance=latency-performance\n\
                   [battery]\n\
                   balanced=balanced-battery\n";
    let profiles = names(&[
        "powersave",
        "throughput-performance",
        "latency-performance",
        "balanced-battery",
    ]);
    let config = PpdConfig::load(content, &profiles).unwrap();
    assert_eq!(
        config
            .tuned_to_ppd
            .reverse_lookup("balanced-battery", true)
            .unwrap(),
        "balanced"
    );
    assert_eq!(
        config
            .tuned_to_ppd
            .reverse_lookup("throughput-performance", true)
            .unwrap(),
        "balanced"
    );
}

#[test]
fn battery_mapping_overrides_ac_on_dc() {
    let content = "[profiles]\n\
                   power-saver=powersave\n\
                   balanced=throughput-performance\n\
                   performance=latency-performance\n\
                   [battery]\n\
                   balanced=balanced-battery\n";
    let profiles = names(&[
        "powersave",
        "throughput-performance",
        "latency-performance",
        "balanced-battery",
    ]);
    let config = PpdConfig::load(content, &profiles).unwrap();
    assert!(config.battery_detection);
    assert!(config.sysfs_acpi_monitor);
    assert_eq!(config.ppd_to_tuned.get("balanced", true).unwrap(), "balanced-battery");
    assert_eq!(
        config.ppd_to_tuned.get("balanced", false).unwrap(),
        "throughput-performance"
    );
    assert_eq!(config.ppd_to_tuned.get("power-saver", true).unwrap(), "powersave");
    assert_eq!(
        config.ppd_to_tuned.get("unknown", false),
        Err(PpdError::UnknownProfile)
    );
    assert_eq!(config.tuned_to_ppd.reverse_lookup("nothing", false), None);
    let mut keys = config.ppd_to_tuned.keys(true);
    keys.sort();
    assert_eq!(keys, names(&["balanced", "performance", "power-saver"]));
}

#[test]
fn config_errors_name_the_first_failed_check() {
    let tuned = names(&["powersave", "balanced", "latency-performance"]);
    assert!(matches!(
        PpdConfig::load("[main]\ndefault=balanced\n", &tuned),
        Err(PpdConfigError::MissingProfilesSection)
    ));
    match PpdConfig::load("[profiles]\npower-saver=powersave\nperformance=latency-performance\n", &tuned) {
        Err(PpdConfigError::MissingProfile(p)) => assert_eq!(p, "balanced"),
        other => panic!("unexpected {other:?}"),
    }
    let base = "[profiles]\npower-saver=powersave\nbalanced=balanced\nperformance=latency-performance\n";
    match PpdConfig::load(&format!("[main]\ndefault=turbo\n{base}"), &tuned) {
        Err(PpdConfigError::DefaultMissing(p)) => assert_eq!(p, "turbo"),
        other => panic!("unexpected {other:?}"),
    }
    assert!(matches!(
        PpdConfig::load(&format!("[main]\nbattery_detection=yes\n{base}"), &tuned),
        Err(PpdConfigError::MissingBatterySection)
    ));
    match PpdConfig::load(base, &names(&["powersave", "balanced"])) {
        Err(PpdConfigError::UnknownTunedProfiles(v)) => {
            assert!(!v.is_empty());
            assert!(v.iter().all(|p| p == "latency-performance"));
        }
        other => panic!("unexpected {other:?}"),
    }
    match PpdConfig::load(&format!("{base}[battery]\nturbo=balanced\n"), &tuned) {
        Err(PpdConfigError::UnknownBatteryProfiles(v)) => assert_eq!(v, names(&["turbo"])),
        other => panic!("unexpected {other:?}"),
    }
    assert!(matches!(
        PpdConfig::load(
            "[profiles]\npower-saver=balanced\nbalanced=balanced\nperformance=latency-performance\n",
            &tuned
        ),
        Err(PpdConfigError::DuplicateMapping)
    ));
}

#[test]
fn platform_profiles_map_to_ppd_profiles() {
    assert_eq!(platform_profile_to_ppd("low-power"), Some("power-saver"));
    assert_eq!(platform_profile_to_ppd(" low-power\n"), Some("power-saver"));
    assert_eq!(platform_profile_to_ppd("quiet"), None);
    assert_eq!(platform_profile_to_ppd("balanced"), Some("balanced"));
    assert_eq!(platform_profile_to_ppd("performance"), Some("performance"));
    assert_eq!(platform_profile_to_ppd("custom"), None);
}

#[test]
fn platform_monitor_needs_setting_and_file() {
    let content = "[main]\nsysfs_acpi_monitor=false\n[profiles]\npower-saver=powersave\nbalanced=balanced\nperformance=latency-performance\n";
    let profiles = names(&["powersave", "balanced", "latency-performance"]);
    let off = PpdConfig::load(content, &profiles).unwrap();
    assert!(!off.monitors_platform_profile(true));
    let on = PpdConfig::load(&content.replace("false", "true"), &profiles).unwrap();
    assert!(on.monitors_platform_profile(true));
    assert!(!on.monitors_platform_profile(false));
}
