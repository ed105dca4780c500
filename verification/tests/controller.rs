use tuned_rs::ppd::config::PpdConfig;
use tuned_rs::ppd::controller::{
    battery_from_properties, tuned_switch_needed, PerformanceDegraded, PpdCore, WatchStep,
};
use tuned_rs::ppd::tuned_client::ProfileChangedEvent;
use tuned_rs::ppd::PpdError;

fn sample_core() -> PpdCore {
    let content = "[main]\ndefault=balanced\n[profiles]\npower-saver=powersave\nbalanced=balanced\nperformance=throughput-performance\n[battery]\nbalanced=balanced-battery\n";
    let tuned: Vec<String> = ["powersave", "balanced", "throughput-performance", "balanced-battery"]
        .iter()
        .map(|s| s.to_string())
        .collect();
    PpdCore::new(PpdConfig::load(content, &tuned).unwrap())
}

fn event(name: &str, result: bool) -> ProfileChangedEvent {
    ProfileChangedEvent { profile_name: name.to_string(), result, errstr: String::new() }
}

#[test]
fn new_core_is_idle() {
    let c = sample_core();
    assert_eq!(c.active_profile(), "");
    assert_eq!(c.base_profile(), "");
    assert_eq!(c.performance_degraded(), PerformanceDegraded::NotDegraded);
    assert!(c.active_profile_holds().is_empty());
}

#[test]
fn holds_pick_power_saver_over_performance() {
    let mut c = sample_core();
    let (perf, next) = c.add_hold("performance", "build", "org.app.A", ":1.10").unwrap();
    assert_ne!(perf, 0);
    assert_eq!(next, "performance");
    let (saver, next) = c.add_hold("power-saver", "battery", "org.app.B", ":1.11").unwrap();
    assert_ne!(saver, perf);
    assert_eq!(next, "power-saver");
    let holds = c.active_profile_holds();
    assert_eq!(holds.len(), 2);
    assert_eq!(holds[0][0], ("Profile".to_string(), "performance".to_string()));
    assert_eq!(holds[0][1], ("Reason".to_string(), "build".to_string()));
    assert_eq!(holds[0][2], ("ApplicationId".to_string(), "org.app.A".to_string()));
    assert_eq!(c.effective_hold_profile(), "power-saver");
}

#[test]
fn only_power_saver_and_performance_can_be_held() {
    let mut c = sample_core();
    assert_eq!(
        c.add_hold("balanced", "r", "app", ":1.1"),
        Err(PpdError::NotHoldable)
    );
    assert!(c.active_profile_holds().is_empty());
}

#[test]
fn release_undoes_hold_and_returns_to_base() {
    let mut c = sample_core();
    c.set_base_profile("balanced");
    let (cookie, _) = c.add_hold("performance", "r", "app", ":1.5").unwrap();
    assert_eq!(c.release_hold(cookie, ":1.6"), Err(PpdError::NotHoldOwner));
    assert_eq!(c.release_hold(cookie + 1000, ":1.5"), Err(PpdError::NoSuchHold));
    assert_eq!(c.release_hold(cookie, ":1.5").unwrap(), "balanced");
    assert!(c.active_profile_holds().is_empty());
    assert_eq!(c.release_hold(cookie, ":1.5"), Err(PpdError::NoSuchHold));
}

#[test]
fn removing_one_of_two_holds_keeps_the_other() {
    let mut c = sample_core();
    c.set_base_profile("balanced");
    let (saver, _) = c.add_hold("power-saver", "r", "a", ":1.1").unwrap();
    let (_perf, _) = c.add_hold("performance", "r", "b", ":1.2").unwrap();
    let (removed, next) = c.remove_hold(saver);
    assert!(removed);
    assert_eq!(next, "performance");
    let (removed_again, _) = c.remove_hold(saver);
    assert!(!removed_again);
}

#[test]
fn base_profile_file_content() {
    let mut c = sample_core();
    assert_eq!(c.set_base_profile("power-saver"), "power-saver\n");
    assert_eq!(c.base_profile(), "power-saver");
    assert_eq!(c.initialize(Some("power-saver\n")), "power-saver");
    assert_eq!(c.initialize(Some("   ")), "balanced");
    assert_eq!(c.initialize(None), "balanced");
}

#[test]
fn switching_follows_the_power_source() {
    let mut c = sample_core();
    assert_eq!(c.switch_profile("balanced").unwrap(), "balanced");
    assert_eq!(c.switch_profile("nope"), Err(PpdError::UnknownProfile));
    assert_eq!(c.finish_switch("balanced", false), Err(PpdError::SwitchFailed));
    assert_eq!(c.active_profile(), "");
    c.finish_switch("balanced", true).unwrap();
    assert_eq!(c.active_profile(), "balanced");
    assert_eq!(c.on_battery_changed(true).unwrap(), "balanced-battery");
    assert_eq!(c.on_battery_changed(false).unwrap(), "balanced");
}

#[test]
fn user_selection_drops_holds() {
    let mut c = sample_core();
    c.add_hold("performance", "r", "a", ":1.1").unwrap();
    assert_eq!(c.set_active_profile("power-saver").unwrap(), "powersave");
    assert!(c.active_profile_holds().is_empty());
    c.add_hold("performance", "r", "a", ":1.1").unwrap();
    assert_eq!(c.set_active_profile("turbo"), Err(PpdError::UnknownProfile));
    assert_eq!(c.active_profile_holds().len(), 1);
}

#[test]
fn tuned_signals_update_the_active_profile() {
    let mut c = sample_core();
    c.finish_switch("balanced", true).unwrap();
    assert_eq!(c.handle_tuned_profile_changed(&event("powersave", false), "powersave"), None);
    assert_eq!(c.handle_tuned_profile_changed(&event("powersave", true), "balanced"), None);
    assert_eq!(c.active_profile(), "balanced");
    c.add_hold("performance", "r", "a", ":1.1").unwrap();
    assert_eq!(
        c.handle_tuned_profile_changed(&event("powersave", true), "powersave"),
        Some("power-saver\n".to_string())
    );
    assert_eq!(c.active_profile(), "power-saver");
    assert_eq!(c.base_profile(), "power-saver");
    assert!(c.active_profile_holds().is_empty());
    assert_eq!(
        c.handle_tuned_profile_changed(&event("custom", true), "custom"),
        None
    );
    assert_eq!(c.active_profile(), "unknown");
    assert_eq!(c.base_profile(), "power-saver");
}

#[test]
fn degradation_reads_turbo_and_lap_files() {
    let mut c = sample_core();
    assert!(c.check_performance_degraded(Some("1\n"), None));
    assert_eq!(c.performance_degraded(), PerformanceDegraded::HighOperatingTemperature);
    assert!(c.check_performance_degraded(Some("1"), Some("1")));
    assert_eq!(c.performance_degraded(), PerformanceDegraded::LapDetected);
    assert_eq!(c.performance_degraded().as_str(), "lap-detected");
    assert!(!c.check_performance_degraded(Some("0"), Some(" 1 ")));
    assert!(c.check_performance_degraded(None, Some("0")));
    assert_eq!(c.performance_degraded().as_str(), "");
    assert_eq!(
        PerformanceDegraded::HighOperatingTemperature.as_str(),
        "high-operating-temperature"
    );
}

#[test]
fn platform_profile_changes_respect_the_base_profile() {
    let mut c = sample_core();
    c.set_base_profile("balanced");
    c.finish_switch("balanced", true).unwrap();
    assert_eq!(c.check_platform_profile("low-power"), None);
    assert_eq!(c.check_platform_profile("balanced"), Some("balanced".to_string()));
    assert_eq!(c.check_platform_profile("custom"), None);
    c.finish_switch("performance", true).unwrap();
    c.add_hold("performance", "r", "a", ":1.1").unwrap();
    assert_eq!(c.check_platform_profile("low-power"), Some("power-saver".to_string()));
    assert!(c.active_profile_holds().is_empty());
}

#[test]
fn profiles_list_the_mapping_of_the_power_source() {
    let c = sample_core();
    let list = c.profiles();
    let mut names: Vec<String> = list.iter().map(|e| e[0].1.clone()).collect();
    names.sort();
    assert_eq!(names, vec!["balanced", "performance", "power-saver"]);
    for e in &list {
        assert_eq!(e[0].0, "Profile");
        assert_eq!(e[1], ("Driver".to_string(), "tuned".to_string()));
    }
}

#[test]
fn hold_watcher_releases_when_owner_leaves() {
    let mut c = sample_core();
    c.set_base_profile("balanced");
    let (cookie, _) = c.add_hold("power-saver", "r", "a", ":1.1").unwrap();
    assert!(c.is_held(cookie));
    assert!(matches!(c.watch_hold_owner(cookie, Some(true)), WatchStep::KeepWatching));
    assert!(matches!(c.watch_hold_owner(cookie, None), WatchStep::KeepWatching));
    match c.watch_hold_owner(cookie, Some(false)) {
        WatchStep::Released(next) => assert_eq!(next, "balanced"),
        other => panic!("unexpected {other:?}"),
    }
    assert!(!c.is_held(cookie));
    assert!(matches!(c.watch_hold_owner(cookie, Some(false)), WatchStep::Stop));
}

#[test]
fn small_decisions() {
    assert!(tuned_switch_needed("balanced", "powersave"));
    assert!(!tuned_switch_needed("balanced", "balanced"));
    assert_eq!(battery_from_properties("org.freedesktop.UPower", Some(true)), Some(true));
    assert_eq!(battery_from_properties("org.freedesktop.UPower.Device", Some(true)), None);
    assert_eq!(battery_from_properties("org.freedesktop.UPower", None), None);
}

#[test]
fn clearing_holds_keeps_cookies_fresh() {
    let mut c = sample_core();
    let (first, _) = c.add_hold("performance", "r", "a", ":1.1").unwrap();
    c.clear_holds();
    let (second, _) = c.add_hold("performance", "r", "a", ":1.1").unwrap();
    assert_ne!(first, second);
}
