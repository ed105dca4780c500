use tuned_rs::daemon::{startup_profile, Daemon};
use tuned_rs::profile::{ProfileCatalog, ProfileSource};
use tuned_rs::rollback::{Rollback, RollbackKind};
use tuned_rs::DaemonEvent;

fn catalog() -> ProfileCatalog {
    let sources = vec![
        ProfileSource {
            name: "balanced".to_string(),
            content: "[main]\nsummary=General\n[sysctl]\nvm.swappiness=30\n".to_string(),
        },
        ProfileSource {
            name: "powersave".to_string(),
            content: "[main]\nsummary=Save\n".to_string(),
        },
    ];
    ProfileCatalog::load_from_dirs(&sources)
}

fn with_entry() -> Rollback {
    Rollback::from_entries(vec![("sysctl:vm.swappiness".to_string(), "60".to_string())])
}

#[test]
fn start_restores_then_runs_once() {
    let mut d = Daemon::new(catalog(), with_entry());
    assert!(!d.is_running());
    let restores = d.start().unwrap();
    assert_eq!(restores.len(), 1);
    assert_eq!(restores[0].as_ref().unwrap().kind, RollbackKind::Sysctl);
    assert_eq!(d.rollback().len(), 0);
    d.finish_start();
    assert!(d.is_running());
    assert!(d.start().is_none());
}

#[test]
fn startup_profile_defaults_to_balanced() {
    assert_eq!(startup_profile(Some("powersave")), "powersave");
    assert_eq!(startup_profile(None), "balanced");
}

#[test]
fn switch_profile_validates_and_looks_up() {
    let mut d = Daemon::new(catalog(), Rollback::new());
    match d.switch_profile("../etc") {
        Err(answer) => assert_eq!(answer, (false, "Invalid profile_name".to_string())),
        Ok(_) => panic!("accepted an invalid name"),
    }
    match d.switch_profile("missing") {
        Err(answer) => {
            assert_eq!(answer, (false, "Profile 'missing' not found".to_string()))
        }
        Ok(_) => panic!("accepted a missing profile"),
    }
    let (profile, restores) = d.switch_profile("balanced").unwrap();
    assert_eq!(profile.name, "balanced");
    assert_eq!(profile.summary, "General");
    assert_eq!(profile.sysctl.get("vm.swappiness"), Some(&"30".to_string()));
    assert!(restores.is_empty());
    d.finish_apply("balanced", true);
    assert_eq!(d.active_profile(), "balanced");
    assert_eq!(d.post_loaded_profile(), "balanced");
    assert_eq!(d.profile_mode(), ("manual".to_string(), String::new()));
    d.finish_apply("powersave", false);
    assert_eq!(d.profile_mode(), ("auto".to_string(), String::new()));
}

#[test]
fn stop_restores_only_when_asked_and_allowed() {
    let mut d = Daemon::new(catalog(), with_entry());
    d.finish_start();
    assert!(d.stop(true, false).is_empty());
    assert!(!d.is_running());
    assert_eq!(d.rollback().len(), 1);
    assert!(d.stop(false, true).is_empty());
    assert_eq!(d.stop(true, true).len(), 1);
    assert_eq!(d.rollback().len(), 0);
}

#[test]
fn reapply_needs_an_active_profile() {
    let mut d = Daemon::new(catalog(), Rollback::new());
    assert_eq!(
        d.reapply_active_profile(),
        Err("No active profile to reapply".to_string())
    );
    d.finish_apply("powersave", false);
    assert_eq!(
        d.reapply_active_profile(),
        Ok(("powersave".to_string(), false))
    );
    let restores = d.disable(true);
    assert!(restores.is_empty());
    assert_eq!(d.active_profile(), "");
    assert!(!d.is_running());
}

#[test]
fn catalog_queries_go_through_the_daemon() {
    let mut d = Daemon::new(catalog(), Rollback::new());
    assert_eq!(d.profiles(), vec!["balanced".to_string(), "powersave".to_string()]);
    assert_eq!(d.profiles2()[1], ("powersave".to_string(), "Save".to_string()));
    assert!(d.profile_info("balanced").0);
    assert_eq!(d.recommend_profile(), "balanced");
    d.reload_catalog(ProfileCatalog::load_from_dirs(&Vec::new()));
    assert!(d.profiles().is_empty());
    let event = DaemonEvent::Hardware { action: "change".to_string(), device: "AC".to_string() };
    let DaemonEvent::Hardware { action, device } = event;
    assert_eq!((action.as_str(), device.as_str()), ("change", "AC"));
}
