use tuned_rs::config::{default_profile_dirs, profile_dirs_from_env, resolve_path, rollback_on_exit};
use tuned_rs::ini::ini_size_ok;
use tuned_rs::ipc::{
    all_plugins, not_supported_pair, unauthorized_profile_info, unauthorized_profile_mode,
    verify_profile,
};
use tuned_rs::polkit::{action_id, authorization, begin_authorize, unauthorized_pair, AuthStep};

#[test]
fn unauthorized_answers() {
    assert_eq!(unauthorized_pair(), (false, "Unauthorized".to_string()));
    assert_eq!(
        unauthorized_profile_mode(),
        ("unknown".to_string(), "Unauthorized".to_string())
    );
    assert_eq!(
        unauthorized_profile_info(),
        (false, String::new(), String::new(), "Unauthorized".to_string())
    );
    assert_eq!(not_supported_pair(), (false, "Not supported".to_string()));
}

#[test]
fn polkit_decisions() {
    assert_eq!(action_id("switch_profile"), "com.redhat.tuned.switch_profile");
    assert_eq!(begin_authorize(None, "start"), AuthStep::Allow);
    assert_eq!(
        begin_authorize(Some(":1.42"), "stop"),
        AuthStep::Ask { sender: ":1.42".to_string(), action_id: "com.redhat.tuned.stop".to_string() }
    );
    assert!(authorization(Ok(true), None));
    assert!(!authorization(Ok(false), Some(0)));
    assert!(authorization(Err(()), Some(0)));
    assert!(!authorization(Err(()), Some(1000)));
    assert!(!authorization(Err(()), None));
}

#[test]
fn plugin_listing() {
    let plugins = all_plugins();
    let names: Vec<&str> = plugins.iter().map(|p| p.0.as_str()).collect();
    assert_eq!(names, vec!["cpu", "sysctl", "vm", "disk", "acpi"]);
    assert_eq!(
        plugins[0].1,
        vec![
            ("governor".to_string(), String::new()),
            ("energy_performance_preference".to_string(), String::new())
        ]
    );
    assert_eq!(plugins[1].1, vec![(String::new(), String::new())]);
    assert!(verify_profile("balanced"));
    assert!(!verify_profile(""));
}

#[test]
fn profile_search_path() {
    let defaults = vec!["/usr/lib/tuned/profiles".to_string(), "/etc/tuned/profiles".to_string()];
    assert_eq!(default_profile_dirs(), defaults);
    assert_eq!(profile_dirs_from_env(None), defaults);
    assert_eq!(profile_dirs_from_env(Some(",;")), defaults);
    assert_eq!(
        profile_dirs_from_env(Some("/a;/b,,/c")),
        vec!["/a".to_string(), "/b".to_string(), "/c".to_string()]
    );
}

#[test]
fn rollback_on_exit_reads_the_main_section() {
    assert!(rollback_on_exit(None));
    assert!(rollback_on_exit(Some("[main]\nrollback=auto\n")));
    assert!(!rollback_on_exit(Some("[main]\nrollback = not_on_exit\n")));
    assert!(!rollback_on_exit(Some("[MAIN]\nRollback=not_on_exit\n")));
    assert!(rollback_on_exit(Some("[main\nrollback=not_on_exit\n")));
    assert!(rollback_on_exit(Some("[other]\nrollback=not_on_exit\n")));
}

#[test]
fn test_root_prefixes_paths() {
    assert_eq!(resolve_path("/etc/tuned/active_profile", None), "/etc/tuned/active_profile");
    assert_eq!(
        resolve_path("/etc/tuned/active_profile", Some("/tmp/root")),
        "/tmp/root/etc/tuned/active_profile"
    );
    assert_eq!(resolve_path("//proc/sys/vm", Some("/tmp/root/")), "/tmp/root/proc/sys/vm");
    assert_eq!(resolve_path("profiles", Some("/r")), "/r/profiles");
    assert_eq!(resolve_path("/x", Some("")), "x");
}

#[test]
fn ordinary_texts_fit_the_parser() {
    assert!(ini_size_ok(""));
    assert!(ini_size_ok("[main]\nrollback=auto\n"));
}
