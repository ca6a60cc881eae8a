use eoka::package::{
    dependency_in_use, dependency_lines, deps_from_column, deps_to_column, find_local,
    is_installed, is_upgradable, needs_upgrade, plan_sync, plan_update, sync_action,
    version_summary, FileSystem, Package, PkgUpdate, SQLite, SyncAction,
};

fn pkg(name: &str, l: &str, r: &str) -> Package {
    Package { name: name.to_string(), lversion: l.to_string(), rversion: r.to_string(), deps: None }
}

#[test]
fn database_path_joins_directory_and_name() {
    let db = SQLite::new("eoka.db", "/etc/eoka/");
    assert_eq!(db.name, "eoka.db");
    assert_eq!(db.path, "/etc/eoka/eoka.db");
    let _fs = FileSystem::new();
}

#[test]
fn empty_dependency_column_means_none() {
    assert_eq!(deps_from_column(String::new()), None);
    assert_eq!(deps_from_column("a,b:c".to_string()), Some("a,b:c".to_string()));
    assert_eq!(deps_to_column(&None), "");
    assert_eq!(deps_to_column(&Some("a:b".to_string())), "a:b");
}

#[test]
fn dependency_column_roundtrip() {
    for d in [None, Some("x:y".to_string()), Some(":".to_string())] {
        assert_eq!(deps_from_column(deps_to_column(&d)), d);
    }
    assert_eq!(deps_from_column(deps_to_column(&Some(String::new()))), None);
}

#[test]
fn update_of_remote_version_carries_dependencies() {
    match plan_update(&"2.0".to_string(), "rversion", &None) {
        PkgUpdate::Remote { version, deps } => {
            assert_eq!(version, "2.0");
            assert_eq!(deps, "");
        }
        PkgUpdate::Local { .. } => panic!("expected a remote update"),
    }
    match plan_update(&"1.0".to_string(), "lversion", &Some("a:".to_string())) {
        PkgUpdate::Local { version } => assert_eq!(version, "1.0"),
        PkgUpdate::Remote { .. } => panic!("expected a local update"),
    }
}

#[test]
fn dependency_use_by_other_packages() {
    let rows = vec![("foo".to_string(), "bar-1:".to_string()), ("baz".to_string(), "qux".to_string())];
    assert!(dependency_in_use(&rows, "foo"));
    let rows = vec![("foo".to_string(), "x".to_string())];
    assert!(!dependency_in_use(&rows, "foo"));
    let rows = vec![("a".to_string(), "b-1,c-2".to_string())];
    assert!(!dependency_in_use(&rows, "z"));
    let rows = vec![("a".to_string(), "b-1,c-2:".to_string())];
    assert!(dependency_in_use(&rows, "z"));
    assert!(!dependency_in_use(&Vec::new(), "z"));
}

#[test]
fn sync_plan_adds_refreshes_and_keeps() {
    let local = vec![pkg("a", "1.0", "1.0"), pkg("b", "0", "2.0")];
    let remote = vec![pkg("a", "0", "1.1"), pkg("b", "0", "2.0"), pkg("c", "0", "1.0")];
    let plan = plan_sync(&local, &remote);
    assert_eq!(plan.actions, vec![SyncAction::Refresh, SyncAction::Keep, SyncAction::Add]);
    assert_eq!(plan.added, 1);
    assert_eq!(plan.updates, 0);
    let remote = vec![pkg("a", "1.0", "1.1"), pkg("d", "0", "1"), pkg("e", "0", "1")];
    let plan = plan_sync(&local, &remote);
    assert_eq!(plan.actions, vec![SyncAction::Refresh, SyncAction::Add, SyncAction::Add]);
    assert_eq!(plan.added, 2);
    assert_eq!(plan.updates, 1);
}

#[test]
fn sync_uses_the_last_local_entry_of_a_name() {
    let local = vec![pkg("a", "0", "1.0"), pkg("a", "0", "3.0")];
    assert_eq!(find_local(&local, &"a".to_string()), Some(1));
    assert_eq!(find_local(&local, &"b".to_string()), None);
    assert_eq!(sync_action(&local, &pkg("a", "0", "2.0")), SyncAction::Keep);
    assert_eq!(sync_action(&local, &pkg("a", "0", "3.1")), SyncAction::Refresh);
}

#[test]
fn sync_keeps_a_package_whose_version_is_unchanged() {
    let local = vec![pkg("a", "0", "1.2")];
    assert_eq!(sync_action(&local, &pkg("a", "0", "1.2")), SyncAction::Keep);
}

#[test]
fn installed_and_upgradable_packages() {
    assert!(!is_installed(&pkg("a", "0", "1.0")));
    assert!(is_installed(&pkg("a", "1.0", "1.0")));
    assert!(is_upgradable(&pkg("a", "1.0", "1.1")));
    assert!(!is_upgradable(&pkg("a", "1.1", "1.1")));
    assert!(!is_upgradable(&pkg("a", "0", "1.1")));
}

#[test]
fn upgrade_all_skips_current_missing_and_unknown() {
    assert!(needs_upgrade(&pkg("a", "1.0", "1.1")));
    assert!(needs_upgrade(&pkg("a", "1.1", "1.0")));
    assert!(!needs_upgrade(&pkg("a", "0", "1.1")));
    assert!(!needs_upgrade(&pkg("a", "1.1", "1.1")));
    assert!(!needs_upgrade(&pkg("a", "1.1", "")));
}

#[test]
fn upgradable_packages_are_upgraded() {
    for (l, r) in [("1.0", "1.1"), ("1", "1.0.1"), ("1.10", "1.9")] {
        let p = pkg("a", l, r);
        if is_upgradable(&p) {
            assert!(needs_upgrade(&p));
        }
    }
}

#[test]
fn version_summaries() {
    assert_eq!(version_summary(&pkg("a", "1.0", "1.0")), " - Local version: 1.0");
    assert_eq!(version_summary(&pkg("a", "1.0", "1.1")), " - Local version: 1.0 => Last version: 1.1");
    assert_eq!(version_summary(&pkg("a", "0", "1.1")), " - Available version: 1.1");
}

#[test]
fn dependency_listing() {
    assert_eq!(dependency_lines(&None), vec!["    None"]);
    assert_eq!(
        dependency_lines(&Some("a,b:c,".to_string())),
        vec!["   + a", "   + b", "   + c (Optional)"]
    );
    assert_eq!(dependency_lines(&Some(":".to_string())), vec!["   + "]);
}
