use eoka::install::{
    archive_name, archive_parts, before_last_char, blueprint_mode, build_dir, confirm_mode,
    data_step, dependency_requests, install_mode, install_prompt, listing_looks_compiled,
    prompt_default_yes, saved_blueprint_path, script_argument, target_parts, target_version,
    top_level_entries, total_size, unpack_start, unpack_step, update_log_line, DataStep,
    InstallPrompt, StepOutcome, UnpackAction,
};

fn strings(v: &[&str]) -> Vec<String> {
    v.iter().map(|x| x.to_string()).collect()
}

#[test]
fn install_targets() {
    assert_eq!(target_parts("foo=1.2"), vec!["foo", "1.2"]);
    assert_eq!(target_parts("foo"), vec!["foo"]);
    assert_eq!(target_version(&strings(&["foo"]), &"3.0".to_string()), "3.0");
    assert_eq!(target_version(&strings(&["foo", "1.2"]), &"3.0".to_string()), "1.2");
}

#[test]
fn install_prompts() {
    assert_eq!(install_prompt("1.0", "1.0", false), InstallPrompt::Reinstall);
    assert_eq!(install_prompt("1.0", "1.1", false), InstallPrompt::ChangeVersion);
    assert_eq!(install_prompt("0", "1.1", true), InstallPrompt::InstallMissing);
    assert_eq!(install_prompt("0", "1.1", false), InstallPrompt::Proceed);
    assert!(prompt_default_yes(InstallPrompt::InstallMissing));
    assert!(!prompt_default_yes(InstallPrompt::Reinstall));
    assert!(!prompt_default_yes(InstallPrompt::ChangeVersion));
}

#[test]
fn install_modes() {
    let lv = "1.0".to_string();
    let m = install_mode(InstallPrompt::ChangeVersion, false, &lv);
    assert!(m.upgrade);
    assert_eq!(m.previous, Some("1.0".to_string()));
    let m = install_mode(InstallPrompt::InstallMissing, true, &lv);
    assert!(!m.upgrade);
    assert_eq!(m.previous, None);
    let m = install_mode(InstallPrompt::Reinstall, true, &lv);
    assert!(m.upgrade);
    assert_eq!(m.previous, Some("1.0".to_string()));
    let m = install_mode(InstallPrompt::Proceed, false, &lv);
    assert!(!m.upgrade);
}

#[test]
fn archive_names() {
    assert_eq!(archive_name("foo", "1.0"), "foo-1.0.ek");
    assert_eq!(archive_parts("foo-1.0.ek"), ("foo".to_string(), "1.0".to_string()));
    assert_eq!(archive_parts("my-pkg-2.1.ek"), ("my".to_string(), "2.1".to_string()));
    assert_eq!(archive_parts("foo-bar"), ("foo".to_string(), String::new()));
    assert_eq!(before_last_char(&['a', '.', 'b', '.', 'c'], '.'), vec!['a', '.', 'b']);
}

#[test]
fn archive_name_roundtrip() {
    for (n, v) in [("foo", "1.0"), ("a.b", "2.3.4"), ("x", "")] {
        let file = archive_name(n, v);
        assert_eq!(archive_parts(&file), (n.to_string(), v.to_string()));
    }
}

#[test]
fn download_sizes() {
    assert_eq!(total_size(&vec![1, 2, 3]), 6);
    assert_eq!(total_size(&Vec::new()), 0);
    assert_eq!(total_size(&vec![u64::MAX]), u64::MAX);
}

#[test]
fn dependency_fields() {
    let (deps, opts) = dependency_requests("a,b=2.0:,c");
    assert_eq!(deps, vec![("a".to_string(), None), ("b=2.0".to_string(), Some("2.0".to_string()))]);
    assert_eq!(opts, vec!["c"]);
    let (deps, opts) = dependency_requests(":");
    assert!(deps.is_empty());
    assert!(opts.is_empty());
    let (deps, _) = dependency_requests("x=1=2:");
    assert_eq!(deps, vec![("x=1=2".to_string(), Some("1".to_string()))]);
}

#[test]
fn blueprint_mode_is_always_asked() {
    assert_eq!(blueprint_mode(&strings(&["Name:x", "Version:1", "Mode:"])), None);
    assert_eq!(blueprint_mode(&strings(&["Name:x", "Version:1", "Mode:compiled"])), None);
    assert_eq!(blueprint_mode(&strings(&["Name:x", "Version:1", "Mode:source"])), None);
    assert_eq!(blueprint_mode(&strings(&["Name:x"])), None);
}

#[test]
fn data_listing_modes() {
    assert!(listing_looks_compiled("usr/\nusr/bin/x\n"));
    assert!(listing_looks_compiled("src/\netc/\n"));
    assert!(!listing_looks_compiled("src/\nMakefile\n"));
    assert!(!listing_looks_compiled("usr/bin/\nusr/\n"));
    assert!(!listing_looks_compiled(""));
    assert!(confirm_mode(true, true));
    assert!(!confirm_mode(true, false));
    assert!(confirm_mode(false, false));
}

#[test]
fn data_archive_steps() {
    assert_eq!(data_step(true, false), DataStep::Extract);
    assert_eq!(data_step(false, true), DataStep::Skip);
    assert_eq!(data_step(false, false), DataStep::Malformed);
}

#[test]
fn unpack_paths_and_lines() {
    assert_eq!(script_argument(true), "update");
    assert_eq!(script_argument(false), "install");
    assert_eq!(build_dir("foo"), "/tmp/build-foo");
    assert_eq!(saved_blueprint_path("/etc/eoka/", "foo", "1.0"), "/etc/eoka/bps/foo-1.0.gz");
    assert_eq!(update_log_line("01/02/2024-10:00", "foo", "1.0", "1.1"), "[01/02/2024-10:00] foo 1.0 -> 1.1");
}

#[test]
fn data_listing_top_level_entries() {
    assert_eq!(top_level_entries("usr/\netc/\nusr/bin/x\nopt/\n"), vec!["usr/", "etc/"]);
    assert!(top_level_entries("Makefile\nusr/").is_empty());
    assert_eq!(top_level_entries("src/"), vec!["src/"]);
}

#[test]
fn archives_live_in_their_package_directory() {
    let file = archive_name("foo", "1.0");
    assert_eq!(eoka::mirror::file_url("m.org", &file), "http://m.org/foo/foo-1.0.ek");
}

#[test]
fn archive_hash_file_names() {
    let file = archive_name("foo", "1.0");
    assert_eq!(eoka::integrity::hash_file_name(&file), "foo-1.0.b3");
    assert_eq!(eoka::integrity::hash_file_name(&archive_name("a", "")), "a-.b3");
}

fn drive(upgrade: bool, outcomes: &[StepOutcome]) -> Vec<UnpackAction> {
    let (mut state, first) = unpack_start(upgrade);
    let mut actions = vec![first];
    for o in outcomes {
        let (next, action) = unpack_step(state, *o);
        state = next;
        actions.push(action);
    }
    actions
}

#[test]
fn unpack_steps_in_order_when_all_succeed() {
    let ok = [StepOutcome::Succeeded; 8];
    assert_eq!(
        drive(true, &ok),
        vec![
            UnpackAction::CheckIntegrity,
            UnpackAction::ExtractArchive,
            UnpackAction::CheckBlueprint,
            UnpackAction::ReadBlueprint,
            UnpackAction::RunConf,
            UnpackAction::HandleData(DataStep::Extract),
            UnpackAction::RunPost,
            UnpackAction::Record { log: true },
            UnpackAction::Finish,
        ]
    );
}

#[test]
fn unpack_failures_stop_before_recording() {
    let a = drive(false, &[StepOutcome::Failed, StepOutcome::Succeeded]);
    assert_eq!(a[1], UnpackAction::Abort { clean: false });
    assert_eq!(a[2], UnpackAction::Abort { clean: false });
    let a = drive(false, &[
        StepOutcome::Succeeded,
        StepOutcome::Succeeded,
        StepOutcome::Succeeded,
        StepOutcome::ModeChosen(true),
        StepOutcome::Failed,
    ]);
    assert_eq!(a[5], UnpackAction::Abort { clean: true });
    assert!(!a.iter().any(|x| matches!(x, UnpackAction::Record { .. })));
}

#[test]
fn unpack_source_package_needs_conf() {
    let a = drive(false, &[
        StepOutcome::Succeeded,
        StepOutcome::Succeeded,
        StepOutcome::Succeeded,
        StepOutcome::ModeChosen(false),
        StepOutcome::Missing,
        StepOutcome::Succeeded,
    ]);
    assert_eq!(a[5], UnpackAction::HandleData(DataStep::Malformed));
    assert_eq!(a[6], UnpackAction::Abort { clean: true });
    let a = drive(false, &[
        StepOutcome::Succeeded,
        StepOutcome::Succeeded,
        StepOutcome::Succeeded,
        StepOutcome::ModeChosen(false),
        StepOutcome::Succeeded,
        StepOutcome::Succeeded,
        StepOutcome::Failed,
    ]);
    assert_eq!(a[5], UnpackAction::HandleData(DataStep::Skip));
    assert_eq!(a[6], UnpackAction::RunPost);
    assert_eq!(a[7], UnpackAction::Record { log: false });
}
