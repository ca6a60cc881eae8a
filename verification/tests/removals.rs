use eoka::removal::{
    absolute_path, blueprint_line, blueprint_path, blueprint_problem, classify_removal_error,
    lists_no_dependencies, path_entries, removal_candidates, BlueprintField, BlueprintProblem,
    RemovalError,
};

#[test]
fn blueprint_locations() {
    assert_eq!(blueprint_path("/etc/eoka/", "foo", "1.0"), "/etc/eoka/bps/foo-1.0");
    assert_eq!(blueprint_problem("1.0", "1.1"), BlueprintProblem::OtherVersionInstalled);
    assert_eq!(blueprint_problem("1.1", "1.1"), BlueprintProblem::Unreadable);
}

#[test]
fn blueprint_lines() {
    let (f, k) = blueprint_line("Dependencies:a,b::c");
    assert_eq!(f, vec!["Dependencies", "a,b", "", "c"]);
    assert_eq!(k, BlueprintField::Dependencies);
    assert!(!lists_no_dependencies(&f));
    let (f, k) = blueprint_line("Dependencies:::");
    assert_eq!(k, BlueprintField::Dependencies);
    assert!(lists_no_dependencies(&f));
    assert_eq!(blueprint_line("Paths:usr/bin/x").1, BlueprintField::Paths);
    assert_eq!(blueprint_line(":x").1, BlueprintField::Blank);
    assert_eq!(blueprint_line("").1, BlueprintField::Blank);
    assert_eq!(blueprint_line("Name:foo").1, BlueprintField::Unknown);
}

#[test]
fn removal_lists() {
    assert!(removal_candidates("").is_empty());
    assert_eq!(removal_candidates("a,b"), vec!["a", "b"]);
    assert_eq!(path_entries(""), None);
    assert_eq!(path_entries("usr/bin/x,/etc/x"), Some(vec!["usr/bin/x".to_string(), "/etc/x".to_string()]));
}

#[test]
fn paths_are_made_absolute() {
    assert_eq!(absolute_path("usr/bin/x"), "/usr/bin/x");
    assert_eq!(absolute_path("/etc/x"), "/etc/x");
    let once = absolute_path("opt/y");
    assert_eq!(absolute_path(&once), once);
}

#[test]
fn removal_errors() {
    assert_eq!(classify_removal_error("Not a directory (os error 20)"), RemovalError::NotADirectory);
    assert_eq!(classify_removal_error("No such file or directory (os error 2)"), RemovalError::Missing);
    assert_eq!(classify_removal_error("Permission denied (os error 13)"), RemovalError::Other);
}
