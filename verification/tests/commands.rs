use eoka::cli::{
    advance_progress, answer_from, download_name, download_target, interpret_answer,
    letter_action, parse_command, parse_list_kind, recreate_after, status_tag, Command,
    LetterAction, ListKind, Tone,
};

#[test]
fn commands() {
    assert_eq!(parse_command("-S"), Command::Sync);
    assert_eq!(parse_command("sync"), Command::Sync);
    assert_eq!(parse_command("update"), Command::Sync);
    assert_eq!(parse_command("upgrade"), Command::Upgrade);
    assert_eq!(parse_command("get"), Command::Install);
    assert_eq!(parse_command("-Q"), Command::Query);
    assert_eq!(parse_command("list"), Command::List);
    assert_eq!(parse_command("remove"), Command::Remove);
    assert_eq!(parse_command("--version"), Command::Version);
    assert_eq!(parse_command("-R"), Command::Unrecognised);
}

#[test]
fn list_kinds() {
    assert_eq!(parse_list_kind("upgradable"), ListKind::Upgradable);
    assert_eq!(parse_list_kind("installed"), ListKind::Installed);
    assert_eq!(parse_list_kind("updated"), ListKind::Upgraded);
    assert_eq!(parse_list_kind("upgraded"), ListKind::Upgraded);
    assert_eq!(parse_list_kind("all"), ListKind::All);
    assert_eq!(parse_list_kind("some"), ListKind::Unknown);
}

#[test]
fn answers() {
    assert_eq!(answer_from("y", "n"), Some(true));
    assert_eq!(answer_from("n", "y"), Some(false));
    assert_eq!(answer_from("", "y"), Some(true));
    assert_eq!(answer_from("", "x"), None);
    assert_eq!(answer_from("yes", "y"), None);
}

#[test]
fn typed_answers_are_trimmed_and_lowercased() {
    assert_eq!(interpret_answer(" Y \n", "n"), Some(true));
    assert_eq!(interpret_answer("N\n", "y"), Some(false));
    assert_eq!(interpret_answer("\n", "y"), Some(true));
    assert_eq!(interpret_answer("", "n"), Some(false));
    assert_eq!(interpret_answer("maybe\n", "y"), None);
}

#[test]
fn status_tags() {
    assert_eq!(status_tag(0), ("[OK]".to_string(), Tone::Green));
    assert_eq!(status_tag(1), ("[ERROR]".to_string(), Tone::Red));
    assert_eq!(status_tag(3), ("[WARN]".to_string(), Tone::Yellow));
    assert_eq!(status_tag(2), ("[INFO]".to_string(), Tone::Purple));
}

#[test]
fn directory_recreation() {
    assert!(recreate_after("File exists (os error 17)"));
    assert!(!recreate_after("Permission denied (os error 13)"));
}

#[test]
fn downloads() {
    assert_eq!(download_name("mirror.example.org/eoka.db"), "eoka.db");
    assert_eq!(download_name("mirror.example.org/"), "");
    assert_eq!(download_target("mirror.example.org/eoka.db"), "http://mirror.example.org/eoka.db");
    assert_eq!(advance_progress(10, 5, 12), 12);
    assert_eq!(advance_progress(1, 5, 12), 6);
}

#[test]
fn letter_arguments() {
    assert_eq!(letter_action("-V"), LetterAction::ShowVersion);
    assert_eq!(letter_action("-v"), LetterAction::Verbose);
    assert_eq!(letter_action("-S"), LetterAction::CheckDatabase);
    assert_eq!(letter_action("-i"), LetterAction::Install);
    assert_eq!(letter_action("-x"), LetterAction::UnknownOption);
    assert_eq!(letter_action("remove"), LetterAction::Remove);
    assert_eq!(letter_action("sync"), LetterAction::SyncWord);
    assert_eq!(letter_action("other"), LetterAction::UnknownWord);
}

#[test]
fn unicode_white_space_is_trimmed() {
    assert_eq!(interpret_answer("\u{3000}y\u{a0}\r\n", "n"), Some(true));
    assert_eq!(interpret_answer("\t n\t", "y"), Some(false));
}
