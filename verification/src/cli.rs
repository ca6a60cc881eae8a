//! The command line: commands and their arguments, answers to yes/no
//! questions, status tags, and the small decisions taken around downloads
//! and directories.

use vstd::prelude::*;
use crate::text::{
    chars_of, joined, contains_seq, lowercase, split_seq, split_str, str_contains, str_eq, to_lower,
    trim, trim_spec, all_ascii, ascii_lower,
};

verus! {

/// A command of the package manager.
#[derive(Clone, Copy, Debug, PartialEq, Eq, Structural)]
pub enum Command {
    /// "-S", "update" or "sync": synchronise the package database.
    Sync,
    /// "-U" or "upgrade": upgrade the given packages, or all of them.
    Upgrade,
    /// "-I", "install" or "get": install the given packages.
    Install,
    /// "-Q" or "query": show the given packages.
    Query,
    /// "-L" or "list": list packages.
    List,
    /// "remove": remove the given packages.
    Remove,
    /// "-v" or "--version": show the version of the program.
    Version,
    /// Anything else.
    Unrecognised,
}

/// The command that an argument names.
pub open spec fn command_spec(arg: Seq<char>) -> Command {
    if arg == "-S"@ || arg == "update"@ || arg == "sync"@ {
        Command::Sync
    } else if arg == "-U"@ || arg == "upgrade"@ {
        Command::Upgrade
    } else if arg == "-I"@ || arg == "install"@ || arg == "get"@ {
        Command::Install
    } else if arg == "-Q"@ || arg == "query"@ {
        Command::Query
    } else if arg == "-L"@ || arg == "list"@ {
        Command::List
    } else if arg == "remove"@ {
        Command::Remove
    } else if arg == "-v"@ || arg == "--version"@ {
        Command::Version
    } else {
        Command::Unrecognised
    }
}

/// Each command is named by exactly its own words: "-S", "update" and
/// "sync" synchronise; "-U" and "upgrade" upgrade; "-I", "install" and "get"
/// install; "-Q" and "query" query; "-L" and "list" list; "remove" removes;
/// "-v" and "--version" show the version; nothing else names a command.
pub proof fn lemma_command_words(a: Seq<char>)
    ensures
        (command_spec(a) == Command::Sync) <==> (a == "-S"@ || a == "update"@ || a == "sync"@),
        (command_spec(a) == Command::Upgrade) <==> (a == "-U"@ || a == "upgrade"@),
        (command_spec(a) == Command::Install) <==> (a == "-I"@ || a == "install"@ || a == "get"@),
        (command_spec(a) == Command::Query) <==> (a == "-Q"@ || a == "query"@),
        (command_spec(a) == Command::List) <==> (a == "-L"@ || a == "list"@),
        (command_spec(a) == Command::Remove) <==> (a == "remove"@),
        (command_spec(a) == Command::Version) <==> (a == "-v"@ || a == "--version"@),
{
    reveal_strlit("-S");
    reveal_strlit("update");
    reveal_strlit("sync");
    reveal_strlit("-U");
    reveal_strlit("upgrade");
    reveal_strlit("-I");
    reveal_strlit("install");
    reveal_strlit("get");
    reveal_strlit("-Q");
    reveal_strlit("query");
    reveal_strlit("-L");
    reveal_strlit("list");
    reveal_strlit("remove");
    reveal_strlit("-v");
    reveal_strlit("--version");
    assert("-S"@.len() == 2);
    assert("update"@.len() == 6);
    assert("sync"@.len() == 4);
    assert("-U"@.len() == 2);
    assert("upgrade"@.len() == 7);
    assert("-I"@.len() == 2);
    assert("install"@.len() == 7);
    assert("get"@.len() == 3);
    assert("-Q"@.len() == 2);
    assert("query"@.len() == 5);
    assert("-L"@.len() == 2);
    assert("list"@.len() == 4);
    assert("remove"@.len() == 6);
    assert("-v"@.len() == 2);
    assert("--version"@.len() == 9);
    assert("-S"@[1] != "-U"@[1]);
    assert("-S"@[1] != "-I"@[1]);
    assert("-S"@[1] != "-Q"@[1]);
    assert("-S"@[1] != "-L"@[1]);
    assert("-S"@[1] != "-v"@[1]);
    assert("update"@[0] != "remove"@[0]);
    assert("sync"@[0] != "list"@[0]);
    assert("-U"@[1] != "-I"@[1]);
    assert("-U"@[1] != "-Q"@[1]);
    assert("-U"@[1] != "-L"@[1]);
    assert("-U"@[1] != "-v"@[1]);
    assert("upgrade"@[0] != "install"@[0]);
    assert("-I"@[1] != "-Q"@[1]);
    assert("-I"@[1] != "-L"@[1]);
    assert("-I"@[1] != "-v"@[1]);
    assert("-Q"@[1] != "-L"@[1]);
    assert("-Q"@[1] != "-v"@[1]);
    assert("-L"@[1] != "-v"@[1]);
}

/// The command that the argument `arg` names.
pub fn parse_command(arg: &str) -> (r: Command)
    ensures
        r == command_spec(arg@),
{
    if str_eq(arg, "-S") || str_eq(arg, "update") || str_eq(arg, "sync") {
        Command::Sync
    } else if str_eq(arg, "-U") || str_eq(arg, "upgrade") {
        Command::Upgrade
    } else if str_eq(arg, "-I") || str_eq(arg, "install") || str_eq(arg, "get") {
        Command::Install
    } else if str_eq(arg, "-Q") || str_eq(arg, "query") {
        Command::Query
    } else if str_eq(arg, "-L") || str_eq(arg, "list") {
        Command::List
    } else if str_eq(arg, "remove") {
        Command::Remove
    } else if str_eq(arg, "-v") || str_eq(arg, "--version") {
        Command::Version
    } else {
        Command::Unrecognised
    }
}

/// Which packages the list command shows.
#[derive(Clone, Copy, Debug, PartialEq, Eq, Structural)]
pub enum ListKind {
    /// "upgradable": installed packages with a newer mirror version.
    Upgradable,
    /// "installed": installed packages.
    Installed,
    /// "upgraded" or "updated": the update log.
    Upgraded,
    /// "all": every package.
    All,
    /// Any other option.
    Unknown,
}

/// Which packages the list option `opt` shows.
pub fn parse_list_kind(opt: &str) -> (r: ListKind)
    ensures
        r == if opt@ == "upgradable"@ {
            ListKind::Upgradable
        } else if opt@ == "installed"@ {
            ListKind::Installed
        } else if opt@ == "upgraded"@ || opt@ == "updated"@ {
            ListKind::Upgraded
        } else if opt@ == "all"@ {
            ListKind::All
        } else {
            ListKind::Unknown
        },
{
    if str_eq(opt, "upgradable") {
        ListKind::Upgradable
    } else if str_eq(opt, "installed") {
        ListKind::Installed
    } else if str_eq(opt, "upgraded") || str_eq(opt, "updated") {
        ListKind::Upgraded
    } else if str_eq(opt, "all") {
        ListKind::All
    } else {
        ListKind::Unknown
    }
}

/// The answer that a normalised reply gives to a yes/no question: an empty
/// reply stands for `default`; "y" is yes, "n" is no, anything else asks
/// again.
pub open spec fn answer_spec(reply: Seq<char>, default: Seq<char>) -> Option<bool> {
    let a = if reply.len() == 0 {
        default
    } else {
        reply
    };
    if a == "y"@ {
        Some(true)
    } else if a == "n"@ {
        Some(false)
    } else {
        None
    }
}

/// The answer that a normalised reply gives, `None` when the question must
/// be asked again.
pub fn answer_from(reply: &str, default: &str) -> (r: Option<bool>)
    ensures
        r == answer_spec(reply@, default@),
{
    let a = if reply.is_empty() {
        default
    } else {
        reply
    };
    if str_eq(a, "y") {
        Some(true)
    } else if str_eq(a, "n") {
        Some(false)
    } else {
        None
    }
}

/// The answer that a line typed by the user gives to a yes/no question: the
/// line is trimmed and lowercased first.
pub fn interpret_answer(line: &str, default: &str) -> (r: Option<bool>)
    ensures
        r == answer_spec(lowercase(trim_spec(line@)), default@),
        all_ascii(trim_spec(line@)) ==> r == answer_spec(ascii_lower(trim_spec(line@)), default@),
{
    let t = trim(line);
    let l = to_lower(t);
    answer_from(l.as_str(), default)
}

/// An empty line takes the default answer.
pub proof fn lemma_empty_line_takes_default(default: Seq<char>)
    ensures
        answer_spec(Seq::<char>::empty(), default) == answer_spec(default, default),
{
}

/// The colour of a status tag.
#[derive(Clone, Copy, Debug, PartialEq, Eq, Structural)]
pub enum Tone {
    Green,
    Red,
    Yellow,
    Purple,
}

/// The tag and colour of status code `method`: 0 is "[OK]" in green, 1
/// "[ERROR]" in red, 3 "[WARN]" in yellow, any other "[INFO]" in purple.
pub fn status_tag(method: u8) -> (r: (String, Tone))
    ensures
        method == 0 ==> r.0@ == "[OK]"@ && r.1 == Tone::Green,
        method == 1 ==> r.0@ == "[ERROR]"@ && r.1 == Tone::Red,
        method == 3 ==> r.0@ == "[WARN]"@ && r.1 == Tone::Yellow,
        method != 0 && method != 1 && method != 3 ==> r.0@ == "[INFO]"@ && r.1 == Tone::Purple,
{
    match method {
        0 => ("[OK]".to_owned(), Tone::Green),
        1 => ("[ERROR]".to_owned(), Tone::Red),
        3 => ("[WARN]".to_owned(), Tone::Yellow),
        _ => ("[INFO]".to_owned(), Tone::Purple),
    }
}

/// Whether a directory that could not be created is removed and created
/// again: when the error says it already exists ("os error 17").
pub fn recreate_after(message: &str) -> (r: bool)
    ensures
        r == contains_seq(message@, "os error 17"@),
{
    str_contains(message, "os error 17")
}

/// The local file name of a download: the last '/'-separated part of its
/// address.
pub fn download_name(url: &str) -> (r: String)
    ensures
        r@ == split_seq(url@, '/').last(),
{
    proof {
        crate::text::lemma_split_nonempty(url@, '/');
    }
    let parts = split_str(url, '/');
    let n = parts.len();
    assert(parts.deep_view()[n - 1] == parts@[n - 1]@);
    parts[n - 1].clone()
}

/// The address requested for a download.
pub fn download_target(url: &str) -> (r: String)
    ensures
        r@ == "http://"@ + url@,
{
    joined("http://", url)
}

/// The progress of a download of `total` bytes after a chunk of `chunk`
/// bytes arrives when `downloaded` have arrived: their sum, capped at the
/// total.
pub fn advance_progress(downloaded: u64, chunk: u64, total: u64) -> (r: u64)
    requires
        downloaded + chunk <= u64::MAX,
    ensures
        r == if downloaded + chunk < total { downloaded + chunk } else { total as int },
{
    let sum = downloaded + chunk;
    if sum < total {
        sum
    } else {
        total
    }
}

/// What an argument of the option-letter command line asks for.
#[derive(Clone, Copy, Debug, PartialEq, Eq, Structural)]
pub enum LetterAction {
    /// "-V": show the version.
    ShowVersion,
    /// "-v": be verbose.
    Verbose,
    /// "-L": list packages (nothing is done).
    List,
    /// "-S": check whether the package database is up to date.
    CheckDatabase,
    /// "-i": install a package from the mirror.
    Install,
    /// "-r" or "remove": announce a removal.
    Remove,
    /// "-p" or "purge": announce a purge.
    Purge,
    /// "-u" or "update": announce an update.
    Update,
    /// "-U" or "upgrade": announce an upgrade of all packages.
    Upgrade,
    /// "-l": list the options.
    Help,
    /// Any other option.
    UnknownOption,
    /// "sync": announce a synchronisation.
    SyncWord,
    /// "install": announce an installation.
    InstallWord,
    /// Any other word.
    UnknownWord,
}

/// What a non-empty argument of the option-letter command line asks for:
/// an argument starting with '-' is an option named by its second character,
/// any other is a word.
pub open spec fn letter_action_spec(arg: Seq<char>) -> LetterAction {
    if arg[0] == '-' {
        let c = arg[1];
        if c == 'V' {
            LetterAction::ShowVersion
        } else if c == 'v' {
            LetterAction::Verbose
        } else if c == 'L' {
            LetterAction::List
        } else if c == 'S' {
            LetterAction::CheckDatabase
        } else if c == 'i' {
            LetterAction::Install
        } else if c == 'r' {
            LetterAction::Remove
        } else if c == 'p' {
            LetterAction::Purge
        } else if c == 'u' {
            LetterAction::Update
        } else if c == 'U' {
            LetterAction::Upgrade
        } else if c == 'l' {
            LetterAction::Help
        } else {
            LetterAction::UnknownOption
        }
    } else if arg == "sync"@ {
        LetterAction::SyncWord
    } else if arg == "install"@ {
        LetterAction::InstallWord
    } else if arg == "remove"@ {
        LetterAction::Remove
    } else if arg == "purge"@ {
        LetterAction::Purge
    } else if arg == "update"@ {
        LetterAction::Update
    } else if arg == "upgrade"@ {
        LetterAction::Upgrade
    } else {
        LetterAction::UnknownWord
    }
}

/// What an argument of the option-letter command line asks for.
pub fn letter_action(arg: &str) -> (r: LetterAction)
    requires
        arg@.len() >= 1,
        arg@[0] == '-' ==> arg@.len() >= 2,
    ensures
        r == letter_action_spec(arg@),
{
    let cs = chars_of(arg);
    if cs[0] == '-' {
        let c = cs[1];
        if c == 'V' {
            LetterAction::ShowVersion
        } else if c == 'v' {
            LetterAction::Verbose
        } else if c == 'L' {
            LetterAction::List
        } else if c == 'S' {
            LetterAction::CheckDatabase
        } else if c == 'i' {
            LetterAction::Install
        } else if c == 'r' {
            LetterAction::Remove
        } else if c == 'p' {
            LetterAction::Purge
        } else if c == 'u' {
            LetterAction::Update
        } else if c == 'U' {
            LetterAction::Upgrade
        } else if c == 'l' {
            LetterAction::Help
        } else {
            LetterAction::UnknownOption
        }
    } else if str_eq(arg, "sync") {
        LetterAction::SyncWord
    } else if str_eq(arg, "install") {
        LetterAction::InstallWord
    } else if str_eq(arg, "remove") {
        LetterAction::Remove
    } else if str_eq(arg, "purge") {
        LetterAction::Purge
    } else if str_eq(arg, "update") {
        LetterAction::Update
    } else if str_eq(arg, "upgrade") {
        LetterAction::Upgrade
    } else {
        LetterAction::UnknownWord
    }
}

} // verus!
