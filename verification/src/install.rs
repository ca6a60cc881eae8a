//! Installing and upgrading packages: the package and version asked for, the
//! confirmation asked of the user, the archives of the package and of its
//! dependencies, and the steps of unpacking an archive.

use vstd::prelude::*;
use crate::integrity::{hash_name_spec, last_index_of, lemma_last_index_append};
use crate::mirror::file_url_spec;
use crate::text::{
    chars_of, joined, lowercase, split_chars, split_seq, split_str, str_eq, string_of, to_lower,
    count_char,
};

verus! {

/// The package name and, when given, the version of an install request
/// "name" or "name=version".
pub fn target_parts(arg: &str) -> (r: Vec<String>)
    ensures
        r.deep_view() == split_seq(arg@, '='),
        r@.len() >= 1,
{
    proof {
        crate::text::lemma_split_nonempty(arg@, '=');
    }
    split_str(arg, '=')
}

/// The version to install: the one requested, or the mirror version when
/// none was.
pub open spec fn target_version_spec(parts: Seq<Seq<char>>, rversion: Seq<char>) -> Seq<char> {
    if parts.len() == 1 {
        rversion
    } else {
        parts[1]
    }
}

/// The version to install for the request `parts`.
pub fn target_version(parts: &Vec<String>, rversion: &String) -> (r: String)
    requires
        parts@.len() >= 1,
    ensures
        r@ == target_version_spec(parts.deep_view(), rversion@),
{
    if parts.len() == 1 {
        rversion.clone()
    } else {
        parts[1].clone()
    }
}

/// The question asked before installing a package.
#[derive(Clone, Copy, Debug, PartialEq, Eq, Structural)]
pub enum InstallPrompt {
    /// The requested version is the installed one: reinstall it? (default no)
    Reinstall,
    /// Another version is installed: change to the requested one? (default no)
    ChangeVersion,
    /// An upgrade was asked of a package that is not installed: install it?
    /// (default yes)
    InstallMissing,
    /// Nothing to ask.
    Proceed,
}

/// The question asked before installing `wanted` of a package whose installed
/// version is `lversion` ("0" when not installed).
pub open spec fn install_prompt_spec(lversion: Seq<char>, wanted: Seq<char>, upgrade: bool) -> InstallPrompt {
    if lversion == wanted {
        InstallPrompt::Reinstall
    } else if lversion != "0"@ {
        InstallPrompt::ChangeVersion
    } else if upgrade {
        InstallPrompt::InstallMissing
    } else {
        InstallPrompt::Proceed
    }
}

/// The question to ask before installing `wanted`.
pub fn install_prompt(lversion: &str, wanted: &str, upgrade: bool) -> (r: InstallPrompt)
    ensures
        r == install_prompt_spec(lversion@, wanted@, upgrade),
{
    if str_eq(lversion, wanted) {
        InstallPrompt::Reinstall
    } else if !str_eq(lversion, "0") {
        InstallPrompt::ChangeVersion
    } else if upgrade {
        InstallPrompt::InstallMissing
    } else {
        InstallPrompt::Proceed
    }
}

/// Whether the question is answered yes when the user just presses enter.
pub fn prompt_default_yes(p: InstallPrompt) -> (r: bool)
    ensures
        r == (p == InstallPrompt::InstallMissing),
{
    match p {
        InstallPrompt::InstallMissing => true,
        _ => false,
    }
}

/// How an accepted installation proceeds.
pub struct InstallMode {
    /// Whether the package is upgraded (its scripts run in update mode).
    pub upgrade: bool,
    /// The version replaced, whose saved blueprint is deleted.
    pub previous: Option<String>,
}

/// Whether an accepted installation after `prompt` is an upgrade.
pub open spec fn mode_upgrade_spec(prompt: InstallPrompt, upgrade: bool) -> bool {
    match prompt {
        InstallPrompt::ChangeVersion => true,
        InstallPrompt::InstallMissing => false,
        _ => upgrade,
    }
}

/// How an installation proceeds once the question `prompt` was accepted:
/// changing versions is an upgrade, installing a package that was missing is
/// not, and an upgrade replaces the installed version.
pub fn install_mode(prompt: InstallPrompt, upgrade: bool, lversion: &String) -> (r: InstallMode)
    ensures
        r.upgrade == mode_upgrade_spec(prompt, upgrade),
        r.previous.deep_view() == if r.upgrade { Some(lversion@) } else { None },
{
    let up = match prompt {
        InstallPrompt::ChangeVersion => true,
        InstallPrompt::InstallMissing => false,
        _ => upgrade,
    };
    if up {
        InstallMode { upgrade: true, previous: Some(lversion.clone()) }
    } else {
        InstallMode { upgrade: false, previous: None }
    }
}

/// Reinstalling the installed version keeps the mode the command asked for;
/// installing a package that is not installed, when no upgrade was asked,
/// is not an upgrade; only installing a version other than the installed one
/// of an installed package turns the installation into an upgrade.
pub proof fn lemma_install_mode_follows_request(lversion: Seq<char>, wanted: Seq<char>, upgrade: bool)
    ensures
        lversion == wanted ==> mode_upgrade_spec(install_prompt_spec(lversion, wanted, upgrade), upgrade)
            == upgrade,
        lversion != wanted && lversion != "0"@ ==> mode_upgrade_spec(
            install_prompt_spec(lversion, wanted, upgrade),
            upgrade,
        ),
        lversion != wanted && lversion == "0"@ ==> !mode_upgrade_spec(
            install_prompt_spec(lversion, wanted, upgrade),
            upgrade,
        ),
        mode_upgrade_spec(InstallPrompt::Reinstall, upgrade) == upgrade,
        mode_upgrade_spec(InstallPrompt::Proceed, upgrade) == upgrade,
        mode_upgrade_spec(InstallPrompt::ChangeVersion, upgrade),
        !mode_upgrade_spec(InstallPrompt::InstallMissing, upgrade),
{
}

/// The archive of version `version` of package `name`.
pub open spec fn archive_name_spec(name: Seq<char>, version: Seq<char>) -> Seq<char> {
    name + "-"@ + version + ".ek"@
}

/// The archive of version `version` of package `name`: "name-version.ek".
pub fn archive_name(name: &str, version: &str) -> (r: String)
    ensures
        r@ == archive_name_spec(name@, version@),
{
    let a = joined(name, "-");
    let b = joined(a.as_str(), version);
    joined(b.as_str(), ".ek")
}

/// The text of `s` before its last `c`, empty when there is none.
pub open spec fn before_last(s: Seq<char>, c: char) -> Seq<char> {
    match last_index_of(s, c) {
        Some(i) => s.take(i),
        None => Seq::<char>::empty(),
    }
}

/// The package name and version of an archive file name: the name is the
/// text before the first '-', the version the text after the last '-'
/// without its extension.
pub open spec fn archive_parts_spec(file: Seq<char>) -> (Seq<char>, Seq<char>) {
    let pieces = split_seq(file, '-');
    (pieces[0], before_last(pieces[pieces.len() - 1], '.'))
}

/// The package name and version of an archive file name.
pub fn archive_parts(file: &str) -> (r: (String, String))
    ensures
        r.0@ == archive_parts_spec(file@).0,
        r.1@ == archive_parts_spec(file@).1,
{
    let cs = chars_of(file);
    let pieces = split_chars(cs.as_slice(), '-');
    proof {
        crate::text::lemma_split_nonempty(cs@, '-');
    }
    let n = pieces.len();
    assert(pieces@[0].deep_view() =~= pieces@[0]@);
    assert(pieces@[n - 1].deep_view() =~= pieces@[n - 1]@);
    let name = string_of(pieces[0].as_slice());
    let version = before_last_char(pieces[n - 1].as_slice(), '.');
    (name, string_of(version.as_slice()))
}

/// The characters of `s` before its last `c`, none when there is no `c`.
pub fn before_last_char(s: &[char], c: char) -> (r: Vec<char>)
    ensures
        r@ == before_last(s@, c),
{
    let mut i: usize = s.len();
    assert(s@.take(i as int) =~= s@);
    while i > 0
        invariant
            i <= s@.len(),
            last_index_of(s@, c) == last_index_of(s@.take(i as int), c),
        decreases i,
    {
        assert(s@.take(i as int).drop_last() =~= s@.take(i - 1));
        if s[i - 1] == c {
            let mut out: Vec<char> = Vec::new();
            let mut j: usize = 0;
            while j < i - 1
                invariant
                    j <= i - 1,
                    i <= s@.len(),
                    out@ == s@.take(j as int),
                decreases i - 1 - j,
            {
                out.push(s[j]);
                j = j + 1;
                assert(out@ =~= s@.take(j as int));
            }
            return out;
        }
        i = i - 1;
    }
    Vec::new()
}

/// Reading the name and version back from the archive name of a package
/// gives them again, when neither holds a '-'.
pub proof fn lemma_archive_parts_roundtrip(name: Seq<char>, version: Seq<char>)
    requires
        !name.contains('-'),
        !version.contains('-'),
    ensures
        archive_parts_spec(archive_name_spec(name, version)) == (name, version),
{
    reveal_strlit("-");
    reveal_strlit(".ek");
    let ext = ".ek"@;
    let tail = version + ext;
    assert(!tail.contains('-')) by {
        if tail.contains('-') {
            let k = choose|k: int| 0 <= k < tail.len() && tail[k] == '-';
            if k < version.len() {
                assert(version[k] == '-');
            } else {
                assert(ext[k - version.len()] == '-');
            }
        }
    }
    let head = name + "-"@;
    assert(archive_name_spec(name, version) =~= head + tail);
    crate::text::lemma_split_without_sep(name, '-');
    assert(head.drop_last() =~= name);
    assert(split_seq(head, '-') == seq![name].push(Seq::<char>::empty()));
    crate::text::lemma_split_append_plain(head, tail, '-');
    let pieces = split_seq(head + tail, '-');
    assert(pieces.len() == 2);
    assert(pieces.drop_last() == seq![name]);
    assert(pieces.drop_last()[0] == pieces[0]);
    assert(pieces[0] == name);
    assert(pieces[1] =~= tail);
    // The last '.' of "version.ek" is the one before "ek".
    assert(tail.drop_last().drop_last().last() == '.');
    assert(tail.last() == 'k');
    assert(tail.drop_last().last() == 'e');
    assert(tail.drop_last().drop_last().drop_last() =~= version);
    assert(last_index_of(tail.drop_last().drop_last(), '.') == Some(version.len() as int));
    assert(last_index_of(tail.drop_last(), '.') == Some(version.len() as int));
    assert(last_index_of(tail, '.') == Some(version.len() as int));
    assert(tail.take(version.len() as int) =~= version);
}

/// On every mirror, the archive of a package lies in the directory named
/// after the package, when the package name holds no '-'.
pub proof fn lemma_archive_in_package_dir(server: Seq<char>, name: Seq<char>, version: Seq<char>)
    requires
        !name.contains('-'),
    ensures
        file_url_spec(server, archive_name_spec(name, version)) == "http://"@ + server + "/"@
            + name + "/"@ + archive_name_spec(name, version),
{
    reveal_strlit("-");
    reveal_strlit("eoka.db");
    reveal_strlit("eoka.b3");
    let file = archive_name_spec(name, version);
    let head = name + "-"@;
    let tail = version + ".ek"@;
    assert(file =~= head + tail);
    assert(file[name.len() as int] == '-');
    assert(!"eoka.db"@.contains('-')) by {
        if "eoka.db"@.contains('-') {
            let k = choose|k: int| 0 <= k < "eoka.db"@.len() && "eoka.db"@[k] == '-';
        }
    }
    assert(!"eoka.b3"@.contains('-')) by {
        if "eoka.b3"@.contains('-') {
            let k = choose|k: int| 0 <= k < "eoka.b3"@.len() && "eoka.b3"@[k] == '-';
        }
    }
    assert(file.contains('-'));
    crate::text::lemma_split_without_sep(name, '-');
    assert(head.drop_last() =~= name);
    assert(split_seq(head, '-') == seq![name].push(Seq::<char>::empty()));
    crate::text::lemma_split_first_stable(head, tail, '-');
}

/// The hash file of a package archive is "name-version.b3", the file that is
/// cleaned up with the archive after unpacking.
pub proof fn lemma_archive_hash_name(name: Seq<char>, version: Seq<char>)
    ensures
        hash_name_spec(archive_name_spec(name, version)) == name + "-"@ + version + ".b3"@,
{
    reveal_strlit("-");
    reveal_strlit(".ek");
    reveal_strlit(".b3");
    let stem = name + "-"@ + version + seq!['.'];
    let ek = seq!['e', 'k'];
    assert(archive_name_spec(name, version) =~= stem + ek);
    assert(!ek.contains('.')) by {
        if ek.contains('.') {
            let k = choose|k: int| 0 <= k < ek.len() && ek[k] == '.';
        }
    }
    lemma_last_index_append(stem, ek, '.');
    assert(last_index_of(stem, '.') == Some(stem.len() - 1));
    assert((stem + ek).take(stem.len() as int) =~= stem);
    assert(stem + seq!['b', '3'] =~= name + "-"@ + version + ".b3"@);
}

/// The sum of `sizes`.
pub open spec fn sum_sizes(sizes: Seq<u64>) -> nat
    decreases sizes.len(),
{
    if sizes.len() == 0 {
        0
    } else {
        sum_sizes(sizes.drop_last()) + sizes.last() as nat
    }
}

proof fn lemma_sum_prefix_bounded(sizes: Seq<u64>, i: int)
    requires
        0 <= i <= sizes.len(),
    ensures
        sum_sizes(sizes.take(i)) <= sum_sizes(sizes),
    decreases sizes.len() - i,
{
    if i < sizes.len() {
        lemma_sum_prefix_bounded(sizes, i + 1);
        assert(sizes.take(i + 1).drop_last() =~= sizes.take(i));
    } else {
        assert(sizes.take(i) =~= sizes);
    }
}

/// The total download size of files of the given sizes.
pub fn total_size(sizes: &Vec<u64>) -> (r: u64)
    requires
        sum_sizes(sizes@) <= u64::MAX,
    ensures
        r == sum_sizes(sizes@),
{
    let mut total: u64 = 0;
    let mut i: usize = 0;
    while i < sizes.len()
        invariant
            i <= sizes@.len(),
            sum_sizes(sizes@) <= u64::MAX,
            total == sum_sizes(sizes@.take(i as int)),
        decreases sizes@.len() - i,
    {
        assert(sizes@.take(i + 1).drop_last() =~= sizes@.take(i as int));
        proof {
            lemma_sum_prefix_bounded(sizes@, i + 1);
        }
        total = total + sizes[i];
        i = i + 1;
    }
    assert(sizes@.take(sizes@.len() as int) =~= sizes@);
    total
}

/// A dependency request: the entry as written, and its version when it
/// names one after '='.
pub open spec fn dep_request(entry: Seq<char>) -> (Seq<char>, Option<Seq<char>>) {
    let s = split_seq(entry, '=');
    (entry, if s.len() == 1 { None } else { Some(s[1]) })
}

/// The requests for the non-empty entries of a list of required dependencies.
pub open spec fn dep_requests(entries: Seq<Seq<char>>) -> Seq<(Seq<char>, Option<Seq<char>>)>
    decreases entries.len(),
{
    if entries.len() == 0 {
        Seq::empty()
    } else {
        let rest = dep_requests(entries.drop_last());
        if entries.last().len() == 0 {
            rest
        } else {
            rest.push(dep_request(entries.last()))
        }
    }
}

/// The non-empty entries of a list.
pub open spec fn nonempty_entries(entries: Seq<Seq<char>>) -> Seq<Seq<char>>
    decreases entries.len(),
{
    if entries.len() == 0 {
        Seq::empty()
    } else {
        let rest = nonempty_entries(entries.drop_last());
        if entries.last().len() == 0 {
            rest
        } else {
            rest.push(entries.last())
        }
    }
}

/// The required and optional dependencies to fetch for a dependency field
/// "required:optional": the non-empty entries of each ','-separated list,
/// each required one with its version when it gives one after '='.
pub fn dependency_requests(field: &str) -> (r: (Vec<(String, Option<String>)>, Vec<String>))
    requires
        split_seq(field@, ':').len() >= 2,
    ensures
        r.0.deep_view() == dep_requests(split_seq(split_seq(field@, ':')[0], ',')),
        r.1.deep_view() == nonempty_entries(split_seq(split_seq(field@, ':')[1], ',')),
{
    let cs = chars_of(field);
    let halves = split_chars(cs.as_slice(), ':');
    assert(halves@[0].deep_view() =~= halves@[0]@);
    assert(halves@[1].deep_view() =~= halves@[1]@);
    let reqs = split_chars(halves[0].as_slice(), ',');
    let opts = split_chars(halves[1].as_slice(), ',');
    let ghost rq = reqs.deep_view();
    let ghost op = opts.deep_view();
    let mut deps: Vec<(String, Option<String>)> = Vec::new();
    let mut i: usize = 0;
    while i < reqs.len()
        invariant
            rq == reqs.deep_view(),
            i <= reqs@.len(),
            deps.deep_view() =~= dep_requests(rq.take(i as int)),
        decreases reqs@.len() - i,
    {
        assert(reqs@[i as int].deep_view() =~= reqs@[i as int]@);
        assert(rq.take(i + 1).drop_last() =~= rq.take(i as int));
        if reqs[i].len() != 0 {
            let entry = string_of(reqs[i].as_slice());
            let s = split_chars(reqs[i].as_slice(), '=');
            proof {
                crate::text::lemma_split_nonempty(reqs@[i as int]@, '=');
            }
            let version = if s.len() == 1 {
                None
            } else {
                assert(s@[1].deep_view() =~= s@[1]@);
                Some(string_of(s[1].as_slice()))
            };
            let ghost before = deps.deep_view();
            deps.push((entry, version));
            assert(deps.deep_view() =~= before.push(dep_request(rq[i as int])));
        }
        i = i + 1;
    }
    assert(rq.take(rq.len() as int) =~= rq);
    let mut optional: Vec<String> = Vec::new();
    let mut j: usize = 0;
    while j < opts.len()
        invariant
            op == opts.deep_view(),
            j <= opts@.len(),
            optional.deep_view() =~= nonempty_entries(op.take(j as int)),
        decreases opts@.len() - j,
    {
        assert(opts@[j as int].deep_view() =~= opts@[j as int]@);
        assert(op.take(j + 1).drop_last() =~= op.take(j as int));
        if opts[j].len() != 0 {
            let entry = string_of(opts[j].as_slice());
            let ghost before = optional.deep_view();
            optional.push(entry);
            assert(optional.deep_view() =~= before.push(op[j as int]));
        }
        j = j + 1;
    }
    assert(op.take(op.len() as int) =~= op);
    (deps, optional)
}


/// The mode that the third line of a blueprint, "Mode:...", declares: only a
/// line whose field after "Mode" is empty is examined, and its lowercase
/// form is then neither "source" nor "compiled", so the mode is never taken
/// from the blueprint and is always asked of the user.
pub open spec fn blueprint_mode_spec(lines: Seq<Seq<char>>) -> Option<bool> {
    if lines.len() >= 3 {
        let f = split_seq(lines[2], ':');
        if f[0] == "Mode"@ && f[1].len() == 0 {
            if lowercase(f[1]) == "source"@ {
                Some(false)
            } else if lowercase(f[1]) == "compiled"@ {
                Some(true)
            } else {
                None
            }
        } else {
            None
        }
    } else {
        None
    }
}

/// Whether a blueprint declares its package compiled (`Some(true)`) or
/// source (`Some(false)`); `None` when the mode must be asked.
pub fn blueprint_mode(lines: &Vec<String>) -> (r: Option<bool>)
    requires
        lines@.len() >= 3 && split_seq(lines@[2]@, ':')[0] == "Mode"@ ==> split_seq(
            lines@[2]@,
            ':',
        ).len() >= 2,
    ensures
        r == blueprint_mode_spec(lines.deep_view()),
        r is None,
{
    proof {
        reveal_strlit("source");
        reveal_strlit("compiled");
    }
    if lines.len() >= 3 {
        assert(lines.deep_view()[2] == lines@[2]@);
        let f = split_str(lines[2].as_str(), ':');
        proof {
            crate::text::lemma_split_nonempty(lines@[2]@, ':');
        }
        if str_eq(f[0].as_str(), "Mode") && f[1].as_str().is_empty() {
            let m = to_lower(f[1].as_str());
            if str_eq(m.as_str(), "source") {
                return Some(false);
            } else if str_eq(m.as_str(), "compiled") {
                return Some(true);
            }
        }
    }
    None
}

/// Whether a line of an archive listing is a top-level directory: it holds a
/// single '/', at its end.
pub open spec fn top_level_dir(x: Seq<char>) -> bool {
    count_char(x, '/') == 1 && x.len() > 0 && x.last() == '/'
}

/// How many lines at the front of a listing are top-level directories.
pub open spec fn top_level_prefix(lines: Seq<Seq<char>>) -> nat
    decreases lines.len(),
{
    if lines.len() == 0 {
        0
    } else if top_level_dir(lines[0]) {
        1 + top_level_prefix(lines.drop_first())
    } else {
        0
    }
}

/// Whether a top-level directory is one where compiled files are installed.
pub open spec fn system_dir(x: Seq<char>) -> bool {
    x == "var/"@ || x == "bin/"@ || x == "opt/"@ || x == "usr/"@ || x == "home/"@ || x == "etc/"@
}

/// Whether the listing of a data archive looks compiled: among the
/// top-level directories it starts with, one is a system directory.
pub open spec fn looks_compiled_spec(listing: Seq<char>) -> bool {
    let lines = split_seq(listing, '\n');
    exists|j: int| 0 <= j < top_level_prefix(lines) && system_dir(#[trigger] lines[j])
}

/// A listing whose first line is one of the directories var/, bin/, opt/,
/// usr/, home/ or etc/ looks compiled, whatever follows.
pub proof fn lemma_system_dir_listing_compiled(d: Seq<char>, rest: Seq<char>)
    requires
        d == "var/"@ || d == "bin/"@ || d == "opt/"@ || d == "usr/"@ || d == "home/"@ || d
            == "etc/"@,
    ensures
        looks_compiled_spec(d + seq!['\n'] + rest),
{
    reveal_strlit("var/");
    reveal_strlit("bin/");
    reveal_strlit("opt/");
    reveal_strlit("usr/");
    reveal_strlit("home/");
    reveal_strlit("etc/");
    assert(!d.contains('\n')) by {
        if d.contains('\n') {
            let k = choose|k: int| 0 <= k < d.len() && d[k] == '\n';
        }
    }
    assert(d.last() == '/');
    assert(d.len() >= 4);
    assert(d.drop_last().last() != '/');
    assert(count_char(d, '/') == 1) by {
        reveal_with_fuel(count_char, 6);
        if d.len() == 4 {
            assert(d.drop_last().drop_last().drop_last().drop_last() =~= Seq::<char>::empty());
        } else {
            assert(d.drop_last().drop_last().drop_last().drop_last().drop_last()
                =~= Seq::<char>::empty());
        }
    }
    assert(top_level_dir(d));
    let head = d + seq!['\n'];
    crate::text::lemma_split_without_sep(d, '\n');
    assert(head.drop_last() =~= d);
    assert(split_seq(head, '\n') == seq![d].push(Seq::<char>::empty()));
    crate::text::lemma_split_first_stable(head, rest, '\n');
    let lines = split_seq(head + rest, '\n');
    assert(lines[0] == d);
    assert(top_level_prefix(lines) >= 1);
    assert(system_dir(lines[0]));
}

fn count_slashes(x: &[char]) -> (r: usize)
    ensures
        r == count_char(x@, '/'),
{
    let mut n: usize = 0;
    let mut i: usize = 0;
    while i < x.len()
        invariant
            i <= x@.len(),
            n == count_char(x@.take(i as int), '/'),
            n <= i,
        decreases x@.len() - i,
    {
        assert(x@.take(i + 1).drop_last() =~= x@.take(i as int));
        if x[i] == '/' {
            n = n + 1;
        }
        i = i + 1;
    }
    assert(x@.take(x@.len() as int) =~= x@);
    n
}

fn is_system_dir(x: &[char]) -> (r: bool)
    ensures
        r == system_dir(x@),
{
    let s = string_of(x);
    str_eq(s.as_str(), "var/") || str_eq(s.as_str(), "bin/") || str_eq(s.as_str(), "opt/")
        || str_eq(s.as_str(), "usr/") || str_eq(s.as_str(), "home/") || str_eq(s.as_str(), "etc/")
}

/// Whether the listing of a data archive, one path per line, looks like
/// compiled content.
pub fn listing_looks_compiled(listing: &str) -> (r: bool)
    ensures
        r == looks_compiled_spec(listing@),
{
    let cs = chars_of(listing);
    let lines = split_chars(cs.as_slice(), '\n');
    let ghost l = lines.deep_view();
    let mut found = false;
    let mut i: usize = 0;
    assert(l.skip(0) =~= l);
    while i < lines.len()
        invariant
            l == lines.deep_view(),
            l == split_seq(listing@, '\n'),
            i <= l.len(),
            top_level_prefix(l) == i + top_level_prefix(l.skip(i as int)),
            forall|k: int| 0 <= k < i ==> top_level_dir(#[trigger] l[k]),
            found == exists|j: int| 0 <= j < i && system_dir(#[trigger] l[j]),
        decreases l.len() - i,
    {
        assert(lines@[i as int].deep_view() =~= lines@[i as int]@);
        assert(l.skip(i as int)[0] == l[i as int]);
        let x = lines[i].as_slice();
        let n = x.len();
        let top = count_slashes(x) == 1 && n > 0 && x[n - 1] == '/';
        if !top {
            assert(top_level_prefix(l) == i);
            return found;
        }
        assert(l.skip(i as int).drop_first() =~= l.skip(i + 1));
        if is_system_dir(x) {
            found = true;
        }
        i = i + 1;
    }
    assert(l.skip(l.len() as int) =~= Seq::<Seq<char>>::empty());
    found
}

/// The top-level directories that a data archive listing starts with.
pub fn top_level_entries(listing: &str) -> (r: Vec<String>)
    ensures
        r.deep_view() == split_seq(listing@, '\n').take(
            top_level_prefix(split_seq(listing@, '\n')) as int,
        ),
{
    let cs = chars_of(listing);
    let lines = split_chars(cs.as_slice(), '\n');
    let ghost l = lines.deep_view();
    let mut r: Vec<String> = Vec::new();
    let mut i: usize = 0;
    assert(l.skip(0) =~= l);
    while i < lines.len()
        invariant
            l == lines.deep_view(),
            l == split_seq(listing@, '\n'),
            i <= l.len(),
            top_level_prefix(l) == i + top_level_prefix(l.skip(i as int)),
            r.deep_view() =~= l.take(i as int),
        decreases l.len() - i,
    {
        assert(lines@[i as int].deep_view() =~= lines@[i as int]@);
        assert(l.skip(i as int)[0] == l[i as int]);
        let x = lines[i].as_slice();
        let n = x.len();
        let top = count_slashes(x) == 1 && n > 0 && x[n - 1] == '/';
        if !top {
            assert(top_level_prefix(l) == i);
            return r;
        }
        assert(l.skip(i as int).drop_first() =~= l.skip(i + 1));
        let entry = string_of(x);
        let ghost before = r.deep_view();
        r.push(entry);
        assert(r.deep_view() =~= before.push(l[i as int]));
        i = i + 1;
    }
    assert(l.skip(l.len() as int) =~= Seq::<Seq<char>>::empty());
    assert(l.take(l.len() as int) =~= l);
    r
}

/// The mode to manage a package in once the user was asked to confirm the
/// guessed one: the guess when confirmed, the other mode otherwise.
pub fn confirm_mode(guess: bool, confirmed: bool) -> (compiled: bool)
    ensures
        compiled == if confirmed { guess } else { !guess },
{
    if confirmed {
        guess
    } else {
        !guess
    }
}

/// What is done with the data archive of a package.
#[derive(Clone, Copy, Debug, PartialEq, Eq, Structural)]
pub enum DataStep {
    /// Extract it over the root directory.
    Extract,
    /// Leave it: the configuration script built the package.
    Skip,
    /// Abort: a source package must come with a configuration script.
    Malformed,
}

/// What is done with the data archive: a compiled package is extracted; a
/// source package is skipped when its configuration script ran, and is
/// malformed otherwise.
pub fn data_step(compiled: bool, configured: bool) -> (r: DataStep)
    ensures
        r == if compiled {
            DataStep::Extract
        } else if configured {
            DataStep::Skip
        } else {
            DataStep::Malformed
        },
{
    if !compiled {
        if !configured {
            return DataStep::Malformed;
        }
        return DataStep::Skip;
    }
    DataStep::Extract
}

/// The argument given to the scripts of a package: "update" when upgrading,
/// "install" otherwise.
pub fn script_argument(upgrade: bool) -> (r: String)
    ensures
        r@ == if upgrade { "update"@ } else { "install"@ },
{
    if upgrade {
        "update".to_owned()
    } else {
        "install".to_owned()
    }
}

/// The directory where the archive of package `name` is unpacked.
pub fn build_dir(name: &str) -> (r: String)
    ensures
        r@ == "/tmp/build-"@ + name@,
{
    joined("/tmp/build-", name)
}

/// Where the compressed blueprint of version `version` of package `name` is
/// kept, under the configuration directory `dir`.
pub fn saved_blueprint_path(dir: &str, name: &str, version: &str) -> (r: String)
    ensures
        r@ == dir@ + "bps/"@ + name@ + "-"@ + version@ + ".gz"@,
{
    let a = joined(dir, "bps/");
    let b = joined(a.as_str(), name);
    let c = joined(b.as_str(), "-");
    let d = joined(c.as_str(), version);
    joined(d.as_str(), ".gz")
}

/// The line recorded in the update log when package `name` goes from
/// version `old` to version `new` at time `stamp`: "[stamp] name old -> new".
pub fn update_log_line(stamp: &str, name: &str, old: &str, new: &str) -> (r: String)
    ensures
        r@ == "["@ + stamp@ + "] "@ + name@ + " "@ + old@ + " -> "@ + new@,
{
    let a = joined("[", stamp);
    let b = joined(a.as_str(), "] ");
    let c = joined(b.as_str(), name);
    let d = joined(c.as_str(), " ");
    let e = joined(d.as_str(), old);
    let f = joined(e.as_str(), " -> ");
    joined(f.as_str(), new)
}


/// The step of unpacking a package that is to be done next.
#[derive(Clone, Copy, Debug, PartialEq, Eq, Structural)]
pub enum UnpackStage {
    /// Check the digest of the archive.
    CheckIntegrity,
    /// Extract the archive into the build directory.
    ExtractArchive,
    /// Check that the archive holds a blueprint.
    CheckBlueprint,
    /// Read the blueprint, settle the mode and save the blueprint.
    ReadBlueprint,
    /// Run the configuration script conf.sh.
    RunConf,
    /// Deal with the data archive data.tgz.
    HandleData,
    /// Run the script post.sh.
    RunPost,
    /// Record the installed version (and log an upgrade).
    RecordVersion,
    /// The package is installed.
    Finished,
    /// The installation stopped; `clean` tells whether the files left behind
    /// are removed.
    Aborted { clean: bool },
}

/// The state of unpacking a package.
#[derive(Clone, Copy, Debug, PartialEq, Eq, Structural)]
pub struct UnpackState {
    /// The step to do next.
    pub stage: UnpackStage,
    /// Whether the package is managed as compiled.
    pub compiled: bool,
    /// Whether conf.sh ran successfully.
    pub configured: bool,
    /// Whether the package is upgraded.
    pub upgrade: bool,
}

/// How a step of unpacking went.
#[derive(Clone, Copy, Debug, PartialEq, Eq, Structural)]
pub enum StepOutcome {
    /// The step succeeded (for the data archive: the file was there and
    /// whatever was to be done with it succeeded).
    Succeeded,
    /// The step failed.
    Failed,
    /// The file of the step could not be opened, so the step was skipped.
    Missing,
    /// The blueprint was read and the package is managed as compiled or not.
    ModeChosen(bool),
}

/// What the program must do next while unpacking a package.
#[derive(Clone, Copy, Debug, PartialEq, Eq, Structural)]
pub enum UnpackAction {
    CheckIntegrity,
    ExtractArchive,
    CheckBlueprint,
    ReadBlueprint,
    RunConf,
    /// Deal with the data archive as the step says.
    HandleData(DataStep),
    RunPost,
    /// Record the installed version; `log` tells whether the upgrade is
    /// written to the update log first.
    Record { log: bool },
    /// Report success.
    Finish,
    /// Report failure, removing the files left behind when `clean`.
    Abort { clean: bool },
}

/// The data step that the state calls for.
pub open spec fn data_step_spec(compiled: bool, configured: bool) -> DataStep {
    if compiled {
        DataStep::Extract
    } else if configured {
        DataStep::Skip
    } else {
        DataStep::Malformed
    }
}

/// What the program does in a state.
pub open spec fn unpack_action_spec(s: UnpackState) -> UnpackAction {
    match s.stage {
        UnpackStage::CheckIntegrity => UnpackAction::CheckIntegrity,
        UnpackStage::ExtractArchive => UnpackAction::ExtractArchive,
        UnpackStage::CheckBlueprint => UnpackAction::CheckBlueprint,
        UnpackStage::ReadBlueprint => UnpackAction::ReadBlueprint,
        UnpackStage::RunConf => UnpackAction::RunConf,
        UnpackStage::HandleData => UnpackAction::HandleData(data_step_spec(s.compiled, s.configured)),
        UnpackStage::RunPost => UnpackAction::RunPost,
        UnpackStage::RecordVersion => UnpackAction::Record { log: s.upgrade },
        UnpackStage::Finished => UnpackAction::Finish,
        UnpackStage::Aborted { clean } => UnpackAction::Abort { clean },
    }
}

/// Whether an outcome is a success.
pub open spec fn passed(o: StepOutcome) -> bool {
    o == StepOutcome::Succeeded || o is ModeChosen
}

/// `s` moved on to `stage`.
pub open spec fn moved(s: UnpackState, stage: UnpackStage) -> UnpackState {
    UnpackState { stage, ..s }
}

/// The state after the step of `s` went as `o`. A failed integrity check, a
/// failed extraction or a missing blueprint stop the installation before
/// anything was written; a failure to save the blueprint, a failing conf.sh, a
/// malformed source package or a failed extraction of the data stop it and
/// remove what was left. A missing file skips its step, a failing post.sh does
/// not stop the installation, and the version is recorded only after post.sh.
pub open spec fn unpack_next_spec(s: UnpackState, o: StepOutcome) -> UnpackState {
    match s.stage {
        UnpackStage::CheckIntegrity => if passed(o) {
            moved(s, UnpackStage::ExtractArchive)
        } else {
            moved(s, UnpackStage::Aborted { clean: false })
        },
        UnpackStage::ExtractArchive => if passed(o) {
            moved(s, UnpackStage::CheckBlueprint)
        } else {
            moved(s, UnpackStage::Aborted { clean: false })
        },
        UnpackStage::CheckBlueprint => if passed(o) {
            moved(s, UnpackStage::ReadBlueprint)
        } else {
            moved(s, UnpackStage::Aborted { clean: false })
        },
        UnpackStage::ReadBlueprint => match o {
            StepOutcome::ModeChosen(m) => UnpackState {
                stage: UnpackStage::RunConf,
                compiled: m,
                ..s
            },
            StepOutcome::Failed => moved(s, UnpackStage::Aborted { clean: true }),
            _ => moved(s, UnpackStage::RunConf),
        },
        UnpackStage::RunConf => match o {
            StepOutcome::Failed => moved(s, UnpackStage::Aborted { clean: true }),
            StepOutcome::Missing => moved(s, UnpackStage::HandleData),
            _ => UnpackState { stage: UnpackStage::HandleData, configured: true, ..s },
        },
        UnpackStage::HandleData => if o == StepOutcome::Missing {
            moved(s, UnpackStage::RunPost)
        } else {
            match data_step_spec(s.compiled, s.configured) {
                DataStep::Malformed => moved(s, UnpackStage::Aborted { clean: true }),
                DataStep::Skip => moved(s, UnpackStage::RunPost),
                DataStep::Extract => if o == StepOutcome::Failed {
                    moved(s, UnpackStage::Aborted { clean: true })
                } else {
                    moved(s, UnpackStage::RunPost)
                },
            }
        },
        UnpackStage::RunPost => moved(s, UnpackStage::RecordVersion),
        UnpackStage::RecordVersion => moved(s, UnpackStage::Finished),
        UnpackStage::Finished => s,
        UnpackStage::Aborted { .. } => s,
    }
}

/// One step of unpacking: the next state and what to do in it.
pub open spec fn unpack_step_spec(s: UnpackState, o: StepOutcome) -> (UnpackState, UnpackAction) {
    let n = unpack_next_spec(s, o);
    (n, unpack_action_spec(n))
}

/// The state in which unpacking starts.
pub open spec fn unpack_start_spec(upgrade: bool) -> UnpackState {
    UnpackState {
        stage: UnpackStage::CheckIntegrity,
        compiled: true,
        configured: false,
        upgrade,
    }
}

/// The state reached from the start after the steps went as `outcomes`.
pub open spec fn unpack_run(upgrade: bool, outcomes: Seq<StepOutcome>) -> UnpackState
    decreases outcomes.len(),
{
    if outcomes.len() == 0 {
        unpack_start_spec(upgrade)
    } else {
        unpack_next_spec(unpack_run(upgrade, outcomes.drop_last()), outcomes.last())
    }
}

/// What the program does in a state.
pub fn unpack_action(s: UnpackState) -> (r: UnpackAction)
    ensures
        r == unpack_action_spec(s),
{
    match s.stage {
        UnpackStage::CheckIntegrity => UnpackAction::CheckIntegrity,
        UnpackStage::ExtractArchive => UnpackAction::ExtractArchive,
        UnpackStage::CheckBlueprint => UnpackAction::CheckBlueprint,
        UnpackStage::ReadBlueprint => UnpackAction::ReadBlueprint,
        UnpackStage::RunConf => UnpackAction::RunConf,
        UnpackStage::HandleData => UnpackAction::HandleData(data_step(s.compiled, s.configured)),
        UnpackStage::RunPost => UnpackAction::RunPost,
        UnpackStage::RecordVersion => UnpackAction::Record { log: s.upgrade },
        UnpackStage::Finished => UnpackAction::Finish,
        UnpackStage::Aborted { clean } => UnpackAction::Abort { clean },
    }
}

/// The state in which unpacking starts, and its first action: checking the
/// integrity of the archive.
pub fn unpack_start(upgrade: bool) -> (r: (UnpackState, UnpackAction))
    ensures
        r.0 == unpack_start_spec(upgrade),
        r.1 == unpack_action_spec(r.0),
{
    let s = UnpackState {
        stage: UnpackStage::CheckIntegrity,
        compiled: true,
        configured: false,
        upgrade,
    };
    (s, unpack_action(s))
}

/// One step of unpacking: the state after the step of `state` went as
/// `outcome`, and what to do next.
pub fn unpack_step(state: UnpackState, outcome: StepOutcome) -> (r: (UnpackState, UnpackAction))
    ensures
        r == unpack_step_spec(state, outcome),
{
    let ok = match outcome {
        StepOutcome::Succeeded => true,
        StepOutcome::ModeChosen(_) => true,
        _ => false,
    };
    let next = match state.stage {
        UnpackStage::CheckIntegrity => if ok {
            UnpackState { stage: UnpackStage::ExtractArchive, ..state }
        } else {
            UnpackState { stage: UnpackStage::Aborted { clean: false }, ..state }
        },
        UnpackStage::ExtractArchive => if ok {
            UnpackState { stage: UnpackStage::CheckBlueprint, ..state }
        } else {
            UnpackState { stage: UnpackStage::Aborted { clean: false }, ..state }
        },
        UnpackStage::CheckBlueprint => if ok {
            UnpackState { stage: UnpackStage::ReadBlueprint, ..state }
        } else {
            UnpackState { stage: UnpackStage::Aborted { clean: false }, ..state }
        },
        UnpackStage::ReadBlueprint => match outcome {
            StepOutcome::ModeChosen(m) => UnpackState {
                stage: UnpackStage::RunConf,
                compiled: m,
                ..state
            },
            StepOutcome::Failed => UnpackState { stage: UnpackStage::Aborted { clean: true }, ..state },
            _ => UnpackState { stage: UnpackStage::RunConf, ..state },
        },
        UnpackStage::RunConf => match outcome {
            StepOutcome::Failed => UnpackState { stage: UnpackStage::Aborted { clean: true }, ..state },
            StepOutcome::Missing => UnpackState { stage: UnpackStage::HandleData, ..state },
            _ => UnpackState { stage: UnpackStage::HandleData, configured: true, ..state },
        },
        UnpackStage::HandleData => match outcome {
            StepOutcome::Missing => UnpackState { stage: UnpackStage::RunPost, ..state },
            _ => match data_step(state.compiled, state.configured) {
                DataStep::Malformed => UnpackState {
                    stage: UnpackStage::Aborted { clean: true },
                    ..state
                },
                DataStep::Skip => UnpackState { stage: UnpackStage::RunPost, ..state },
                DataStep::Extract => match outcome {
                    StepOutcome::Failed => UnpackState {
                        stage: UnpackStage::Aborted { clean: true },
                        ..state
                    },
                    _ => UnpackState { stage: UnpackStage::RunPost, ..state },
                },
            },
        },
        UnpackStage::RunPost => UnpackState { stage: UnpackStage::RecordVersion, ..state },
        UnpackStage::RecordVersion => UnpackState { stage: UnpackStage::Finished, ..state },
        UnpackStage::Finished => state,
        UnpackStage::Aborted { .. } => state,
    };
    (next, unpack_action(next))
}

/// The version is recorded only right after post.sh, the last step.
pub proof fn lemma_record_only_after_post(s: UnpackState, o: StepOutcome)
    ensures
        unpack_step_spec(s, o).1 is Record ==> s.stage == UnpackStage::RunPost,
{
}

/// conf.sh comes right before the data archive is dealt with, and post.sh
/// right after it.
pub proof fn lemma_scripts_around_data(s: UnpackState, o: StepOutcome)
    ensures
        unpack_next_spec(s, o).stage == UnpackStage::HandleData ==> s.stage == UnpackStage::RunConf,
        unpack_next_spec(s, o).stage == UnpackStage::RunPost ==> s.stage == UnpackStage::HandleData,
        unpack_next_spec(s, o).stage == UnpackStage::RunConf ==> s.stage == UnpackStage::ReadBlueprint,
{
}

/// Failures stop the installation: a failed integrity check, extraction,
/// blueprint or conf.sh, a malformed source package, or a failed extraction
/// of the data; a failing post.sh does not.
pub proof fn lemma_failures_abort(s: UnpackState)
    ensures
        (s.stage == UnpackStage::CheckIntegrity || s.stage == UnpackStage::ExtractArchive
            || s.stage == UnpackStage::CheckBlueprint || s.stage == UnpackStage::ReadBlueprint
            || s.stage == UnpackStage::RunConf) ==> unpack_next_spec(s, StepOutcome::Failed).stage is Aborted,
        s.stage == UnpackStage::HandleData && data_step_spec(s.compiled, s.configured) != DataStep::Skip
            ==> unpack_next_spec(s, StepOutcome::Failed).stage is Aborted,
        s.stage == UnpackStage::HandleData && data_step_spec(s.compiled, s.configured) == DataStep::Malformed
            ==> unpack_next_spec(s, StepOutcome::Succeeded).stage is Aborted,
        s.stage == UnpackStage::RunPost ==> unpack_next_spec(s, StepOutcome::Failed).stage
            == UnpackStage::RecordVersion,
{
}

/// Once an installation stopped, it stays stopped whatever comes after, so
/// an installation that failed never records its version.
pub proof fn lemma_failed_install_never_records(
    upgrade: bool,
    outcomes: Seq<StepOutcome>,
    k: int,
    j: int,
)
    requires
        0 <= k <= j <= outcomes.len(),
        unpack_run(upgrade, outcomes.take(k)).stage is Aborted,
    ensures
        unpack_run(upgrade, outcomes.take(j)).stage is Aborted,
        !(unpack_action_spec(unpack_run(upgrade, outcomes.take(j))) is Record),
    decreases j - k,
{
    if j > k {
        lemma_failed_install_never_records(upgrade, outcomes, k, j - 1);
        assert(outcomes.take(j).drop_last() =~= outcomes.take(j - 1));
    }
}

/// When every step succeeds, the version is recorded after the seventh step
/// (post.sh) and the installation is finished after the eighth.
pub proof fn lemma_successful_install_records(upgrade: bool, outcomes: Seq<StepOutcome>)
    requires
        outcomes.len() == 8,
        forall|i: int| 0 <= i < 8 ==> outcomes[i] == StepOutcome::Succeeded,
    ensures
        unpack_run(upgrade, outcomes.take(7)).stage == UnpackStage::RecordVersion,
        unpack_action_spec(unpack_run(upgrade, outcomes.take(7))) == (UnpackAction::Record {
            log: upgrade,
        }),
        unpack_run(upgrade, outcomes).stage == UnpackStage::Finished,
{
    assert(outcomes.take(0) =~= Seq::<StepOutcome>::empty());
    assert(outcomes.take(1).drop_last() =~= outcomes.take(0));
    assert(outcomes.take(2).drop_last() =~= outcomes.take(1));
    assert(outcomes.take(3).drop_last() =~= outcomes.take(2));
    assert(outcomes.take(4).drop_last() =~= outcomes.take(3));
    assert(outcomes.take(5).drop_last() =~= outcomes.take(4));
    assert(outcomes.take(6).drop_last() =~= outcomes.take(5));
    assert(outcomes.take(7).drop_last() =~= outcomes.take(6));
    assert(outcomes.drop_last() =~= outcomes.take(7));
    assert(unpack_run(upgrade, outcomes.take(0)) == unpack_start_spec(upgrade));
    assert(outcomes.take(1).last() == StepOutcome::Succeeded);
    assert(unpack_run(upgrade, outcomes.take(1)).stage == UnpackStage::ExtractArchive);
    assert(unpack_run(upgrade, outcomes.take(1)).compiled);
    assert(outcomes.take(2).last() == StepOutcome::Succeeded);
    assert(unpack_run(upgrade, outcomes.take(2)).stage == UnpackStage::CheckBlueprint);
    assert(unpack_run(upgrade, outcomes.take(2)).compiled);
    assert(outcomes.take(3).last() == StepOutcome::Succeeded);
    assert(unpack_run(upgrade, outcomes.take(3)).stage == UnpackStage::ReadBlueprint);
    assert(unpack_run(upgrade, outcomes.take(3)).compiled);
    assert(outcomes.take(4).last() == StepOutcome::Succeeded);
    assert(unpack_run(upgrade, outcomes.take(4)).stage == UnpackStage::RunConf);
    assert(unpack_run(upgrade, outcomes.take(4)).compiled);
    assert(outcomes.take(5).last() == StepOutcome::Succeeded);
    assert(unpack_run(upgrade, outcomes.take(5)).stage == UnpackStage::HandleData);
    assert(unpack_run(upgrade, outcomes.take(5)).compiled);
    assert(outcomes.take(6).last() == StepOutcome::Succeeded);
    assert(unpack_run(upgrade, outcomes.take(6)).stage == UnpackStage::RunPost);
    assert(unpack_run(upgrade, outcomes.take(7)).stage == UnpackStage::RecordVersion);
    assert(unpack_run(upgrade, outcomes.take(7)).upgrade == upgrade);
}

} // verus!
