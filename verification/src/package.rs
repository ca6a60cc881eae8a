//! Package records, the database rows they come from, and the decisions
//! taken on them when the database is synchronised, queried and listed.

use vstd::prelude::*;
use crate::text::{
    chars_of, joined, has_char, replace_char, split_chars, split_seq, str_eq, string_of,
};
use crate::version::{older_version, version_older, lemma_version_older_irreflexive, older_from, padded};
use crate::text::lex_lt;

verus! {

/// A package as recorded in a package database.
#[derive(Clone, Debug)]
pub struct Package {
    /// The package name.
    pub name: String,
    /// The installed version, "0" when the package is not installed.
    pub lversion: String,
    /// The version available on the mirrors.
    pub rversion: String,
    /// The dependency field, `None` when the database holds an empty one.
    pub deps: Option<String>,
}

/// A package database file.
pub struct SQLite {
    /// The file name of the database.
    pub name: String,
    /// The full path of the database: its directory followed by its name.
    pub path: String,
}

impl SQLite {
    /// The database called `name` in the directory `path`.
    pub fn new(name: &str, path: &str) -> (r: Self)
        ensures
            r.name@ == name@,
            r.path@ == path@ + name@,
    {
        Self { name: name.to_owned(), path: joined(path, name) }
    }
}

/// The local file system on which packages are installed.
pub struct FileSystem;

impl FileSystem {
    /// A handle on the local file system.
    pub fn new() -> Self {
        Self
    }
}

/// The dependency field that a database column holds: an empty column holds none.
pub open spec fn deps_of_column(col: Seq<char>) -> Option<Seq<char>> {
    if col.len() == 0 {
        None
    } else {
        Some(col)
    }
}

/// The database column that stores a dependency field: none is stored as empty.
pub open spec fn column_of_deps(deps: Option<Seq<char>>) -> Seq<char> {
    match deps {
        Some(d) => d,
        None => Seq::<char>::empty(),
    }
}

/// The dependency field read from a database column.
pub fn deps_from_column(col: String) -> (r: Option<String>)
    ensures
        r.deep_view() == deps_of_column(col@),
{
    if col.as_str().is_empty() {
        None
    } else {
        Some(col)
    }
}

/// The database column written for a dependency field.
pub fn deps_to_column(deps: &Option<String>) -> (r: String)
    ensures
        r@ == column_of_deps(deps.deep_view()),
{
    match deps {
        Some(d) => d.clone(),
        None => String::new(),
    }
}

/// Writing a dependency field to the database and reading it back gives the
/// same field, unless the field was present but empty.
pub proof fn lemma_deps_column_roundtrip(deps: Option<Seq<char>>)
    requires
        deps != Some(Seq::<char>::empty()),
    ensures
        deps_of_column(column_of_deps(deps)) == deps,
{
    if let Some(d) = deps {
        if d.len() == 0 {
            assert(d =~= Seq::<char>::empty());
        }
    }
}

/// The database update that records a new version of a package.
pub enum PkgUpdate {
    /// Record a new mirror version and its dependency column.
    Remote { version: String, deps: String },
    /// Record a new installed version.
    Local { version: String },
}

/// The update that sets `field` of a package to `nvalue`: the mirror
/// version (with its dependencies) when `field` is "rversion", the installed
/// version otherwise.
pub fn plan_update(nvalue: &String, field: &str, ndeps: &Option<String>) -> (r: PkgUpdate)
    ensures
        field@ == "rversion"@ ==> (r matches PkgUpdate::Remote { version, deps } && version@
            == nvalue@ && deps@ == column_of_deps(ndeps.deep_view())),
        field@ != "rversion"@ ==> (r matches PkgUpdate::Local { version } && version@ == nvalue@),
{
    if str_eq(field, "rversion") {
        PkgUpdate::Remote { version: nvalue.clone(), deps: deps_to_column(ndeps) }
    } else {
        PkgUpdate::Local { version: nvalue.clone() }
    }
}

/// The entries of a dependency field, separated by ',' or ':'.
pub open spec fn dep_entries(deps: Seq<char>) -> Seq<Seq<char>> {
    split_seq(replace_char(deps, ':', ','), ',')
}

/// Whether some entry of a dependency field carries no '-'.
pub open spec fn has_undashed_entry(deps: Seq<char>) -> bool {
    exists|j: int| 0 <= j < dep_entries(deps).len() && !(#[trigger] dep_entries(deps)[j]).contains('-')
}

/// Whether some row other than the one of `pkg` has a dependency entry
/// without '-'.
pub open spec fn rows_hold_dependency(rows: Seq<(String, String)>, pkg: Seq<char>) -> bool {
    exists|i: int|
        0 <= i < rows.len() && (#[trigger] rows[i]).0@ != pkg && has_undashed_entry(rows[i].1@)
}

/// Any row other than the one of `pkg` with a dependency entry without '-'
/// makes the dependency count as used, whatever rows come before or after it.
pub proof fn lemma_any_using_row_counts(rows: Seq<(String, String)>, pkg: Seq<char>, i: int)
    requires
        0 <= i < rows.len(),
        rows[i].0@ != pkg,
        has_undashed_entry(rows[i].1@),
    ensures
        rows_hold_dependency(rows, pkg),
{
    assert(rows[i].0@ != pkg && has_undashed_entry(rows[i].1@));
}

/// A dependency counts as used only through some row other than the one of
/// `pkg` that has a dependency entry without '-'.
pub proof fn lemma_use_needs_a_row(rows: Seq<(String, String)>, pkg: Seq<char>)
    requires
        rows_hold_dependency(rows, pkg),
    ensures
        exists|i: int|
            0 <= i < rows.len() && (#[trigger] rows[i]).0@ != pkg && has_undashed_entry(
                rows[i].1@,
            ),
{
}

/// Adding rows, before or after, never makes a used dependency unused.
pub proof fn lemma_use_survives_more_rows(
    before: Seq<(String, String)>,
    rows: Seq<(String, String)>,
    after: Seq<(String, String)>,
    pkg: Seq<char>,
)
    requires
        rows_hold_dependency(rows, pkg),
    ensures
        rows_hold_dependency(before + rows + after, pkg),
{
    let i = choose|i: int|
        0 <= i < rows.len() && (#[trigger] rows[i]).0@ != pkg && has_undashed_entry(rows[i].1@);
    let all = before + rows + after;
    assert(all[before.len() + i] == rows[i]);
    lemma_any_using_row_counts(all, pkg, before.len() + i);
}

/// Whether a dependency field has an entry without '-'.
pub fn undashed_entry(deps: &str) -> (r: bool)
    ensures
        r == has_undashed_entry(deps@),
{
    let cs = chars_of(deps);
    let mut swapped: Vec<char> = Vec::new();
    let mut i: usize = 0;
    while i < cs.len()
        invariant
            i <= cs@.len(),
            swapped@ == replace_char(cs@.take(i as int), ':', ','),
        decreases cs@.len() - i,
    {
        let c = cs[i];
        if c == ':' {
            swapped.push(',');
        } else {
            swapped.push(c);
        }
        i = i + 1;
        assert(swapped@ =~= replace_char(cs@.take(i as int), ':', ','));
    }
    assert(cs@.take(cs@.len() as int) == cs@);
    let entries = split_chars(swapped.as_slice(), ',');
    let ghost e = entries.deep_view();
    let mut j: usize = 0;
    while j < entries.len()
        invariant
            e == entries.deep_view(),
            e == dep_entries(deps@),
            j <= entries@.len(),
            forall|k: int| 0 <= k < j ==> (#[trigger] e[k]).contains('-'),
        decreases entries@.len() - j,
    {
        assert(entries@[j as int].deep_view() =~= entries@[j as int]@);
        if !has_char(entries[j].as_slice(), '-') {
            assert(!e[j as int].contains('-'));
            return true;
        }
        j = j + 1;
    }
    false
}

/// Whether some package other than `pkg`, among the `rows` of names and
/// dependency fields that the database matched, has a dependency entry that
/// carries no '-'.
pub fn dependency_in_use(rows: &Vec<(String, String)>, pkg: &str) -> (r: bool)
    ensures
        r == rows_hold_dependency(rows@, pkg@),
{
    let mut i: usize = 0;
    while i < rows.len()
        invariant
            i <= rows@.len(),
            forall|k: int|
                0 <= k < i ==> !((#[trigger] rows@[k]).0@ != pkg@ && has_undashed_entry(
                    rows@[k].1@,
                )),
        decreases rows@.len() - i,
    {
        let same = str_eq(rows[i].0.as_str(), pkg);
        if !same && undashed_entry(rows[i].1.as_str()) {
            assert(rows@[i as int].0@ != pkg@ && has_undashed_entry(rows@[i as int].1@));
            return true;
        }
        i = i + 1;
    }
    false
}


/// The position of the last package called `name`, which is the one that a
/// table keyed by name keeps when the packages are entered in order.
pub open spec fn last_named(pkgs: Seq<Package>, name: Seq<char>) -> Option<int>
    decreases pkgs.len(),
{
    if pkgs.len() == 0 {
        None
    } else if pkgs.last().name@ == name {
        Some(pkgs.len() - 1)
    } else {
        last_named(pkgs.drop_last(), name)
    }
}

/// What a database synchronisation does with one package of the mirror
/// database.
#[derive(Clone, Copy, Debug, PartialEq, Eq, Structural)]
pub enum SyncAction {
    /// The package is not known locally: add it.
    Add,
    /// The mirror has a newer version: record it and its dependencies.
    Refresh,
    /// Nothing to do.
    Keep,
}

/// The action for the mirror package `remote` given the local packages.
pub open spec fn sync_action_spec(local: Seq<Package>, remote: Package) -> SyncAction {
    match last_named(local, remote.name@) {
        None => SyncAction::Add,
        Some(i) => if version_older(local[i].rversion@, remote.rversion@) {
            SyncAction::Refresh
        } else {
            SyncAction::Keep
        },
    }
}

/// Whether the mirror package at position `i` counts as a new update for an
/// installed package.
pub open spec fn counts_as_update(local: Seq<Package>, remote: Seq<Package>, i: int) -> bool {
    sync_action_spec(local, remote[i]) == SyncAction::Refresh && remote[i].lversion@ != "0"@
}

/// How many of the first `n` mirror packages are added.
pub open spec fn added_count(local: Seq<Package>, remote: Seq<Package>, n: int) -> nat
    decreases n,
{
    if n <= 0 {
        0
    } else {
        added_count(local, remote, n - 1) + if sync_action_spec(local, remote[n - 1])
            == SyncAction::Add {
            1nat
        } else {
            0nat
        }
    }
}

/// How many of the first `n` mirror packages count as updates.
pub open spec fn update_count(local: Seq<Package>, remote: Seq<Package>, n: int) -> nat
    decreases n,
{
    if n <= 0 {
        0
    } else {
        update_count(local, remote, n - 1) + if counts_as_update(local, remote, n - 1) {
            1nat
        } else {
            0nat
        }
    }
}

/// The local package with the name of `remote` that synchronisation looks at.
pub fn find_local(local: &Vec<Package>, name: &String) -> (r: Option<usize>)
    ensures
        match r {
            Some(i) => i < local@.len() && last_named(local@, name@) == Some(i as int),
            None => last_named(local@, name@) is None,
        },
{
    let mut i: usize = local.len();
    assert(local@.take(i as int) == local@);
    while i > 0
        invariant
            i <= local@.len(),
            last_named(local@, name@) == last_named(local@.take(i as int), name@),
        decreases i,
    {
        assert(local@.take(i as int).drop_last() =~= local@.take(i - 1));
        if str_eq(local[i - 1].name.as_str(), name.as_str()) {
            return Some(i - 1);
        }
        i = i - 1;
    }
    None
}

/// What synchronisation does with the mirror package `remote`.
pub fn sync_action(local: &Vec<Package>, remote: &Package) -> (r: SyncAction)
    ensures
        r == sync_action_spec(local@, *remote),
{
    match find_local(local, &remote.name) {
        None => SyncAction::Add,
        Some(i) => {
            if older_version(local[i].rversion.as_str(), remote.rversion.as_str()) {
                SyncAction::Refresh
            } else {
                SyncAction::Keep
            }
        },
    }
}

/// The work of a database synchronisation.
pub struct SyncPlan {
    /// One action per mirror package, in order.
    pub actions: Vec<SyncAction>,
    /// How many packages are added.
    pub added: u32,
    /// How many installed packages have a new version.
    pub updates: u32,
}

/// The synchronisation of the local packages against the mirror packages:
/// unknown packages are added, packages whose mirror version is newer in the
/// database order are refreshed, and the others are kept.
pub fn plan_sync(local: &Vec<Package>, remote: &Vec<Package>) -> (r: SyncPlan)
    requires
        remote@.len() <= u32::MAX,
    ensures
        r.actions@.len() == remote@.len(),
        forall|i: int|
            0 <= i < remote@.len() ==> #[trigger] r.actions@[i] == sync_action_spec(
                local@,
                remote@[i],
            ),
        r.added == added_count(local@, remote@, remote@.len() as int),
        r.updates == update_count(local@, remote@, remote@.len() as int),
{
    let mut actions: Vec<SyncAction> = Vec::new();
    let mut added: u32 = 0;
    let mut updates: u32 = 0;
    let mut i: usize = 0;
    while i < remote.len()
        invariant
            i <= remote@.len(),
            remote@.len() <= u32::MAX,
            actions@.len() == i,
            forall|k: int|
                0 <= k < i ==> #[trigger] actions@[k] == sync_action_spec(local@, remote@[k]),
            added == added_count(local@, remote@, i as int),
            updates == update_count(local@, remote@, i as int),
            added <= i,
            updates <= i,
        decreases remote@.len() - i,
    {
        let a = sync_action(local, &remote[i]);
        match a {
            SyncAction::Add => {
                added = added + 1;
            },
            SyncAction::Refresh => {
                if !str_eq(remote[i].lversion.as_str(), "0") {
                    updates = updates + 1;
                }
            },
            SyncAction::Keep => {},
        }
        actions.push(a);
        i = i + 1;
    }
    SyncPlan { actions, added, updates }
}

/// A package is added by synchronisation exactly when no local package has
/// its name.
pub proof fn lemma_sync_adds_unknown(local: Seq<Package>, remote: Package)
    ensures
        (sync_action_spec(local, remote) == SyncAction::Add) <==> (forall|i: int|
            0 <= i < local.len() ==> (#[trigger] local[i]).name@ != remote.name@),
{
    lemma_last_named_none(local, remote.name@);
}

/// No package is found under `name` exactly when none has that name.
pub proof fn lemma_last_named_none(pkgs: Seq<Package>, name: Seq<char>)
    ensures
        (last_named(pkgs, name) is None) <==> (forall|i: int|
            0 <= i < pkgs.len() ==> (#[trigger] pkgs[i]).name@ != name),
    decreases pkgs.len(),
{
    if pkgs.len() > 0 {
        let init = pkgs.drop_last();
        lemma_last_named_none(init, name);
        if pkgs.last().name@ != name {
            if last_named(init, name) is None {
                assert forall|i: int| 0 <= i < pkgs.len() implies (#[trigger] pkgs[i]).name@
                    != name by {
                    if i < pkgs.len() - 1 {
                        assert(init[i] == pkgs[i]);
                    }
                }
            } else {
                let k = choose|k: int| 0 <= k < init.len() && (#[trigger] init[k]).name@ == name;
                assert(pkgs[k] == init[k]);
            }
        } else {
            assert(pkgs[pkgs.len() - 1].name@ == name);
        }
    }
}


/// Whether a package is installed: its installed version is not "0".
pub open spec fn installed_spec(p: Package) -> bool {
    p.lversion@ != "0"@
}

/// Whether a package is installed.
pub fn is_installed(p: &Package) -> (r: bool)
    ensures
        r == installed_spec(*p),
{
    !str_eq(p.lversion.as_str(), "0")
}

/// Whether a package is listed as upgradable: it is installed and its
/// installed version is older than the mirror version in the database order.
pub fn is_upgradable(p: &Package) -> (r: bool)
    ensures
        r == (installed_spec(*p) && version_older(p.lversion@, p.rversion@)),
{
    is_installed(p) && older_version(p.lversion.as_str(), p.rversion.as_str())
}

/// Whether upgrading all packages tries this one: it is installed, a mirror
/// version is known, and the two versions differ.
pub fn needs_upgrade(p: &Package) -> (r: bool)
    ensures
        r == !(p.lversion@ == "0"@ || p.lversion@ == p.rversion@ || p.rversion@.len() == 0),
{
    !(str_eq(p.lversion.as_str(), "0") || str_eq(p.lversion.as_str(), p.rversion.as_str())
        || p.rversion.as_str().is_empty())
}

/// The version line shown when a package is queried.
pub open spec fn version_summary_spec(p: Package) -> Seq<char> {
    if p.lversion@ == p.rversion@ {
        " - Local version: "@ + p.lversion@
    } else if p.lversion@ != "0"@ {
        " - Local version: "@ + p.lversion@ + " => Last version: "@ + p.rversion@
    } else {
        " - Available version: "@ + p.rversion@
    }
}

/// The version line shown when a package is queried: its installed version
/// when it is up to date, both versions when it is installed in another
/// version, and the mirror version when it is not installed.
pub fn version_summary(p: &Package) -> (r: String)
    ensures
        r@ == version_summary_spec(*p),
{
    if str_eq(p.lversion.as_str(), p.rversion.as_str()) {
        joined(" - Local version: ", p.lversion.as_str())
    } else if !str_eq(p.lversion.as_str(), "0") {
        let a = joined(" - Local version: ", p.lversion.as_str());
        let b = joined(a.as_str(), " => Last version: ");
        joined(b.as_str(), p.rversion.as_str())
    } else {
        joined(" - Available version: ", p.rversion.as_str())
    }
}

/// The line listing a required dependency.
pub open spec fn required_line(d: Seq<char>) -> Seq<char> {
    "   + "@ + d
}

/// The lines listing the non-empty optional dependencies among `opts`.
pub open spec fn optional_lines(opts: Seq<Seq<char>>) -> Seq<Seq<char>>
    decreases opts.len(),
{
    if opts.len() == 0 {
        Seq::empty()
    } else {
        let rest = optional_lines(opts.drop_last());
        if opts.last().len() == 0 {
            rest
        } else {
            rest.push("   + "@ + opts.last() + " (Optional)"@)
        }
    }
}

/// The lines listing a dependency field "required:optional", each list
/// separated by ','; every required entry is listed, empty optional entries
/// are not, and a package without dependencies gets a single line.
pub open spec fn dependency_lines_spec(deps: Option<Seq<char>>) -> Seq<Seq<char>> {
    match deps {
        None => seq!["    None"@],
        Some(d) => split_seq(split_seq(d, ':')[0], ',').map_values(|x: Seq<char>| required_line(x))
            + optional_lines(split_seq(split_seq(d, ':')[1], ',')),
    }
}

/// A package without dependencies gets the single line "    None"; for a
/// field "r:o" whose optional list `o` is one non-empty entry, the lines are
/// those of the required entries of `r` followed by one last line for `o`.
pub proof fn lemma_optional_dependency_listed(r: Seq<char>, o: Seq<char>)
    requires
        !r.contains(':'),
        !o.contains(':'),
        !o.contains(','),
        o.len() > 0,
    ensures
        dependency_lines_spec(Some(r + seq![':'] + o)) == split_seq(r, ',').map_values(
            |x: Seq<char>| required_line(x),
        ).push("   + "@ + o + " (Optional)"@),
        dependency_lines_spec(None) == seq!["    None"@],
{
    let head = r + seq![':'];
    crate::text::lemma_split_without_sep(r, ':');
    assert(head.drop_last() =~= r);
    assert(split_seq(head, ':') == seq![r].push(Seq::<char>::empty()));
    crate::text::lemma_split_append_plain(head, o, ':');
    let halves = split_seq(head + o, ':');
    assert(halves.len() == 2);
    assert(halves.drop_last() == seq![r]);
    assert(halves[0] == halves.drop_last()[0]);
    assert(halves[1] == halves.last());
    assert(halves[1] =~= o);
    crate::text::lemma_split_without_sep(o, ',');
    let opts = split_seq(o, ',');
    assert(opts == seq![o]);
    assert(opts.drop_last() =~= Seq::<Seq<char>>::empty());
    assert(optional_lines(opts.drop_last()) == Seq::<Seq<char>>::empty());
    assert(opts.last() == o);
    assert(optional_lines(opts) == Seq::<Seq<char>>::empty().push("   + "@ + o + " (Optional)"@));
    assert(optional_lines(opts) =~= seq!["   + "@ + o + " (Optional)"@]);
}

/// The lines that describe the dependencies of a package.
pub fn dependency_lines(deps: &Option<String>) -> (r: Vec<String>)
    requires
        deps matches Some(d) ==> split_seq(d@, ':').len() >= 2,
    ensures
        r.deep_view() == dependency_lines_spec(deps.deep_view()),
{
    match deps {
        None => {
            let mut r: Vec<String> = Vec::new();
            r.push("    None".to_owned());
            assert(r.deep_view() =~= seq!["    None"@]);
            r
        },
        Some(d) => {
            let cs = chars_of(d.as_str());
            let halves = split_chars(cs.as_slice(), ':');
            assert(halves@[0].deep_view() =~= halves@[0]@);
            assert(halves@[1].deep_view() =~= halves@[1]@);
            let reqs = split_chars(halves[0].as_slice(), ',');
            let opts = split_chars(halves[1].as_slice(), ',');
            let ghost rq = reqs.deep_view();
            let ghost op = opts.deep_view();
            let mut r: Vec<String> = Vec::new();
            let mut i: usize = 0;
            while i < reqs.len()
                invariant
                    rq == reqs.deep_view(),
                    i <= reqs@.len(),
                    r.deep_view() =~= rq.take(i as int).map_values(|x: Seq<char>| required_line(x)),
                decreases reqs@.len() - i,
            {
                assert(reqs@[i as int].deep_view() =~= reqs@[i as int]@);
                let name = string_of(reqs[i].as_slice());
                let line = joined("   + ", name.as_str());
                let ghost before = r.deep_view();
                r.push(line);
                assert(r.deep_view() =~= before.push(required_line(rq[i as int])));
                i = i + 1;
                assert(rq.take(i as int).drop_last() =~= rq.take(i - 1));
            }
            assert(rq.take(rq.len() as int) =~= rq);
            let ghost head = r.deep_view();
            let mut j: usize = 0;
            while j < opts.len()
                invariant
                    op == opts.deep_view(),
                    j <= opts@.len(),
                    r.deep_view() =~= head + optional_lines(op.take(j as int)),
                decreases opts@.len() - j,
            {
                assert(opts@[j as int].deep_view() =~= opts@[j as int]@);
                assert(op.take(j + 1).drop_last() =~= op.take(j as int));
                if opts[j].len() != 0 {
                    let name = string_of(opts[j].as_slice());
                    let a = joined("   + ", name.as_str());
                    let line = joined(a.as_str(), " (Optional)");
                    let ghost before = r.deep_view();
                    r.push(line);
                    assert(r.deep_view() =~= before.push(line@));
                }
                j = j + 1;
            }
            assert(op.take(op.len() as int) =~= op);
            r
        },
    }
}


/// No version is older than the empty version.
proof fn lemma_nothing_older_than_empty(v: Seq<char>)
    ensures
        !version_older(v, Seq::<char>::empty()),
{
    let e = Seq::<char>::empty();
    let rp = split_seq(e, '.');
    assert(rp == seq![e]);
    let lp = split_seq(v, '.');
    assert(!lex_lt(padded(lp, 0), e));
    if padded(lp, 0) == rp[0] {
        assert(!older_from(lp, rp, 1));
    }
}

/// Every package listed as upgradable is one that upgrading all packages
/// tries.
pub proof fn lemma_upgradable_is_upgraded(p: Package)
    requires
        installed_spec(p),
        version_older(p.lversion@, p.rversion@),
    ensures
        !(p.lversion@ == "0"@ || p.lversion@ == p.rversion@ || p.rversion@.len() == 0),
{
    lemma_version_older_irreflexive(p.lversion@);
    if p.rversion@.len() == 0 {
        assert(p.rversion@ =~= Seq::<char>::empty());
        lemma_nothing_older_than_empty(p.lversion@);
    }
}

/// Synchronisation keeps a package whose mirror version is the one already
/// recorded locally.
pub proof fn lemma_sync_keeps_current(local: Seq<Package>, remote: Package, i: int)
    requires
        last_named(local, remote.name@) == Some(i),
        local[i].rversion@ == remote.rversion@,
    ensures
        sync_action_spec(local, remote) == SyncAction::Keep,
{
    lemma_version_older_irreflexive(remote.rversion@);
}

} // verus!
