//! Removing packages: reading the blueprint of an installed package, the
//! dependencies it offers to remove, the paths it installed, and how a
//! failure to remove a path is handled.

use vstd::prelude::*;
use crate::text::{chars_of, joined, split_seq, split_str, str_eq};

verus! {

/// Where the blueprint of version `version` of package `name` is kept,
/// under the configuration directory `dir`, once decompressed.
pub fn blueprint_path(dir: &str, name: &str, version: &str) -> (r: String)
    ensures
        r@ == dir@ + "bps/"@ + name@ + "-"@ + version@,
{
    let a = joined(dir, "bps/");
    let b = joined(a.as_str(), name);
    let c = joined(b.as_str(), "-");
    joined(c.as_str(), version)
}

/// Why the blueprint of a package to remove could not be read.
#[derive(Clone, Copy, Debug, PartialEq, Eq, Structural)]
pub enum BlueprintProblem {
    /// The requested version is not the installed one.
    OtherVersionInstalled,
    /// The installed version has no readable blueprint.
    Unreadable,
}

/// Why no blueprint was found for the `requested` version when `installed`
/// is the installed one.
pub fn blueprint_problem(requested: &str, installed: &str) -> (r: BlueprintProblem)
    ensures
        r == if requested@ != installed@ {
            BlueprintProblem::OtherVersionInstalled
        } else {
            BlueprintProblem::Unreadable
        },
{
    if !str_eq(requested, installed) {
        BlueprintProblem::OtherVersionInstalled
    } else {
        BlueprintProblem::Unreadable
    }
}

/// The kind of a blueprint line, given by its first ':'-separated field.
#[derive(Clone, Copy, Debug, PartialEq, Eq, Structural)]
pub enum BlueprintField {
    /// An empty first field.
    Blank,
    /// "Dependencies:required::optional".
    Dependencies,
    /// "Paths:path,path,...".
    Paths,
    /// Any other field.
    Unknown,
}

/// The kind of a blueprint line whose first field is `first`.
pub open spec fn blueprint_field_spec(first: Seq<char>) -> BlueprintField {
    if first.len() == 0 {
        BlueprintField::Blank
    } else if first == "Dependencies"@ {
        BlueprintField::Dependencies
    } else if first == "Paths"@ {
        BlueprintField::Paths
    } else {
        BlueprintField::Unknown
    }
}

/// The ':'-separated fields of a blueprint line and its kind.
pub fn blueprint_line(line: &str) -> (r: (Vec<String>, BlueprintField))
    ensures
        r.0.deep_view() == split_seq(line@, ':'),
        r.0@.len() >= 1,
        r.1 == blueprint_field_spec(split_seq(line@, ':')[0]),
{
    proof {
        crate::text::lemma_split_nonempty(line@, ':');
    }
    let fields = split_str(line, ':');
    assert(fields.deep_view()[0] == fields@[0]@);
    let first = fields[0].as_str();
    let kind = if first.is_empty() {
        BlueprintField::Blank
    } else if str_eq(first, "Dependencies") {
        BlueprintField::Dependencies
    } else if str_eq(first, "Paths") {
        BlueprintField::Paths
    } else {
        BlueprintField::Unknown
    };
    (fields, kind)
}

/// Whether a dependencies line lists neither required nor optional
/// dependencies: its second and fourth fields are empty (the fourth is read
/// only when the second is empty).
pub fn lists_no_dependencies(fields: &Vec<String>) -> (r: bool)
    requires
        fields@.len() >= 2,
        fields@[1]@.len() == 0 ==> fields@.len() >= 4,
    ensures
        r == (fields@[1]@.len() == 0 && fields@[3]@.len() == 0),
{
    fields[1].as_str().is_empty() && fields[3].as_str().is_empty()
}

/// The packages named in a ','-separated list of dependencies: none for an
/// empty list.
pub open spec fn listed_packages(list: Seq<char>) -> Seq<Seq<char>> {
    if list.len() == 0 {
        Seq::empty()
    } else {
        split_seq(list, ',')
    }
}

/// The packages named in a list of dependencies.
pub fn removal_candidates(list: &str) -> (r: Vec<String>)
    ensures
        r.deep_view() == listed_packages(list@),
{
    if list.is_empty() {
        let r: Vec<String> = Vec::new();
        assert(r.deep_view() =~= Seq::<Seq<char>>::empty());
        r
    } else {
        split_str(list, ',')
    }
}

/// The paths of a "Paths" line: `None` when its list is empty, which makes
/// the blueprint malformed.
pub fn path_entries(list: &str) -> (r: Option<Vec<String>>)
    ensures
        list@.len() == 0 ==> r is None,
        list@.len() > 0 ==> (r matches Some(v) && v.deep_view() == split_seq(list@, ',')),
{
    if list.is_empty() {
        None
    } else {
        Some(split_str(list, ','))
    }
}

/// A path made absolute: a path that does not start with '/' gets one.
pub open spec fn absolute_path_spec(p: Seq<char>) -> Seq<char> {
    if p[0] == '/' {
        p
    } else {
        seq!['/'] + p
    }
}

/// The absolute form of a non-empty installed path.
pub fn absolute_path(p: &str) -> (r: String)
    requires
        p@.len() > 0,
    ensures
        r@ == absolute_path_spec(p@),
{
    let cs = chars_of(p);
    if cs[0] == '/' {
        p.to_owned()
    } else {
        let r = joined("/", p);
        proof {
            reveal_strlit("/");
        }
        r
    }
}

/// An absolute path stays as it is.
pub proof fn lemma_absolute_path_idempotent(p: Seq<char>)
    requires
        p.len() > 0,
    ensures
        absolute_path_spec(absolute_path_spec(p)) == absolute_path_spec(p),
{
}

/// How a failure to remove a path is handled.
#[derive(Clone, Copy, Debug, PartialEq, Eq, Structural)]
pub enum RemovalError {
    /// The path is a file: remove it as a file.
    NotADirectory,
    /// The path no longer exists: go on.
    Missing,
    /// Any other failure: stop.
    Other,
}

/// How a failure to remove a path is handled, by the part of the error
/// message after its first '(': "os error 20)" means the path is not a
/// directory, "os error 2)" that it does not exist.
pub open spec fn removal_error_spec(message: Seq<char>) -> RemovalError {
    let code = split_seq(message, '(')[1];
    if code == "os error 20)"@ {
        RemovalError::NotADirectory
    } else if code == "os error 2)"@ {
        RemovalError::Missing
    } else {
        RemovalError::Other
    }
}

/// How a failure to remove a path, reported by `message`, is handled.
pub fn classify_removal_error(message: &str) -> (r: RemovalError)
    requires
        split_seq(message@, '(').len() >= 2,
    ensures
        r == removal_error_spec(message@),
{
    let parts = split_str(message, '(');
    assert(parts.deep_view()[1] == parts@[1]@);
    let code = parts[1].as_str();
    if str_eq(code, "os error 20)") {
        RemovalError::NotADirectory
    } else if str_eq(code, "os error 2)") {
        RemovalError::Missing
    } else {
        RemovalError::Other
    }
}

} // verus!
