//! Ordering of dotted version strings.
//!
//! Two orders are used: the component-wise order of the package database,
//! where components are compared as strings, and the order of the
//! `version_compare` crate, used when the database files themselves are
//! compared.

use vstd::prelude::*;
use crate::text::{lex_lt, split_seq, chars_of, split_chars, chars_eq, chars_lt};

verus! {

/// Component `i` of a split version, where a missing component counts as "0".
pub open spec fn padded(parts: Seq<Seq<char>>, i: int) -> Seq<char> {
    if 0 <= i < parts.len() {
        parts[i]
    } else {
        seq!['0']
    }
}

/// Whether, from component `i` on, the first component of `lp` that differs
/// from `rp` (within the length of `rp`) is the smaller one.
pub open spec fn older_from(lp: Seq<Seq<char>>, rp: Seq<Seq<char>>, i: int) -> bool
    decreases rp.len() - i,
{
    if i < 0 || i >= rp.len() {
        false
    } else if padded(lp, i) == rp[i] {
        older_from(lp, rp, i + 1)
    } else {
        lex_lt(padded(lp, i), rp[i])
    }
}

/// The database order of versions: `lv` is older than `rv` when, comparing
/// their dot-separated components as strings and reading missing components
/// of `lv` as "0", the first component that differs within the components of
/// `rv` is smaller in `lv`.
pub open spec fn version_older(lv: Seq<char>, rv: Seq<char>) -> bool {
    older_from(split_seq(lv, '.'), split_seq(rv, '.'), 0)
}

/// Whether the local version `lv` is older than the remote version `rv`, in
/// the database order of versions.
pub fn cmp_v(lv: &String, rv: &String) -> (result: bool)
    ensures
        result == version_older(lv@, rv@),
{
    older_version(lv.as_str(), rv.as_str())
}

/// Whether `lv` is older than `rv` in the database order of versions.
pub fn older_version(lv: &str, rv: &str) -> (result: bool)
    ensures
        result == version_older(lv@, rv@),
{
    let lc = chars_of(lv);
    let rc = chars_of(rv);
    let lp = split_chars(lc.as_slice(), '.');
    let rp = split_chars(rc.as_slice(), '.');
    let zero: Vec<char> = vec!['0'];
    let ghost l = lp.deep_view();
    let ghost r = rp.deep_view();
    assert(version_older(lv@, rv@) == older_from(l, r, 0));
    let mut i: usize = 0;
    while i < rp.len()
        invariant
            l == lp.deep_view(),
            r == rp.deep_view(),
            zero@ == seq!['0'],
            i <= rp@.len(),
            older_from(l, r, 0) == older_from(l, r, i as int),
            version_older(lv@, rv@) == older_from(l, r, 0),
        decreases rp@.len() - i,
    {
        assert(rp@[i as int].deep_view() =~= rp@[i as int]@);
        let same: bool;
        let smaller: bool;
        if i < lp.len() {
            assert(lp@[i as int].deep_view() =~= lp@[i as int]@);
            same = chars_eq(lp[i].as_slice(), rp[i].as_slice());
            smaller = chars_lt(lp[i].as_slice(), rp[i].as_slice());
        } else {
            same = chars_eq(zero.as_slice(), rp[i].as_slice());
            smaller = chars_lt(zero.as_slice(), rp[i].as_slice());
        }
        assert(same == (padded(l, i as int) == r[i as int]));
        assert(smaller == lex_lt(padded(l, i as int), r[i as int]));
        if !same {
            assert(older_from(l, r, i as int) == smaller);
            return smaller;
        }
        i = i + 1;
    }
    false
}

/// Comparing component-wise as strings, no component of two equal
/// split versions is ever found to be older.
proof fn lemma_older_from_irreflexive(p: Seq<Seq<char>>, i: int)
    ensures
        !older_from(p, p, i),
    decreases p.len() - i,
{
    if 0 <= i < p.len() {
        lemma_older_from_irreflexive(p, i + 1);
    }
}

/// No string comes strictly before itself.
pub proof fn lemma_lex_lt_irreflexive(a: Seq<char>)
    ensures
        !lex_lt(a, a),
    decreases a.len(),
{
    if a.len() > 0 {
        lemma_lex_lt_irreflexive(a.drop_first());
    }
}

/// The order of strings is transitive.
pub proof fn lemma_lex_lt_transitive(a: Seq<char>, b: Seq<char>, c: Seq<char>)
    requires
        lex_lt(a, b),
        lex_lt(b, c),
    ensures
        lex_lt(a, c),
    decreases a.len(),
{
    if a.len() > 0 && b.len() > 0 && c.len() > 0 {
        if a[0] == b[0] && b[0] == c[0] {
            lemma_lex_lt_transitive(a.drop_first(), b.drop_first(), c.drop_first());
        }
    }
}

proof fn lemma_older_from_transitive(
    pa: Seq<Seq<char>>,
    pb: Seq<Seq<char>>,
    pc: Seq<Seq<char>>,
    i: int,
)
    requires
        older_from(pa, pb, i),
        older_from(pb, pc, i),
    ensures
        older_from(pa, pc, i),
    decreases pc.len() - i,
{
    let x = padded(pa, i);
    let y = pb[i];
    let z = pc[i];
    assert(padded(pb, i) == y);
    if x == y {
        if y == z {
            lemma_older_from_transitive(pa, pb, pc, i + 1);
        }
    } else {
        if y != z {
            lemma_lex_lt_transitive(x, y, z);
            if x == z {
                lemma_lex_lt_transitive(y, z, y);
                lemma_lex_lt_irreflexive(y);
            }
        }
    }
}

/// No version is older than itself in the database order.
pub proof fn lemma_version_older_irreflexive(v: Seq<char>)
    ensures
        !version_older(v, v),
{
    lemma_older_from_irreflexive(split_seq(v, '.'), 0);
}

/// The database order of versions is transitive.
pub proof fn lemma_version_older_transitive(a: Seq<char>, b: Seq<char>, c: Seq<char>)
    requires
        version_older(a, b),
        version_older(b, c),
    ensures
        version_older(a, c),
{
    lemma_older_from_transitive(split_seq(a, '.'), split_seq(b, '.'), split_seq(c, '.'), 0);
}

/// Of two versions, at most one is older than the other in the database order.
pub proof fn lemma_version_older_asymmetric(a: Seq<char>, b: Seq<char>)
    requires
        version_older(a, b),
    ensures
        !version_older(b, a),
{
    if version_older(b, a) {
        lemma_version_older_transitive(a, b, a);
        lemma_version_older_irreflexive(a);
    }
}


/// Where one version stands relative to another.
#[derive(Clone, Copy, Debug, PartialEq, Eq, Structural)]
pub enum Precedence {
    Lower,
    Equal,
    Higher,
}

/// How the `version_compare` crate orders version `a` against version `b`,
/// or `None` when it cannot parse one of them.
pub uninterp spec fn crate_version_order(a: Seq<char>, b: Seq<char>) -> Option<Precedence>;

/// Calls `version_compare::compare(a, b)`: the crate parses both strings
/// (failing when either cannot be parsed) and returns `Lt`, `Eq` or `Gt`,
/// never another operator; `Eq` becomes `Precedence::Equal` (as do the
/// operators it never returns, each mapped in an arm of its own).
/// The result is claimed to be a function of the two strings alone, named
/// `crate_version_order`; nothing else about it is stated.
#[verifier::external_body]
fn crate_compare(a: &str, b: &str) -> (r: Option<Precedence>)
    ensures
        r == crate_version_order(a@, b@),
{
    match version_compare::compare(a, b) {
        Ok(version_compare::Cmp::Lt) => Some(Precedence::Lower),
        Ok(version_compare::Cmp::Gt) => Some(Precedence::Higher),
        Ok(version_compare::Cmp::Eq) => Some(Precedence::Equal),
        Ok(version_compare::Cmp::Ne) => Some(Precedence::Equal),
        Ok(version_compare::Cmp::Le) => Some(Precedence::Equal),
        Ok(version_compare::Cmp::Ge) => Some(Precedence::Equal),
        Err(_) => None,
    }
}

/// Whether a local database at `order` relative to the remote one must be
/// replaced: only when it is strictly lower.
pub fn is_behind(order: Precedence) -> (r: bool)
    ensures
        r == (order == Precedence::Lower),
{
    match order {
        Precedence::Lower => true,
        _ => false,
    }
}

/// Whether the local version string is behind the remote one in the order of
/// the `version_compare` crate; `None` when either cannot be parsed.
pub fn local_is_behind(local: &str, remote: &str) -> (r: Option<bool>)
    ensures
        r == (match crate_version_order(local@, remote@) {
            Some(o) => Some(o == Precedence::Lower),
            None => None,
        }),
{
    match crate_compare(local, remote) {
        Some(o) => Some(is_behind(o)),
        None => None,
    }
}

} // verus!
