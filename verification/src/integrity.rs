//! Integrity of downloaded files: the name of the hash file that goes with a
//! file, the BLAKE3 digest of its contents, and the check of the digest
//! against the recorded one.

use vstd::prelude::*;
use crate::text::{
    chars_of, lemma_split_first_stable, lemma_split_without_sep, split_chars, split_seq, str_eq,
    string_of,
};

verus! {

/// The position of the last `c` in `s`.
pub open spec fn last_index_of(s: Seq<char>, c: char) -> Option<int>
    decreases s.len(),
{
    if s.len() == 0 {
        None
    } else if s.last() == c {
        Some(s.len() - 1)
    } else {
        last_index_of(s.drop_last(), c)
    }
}

/// The name of the hash file of `file`: its last extension replaced by
/// "b3", or just "b3" when it has no extension.
pub open spec fn hash_name_spec(file: Seq<char>) -> Seq<char> {
    match last_index_of(file, '.') {
        Some(i) => file.take(i + 1) + seq!['b', '3'],
        None => seq!['b', '3'],
    }
}

proof fn lemma_last_index_bounds(s: Seq<char>, c: char)
    ensures
        last_index_of(s, c) matches Some(i) ==> 0 <= i < s.len() && s[i] == c,
    decreases s.len(),
{
    if s.len() > 0 && s.last() != c {
        lemma_last_index_bounds(s.drop_last(), c);
    }
}

/// Appending text without `c` keeps the last position of `c`.
pub proof fn lemma_last_index_append(s: Seq<char>, t: Seq<char>, c: char)
    requires
        !t.contains(c),
    ensures
        last_index_of(s + t, c) == last_index_of(s, c),
    decreases t.len(),
{
    if t.len() > 0 {
        assert((s + t).drop_last() =~= s + t.drop_last());
        assert((s + t).last() == t.last());
        assert(t.drop_last().contains(c) ==> t.contains(c)) by {
            if t.drop_last().contains(c) {
                let k = choose|k: int| 0 <= k < t.drop_last().len() && t.drop_last()[k] == c;
                assert(t[k] == c);
            }
        }
        lemma_last_index_append(s, t.drop_last(), c);
    } else {
        assert(s + t =~= s);
    }
}

/// Naming the hash file of a hash file gives the same name again.
pub proof fn lemma_hash_name_idempotent(file: Seq<char>)
    ensures
        hash_name_spec(hash_name_spec(file)) == hash_name_spec(file),
{
    let b3 = seq!['b', '3'];
    assert(!b3.contains('.')) by {
        if b3.contains('.') {
            let k = choose|k: int| 0 <= k < b3.len() && b3[k] == '.';
        }
    }
    assert(last_index_of(b3, '.') is None) by {
        lemma_last_index_append(Seq::<char>::empty(), b3, '.');
        assert(Seq::<char>::empty() + b3 =~= b3);
    }
    lemma_last_index_bounds(file, '.');
    if let Some(i) = last_index_of(file, '.') {
        let head = file.take(i + 1);
        lemma_last_index_append(head, b3, '.');
        assert(head.drop_last().len() == i);
        assert(last_index_of(head, '.') == Some(i));
        assert((head + b3).take(i + 1) =~= head);
    }
}

/// The name of the hash file that goes with `file`.
pub fn hash_file_name(file: &str) -> (r: String)
    ensures
        r@ == hash_name_spec(file@),
{
    let cs = chars_of(file);
    let mut i: usize = cs.len();
    assert(cs@.take(i as int) =~= cs@);
    while i > 0
        invariant
            i <= cs@.len(),
            cs@ == file@,
            forall|k: int| i <= k < cs@.len() ==> cs@[k] != '.',
            last_index_of(file@, '.') == last_index_of(cs@.take(i as int), '.'),
        decreases i,
    {
        assert(cs@.take(i as int).drop_last() =~= cs@.take(i - 1));
        if cs[i - 1] == '.' {
            let mut out: Vec<char> = Vec::new();
            let mut j: usize = 0;
            while j < i
                invariant
                    j <= i,
                    i <= cs@.len(),
                    out@ == cs@.take(j as int),
                decreases i - j,
            {
                out.push(cs[j]);
                j = j + 1;
                assert(out@ =~= cs@.take(j as int));
            }
            out.push('b');
            out.push('3');
            assert(out@ =~= file@.take(i as int) + seq!['b', '3']);
            return string_of(out.as_slice());
        }
        i = i - 1;
    }
    let mut out: Vec<char> = Vec::new();
    out.push('b');
    out.push('3');
    assert(out@ =~= seq!['b', '3']);
    string_of(out.as_slice())
}

/// The BLAKE3 digest of `data`, in lowercase hexadecimal.
pub uninterp spec fn blake3_hex(data: Seq<u8>) -> Seq<char>;

/// Calls `blake3::hash(data)` and formats the digest with its `Display`
/// impl, which writes the 32 digest bytes as 64 lowercase hexadecimal
/// digits. The digest is named `blake3_hex`; its length is stated, its value
/// is not.
#[verifier::external_body]
fn digest_hex(data: &[u8]) -> (r: String)
    ensures
        r@ == blake3_hex(data@),
        r@.len() == 64,
{
    blake3::hash(data).to_string()
}

/// The digest recorded in a hash file: its text up to the first space.
pub open spec fn recorded_digest(contents: Seq<char>) -> Seq<char> {
    split_seq(contents, ' ')[0]
}

/// Whether a computed digest equals the one recorded in a hash file.
pub fn digest_matches(computed: &str, contents: &str) -> (r: bool)
    ensures
        r == (computed@ == recorded_digest(contents@)),
{
    let cs = chars_of(contents);
    let fields = split_chars(cs.as_slice(), ' ');
    proof {
        crate::text::lemma_split_nonempty(cs@, ' ');
        assert(fields.deep_view()[0] == fields@[0].deep_view());
        assert(fields@[0].deep_view() =~= fields@[0]@);
    }
    let first = string_of(fields[0].as_slice());
    str_eq(computed, first.as_str())
}

/// The BLAKE3 digest of the contents of a downloaded file, in lowercase
/// hexadecimal.
pub fn file_digest(data: &[u8]) -> (r: String)
    ensures
        r@ == blake3_hex(data@),
        r@.len() == 64,
{
    digest_hex(data)
}

/// A hash file that starts with a digest followed by a space, as written by
/// the usual digest tools ("digest  file name"), records that digest.
pub proof fn lemma_recorded_digest(digest: Seq<char>, rest: Seq<char>)
    requires
        !digest.contains(' '),
    ensures
        recorded_digest(digest + seq![' '] + rest) == digest,
{
    lemma_split_without_sep(digest, ' ');
    let head = digest + seq![' '];
    assert(head.drop_last() =~= digest);
    assert(split_seq(head, ' ') == seq![digest].push(Seq::<char>::empty()));
    lemma_split_first_stable(head, rest, ' ');
}

} // verus!
