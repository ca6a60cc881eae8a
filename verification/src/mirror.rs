//! Mirror servers: reading the list of sources, marking master servers, and
//! probing the mirrors in turn for a file.

use vstd::prelude::*;
use crate::text::{all_ascii, ascii_upper, chars_of, joined, split_seq, str_eq, string_of, to_upper, uppercase};

verus! {

/// The kind of a line of the sources list.
#[derive(Clone, Copy, Debug, PartialEq, Eq, Structural)]
pub enum SourceLine {
    /// A comment that starts the section of master servers.
    MastersHeader,
    /// A comment that starts the section of ordinary servers.
    SlavesHeader,
    /// Any other comment.
    Comment,
    /// A server address.
    Server,
}

/// The kind of a non-empty line of the sources list: lines starting with '#'
/// are comments, and a comment whose uppercase form is "#MASTERS" or
/// "#SLAVES" opens a section.
pub open spec fn source_line_spec(line: Seq<char>) -> SourceLine {
    source_line_given(line, uppercase(line))
}

/// The kind of a non-empty line of the sources list whose uppercase form is
/// `upper`.
pub open spec fn source_line_given(line: Seq<char>, upper: Seq<char>) -> SourceLine {
    if line[0] == '#' {
        if upper == "#MASTERS"@ {
            SourceLine::MastersHeader
        } else if upper == "#SLAVES"@ {
            SourceLine::SlavesHeader
        } else {
            SourceLine::Comment
        }
    } else {
        SourceLine::Server
    }
}

/// The kind of a non-empty line of the sources list.
pub fn classify_source_line(line: &str) -> (r: SourceLine)
    requires
        line@.len() > 0,
    ensures
        r == source_line_spec(line@),
        all_ascii(line@) ==> r == source_line_given(line@, ascii_upper(line@)),
{
    let cs = chars_of(line);
    if cs[0] == '#' {
        let up = to_upper(line);
        if str_eq(up.as_str(), "#MASTERS") {
            SourceLine::MastersHeader
        } else if str_eq(up.as_str(), "#SLAVES") {
            SourceLine::SlavesHeader
        } else {
            SourceLine::Comment
        }
    } else {
        SourceLine::Server
    }
}

/// A mirror entry: master servers are marked with a leading '^'.
pub open spec fn marked(server: Seq<char>, master: bool) -> Seq<char> {
    if master {
        seq!['^'] + server
    } else {
        server
    }
}

/// The server address of a mirror entry, without its master mark.
pub open spec fn unmarked(entry: Seq<char>) -> Seq<char> {
    if entry.len() > 0 && entry[0] == '^' {
        entry.drop_first()
    } else {
        entry
    }
}

/// Removing the mark of a mirror entry gives back its server, whenever the
/// server address does not itself start with '^'.
pub proof fn lemma_unmark_marked(server: Seq<char>, master: bool)
    requires
        master || !(server.len() > 0 && server[0] == '^'),
    ensures
        unmarked(marked(server, master)) == server,
{
    if master {
        assert((seq!['^'] + server).drop_first() =~= server);
    }
}

/// The server address of a mirror entry.
pub fn strip_master(entry: &str) -> (r: String)
    ensures
        r@ == unmarked(entry@),
{
    let cs = chars_of(entry);
    if cs.len() > 0 && cs[0] == '^' {
        let mut rest: Vec<char> = Vec::new();
        let mut i: usize = 1;
        while i < cs.len()
            invariant
                1 <= i <= cs@.len(),
                rest@ == cs@.subrange(1, i as int),
            decreases cs@.len() - i,
        {
            rest.push(cs[i]);
            i = i + 1;
            assert(rest@ =~= cs@.subrange(1, i as int));
        }
        assert(cs@.subrange(1, cs@.len() as int) =~= cs@.drop_first());
        string_of(rest.as_slice())
    } else {
        entry.to_owned()
    }
}

/// The state of reading the sources list.
pub struct MirrorScan {
    /// Whether the lines read are in the section of master servers.
    pub master: bool,
    /// How many master servers answered.
    pub masters: u16,
    /// The entries of the servers that answered, in order.
    pub mirrors: Vec<String>,
}

impl MirrorScan {
    /// The state before the first line: outside the master section, with no
    /// server found.
    pub fn new() -> (r: Self)
        ensures
            !r.master,
            r.masters == 0,
            r.mirrors@.len() == 0,
    {
        MirrorScan { master: false, masters: 0, mirrors: Vec::new() }
    }

    /// Reads a non-empty line of the sources list and tells whether it names
    /// a server to probe. A "#MASTERS" header opens the master section and a
    /// "#SLAVES" header closes it.
    pub fn read_line(&mut self, line: &str) -> (probe: bool)
        requires
            line@.len() > 0,
        ensures
            probe == (source_line_spec(line@) == SourceLine::Server),
            final(self).master == (match source_line_spec(line@) {
                SourceLine::MastersHeader => true,
                SourceLine::SlavesHeader => false,
                _ => old(self).master,
            }),
            final(self).masters == old(self).masters,
            final(self).mirrors@ == old(self).mirrors@,
    {
        match classify_source_line(line) {
            SourceLine::MastersHeader => {
                self.master = true;
                false
            },
            SourceLine::SlavesHeader => {
                self.master = false;
                false
            },
            SourceLine::Comment => false,
            SourceLine::Server => true,
        }
    }

    /// Records a server that answered: its entry is marked when it is in the
    /// master section, and then it counts as a master.
    pub fn accept(&mut self, server: &str)
        requires
            old(self).master ==> old(self).masters < u16::MAX,
        ensures
            final(self).master == old(self).master,
            final(self).masters == old(self).masters + if old(self).master { 1int } else { 0int },
            final(self).mirrors.deep_view() == old(self).mirrors.deep_view().push(
                marked(server@, old(self).master),
            ),
    {
        let entry = if self.master {
            self.masters = self.masters + 1;
            joined("^", server)
        } else {
            server.to_owned()
        };
        proof {
            reveal_strlit("^");
        }
        assert(entry@ == marked(server@, self.master));
        let ghost before = self.mirrors.deep_view();
        self.mirrors.push(entry);
        assert(self.mirrors.deep_view() =~= before.push(marked(server@, self.master)));
    }

    /// Whether no master server answered, so that integrity cannot be ensured.
    pub fn lacks_master(&self) -> (r: bool)
        ensures
            r == (self.masters < 1),
    {
        self.masters < 1
    }
}

/// The address of a file on a server: database files lie at the root, and a
/// package file "name-..." lies in the directory "name".
pub open spec fn file_url_spec(server: Seq<char>, fname: Seq<char>) -> Seq<char> {
    if fname != "eoka.db"@ && fname != "eoka.b3"@ {
        "http://"@ + server + "/"@ + split_seq(fname, '-')[0] + "/"@ + fname
    } else {
        "http://"@ + server + "/"@ + fname
    }
}

/// The address of the file `fname` on the server `server`.
pub fn file_url(server: &str, fname: &str) -> (r: String)
    ensures
        r@ == file_url_spec(server@, fname@),
{
    let a = joined("http://", server);
    let b = joined(a.as_str(), "/");
    if !str_eq(fname, "eoka.db") && !str_eq(fname, "eoka.b3") {
        let cs = chars_of(fname);
        let pieces = crate::text::split_chars(cs.as_slice(), '-');
        proof {
            crate::text::lemma_split_nonempty(cs@, '-');
            assert(pieces.deep_view()[0] == pieces@[0].deep_view());
            assert(pieces@[0].deep_view() =~= pieces@[0]@);
        }
        let dir = string_of(pieces[0].as_slice());
        let c = joined(b.as_str(), dir.as_str());
        let d = joined(c.as_str(), "/");
        joined(d.as_str(), fname)
    } else {
        joined(b.as_str(), fname)
    }
}

/// The answer of one mirror to a request for a file.
#[derive(Clone, Copy, Debug, PartialEq, Eq, Structural)]
pub enum ProbeOutcome {
    /// The mirror serves the file.
    Served,
    /// The mirror answered that it does not have the file.
    Missing,
    /// The mirror could not be reached.
    Unreachable,
}

/// The state of asking the mirrors in turn for one file.
pub struct MirrorProbe {
    /// The mirror entries, in the order in which they are asked.
    pub servers: Vec<String>,
    /// How many mirrors have been asked.
    pub pos: usize,
    /// The servers that answered, without their master marks, in order.
    pub kept: Vec<String>,
    /// Whether a server served the file.
    pub found: bool,
}

impl MirrorProbe {
    /// The state before asking any of `mirrors`.
    pub fn new(mirrors: &Vec<String>) -> (r: Self)
        ensures
            r.servers.deep_view() == mirrors.deep_view(),
            r.pos == 0,
            r.kept@.len() == 0,
            !r.found,
    {
        MirrorProbe { servers: mirrors.clone(), pos: 0, kept: Vec::new(), found: false }
    }

    /// The server to ask next, without its master mark, or `None` once all
    /// were asked.
    pub fn current(&self) -> (r: Option<String>)
        ensures
            self.pos < self.servers@.len() ==> (r matches Some(s) && s@ == unmarked(
                self.servers@[self.pos as int]@,
            )),
            self.pos >= self.servers@.len() ==> r is None,
    {
        if self.pos < self.servers.len() {
            Some(strip_master(self.servers[self.pos].as_str()))
        } else {
            None
        }
    }

    /// Records the answer of the current server and tells whether the file
    /// was found. Every server that answered is kept, without its mark.
    pub fn record(&mut self, outcome: ProbeOutcome) -> (found: bool)
        requires
            old(self).pos < old(self).servers@.len(),
        ensures
            found == (outcome == ProbeOutcome::Served),
            final(self).servers.deep_view() == old(self).servers.deep_view(),
            final(self).pos == old(self).pos + 1,
            final(self).found == (old(self).found || outcome == ProbeOutcome::Served),
            final(self).kept.deep_view() == if outcome == ProbeOutcome::Unreachable {
                old(self).kept.deep_view()
            } else {
                old(self).kept.deep_view().push(
                    unmarked(old(self).servers@[old(self).pos as int]@),
                )
            },
    {
        let server = strip_master(self.servers[self.pos].as_str());
        let ghost before = self.kept.deep_view();
        let found = match outcome {
            ProbeOutcome::Served => {
                self.kept.push(server);
                true
            },
            ProbeOutcome::Missing => {
                self.kept.push(server);
                false
            },
            ProbeOutcome::Unreachable => false,
        };
        if outcome != ProbeOutcome::Unreachable {
            assert(self.kept.deep_view() =~= before.push(
                unmarked(old(self).servers@[old(self).pos as int]@),
            ));
        }
        let n = self.servers.len();
        assert(self.pos < n);
        self.pos = self.pos + 1;
        self.found = self.found || found;
        found
    }

    /// The mirror list that replaces the one probed: the servers that
    /// answered, once every mirror was asked and none served the file; `None`
    /// (the list stays as it was) otherwise.
    pub fn replacement_list(&self) -> (r: Option<Vec<String>>)
        ensures
            (!self.found && self.pos >= self.servers@.len()) ==> (r matches Some(v)
                && v.deep_view() == self.kept.deep_view()),
            !(!self.found && self.pos >= self.servers@.len()) ==> r is None,
    {
        if !self.found && self.pos >= self.servers.len() {
            let v = self.kept.clone();
            assert(v.deep_view() =~= self.kept.deep_view()) by {
                assert(v@.len() == self.kept@.len());
                assert forall|i: int| 0 <= i < v@.len() implies v@[i]@ == self.kept@[i]@ by {
                    assert(cloned::<String>(self.kept@[i], v@[i]));
                }
            }
            Some(v)
        } else {
            None
        }
    }
}

/// How many entries at the front of `mirrors` are marked as masters.
pub open spec fn master_prefix_len(mirrors: Seq<Seq<char>>) -> nat
    decreases mirrors.len(),
{
    if mirrors.len() == 0 {
        0
    } else if mirrors[0].len() > 0 && mirrors[0][0] == '^' {
        1 + master_prefix_len(mirrors.drop_first())
    } else {
        0
    }
}

/// The master entries at the front of the mirror list.
pub fn leading_masters(mirrors: &Vec<String>) -> (r: Vec<String>)
    ensures
        r.deep_view() == mirrors.deep_view().take(master_prefix_len(mirrors.deep_view()) as int),
{
    let ghost m = mirrors.deep_view();
    let mut r: Vec<String> = Vec::new();
    let mut i: usize = 0;
    assert(m.skip(0) =~= m);
    while i < mirrors.len()
        invariant
            m == mirrors.deep_view(),
            i <= m.len(),
            r.deep_view() =~= m.take(i as int),
            master_prefix_len(m) == i + master_prefix_len(m.skip(i as int)),
        decreases m.len() - i,
    {
        let cs = chars_of(mirrors[i].as_str());
        assert(m.skip(i as int)[0] == m[i as int]);
        if !(cs.len() > 0 && cs[0] == '^') {
            return r;
        }
        assert(m.skip(i as int).drop_first() =~= m.skip(i + 1));
        let ghost before = r.deep_view();
        let entry = mirrors[i].clone();
        r.push(entry);
        assert(r.deep_view() =~= before.push(m[i as int]));
        i = i + 1;
        assert(r.deep_view() =~= m.take(i as int));
    }
    r
}

} // verus!
