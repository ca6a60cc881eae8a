use eoka::mirror::{
    classify_source_line, file_url, leading_masters, strip_master, MirrorProbe, MirrorScan,
    ProbeOutcome, SourceLine,
};

#[test]
fn source_lines_are_classified() {
    assert_eq!(classify_source_line("#masters"), SourceLine::MastersHeader);
    assert_eq!(classify_source_line("#MASTERS"), SourceLine::MastersHeader);
    assert_eq!(classify_source_line("#Slaves"), SourceLine::SlavesHeader);
    assert_eq!(classify_source_line("# comment"), SourceLine::Comment);
    assert_eq!(classify_source_line("mirror.example.org"), SourceLine::Server);
}

#[test]
fn scanning_the_sources_list_marks_masters() {
    let mut scan = MirrorScan::new();
    assert!(!scan.read_line("#MASTERS"));
    assert!(scan.read_line("a.org"));
    scan.accept("a.org");
    assert!(!scan.read_line("#slaves"));
    assert!(scan.read_line("b.org"));
    scan.accept("b.org");
    assert_eq!(scan.mirrors, vec!["^a.org", "b.org"]);
    assert_eq!(scan.masters, 1);
    assert!(!scan.lacks_master());
    assert!(MirrorScan::new().lacks_master());
}

#[test]
fn master_mark_is_removed() {
    assert_eq!(strip_master("^a.org"), "a.org");
    assert_eq!(strip_master("a.org"), "a.org");
    assert_eq!(strip_master(""), "");
    assert_eq!(strip_master("^"), "");
}

#[test]
fn marking_then_unmarking_gives_the_server() {
    let mut scan = MirrorScan::new();
    scan.read_line("#MASTERS");
    scan.accept("m.org");
    assert_eq!(strip_master(&scan.mirrors[0]), "m.org");
}

#[test]
fn file_addresses() {
    assert_eq!(file_url("m.org", "foo-1.0.ek"), "http://m.org/foo/foo-1.0.ek");
    assert_eq!(file_url("m.org", "eoka.db"), "http://m.org/eoka.db");
    assert_eq!(file_url("m.org", "eoka.b3"), "http://m.org/eoka.b3");
    assert_eq!(file_url("m.org", "bar"), "http://m.org/bar/bar");
}

#[test]
fn probing_keeps_reachable_servers() {
    let mirrors = vec!["^a".to_string(), "b".to_string(), "c".to_string()];
    let mut probe = MirrorProbe::new(&mirrors);
    assert_eq!(probe.current(), Some("a".to_string()));
    assert!(!probe.record(ProbeOutcome::Missing));
    assert_eq!(probe.current(), Some("b".to_string()));
    assert!(!probe.record(ProbeOutcome::Unreachable));
    assert_eq!(probe.current(), Some("c".to_string()));
    assert!(!probe.record(ProbeOutcome::Missing));
    assert_eq!(probe.current(), None);
    assert_eq!(probe.kept, vec!["a", "c"]);
}

#[test]
fn probing_stops_at_a_serving_server() {
    let mirrors = vec!["a".to_string(), "b".to_string()];
    let mut probe = MirrorProbe::new(&mirrors);
    assert!(probe.record(ProbeOutcome::Served));
    assert_eq!(probe.pos, 1);
}

#[test]
fn leading_master_entries() {
    let m: Vec<String> = ["^a", "^b", "c", "^d"].iter().map(|x| x.to_string()).collect();
    assert_eq!(leading_masters(&m), vec!["^a", "^b"]);
    let m: Vec<String> = ["c", "^d"].iter().map(|x| x.to_string()).collect();
    assert!(leading_masters(&m).is_empty());
}

#[test]
fn mirror_list_replaced_only_when_nothing_served() {
    let mirrors = vec!["^a".to_string(), "b".to_string()];
    let mut probe = MirrorProbe::new(&mirrors);
    assert_eq!(probe.replacement_list(), None);
    probe.record(ProbeOutcome::Missing);
    assert_eq!(probe.replacement_list(), None);
    probe.record(ProbeOutcome::Unreachable);
    assert_eq!(probe.replacement_list(), Some(vec!["a".to_string()]));
    let mut probe = MirrorProbe::new(&mirrors);
    assert!(probe.record(ProbeOutcome::Served));
    assert!(probe.found);
    assert_eq!(probe.replacement_list(), None);
}

#[test]
fn ascii_headers_in_any_case() {
    assert_eq!(classify_source_line("#MaStErS"), SourceLine::MastersHeader);
    assert_eq!(classify_source_line("#slaves "), SourceLine::Comment);
}
