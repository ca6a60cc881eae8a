use eoka::integrity::{digest_matches, file_digest, hash_file_name};

fn file_intact(data: &[u8], contents: &str) -> bool {
    digest_matches(&file_digest(data), contents)
}

#[test]
fn hash_file_names() {
    assert_eq!(hash_file_name("foo-1.0.ek"), "foo-1.0.b3");
    assert_eq!(hash_file_name("eoka.db"), "eoka.b3");
    assert_eq!(hash_file_name("noext"), "b3");
    assert_eq!(hash_file_name("dir."), "dir.b3");
}

#[test]
fn hash_file_name_is_idempotent() {
    for f in ["foo-1.0.ek", "eoka.db", "noext", "a.b.c", ""] {
        let once = hash_file_name(f);
        assert_eq!(hash_file_name(&once), once);
    }
}

#[test]
fn recorded_digest_is_the_first_field() {
    assert!(digest_matches("abc", "abc  eoka.db\n"));
    assert!(digest_matches("abc", "abc"));
    assert!(!digest_matches("abc", "abcd eoka.db"));
    assert!(!digest_matches("abc", " abc"));
}

#[test]
fn blake3_digest_of_contents() {
    let empty = "af1349b9f5f9a1a6a0404dea36dcc9499bcb25c9adc112b7cc9a93cae41f3262";
    assert!(file_intact(b"", &format!("{}  eoka.db", empty)));
    assert!(!file_intact(b"x", &format!("{}  eoka.db", empty)));
    assert!(!file_intact(b"", ""));
}

#[test]
fn blake3_digest_text() {
    assert_eq!(
        eoka::integrity::file_digest(b""),
        "af1349b9f5f9a1a6a0404dea36dcc9499bcb25c9adc112b7cc9a93cae41f3262"
    );
    assert_eq!(eoka::integrity::file_digest(b"abc").len(), 64);
    assert_ne!(eoka::integrity::file_digest(b"abc"), "abc");
}
