use eoka::version::{cmp_v, is_behind, local_is_behind, older_version, Precedence};

fn s(x: &str) -> String {
    x.to_string()
}

#[test]
fn cmp_v_newer_minor_component() {
    assert!(cmp_v(&s("1.0"), &s("1.1")));
    assert!(!cmp_v(&s("1.1"), &s("1.0")));
}

#[test]
fn cmp_v_equal_versions_are_not_older() {
    assert!(!cmp_v(&s("1.0"), &s("1.0")));
    assert!(!cmp_v(&s(""), &s("")));
}

#[test]
fn cmp_v_missing_components_count_as_zero() {
    assert!(cmp_v(&s("1"), &s("1.0.1")));
    assert!(!cmp_v(&s("1"), &s("1.0")));
}

#[test]
fn cmp_v_extra_local_components_are_ignored() {
    assert!(!cmp_v(&s("1.0.1"), &s("1")));
    assert!(!cmp_v(&s("1.0.1"), &s("1.0")));
}

#[test]
fn cmp_v_components_compare_as_strings() {
    assert!(!cmp_v(&s("1.9"), &s("1.10")));
    assert!(cmp_v(&s("1.10"), &s("1.9")));
    assert!(cmp_v(&s(""), &s("1")));
    assert!(!cmp_v(&s("2.3.0-b"), &s("2.3.0")));
}

#[test]
fn version_order_is_strict_on_examples() {
    let vs = ["0", "1", "1.0", "1.0.1", "1.10", "1.9", "2", "2.3.0-b", ""];
    for a in vs.iter() {
        assert!(!older_version(a, a));
        for b in vs.iter() {
            if older_version(a, b) {
                assert!(!older_version(b, a));
                for c in vs.iter() {
                    if older_version(b, c) {
                        assert!(older_version(a, c));
                    }
                }
            }
        }
    }
}

#[test]
fn crate_order_decides_database_update() {
    assert_eq!(local_is_behind("1.2.3", "1.2.4"), Some(true));
    assert_eq!(local_is_behind("1.2.4", "1.2.3"), Some(false));
    assert_eq!(local_is_behind("1", "0.1"), Some(false));
    assert_eq!(local_is_behind("1.2.3", "1.2.3"), Some(false));
    assert_eq!(local_is_behind("1.9", "1.10"), Some(true));
}

#[test]
fn crate_order_rejects_unparsable_versions() {
    assert_eq!(local_is_behind("abc", "1.0"), None);
    assert_eq!(local_is_behind("1.0", "abc"), None);
}

#[test]
fn only_lower_precedence_is_behind() {
    assert!(is_behind(Precedence::Lower));
    assert!(!is_behind(Precedence::Equal));
    assert!(!is_behind(Precedence::Higher));
}
