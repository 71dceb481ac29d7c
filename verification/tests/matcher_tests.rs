use gprepo::matcher::{BuildError, IgnoreMatcher};

#[test]
fn builtin_patterns_protect_metadata_files() {
    let m = IgnoreMatcher::new(&vec![]).unwrap();
    assert!(m.matches("README.md"));
    assert!(m.matches("docs/CHANGELOG.txt"));
    assert!(m.matches("LICENSE"));
    assert!(m.matches("Cargo.lock"));
    assert!(m.matches(".gitignore"));
    assert!(m.matches(".github/workflows/ci.yml"));
    assert!(m.matches("gprepo"));
}

#[test]
fn ordinary_source_paths_are_not_ignored() {
    let m = IgnoreMatcher::new(&vec![]).unwrap();
    assert!(!m.matches("src/a.py"));
    assert!(!m.matches("src/main.rs"));
    assert!(!m.matches("Cargo.toml"));
}

#[test]
fn builtin_name_patterns_match_either_case() {
    let m = IgnoreMatcher::new(&vec![]).unwrap();
    assert!(m.matches("readme.txt"));
    assert!(m.matches("README"));
    assert!(m.matches("license.txt"));
    assert!(m.matches("LICENSE"));
    assert!(m.matches("changelog.txt"));
    assert!(m.matches("CHANGELOG.txt"));
}

#[test]
fn user_patterns_are_added_to_the_builtins() {
    let m = IgnoreMatcher::new(&vec!["*.tmp".to_string()]).unwrap();
    assert!(m.matches("scratch/x.tmp"));
    assert!(!m.matches("scratch/x.txt"));
    assert!(m.matches("README.md"));
}

#[test]
fn malformed_pattern_is_reported_with_its_text() {
    let r = IgnoreMatcher::new(&vec!["a[".to_string()]);
    match r {
        Err(BuildError::InvalidPattern(p)) => assert_eq!(p, "a["),
        _ => panic!("expected the malformed pattern to be rejected"),
    }
}
