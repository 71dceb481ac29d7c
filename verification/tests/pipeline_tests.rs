use gprepo::matcher::IgnoreMatcher;
use gprepo::pipeline::{default_preamble, run_pipeline, Candidate, Filter, RunError};

fn plain_filter(start_time: u64) -> Filter {
    Filter {
        matcher: IgnoreMatcher::new(&vec![]).unwrap(),
        output_path: None,
        start_time,
    }
}

fn candidate(abs: &str, rel: &str, modified: Option<u64>, content: &[u8]) -> Candidate {
    Candidate {
        abs_path: abs.to_string(),
        rel_path: rel.to_string(),
        modified,
        content: content.to_vec(),
    }
}

#[test]
fn empty_repository_gives_preamble_and_terminal_marker() {
    let filter = plain_filter(100);
    let out = run_pipeline(&filter, "PRE", &vec![], &vec![]).unwrap();
    assert_eq!(out, "PRE\n@@@@END@@@@\n");
}

#[test]
fn full_scenario_with_binary_ignored_and_readme_files() {
    let filter = plain_filter(100);
    let candidates = vec![
        candidate("/repo/src/a.py", "src/a.py", Some(5), b"    x = 1\n\n    y = 2\n"),
        candidate("/repo/build/out.o", "build/out.o", Some(5), &[0u8, 1u8, 2u8]),
        candidate("/repo/README.md", "README.md", Some(5), b"docs\n"),
    ];
    let ignored = vec![false, true, false];
    let out = run_pipeline(&filter, "PRE", &candidates, &ignored).unwrap();
    assert_eq!(out, "PRE\n@@@@src/a.py@@@@\n\tx = 1\n\ty = 2\n\n@@@@END@@@@\n");
}

#[test]
fn file_modified_at_or_after_start_is_excluded() {
    let filter = plain_filter(100);
    let candidates = vec![
        candidate("/repo/new.txt", "new.txt", Some(100), b"late\n"),
        candidate("/repo/newer.txt", "newer.txt", Some(250), b"later\n"),
    ];
    let out = run_pipeline(&filter, "PRE", &candidates, &vec![false, false]).unwrap();
    assert_eq!(out, "PRE\n@@@@END@@@@\n");
}

#[test]
fn candidate_without_timestamp_passes_the_timestamp_gate() {
    let filter = plain_filter(100);
    let candidates = vec![candidate("/repo/a.txt", "a.txt", None, b"hi\n")];
    let out = run_pipeline(&filter, "PRE", &candidates, &vec![false]).unwrap();
    assert_eq!(out, "PRE\n@@@@a.txt@@@@\nhi\n\n@@@@END@@@@\n");
}

#[test]
fn output_destination_is_not_packed_into_itself() {
    let filter = Filter {
        matcher: IgnoreMatcher::new(&vec![]).unwrap(),
        output_path: Some("/repo/pack.txt".to_string()),
        start_time: 100,
    };
    let candidates = vec![
        candidate("/repo/pack.txt", "pack.txt", Some(5), b"old output\n"),
        candidate("/repo/a.txt", "a.txt", Some(5), b"hi\n"),
    ];
    let out = run_pipeline(&filter, "PRE", &candidates, &vec![false, false]).unwrap();
    assert_eq!(out, "PRE\n@@@@a.txt@@@@\nhi\n\n@@@@END@@@@\n");
}

#[test]
fn repository_ignored_file_is_excluded_whatever_its_content() {
    let filter = plain_filter(100);
    let candidates = vec![candidate("/repo/gen.txt", "gen.txt", Some(5), b"text\n")];
    let out = run_pipeline(&filter, "PRE", &candidates, &vec![true]).unwrap();
    assert_eq!(out, "PRE\n@@@@END@@@@\n");
}

#[test]
fn glob_ignored_file_is_excluded_whatever_its_content() {
    let filter = Filter {
        matcher: IgnoreMatcher::new(&vec!["secret*".to_string()]).unwrap(),
        output_path: None,
        start_time: 100,
    };
    let candidates = vec![candidate("/repo/secret.txt", "secret.txt", Some(5), b"text\n")];
    let out = run_pipeline(&filter, "PRE", &candidates, &vec![false]).unwrap();
    assert_eq!(out, "PRE\n@@@@END@@@@\n");
}

#[test]
fn included_file_with_invalid_utf8_is_a_fatal_error() {
    let filter = plain_filter(100);
    let candidates = vec![candidate("/repo/bad.txt", "bad.txt", Some(5), &[0xFFu8, 0xFEu8])];
    match run_pipeline(&filter, "PRE", &candidates, &vec![false]) {
        Err(RunError::InvalidText { path }) => assert_eq!(path, "bad.txt"),
        _ => panic!("expected the undecodable file to abort the run"),
    }
}

#[test]
fn excluded_file_with_invalid_utf8_is_no_error() {
    let filter = plain_filter(100);
    let candidates = vec![candidate("/repo/bad.txt", "bad.txt", Some(5), &[0xFFu8, 0x00u8])];
    let out = run_pipeline(&filter, "PRE", &candidates, &vec![false]).unwrap();
    assert_eq!(out, "PRE\n@@@@END@@@@\n");
}

#[test]
fn two_runs_over_the_same_inputs_give_identical_bytes() {
    let filter = plain_filter(100);
    let candidates = vec![
        candidate("/repo/src/a.py", "src/a.py", Some(5), b"    x = 1\n"),
        candidate("/repo/b.rs", "b.rs", Some(6), b"  fn f() {}\n"),
    ];
    let ignored = vec![false, false];
    let first = run_pipeline(&filter, "PRE", &candidates, &ignored).unwrap();
    let second = run_pipeline(&filter, "PRE", &candidates, &ignored).unwrap();
    assert_eq!(first, second);
}

#[test]
fn default_preamble_describes_the_marker_format() {
    assert_eq!(
        default_preamble(),
        "Below is a repository containing files. Each file begins with @@@@<file-path>@@@@ followed by its content. The repository ends with @@@@END@@@@. After this marker, instructions related to the repository are provided."
    );
}

#[test]
fn output_begins_with_preamble_block_and_ends_with_one_terminal_marker() {
    let filter = plain_filter(100);
    let candidates = vec![candidate("/repo/a.txt", "a.txt", Some(5), b"hi\n")];
    let out = run_pipeline(&filter, "PRE", &candidates, &vec![false]).unwrap();
    assert!(out.starts_with("PRE\n"));
    assert!(out.ends_with("@@@@END@@@@\n"));
    assert_eq!(out.matches("@@@@END@@@@").count(), 1);
}
