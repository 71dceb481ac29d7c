use gprepo::normalize::process_file_contents;

#[test]
fn significant_whitespace_four_spaces_become_tab() {
    let out = process_file_contents("src/a.py", "    x = 1\n\n    y = 2\n");
    assert_eq!(out, "\tx = 1\n\ty = 2\n");
}

#[test]
fn significant_whitespace_interior_run_compressed() {
    let out = process_file_contents("a.py", "a    b\n");
    assert_eq!(out, "a\tb\n");
}

#[test]
fn significant_whitespace_runs_left_to_right_non_overlapping() {
    assert_eq!(process_file_contents("a.yaml", "        x\n"), "\t\tx\n");
    assert_eq!(process_file_contents("a.yml", "     x\n"), "\t x\n");
    assert_eq!(process_file_contents("a.hs", "   x\n"), "   x\n");
}

#[test]
fn no_indentation_strips_leading_whitespace() {
    let out = process_file_contents("m.rs", "    fn main() {}\n\tx\n");
    assert_eq!(out, "fn main() {}\nx\n");
}

#[test]
fn no_indentation_whitespace_only_line_dropped() {
    let out = process_file_contents("a.c", "a\n   \t \nb\n");
    assert_eq!(out, "a\nb\n");
}

#[test]
fn passthrough_keeps_lines_but_drops_empty_ones() {
    let out = process_file_contents("notes.xyz", "a\n\n  b\n");
    assert_eq!(out, "a\n  b\n");
}

#[test]
fn passthrough_adds_terminator_to_last_line() {
    assert_eq!(process_file_contents("notes.xyz", "a"), "a\n");
}

#[test]
fn empty_content_gives_empty_output() {
    assert_eq!(process_file_contents("a.py", ""), "");
    assert_eq!(process_file_contents("a.rs", "\n\n"), "");
}

#[test]
fn crlf_line_endings_are_stripped() {
    let out = process_file_contents("m.rs", "a\r\n\r\n  b\r\n");
    assert_eq!(out, "a\nb\n");
}

#[test]
fn hidden_file_without_extension_is_passthrough() {
    let out = process_file_contents(".gitignore", "    target\n");
    assert_eq!(out, "    target\n");
}

#[test]
fn extension_is_taken_from_final_dot_of_file_name() {
    assert_eq!(process_file_contents("pkg.tar.py", "    x\n"), "\tx\n");
    assert_eq!(process_file_contents("dir.py/readme", "    x\n"), "    x\n");
}

#[test]
fn extension_is_case_sensitive() {
    assert_eq!(process_file_contents("a.PY", "    x\n"), "    x\n");
}

#[test]
fn carriage_return_without_newline_is_kept() {
    assert_eq!(process_file_contents("notes.xyz", "a\r"), "a\r\n");
}

#[test]
fn final_line_without_terminator_still_splits_at_crlf() {
    assert_eq!(process_file_contents("notes.xyz", "a\r\nb"), "a\nb\n");
}

#[test]
fn no_indentation_strips_unicode_whitespace() {
    assert_eq!(process_file_contents("a.rs", "\u{00A0}\u{2003}x\n"), "x\n");
}
