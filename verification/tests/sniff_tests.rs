use gprepo::sniff::is_binary;

#[test]
fn text_bytes_are_not_binary() {
    assert!(!is_binary(b"hello world\n"));
}

#[test]
fn zero_byte_in_prefix_is_binary() {
    assert!(is_binary(&[b'a', 0u8, b'b']));
    assert!(is_binary(&[0u8]));
}

#[test]
fn empty_content_is_text() {
    assert!(!is_binary(&[]));
}

#[test]
fn zero_byte_past_the_window_is_not_seen() {
    let mut v = vec![1u8; 1024];
    v.push(0u8);
    assert!(!is_binary(&v));
}

#[test]
fn zero_byte_at_window_edge_is_seen() {
    let mut v = vec![1u8; 1023];
    v.push(0u8);
    assert!(is_binary(&v));
}
