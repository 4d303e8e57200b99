use asset_redirect::bytes::{
    append, bytes_eq, contains, ends_with, find, opt_path_join, replace_bytes, starts_with,
    strip_prefix,
};

#[test]
fn find_returns_first_occurrence() {
    let haystack = b"foo bar baz";
    assert_eq!(find(haystack, b"foo"), Some(0));
    assert_eq!(find(haystack, b"bar"), Some(4));
    assert_eq!(find(haystack, b"ba"), Some(4));
    assert_eq!(find(haystack, b"baz"), Some(8));
    assert_eq!(find(haystack, b"quux"), None);
}

#[test]
fn find_handles_empty_and_long_inputs() {
    assert_eq!(find(b"abc", b""), Some(0));
    assert_eq!(find(b"", b""), Some(0));
    assert_eq!(find(b"", b"a"), None);
    assert_eq!(find(b"ab", b"abc"), None);
    let mut long = vec![b'x'; 200];
    long.extend_from_slice(b"needle");
    long.extend_from_slice(&[b'y'; 50]);
    long.extend_from_slice(b"needle");
    assert_eq!(find(&long, b"needle"), Some(200));
}

#[test]
fn contains_follows_find() {
    assert!(contains(b"uniform float v_dithering;", b"v_dithering"));
    assert!(!contains(b"uniform float v_dither;", b"v_dithering"));
    assert!(contains(b"", b""));
}

#[test]
fn bytes_eq_compares_content() {
    assert!(bytes_eq(b"abc", b"abc"));
    assert!(!bytes_eq(b"abc", b"abd"));
    assert!(!bytes_eq(b"abc", b"ab"));
    assert!(!bytes_eq(b"ab", b"abc"));
    assert!(bytes_eq(b"", b""));
}

#[test]
fn starts_with_and_ends_with() {
    assert!(starts_with(b"assets/x", b"assets/"));
    assert!(starts_with(b"assets/", b"assets/"));
    assert!(starts_with(b"anything", b""));
    assert!(!starts_with(b"asset", b"assets/"));
    assert!(!starts_with(b"xassets/", b"assets/"));
    assert!(ends_with(b"a.material.bin", b".material.bin"));
    assert!(ends_with(b".material.bin", b".material.bin"));
    assert!(ends_with(b"anything", b""));
    assert!(!ends_with(b"material.bin", b".material.bin"));
    assert!(!ends_with(b"a.material.bin2", b".material.bin"));
}

#[test]
fn strip_prefix_drops_only_a_leading_prefix() {
    assert_eq!(strip_prefix(b"assets/renderer/x", b"assets/"), b"renderer/x");
    assert_eq!(strip_prefix(b"renderer/x", b"assets/"), b"renderer/x");
    assert_eq!(strip_prefix(b"assets/", b"assets/"), b"");
    assert_eq!(strip_prefix(b"assets/assets/x", b"assets/"), b"assets/x");
    assert_eq!(strip_prefix(b"x/assets/y", b"assets/"), b"x/assets/y");
}

#[test]
fn append_adds_at_the_end() {
    let mut bytes = b"ab".to_vec();
    append(&mut bytes, b"cd");
    append(&mut bytes, b"");
    assert_eq!(bytes, b"abcd");
}

#[test]
fn opt_path_join_writes_pieces_in_order() {
    let mut bytes = Vec::new();
    let pieces: [&[u8]; 2] = [b"hbui/", b"index.html"];
    opt_path_join(&mut bytes, &pieces);
    assert_eq!(bytes, b"hbui/index.html");
    let none: [&[u8]; 0] = [];
    opt_path_join(&mut bytes, &none);
    assert_eq!(bytes, b"hbui/index.html");
    let three: [&[u8]; 3] = [b"/", b"", b"x"];
    opt_path_join(&mut bytes, &three);
    assert_eq!(bytes, b"hbui/index.html/x");
}

#[test]
fn replace_bytes_replaces_the_first_occurrence_only() {
    let mut code = b"a void main b void main c".to_vec();
    replace_bytes(&mut code, b"void main", b"XY");
    assert_eq!(code, b"a XY b void main c");
}

#[test]
fn replace_bytes_leaves_code_without_the_pattern_alone() {
    let mut code = b"void  main".to_vec();
    replace_bytes(&mut code, b"void main", b"XY");
    assert_eq!(code, b"void  main");
    let mut empty: Vec<u8> = Vec::new();
    replace_bytes(&mut empty, b"void main", b"XY");
    assert!(empty.is_empty());
}

#[test]
fn replace_bytes_at_the_edges() {
    let mut at_start = b"void main() {}".to_vec();
    replace_bytes(&mut at_start, b"void main", b"#define X\nvoid main");
    assert_eq!(at_start, b"#define X\nvoid main() {}");
    let mut at_end = b"int x; void main".to_vec();
    replace_bytes(&mut at_end, b"void main", b"");
    assert_eq!(at_end, b"int x; ");
    let mut whole = b"void main".to_vec();
    replace_bytes(&mut whole, b"void main", b"longer than before");
    assert_eq!(whole, b"longer than before");
}
