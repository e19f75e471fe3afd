use termland::protocol::clipboard_files::{
    build_uri_list, hex_val, parse_uri_list, percent_decode, percent_encode_path,
    sanitize_filename,
};

#[test]
fn parse_uri_list_basic() {
    let text = "file:///tmp/a.txt\nfile:///tmp/b.txt\n";
    let paths = parse_uri_list(text);
    assert_eq!(paths, vec!["/tmp/a.txt", "/tmp/b.txt"]);
}

#[test]
fn parse_uri_list_skips_blank_and_comment_lines() {
    let text = "# a comment\nfile:///tmp/a.txt\n\n   \nfile:///tmp/b.txt\n";
    let paths = parse_uri_list(text);
    assert_eq!(paths, vec!["/tmp/a.txt", "/tmp/b.txt"]);
}

#[test]
fn parse_uri_list_skips_non_file_schemes() {
    let text = "http://example.com/a.txt\nfile:///tmp/b.txt\n";
    let paths = parse_uri_list(text);
    assert_eq!(paths, vec!["/tmp/b.txt"]);
}

#[test]
fn parse_uri_list_percent_decodes_spaces_and_unicode() {
    let text = "file:///tmp/my%20file%20with%20spaces%20%26%20%C3%BC%C3%B1%C3%AF%C3%A7%C3%B8d%C3%A9.txt\n";
    let paths = parse_uri_list(text);
    assert_eq!(paths, vec!["/tmp/my file with spaces & üñïçødé.txt"]);
}

#[test]
fn percent_decode_passes_through_malformed_escape() {
    assert_eq!(percent_decode("100%done"), "100%done");
    assert_eq!(percent_decode("abc%2"), "abc%2");
}

#[test]
fn percent_encode_decode_roundtrip() {
    let original = "/tmp/my file with spaces & üñïçødé.txt";
    let encoded = percent_encode_path(original);
    let decoded = percent_decode(&encoded);
    assert_eq!(decoded, original);
}

#[test]
fn build_uri_list_produces_parseable_output() {
    let paths = vec!["/tmp/a b.txt".to_string(), "/tmp/c.txt".to_string()];
    let list = build_uri_list(&paths);
    let parsed = parse_uri_list(&list);
    assert_eq!(parsed, paths);
}

#[test]
fn sanitize_filename_accepts_plain_basename() {
    assert_eq!(sanitize_filename("report.pdf").as_deref(), Some("report.pdf"));
    assert_eq!(sanitize_filename("üñïçødé.txt").as_deref(), Some("üñïçødé.txt"));
    assert_eq!(sanitize_filename("  spaced.txt  ").as_deref(), Some("spaced.txt"));
}

#[test]
fn sanitize_filename_rejects_path_traversal() {
    assert_eq!(sanitize_filename("../../etc/passwd"), None);
    assert_eq!(sanitize_filename("..\\..\\windows\\system32"), None);
}

#[test]
fn sanitize_filename_rejects_absolute_path() {
    assert_eq!(sanitize_filename("/etc/passwd"), None);
}

#[test]
fn sanitize_filename_rejects_dot_and_dotdot_and_empty() {
    assert_eq!(sanitize_filename("."), None);
    assert_eq!(sanitize_filename(".."), None);
    assert_eq!(sanitize_filename(""), None);
    assert_eq!(sanitize_filename("   "), None);
}

#[test]
fn sanitize_filename_rejects_embedded_separator() {
    assert_eq!(sanitize_filename("sub/dir/file.txt"), None);
    assert_eq!(sanitize_filename("weird\\name.txt"), None);
    assert_eq!(sanitize_filename("nul\0byte.txt"), None);
}

#[test]
fn encoded_paths_are_exact() {
    assert_eq!(percent_encode_path("/tmp/a b&ü.txt"), "/tmp/a%20b%26%C3%BC.txt");
    assert_eq!(percent_encode_path("/A-z_0.9~"), "/A-z_0.9~");
    assert_eq!(
        build_uri_list(&["/a b".to_string(), "/c".to_string()]),
        "file:///a%20b\r\nfile:///c\r\n"
    );
    assert_eq!(build_uri_list(&[]), "");
}

#[test]
fn ill_formed_bytes_become_replacement_characters() {
    assert_eq!(percent_decode("%FF"), "\u{fffd}");
    assert_eq!(percent_decode("a%C3"), "a\u{fffd}");
    assert_eq!(percent_decode("%c3%bc"), "ü");
}

#[test]
fn hex_values() {
    assert_eq!(hex_val(b'0'), Some(0));
    assert_eq!(hex_val(b'9'), Some(9));
    assert_eq!(hex_val(b'a'), Some(10));
    assert_eq!(hex_val(b'F'), Some(15));
    assert_eq!(hex_val(b'g'), None);
    assert_eq!(hex_val(b'/'), None);
}

#[test]
fn sanitized_names_pass_again() {
    for name in ["report.pdf", "  spaced.txt  ", "a b", "...", "日本"] {
        let once = sanitize_filename(name).unwrap();
        assert_eq!(sanitize_filename(&once), Some(once.clone()));
    }
}
