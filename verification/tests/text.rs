use termland::paths::{file_name, join};
use termland::text::{
    decimal_text, hexadecimal_chars, is_white, push_padded_left, push_padded_right, push_signed,
    rows_to_texts, split_lines, split_words, trim,
};

fn chars(s: &str) -> Vec<char> {
    s.chars().collect()
}

fn text(v: Vec<char>) -> String {
    v.into_iter().collect()
}

const SAMPLES: [&str; 12] = [
    "",
    " ",
    "a",
    "a\n",
    "\n\n",
    "a\r\nb\rc\n",
    " a  b\tc ",
    "\u{a0}x\u{3000}",
    "one\ntwo",
    "\r\n",
    "x\r",
    "tail\n\r",
];

#[test]
fn white_space_is_that_of_std() {
    for n in 0..=0x10FFFFu32 {
        if let Some(c) = char::from_u32(n) {
            assert_eq!(is_white(c), c.is_whitespace(), "{n:x}");
        }
    }
}

#[test]
fn texts_are_trimmed_and_split_as_by_std() {
    for s in SAMPLES {
        let c = chars(s);
        assert_eq!(text(trim(&c)), s.trim());
        let lines: Vec<String> = s.lines().map(|l| l.to_string()).collect();
        assert_eq!(rows_to_texts(&split_lines(&c), 0), lines, "{s:?}");
        let words: Vec<String> = s.split_whitespace().map(|w| w.to_string()).collect();
        assert_eq!(rows_to_texts(&split_words(&c), 0), words, "{s:?}");
    }
}

#[test]
fn numbers_are_written_as_by_std() {
    for n in [0u64, 1, 9, 10, 99, 12345, u64::MAX] {
        assert_eq!(decimal_text(n), n.to_string());
        assert_eq!(text(hexadecimal_chars(n as u128 * 3)), format!("{:x}", n as u128 * 3));
    }
    for n in [0, 1, -1, i32::MAX, i32::MIN] {
        let mut out = vec!['='];
        push_signed(&mut out, n);
        assert_eq!(text(out), format!("={n}"));
    }
}

#[test]
fn columns_are_padded_as_by_std() {
    for s in ["", "ab", "äöü", "longer than that"] {
        let mut out = vec![];
        push_padded_right(&mut out, s, 8);
        assert_eq!(text(out), format!("{s:<8}"));
        let mut out = vec![];
        push_padded_left(&mut out, s, 8);
        assert_eq!(text(out), format!("{s:>8}"));
    }
}

#[test]
fn paths_are_joined_and_named_as_by_std() {
    for base in ["/a", "/a/", "", "a/b", "/"] {
        for name in ["x", "", "x/y"] {
            let std_path = std::path::Path::new(base).join(name);
            assert_eq!(join(base, name), std_path.to_str().unwrap(), "{base:?} {name:?}");
        }
    }
    for p in ["/a/b", "/a/b/", "/", "", "a", "..", "a/..", "a/.", ".", "a//b//", "./a", "a/./."] {
        let expected = std::path::Path::new(p).file_name().map(|n| n.to_str().unwrap().to_string());
        assert_eq!(file_name(p), expected, "{p:?}");
    }
}
