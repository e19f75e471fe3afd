//! Pure helpers for pasting files through the clipboard: `text/uri-list`
//! parsing, percent-encoding and decoding, and the check that a received name
//! is a plain file name.
//!
//! Nothing here touches the file system. `sanitize_filename` is the one
//! function with real security weight: it alone stands between a name that
//! arrived over the wire and a write outside the scratch directory.
use vstd::prelude::*;
use vstd::utf8::*;
use crate::text;

verus! {

/// The value of a hexadecimal digit.
pub open spec fn hex_value(b: u8) -> Option<u8> {
    if 48 <= b <= 57 {
        Some((b - 48) as u8)
    } else if 97 <= b <= 102 {
        Some((b - 97 + 10) as u8)
    } else if 65 <= b <= 70 {
        Some((b - 65 + 10) as u8)
    } else {
        None
    }
}

/// Reads one hexadecimal digit, of either case.
pub fn hex_val(b: u8) -> (v: Option<u8>)
    ensures
        v == hex_value(b),
        v matches Some(x) ==> x < 16,
{
    if 48 <= b && b <= 57 {
        Some(b - 48)
    } else if 97 <= b && b <= 102 {
        Some(b - 97 + 10)
    } else if 65 <= b && b <= 70 {
        Some(b - 65 + 10)
    } else {
        None
    }
}

/// Whether `b` starts with a complete escape: `%` and two hexadecimal digits.
pub open spec fn escape_first(b: Seq<u8>) -> bool {
    &&& b.len() >= 3
    &&& b[0] == 37
    &&& hex_value(b[1]) is Some
    &&& hex_value(b[2]) is Some
}

/// The bytes that percent-encoded bytes stand for. Anything that is not a
/// complete escape stands for itself.
pub open spec fn unescaped(b: Seq<u8>) -> Seq<u8>
    decreases b.len(),
{
    if b.len() == 0 {
        Seq::empty()
    } else if escape_first(b) {
        seq![(hex_value(b[1])->0 * 16 + hex_value(b[2])->0) as u8] + unescaped(b.skip(3))
    } else {
        seq![b[0]] + unescaped(b.skip(1))
    }
}

/// What `String::from_utf8_lossy` makes of bytes that are not well-formed
/// UTF-8.
pub uninterp spec fn ill_formed_utf8_text(bytes: Seq<u8>) -> Seq<char>;

/// Bytes read as UTF-8 with ill-formed parts replaced.
pub open spec fn lossy_text(bytes: Seq<u8>) -> Seq<char> {
    if valid_utf8(bytes) {
        decode_utf8(bytes)
    } else {
        ill_formed_utf8_text(bytes)
    }
}

/// `String::from_utf8_lossy`: well-formed UTF-8 is decoded as it is. What
/// stands in place of ill-formed parts (U+FFFD, by the standard library's
/// rule) is only named here.
#[verifier::external_body]
fn from_utf8_lossy(bytes: &[u8]) -> (s: String)
    ensures
        valid_utf8(bytes@) ==> s@ == decode_utf8(bytes@),
        !valid_utf8(bytes@) ==> s@ == ill_formed_utf8_text(bytes@),
{
    String::from_utf8_lossy(bytes).into_owned()
}

/// The text that a percent-encoded text stands for.
pub open spec fn decoded(s: Seq<char>) -> Seq<char> {
    lossy_text(unescaped(encode_utf8(s)))
}

/// Decodes the percent escapes of a URI path (`%20` is a space, `%C3%A9` an
/// `e` with an acute accent). Works on bytes, so an escape may stand for part
/// of a character. An incomplete or malformed escape is kept as it is.
pub fn percent_decode(s: &str) -> (r: String)
    ensures
        r@ == decoded(s@),
{
    let bytes = s.as_bytes();
    let mut out: Vec<u8> = Vec::new();
    let mut i: usize = 0;
    assert(bytes@.skip(0) == bytes@);
    assert(out@ + unescaped(bytes@) == unescaped(bytes@));
    while i < bytes.len()
        invariant
            i <= bytes@.len(),
            out@ + unescaped(bytes@.skip(i as int)) == unescaped(bytes@),
        decreases bytes@.len() - i,
    {
        let ghost rest = bytes@.skip(i as int);
        let ghost before = out@;
        if bytes[i] == 37 && bytes.len() - i > 2 {
            if let (Some(hi), Some(lo)) = (hex_val(bytes[i + 1]), hex_val(bytes[i + 2])) {
                out.push(hi * 16 + lo);
                proof {
                    assert(rest[1] == bytes@[i + 1]);
                    assert(rest[2] == bytes@[i + 2]);
                    assert(escape_first(rest));
                    assert(rest.skip(3) == bytes@.skip(i + 3));
                    assert(before + (seq![(hi * 16 + lo) as u8] + unescaped(rest.skip(3))) == out@
                        + unescaped(bytes@.skip(i + 3)));
                }
                i = i + 3;
                continue ;
            }
        }
        out.push(bytes[i]);
        proof {
            assert(!escape_first(rest)) by {
                if bytes@.len() - i > 2 {
                    assert(rest[1] == bytes@[i + 1]);
                    assert(rest[2] == bytes@[i + 2]);
                }
            }
            assert(rest.skip(1) == bytes@.skip(i + 1));
            assert(before + (seq![bytes@[i as int]] + unescaped(rest.skip(1))) == out@ + unescaped(
                bytes@.skip(i + 1),
            ));
        }
        i = i + 1;
    }
    proof {
        assert(bytes@.skip(i as int) == Seq::<u8>::empty());
        assert(out@ + Seq::<u8>::empty() == out@);
    }
    from_utf8_lossy(&out)
}

/// Whether a byte stands for itself in an encoded path: the unreserved
/// characters of RFC 3986 and `/`.
pub open spec fn literal_in_path(b: u8) -> bool {
    ||| 65 <= b <= 90
    ||| 97 <= b <= 122
    ||| 48 <= b <= 57
    ||| b == 45
    ||| b == 95
    ||| b == 46
    ||| b == 126
    ||| b == 47
}

/// The upper-case hexadecimal digit of a value below sixteen.
pub open spec fn upper_hex(v: int) -> u8 {
    if v < 10 {
        (48 + v) as u8
    } else {
        (55 + v) as u8
    }
}

/// How one byte is written in an encoded path.
pub open spec fn escaped_byte(b: u8) -> Seq<u8> {
    if literal_in_path(b) {
        seq![b]
    } else {
        seq![37u8, upper_hex(b as int / 16), upper_hex(b as int % 16)]
    }
}

/// How a sequence of bytes is written in an encoded path.
pub open spec fn escaped(b: Seq<u8>) -> Seq<u8>
    decreases b.len(),
{
    if b.len() == 0 {
        Seq::empty()
    } else {
        escaped_byte(b[0]) + escaped(b.skip(1))
    }
}

/// ASCII bytes as characters.
pub open spec fn ascii(b: Seq<u8>) -> Seq<char> {
    b.map_values(|x: u8| x as char)
}

/// The percent-encoding of a path.
pub open spec fn encoded(s: Seq<char>) -> Seq<char> {
    ascii(escaped(encode_utf8(s)))
}

fn upper_hex_digit(v: u8) -> (d: u8)
    requires
        v < 16,
    ensures
        d == upper_hex(v as int),
{
    if v < 10 {
        48 + v
    } else {
        55 + v
    }
}

/// Percent-encodes a path for use in a `file://` URI. Unreserved characters
/// and `/` pass through; every other byte becomes `%` and two upper-case
/// hexadecimal digits. `percent_decode` undoes it.
pub fn percent_encode_path(s: &str) -> (r: String)
    ensures
        r@ == encoded(s@),
{
    let bytes = s.as_bytes();
    let mut out: Vec<char> = Vec::new();
    let mut i: usize = 0;
    assert(bytes@.skip(0) == bytes@);
    assert(out@ + ascii(escaped(bytes@)) == ascii(escaped(bytes@)));
    while i < bytes.len()
        invariant
            i <= bytes@.len(),
            out@ + ascii(escaped(bytes@.skip(i as int))) == ascii(escaped(bytes@)),
        decreases bytes@.len() - i,
    {
        let b: u8 = bytes[i];
        let ghost before = out@;
        let ghost rest = bytes@.skip(i as int);
        if (65 <= b && b <= 90) || (97 <= b && b <= 122) || (48 <= b && b <= 57) || b == 45 || b
            == 95 || b == 46 || b == 126 || b == 47 {
            out.push(b as char);
        } else {
            out.push('%');
            out.push(upper_hex_digit(b / 16) as char);
            out.push(upper_hex_digit(b % 16) as char);
        }
        proof {
            assert(rest[0] == b);
            assert(rest.skip(1) == bytes@.skip(i + 1));
            assert(out@ == before + ascii(escaped_byte(b)));
            assert(ascii(escaped(rest)) == ascii(escaped_byte(b)) + ascii(escaped(rest.skip(1))));
            assert(before + (ascii(escaped_byte(b)) + ascii(escaped(rest.skip(1)))) == out@ + ascii(
                escaped(rest.skip(1)),
            ));
        }
        i = i + 1;
    }
    proof {
        assert(bytes@.skip(i as int) == Seq::<u8>::empty());
        assert(out@ + ascii(Seq::<u8>::empty()) == out@);
    }
    text::text_of(&out)
}

/// The path that one line of a `text/uri-list` names: blank lines, comments
/// and other URI schemes name none.
pub open spec fn path_of_line(line: Seq<char>) -> Option<Seq<char>> {
    let t = text::trimmed(line);
    if t.len() == 0 || t[0] == '#' || !text::has_prefix(t, "file://"@) {
        None
    } else {
        Some(decoded(t.skip(7)))
    }
}

/// The paths that the lines of a `text/uri-list` name, in order.
pub open spec fn listed_paths(lines: Seq<Seq<char>>) -> Seq<Seq<char>>
    decreases lines.len(),
{
    if lines.len() == 0 {
        Seq::empty()
    } else {
        let before = listed_paths(lines.drop_last());
        match path_of_line(lines.last()) {
            Some(p) => before.push(p),
            None => before,
        }
    }
}

/// Reads a `text/uri-list` (RFC 2483: one URI per line, blank lines and lines
/// that start with `#` ignored) as local paths. Only `file://` entries are
/// kept, since only local files can be read and forwarded.
pub fn parse_uri_list(text: &str) -> (paths: Vec<String>)
    ensures
        text::texts(paths@) == listed_paths(text::lines(text@)),
{
    let chars = text::chars_of(text);
    let rows = text::split_lines(&chars);
    let prefix = text::chars_of("file://");
    proof {
        reveal_strlit("file://");
    }
    let mut paths: Vec<String> = Vec::new();
    let mut i: usize = 0;
    let ghost all = text::char_rows(rows@);
    assert(all.take(0) == Seq::<Seq<char>>::empty());
    assert(text::texts(paths@) == Seq::<Seq<char>>::empty());
    while i < rows.len()
        invariant
            i <= rows@.len(),
            all == text::char_rows(rows@),
            prefix@ == "file://"@,
            prefix@.len() == 7,
            text::texts(paths@) == listed_paths(all.take(i as int)),
        decreases rows@.len() - i,
    {
        let ghost before = paths@;
        let line = text::trim(&rows[i]);
        proof {
            assert(all.take(i + 1).drop_last() == all.take(i as int));
            assert(all.take(i + 1).last() == rows@[i as int]@);
        }
        if line.len() > 0 && line[0] != '#' && text::starts_with(&line, &prefix) {
            let rest = text::slice_chars(&line, 7, line.len());
            let path = percent_decode(text::text_of(&rest).as_str());
            proof {
                assert(rest@ == line@.skip(7));
            }
            paths.push(path);
            assert(text::texts(paths@) == text::texts(before).push(path@));
        }
        i = i + 1;
    }
    assert(all.take(i as int) == all);
    paths
}

/// One entry of a `text/uri-list`.
pub open spec fn uri_entry(path: Seq<char>) -> Seq<char> {
    "file://"@ + encoded(path) + "\r\n"@
}

/// The `text/uri-list` of some paths.
pub open spec fn uri_list(paths: Seq<Seq<char>>) -> Seq<char>
    decreases paths.len(),
{
    if paths.len() == 0 {
        Seq::empty()
    } else {
        uri_list(paths.drop_last()) + uri_entry(paths.last())
    }
}

/// Builds the `text/uri-list` of some absolute paths: per path one `file://`
/// URI, ended by CRLF as RFC 2483 asks.
pub fn build_uri_list(paths: &[String]) -> (list: String)
    ensures
        list@ == uri_list(text::texts(paths@)),
{
    let mut out: Vec<char> = Vec::new();
    let mut i: usize = 0;
    let ghost all = text::texts(paths@);
    while i < paths.len()
        invariant
            i <= paths@.len(),
            all == text::texts(paths@),
            out@ == uri_list(all.take(i as int)),
        decreases paths@.len() - i,
    {
        let ghost before = out@;
        text::push_str(&mut out, "file://");
        text::push_str(&mut out, percent_encode_path(paths[i].as_str()).as_str());
        text::push_str(&mut out, "\r\n");
        proof {
            assert(all.take(i + 1).drop_last() == all.take(i as int));
            assert(all.take(i + 1).last() == paths@[i as int]@);
            assert(out@ == before + uri_entry(paths@[i as int]@));
        }
        i = i + 1;
    }
    assert(all.take(i as int) == all);
    text::text_of(&out)
}

/// Whether a name is a plain, single-component file name.
pub open spec fn plain_name(name: Seq<char>) -> bool {
    &&& name.len() > 0
    &&& name != "."@
    &&& name != ".."@
    &&& !name.contains('/')
    &&& !name.contains('\\')
    &&& !name.contains('\0')
}

/// Turns a name that came over the wire into a file name safe to create in a
/// fixed scratch directory. Space around the name is dropped; what is not a
/// plain basename then (empty, `.`, `..`, or with a `/`, `\` or NUL in it) is
/// refused rather than rewritten.
pub fn sanitize_filename(name: &str) -> (r: Option<String>)
    ensures
        r is Some <==> plain_name(text::trimmed(name@)),
        r matches Some(n) ==> n@ == text::trimmed(name@),
{
    let chars = text::chars_of(name);
    let name = text::trim(&chars);
    let dot = text::chars_of(".");
    let dots = text::chars_of("..");
    if name.len() == 0 || text::chars_equal(&name, &dot) || text::chars_equal(&name, &dots) {
        return None;
    }
    if text::contains_char(&name, '/') || text::contains_char(&name, '\\') || text::contains_char(
        &name,
        '\0',
    ) {
        return None;
    }
    Some(text::text_of(&name))
}

proof fn escaped_byte_reads_back(b: u8, rest: Seq<u8>)
    ensures
        unescaped(escaped_byte(b) + rest) == seq![b] + unescaped(rest),
{
    let e = escaped_byte(b) + rest;
    if literal_in_path(b) {
        assert(e[0] == b);
        assert(e.skip(1) == rest);
    } else {
        let hi = b as int / 16;
        let lo = b as int % 16;
        assert(e[0] == 37u8);
        assert(e[1] == upper_hex(hi));
        assert(e[2] == upper_hex(lo));
        assert(hex_value(upper_hex(hi)) == Some(hi as u8));
        assert(hex_value(upper_hex(lo)) == Some(lo as u8));
        assert(e.skip(3) == rest);
    }
}

proof fn escaped_bytes_read_back(b: Seq<u8>)
    ensures
        unescaped(escaped(b)) == b,
    decreases b.len(),
{
    if b.len() > 0 {
        escaped_bytes_read_back(b.skip(1));
        escaped_byte_reads_back(b[0], escaped(b.skip(1)));
        assert(seq![b[0]] + b.skip(1) == b);
    }
}

proof fn escaped_bytes_are_plain(b: Seq<u8>)
    ensures
        forall|i: int|
            0 <= i < escaped(b).len() ==> literal_in_path(#[trigger] escaped(b)[i]) || escaped(
                b,
            )[i] == 37,
    decreases b.len(),
{
    if b.len() > 0 {
        escaped_bytes_are_plain(b.skip(1));
        let head = escaped_byte(b[0]);
        let tail = escaped(b.skip(1));
        assert forall|i: int| 0 <= i < escaped(b).len() implies literal_in_path(
            #[trigger] escaped(b)[i],
        ) || escaped(b)[i] == 37 by {
            if i < head.len() {
                assert(escaped(b)[i] == head[i]);
            } else {
                assert(escaped(b)[i] == tail[i - head.len()]);
            }
        }
    }
}

/// Decoding an encoded path gives the path back, whatever it holds.
pub proof fn percent_encoding_round_trips(s: Seq<char>)
    ensures
        decoded(encoded(s)) == s,
{
    let bytes = encode_utf8(s);
    let e = escaped(bytes);
    escaped_bytes_are_plain(bytes);
    assert(is_ascii_chars(ascii(e))) by {
        assert forall|i: int| 0 <= i < ascii(e).len() implies '\0' <= #[trigger] ascii(e)[i]
            <= '\u{7F}' by {
            assert(literal_in_path(e[i]) || e[i] == 37);
        }
    }
    is_ascii_chars_encode_utf8(ascii(e));
    assert(encode_utf8(ascii(e)) == e) by {
        assert forall|i: int| 0 <= i < e.len() implies encode_utf8(ascii(e))[i] == e[i] by {
            assert(literal_in_path(e[i]) || e[i] == 37);
        }
    }
    escaped_bytes_read_back(bytes);
    encode_utf8_valid_utf8(s);
    encode_utf8_decode_utf8(s);
}

proof fn entry_reads_back(path: Seq<char>)
    ensures
        text::lines(uri_entry(path)) == seq!["file://"@ + encoded(path)],
        path_of_line("file://"@ + encoded(path)) == Some(path),
        uri_entry(path).last() == '\n',
{
    reveal_strlit("file://");
    reveal_strlit("\r\n");
    let bytes = encode_utf8(path);
    escaped_bytes_are_plain(bytes);
    let line = "file://"@ + encoded(path);
    assert forall|i: int| 0 <= i < line.len() implies line[i] != '\n' && !text::white(line[i]) by {
        if i >= 7 {
            let b = escaped(bytes)[i - 7];
            assert(literal_in_path(b) || b == 37);
            assert(line[i] == b as char);
        }
    }
    assert("\r\n"@ == seq!['\r', '\n']);
    text::one_line(line);
    text::trimmed_text_stays(line);
    assert(line.take(7) == "file://"@);
    assert(line.skip(7) == encoded(path));
    percent_encoding_round_trips(path);
}

/// Parsing a list that was built gives back the paths it was built from, in
/// order, whatever characters they hold.
pub proof fn uri_lists_round_trip(paths: Seq<Seq<char>>)
    ensures
        listed_paths(text::lines(uri_list(paths))) == paths,
    decreases paths.len(),
{
    uri_list_ends_its_lines(paths);
    if paths.len() > 0 {
        let init = paths.drop_last();
        uri_lists_round_trip(init);
        uri_list_ends_its_lines(init);
        entry_reads_back(paths.last());
        text::lines_concat(uri_list(init), uri_entry(paths.last()));
        let ls = text::lines(uri_list(init));
        let line = "file://"@ + encoded(paths.last());
        assert(ls + seq![line] == ls.push(line));
        assert(ls.push(line).drop_last() == ls);
        assert(init.push(paths.last()) == paths);
    }
}

proof fn uri_list_ends_its_lines(paths: Seq<Seq<char>>)
    ensures
        uri_list(paths).len() > 0 ==> uri_list(paths).last() == '\n',
{
    if paths.len() > 0 {
        entry_reads_back(paths.last());
        reveal_strlit("\r\n");
        assert(uri_entry(paths.last()).len() > 0);
        assert(uri_list(paths).last() == uri_entry(paths.last()).last());
    }
}

/// A name that was accepted is a plain file name and is accepted again as it
/// is.
pub proof fn sanitized_names_stay(name: Seq<char>)
    requires
        plain_name(text::trimmed(name)),
    ensures
        text::trimmed(text::trimmed(name)) == text::trimmed(name),
        plain_name(text::trimmed(text::trimmed(name))),
{
    text::trimming_is_idempotent(name);
}

/// A path that was encoded decodes to itself, and is written in unreserved
/// characters, slashes and escapes alone.
pub proof fn encoded_paths_decode(path: &str, e: String, again: &str, d: String)
    requires
        call_ensures(percent_encode_path, (path,), e),
        again@ == e@,
        call_ensures(percent_decode, (again,), d),
    ensures
        d@ == path@,
        forall|i: int|
            0 <= i < e@.len() ==> {
                ||| 'A' <= #[trigger] e@[i] <= 'Z'
                ||| 'a' <= e@[i] <= 'z'
                ||| '0' <= e@[i] <= '9'
                ||| e@[i] == '-'
                ||| e@[i] == '_'
                ||| e@[i] == '.'
                ||| e@[i] == '~'
                ||| e@[i] == '/'
                ||| e@[i] == '%'
            },
{
    percent_encoding_round_trips(path@);
    let bytes = encode_utf8(path@);
    escaped_bytes_are_plain(bytes);
    assert forall|i: int| 0 <= i < e@.len() implies {
        ||| 'A' <= #[trigger] e@[i] <= 'Z'
        ||| 'a' <= e@[i] <= 'z'
        ||| '0' <= e@[i] <= '9'
        ||| e@[i] == '-'
        ||| e@[i] == '_'
        ||| e@[i] == '.'
        ||| e@[i] == '~'
        ||| e@[i] == '/'
        ||| e@[i] == '%'
    } by {
        let b = escaped(bytes)[i];
        assert(literal_in_path(b) || b == 37);
        assert(e@[i] == b as char);
    }
}

/// Text without a percent sign decodes to itself.
pub proof fn plain_text_decodes_to_itself(s: &str, d: String)
    requires
        call_ensures(percent_decode, (s,), d),
        forall|i: int|
            0 <= i < encode_utf8(s@).len() ==> #[trigger] encode_utf8(s@)[i] != 37,
    ensures
        d@ == s@,
{
    unescaped_without_escapes(encode_utf8(s@));
    encode_utf8_valid_utf8(s@);
    encode_utf8_decode_utf8(s@);
}

proof fn unescaped_without_escapes(b: Seq<u8>)
    requires
        forall|i: int| 0 <= i < b.len() ==> #[trigger] b[i] != 37,
    ensures
        unescaped(b) == b,
    decreases b.len(),
{
    if b.len() > 0 {
        assert(b[0] != 37);
        let t = b.skip(1);
        assert forall|i: int| 0 <= i < t.len() implies #[trigger] t[i] != 37 by {
            assert(t[i] == b[i + 1]);
        }
        unescaped_without_escapes(t);
        assert(seq![b[0]] + t =~= b);
    }
}

/// The list that is put on the clipboard names exactly the files it was made
/// of, in their order.
pub proof fn clipboard_lists_name_their_files(
    files: &[String],
    list: String,
    text: &str,
    read: Vec<String>,
)
    requires
        call_ensures(build_uri_list, (files,), list),
        text@ == list@,
        call_ensures(parse_uri_list, (text,), read),
    ensures
        read@.len() == files@.len(),
        forall|i: int| 0 <= i < files@.len() ==> (#[trigger] read@[i])@ == files@[i]@,
{
    uri_lists_round_trip(text::texts(files@));
    let r = text::texts(read@);
    let f = text::texts(files@);
    assert(r.len() == read@.len());
    assert forall|i: int| 0 <= i < files@.len() implies (#[trigger] read@[i])@ == files@[i]@ by {
        assert(r[i] == read@[i]@);
        assert(f[i] == files@[i]@);
    }
}

/// Each line of a list names one file or none: none where it is blank, a
/// comment or of another scheme than `file`, however much space stands around
/// it.
pub proof fn only_local_files_are_read(line: Seq<char>)
    ensures
        path_of_line(line) is Some ==> {
            let t = text::trimmed(line);
            &&& t.len() >= 7
            &&& t[0] == 'f' && t[1] == 'i' && t[2] == 'l' && t[3] == 'e'
            &&& t[4] == ':' && t[5] == '/' && t[6] == '/'
            &&& path_of_line(line) == Some(decoded(t.skip(7)))
        },
        ({
            let t = text::trimmed(line);
            t.len() >= 7 && t[0] == 'f' && t[1] == 'i' && t[2] == 'l' && t[3] == 'e' && t[4] == ':'
                && t[5] == '/' && t[6] == '/' ==> path_of_line(line) is Some
        }),
{
    reveal_strlit("file://");
    let t = text::trimmed(line);
    if t.len() >= 7 {
        if path_of_line(line) is Some {
            assert(t.take(7)[0] == t[0] && t.take(7)[1] == t[1] && t.take(7)[2] == t[2] && t.take(
                7,
            )[3] == t[3] && t.take(7)[4] == t[4] && t.take(7)[5] == t[5] && t.take(7)[6] == t[6]);
        } else if t[0] == 'f' && t[1] == 'i' && t[2] == 'l' && t[3] == 'e' && t[4] == ':' && t[5]
            == '/' && t[6] == '/' {
            assert(t.take(7) =~= "file://"@);
        }
    }
}

/// A name that is accepted cannot lead out of a directory: it is one component
/// and names neither the directory itself nor the one above. It is the name
/// that was sent, but for space around it, and a name that is plain already is
/// accepted as it is.
pub proof fn accepted_names_stay_in_place(name: &str, r: Option<String>)
    requires
        call_ensures(sanitize_filename, (name,), r),
    ensures
        r matches Some(n) ==> {
            &&& n@.len() > 0
            &&& forall|i: int|
                0 <= i < n@.len() ==> #[trigger] n@[i] != '/' && n@[i] != '\\' && n@[i] != '\0'
            &&& n@ != seq!['.']
            &&& n@ != seq!['.', '.']
            &&& n@ == text::trimmed(name@)
        },
        ({
            let t = text::trimmed(name@);
            &&& t.len() > 0
            &&& t != seq!['.']
            &&& t != seq!['.', '.']
            &&& forall|i: int|
                0 <= i < t.len() ==> #[trigger] t[i] != '/' && t[i] != '\\' && t[i] != '\0'
        }) ==> r is Some,
{
    reveal_strlit(".");
    reveal_strlit("..");
    let t = text::trimmed(name@);
    assert("."@ =~= seq!['.']);
    assert(".."@ =~= seq!['.', '.']);
    if r is Some {
        assert forall|i: int| 0 <= i < t.len() implies #[trigger] t[i] != '/' && t[i] != '\\'
            && t[i] != '\0' by {
            assert(t.contains(t[i]));
        }
    }
}

/// A hexadecimal digit counts the same in either case.
pub proof fn hex_digits_have_their_value(b: u8, v: Option<u8>)
    requires
        call_ensures(hex_val, (b,), v),
    ensures
        '0' as u8 <= b <= '9' as u8 ==> v == Some((b - '0' as u8) as u8),
        'a' as u8 <= b <= 'f' as u8 ==> v == Some((b - 'a' as u8 + 10) as u8),
        'A' as u8 <= b <= 'F' as u8 ==> v == Some((b - 'A' as u8 + 10) as u8),
        v is Some ==> v->0 < 16,
        v is Some ==> ('0' as u8 <= b <= '9' as u8) || ('a' as u8 <= b <= 'f' as u8) || ('A' as u8
            <= b <= 'F' as u8),
{
}

} // verus!
