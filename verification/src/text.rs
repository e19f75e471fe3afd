//! Text as sequences of characters: the parts of string handling that the
//! other modules share.
use vstd::prelude::*;

verus! {

/// The characters of a string, in order.
pub fn chars_of(s: &str) -> (v: Vec<char>)
    ensures
        v@ == s@,
{
    let mut v: Vec<char> = Vec::new();
    for c in it: s.chars()
        invariant
            it.seq() == s@,
            v@ == s@.take(it.index() as int),
    {
        v.push(c);
        assert(v@ == s@.take(it.index() + 1));
    }
    assert(s@.take(s@.len() as int) == s@);
    v
}

/// `String::from_iter` over a slice of characters: the string that holds
/// exactly these characters in this order.
#[verifier::external_body]
pub(crate) fn text_of(chars: &[char]) -> (s: String)
    ensures
        s@ == chars@,
{
    String::from_iter(chars)
}

/// Appends every character of `s`.
pub(crate) fn push_str(out: &mut Vec<char>, s: &str)
    ensures
        final(out)@ == old(out)@ + s@,
{
    let mut more = chars_of(s);
    out.append(&mut more);
}

/// Whether a character has the Unicode `White_Space` property.
pub open spec fn white(c: char) -> bool {
    let u = c as u32;
    ||| 0x09 <= u <= 0x0D
    ||| u == 0x20
    ||| u == 0x85
    ||| u == 0xA0
    ||| u == 0x1680
    ||| 0x2000 <= u <= 0x200A
    ||| u == 0x2028
    ||| u == 0x2029
    ||| u == 0x202F
    ||| u == 0x205F
    ||| u == 0x3000
}

/// Tests for the Unicode `White_Space` property.
pub fn is_white(c: char) -> (b: bool)
    ensures
        b == white(c),
{
    let u: u32 = c as u32;
    (0x09 <= u && u <= 0x0D) || u == 0x20 || u == 0x85 || u == 0xA0 || u == 0x1680 || (0x2000 <= u
        && u <= 0x200A) || u == 0x2028 || u == 0x2029 || u == 0x202F || u == 0x205F || u == 0x3000
}

/// `s` without the white space it starts with.
pub open spec fn trim_start(s: Seq<char>) -> Seq<char>
    decreases s.len(),
{
    if s.len() > 0 && white(s[0]) {
        trim_start(s.drop_first())
    } else {
        s
    }
}

/// `s` without the white space it ends with.
pub open spec fn trim_end(s: Seq<char>) -> Seq<char>
    decreases s.len(),
{
    if s.len() > 0 && white(s.last()) {
        trim_end(s.drop_last())
    } else {
        s
    }
}

/// `s` without white space at either end.
pub open spec fn trimmed(s: Seq<char>) -> Seq<char> {
    trim_end(trim_start(s))
}

pub proof fn trim_end_keeps_start(s: Seq<char>)
    ensures
        trim_end(s).len() <= s.len(),
        trim_end(s) == s.take(trim_end(s).len() as int),
        trim_end(s).len() > 0 ==> !white(trim_end(s).last()),
    decreases s.len(),
{
    if s.len() > 0 && white(s.last()) {
        trim_end_keeps_start(s.drop_last());
        assert(s.drop_last().take(trim_end(s).len() as int) == s.take(trim_end(s).len() as int));
    } else {
        assert(s.take(s.len() as int) == s);
    }
}

/// Trimming twice is trimming once.
pub proof fn trimming_is_idempotent(s: Seq<char>)
    ensures
        trimmed(trimmed(s)) == trimmed(s),
{
    trim_start_shrinks(s);
    trim_end_keeps_start(trim_start(s));
    let t = trimmed(s);
    if t.len() > 0 {
        assert(t[0] == trim_start(s)[0]);
    }
}

/// Text without white space at its ends is left alone.
pub proof fn trimmed_text_stays(s: Seq<char>)
    requires
        s.len() > 0 ==> !white(s[0]) && !white(s.last()),
    ensures
        trimmed(s) == s,
{
}

/// Removes white space at both ends.
pub fn trim(s: &[char]) -> (r: Vec<char>)
    ensures
        r@ == trimmed(s@),
{
    let mut i: usize = 0;
    assert(s@.skip(0) == s@);
    while i < s.len() && is_white(s[i])
        invariant
            i <= s@.len(),
            trim_start(s@) == trim_start(s@.skip(i as int)),
        decreases s@.len() - i,
    {
        proof {
            assert(s@.skip(i as int).drop_first() == s@.skip(i + 1));
        }
        i = i + 1;
    }
    let mut j: usize = s.len();
    let ghost t = s@.skip(i as int);
    assert(trim_start(s@) == t);
    assert(t.take(j - i) == t);
    while i < j && is_white(s[j - 1])
        invariant
            i <= j <= s@.len(),
            t == s@.skip(i as int),
            trim_end(t) == trim_end(t.take(j - i)),
        decreases j,
    {
        proof {
            assert(t.take(j - i).drop_last() == t.take(j - i - 1));
            assert(t.take(j - i).last() == s@[j - 1]);
        }
        j = j - 1;
    }
    let r = slice_chars(s, i, j);
    proof {
        assert(t.take(j - i) == s@.subrange(i as int, j as int));
        if j > i {
            assert(t.take(j - i).last() == s@[j - 1]);
        }
    }
    r
}

/// A copy of `s[i..j]`.
pub fn slice_chars(s: &[char], i: usize, j: usize) -> (r: Vec<char>)
    requires
        i <= j <= s@.len(),
    ensures
        r@ == s@.subrange(i as int, j as int),
{
    let mut r: Vec<char> = Vec::new();
    let mut k: usize = i;
    while k < j
        invariant
            i <= k <= j <= s@.len(),
            r@ == s@.subrange(i as int, k as int),
        decreases j - k,
    {
        r.push(s[k]);
        k = k + 1;
        assert(r@ == s@.subrange(i as int, k as int));
    }
    r
}

/// Whether two character sequences are equal.
pub fn chars_equal(a: &[char], b: &[char]) -> (r: bool)
    ensures
        r == (a@ == b@),
{
    if a.len() != b.len() {
        return false;
    }
    let mut i: usize = 0;
    while i < a.len()
        invariant
            i <= a@.len(),
            a@.len() == b@.len(),
            forall|k: int| 0 <= k < i ==> a@[k] == b@[k],
        decreases a@.len() - i,
    {
        if a[i] != b[i] {
            return false;
        }
        i = i + 1;
    }
    assert(a@ == b@);
    true
}

/// Whether two strings hold the same characters.
pub fn same_text(a: &str, b: &str) -> (r: bool)
    ensures
        r == (a@ == b@),
{
    let x = chars_of(a);
    let y = chars_of(b);
    chars_equal(&x, &y)
}

/// Whether `s` starts with `prefix`.
pub open spec fn has_prefix(s: Seq<char>, prefix: Seq<char>) -> bool {
    prefix.len() <= s.len() && s.take(prefix.len() as int) == prefix
}

/// Tests whether `s` starts with `prefix`.
pub fn starts_with(s: &[char], prefix: &[char]) -> (r: bool)
    ensures
        r == has_prefix(s@, prefix@),
{
    if prefix.len() > s.len() {
        return false;
    }
    let head = slice_chars(s, 0, prefix.len());
    assert(head@ == s@.take(prefix@.len() as int));
    chars_equal(&head, prefix)
}

/// Whether `c` occurs in `s`.
pub fn contains_char(s: &[char], c: char) -> (r: bool)
    ensures
        r == s@.contains(c),
{
    let mut i: usize = 0;
    while i < s.len()
        invariant
            i <= s@.len(),
            forall|k: int| 0 <= k < i ==> s@[k] != c,
        decreases s@.len() - i,
    {
        if s[i] == c {
            assert(s@[i as int] == c);
            return true;
        }
        i = i + 1;
    }
    false
}

/// How many leading characters of `s` come before the first newline.
pub open spec fn line_len(s: Seq<char>) -> nat
    decreases s.len(),
{
    if s.len() == 0 || s[0] == '\n' {
        0
    } else {
        1 + line_len(s.drop_first())
    }
}

/// A line without the carriage return of its `\r\n` ending.
pub open spec fn without_cr(s: Seq<char>) -> Seq<char> {
    if s.len() > 0 && s.last() == '\r' {
        s.drop_last()
    } else {
        s
    }
}

/// The lines of a text: pieces ended by `\n` or `\r\n`, endings left out; what
/// follows the last ending is a line of its own unless it is empty.
pub open spec fn lines(s: Seq<char>) -> Seq<Seq<char>>
    decreases s.len(),
{
    if s.len() == 0 {
        Seq::empty()
    } else {
        let n = line_len(s);
        if n < s.len() {
            seq![without_cr(s.take(n as int))] + lines(s.skip((n + 1) as int))
        } else {
            seq![s]
        }
    }
}

pub proof fn line_len_bound(s: Seq<char>)
    ensures
        line_len(s) <= s.len(),
        line_len(s) < s.len() ==> s[line_len(s) as int] == '\n',
        forall|k: int| 0 <= k < line_len(s) ==> s[k] != '\n',
    decreases s.len(),
{
    if s.len() > 0 && s[0] != '\n' {
        let t = s.drop_first();
        line_len_bound(t);
        assert forall|k: int| 0 <= k < line_len(s) implies s[k] != '\n' by {
            if k > 0 {
                assert(t[k - 1] == s[k]);
            }
        }
        if line_len(s) < s.len() {
            assert(t[line_len(t) as int] == s[line_len(s) as int]);
        }
    }
}

/// Where one text ends with a newline, the lines of what follows come after
/// its own.
pub proof fn lines_concat(a: Seq<char>, b: Seq<char>)
    requires
        a.len() > 0 ==> a.last() == '\n',
    ensures
        lines(a + b) == lines(a) + lines(b),
    decreases a.len(),
{
    if a.len() == 0 {
        assert(a + b == b);
        assert(lines(a) + lines(b) == lines(b));
    } else {
        let n = line_len(a);
        line_len_bound(a);
        line_len_prefix(a, b);
        assert(n < a.len());
        assert((a + b).take(n as int) == a.take(n as int));
        assert((a + b).skip((n + 1) as int) == a.skip((n + 1) as int) + b);
        lines_concat(a.skip((n + 1) as int), b);
        let first = seq![without_cr(a.take(n as int))];
        assert(first + (lines(a.skip((n + 1) as int)) + lines(b)) == (first + lines(
            a.skip((n + 1) as int),
        )) + lines(b));
    }
}

proof fn line_len_prefix(a: Seq<char>, b: Seq<char>)
    requires
        a.contains('\n'),
    ensures
        line_len(a + b) == line_len(a),
        line_len(a) < a.len(),
    decreases a.len(),
{
    if a[0] != '\n' {
        let k = choose|k: int| 0 <= k < a.len() && a[k] == '\n';
        assert(a.drop_first()[k - 1] == '\n');
        assert((a + b).drop_first() == a.drop_first() + b);
        line_len_prefix(a.drop_first(), b);
    }
}

/// A text without a newline, ended by `\r\n`, is one line.
pub proof fn one_line(s: Seq<char>)
    requires
        !s.contains('\n'),
    ensures
        lines(s + seq!['\r', '\n']) == seq![s],
{
    let t = s + seq!['\r', '\n'];
    line_len_bound(t);
    let n = line_len(t);
    if n < s.len() {
        assert(t[n as int] == s[n as int]);
        assert(s.contains('\n'));
    }
    assert(t[s.len() as int] == '\r');
    assert(t[s.len() as int + 1] == '\n');
    assert(n == s.len() + 1);
    assert(t.take(n as int).drop_last() == s);
    assert(t.take(n as int).last() == '\r');
    assert(t.skip((n + 1) as int) == Seq::<char>::empty());
    assert(without_cr(t.take(n as int)) == s);
    assert(lines(Seq::<char>::empty()) == Seq::<Seq<char>>::empty());
    assert(lines(t) == seq![s] + lines(t.skip((n + 1) as int)));
}

/// The views of a list of character vectors.
pub open spec fn char_rows(v: Seq<Vec<char>>) -> Seq<Seq<char>> {
    v.map_values(|r: Vec<char>| r@)
}

/// The texts of a list of strings.
pub open spec fn texts(v: Seq<String>) -> Seq<Seq<char>> {
    v.map_values(|r: String| r@)
}

/// Appends a string to a list.
pub fn push_text(list: &mut Vec<String>, s: &str)
    ensures
        texts(final(list)@) == texts(old(list)@).push(s@),
{
    list.push(String::from_str(s));
    assert(texts(list@) == texts(old(list)@).push(s@));
}

/// Splits a text into its lines.
pub fn split_lines(s: &[char]) -> (r: Vec<Vec<char>>)
    ensures
        char_rows(r@) == lines(s@),
{
    let mut r: Vec<Vec<char>> = Vec::new();
    let mut i: usize = 0;
    assert(s@.skip(0) == s@);
    assert(char_rows(r@) + lines(s@) == lines(s@));
    while i < s.len()
        invariant
            i <= s@.len(),
            char_rows(r@) + lines(s@.skip(i as int)) == lines(s@),
        decreases s@.len() - i,
    {
        let ghost rest = s@.skip(i as int);
        let ghost before = r@;
        let mut j: usize = i;
        assert(s@.skip(j as int) == rest);
        while j < s.len() && s[j] != '\n'
            invariant
                i <= j <= s@.len(),
                i < s@.len(),
                rest == s@.skip(i as int),
                line_len(rest) == (j - i) + line_len(s@.skip(j as int)),
            decreases s@.len() - j,
        {
            assert(s@.skip(j as int).drop_first() == s@.skip(j + 1));
            j = j + 1;
        }
        assert(line_len(rest) == j - i);
        if j < s.len() {
            let mut end: usize = j;
            if i < j && s[j - 1] == '\r' {
                end = j - 1;
            }
            let row = slice_chars(s, i, end);
            proof {
                let line = rest.take(j - i);
                assert(line == s@.subrange(i as int, j as int));
                if i < j {
                    assert(line.last() == s@[j - 1]);
                }
                assert(row@ == without_cr(line));
                assert(rest.skip(j - i + 1) == s@.skip(j + 1));
            }
            r.push(row);
            proof {
                assert(char_rows(r@) == char_rows(before).push(row@));
                assert(char_rows(before) + (seq![row@] + lines(s@.skip(j + 1))) == char_rows(r@)
                    + lines(s@.skip(j + 1)));
            }
            i = j + 1;
        } else {
            let row = slice_chars(s, i, j);
            r.push(row);
            proof {
                assert(row@ == rest);
                assert(lines(rest) == seq![rest]);
                assert(char_rows(r@) == char_rows(before).push(row@));
                assert(s@.skip(j as int) == Seq::<char>::empty());
                assert(char_rows(before) + seq![row@] == char_rows(r@) + Seq::<
                    Seq<char>,
                >::empty());
            }
            i = j;
        }
    }
    assert(s@.skip(i as int) == Seq::<char>::empty());
    assert(char_rows(r@) + Seq::<Seq<char>>::empty() == char_rows(r@));
    r
}

pub proof fn trim_start_shrinks(s: Seq<char>)
    ensures
        trim_start(s).len() <= s.len(),
        trim_start(s).len() > 0 ==> !white(trim_start(s)[0]),
    decreases s.len(),
{
    if s.len() > 0 && white(s[0]) {
        trim_start_shrinks(s.drop_first());
    }
}

/// The strings of some rows, from one on.
pub fn rows_to_texts(rows: &[Vec<char>], from: usize) -> (v: Vec<String>)
    requires
        from <= rows@.len(),
    ensures
        texts(v@) == char_rows(rows@).skip(from as int),
{
    let mut v: Vec<String> = Vec::new();
    let mut i: usize = from;
    let ghost all = char_rows(rows@);
    assert(texts(v@) == all.subrange(from as int, from as int));
    while i < rows.len()
        invariant
            from <= i <= rows@.len(),
            all == char_rows(rows@),
            texts(v@) == all.subrange(from as int, i as int),
        decreases rows@.len() - i,
    {
        let ghost before = v@;
        v.push(text_of(&rows[i]));
        proof {
            assert(texts(v@) == texts(before).push(rows@[i as int]@));
            assert(all.subrange(from as int, i + 1) == all.subrange(from as int, i as int).push(
                all[i as int],
            ));
        }
        i = i + 1;
    }
    assert(all.subrange(from as int, i as int) == all.skip(from as int));
    v
}

/// Copies a list of strings.
pub fn copy_texts(v: &[String]) -> (r: Vec<String>)
    ensures
        texts(r@) == texts(v@),
{
    let mut r: Vec<String> = Vec::new();
    let ghost all = texts(v@);
    let mut i: usize = 0;
    assert(texts(r@) == all.take(0));
    while i < v.len()
        invariant
            i <= v@.len(),
            all == texts(v@),
            texts(r@) == all.take(i as int),
        decreases v@.len() - i,
    {
        push_text(&mut r, v[i].as_str());
        assert(all.take(i + 1) == all.take(i as int).push(all[i as int]));
        i = i + 1;
    }
    assert(all.take(i as int) == all);
    r
}

/// The text of an optional string.
pub open spec fn optional(s: Option<String>) -> Option<Seq<char>> {
    match s {
        Some(t) => Some(t@),
        None => None,
    }
}

/// How many leading characters of `s` are not white space.
pub open spec fn word_len(s: Seq<char>) -> nat
    decreases s.len(),
{
    if s.len() == 0 || white(s[0]) {
        0
    } else {
        1 + word_len(s.drop_first())
    }
}

pub proof fn word_len_bound(s: Seq<char>)
    ensures
        word_len(s) <= s.len(),
    decreases s.len(),
{
    if s.len() > 0 && !white(s[0]) {
        word_len_bound(s.drop_first());
    }
}

/// The words of a text: its maximal runs without white space, in order.
pub open spec fn words(s: Seq<char>) -> Seq<Seq<char>>
    decreases s.len(),
{
    let t = trim_start(s);
    if t.len() == 0 {
        Seq::empty()
    } else {
        proof {
            trim_start_shrinks(s);
            word_len_bound(t);
        }
        seq![t.take(word_len(t) as int)] + words(t.skip(word_len(t) as int))
    }
}

/// Splits a text into its words.
pub fn split_words(s: &[char]) -> (r: Vec<Vec<char>>)
    ensures
        char_rows(r@) == words(s@),
{
    let mut r: Vec<Vec<char>> = Vec::new();
    let mut i: usize = 0;
    assert(s@.skip(0) == s@);
    assert(char_rows(r@) + words(s@) == words(s@));
    while i < s.len()
        invariant
            i <= s@.len(),
            char_rows(r@) + words(s@.skip(i as int)) == words(s@),
        decreases s@.len() - i,
    {
        let ghost rest = s@.skip(i as int);
        let ghost before = r@;
        if is_white(s[i]) {
            proof {
                assert(rest.drop_first() == s@.skip(i + 1));
                assert(trim_start(rest) == trim_start(s@.skip(i + 1)));
            }
            i = i + 1;
        } else {
            let mut j: usize = i;
            while j < s.len() && !is_white(s[j])
                invariant
                    i <= j <= s@.len(),
                    rest == s@.skip(i as int),
                    word_len(rest) == (j - i) + word_len(s@.skip(j as int)),
                decreases s@.len() - j,
            {
                assert(s@.skip(j as int).drop_first() == s@.skip(j + 1));
                j = j + 1;
            }
            let row = slice_chars(s, i, j);
            r.push(row);
            proof {
                assert(word_len(rest) == j - i);
                assert(trim_start(rest) == rest);
                assert(rest.take(j - i) == row@);
                assert(rest.skip(j - i) == s@.skip(j as int));
                assert(char_rows(r@) == char_rows(before).push(row@));
                assert(char_rows(before) + (seq![row@] + words(s@.skip(j as int))) == char_rows(r@)
                    + words(s@.skip(j as int)));
                assert(word_len(rest) == 1 + word_len(rest.drop_first()));
            }
            i = j;
        }
    }
    assert(s@.skip(i as int) == Seq::<char>::empty());
    assert(char_rows(r@) + Seq::<Seq<char>>::empty() == char_rows(r@));
    r
}

/// The character of a decimal digit.
pub open spec fn digit(d: int) -> char {
    (48 + d) as char
}

/// The decimal digits of `n`, without leading zeros.
pub open spec fn decimal(n: nat) -> Seq<char>
    decreases n,
{
    if n < 10 {
        seq![digit(n as int)]
    } else {
        decimal(n / 10).push(digit((n % 10) as int))
    }
}

/// Writes `n` in decimal.
pub fn decimal_chars(n: u64) -> (r: Vec<char>)
    ensures
        r@ == decimal(n as nat),
    decreases n,
{
    if n < 10 {
        let mut r: Vec<char> = Vec::new();
        r.push((48u8 + n as u8) as char);
        r
    } else {
        let mut r = decimal_chars(n / 10);
        r.push((48u8 + (n % 10) as u8) as char);
        r
    }
}

/// Writes `n` in decimal.
pub fn decimal_text(n: u64) -> (s: String)
    ensures
        s@ == decimal(n as nat),
{
    text_of(&decimal_chars(n))
}

/// Ten to the power of `k`.
pub open spec fn pow10(k: nat) -> nat
    decreases k,
{
    if k == 0 {
        1
    } else {
        10 * pow10((k - 1) as nat)
    }
}

/// A number below ten to the power of `k` has at most `k` digits, and every
/// number has one.
pub proof fn decimal_len(n: nat, k: nat)
    requires
        n < pow10(k),
        k >= 1,
    ensures
        1 <= decimal(n).len() <= k,
    decreases k,
{
    if n >= 10 {
        assert(k >= 2) by {
            reveal_with_fuel(pow10, 3);
        }
        decimal_len(n / 10, (k - 1) as nat);
    }
}

/// The digits of a 32-bit number are at most ten, those of a 64-bit number at
/// most twenty.
pub proof fn decimal_len_machine(n: u64)
    ensures
        1 <= decimal(n as nat).len() <= 20,
        n <= u32::MAX ==> decimal(n as nat).len() <= 10,
{
    reveal_with_fuel(pow10, 21);
    decimal_len(n as nat, 20);
    if n <= u32::MAX {
        decimal_len(n as nat, 10);
    }
}

/// The lower-case hexadecimal digit of a value below sixteen.
pub open spec fn hex_digit(d: int) -> char {
    if d < 10 {
        (48 + d) as char
    } else {
        (87 + d) as char
    }
}

/// The hexadecimal digits of `n`, in lower case without leading zeros.
pub open spec fn hexadecimal(n: nat) -> Seq<char>
    decreases n,
{
    if n < 16 {
        seq![hex_digit(n as int)]
    } else {
        hexadecimal(n / 16).push(hex_digit((n % 16) as int))
    }
}

/// Writes `n` in hexadecimal.
pub fn hexadecimal_chars(n: u128) -> (r: Vec<char>)
    ensures
        r@ == hexadecimal(n as nat),
    decreases n,
{
    let d: u8 = (n % 16) as u8;
    let c: char = if d < 10 {
        (48 + d) as char
    } else {
        (87 + d) as char
    };
    if n < 16 {
        let mut r: Vec<char> = Vec::new();
        r.push(c);
        r
    } else {
        let mut r = hexadecimal_chars(n / 16);
        r.push(c);
        r
    }
}

/// `n` copies of a character.
pub open spec fn repeated(c: char, n: int) -> Seq<char> {
    Seq::new(
        if n < 0 {
            0
        } else {
            n as nat
        },
        |i: int| c,
    )
}

/// `s` with spaces behind it, up to a width.
pub open spec fn pad_right(s: Seq<char>, width: int) -> Seq<char> {
    s + repeated(' ', width - s.len())
}

/// `s` with spaces before it, up to a width.
pub open spec fn pad_left(s: Seq<char>, width: int) -> Seq<char> {
    repeated(' ', width - s.len()) + s
}

fn push_spaces(out: &mut Vec<char>, n: usize)
    ensures
        final(out)@ == old(out)@ + repeated(' ', n as int),
{
    let ghost before = out@;
    let mut i: usize = 0;
    assert(out@ == before + repeated(' ', 0));
    while i < n
        invariant
            i <= n,
            out@ == before + repeated(' ', i as int),
        decreases n - i,
    {
        out.push(' ');
        i = i + 1;
        assert(out@ == before + repeated(' ', i as int));
    }
}

/// Appends `s` and spaces up to a width.
pub fn push_padded_right(out: &mut Vec<char>, s: &str, width: usize)
    ensures
        final(out)@ == old(out)@ + pad_right(s@, width as int),
{
    let ghost before = out@;
    let mut chars = chars_of(s);
    let n: usize = if chars.len() < width {
        width - chars.len()
    } else {
        0
    };
    out.append(&mut chars);
    push_spaces(out, n);
    proof {
        assert(repeated(' ', n as int) == repeated(' ', width - s@.len()));
        assert(out@ == before + pad_right(s@, width as int));
    }
}

/// Appends spaces up to a width and `s`.
pub fn push_padded_left(out: &mut Vec<char>, s: &str, width: usize)
    ensures
        final(out)@ == old(out)@ + pad_left(s@, width as int),
{
    let ghost before = out@;
    let mut chars = chars_of(s);
    let n: usize = if chars.len() < width {
        width - chars.len()
    } else {
        0
    };
    push_spaces(out, n);
    out.append(&mut chars);
    proof {
        assert(repeated(' ', n as int) == repeated(' ', width - s@.len()));
        assert(out@ == before + pad_left(s@, width as int));
    }
}

/// A signed number in decimal, with a leading `-` where it is negative.
pub open spec fn signed_decimal(n: int) -> Seq<char> {
    if n < 0 {
        seq!['-'] + decimal((-n) as nat)
    } else {
        decimal(n as nat)
    }
}

/// Appends a signed number in decimal.
pub fn push_signed(out: &mut Vec<char>, n: i32)
    ensures
        final(out)@ == old(out)@ + signed_decimal(n as int),
{
    let ghost before = out@;
    if n < 0 {
        out.push('-');
        let size: u64 = (-(n as i64)) as u64;
        let mut digits = decimal_chars(size);
        out.append(&mut digits);
        assert(out@ == before + (seq!['-'] + decimal(size as nat)));
    } else {
        let mut digits = decimal_chars(n as u64);
        out.append(&mut digits);
    }
}

/// The number that decimal digits write.
pub open spec fn decimal_value(s: Seq<char>) -> int
    decreases s.len(),
{
    if s.len() == 0 {
        0
    } else {
        10 * decimal_value(s.drop_last()) + (s.last() as int - '0' as int)
    }
}

/// A number in decimal reads back as the number, is made of digits alone, and
/// starts with no needless zero.
pub proof fn decimals_read_back(n: nat)
    ensures
        decimal_value(decimal(n)) == n,
        decimal(n).len() > 0,
        forall|i: int| 0 <= i < decimal(n).len() ==> '0' <= #[trigger] decimal(n)[i] <= '9',
        n > 0 ==> decimal(n)[0] != '0',
    decreases n,
{
    let d = decimal(n);
    if n < 10 {
        assert(d.drop_last() =~= Seq::empty());
        assert(decimal_value(d.drop_last()) == 0);
    } else {
        decimals_read_back(n / 10);
        assert(d.drop_last() =~= decimal(n / 10));
    }
}

/// What is cut from the ends of a text is white space alone, and what is left
/// starts and ends with something else.
pub proof fn only_white_space_is_trimmed(s: Seq<char>)
    ensures
        trimmed(s).len() > 0 ==> !white(trimmed(s)[0]) && !white(trimmed(s).last()),
        exists|a: int, b: int|
            {
                &&& 0 <= a <= b <= s.len()
                &&& #[trigger] s.subrange(a, b) == trimmed(s)
                &&& forall|i: int| 0 <= i < a || b <= i < s.len() ==> white(#[trigger] s[i])
            },
        white(' ') && white('\t') && white('\r') && white('\n'),
        forall|c: char| 'a' <= c <= 'z' || 'A' <= c <= 'Z' || '0' <= c <= '9' ==> !white(c),
{
    start_is_white(s);
    let t = trim_start(s);
    end_is_white(t);
    trim_end_keeps_start(t);
    let a = s.len() - t.len();
    let b = a + trimmed(s).len();
    assert(s.subrange(a, b) =~= trimmed(s));
    assert forall|i: int| 0 <= i < a || b <= i < s.len() implies white(#[trigger] s[i]) by {
        if i >= b {
            assert(t[i - a] == s[i]);
        }
    }
    if trimmed(s).len() > 0 {
        assert(trimmed(s)[0] == t[0]);
    }
}

proof fn start_is_white(s: Seq<char>)
    ensures
        trim_start(s).len() <= s.len(),
        trim_start(s) == s.skip(s.len() - trim_start(s).len()),
        trim_start(s).len() > 0 ==> !white(trim_start(s)[0]),
        forall|i: int| 0 <= i < s.len() - trim_start(s).len() ==> white(#[trigger] s[i]),
    decreases s.len(),
{
    if s.len() > 0 && white(s[0]) {
        let t = s.drop_first();
        start_is_white(t);
        assert(t.skip(t.len() - trim_start(t).len()) =~= s.skip(s.len() - trim_start(s).len()));
        assert forall|i: int| 0 <= i < s.len() - trim_start(s).len() implies white(
            #[trigger] s[i],
        ) by {
            if i > 0 {
                assert(t[i - 1] == s[i]);
            }
        }
    } else {
        assert(s.skip(0) =~= s);
    }
}

proof fn end_is_white(s: Seq<char>)
    ensures
        forall|i: int| trim_end(s).len() <= i < s.len() ==> white(#[trigger] s[i]),
    decreases s.len(),
{
    if s.len() > 0 && white(s.last()) {
        let t = s.drop_last();
        end_is_white(t);
        assert forall|i: int| trim_end(s).len() <= i < s.len() implies white(#[trigger] s[i]) by {
            if i < t.len() {
                assert(t[i] == s[i]);
            }
        }
    }
}

/// Words hold no white space and are not empty.
pub proof fn words_are_solid(s: Seq<char>, i: int, k: int)
    requires
        0 <= i < words(s).len(),
    ensures
        words(s)[i].len() > 0,
        0 <= k < words(s)[i].len() ==> !white(words(s)[i][k]),
    decreases s.len(),
{
    let t = trim_start(s);
    trim_start_shrinks(s);
    start_is_white(s);
    word_len_bound(t);
    let n = word_len(t) as int;
    if t.len() > 0 {
        word_is_solid(t);
        if i > 0 {
            words_are_solid(t.skip(n), i - 1, k);
        }
    }
}

proof fn word_is_solid(s: Seq<char>)
    ensures
        s.len() > 0 && !white(s[0]) ==> word_len(s) > 0,
        forall|k: int| 0 <= k < word_len(s) ==> !white(#[trigger] s[k]),
        word_len(s) < s.len() ==> white(s[word_len(s) as int]),
        word_len(s) <= s.len(),
    decreases s.len(),
{
    if s.len() > 0 && !white(s[0]) {
        let t = s.drop_first();
        word_is_solid(t);
        assert forall|k: int| 0 <= k < word_len(s) implies !white(#[trigger] s[k]) by {
            if k > 0 {
                assert(t[k - 1] == s[k]);
            }
        }
        if word_len(s) < s.len() {
            assert(t[word_len(t) as int] == s[word_len(s) as int]);
        }
    }
}

proof fn solid_word_len(w: Seq<char>, rest: Seq<char>)
    requires
        forall|k: int| 0 <= k < w.len() ==> !white(#[trigger] w[k]),
        rest.len() > 0 ==> white(rest[0]),
    ensures
        word_len(w + rest) == w.len(),
    decreases w.len(),
{
    if w.len() == 0 {
        assert(w + rest =~= rest);
    } else {
        let t = w.drop_first();
        assert forall|k: int| 0 <= k < t.len() implies !white(#[trigger] t[k]) by {
            assert(t[k] == w[k + 1]);
        }
        solid_word_len(t, rest);
        assert((w + rest).drop_first() =~= t + rest);
        assert((w + rest)[0] == w[0]);
    }
}

/// A word that stands at the front, ended by white space or the end of the
/// text, is the first of the words, and the others come from what follows.
pub proof fn a_word_comes_first(w: Seq<char>, rest: Seq<char>)
    requires
        w.len() > 0,
        forall|k: int| 0 <= k < w.len() ==> !white(#[trigger] w[k]),
        rest.len() > 0 ==> white(rest[0]),
    ensures
        words(w + rest) == seq![w] + words(rest),
{
    let s = w + rest;
    assert(s[0] == w[0]);
    assert(trim_start(s) == s);
    solid_word_len(w, rest);
    assert(s.take(w.len() as int) =~= w);
    assert(s.skip(w.len() as int) =~= rest);
}

/// White space before a text makes no word.
pub proof fn leading_space_makes_no_word(c: char, s: Seq<char>)
    requires
        white(c),
    ensures
        words(seq![c] + s) == words(s),
{
    let t = seq![c] + s;
    assert(t.drop_first() =~= s);
    assert(trim_start(t) == trim_start(s));
    trim_start_shrinks(t);
    trim_start_shrinks(s);
}

/// The number that a text of hexadecimal digits in lower case stands for.
pub open spec fn hexadecimal_value(s: Seq<char>) -> int
    decreases s.len(),
{
    if s.len() == 0 {
        0
    } else {
        let c = s.last();
        16 * hexadecimal_value(s.drop_last()) + (if '0' <= c <= '9' {
            c as int - '0' as int
        } else {
            c as int - 'a' as int + 10
        })
    }
}

/// A number in hexadecimal reads back as the number and is made of digits alone.
pub proof fn hexadecimals_read_back(n: nat)
    ensures
        hexadecimal_value(hexadecimal(n)) == n,
        hexadecimal(n).len() > 0,
        forall|i: int|
            0 <= i < hexadecimal(n).len() ==> '0' <= #[trigger] hexadecimal(n)[i] <= '9' || 'a'
                <= hexadecimal(n)[i] <= 'f',
    decreases n,
{
    let d = hexadecimal(n);
    if n < 16 {
        assert(d.drop_last() =~= Seq::empty());
        assert(hexadecimal_value(d.drop_last()) == 0);
    } else {
        hexadecimals_read_back(n / 16);
        assert(d.drop_last() =~= hexadecimal(n / 16));
    }
}

/// Whether a text ends with another one.
pub open spec fn has_suffix(s: Seq<char>, suffix: Seq<char>) -> bool {
    suffix.len() <= s.len() && s.skip(s.len() - suffix.len()) == suffix
}

/// Whether a text has another one in it.
pub open spec fn holds(s: Seq<char>, part: Seq<char>) -> bool {
    exists|a: Seq<char>, b: Seq<char>| s == #[trigger] (a + part + b)
}

/// White space is what separates words in any script; nothing that is seen is
/// white, nor is any character past the ideographic space.
pub proof fn white_is_not_seen(c: char, b: bool)
    requires
        call_ensures(is_white, (c,), b),
    ensures
        c == ' ' || c == '\t' || c == '\n' || c == '\r' || c == '\u{b}' || c == '\u{c}' ==> b,
        c == '\u{85}' || c == '\u{a0}' || c == '\u{1680}' || c == '\u{2028}' || c == '\u{2029}' || c
            == '\u{202f}' || c == '\u{205f}' || c == '\u{3000}' ==> b,
        '\u{2000}' <= c <= '\u{200a}' ==> b,
        '!' <= c <= '~' ==> !b,
        '\u{a1}' <= c <= '\u{167f}' || '\u{1681}' <= c <= '\u{1fff}' || '\u{200b}' <= c
            <= '\u{2027}' || '\u{2060}' <= c <= '\u{2fff}' || c > '\u{3000}' ==> !b,
        c < '\t' || '\u{e}' <= c <= '\u{1f}' || '\u{7f}' <= c <= '\u{84}' ==> !b,
{
}

/// A text turns into its characters unchanged, and two are taken for the same
/// only where they are.
pub proof fn texts_stay_what_they_are(
    s: &str,
    v: Vec<char>,
    chars: &[char],
    other: &[char],
    same: bool,
    begins: bool,
    c: char,
    found: bool,
    i: usize,
    j: usize,
    part: Vec<char>,
    a: &str,
    b: &str,
    equal: bool,
)
    requires
        call_ensures(chars_of, (s,), v),
        call_ensures(chars_equal, (chars, other), same),
        call_ensures(starts_with, (chars, other), begins),
        call_ensures(contains_char, (chars, c), found),
        call_ensures(slice_chars, (chars, i, j), part),
        call_ensures(same_text, (a, b), equal),
        i <= j <= chars@.len(),
    ensures
        v@ == s@,
        same <==> chars@ == other@,
        equal <==> a@ == b@,
        begins <==> exists|rest: Seq<char>| chars@ == #[trigger] (other@ + rest),
        found <==> exists|k: int| 0 <= k < chars@.len() && chars@[k] == c,
        chars@.take(i as int) + part@ + chars@.skip(j as int) == chars@,
        part@.len() == j - i,
{
    if begins {
        assert(chars@ =~= other@ + chars@.skip(other@.len() as int));
    } else if exists|rest: Seq<char>| chars@ == #[trigger] (other@ + rest) {
        let rest = choose|rest: Seq<char>| chars@ == #[trigger] (other@ + rest);
        assert(chars@.take(other@.len() as int) =~= other@);
    }
    assert(chars@.take(i as int) + part@ + chars@.skip(j as int) =~= chars@);
}

/// A padded text has at least the width that was asked for, and nothing but
/// spaces was put to it: behind it, or before it. A number keeps its sign.
pub proof fn padding_is_space()
    ensures
        forall|out: &mut Vec<char>, s: &str, width: usize| #[trigger]
            call_ensures(push_padded_right, (out, s, width), ()) ==> {
                let more = final(out)@.skip(out@.len() as int);
                &&& final(out)@.take(out@.len() as int) == out@
                &&& has_prefix(more, s@)
                &&& more.len() == if s@.len() >= width {
                    s@.len() as int
                } else {
                    width as int
                }
                &&& forall|k: int| s@.len() <= k < more.len() ==> #[trigger] more[k] == ' '
            },
        forall|out: &mut Vec<char>, s: &str, width: usize| #[trigger]
            call_ensures(push_padded_left, (out, s, width), ()) ==> {
                let more = final(out)@.skip(out@.len() as int);
                &&& final(out)@.take(out@.len() as int) == out@
                &&& has_suffix(more, s@)
                &&& more.len() == if s@.len() >= width {
                    s@.len() as int
                } else {
                    width as int
                }
                &&& forall|k: int| 0 <= k < more.len() - s@.len() ==> #[trigger] more[k] == ' '
            },
        forall|out: &mut Vec<char>, n: i32| #[trigger]
            call_ensures(push_signed, (out, n), ()) ==> {
                let more = final(out)@.skip(out@.len() as int);
                &&& final(out)@.take(out@.len() as int) == out@
                &&& n >= 0 ==> decimal_value(more) == n
                &&& n < 0 ==> more.len() > 1 && more[0] == '-' && decimal_value(more.skip(1)) == -n
            },
{
    assert forall|out: &mut Vec<char>, s: &str, width: usize| #[trigger]
        call_ensures(push_padded_right, (out, s, width), ()) implies {
        let more = final(out)@.skip(out@.len() as int);
        &&& final(out)@.take(out@.len() as int) == out@
        &&& has_prefix(more, s@)
        &&& more.len() == if s@.len() >= width {
            s@.len() as int
        } else {
            width as int
        }
        &&& forall|k: int| s@.len() <= k < more.len() ==> #[trigger] more[k] == ' '
    } by {
        let p = pad_right(s@, width as int);
        let more = final(out)@.skip(out@.len() as int);
        assert(final(out)@.take(out@.len() as int) =~= out@);
        assert(more =~= p);
        assert(p.take(s@.len() as int) =~= s@);
    }
    assert forall|out: &mut Vec<char>, s: &str, width: usize| #[trigger]
        call_ensures(push_padded_left, (out, s, width), ()) implies {
        let more = final(out)@.skip(out@.len() as int);
        &&& final(out)@.take(out@.len() as int) == out@
        &&& has_suffix(more, s@)
        &&& more.len() == if s@.len() >= width {
            s@.len() as int
        } else {
            width as int
        }
        &&& forall|k: int| 0 <= k < more.len() - s@.len() ==> #[trigger] more[k] == ' '
    } by {
        let p = pad_left(s@, width as int);
        let more = final(out)@.skip(out@.len() as int);
        assert(final(out)@.take(out@.len() as int) =~= out@);
        assert(more =~= p);
        assert(p.skip(p.len() - s@.len()) =~= s@);
    }
    assert forall|out: &mut Vec<char>, n: i32| #[trigger]
        call_ensures(push_signed, (out, n), ()) implies {
        let more = final(out)@.skip(out@.len() as int);
        &&& final(out)@.take(out@.len() as int) == out@
        &&& n >= 0 ==> decimal_value(more) == n
        &&& n < 0 ==> more.len() > 1 && more[0] == '-' && decimal_value(more.skip(1)) == -n
    } by {
        let more = final(out)@.skip(out@.len() as int);
        assert(final(out)@.take(out@.len() as int) =~= out@);
        assert(more =~= signed_decimal(n as int));
        if n < 0 {
            decimals_read_back((-n) as nat);
            assert(more.skip(1) =~= decimal((-n) as nat));
        } else {
            decimals_read_back(n as nat);
        }
    }
}

/// A line that ends as lines do here is that line; only a return before its end
/// is taken from it.
pub proof fn lines_end_in_two_ways(s: Seq<char>)
    requires
        !s.contains('\n'),
        s.len() > 0 ==> s.last() != '\r',
    ensures
        lines(s + seq!['\n']) == seq![s],
        lines(s + seq!['\r', '\n']) == seq![s],
        s.len() > 0 ==> lines(s) == seq![s],
{
    one_line(s);
    let t = s + seq!['\n'];
    line_len_bound(t);
    line_len_bound(s);
    let n = s.len() as int;
    let k = line_len(t) as int;
    assert(forall|i: int| 0 <= i < n ==> #[trigger] s[i] != '\n');
    if k < n {
        assert(t[k] == s[k]);
    }
    assert(t[n] == '\n');
    assert(k == n);
    assert(t.take(n) =~= s);
    assert(t.skip(n + 1) =~= Seq::empty());
    assert(lines(t.skip(n + 1)) =~= Seq::empty());
    assert(lines(t) =~= seq![s]);
    if line_len(s) < s.len() {
        assert(s[line_len(s) as int] == '\n');
    }
}

} // verus!
