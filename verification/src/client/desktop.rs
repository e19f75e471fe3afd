//! Freedesktop integration: the application id that the `.desktop` file, the
//! window and the tray icon agree on, where icons are looked for, and the
//! entry that starts the manager at login.
use vstd::prelude::*;
use crate::paths;
use crate::text;

verus! {

/// The application id: the name of the `.desktop` file and the icon, and the
/// Wayland `app_id` of the manager window. Compositors match a window to its
/// launcher entry by it.
pub const APP_ID: &'static str = "io.github.jboero.termland";

/// The parts of a colon-separated list, without the empty ones.
pub open spec fn pieces(s: Seq<char>) -> Seq<Seq<char>>
    decreases s.len(),
{
    if s.len() == 0 {
        Seq::empty()
    } else if s[0] == ':' {
        pieces(s.drop_first())
    } else {
        proof {
            paths::colon_bound(s);
        }
        seq![s.take(paths::until_colon(s) as int)] + pieces(s.skip(paths::until_colon(s) as int))
    }
}

fn push_pieces(out: &mut Vec<String>, list: &str)
    ensures
        text::texts(final(out)@) == text::texts(old(out)@) + pieces(list@),
{
    let s = text::chars_of(list);
    let ghost head = text::texts(out@);
    let mut i: usize = 0;
    assert(s@.skip(0) == s@);
    while i < s.len()
        invariant
            i <= s@.len(),
            text::texts(out@) + pieces(s@.skip(i as int)) == head + pieces(s@),
        decreases s@.len() - i,
    {
        let ghost rest = s@.skip(i as int);
        let ghost before = text::texts(out@);
        if s[i] == ':' {
            assert(rest.drop_first() == s@.skip(i + 1));
            i = i + 1;
        } else {
            let mut j: usize = i;
            while j < s.len() && s[j] != ':'
                invariant
                    i <= j <= s@.len(),
                    rest == s@.skip(i as int),
                    paths::until_colon(rest) == (j - i) + paths::until_colon(s@.skip(j as int)),
                decreases s@.len() - j,
            {
                assert(s@.skip(j as int).drop_first() == s@.skip(j + 1));
                j = j + 1;
            }
            let piece = text::slice_chars(&s, i, j);
            text::push_text(out, text::text_of(&piece).as_str());
            proof {
                assert(paths::until_colon(rest) == j - i);
                assert(paths::until_colon(rest) == 1 + paths::until_colon(rest.drop_first()));
                assert(rest.take(j - i) == piece@);
                assert(rest.skip(j - i) == s@.skip(j as int));
                assert(before + (seq![piece@] + pieces(s@.skip(j as int))) == before.push(piece@)
                    + pieces(s@.skip(j as int)));
            }
            i = j;
        }
    }
    assert(s@.skip(i as int) == Seq::<char>::empty());
    assert(text::texts(out@) + Seq::<Seq<char>>::empty() == text::texts(out@));
}

/// Where icons are looked for, in order, by the values of `$XDG_DATA_HOME`,
/// `$HOME` and `$XDG_DATA_DIRS`: the user's data directory, then the system's.
pub open spec fn data_dirs(
    data_home: Option<Seq<char>>,
    home: Option<Seq<char>>,
    dirs: Option<Seq<char>>,
) -> Seq<Seq<char>> {
    let user = match data_home {
        Some(d) => seq![d],
        None => match home {
            Some(h) => seq![paths::joined(h, ".local/share"@)],
            None => Seq::empty(),
        },
    };
    let system = match dirs {
        Some(d) => if d.len() > 0 {
            d
        } else {
            "/usr/local/share:/usr/share"@
        },
        None => "/usr/local/share:/usr/share"@,
    };
    user + pieces(system)
}

/// Where icons are looked for, given `$XDG_DATA_HOME`, `$HOME` and
/// `$XDG_DATA_DIRS`.
pub fn icon_search_dirs(data_home: Option<String>, home: Option<String>, dirs: Option<String>) -> (r:
    Vec<String>)
    ensures
        text::texts(r@) == data_dirs(
            text::optional(data_home),
            text::optional(home),
            text::optional(dirs),
        ),
{
    let mut out: Vec<String> = Vec::new();
    assert(text::texts(out@) == Seq::<Seq<char>>::empty());
    match data_home {
        Some(d) => {
            text::push_text(&mut out, d.as_str());
            assert(text::texts(out@) == seq![d@]);
        },
        None => {
            if let Some(h) = home {
                let dir = paths::join(h.as_str(), ".local/share");
                text::push_text(&mut out, dir.as_str());
                assert(text::texts(out@) == seq![dir@]);
            }
        },
    }
    match dirs {
        Some(d) => {
            if text::chars_of(d.as_str()).len() > 0 {
                push_pieces(&mut out, d.as_str());
            } else {
                push_pieces(&mut out, "/usr/local/share:/usr/share");
            }
        },
        None => {
            push_pieces(&mut out, "/usr/local/share:/usr/share");
        },
    }
    out
}

/// Where the application's icon is installed under a data directory.
pub fn icon_path(dir: &str) -> (p: String)
    ensures
        p@ == paths::joined(
            dir@,
            "icons/hicolor/scalable/apps/"@ + "io.github.jboero.termland"@ + ".svg"@,
        ),
{
    let mut name = text::chars_of("icons/hicolor/scalable/apps/");
    text::push_str(&mut name, "io.github.jboero.termland");
    text::push_str(&mut name, ".svg");
    paths::join(dir, text::text_of(&name).as_str())
}

/// The tray's icon: the application's where it is installed. An icon that the
/// theme cannot find shows as a blank square, so otherwise it is a stock one.
pub fn tray_icon_name(installed: bool) -> (s: String)
    ensures
        s@ == (if installed {
            "io.github.jboero.termland"@
        } else {
            "video-display"@
        }),
{
    if installed {
        String::from_str("io.github.jboero.termland")
    } else {
        String::from_str("video-display")
    }
}

/// The directory of the entries that are started at login.
pub open spec fn autostart_dir(config_dir: Seq<char>) -> Seq<char> {
    paths::joined(config_dir, "autostart"@)
}

/// The file of the entry that starts the manager at login.
pub open spec fn autostart_file(config_dir: Seq<char>) -> Seq<char> {
    paths::joined(autostart_dir(config_dir), "io.github.jboero.termland"@ + ".desktop"@)
}

/// The file of the entry that starts the manager at login.
pub fn autostart_path_in(config_dir: &str) -> (p: String)
    ensures
        p@ == autostart_file(config_dir@),
{
    let dir = paths::join(config_dir, "autostart");
    let mut name = text::chars_of("io.github.jboero.termland");
    text::push_str(&mut name, ".desktop");
    paths::join(dir.as_str(), text::text_of(&name).as_str())
}

/// Whether the manager is started at login, by the files that there are.
pub open spec fn starts_at_login(config_dir: Option<Seq<char>>, files: Seq<Seq<char>>) -> bool {
    config_dir matches Some(c) && files.contains(autostart_file(c))
}

/// Whether the manager is started at login: whether its entry is among the
/// files that there are.
pub fn autostart_enabled(config_dir: Option<&str>, files: &[String]) -> (b: bool)
    ensures
        b == starts_at_login(
            match config_dir {
                Some(c) => Some(c@),
                None => None,
            },
            text::texts(files@),
        ),
{
    match config_dir {
        None => false,
        Some(c) => {
            let path = autostart_path_in(c);
            let ghost all = text::texts(files@);
            let mut i: usize = 0;
            while i < files.len()
                invariant
                    i <= files@.len(),
                    all == text::texts(files@),
                    config_dir == Some(c),
                    path@ == autostart_file(c@),
                    forall|k: int| 0 <= k < i ==> all[k] != path@,
                decreases files@.len() - i,
            {
                if text::same_text(files[i].as_str(), path.as_str()) {
                    assert(all[i as int] == path@);
                    return true;
                }
                i = i + 1;
            }
            false
        },
    }
}

/// What turning the start at login on or off does.
#[derive(Debug, Clone)]
pub enum AutostartPlan {
    /// There is no configuration directory.
    NoConfigDir,
    /// Make the directory and write the entry.
    Write { dir: String, path: String, entry: String },
    /// Remove the entry; one that is not there is already removed.
    Remove { path: String },
}

/// Whether a plan turns the start at login on or off.
pub open spec fn plans_autostart(
    config_dir: Option<Seq<char>>,
    exe: Seq<char>,
    enabled: bool,
    p: AutostartPlan,
) -> bool {
    match config_dir {
        None => p is NoConfigDir,
        Some(c) => if enabled {
            p matches AutostartPlan::Write { dir, path, entry } && dir@ == autostart_dir(c) && path@
                == autostart_file(c) && entry@ == entry_text(exe)
        } else {
            p matches AutostartPlan::Remove { path } && path@ == autostart_file(c)
        },
    }
}

/// The files that there are once a plan was carried out.
pub open spec fn carried_out(files: Seq<Seq<char>>, p: AutostartPlan) -> Seq<Seq<char>> {
    match p {
        AutostartPlan::NoConfigDir => files,
        AutostartPlan::Write { path, .. } => files.push(path@),
        AutostartPlan::Remove { path } => files.filter(|f: Seq<char>| f != path@),
    }
}

/// Once the start at login was turned on or off, it is what it was turned to.
pub proof fn autostart_is_what_was_set(
    config_dir: Seq<char>,
    exe: Seq<char>,
    enabled: bool,
    p: AutostartPlan,
    files: Seq<Seq<char>>,
)
    requires
        plans_autostart(Some(config_dir), exe, enabled, p),
    ensures
        starts_at_login(Some(config_dir), carried_out(files, p)) == enabled,
{
    let f = autostart_file(config_dir);
    let after = carried_out(files, p);
    match p {
        AutostartPlan::NoConfigDir => {},
        AutostartPlan::Write { path, .. } => {
            assert(after[files.len() as int] == f);
        },
        AutostartPlan::Remove { path } => {
            if after.contains(f) {
                let k = choose|k: int| 0 <= k < after.len() && after[k] == f;
                files.lemma_filter_pred(|g: Seq<char>| g != path@, k);
            }
        },
    }
}

/// Plans turning the start at login on or off for the user alone.
pub fn set_autostart(config_dir: Option<&str>, exe: &str, enabled: bool) -> (p: AutostartPlan)
    ensures
        plans_autostart(
            match config_dir {
                Some(c) => Some(c@),
                None => None,
            },
            exe@,
            enabled,
            p,
        ),
{
    match config_dir {
        None => AutostartPlan::NoConfigDir,
        Some(c) => {
            let path = autostart_path_in(c);
            if enabled {
                AutostartPlan::Write {
                    dir: paths::join(c, "autostart"),
                    path,
                    entry: autostart_entry(exe),
                }
            } else {
                AutostartPlan::Remove { path }
            }
        },
    }
}

/// The entry that starts the manager in the tray.
pub open spec fn entry_text(exe: Seq<char>) -> Seq<char> {
    "[Desktop Entry]\nType=Application\nName=Termland\nComment=Termland session manager in the system tray\nExec="@
        + quoted(exe) + " --manager --minimized\nIcon="@ + "io.github.jboero.termland"@
        + "\nTerminal=false\nX-GNOME-Autostart-enabled=true\n"@
}

/// Writes the entry that starts the manager in the tray.
pub fn autostart_entry(exe: &str) -> (s: String)
    ensures
        s@ == entry_text(exe@),
{
    let mut out = text::chars_of(
        "[Desktop Entry]\nType=Application\nName=Termland\nComment=Termland session manager in the system tray\nExec=",
    );
    text::push_str(&mut out, exec_quote(exe).as_str());
    text::push_str(&mut out, " --manager --minimized\nIcon=");
    text::push_str(&mut out, "io.github.jboero.termland");
    text::push_str(&mut out, "\nTerminal=false\nX-GNOME-Autostart-enabled=true\n");
    text::text_of(&out)
}

/// Whether a character makes an argument of an `Exec=` line need quotes.
pub open spec fn reserved(c: char) -> bool {
    c == ' ' || c == '\t' || c == '\n' || c == '"' || c == '\'' || c == '\\' || c == '>' || c == '<'
        || c == '~' || c == '|' || c == '&' || c == ';' || c == '$' || c == '*' || c == '?' || c
        == '#' || c == '(' || c == ')' || c == '`'
}

fn is_reserved(c: char) -> (b: bool)
    ensures
        b == reserved(c),
{
    c == ' ' || c == '\t' || c == '\n' || c == '"' || c == '\'' || c == '\\' || c == '>' || c == '<'
        || c == '~' || c == '|' || c == '&' || c == ';' || c == '$' || c == '*' || c == '?' || c
        == '#' || c == '(' || c == ')' || c == '`'
}

/// Whether an argument needs quotes.
pub open spec fn needs_quotes(s: Seq<char>) -> bool {
    exists|i: int| 0 <= i < s.len() && reserved(#[trigger] s[i])
}

/// A character where percent signs alone are doubled.
pub open spec fn percent_escape(c: char) -> Seq<char> {
    if c == '%' {
        seq!['%', '%']
    } else {
        seq![c]
    }
}

/// A character inside quotes: a backslash escapes a quote, a backquote, a
/// dollar sign and a backslash.
pub open spec fn quote_escape(c: char) -> Seq<char> {
    if c == '"' || c == '`' || c == '$' || c == '\\' {
        seq!['\\', c]
    } else {
        percent_escape(c)
    }
}

/// A character inside quotes as it stands in the file, where every backslash
/// is doubled once more.
pub open spec fn file_escape(c: char) -> Seq<char> {
    if c == '"' || c == '`' || c == '$' {
        seq!['\\', '\\', c]
    } else if c == '\\' {
        seq!['\\', '\\', '\\', '\\']
    } else {
        percent_escape(c)
    }
}

/// A text with each character escaped.
pub open spec fn escaped(s: Seq<char>, escape: spec_fn(char) -> Seq<char>) -> Seq<char>
    decreases s.len(),
{
    if s.len() == 0 {
        Seq::empty()
    } else {
        escaped(s.drop_last(), escape) + escape(s.last())
    }
}

/// An argument as it stands in an `Exec=` line.
pub open spec fn quoted(arg: Seq<char>) -> Seq<char> {
    if needs_quotes(arg) {
        seq!['"'] + escaped(arg, |c: char| file_escape(c)) + seq!['"']
    } else {
        escaped(arg, |c: char| percent_escape(c))
    }
}

/// Quotes an argument for the `Exec=` line of a desktop entry. An argument with
/// reserved characters goes in double quotes, where some characters are escaped
/// by a backslash. The value is a string that unescapes `\\` before that rule
/// applies, so each escaping backslash is itself doubled. A percent sign is
/// doubled, as one alone starts a field code.
pub fn exec_quote(arg: &str) -> (r: String)
    ensures
        r@ == quoted(arg@),
{
    let s = text::chars_of(arg);
    let mut any = false;
    let mut i: usize = 0;
    while i < s.len()
        invariant
            i <= s@.len(),
            any == exists|k: int| 0 <= k < i && reserved(#[trigger] s@[k]),
        decreases s@.len() - i,
    {
        if is_reserved(s[i]) {
            any = true;
            assert(reserved(s@[i as int]));
        }
        i = i + 1;
    }
    let ghost plain = |c: char| percent_escape(c);
    let ghost inner = |c: char| file_escape(c);
    let ghost used = if any {
        inner
    } else {
        plain
    };
    let ghost open_quote: Seq<char> = if any {
        seq!['"']
    } else {
        Seq::empty()
    };
    let mut out: Vec<char> = Vec::new();
    if any {
        out.push('"');
    }
    assert(out@ == open_quote + escaped(s@.take(0), used));
    i = 0;
    while i < s.len()
        invariant
            i <= s@.len(),
            used == (if any {
                inner
            } else {
                plain
            }),
            plain == |c: char| percent_escape(c),
            inner == |c: char| file_escape(c),
            out@ == open_quote + escaped(s@.take(i as int), used),
        decreases s@.len() - i,
    {
        let ghost before = out@;
        let c = s[i];
        if any && (c == '"' || c == '`' || c == '$') {
            out.push('\\');
            out.push('\\');
            out.push(c);
            assert(out@ == before + seq!['\\', '\\', c]);
        } else if any && c == '\\' {
            out.push('\\');
            out.push('\\');
            out.push('\\');
            out.push('\\');
            assert(out@ == before + seq!['\\', '\\', '\\', '\\']);
        } else if c == '%' {
            out.push('%');
            out.push('%');
            assert(out@ == before + seq!['%', '%']);
        } else {
            out.push(c);
            assert(out@ == before + seq![c]);
        }
        proof {
            let t = s@.take(i + 1);
            assert(t.drop_last() == s@.take(i as int));
            assert(t.last() == c);
            assert(out@ == before + used(c));
            assert(out@ == open_quote + (escaped(s@.take(i as int), used) + used(c)));
        }
        i = i + 1;
    }
    assert(s@.take(i as int) == s@);
    if any {
        out.push('"');
        assert(out@ == seq!['"'] + escaped(s@, inner) + seq!['"']);
    } else {
        assert(out@ == escaped(s@, plain));
    }
    text::text_of(&out)
}

/// A value of a desktop entry as the string that it stands for: a doubled
/// backslash is one.
pub open spec fn string_value(s: Seq<char>) -> Seq<char>
    decreases s.len(),
{
    if s.len() == 0 {
        Seq::empty()
    } else if s.len() >= 2 && s[0] == '\\' && s[1] == '\\' {
        seq!['\\'] + string_value(s.skip(2))
    } else {
        seq![s[0]] + string_value(s.drop_first())
    }
}

/// What stands before the closing quote, with what a backslash escapes.
pub open spec fn quoted_part(s: Seq<char>) -> Seq<char>
    decreases s.len(),
{
    if s.len() == 0 || s[0] == '"' {
        Seq::empty()
    } else if s.len() >= 2 && s[0] == '\\' {
        seq![s[1]] + quoted_part(s.skip(2))
    } else {
        seq![s[0]] + quoted_part(s.drop_first())
    }
}

/// A text with each doubled percent sign as one.
pub open spec fn single_percents(s: Seq<char>) -> Seq<char>
    decreases s.len(),
{
    if s.len() == 0 {
        Seq::empty()
    } else if s.len() >= 2 && s[0] == '%' && s[1] == '%' {
        seq!['%'] + single_percents(s.skip(2))
    } else {
        seq![s[0]] + single_percents(s.drop_first())
    }
}

/// The argument that an `Exec=` value of one argument stands for, as the
/// Desktop Entry format reads it.
pub open spec fn argument_of(value: Seq<char>) -> Seq<char> {
    let s = string_value(value);
    single_percents(
        if s.len() > 0 && s[0] == '"' {
            quoted_part(s.drop_first())
        } else {
            s
        },
    )
}

proof fn string_value_of_one(c: char, rest: Seq<char>)
    ensures
        string_value(file_escape(c) + rest) == quote_escape(c) + string_value(rest),
{
    let next = file_escape(c) + rest;
    if c == '"' || c == '`' || c == '$' {
        let one = seq![c] + rest;
        assert(next.skip(2) == one);
        assert(one.drop_first() == rest);
        assert(string_value(one) == seq![c] + string_value(rest));
        assert(string_value(next) == seq!['\\'] + string_value(one));
    } else if c == '\\' {
        let one = seq!['\\', '\\'] + rest;
        assert(next.skip(2) == one);
        assert(one.skip(2) == rest);
        assert(string_value(one) == seq![c] + string_value(rest));
        assert(string_value(next) == seq!['\\'] + string_value(one));
    } else if c == '%' {
        let one = seq!['%'] + rest;
        assert(next.drop_first() == one);
        assert(one.drop_first() == rest);
        assert(string_value(one) == seq!['%'] + string_value(rest));
        assert(string_value(next) == seq!['%'] + string_value(one));
    } else {
        assert(next.drop_first() == rest);
        assert(string_value(next) == seq![c] + string_value(rest));
    }
    assert(string_value(next) == quote_escape(c) + string_value(rest));
}

proof fn string_value_of_escaped(s: Seq<char>, rest: Seq<char>)
    ensures
        string_value(escaped(s, |c: char| file_escape(c)) + rest) == escaped(
            s,
            |c: char| quote_escape(c),
        ) + string_value(rest),
    decreases s.len(),
{
    let file = |c: char| file_escape(c);
    let quote = |c: char| quote_escape(c);
    if s.len() == 0 {
        assert(escaped(s, file) + rest == rest);
        assert(escaped(s, quote) + string_value(rest) == string_value(rest));
    } else {
        let c = s.last();
        let t = s.drop_last();
        let next = file_escape(c) + rest;
        assert(escaped(s, file) + rest == escaped(t, file) + next);
        string_value_of_escaped(t, next);
        string_value_of_one(c, rest);
        assert(escaped(t, quote) + (quote_escape(c) + string_value(rest)) == escaped(s, quote)
            + string_value(rest));
    }
}

proof fn quoted_part_of_one(c: char, rest: Seq<char>)
    ensures
        quoted_part(quote_escape(c) + rest) == percent_escape(c) + quoted_part(rest),
{
    let next = quote_escape(c) + rest;
    if c == '"' || c == '`' || c == '$' || c == '\\' {
        assert(next.skip(2) == rest);
        assert(quoted_part(next) == seq![c] + quoted_part(rest));
    } else if c == '%' {
        let one = seq!['%'] + rest;
        assert(next.drop_first() == one);
        assert(one.drop_first() == rest);
        assert(quoted_part(one) == seq!['%'] + quoted_part(rest));
        assert(quoted_part(next) == seq!['%'] + quoted_part(one));
    } else {
        assert(next.drop_first() == rest);
        assert(quoted_part(next) == seq![c] + quoted_part(rest));
    }
    assert(quoted_part(next) == percent_escape(c) + quoted_part(rest));
}

proof fn quoted_part_of_escaped(s: Seq<char>, rest: Seq<char>)
    ensures
        quoted_part(escaped(s, |c: char| quote_escape(c)) + rest) == escaped(
            s,
            |c: char| percent_escape(c),
        ) + quoted_part(rest),
    decreases s.len(),
{
    let quote = |c: char| quote_escape(c);
    let percent = |c: char| percent_escape(c);
    if s.len() == 0 {
        assert(escaped(s, quote) + rest == rest);
        assert(escaped(s, percent) + quoted_part(rest) == quoted_part(rest));
    } else {
        let c = s.last();
        let t = s.drop_last();
        let next = quote_escape(c) + rest;
        assert(escaped(s, quote) + rest == escaped(t, quote) + next);
        quoted_part_of_escaped(t, next);
        quoted_part_of_one(c, rest);
        assert(escaped(t, percent) + (percent_escape(c) + quoted_part(rest)) == escaped(s, percent)
            + quoted_part(rest));
    }
}

proof fn single_percents_of_escaped(s: Seq<char>, rest: Seq<char>)
    requires
        rest.len() > 0 ==> rest[0] != '%' || (rest.len() >= 2 && rest[1] == '%'),
    ensures
        single_percents(escaped(s, |c: char| percent_escape(c)) + rest) == s + single_percents(
            rest,
        ),
    decreases s.len(),
{
    let percent = |c: char| percent_escape(c);
    if s.len() == 0 {
        assert(escaped(s, percent) + rest == rest);
        assert(s + single_percents(rest) == single_percents(rest));
    } else {
        let c = s.last();
        let t = s.drop_last();
        let next = percent_escape(c) + rest;
        assert(escaped(s, percent) + rest == escaped(t, percent) + next);
        single_percents_of_escaped(t, next);
        if c == '%' {
            assert(next.skip(2) == rest);
        } else {
            assert(next.drop_first() == rest);
        }
        assert(single_percents(next) == seq![c] + single_percents(rest));
        assert(t + (seq![c] + single_percents(rest)) == s + single_percents(rest));
    }
}

proof fn plain_text_stays(s: Seq<char>)
    requires
        !s.contains('\\'),
    ensures
        string_value(s) == s,
    decreases s.len(),
{
    if s.len() > 0 {
        assert(s.contains(s[0]));
        let t = s.drop_first();
        assert(!t.contains('\\')) by {
            if t.contains('\\') {
                let k = choose|k: int| 0 <= k < t.len() && t[k] == '\\';
                assert(s[k + 1] == '\\');
            }
        }
        plain_text_stays(t);
        assert(seq![s[0]] + t == s);
    }
}

proof fn unreserved_text_stays_plain(s: Seq<char>)
    requires
        !needs_quotes(s),
    ensures
        ({
            let e = escaped(s, |c: char| percent_escape(c));
            !e.contains('\\') && !e.contains('"')
        }),
    decreases s.len(),
{
    let percent = |c: char| percent_escape(c);
    if s.len() > 0 {
        let t = s.drop_last();
        assert(!needs_quotes(t)) by {
            if needs_quotes(t) {
                let k = choose|k: int| 0 <= k < t.len() && reserved(#[trigger] t[k]);
                assert(reserved(s[k]));
            }
        }
        unreserved_text_stays_plain(t);
        let c = s.last();
        assert(!reserved(s[s.len() - 1]));
        let e = escaped(s, percent);
        assert forall|k: int| 0 <= k < e.len() implies e[k] != '\\' && e[k] != '"' by {
            let n = escaped(t, percent).len();
            if k < n {
                assert(e[k] == escaped(t, percent)[k]);
                assert(escaped(t, percent).contains(e[k]));
            } else {
                assert(e[k] == percent_escape(c)[k - n]);
            }
        }
    }
}

/// Reading an `Exec=` value gives back the argument that was quoted.
pub proof fn quoting_round_trips(arg: Seq<char>)
    ensures
        argument_of(quoted(arg)) == arg,
{
    let file = |c: char| file_escape(c);
    let quote = |c: char| quote_escape(c);
    let percent = |c: char| percent_escape(c);
    let nothing = Seq::<char>::empty();
    single_percents_of_escaped(arg, nothing);
    assert(escaped(arg, percent) + nothing == escaped(arg, percent));
    assert(arg + single_percents(nothing) == arg);
    if needs_quotes(arg) {
        let end = seq!['"'];
        let v = quoted(arg);
        assert(v.drop_first() == escaped(arg, file) + end);
        assert(v[0] == '"');
        string_value_of_escaped(arg, end);
        assert(end.drop_first() == nothing);
        assert(string_value(nothing) == nothing);
        assert(string_value(end) == end);
        let s = string_value(v);
        assert(s == seq!['"'] + (escaped(arg, quote) + end));
        assert(s.drop_first() == escaped(arg, quote) + end);
        quoted_part_of_escaped(arg, end);
        assert(quoted_part(end) == nothing);
        assert(quoted_part(s.drop_first()) == escaped(arg, percent));
    } else {
        let v = escaped(arg, percent);
        unreserved_text_stays_plain(arg);
        plain_text_stays(v);
        if v.len() > 0 {
            assert(v.contains(v[0]));
        }
    }
}

proof fn until_colon_is_first(s: Seq<char>)
    ensures
        paths::until_colon(s) <= s.len(),
        forall|i: int| 0 <= i < paths::until_colon(s) ==> #[trigger] s[i] != ':',
        paths::until_colon(s) < s.len() ==> s[paths::until_colon(s) as int] == ':',
    decreases s.len(),
{
    if s.len() > 0 && s[0] != ':' {
        let t = s.drop_first();
        until_colon_is_first(t);
        assert forall|i: int| 0 <= i < paths::until_colon(s) implies #[trigger] s[i] != ':' by {
            if i > 0 {
                assert(t[i - 1] == s[i]);
            }
        }
        if paths::until_colon(s) < s.len() {
            assert(t[paths::until_colon(t) as int] == s[paths::until_colon(s) as int]);
        }
    }
}

/// A list of directories is split at its colons: what stands before the first
/// one comes first, and what stands behind it follows.
pub proof fn lists_are_split_at_colons(first: Seq<char>, rest: Seq<char>)
    requires
        first.len() > 0,
        !first.contains(':'),
    ensures
        pieces(first) == seq![first],
        pieces(first + seq![':'] + rest) == seq![first] + pieces(rest),
        pieces(seq![':'] + rest) == pieces(rest),
{
    let s = first + seq![':'] + rest;
    let n = first.len() as int;
    assert(forall|i: int| 0 <= i < n ==> #[trigger] first[i] != ':');
    until_colon_is_first(first);
    until_colon_is_first(s);
    let k = paths::until_colon(s) as int;
    if paths::until_colon(first) < n {
        assert(first[paths::until_colon(first) as int] == ':');
    }
    if k < n {
        assert(s[k] == first[k]);
    }
    if k > n {
        assert(s[n] == ':');
    }
    assert(first.take(n) =~= first);
    assert(first.skip(n) =~= Seq::empty());
    assert(pieces(first.skip(n)) =~= Seq::empty());
    assert(first[0] != ':' && s[0] == first[0]);
    assert(seq![first] + pieces(first.skip(n)) =~= seq![first]);
    assert(s.take(n) =~= first);
    let t = seq![':'] + rest;
    assert(s.skip(n) =~= t);
    assert(t.drop_first() =~= rest);
    assert(pieces(t) == pieces(rest));
}

/// Icons are looked for in the user's own directory first, then in those of the
/// system, which are the usual ones where none are set.
pub proof fn own_icons_come_first(
    data_home: Option<String>,
    home: Option<String>,
    dirs: Option<String>,
    r: Vec<String>,
)
    requires
        call_ensures(icon_search_dirs, (data_home, home, dirs), r),
    ensures
        data_home matches Some(d) ==> r@.len() > 0 && r@[0]@ == d@,
        data_home is None ==> (home matches Some(h) ==> r@.len() > 0 && paths::stands_below(
            r@[0]@,
            h@,
            ".local/share"@,
        )),
        ({
            let own: int = if data_home is Some || home is Some {
                1
            } else {
                0
            };
            &&& r@.len() >= own
            &&& dirs matches Some(d) ==> d@.len() > 0 ==> text::texts(r@).skip(own) == pieces(d@)
            &&& (dirs is None || (dirs matches Some(d) && d@.len() == 0)) ==> {
                &&& r@.len() == own + 2
                &&& r@[own]@ == "/usr/local/share"@
                &&& r@[own + 1]@ == "/usr/share"@
            }
        }),
{
    let t = text::texts(r@);
    let own: int = if data_home is Some || home is Some {
        1
    } else {
        0
    };
    assert(t.len() == r@.len());
    assert(forall|k: int| 0 <= k < t.len() ==> #[trigger] t[k] == r@[k]@);
    if data_home is Some || home is Some {
        assert(t[0] == r@[0]@);
    }
    if let Some(h) = home {
        paths::joined_stands_below(h@, ".local/share"@);
    }
    let usual = "/usr/local/share:/usr/share"@;
    let a = "/usr/local/share"@;
    let b = "/usr/share"@;
    reveal_strlit("/usr/local/share:/usr/share");
    reveal_strlit("/usr/local/share");
    reveal_strlit("/usr/share");
    assert(usual =~= a + seq![':'] + b);
    assert(!a.contains(':'));
    assert(!b.contains(':'));
    lists_are_split_at_colons(a, b);
    lists_are_split_at_colons(b, b);
    match dirs {
        Some(d) => {
            if d@.len() > 0 {
                assert(t.skip(own) =~= pieces(d@));
            } else {
                assert(t.skip(own) =~= seq![a, b]);
                assert(t[own] == t.skip(own)[0] && t[own + 1] == t.skip(own)[1]);
            }
        },
        None => {
            assert(t.skip(own) =~= seq![a, b]);
            assert(t[own] == t.skip(own)[0] && t[own + 1] == t.skip(own)[1]);
        },
    }
}

/// What was set is what is found: once the plan is carried out on the files
/// there are, the manager starts at login if that was asked for and not else.
/// What is written starts the program that was given.
pub proof fn autostart_settings_are_found(
    config_dir: Option<&str>,
    exe: &str,
    enabled: bool,
    p: AutostartPlan,
    files: &[String],
    path: String,
    dir: &str,
    found: bool,
)
    requires
        call_ensures(set_autostart, (config_dir, exe, enabled), p),
        config_dir == Some(dir),
        call_ensures(autostart_path_in, (dir,), path),
        call_ensures(autostart_enabled, (config_dir, files), found),
    ensures
        found <==> text::texts(files@).contains(path@),
        enabled ==> (p matches AutostartPlan::Write { dir: d, path: f, entry } && f@ == path@
            && paths::stands_below(d@, dir@, "autostart"@) && paths::stands_below(
            path@,
            d@,
            "io.github.jboero.termland.desktop"@,
        ) && exists|a: Seq<char>, q: Seq<char>, b: Seq<char>|
            entry@ == #[trigger] (a + q + b) && argument_of(q) == exe@ && a.skip(a.len() - 6)
                == "\nExec="@ && b.take(23) == " --manager --minimized\n"@),
        !enabled ==> (p matches AutostartPlan::Remove { path: f } && f@ == path@),
{
    let d = autostart_dir(dir@);
    paths::joined_stands_below(dir@, "autostart"@);
    let name = "io.github.jboero.termland"@ + ".desktop"@;
    reveal_strlit("io.github.jboero.termland");
    reveal_strlit(".desktop");
    reveal_strlit("io.github.jboero.termland.desktop");
    assert(name =~= "io.github.jboero.termland.desktop"@);
    paths::joined_stands_below(d, name);
    if let AutostartPlan::Write { entry, .. } = p {
        quoting_round_trips(exe@);
        let q = quoted(exe@);
        reveal_strlit("[Desktop Entry]\nType=Application\nName=Termland\nComment=Termland session manager in the system tray\nExec=");
        reveal_strlit(" --manager --minimized\nIcon=");
        reveal_strlit("\nExec=");
        reveal_strlit(" --manager --minimized\n");
        let a = "[Desktop Entry]\nType=Application\nName=Termland\nComment=Termland session manager in the system tray\nExec="@;
        let b1 = " --manager --minimized\nIcon="@;
        let b2 = "io.github.jboero.termland"@;
        let b3 = "\nTerminal=false\nX-GNOME-Autostart-enabled=true\n"@;
        let b = b1 + b2 + b3;
        assert(entry@ =~= a + q + b);
        assert(a.skip(a.len() - 6) =~= "\nExec="@);
        assert(b.take(23) =~= " --manager --minimized\n"@);
        assert(entry@ == a + q + b && argument_of(q) == exe@ && a.skip(a.len() - 6) == "\nExec="@
            && b.take(23) == " --manager --minimized\n"@);
    }
}

/// Without a configuration directory nothing is written, removed or found.
pub proof fn autostart_needs_a_directory(
    exe: &str,
    enabled: bool,
    p: AutostartPlan,
    files: &[String],
    found: bool,
)
    requires
        call_ensures(set_autostart, (None, exe, enabled), p),
        call_ensures(autostart_enabled, (None, files), found),
    ensures
        p is NoConfigDir,
        !found,
{
}

/// A quoted argument is read back as it was given, whatever it holds; the icon's
/// file stands below its directory, and its name is used where it is there.
pub proof fn arguments_are_quoted(
    arg: &str,
    r: String,
    dir: &str,
    p: String,
    installed: bool,
    s: String,
)
    requires
        call_ensures(exec_quote, (arg,), r),
        call_ensures(icon_path, (dir,), p),
        call_ensures(tray_icon_name, (installed,), s),
    ensures
        argument_of(r@) == arg@,
        paths::stands_below(
            p@,
            dir@,
            "icons/hicolor/scalable/apps/io.github.jboero.termland.svg"@,
        ),
        installed <==> s@ == APP_ID@,
        !installed ==> s@ == "video-display"@,
{
    quoting_round_trips(arg@);
    let name = "icons/hicolor/scalable/apps/"@ + "io.github.jboero.termland"@ + ".svg"@;
    reveal_strlit("icons/hicolor/scalable/apps/");
    reveal_strlit("io.github.jboero.termland");
    reveal_strlit(".svg");
    reveal_strlit("icons/hicolor/scalable/apps/io.github.jboero.termland.svg");
    reveal_strlit("video-display");
    assert(name =~= "icons/hicolor/scalable/apps/io.github.jboero.termland.svg"@);
    paths::joined_stands_below(dir@, name);
    assert("video-display"@[0] != "io.github.jboero.termland"@[0]);
}

} // verus!
