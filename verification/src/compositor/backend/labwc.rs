//! labwc: a compositor with many windows, for a desktop.
use vstd::prelude::*;
use crate::compositor::backend;
use crate::compositor::backend::{
    add_cursor_theme, detached_compositor_command, socket_wrapper_cmd, LaunchPlan, TargetUser,
};
use crate::paths;
use crate::text;

verus! {

/// A text with every single quote as the shell takes it inside single quotes.
pub open spec fn single_quote_escaped(s: Seq<char>) -> Seq<char>
    decreases s.len(),
{
    if s.len() == 0 {
        Seq::empty()
    } else {
        single_quote_escaped(s.drop_last()) + (if s.last() == '\'' {
            "'\\''"@
        } else {
            seq![s.last()]
        })
    }
}

/// A text in single quotes for the shell.
pub open spec fn single_quoted(s: Seq<char>) -> Seq<char> {
    "'"@ + single_quote_escaped(s) + "'"@
}

fn push_single_quoted(out: &mut Vec<char>, s: &str)
    ensures
        final(out)@ == old(out)@ + single_quoted(s@),
{
    let chars = text::chars_of(s);
    let ghost before = out@;
    text::push_str(out, "'");
    let mut i: usize = 0;
    assert(out@ == before + ("'"@ + single_quote_escaped(chars@.take(0))));
    while i < chars.len()
        invariant
            i <= chars@.len(),
            out@ == before + ("'"@ + single_quote_escaped(chars@.take(i as int))),
        decreases chars@.len() - i,
    {
        let ghost middle = out@;
        proof {
            assert(chars@.take(i + 1).drop_last() == chars@.take(i as int));
            assert(chars@.take(i + 1).last() == chars@[i as int]);
        }
        if chars[i] == '\'' {
            text::push_str(out, "'\\''");
            assert(out@ == middle + "'\\''"@);
        } else {
            out.push(chars[i]);
            assert(out@ == middle + seq![chars@[i as int]]);
        }
        assert(out@ == before + ("'"@ + single_quote_escaped(chars@.take(i + 1))));
        i = i + 1;
    }
    assert(chars@.take(i as int) == chars@);
    text::push_str(out, "'");
    assert(out@ == before + single_quoted(s@));
}

/// What the shell makes of a word in single quotes, or out of them.
pub open spec fn shell_word(s: Seq<char>, inside: bool) -> Seq<char>
    decreases s.len(),
{
    if s.len() == 0 {
        Seq::empty()
    } else if s[0] == '\'' {
        shell_word(s.drop_first(), !inside)
    } else if !inside && s[0] == '\\' && s.len() >= 2 {
        seq![s[1]] + shell_word(s.skip(2), inside)
    } else {
        seq![s[0]] + shell_word(s.drop_first(), inside)
    }
}

proof fn escaped_text_is_read(s: Seq<char>, rest: Seq<char>)
    ensures
        shell_word(single_quote_escaped(s) + rest, true) == s + shell_word(rest, true),
    decreases s.len(),
{
    if s.len() == 0 {
        assert(single_quote_escaped(s) + rest == rest);
        assert(s + shell_word(rest, true) == shell_word(rest, true));
    } else {
        let t = s.drop_last();
        let c = s.last();
        let e = if c == '\'' {
            "'\\''"@
        } else {
            seq![c]
        };
        let next = e + rest;
        assert(single_quote_escaped(s) + rest == single_quote_escaped(t) + next);
        escaped_text_is_read(t, next);
        if c == '\'' {
            reveal_strlit("'\\''");
            reveal_with_fuel(shell_word, 4);
            assert(next[0] == '\'' && next[1] == '\\' && next[2] == '\'' && next[3] == '\'');
            let a = next.drop_first();
            let b = a.skip(2);
            assert(b[0] == '\'');
            assert(b.drop_first() == rest);
            assert(shell_word(b, false) == shell_word(rest, true));
            assert(shell_word(a, false) == seq!['\''] + shell_word(b, false));
            assert(shell_word(next, true) == shell_word(a, false));
        } else {
            assert(next.drop_first() == rest);
        }
        assert(shell_word(next, true) == seq![c] + shell_word(rest, true));
        assert(t + (seq![c] + shell_word(rest, true)) == s + shell_word(rest, true));
    }
}

/// The shell reads a quoted text as the text, whatever is in it.
pub proof fn quoted_text_is_read(s: Seq<char>)
    ensures
        shell_word(single_quoted(s), false) == s,
{
    reveal_strlit("'");
    let end = "'"@;
    let q = single_quoted(s);
    assert(q[0] == '\'');
    assert(q.drop_first() == single_quote_escaped(s) + end);
    escaped_text_is_read(s, end);
    assert(end.drop_first() == Seq::<char>::empty());
    assert(shell_word(end.drop_first(), false) == Seq::<char>::empty());
    assert(shell_word(end, true) == Seq::<char>::empty());
    assert(s + Seq::<char>::empty() == s);
}

/// Plans the start of labwc with its configuration and the desktop that it
/// starts.
pub fn launch_detached(
    width: u32,
    height: u32,
    shell_cmd: &str,
    config_dir: &str,
    run_as: Option<TargetUser>,
    audio_sink: Option<&str>,
    own_runtime_dir: Option<String>,
    own_uid: u32,
) -> (p: LaunchPlan)
    ensures
        p.program@ == "labwc"@,
        text::texts(p.args@) == seq![
            "-C"@,
            config_dir@,
            "-S"@,
            "sh -c "@ + single_quoted(backend::announcing(shell_cmd@)),
        ],
        backend::variables(p.set@) == backend::headless(width, height) + backend::sink_variable(
            match audio_sink {
                Some(s) => Some(s@),
                None => None,
            },
        ) + backend::user_variables(run_as) + backend::cursor_theme(),
        text::texts(p.unset@) == backend::inherited_desktop(),
        backend::child_steps(run_as, p.child_steps@),
        p.runtime_dir@ == backend::launch_runtime_dir(
            run_as,
            text::optional(own_runtime_dir),
            own_uid,
        ),
{
    let mut p = detached_compositor_command(
        "labwc",
        width,
        height,
        run_as,
        audio_sink,
        own_runtime_dir,
        own_uid,
    );
    let wrapper = socket_wrapper_cmd(shell_cmd);
    let mut startup = text::chars_of("sh -c ");
    push_single_quoted(&mut startup, wrapper.as_str());
    assert(text::texts(p.args@) == Seq::<Seq<char>>::empty());
    text::push_text(&mut p.args, "-C");
    text::push_text(&mut p.args, config_dir);
    text::push_text(&mut p.args, "-S");
    text::push_text(&mut p.args, text::text_of(&startup).as_str());
    assert(text::texts(p.args@) == seq![
        "-C"@,
        config_dir@,
        "-S"@,
        "sh -c "@ + single_quoted(backend::announcing(shell_cmd@)),
    ]);
    add_cursor_theme(&mut p);
    p
}

/// Two hexadecimal digits for each byte.
pub open spec fn hex_bytes(bytes: Seq<u8>) -> Seq<char>
    decreases bytes.len(),
{
    if bytes.len() == 0 {
        Seq::empty()
    } else {
        hex_bytes(bytes.drop_last()) + seq![
            text::hex_digit(bytes.last() as int / 16),
            text::hex_digit(bytes.last() as int % 16),
        ]
    }
}

fn hex_char(d: u8) -> (c: char)
    requires
        d < 16,
    ensures
        c == text::hex_digit(d as int),
{
    if d < 10 {
        (48 + d) as char
    } else {
        (87 + d) as char
    }
}

/// A suffix from random bytes, so that nobody can guess a directory's name.
pub fn random_suffix(bytes: &[u8]) -> (s: String)
    ensures
        s@ == hex_bytes(bytes@),
{
    let mut out: Vec<char> = Vec::new();
    let mut i: usize = 0;
    while i < bytes.len()
        invariant
            i <= bytes@.len(),
            out@ == hex_bytes(bytes@.take(i as int)),
        decreases bytes@.len() - i,
    {
        let ghost before = out@;
        let b: u8 = bytes[i];
        proof {
            assert(bytes@.take(i + 1).drop_last() == bytes@.take(i as int));
            assert(bytes@.take(i + 1).last() == b);
        }
        out.push(hex_char(b / 16));
        out.push(hex_char(b % 16));
        assert(out@ == before + seq![
            text::hex_digit(b as int / 16),
            text::hex_digit(b as int % 16),
        ]);
        i = i + 1;
    }
    assert(bytes@.take(i as int) == bytes@);
    text::text_of(&out)
}

/// The directory of labwc's configuration. Its name is the server's process and
/// a random suffix: it is made by root in a directory that everybody may write
/// to, and must not be there before.
pub fn labwc_config_dir(temp_dir: &str, pid: u32, suffix: &str) -> (s: String)
    ensures
        s@ == paths::joined(
            temp_dir@,
            "termland-labwc-"@ + text::decimal(pid as nat) + "-"@ + suffix@,
        ),
{
    let mut name = text::chars_of("termland-labwc-");
    let mut digits = text::decimal_chars(pid as u64);
    name.append(&mut digits);
    text::push_str(&mut name, "-");
    text::push_str(&mut name, suffix);
    paths::join(temp_dir, text::text_of(&name).as_str())
}

/// The permissions of that directory: labwc reads it as another user.
pub const CONFIG_DIR_MODE: u32 = 0x1ed;

/// The permissions of the file in it.
pub const CONFIG_FILE_MODE: u32 = 0x1a4;

/// labwc's configuration: the size of the output, and a few keys.
pub open spec fn labwc_config(width: u32, height: u32) -> Seq<char> {
    "<?xml version=\"1.0\"?>\n<labwc_config>\n  <core>\n    <decoration>client</decoration>\n  </core>\n  <output>\n    <name>HEADLESS-1</name>\n    <mode><width>"@
        + text::decimal(width as nat) + "</width><height>"@ + text::decimal(height as nat)
        + "</height><refresh>60</refresh></mode>\n  </output>\n  <keyboard>\n    <keybind key=\"A-F4\"><action name=\"Close\"/></keybind>\n    <keybind key=\"A-Tab\"><action name=\"NextWindow\"/></keybind>\n    <keybind key=\"W-d\"><action name=\"ShowDesktop\"/></keybind>\n    <keybind key=\"W-Return\"><action name=\"Execute\" command=\"konsole\"/></keybind>\n  </keyboard>\n</labwc_config>\n"@
}

/// Writes labwc's configuration.
pub fn minimal_config(width: u32, height: u32) -> (s: String)
    ensures
        s@ == labwc_config(width, height),
{
    let mut out = text::chars_of(
        "<?xml version=\"1.0\"?>\n<labwc_config>\n  <core>\n    <decoration>client</decoration>\n  </core>\n  <output>\n    <name>HEADLESS-1</name>\n    <mode><width>",
    );
    let mut w = text::decimal_chars(width as u64);
    out.append(&mut w);
    text::push_str(&mut out, "</width><height>");
    let mut h = text::decimal_chars(height as u64);
    out.append(&mut h);
    text::push_str(
        &mut out,
        "</height><refresh>60</refresh></mode>\n  </output>\n  <keyboard>\n    <keybind key=\"A-F4\"><action name=\"Close\"/></keybind>\n    <keybind key=\"A-Tab\"><action name=\"NextWindow\"/></keybind>\n    <keybind key=\"W-d\"><action name=\"ShowDesktop\"/></keybind>\n    <keybind key=\"W-Return\"><action name=\"Execute\" command=\"konsole\"/></keybind>\n  </keyboard>\n</labwc_config>\n",
    );
    text::text_of(&out)
}

/// A desktop's compositor starts the desktop: the shell reads its command as it
/// was given, with the announcement of the socket before it. It has the settings
/// directory, the size, the sound and the user that were asked for, and a
/// pointer to show.
pub proof fn desktops_are_started(
    width: u32,
    height: u32,
    cmd: &str,
    config_dir: &str,
    run_as: Option<TargetUser>,
    sink: Option<&str>,
    own_dir: Option<String>,
    own_uid: u32,
    p: LaunchPlan,
    program: &str,
    q: LaunchPlan,
    s: String,
)
    requires
        call_ensures(
            launch_detached,
            (width, height, cmd, config_dir, run_as, sink, own_dir, own_uid),
            p,
        ),
        call_ensures(
            detached_compositor_command,
            (program, width, height, run_as, sink, own_dir, own_uid),
            q,
        ),
        call_ensures(socket_wrapper_cmd, (cmd,), s),
    ensures
        p.program@ == "labwc"@,
        p.args@.len() == 4,
        p.args@[0]@ == "-C"@ && p.args@[1]@ == config_dir@,
        p.args@[2]@ == "-S"@,
        p.args@[3]@.take(6) == "sh -c "@,
        shell_word(p.args@[3]@.skip(6), false) == s@,
        backend::variables(p.set@).len() == backend::variables(q.set@).len() + 2,
        backend::variables(p.set@).take(backend::variables(q.set@).len() as int)
            == backend::variables(q.set@),
        backend::sets(p.set@, "XCURSOR_THEME"@, "Adwaita"@),
        backend::sets(p.set@, "XCURSOR_SIZE"@, "24"@),
        text::texts(p.unset@) == text::texts(q.unset@),
        p.runtime_dir@ == q.runtime_dir@,
        p.child_steps@.len() == q.child_steps@.len(),
        run_as matches Some(t) ==> p.child_steps@[3] == backend::ChildStep::SetUid(t.uid)
            && p.child_steps@[2] == backend::ChildStep::SetGid(t.gid)
            && p.child_steps@[1] is InitGroups,
{
    let a = text::texts(p.args@);
    assert(a.len() == p.args@.len());
    assert(a[0] == p.args@[0]@ && a[1] == p.args@[1]@ && a[2] == p.args@[2]@ && a[3]
        == p.args@[3]@);
    quoted_text_is_read(s@);
    reveal_strlit("sh -c ");
    assert(a[3].take(6) =~= "sh -c "@);
    assert(a[3].skip(6) =~= single_quoted(s@));
    let v = backend::variables(p.set@);
    let w = backend::variables(q.set@);
    assert(v.take(w.len() as int) =~= w);
    assert(v.len() == p.set@.len());
    let n = w.len() as int;
    assert(v[n] == (p.set@[n].name@, p.set@[n].value@));
    assert(v[n + 1] == (p.set@[n + 1].name@, p.set@[n + 1].value@));
}

proof fn hex_digits_differ(a: int, b: int)
    requires
        0 <= a < 16,
        0 <= b < 16,
        text::hex_digit(a) == text::hex_digit(b),
    ensures
        a == b,
{
}

proof fn hex_bytes_differ(a: Seq<u8>, b: Seq<u8>)
    requires
        hex_bytes(a) == hex_bytes(b),
    ensures
        a == b,
        hex_bytes(a).len() == 2 * a.len(),
    decreases a.len() + b.len(),
{
    hex_bytes_len(a);
    hex_bytes_len(b);
    if a.len() > 0 {
        let ha = hex_bytes(a.drop_last());
        let hb = hex_bytes(b.drop_last());
        hex_bytes_len(a.drop_last());
        hex_bytes_len(b.drop_last());
        let n = ha.len() as int;
        assert(hex_bytes(a).take(n) =~= ha);
        assert(hex_bytes(b).take(n) =~= hb);
        hex_bytes_differ(a.drop_last(), b.drop_last());
        assert(hex_bytes(a)[n] == hex_bytes(b)[n]);
        assert(hex_bytes(a)[n + 1] == hex_bytes(b)[n + 1]);
        let x = a.last() as int;
        let y = b.last() as int;
        assert(a.len() == b.len());
        assert(hex_bytes(a)[n] == text::hex_digit(x / 16));
        assert(hex_bytes(b)[n] == text::hex_digit(y / 16));
        assert(hex_bytes(a)[n + 1] == text::hex_digit(x % 16));
        assert(hex_bytes(b)[n + 1] == text::hex_digit(y % 16));
        hex_digits_differ(x / 16, y / 16);
        hex_digits_differ(x % 16, y % 16);
        assert(x == y);
        assert(a =~= a.drop_last().push(a.last()));
        assert(b =~= b.drop_last().push(b.last()));
    } else {
        assert(a =~= b);
    }
}

proof fn hex_bytes_len(a: Seq<u8>)
    ensures
        hex_bytes(a).len() == 2 * a.len(),
    decreases a.len(),
{
    if a.len() > 0 {
        hex_bytes_len(a.drop_last());
    }
}

/// Different random bytes make different settings directories, below the
/// temporary one, that only their owner may write to.
pub proof fn settings_directories_are_their_own(
    b1: &[u8],
    s1: String,
    b2: &[u8],
    s2: String,
    temp: &str,
    pid: u32,
    suffix: &str,
    d: String,
)
    requires
        call_ensures(random_suffix, (b1,), s1),
        call_ensures(random_suffix, (b2,), s2),
        call_ensures(labwc_config_dir, (temp, pid, suffix), d),
    ensures
        b1@ != b2@ ==> s1@ != s2@,
        s1@.len() == 2 * b1@.len(),
        paths::stands_below(
            d@,
            temp@,
            "termland-labwc-"@ + text::decimal(pid as nat) + "-"@ + suffix@,
        ),
        CONFIG_DIR_MODE == 7 * 64 + 5 * 8 + 5,
        CONFIG_FILE_MODE == 6 * 64 + 4 * 8 + 4,
{
    hex_bytes_len(b1@);
    if s1@ == s2@ {
        hex_bytes_differ(b1@, b2@);
    }
    paths::joined_stands_below(
        temp@,
        "termland-labwc-"@ + text::decimal(pid as nat) + "-"@ + suffix@,
    );
}

/// The settings name the size that was asked for: two that differ in it are
/// different settings.
pub proof fn settings_name_the_size(w: u32, h: u32, s: String)
    requires
        call_ensures(minimal_config, (w, h), s),
    ensures
        exists|a: Seq<char>, b: Seq<char>|
            s@ == #[trigger] (a + text::decimal(w as nat) + "</width><height>"@ + text::decimal(
                h as nat,
            ) + b) && a.skip(a.len() - 7) == "<width>"@ && b.take(9) == "</height>"@,
{
    let a =
        "<?xml version=\"1.0\"?>\n<labwc_config>\n  <core>\n    <decoration>client</decoration>\n  </core>\n  <output>\n    <name>HEADLESS-1</name>\n    <mode><width>"@;
    let b =
        "</height><refresh>60</refresh></mode>\n  </output>\n  <keyboard>\n    <keybind key=\"A-F4\"><action name=\"Close\"/></keybind>\n    <keybind key=\"A-Tab\"><action name=\"NextWindow\"/></keybind>\n    <keybind key=\"W-d\"><action name=\"ShowDesktop\"/></keybind>\n    <keybind key=\"W-Return\"><action name=\"Execute\" command=\"konsole\"/></keybind>\n  </keyboard>\n</labwc_config>\n"@;
    reveal_strlit("<?xml version=\"1.0\"?>\n<labwc_config>\n  <core>\n    <decoration>client</decoration>\n  </core>\n  <output>\n    <name>HEADLESS-1</name>\n    <mode><width>");
    reveal_strlit("</height><refresh>60</refresh></mode>\n  </output>\n  <keyboard>\n    <keybind key=\"A-F4\"><action name=\"Close\"/></keybind>\n    <keybind key=\"A-Tab\"><action name=\"NextWindow\"/></keybind>\n    <keybind key=\"W-d\"><action name=\"ShowDesktop\"/></keybind>\n    <keybind key=\"W-Return\"><action name=\"Execute\" command=\"konsole\"/></keybind>\n  </keyboard>\n</labwc_config>\n");
    reveal_strlit("<width>");
    reveal_strlit("</height>");
    assert(a.skip(a.len() - 7) =~= "<width>"@);
    assert(b.take(9) =~= "</height>"@);
    assert(s@ == a + text::decimal(w as nat) + "</width><height>"@ + text::decimal(h as nat) + b);
}

} // verus!
