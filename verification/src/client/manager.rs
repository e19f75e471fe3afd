//! The session manager: saved profiles, what is known of each host's sessions,
//! and the tray process that owns the window. These functions decide; drawing,
//! saving, polling and launching are their caller's.
use vstd::prelude::*;
use crate::client::connection;
use crate::client::connection::ConnectParams;
use crate::client::profile;
use crate::client::profile::{copy_optional, Profile, ProfileView};
use crate::protocol::messages::{ModeView, SessionInfo, SessionMode, VideoCodec};
use crate::text;

verus! {

/// What a session runs by its description: "app:" and a command with its
/// arguments, or else the desktop.
pub open spec fn mode_of(mode: Seq<char>) -> ModeView {
    let w = text::words(mode.skip(4));
    if mode != "desktop"@ && text::has_prefix(mode, "app:"@) && w.len() > 0 {
        ModeView::App(w[0], w.skip(1))
    } else {
        ModeView::Desktop
    }
}

/// What a session runs by its description. An "app:" without a command is the
/// desktop.
pub fn session_mode_for(mode: &str) -> (m: SessionMode)
    ensures
        m@ == mode_of(mode@),
{
    if text::same_text(mode, "desktop") {
        return SessionMode::Desktop;
    }
    let chars = text::chars_of(mode);
    let prefix = text::chars_of("app:");
    proof {
        reveal_strlit("app:");
    }
    if text::starts_with(&chars, &prefix) {
        let rest = text::slice_chars(&chars, 4, chars.len());
        assert(rest@ == mode@.skip(4));
        let parts = text::split_words(&rest);
        if parts.len() == 0 {
            assert(text::char_rows(parts@).len() == 0);
            SessionMode::Desktop
        } else {
            let args = text::rows_to_texts(&parts, 1);
            assert(text::char_rows(parts@)[0] == parts@[0]@);
            SessionMode::App { command: text::text_of(&parts[0]), args }
        }
    } else {
        SessionMode::Desktop
    }
}

/// The codec that a name stands for.
pub open spec fn codec_named(name: Seq<char>) -> Option<VideoCodec> {
    if name == "av1"@ {
        Some(VideoCodec::Av1)
    } else if name == "vp9"@ {
        Some(VideoCodec::Vp9)
    } else if name == "vp8"@ {
        Some(VideoCodec::Vp8)
    } else if name == "h265"@ || name == "hevc"@ {
        Some(VideoCodec::H265)
    } else if name == "h264"@ || name == "avc"@ {
        Some(VideoCodec::H264)
    } else {
        None
    }
}

/// The codec that a name of the command line stands for.
pub fn codec_from_name(name: &str) -> (c: Option<VideoCodec>)
    ensures
        c == codec_named(name@),
{
    if text::same_text(name, "av1") {
        Some(VideoCodec::Av1)
    } else if text::same_text(name, "vp9") {
        Some(VideoCodec::Vp9)
    } else if text::same_text(name, "vp8") {
        Some(VideoCodec::Vp8)
    } else if text::same_text(name, "h265") || text::same_text(name, "hevc") {
        Some(VideoCodec::H265)
    } else if text::same_text(name, "h264") || text::same_text(name, "avc") {
        Some(VideoCodec::H264)
    } else {
        None
    }
}

/// Whether parameters are those for asking a profile's host for its sessions. A
/// password that is not to be remembered is not used, and accepting invalid
/// certificates implies TLS.
pub open spec fn params_of(p: Profile, c: ConnectParams) -> bool {
    &&& c.mode@ == mode_of(p.mode@)
    &&& c.width == p.width
    &&& c.height == p.height
    &&& c.quality == p.quality
    &&& !c.audio
    &&& text::texts(c.ssh_opts@) == text::texts(p.ssh_opts@)
    &&& c.tls == (p.tls || p.accept_invalid_certs)
    &&& c.accept_invalid_certs == p.accept_invalid_certs
    &&& c.username == p.username
    &&& c.password == (if p.remember_password {
        p.password
    } else {
        None
    })
    &&& c.desktop_shell == p.desktop_shell
    &&& c.encoder_preset is None
    &&& c.encoder_crf is None
    &&& c.encoder_extra_params is None
    &&& c.codec == (match p.codec {
        Some(n) => codec_named(n@),
        None => None,
    })
    &&& c.attach is None
    &&& c.reconnect
}

/// The parameters for asking a profile's host for its sessions.
pub fn connect_params_for_profile(p: &Profile) -> (c: ConnectParams)
    ensures
        params_of(*p, c),
{
    let codec = match &p.codec {
        Some(n) => codec_from_name(n.as_str()),
        None => None,
    };
    let password = if p.remember_password {
        copy_optional(&p.password)
    } else {
        None
    };
    ConnectParams {
        mode: session_mode_for(p.mode.as_str()),
        width: p.width,
        height: p.height,
        quality: p.quality,
        audio: false,
        ssh_opts: text::copy_texts(&p.ssh_opts),
        tls: p.tls || p.accept_invalid_certs,
        accept_invalid_certs: p.accept_invalid_certs,
        username: copy_optional(&p.username),
        password,
        desktop_shell: copy_optional(&p.desktop_shell),
        encoder_preset: None,
        encoder_crf: None,
        encoder_extra_params: None,
        codec,
        attach: None,
        reconnect: true,
    }
}

/// A flag where it is set.
pub open spec fn flag(set: bool, name: Seq<char>) -> Seq<Seq<char>> {
    if set {
        seq![name]
    } else {
        Seq::empty()
    }
}

/// An option with its value where it has one.
pub open spec fn valued(name: Seq<char>, value: Option<Seq<char>>) -> Seq<Seq<char>> {
    match value {
        Some(v) => seq![name, v],
        None => Seq::empty(),
    }
}

/// The options that pass options on to ssh.
pub open spec fn ssh_opt_args(opts: Seq<Seq<char>>) -> Seq<Seq<char>>
    decreases opts.len(),
{
    if opts.len() == 0 {
        Seq::empty()
    } else {
        ssh_opt_args(opts.drop_last()) + seq!["--ssh-opt"@, opts.last()]
    }
}

/// The command line that opens a profile, with more options before the server.
pub open spec fn profile_args(p: ProfileView, extra: Seq<Seq<char>>) -> Seq<Seq<char>> {
    flag(p.ssh, "--ssh"@) + ssh_opt_args(p.ssh_opts) + flag(p.tls, "--tls"@) + flag(
        p.accept_invalid_certs,
        "--accept-invalid-certs"@,
    ) + valued("--user"@, p.username) + valued(
        "--password"@,
        if p.remember_password {
            p.password
        } else {
            None
        },
    ) + seq![
        "--width"@,
        text::decimal(p.width as nat),
        "--height"@,
        text::decimal(p.height as nat),
        "--mode"@,
        p.mode,
        "--quality"@,
        text::decimal(p.quality as nat),
    ] + valued("--codec"@, p.codec) + valued("--desktop-shell"@, p.desktop_shell) + extra + seq![
        p.server,
    ]
}

fn push_flag(args: &mut Vec<String>, set: bool, name: &str)
    ensures
        text::texts(final(args)@) == text::texts(old(args)@) + flag(set, name@),
{
    let ghost before = text::texts(args@);
    if set {
        text::push_text(args, name);
    }
    assert(text::texts(args@) == before + flag(set, name@));
}

fn push_valued(args: &mut Vec<String>, name: &str, value: &Option<String>)
    ensures
        text::texts(final(args)@) == text::texts(old(args)@) + valued(
            name@,
            text::optional(*value),
        ),
{
    let ghost before = text::texts(args@);
    if let Some(v) = value {
        text::push_text(args, name);
        text::push_text(args, v.as_str());
    }
    assert(text::texts(args@) == before + valued(name@, text::optional(*value)));
}

/// The command line that opens a profile: its settings, then `extra` (such as
/// `--attach` and a session), then the server.
pub fn client_args(profile: &Profile, extra: &[String]) -> (args: Vec<String>)
    ensures
        text::texts(args@) == profile_args(profile@, text::texts(extra@)),
{
    let ghost p = profile@;
    let mut args: Vec<String> = Vec::new();
    assert(text::texts(args@) == Seq::<Seq<char>>::empty());
    push_flag(&mut args, profile.ssh, "--ssh");
    let ghost head = text::texts(args@);
    let mut i: usize = 0;
    assert(head + ssh_opt_args(p.ssh_opts.take(0)) == head);
    while i < profile.ssh_opts.len()
        invariant
            i <= profile.ssh_opts@.len(),
            p.ssh_opts == text::texts(profile.ssh_opts@),
            text::texts(args@) == head + ssh_opt_args(p.ssh_opts.take(i as int)),
        decreases profile.ssh_opts@.len() - i,
    {
        text::push_text(&mut args, "--ssh-opt");
        text::push_text(&mut args, profile.ssh_opts[i].as_str());
        proof {
            let t = p.ssh_opts.take(i + 1);
            assert(t.drop_last() == p.ssh_opts.take(i as int));
            assert(t.last() == profile.ssh_opts@[i as int]@);
            assert(text::texts(args@) == head + ssh_opt_args(t));
        }
        i = i + 1;
    }
    assert(p.ssh_opts.take(i as int) == p.ssh_opts);
    push_flag(&mut args, profile.tls, "--tls");
    push_flag(&mut args, profile.accept_invalid_certs, "--accept-invalid-certs");
    push_valued(&mut args, "--user", &profile.username);
    let password = if profile.remember_password {
        copy_optional(&profile.password)
    } else {
        None
    };
    push_valued(&mut args, "--password", &password);
    let ghost before_size = text::texts(args@);
    text::push_text(&mut args, "--width");
    text::push_text(&mut args, text::decimal_text(profile.width as u64).as_str());
    text::push_text(&mut args, "--height");
    text::push_text(&mut args, text::decimal_text(profile.height as u64).as_str());
    text::push_text(&mut args, "--mode");
    text::push_text(&mut args, profile.mode.as_str());
    text::push_text(&mut args, "--quality");
    text::push_text(&mut args, text::decimal_text(profile.quality as u64).as_str());
    assert(text::texts(args@) == before_size + seq![
        "--width"@,
        text::decimal(p.width as nat),
        "--height"@,
        text::decimal(p.height as nat),
        "--mode"@,
        p.mode,
        "--quality"@,
        text::decimal(p.quality as nat),
    ]);
    push_valued(&mut args, "--codec", &profile.codec);
    push_valued(&mut args, "--desktop-shell", &profile.desktop_shell);
    push_all(&mut args, extra);
    let ghost before_server = text::texts(args@);
    text::push_text(&mut args, profile.server.as_str());
    assert(text::texts(args@) == before_server + seq![p.server]);
    args
}

fn push_all(args: &mut Vec<String>, more: &[String])
    ensures
        text::texts(final(args)@) == text::texts(old(args)@) + text::texts(more@),
{
    let ghost head = text::texts(args@);
    let ghost all = text::texts(more@);
    let mut i: usize = 0;
    assert(head + all.take(0) == head);
    while i < more.len()
        invariant
            i <= more@.len(),
            all == text::texts(more@),
            text::texts(args@) == head + all.take(i as int),
        decreases more@.len() - i,
    {
        text::push_text(args, more[i].as_str());
        proof {
            assert(all.take(i + 1) == all.take(i as int).push(all[i as int]));
            assert(head + all.take(i + 1) == (head + all.take(i as int)).push(all[i as int]));
        }
        i = i + 1;
    }
    assert(all.take(i as int) == all);
}

/// A password that is not to be remembered never reaches the command line:
/// what it is makes no difference.
pub proof fn forgotten_passwords_stay_off_the_command_line(
    p: ProfileView,
    other: Option<Seq<char>>,
    extra: Seq<Seq<char>>,
)
    requires
        !p.remember_password,
    ensures
        profile_args(p, extra) == profile_args((ProfileView { password: other, ..p }), extra),
{
}

/// The server comes last, and the extra options right before it.
pub proof fn extra_options_stand_before_the_server(p: ProfileView, extra: Seq<Seq<char>>)
    ensures
        ({
            let args = profile_args(p, extra);
            &&& args.len() > extra.len()
            &&& args.last() == p.server
            &&& args.subrange(args.len() - 1 - extra.len(), args.len() - 1) == extra
        }),
{
    let args = profile_args(p, extra);
    assert(args.subrange(args.len() - 1 - extra.len(), args.len() - 1) == extra);
}

/// What is known of a host's sessions.
#[derive(Debug, Clone)]
pub enum PollState {
    Loading,
    Ready(Vec<SessionInfo>),
    Error(String),
}

/// What is known of each profile's host, by the profile's id.
pub struct SessionTable {
    entries: Vec<(String, PollState)>,
}

/// A list of entries as a map.
pub open spec fn entry_map(v: Seq<(String, PollState)>) -> Map<Seq<char>, PollState>
    decreases v.len(),
{
    if v.len() == 0 {
        Map::empty()
    } else {
        entry_map(v.drop_last()).insert(v.last().0@, v.last().1)
    }
}

/// Whether no key occurs twice.
pub open spec fn keys_differ(v: Seq<(String, PollState)>) -> bool {
    forall|i: int, j: int| 0 <= i < j < v.len() ==> (#[trigger] v[i]).0@ != (#[trigger] v[j]).0@
}

proof fn entry_map_facts(v: Seq<(String, PollState)>)
    requires
        keys_differ(v),
    ensures
        forall|i: int|
            0 <= i < v.len() ==> entry_map(v).dom().contains((#[trigger] v[i]).0@)
                && entry_map(v)[v[i].0@] == v[i].1,
        forall|k: Seq<char>| #[trigger]
            entry_map(v).dom().contains(k) ==> exists|i: int| 0 <= i < v.len() && v[i].0@ == k,
    decreases v.len(),
{
    if v.len() > 0 {
        let t = v.drop_last();
        assert(keys_differ(t)) by {
            assert forall|i: int, j: int| 0 <= i < j < t.len() implies (#[trigger] t[i]).0@ != (
            #[trigger] t[j]).0@ by {
                assert(t[i] == v[i] && t[j] == v[j]);
            }
        }
        entry_map_facts(t);
        assert forall|i: int| 0 <= i < v.len() implies entry_map(v).dom().contains(
            (#[trigger] v[i]).0@,
        ) && entry_map(v)[v[i].0@] == v[i].1 by {
            if i < t.len() {
                assert(t[i] == v[i]);
                assert(v[i].0@ != v[v.len() - 1].0@);
            }
        }
        assert forall|k: Seq<char>| #[trigger] entry_map(v).dom().contains(k) implies exists|i: int|
            0 <= i < v.len() && v[i].0@ == k by {
            if k == v.last().0@ {
                assert(v[v.len() - 1].0@ == k);
            } else {
                assert(entry_map(t).dom().contains(k));
                let i = choose|i: int| 0 <= i < t.len() && t[i].0@ == k;
                assert(v[i].0@ == k);
            }
        }
    }
}

impl View for SessionTable {
    type V = Map<Seq<char>, PollState>;

    closed spec fn view(&self) -> Map<Seq<char>, PollState> {
        entry_map(self.entries@)
    }
}

impl SessionTable {
    /// Whether each id has one entry at most.
    pub closed spec fn wf(&self) -> bool {
        keys_differ(self.entries@)
    }

    /// A table that knows nothing.
    pub fn new() -> (t: SessionTable)
        ensures
            t.wf(),
            t@ == Map::<Seq<char>, PollState>::empty(),
    {
        SessionTable { entries: Vec::new() }
    }

    fn position(&self, id: &str) -> (r: Option<usize>)
        ensures
            match r {
                Some(i) => i < self.entries@.len() && self.entries@[i as int].0@ == id@,
                None => forall|i: int|
                    0 <= i < self.entries@.len() ==> (#[trigger] self.entries@[i]).0@ != id@,
            },
    {
        let mut i: usize = 0;
        while i < self.entries.len()
            invariant
                i <= self.entries@.len(),
                forall|k: int| 0 <= k < i ==> (#[trigger] self.entries@[k]).0@ != id@,
            decreases self.entries@.len() - i,
        {
            if text::same_text(self.entries[i].0.as_str(), id) {
                return Some(i);
            }
            i = i + 1;
        }
        None
    }

    /// What is known under an id.
    pub fn get(&self, id: &str) -> (r: Option<&PollState>)
        requires
            self.wf(),
        ensures
            match r {
                Some(s) => self@.dom().contains(id@) && self@[id@] == *s,
                None => !self@.dom().contains(id@),
            },
    {
        proof {
            entry_map_facts(self.entries@);
        }
        match self.position(id) {
            Some(i) => {
                assert(self.entries@[i as int].0@ == id@);
                Some(&self.entries[i].1)
            },
            None => None,
        }
    }

    /// Forgets what is known under an id.
    pub fn remove(&mut self, id: &str)
        requires
            old(self).wf(),
        ensures
            final(self).wf(),
            final(self)@ == old(self)@.remove(id@),
    {
        let ghost before = self.entries@;
        proof {
            entry_map_facts(before);
        }
        match self.position(id) {
            Some(i) => {
                let _ = self.entries.remove(i);
                proof {
                    let after = self.entries@;
                    assert(after == before.remove(i as int));
                    assert forall|a: int, b: int| 0 <= a < b < after.len() implies (
                    #[trigger] after[a]).0@ != (#[trigger] after[b]).0@ by {
                        let x = if a < i {
                            a
                        } else {
                            a + 1
                        };
                        let y = if b < i {
                            b
                        } else {
                            b + 1
                        };
                        assert(after[a] == before[x] && after[b] == before[y]);
                    }
                    entry_map_facts(after);
                    let m = entry_map(before).remove(id@);
                    assert forall|k: Seq<char>|
                        entry_map(after).dom().contains(k) <==> m.dom().contains(k) by {
                        if entry_map(after).dom().contains(k) {
                            let a = choose|a: int| 0 <= a < after.len() && after[a].0@ == k;
                            let x = if a < i {
                                a
                            } else {
                                a + 1
                            };
                            assert(after[a] == before[x]);
                            assert(before[x].0@ != before[i as int].0@);
                        }
                        if m.dom().contains(k) {
                            let x = choose|x: int| 0 <= x < before.len() && before[x].0@ == k;
                            let a = if x < i {
                                x
                            } else {
                                x - 1
                            };
                            assert(after[a] == before[x]);
                        }
                    }
                    assert forall|k: Seq<char>| entry_map(after).dom().contains(k) implies entry_map(
                        after,
                    )[k] == m[k] by {
                        let a = choose|a: int| 0 <= a < after.len() && after[a].0@ == k;
                        let x = if a < i {
                            a
                        } else {
                            a + 1
                        };
                        assert(after[a] == before[x]);
                    }
                    assert(entry_map(after) =~= m);
                }
            },
            None => {
                assert(entry_map(before).remove(id@) =~= entry_map(before));
            },
        }
    }

    /// Notes what is known under an id, in place of what was.
    pub fn insert(&mut self, id: &str, state: PollState)
        requires
            old(self).wf(),
        ensures
            final(self).wf(),
            final(self)@ == old(self)@.insert(id@, state),
    {
        let ghost old_map = self@;
        self.remove(id);
        let ghost before = self.entries@;
        proof {
            entry_map_facts(before);
        }
        self.entries.push((String::from_str(id), state));
        proof {
            let after = self.entries@;
            assert(after.drop_last() == before);
            assert forall|a: int, b: int| 0 <= a < b < after.len() implies (#[trigger] after[a]).0@
                != (#[trigger] after[b]).0@ by {
                assert(after[a] == before[a]);
                assert(entry_map(before).dom().contains(before[a].0@));
            }
            assert(entry_map(after) =~= old_map.insert(id@, state));
        }
    }
}

/// A profile being edited. The ssh options are edited as one text.
#[derive(Debug, Clone)]
pub struct EditState {
    pub profile: Profile,
    pub is_new: bool,
    pub ssh_opts_text: String,
}

/// Some texts with spaces between them.
pub open spec fn spaced(v: Seq<Seq<char>>) -> Seq<char>
    decreases v.len(),
{
    if v.len() == 0 {
        Seq::empty()
    } else if v.len() == 1 {
        v[0]
    } else {
        spaced(v.drop_last()).push(' ') + v.last()
    }
}

impl EditState {
    /// Starts editing a profile.
    pub fn from_profile(profile: Profile, is_new: bool) -> (e: EditState)
        ensures
            e.profile == profile,
            e.is_new == is_new,
            e.ssh_opts_text@ == spaced(text::texts(profile.ssh_opts@)),
    {
        let ghost all = text::texts(profile.ssh_opts@);
        let mut out: Vec<char> = Vec::new();
        let mut i: usize = 0;
        while i < profile.ssh_opts.len()
            invariant
                i <= profile.ssh_opts@.len(),
                all == text::texts(profile.ssh_opts@),
                out@ == spaced(all.take(i as int)),
            decreases profile.ssh_opts@.len() - i,
        {
            proof {
                assert(all.take(i + 1).drop_last() == all.take(i as int));
                assert(all.take(i + 1).last() == profile.ssh_opts@[i as int]@);
            }
            if i > 0 {
                out.push(' ');
            }
            text::push_str(&mut out, profile.ssh_opts[i].as_str());
            assert(out@ == spaced(all.take(i + 1)));
            i = i + 1;
        }
        assert(all.take(i as int) == all);
        let ssh_opts_text = text::text_of(&out);
        EditState { profile, is_new, ssh_opts_text }
    }
}

/// What an optional field holds after its text was edited: nothing where the
/// text is empty.
pub fn optional_field(edited: String) -> (r: Option<String>)
    ensures
        r == (if edited@.len() == 0 {
            None
        } else {
            Some(edited)
        }),
{
    if edited.as_str().is_empty() {
        None
    } else {
        Some(edited)
    }
}

/// The place of the first profile with an id.
pub open spec fn place_of(v: Seq<ProfileView>, id: Seq<char>) -> Option<int>
    decreases v.len(),
{
    if v.len() == 0 {
        None
    } else {
        match place_of(v.drop_last(), id) {
            Some(i) => Some(i),
            None => if v.last().id == id {
                Some(v.len() - 1)
            } else {
                None
            },
        }
    }
}

proof fn place_of_facts(v: Seq<ProfileView>, id: Seq<char>)
    ensures
        place_of(v, id) matches Some(i) ==> 0 <= i < v.len() && v[i].id == id,
        place_of(v, id) is None ==> forall|i: int| 0 <= i < v.len() ==> (#[trigger] v[i]).id != id,
    decreases v.len(),
{
    if v.len() > 0 {
        let t = v.drop_last();
        place_of_facts(t, id);
        if place_of(v, id) is None {
            assert forall|i: int| 0 <= i < v.len() implies (#[trigger] v[i]).id != id by {
                if i < t.len() {
                    assert(t[i] == v[i]);
                }
            }
        }
    }
}

fn find_profile(profiles: &[Profile], id: &str) -> (r: Option<usize>)
    ensures
        match r {
            Some(i) => i < profiles@.len() && place_of(profile::views(profiles@), id@) == Some(
                i as int,
            ),
            None => place_of(profile::views(profiles@), id@) is None,
        },
{
    let ghost all = profile::views(profiles@);
    let mut i: usize = 0;
    assert(all.take(0).len() == 0);
    while i < profiles.len()
        invariant
            i <= profiles@.len(),
            all == profile::views(profiles@),
            place_of(all.take(i as int), id@) is None,
        decreases profiles@.len() - i,
    {
        proof {
            assert(all.take(i + 1).drop_last() == all.take(i as int));
            assert(all.take(i + 1).last() == profiles@[i as int]@);
        }
        if text::same_text(profiles[i].id.as_str(), id) {
            proof {
                assert(place_of(all.take(i + 1), id@) == Some(i as int));
                first_place_stays(all, id@, i + 1);
            }
            return Some(i);
        }
        i = i + 1;
    }
    assert(all.take(i as int) == all);
    None
}

proof fn first_place_stays(v: Seq<ProfileView>, id: Seq<char>, n: int)
    requires
        0 <= n <= v.len(),
        place_of(v.take(n), id) is Some,
    ensures
        place_of(v, id) == place_of(v.take(n), id),
    decreases v.len(),
{
    if n < v.len() {
        assert(v.drop_last().take(n) == v.take(n));
        first_place_stays(v.drop_last(), id, n);
    } else {
        assert(v.take(n) == v);
    }
}

/// The profiles once an edited one is saved: in place of the one with its id,
/// or at the end.
pub open spec fn with_saved(v: Seq<ProfileView>, p: ProfileView) -> Seq<ProfileView> {
    match place_of(v, p.id) {
        Some(i) => v.update(i, p),
        None => v.push(p),
    }
}

/// The profiles without those that have an id.
pub open spec fn without(v: Seq<ProfileView>, id: Seq<char>) -> Seq<ProfileView>
    decreases v.len(),
{
    if v.len() == 0 {
        Seq::empty()
    } else {
        let before = without(v.drop_last(), id);
        if v.last().id == id {
            before
        } else {
            before.push(v.last())
        }
    }
}

/// Whether no two profiles have the same id.
pub open spec fn ids_differ(v: Seq<ProfileView>) -> bool {
    forall|i: int, j: int| 0 <= i < j < v.len() ==> (#[trigger] v[i]).id != (#[trigger] v[j]).id
}

/// Saving keeps ids apart and leaves every other profile as it was.
pub proof fn saving_touches_one_profile(v: Seq<ProfileView>, p: ProfileView)
    requires
        ids_differ(v),
    ensures
        ids_differ(with_saved(v, p)),
        with_saved(v, p).contains(p),
        forall|i: int|
            0 <= i < v.len() && (#[trigger] v[i]).id != p.id ==> with_saved(v, p)[i] == v[i],
{
    place_of_facts(v, p.id);
    let w = with_saved(v, p);
    match place_of(v, p.id) {
        Some(i) => {
            assert(w[i] == p);
        },
        None => {
            assert(w[v.len() as int] == p);
        },
    }
}

/// Deleting removes the profile and keeps the others in order.
pub proof fn deleting_removes_the_profile(v: Seq<ProfileView>, id: Seq<char>)
    ensures
        forall|i: int|
            0 <= i < without(v, id).len() ==> (#[trigger] without(v, id)[i]).id != id && v.contains(
                without(v, id)[i],
            ),
        forall|i: int|
            0 <= i < v.len() && (#[trigger] v[i]).id != id ==> without(v, id).contains(v[i]),
    decreases v.len(),
{
    if v.len() > 0 {
        let t = v.drop_last();
        deleting_removes_the_profile(t, id);
        let b = without(t, id);
        let w = without(v, id);
        assert forall|i: int| 0 <= i < w.len() implies (#[trigger] w[i]).id != id && v.contains(
            w[i],
        ) by {
            if i < b.len() {
                assert(w[i] == b[i]);
                let k = choose|k: int| 0 <= k < t.len() && t[k] == b[i];
                assert(v[k] == w[i]);
            } else {
                assert(v[v.len() - 1] == w[i]);
            }
        }
        assert forall|i: int| 0 <= i < v.len() && (#[trigger] v[i]).id != id implies w.contains(
            v[i],
        ) by {
            if i < t.len() {
                assert(t[i] == v[i]);
                let k = choose|k: int| 0 <= k < b.len() && b[k] == t[i];
                assert(w[k] == v[i]);
            } else {
                assert(w[b.len() as int] == v[i]);
            }
        }
    }
}

/// What polling a host brought.
#[derive(Debug, Clone)]
pub enum PollResult {
    Sessions(String, Vec<SessionInfo>),
    Error(String, String),
}

/// What the user does in the manager window, and what polling brings.
#[derive(Debug, Clone)]
pub enum ManagerEvent {
    /// Start a new profile under this fresh id.
    NewProfile(String),
    Select(String),
    Edit(String),
    AskDelete(String),
    SaveEdit,
    CancelEdit,
    ConfirmDelete,
    CancelDelete,
    Polled(PollResult),
    /// Open a new session on the selected host.
    NewSession,
    /// Resume a session of the selected host.
    Resume(String),
    /// Close a session of the selected host.
    CloseSession(String),
}

/// What is to be done about it.
#[derive(Debug, Clone)]
pub enum ManagerAction {
    Idle,
    /// Save the profiles, and tell the tray process where there is one.
    SaveProfiles,
    /// Ask the host to poll at once.
    PollNow,
    /// Launch the client with these arguments.
    Launch(Vec<String>),
}

/// The state of the manager window.
pub struct ManagerState {
    pub profiles: Vec<Profile>,
    /// The id of the profile that is shown.
    pub selected: Option<String>,
    pub edit: Option<EditState>,
    pub sessions: SessionTable,
    /// The profile whose host is polled: only the one that is looked at.
    pub poll_target: Option<Profile>,
    /// The id of the profile whose deletion is to be confirmed.
    pub delete_confirm: Option<String>,
}

/// A profile being edited, as texts.
pub ghost struct EditView {
    pub profile: ProfileView,
    pub is_new: bool,
    pub ssh_opts_text: Seq<char>,
}

/// The state of the manager window, as its contracts speak of it.
#[verifier::ext_equal]
pub ghost struct ManagerView {
    pub profiles: Seq<ProfileView>,
    pub selected: Option<Seq<char>>,
    pub edit: Option<EditView>,
    pub sessions: Map<Seq<char>, PollState>,
    pub poll_target: Option<ProfileView>,
    pub delete_confirm: Option<Seq<char>>,
}

impl View for ManagerState {
    type V = ManagerView;

    open spec fn view(&self) -> ManagerView {
        ManagerView {
            profiles: profile::views(self.profiles@),
            selected: text::optional(self.selected),
            edit: match self.edit {
                Some(e) => Some(
                    EditView {
                        profile: e.profile@,
                        is_new: e.is_new,
                        ssh_opts_text: e.ssh_opts_text@,
                    },
                ),
                None => None,
            },
            sessions: self.sessions@,
            poll_target: match self.poll_target {
                Some(p) => Some(p@),
                None => None,
            },
            delete_confirm: text::optional(self.delete_confirm),
        }
    }
}

/// The profile that is shown, where it still exists.
pub open spec fn shown_profile(s: ManagerView) -> Option<ProfileView> {
    match s.selected {
        Some(id) => match place_of(s.profiles, id) {
            Some(i) => Some(s.profiles[i]),
            None => None,
        },
        None => None,
    }
}

/// The state after a profile was selected: its sessions are loading, and its
/// host is the one to poll.
pub open spec fn selecting(s: ManagerView, id: Seq<char>) -> ManagerView {
    ManagerView {
        selected: Some(id),
        sessions: s.sessions.insert(id, PollState::Loading),
        poll_target: match place_of(s.profiles, id) {
            Some(i) => Some(s.profiles[i]),
            None => s.poll_target,
        },
        ..s
    }
}

/// The profile that an edit makes: its ssh options are the words of their
/// text.
pub open spec fn edited(e: EditView) -> ProfileView {
    ProfileView { ssh_opts: text::words(e.ssh_opts_text), ..e.profile }
}

/// The state after an edit was saved.
pub open spec fn saving(s: ManagerView) -> ManagerView {
    match s.edit {
        Some(e) => ManagerView { profiles: with_saved(s.profiles, edited(e)), edit: None, ..s },
        None => s,
    }
}

/// The state after a deletion was confirmed: nothing of the profile is left,
/// and where it was shown nothing is shown or polled any more.
pub open spec fn deleting(s: ManagerView) -> ManagerView {
    match s.delete_confirm {
        Some(id) => ManagerView {
            profiles: without(s.profiles, id),
            sessions: s.sessions.remove(id),
            selected: if s.selected == Some(id) {
                None
            } else {
                s.selected
            },
            poll_target: if s.selected == Some(id) {
                None
            } else {
                s.poll_target
            },
            delete_confirm: None,
            ..s
        },
        None => s,
    }
}

/// The state after starting to edit a profile.
pub open spec fn editing(s: ManagerView, p: ProfileView, is_new: bool) -> ManagerView {
    ManagerView {
        edit: Some(EditView { profile: p, is_new, ssh_opts_text: spaced(p.ssh_opts) }),
        ..s
    }
}

/// The state that follows an event.
pub open spec fn manager_after(s: ManagerView, event: ManagerEvent) -> ManagerView {
    match event {
        ManagerEvent::NewProfile(id) => editing(
            s,
            ProfileView {
                id: id@,
                display_name: "New profile"@,
                server: ""@,
                ssh: false,
                ssh_opts: Seq::empty(),
                tls: false,
                accept_invalid_certs: false,
                username: None,
                remember_password: false,
                password: None,
                width: 1280,
                height: 720,
                quality: 75,
                mode: "desktop"@,
                desktop_shell: None,
                codec: None,
            },
            true,
        ),
        ManagerEvent::Select(id) => selecting(s, id@),
        ManagerEvent::Edit(id) => match place_of(s.profiles, id@) {
            Some(i) => editing(s, s.profiles[i], false),
            None => s,
        },
        ManagerEvent::AskDelete(id) => ManagerView { delete_confirm: Some(id@), ..s },
        ManagerEvent::SaveEdit => saving(s),
        ManagerEvent::CancelEdit => ManagerView { edit: None, ..s },
        ManagerEvent::ConfirmDelete => deleting(s),
        ManagerEvent::CancelDelete => ManagerView { delete_confirm: None, ..s },
        ManagerEvent::Polled(PollResult::Sessions(id, list)) => ManagerView {
            sessions: s.sessions.insert(id@, PollState::Ready(list)),
            ..s
        },
        ManagerEvent::Polled(PollResult::Error(id, e)) => ManagerView {
            sessions: s.sessions.insert(id@, PollState::Error(e)),
            ..s
        },
        ManagerEvent::NewSession => s,
        ManagerEvent::Resume(_) => s,
        ManagerEvent::CloseSession(_) => s,
    }
}

/// Whether an action launches the client for the shown profile with some
/// options, or does nothing where no profile is shown.
pub open spec fn launches(s: ManagerView, extra: Seq<Seq<char>>, a: ManagerAction) -> bool {
    match shown_profile(s) {
        Some(p) => a matches ManagerAction::Launch(args) && text::texts(args@) == profile_args(
            p,
            extra,
        ),
        None => a is Idle,
    }
}

/// Whether an action is what an event asks for.
pub open spec fn manager_does(s: ManagerView, event: ManagerEvent, a: ManagerAction) -> bool {
    match event {
        ManagerEvent::Select(id) => if place_of(s.profiles, id@) is Some {
            a is PollNow
        } else {
            a is Idle
        },
        ManagerEvent::SaveEdit => if s.edit is Some {
            a is SaveProfiles
        } else {
            a is Idle
        },
        ManagerEvent::ConfirmDelete => if s.delete_confirm is Some {
            a is SaveProfiles
        } else {
            a is Idle
        },
        ManagerEvent::NewSession => launches(s, Seq::empty(), a),
        ManagerEvent::Resume(id) => launches(s, seq!["--attach"@, id@], a),
        ManagerEvent::CloseSession(id) => launches(s, seq!["--close"@, id@], a),
        _ => a is Idle,
    }
}

impl ManagerState {
    /// Starts with the saved profiles.
    pub fn new(profiles: Vec<Profile>) -> (m: ManagerState)
        ensures
            m.wf(),
            m@ == (ManagerView {
                profiles: profile::views(profiles@),
                selected: None,
                edit: None,
                sessions: Map::empty(),
                poll_target: None,
                delete_confirm: None,
            }),
    {
        ManagerState {
            profiles,
            selected: None,
            edit: None,
            sessions: SessionTable::new(),
            poll_target: None,
            delete_confirm: None,
        }
    }

    /// Whether the state is in order.
    pub open spec fn wf(&self) -> bool {
        self.sessions.wf()
    }

    /// The place of the profile that is shown. One that is gone is not shown
    /// any more.
    pub fn shown(&mut self) -> (r: Option<usize>)
        ensures
            match r {
                Some(i) => i < final(self).profiles@.len() && shown_profile(old(self)@) == Some(
                    final(self).profiles@[i as int]@,
                ) && *final(self) == *old(self),
                None => shown_profile(old(self)@) is None && final(self).selected is None
                    && *final(self) == (ManagerState { selected: None, ..*old(self) }),
            },
    {
        let found = match &self.selected {
            Some(id) => find_profile(&self.profiles, id.as_str()),
            None => None,
        };
        if found.is_none() {
            self.selected = None;
        }
        found
    }

    fn launch(&self, extra: Vec<String>) -> (a: ManagerAction)
        ensures
            launches(self@, text::texts(extra@), a),
    {
        let found = match &self.selected {
            Some(id) => find_profile(&self.profiles, id.as_str()),
            None => None,
        };
        match found {
            Some(i) => ManagerAction::Launch(client_args(&self.profiles[i], &extra)),
            None => ManagerAction::Idle,
        }
    }

    fn select(&mut self, id: String) -> (a: ManagerAction)
        requires
            old(self).wf(),
        ensures
            final(self).wf(),
            final(self)@ == selecting(old(self)@, id@),
            a == (if place_of(old(self)@.profiles, id@) is Some {
                ManagerAction::PollNow
            } else {
                ManagerAction::Idle
            }),
    {
        self.sessions.insert(id.as_str(), PollState::Loading);
        let found = find_profile(&self.profiles, id.as_str());
        self.selected = Some(id);
        match found {
            Some(i) => {
                self.poll_target = Some(self.profiles[i].copy());
                ManagerAction::PollNow
            },
            None => ManagerAction::Idle,
        }
    }

    fn save_edit(&mut self) -> (a: ManagerAction)
        requires
            old(self).wf(),
        ensures
            final(self).wf(),
            final(self)@ == saving(old(self)@),
            a == (if old(self).edit is Some {
                ManagerAction::SaveProfiles
            } else {
                ManagerAction::Idle
            }),
    {
        match self.edit.take() {
            Some(e) => {
                let ghost view = EditView {
                    profile: e.profile@,
                    is_new: e.is_new,
                    ssh_opts_text: e.ssh_opts_text@,
                };
                let mut p = e.profile;
                let rows = text::split_words(&text::chars_of(e.ssh_opts_text.as_str()));
                p.ssh_opts = text::rows_to_texts(&rows, 0);
                proof {
                    assert(text::char_rows(rows@).skip(0) == text::char_rows(rows@));
                    assert(p@ == edited(view));
                }
                let ghost before = self.profiles@;
                match find_profile(&self.profiles, p.id.as_str()) {
                    Some(i) => {
                        let ghost new = p@;
                        self.profiles.set(i, p);
                        assert(profile::views(self.profiles@) == profile::views(before).update(
                            i as int,
                            new,
                        ));
                    },
                    None => {
                        let ghost new = p@;
                        self.profiles.push(p);
                        assert(profile::views(self.profiles@) == profile::views(before).push(new));
                    },
                }
                ManagerAction::SaveProfiles
            },
            None => ManagerAction::Idle,
        }
    }

    fn drop_profiles(&mut self, id: &str)
        ensures
            profile::views(final(self).profiles@) == without(
                profile::views(old(self).profiles@),
                id@,
            ),
            *final(self) == (ManagerState { profiles: final(self).profiles, ..*old(self) }),
    {
        let ghost all = profile::views(self.profiles@);
        let mut kept: Vec<Profile> = Vec::new();
        let mut i: usize = 0;
        assert(profile::views(kept@) == without(all.take(0), id@));
        while i < self.profiles.len()
            invariant
                i <= self.profiles@.len(),
                all == profile::views(self.profiles@),
                *self == *old(self),
                profile::views(kept@) == without(all.take(i as int), id@),
            decreases self.profiles@.len() - i,
        {
            let ghost before = kept@;
            proof {
                assert(all.take(i + 1).drop_last() == all.take(i as int));
                assert(all.take(i + 1).last() == self.profiles@[i as int]@);
            }
            if !text::same_text(self.profiles[i].id.as_str(), id) {
                let p = self.profiles[i].copy();
                kept.push(p);
                assert(profile::views(kept@) == profile::views(before).push(p@));
            }
            i = i + 1;
        }
        assert(all.take(i as int) == all);
        self.profiles = kept;
    }

    fn confirm_delete(&mut self) -> (a: ManagerAction)
        requires
            old(self).wf(),
        ensures
            final(self).wf(),
            final(self)@ == deleting(old(self)@),
            a == (if old(self).delete_confirm is Some {
                ManagerAction::SaveProfiles
            } else {
                ManagerAction::Idle
            }),
    {
        match self.delete_confirm.take() {
            Some(id) => {
                self.drop_profiles(id.as_str());
                self.sessions.remove(id.as_str());
                let was_shown = match &self.selected {
                    Some(s) => text::same_text(s.as_str(), id.as_str()),
                    None => false,
                };
                if was_shown {
                    self.selected = None;
                    self.poll_target = None;
                }
                assert(self@ =~= deleting(old(self)@));
                ManagerAction::SaveProfiles
            },
            None => ManagerAction::Idle,
        }
    }

    /// Takes an event.
    pub fn update(&mut self, event: ManagerEvent) -> (a: ManagerAction)
        requires
            old(self).wf(),
        ensures
            final(self).wf(),
            final(self)@ == manager_after(old(self)@, event),
            manager_does(old(self)@, event, a),
    {
        match event {
            ManagerEvent::NewProfile(id) => {
                self.edit = Some(EditState::from_profile(Profile::new_default(id), true));
                ManagerAction::Idle
            },
            ManagerEvent::Select(id) => self.select(id),
            ManagerEvent::Edit(id) => {
                if let Some(i) = find_profile(&self.profiles, id.as_str()) {
                    self.edit = Some(EditState::from_profile(self.profiles[i].copy(), false));
                }
                ManagerAction::Idle
            },
            ManagerEvent::AskDelete(id) => {
                self.delete_confirm = Some(id);
                ManagerAction::Idle
            },
            ManagerEvent::SaveEdit => self.save_edit(),
            ManagerEvent::CancelEdit => {
                self.edit = None;
                ManagerAction::Idle
            },
            ManagerEvent::ConfirmDelete => self.confirm_delete(),
            ManagerEvent::CancelDelete => {
                self.delete_confirm = None;
                ManagerAction::Idle
            },
            ManagerEvent::Polled(result) => {
                match result {
                    PollResult::Sessions(id, list) => {
                        self.sessions.insert(id.as_str(), PollState::Ready(list));
                    },
                    PollResult::Error(id, e) => {
                        self.sessions.insert(id.as_str(), PollState::Error(e));
                    },
                }
                ManagerAction::Idle
            },
            ManagerEvent::NewSession => {
                let extra: Vec<String> = Vec::new();
                assert(text::texts(extra@) == Seq::<Seq<char>>::empty());
                self.launch(extra)
            },
            ManagerEvent::Resume(id) => {
                let mut extra: Vec<String> = Vec::new();
                text::push_text(&mut extra, "--attach");
                text::push_text(&mut extra, id.as_str());
                assert(text::texts(extra@) == seq!["--attach"@, id@]);
                self.launch(extra)
            },
            ManagerEvent::CloseSession(id) => {
                let mut extra: Vec<String> = Vec::new();
                text::push_text(&mut extra, "--close");
                text::push_text(&mut extra, id.as_str());
                assert(text::texts(extra@) == seq!["--close"@, id@]);
                self.launch(extra)
            },
        }
    }
}

/// What the tray process reacts to.
#[derive(Debug, Clone, Copy, PartialEq, Eq, Structural)]
pub enum HostEvent {
    /// The window is wanted.
    Show,
    /// The program is to end.
    Quit,
    /// The window process with this id has exited.
    WindowClosed(u32),
}

/// What the tray process does.
#[derive(Debug, Clone, Copy, PartialEq, Eq, Structural)]
pub enum HostAction {
    /// Tell the window process to come forward.
    Raise,
    /// Start a window process.
    Open,
    /// Collect the window process that exited.
    Reap,
    /// Close the window process, and end.
    CloseAndExit,
    /// End.
    Exit,
    Idle,
}

/// The tray process: the window process that it owns, if there is one.
#[derive(Debug, Clone, Copy, PartialEq, Eq, Structural)]
pub struct TrayHost {
    pub window: Option<u32>,
}

/// Whether this is what the tray process does about an event. Only the exit of
/// the current window counts: that of one closed just before a new one opened
/// does not orphan the new one.
pub open spec fn host_reacts(
    before: TrayHost,
    event: HostEvent,
    after: TrayHost,
    a: HostAction,
) -> bool {
    match event {
        HostEvent::Show => {
            &&& a == (if before.window is Some {
                HostAction::Raise
            } else {
                HostAction::Open
            })
            &&& after == before
        },
        HostEvent::WindowClosed(pid) => if before.window == Some(pid) {
            a == HostAction::Reap && after.window is None
        } else {
            a == HostAction::Idle && after == before
        },
        HostEvent::Quit => {
            &&& a == (if before.window is Some {
                HostAction::CloseAndExit
            } else {
                HostAction::Exit
            })
            &&& after.window is None
        },
    }
}

/// There is one window at most: none is opened while there is one, and the one
/// there is stays until it exits itself or the program ends.
pub proof fn there_is_one_window(
    before: TrayHost,
    event: HostEvent,
    after: TrayHost,
    a: HostAction,
)
    requires
        host_reacts(before, event, after, a),
        before.window is Some,
    ensures
        a != HostAction::Open,
        after.window == before.window || a == HostAction::Reap || a == HostAction::CloseAndExit,
        a == HostAction::Reap ==> event == HostEvent::WindowClosed(before.window->0),
        a == HostAction::CloseAndExit ==> event == HostEvent::Quit,
{
}

impl TrayHost {
    /// Takes an event.
    pub fn event(&mut self, event: HostEvent) -> (a: HostAction)
        ensures
            host_reacts(*old(self), event, *final(self), a),
    {
        match event {
            HostEvent::Show => match self.window {
                Some(_) => HostAction::Raise,
                None => HostAction::Open,
            },
            HostEvent::WindowClosed(pid) => match self.window {
                Some(w) => {
                    if w == pid {
                        self.window = None;
                        HostAction::Reap
                    } else {
                        HostAction::Idle
                    }
                },
                None => HostAction::Idle,
            },
            HostEvent::Quit => match self.window {
                Some(_) => {
                    self.window = None;
                    HostAction::CloseAndExit
                },
                None => HostAction::Exit,
            },
        }
    }

    /// Notes what came of starting a window process.
    pub fn opened(&mut self, pid: Option<u32>)
        ensures
            final(self).window == pid,
    {
        self.window = pid;
    }
}

/// Tray process to window process: come forward.
pub const MSG_SHOW: &'static str = "show";

/// Tray process to window process: close and exit.
pub const MSG_QUIT: &'static str = "quit";

/// Window process to tray process: the profiles changed. The window's log goes
/// the same way, so the message has a name of its own.
pub const MSG_PROFILES_CHANGED: &'static str = "termland-manager:profiles-changed";

/// What a line from the tray process asks of the window.
#[derive(Debug, Clone, Copy, PartialEq, Eq, Structural)]
pub enum WindowRequest {
    Show,
    Quit,
    Ignore,
}

/// Reads a line from the tray process. A line that cannot be read means that
/// the tray process is gone, and the window goes with it.
pub fn window_request(line: Option<&str>) -> (r: WindowRequest)
    ensures
        r == (match line {
            Some(l) => if text::trimmed(l@) == "show"@ {
                WindowRequest::Show
            } else if text::trimmed(l@) == "quit"@ {
                WindowRequest::Quit
            } else {
                WindowRequest::Ignore
            },
            None => WindowRequest::Quit,
        }),
{
    match line {
        Some(l) => {
            let t = text::trim(&text::chars_of(l));
            if text::chars_equal(&t, &text::chars_of("show")) {
                WindowRequest::Show
            } else if text::chars_equal(&t, &text::chars_of("quit")) {
                WindowRequest::Quit
            } else {
                WindowRequest::Ignore
            }
        },
        None => WindowRequest::Quit,
    }
}

/// Whether a line from the window process says that the profiles changed;
/// otherwise it is log output.
pub fn says_profiles_changed(line: &str) -> (b: bool)
    ensures
        b == (line@ == "termland-manager:profiles-changed"@),
{
    text::same_text(line, "termland-manager:profiles-changed")
}

/// How a launch of the manager goes on.
#[derive(Debug, Clone, Copy, PartialEq, Eq, Structural)]
pub enum Launch {
    /// Run as the manager.
    Run,
    /// Ask the running manager to show itself, and exit.
    ShowOther,
    /// Exit: there is nothing to do.
    Exit,
}

/// Decides how a launch goes on. Where another manager runs, a start at login
/// has nothing to do, and any other start wants to see it.
pub fn launch_decision(other_runs: bool, minimized: bool) -> (l: Launch)
    ensures
        l == (if !other_runs {
            Launch::Run
        } else if minimized {
            Launch::Exit
        } else {
            Launch::ShowOther
        }),
{
    if !other_runs {
        Launch::Run
    } else if minimized {
        Launch::Exit
    } else {
        Launch::ShowOther
    }
}

/// What is asked of a host, for a profile.
#[derive(Debug, Clone)]
pub struct PollRequest {
    pub profile_id: String,
    pub server: String,
    pub ssh: bool,
    pub params: ConnectParams,
}

/// How often the host that is looked at is polled, in seconds.
pub const POLL_SECS: u64 = 5;

/// What is asked of a profile's host.
pub fn poll_request(p: &Profile) -> (r: PollRequest)
    ensures
        r.profile_id == p.id,
        r.server == p.server,
        r.ssh == p.ssh,
        params_of(*p, r.params),
{
    PollRequest {
        profile_id: p.id.clone(),
        server: p.server.clone(),
        ssh: p.ssh,
        params: connect_params_for_profile(p),
    }
}

/// How a profile's host is reached.
pub open spec fn route_text(p: ProfileView) -> Seq<char> {
    (if p.ssh {
        "ssh"@
    } else if p.tls {
        "tls"@
    } else {
        "tcp"@
    }) + " "@ + p.server
}

/// Says how a profile's host is reached.
pub fn route_label(p: &Profile) -> (s: String)
    ensures
        s@ == route_text(p@),
{
    let mut out = text::chars_of(
        if p.ssh {
            "ssh"
        } else if p.tls {
            "tls"
        } else {
            "tcp"
        },
    );
    text::push_str(&mut out, " ");
    text::push_str(&mut out, p.server.as_str());
    text::text_of(&out)
}

/// The cells of a session in the window: id, mode, size, age, and whether a
/// client is attached.
pub open spec fn session_cells(s: SessionInfo) -> Seq<Seq<char>> {
    seq![
        s.session_id@,
        s.mode@,
        text::decimal(s.width as nat) + "x"@ + text::decimal(s.height as nat),
        connection::age_text(s.age_secs),
        if s.attached {
            "yes"@
        } else {
            "no"@
        },
    ]
}

/// Writes the cells of a session in the window.
pub fn session_row(s: &SessionInfo) -> (row: Vec<String>)
    ensures
        text::texts(row@) == session_cells(*s),
{
    let mut row: Vec<String> = Vec::new();
    assert(text::texts(row@) == Seq::<Seq<char>>::empty());
    text::push_text(&mut row, s.session_id.as_str());
    text::push_text(&mut row, s.mode.as_str());
    let mut size = text::decimal_chars(s.width as u64);
    text::push_str(&mut size, "x");
    let mut h = text::decimal_chars(s.height as u64);
    size.append(&mut h);
    text::push_text(&mut row, text::text_of(&size).as_str());
    text::push_text(&mut row, connection::format_age(s.age_secs).as_str());
    text::push_text(
        &mut row,
        if s.attached {
            "yes"
        } else {
            "no"
        },
    );
    assert(text::texts(row@) == session_cells(*s));
    row
}

/// How often the tray process looks whether its window process has gone, a
/// tenth of a second apart, before it ends it.
pub const CLOSE_POLLS: u32 = 20;

/// What the tray process does about a window process that it told to close.
#[derive(Debug, Clone, Copy, PartialEq, Eq, Structural)]
pub enum CloseStep {
    /// It has gone.
    Done,
    /// Look again in a tenth of a second.
    Wait,
    /// End it: a window that is not drawn may never act on the request.
    Kill,
}

/// Decides about a window process that was told to close, after some looks.
pub fn close_step(exited: bool, polls: u32) -> (s: CloseStep)
    ensures
        s == (if polls >= CLOSE_POLLS {
            CloseStep::Kill
        } else if exited {
            CloseStep::Done
        } else {
            CloseStep::Wait
        }),
{
    if polls >= CLOSE_POLLS {
        CloseStep::Kill
    } else if exited {
        CloseStep::Done
    } else {
        CloseStep::Wait
    }
}

/// Whether an option stands on a command line with its value behind it.
pub open spec fn has_option(args: Seq<Seq<char>>, name: Seq<char>, value: Seq<char>) -> bool {
    exists|i: int| 0 <= i < args.len() - 1 && #[trigger] args[i] == name && args[i + 1] == value
}

proof fn words_stay_in_a_longer_line(line: Seq<Seq<char>>, more: Seq<Seq<char>>)
    ensures
        forall|n: Seq<char>, v: Seq<char>|
            has_option(line, n, v) ==> #[trigger] has_option(line + more, n, v),
        forall|n: Seq<char>, v: Seq<char>|
            has_option(more, n, v) ==> #[trigger] has_option(line + more, n, v),
        forall|w: Seq<char>|
            line.contains(w) || more.contains(w) ==> #[trigger] (line + more).contains(w),
{
    let all = line + more;
    assert forall|n: Seq<char>, v: Seq<char>| has_option(line, n, v) implies #[trigger] has_option(
        all,
        n,
        v,
    ) by {
        let i = choose|i: int| 0 <= i < line.len() - 1 && #[trigger] line[i] == n && line[i + 1] == v;
        assert(all[i] == n && all[i + 1] == v);
    }
    assert forall|n: Seq<char>, v: Seq<char>| has_option(more, n, v) implies #[trigger] has_option(
        all,
        n,
        v,
    ) by {
        let i = choose|i: int| 0 <= i < more.len() - 1 && #[trigger] more[i] == n && more[i + 1] == v;
        let k = line.len() + i;
        assert(all[k] == n && all[k + 1] == v);
    }
    assert forall|w: Seq<char>| line.contains(w) || more.contains(w) implies #[trigger] all.contains(
        w,
    ) by {
        if line.contains(w) {
            let i = choose|i: int| 0 <= i < line.len() && line[i] == w;
            assert(all[i] == w);
        } else {
            let i = choose|i: int| 0 <= i < more.len() && more[i] == w;
            assert(all[line.len() + i] == w);
        }
    }
}

proof fn ssh_options_are_listed(opts: Seq<Seq<char>>, k: int)
    requires
        0 <= k < opts.len(),
    ensures
        ssh_opt_args(opts).len() == 2 * opts.len(),
        ssh_opt_args(opts)[2 * k] == "--ssh-opt"@,
        ssh_opt_args(opts)[2 * k + 1] == opts[k],
    decreases opts.len(),
{
    if opts.len() == 1 {
        assert(opts.drop_last().len() == 0);
        assert(ssh_opt_args(opts.drop_last()) =~= Seq::empty());
    } else if k < opts.len() - 1 {
        ssh_options_are_listed(opts.drop_last(), k);
    } else {
        ssh_options_are_listed(opts.drop_last(), 0);
    }
}

/// A client is started with what its profile says: the way to the server, every
/// SSH option, the login where it is kept, the size, the mode, the quality, the
/// codec and the desktop's command, and at the end the server itself.
pub proof fn clients_start_as_their_profile_says(
    profile: &Profile,
    extra: &[String],
    args: Vec<String>,
)
    requires
        call_ensures(client_args, (profile, extra), args),
    ensures
        ({
            let a = text::texts(args@);
            let p = profile@;
            &&& a.len() > 0 && a.last() == p.server
            &&& p.ssh ==> a.contains("--ssh"@)
            &&& p.tls ==> a.contains("--tls"@)
            &&& p.accept_invalid_certs ==> a.contains("--accept-invalid-certs"@)
            &&& forall|k: int|
                0 <= k < p.ssh_opts.len() ==> has_option(
                    a,
                    "--ssh-opt"@,
                    #[trigger] p.ssh_opts[k],
                )
            &&& p.username matches Some(u) ==> has_option(a, "--user"@, u)
            &&& p.remember_password ==> (p.password matches Some(w) ==> has_option(
                a,
                "--password"@,
                w,
            ))
            &&& has_option(a, "--width"@, text::decimal(p.width as nat))
            &&& has_option(a, "--height"@, text::decimal(p.height as nat))
            &&& has_option(a, "--mode"@, p.mode)
            &&& has_option(a, "--quality"@, text::decimal(p.quality as nat))
            &&& p.codec matches Some(c) ==> has_option(a, "--codec"@, c)
            &&& p.desktop_shell matches Some(s) ==> has_option(a, "--desktop-shell"@, s)
            &&& a.len() > extra@.len()
            &&& a.subrange(a.len() - 1 - extra@.len(), a.len() - 1) == text::texts(extra@)
        }),
{
    let p = profile@;
    let e = text::texts(extra@);
    let a = text::texts(args@);
    extra_options_stand_before_the_server(p, e);
    let a0 = flag(p.ssh, "--ssh"@);
    let a1 = ssh_opt_args(p.ssh_opts);
    let a2 = flag(p.tls, "--tls"@);
    let a3 = flag(p.accept_invalid_certs, "--accept-invalid-certs"@);
    let a4 = valued("--user"@, p.username);
    let a5 = valued(
        "--password"@,
        if p.remember_password {
            p.password
        } else {
            None
        },
    );
    let a6 = seq![
        "--width"@,
        text::decimal(p.width as nat),
        "--height"@,
        text::decimal(p.height as nat),
        "--mode"@,
        p.mode,
        "--quality"@,
        text::decimal(p.quality as nat),
    ];
    let a7 = valued("--codec"@, p.codec);
    let a8 = valued("--desktop-shell"@, p.desktop_shell);
    let end = seq![p.server];
    assert(p.ssh ==> a0[0] == "--ssh"@);
    assert(p.tls ==> a2[0] == "--tls"@);
    assert(p.accept_invalid_certs ==> a3[0] == "--accept-invalid-certs"@);
    assert(p.username matches Some(u) ==> a4[0] == "--user"@ && a4[1] == u);
    assert(p.remember_password ==> (p.password matches Some(w) ==> a5[0] == "--password"@ && a5[1]
        == w));
    assert(a6[0] == "--width"@ && a6[2] == "--height"@ && a6[4] == "--mode"@ && a6[6]
        == "--quality"@);
    assert(p.codec matches Some(c) ==> a7[0] == "--codec"@ && a7[1] == c);
    assert(p.desktop_shell matches Some(c) ==> a8[0] == "--desktop-shell"@ && a8[1] == c);
    assert forall|k: int| 0 <= k < p.ssh_opts.len() implies has_option(
        a1,
        "--ssh-opt"@,
        #[trigger] p.ssh_opts[k],
    ) by {
        ssh_options_are_listed(p.ssh_opts, k);
    }
    words_stay_in_a_longer_line(a0, a1);
    words_stay_in_a_longer_line(a0 + a1, a2);
    words_stay_in_a_longer_line(a0 + a1 + a2, a3);
    words_stay_in_a_longer_line(a0 + a1 + a2 + a3, a4);
    words_stay_in_a_longer_line(a0 + a1 + a2 + a3 + a4, a5);
    words_stay_in_a_longer_line(a0 + a1 + a2 + a3 + a4 + a5, a6);
    words_stay_in_a_longer_line(a0 + a1 + a2 + a3 + a4 + a5 + a6, a7);
    words_stay_in_a_longer_line(a0 + a1 + a2 + a3 + a4 + a5 + a6 + a7, a8);
    words_stay_in_a_longer_line(a0 + a1 + a2 + a3 + a4 + a5 + a6 + a7 + a8, e);
    words_stay_in_a_longer_line(a0 + a1 + a2 + a3 + a4 + a5 + a6 + a7 + a8 + e, end);
}

/// A connection goes by its profile too: the same mode, size, quality, options,
/// login and codec. Encryption is on where certificates are not checked, and a
/// password that is not kept is not used.
pub proof fn connections_go_by_their_profile(p: &Profile, c: ConnectParams, r: PollRequest)
    requires
        call_ensures(connect_params_for_profile, (p,), c),
        call_ensures(poll_request, (p,), r),
    ensures
        c.width == p.width && c.height == p.height && c.quality == p.quality,
        text::texts(c.ssh_opts@) == text::texts(p.ssh_opts@),
        p.tls ==> c.tls,
        p.accept_invalid_certs ==> c.tls && c.accept_invalid_certs,
        !p.accept_invalid_certs ==> !c.accept_invalid_certs && c.tls == p.tls,
        c.username == p.username,
        p.remember_password ==> c.password == p.password,
        !p.remember_password ==> c.password is None,
        c.desktop_shell == p.desktop_shell,
        c.attach is None,
        c.reconnect,
        !c.audio,
        p.codec is None ==> c.codec is None,
        c.mode@ == mode_of(p.mode@),
        r.profile_id == p.id && r.server == p.server && r.ssh == p.ssh,
        r.params.width == p.width && r.params.height == p.height && r.params.username == p.username,
        r.params.accept_invalid_certs == p.accept_invalid_certs && r.params.attach is None,
        !p.remember_password ==> r.params.password is None,
{
}

/// A mode that names an application runs it with its arguments; every other is
/// a desktop.
pub proof fn modes_name_their_application(mode: &str, m: SessionMode)
    requires
        call_ensures(session_mode_for, (mode,), m),
    ensures
        m matches SessionMode::App { command, args } ==> {
            &&& mode@.len() > 4
            &&& mode@[0] == 'a' && mode@[1] == 'p' && mode@[2] == 'p' && mode@[3] == ':'
            &&& text::words(mode@.skip(4)) == seq![command@] + text::texts(args@)
        },
        mode@.len() > 4 && mode@[0] == 'a' && mode@[1] == 'p' && mode@[2] == 'p' && mode@[3] == ':'
            && text::words(mode@.skip(4)).len() > 0 ==> m is App,
        m is Desktop || m is App,
{
    reveal_strlit("app:");
    reveal_strlit("desktop");
    let w = text::words(mode@.skip(4));
    if let SessionMode::App { command, args } = m {
        assert(mode@.take(4)[0] == mode@[0] && mode@.take(4)[1] == mode@[1] && mode@.take(4)[2]
            == mode@[2] && mode@.take(4)[3] == mode@[3]);
        assert(w =~= seq![w[0]] + w.skip(1));
        if mode@.len() <= 4 {
            assert(mode@.skip(4) =~= Seq::empty());
        }
    } else if mode@.len() > 4 && mode@[0] == 'a' && mode@[1] == 'p' && mode@[2] == 'p' && mode@[3]
        == ':' {
        assert(mode@.take(4) =~= "app:"@);
        assert(mode@ != "desktop"@);
    }
}

/// Each codec has its name, two of them another one too, and no name stands for
/// two codecs.
pub proof fn codecs_have_their_names(name: &str, c: Option<VideoCodec>)
    requires
        call_ensures(codec_from_name, (name,), c),
    ensures
        name@ == "av1"@ ==> c == Some(VideoCodec::Av1),
        name@ == "vp9"@ ==> c == Some(VideoCodec::Vp9),
        name@ == "vp8"@ ==> c == Some(VideoCodec::Vp8),
        name@ == "h265"@ || name@ == "hevc"@ ==> c == Some(VideoCodec::H265),
        name@ == "h264"@ || name@ == "avc"@ ==> c == Some(VideoCodec::H264),
        c is Some ==> name@ == "av1"@ || name@ == "vp9"@ || name@ == "vp8"@ || name@ == "h265"@
            || name@ == "hevc"@ || name@ == "h264"@ || name@ == "avc"@,
{
    reveal_strlit("av1");
    reveal_strlit("vp9");
    reveal_strlit("vp8");
    reveal_strlit("h265");
    reveal_strlit("hevc");
    reveal_strlit("h264");
    reveal_strlit("avc");
    assert("av1"@[0] == 'a' && "vp9"@[0] == 'v' && "vp8"@[0] == 'v' && "avc"@[0] == 'a');
    assert("av1"@[2] == '1' && "avc"@[2] == 'c' && "vp9"@[2] == '9' && "vp8"@[2] == '8');
    assert("h265"@.len() == 4 && "hevc"@.len() == 4 && "h264"@.len() == 4);
    assert("h265"@[3] == '5' && "h264"@[3] == '4' && "hevc"@[3] == 'c');
}

/// What was polled of a profile is what is found under it, and of no other.
pub proof fn tables_hold_what_was_put_in()
    ensures
        forall|t: &mut SessionTable, id: &str, state: PollState| #[trigger]
            call_ensures(SessionTable::insert, (t, id, state), ()) && t.wf() ==> {
                &&& final(t)@.dom().contains(id@) && final(t)@[id@] == state
                &&& forall|k: Seq<char>|
                    k != id@ ==> (#[trigger] final(t)@.dom().contains(k) <==> t@.dom().contains(k))
                &&& forall|k: Seq<char>|
                    k != id@ && t@.dom().contains(k) ==> #[trigger] final(t)@[k] == t@[k]
            },
        forall|t: &mut SessionTable, id: &str| #[trigger]
            call_ensures(SessionTable::remove, (t, id), ()) && t.wf() ==> {
                &&& !final(t)@.dom().contains(id@)
                &&& forall|k: Seq<char>|
                    k != id@ ==> (#[trigger] final(t)@.dom().contains(k) <==> t@.dom().contains(k))
                &&& forall|k: Seq<char>|
                    k != id@ && t@.dom().contains(k) ==> #[trigger] final(t)@[k] == t@[k]
            },
        forall|t: &SessionTable, id: &str, r: Option<&PollState>| #[trigger]
            call_ensures(SessionTable::get, (t, id), r) && t.wf() ==> {
                &&& r is Some <==> t@.dom().contains(id@)
                &&& r matches Some(s) ==> *s == t@[id@]
            },
{
}

proof fn place_is_found(v: Seq<ProfileView>, id: Seq<char>)
    ensures
        place_of(v, id) matches Some(i) ==> 0 <= i < v.len() && v[i].id == id,
        place_of(v, id) is None ==> forall|k: int| 0 <= k < v.len() ==> (#[trigger] v[k]).id != id,
    decreases v.len(),
{
    if v.len() > 0 {
        let t = v.drop_last();
        place_is_found(t, id);
        if place_of(v, id) is None {
            assert forall|k: int| 0 <= k < v.len() implies (#[trigger] v[k]).id != id by {
                if k < t.len() {
                    assert(t[k] == v[k]);
                }
            }
        }
    }
}

/// Saving puts what was edited among the profiles, with its options read from
/// the text of the form, and keeps the others; the list is then written. A
/// cancelled edit changes nothing.
pub proof fn saved_profiles_are_kept()
    ensures
        forall|m: &mut ManagerState, a: ManagerAction| #[trigger]
            call_ensures(ManagerState::update, (m, ManagerEvent::SaveEdit), a) && m.wf() ==> {
                &&& m@.edit matches Some(e) ==> {
                    &&& a is SaveProfiles
                    &&& final(m)@.edit is None
                    &&& final(m)@.profiles.contains(
                        (ProfileView { ssh_opts: text::words(e.ssh_opts_text), ..e.profile }),
                    )
                    &&& forall|i: int|
                        0 <= i < m@.profiles.len() && (#[trigger] m@.profiles[i]).id != e.profile.id
                            ==> i < final(m)@.profiles.len() && final(m)@.profiles[i]
                            == m@.profiles[i]
                    &&& final(m)@.profiles.len() <= m@.profiles.len() + 1
                }
                &&& m@.edit is None ==> a is Idle && final(m)@.profiles == m@.profiles
                &&& final(m)@.selected == m@.selected && final(m)@.sessions == m@.sessions
            },
        forall|m: &mut ManagerState, a: ManagerAction| #[trigger]
            call_ensures(ManagerState::update, (m, ManagerEvent::CancelEdit), a) && m.wf() ==> {
                &&& a is Idle
                &&& final(m)@.edit is None
                &&& final(m)@.profiles == m@.profiles && final(m)@.selected == m@.selected
            },
{
    assert forall|m: &mut ManagerState, a: ManagerAction| #[trigger]
        call_ensures(ManagerState::update, (m, ManagerEvent::SaveEdit), a) && m.wf() && (
        m@.edit matches Some(e)) implies (m@.edit matches Some(e) && {
        &&& final(m)@.profiles.contains(
            (ProfileView { ssh_opts: text::words(e.ssh_opts_text), ..e.profile }),
        )
        &&& forall|i: int|
            0 <= i < m@.profiles.len() && (#[trigger] m@.profiles[i]).id != e.profile.id ==> i
                < final(m)@.profiles.len() && final(m)@.profiles[i] == m@.profiles[i]
        &&& final(m)@.profiles.len() <= m@.profiles.len() + 1
    }) by {
        let e = m@.edit->0;
        let p = edited(e);
        let v = m@.profiles;
        place_is_found(v, p.id);
        match place_of(v, p.id) {
            Some(i) => {
                assert(v.update(i, p)[i] == p);
            },
            None => {
                assert(v.push(p)[v.len() as int] == p);
            },
        }
    }
}

/// A profile goes only once its deletion was confirmed, and then alone: with
/// what was known of its sessions, and out of the selection.
pub proof fn deletions_are_confirmed()
    ensures
        forall|m: &mut ManagerState, a: ManagerAction| #[trigger]
            call_ensures(ManagerState::update, (m, ManagerEvent::ConfirmDelete), a) && m.wf() ==> {
                &&& m@.delete_confirm matches Some(id) ==> {
                    &&& a is SaveProfiles
                    &&& forall|i: int|
                        0 <= i < final(m)@.profiles.len() ==> (#[trigger] final(m)@.profiles[i]).id
                            != id
                    &&& forall|i: int|
                        0 <= i < m@.profiles.len() && (#[trigger] m@.profiles[i]).id != id
                            ==> final(m)@.profiles.contains(m@.profiles[i])
                    &&& !final(m)@.sessions.dom().contains(id)
                    &&& final(m)@.selected != Some(id)
                    &&& m@.selected != Some(id) ==> final(m)@.selected == m@.selected
                    &&& final(m)@.delete_confirm is None
                }
                &&& m@.delete_confirm is None ==> a is Idle && final(m)@.profiles == m@.profiles
            },
        forall|m: &mut ManagerState, id: String, a: ManagerAction| #[trigger]
            call_ensures(ManagerState::update, (m, ManagerEvent::AskDelete(id)), a) && m.wf() ==> {
                &&& a is Idle
                &&& final(m)@.delete_confirm == Some(id@)
                &&& final(m)@.profiles == m@.profiles
            },
        forall|m: &mut ManagerState, a: ManagerAction| #[trigger]
            call_ensures(ManagerState::update, (m, ManagerEvent::CancelDelete), a) && m.wf() ==> {
                &&& a is Idle
                &&& final(m)@.delete_confirm is None
                &&& final(m)@.profiles == m@.profiles
            },
{
    assert forall|m: &mut ManagerState, a: ManagerAction| #[trigger]
        call_ensures(ManagerState::update, (m, ManagerEvent::ConfirmDelete), a) && m.wf() && (
        m@.delete_confirm matches Some(id)) implies (m@.delete_confirm matches Some(id) && {
        &&& forall|i: int|
            0 <= i < final(m)@.profiles.len() ==> (#[trigger] final(m)@.profiles[i]).id != id
        &&& forall|i: int|
            0 <= i < m@.profiles.len() && (#[trigger] m@.profiles[i]).id != id
                ==> final(m)@.profiles.contains(m@.profiles[i])
    }) by {
        deleting_removes_the_profile(m@.profiles, m@.delete_confirm->0);
    }
}

/// A profile that is selected is shown and asked about; what is reported of a
/// host is kept under it and under no other. Editing starts from the profile
/// as it is, and a new one with settings that suit most.
pub proof fn selections_are_asked_about()
    ensures
        forall|m: &mut ManagerState, id: String, a: ManagerAction| #[trigger]
            call_ensures(ManagerState::update, (m, ManagerEvent::Select(id)), a) && m.wf() ==> {
                &&& final(m)@.selected == Some(id@)
                &&& final(m)@.sessions.dom().contains(id@) && final(m)@.sessions[id@]
                    == PollState::Loading
                &&& final(m)@.profiles == m@.profiles
                &&& (exists|i: int| 0 <= i < m@.profiles.len() && (#[trigger] m@.profiles[i]).id
                    == id@) ==> {
                    &&& a is PollNow
                    &&& final(m)@.poll_target matches Some(p)
                    &&& p.id == id@ && m@.profiles.contains(p)
                }
            },
        forall|m: &mut ManagerState, id: String, list: Vec<SessionInfo>, a: ManagerAction| #[trigger]
            call_ensures(
                ManagerState::update,
                (m, ManagerEvent::Polled(PollResult::Sessions(id, list))),
                a,
            ) && m.wf() ==> {
                &&& final(m)@.sessions.dom().contains(id@)
                &&& final(m)@.sessions[id@] == PollState::Ready(list)
                &&& forall|k: Seq<char>|
                    k != id@ && m@.sessions.dom().contains(k) ==> #[trigger] final(m)@.sessions[k]
                        == m@.sessions[k]
                &&& final(m)@.profiles == m@.profiles && final(m)@.selected == m@.selected
            },
        forall|m: &mut ManagerState, id: String, e: String, a: ManagerAction| #[trigger]
            call_ensures(
                ManagerState::update,
                (m, ManagerEvent::Polled(PollResult::Error(id, e))),
                a,
            ) && m.wf() ==> final(m)@.sessions.dom().contains(id@) && final(m)@.sessions[id@]
                == PollState::Error(e),
        forall|m: &mut ManagerState, id: String, a: ManagerAction| #[trigger]
            call_ensures(ManagerState::update, (m, ManagerEvent::Edit(id)), a) && m.wf() ==> {
                &&& final(m)@.profiles == m@.profiles
                &&& (exists|i: int| 0 <= i < m@.profiles.len() && (#[trigger] m@.profiles[i]).id
                    == id@) ==> {
                    &&& final(m)@.edit matches Some(e)
                    &&& !e.is_new && e.profile.id == id@ && m@.profiles.contains(e.profile)
                }
            },
        forall|m: &mut ManagerState, id: String, a: ManagerAction| #[trigger]
            call_ensures(ManagerState::update, (m, ManagerEvent::NewProfile(id)), a) && m.wf()
                ==> {
                &&& final(m)@.profiles == m@.profiles
                &&& final(m)@.edit matches Some(e)
                &&& e.is_new && e.profile.id == id@
                &&& e.profile.width == 1280 && e.profile.height == 720 && e.profile.quality == 75
                &&& e.profile.mode == "desktop"@
                &&& !e.profile.accept_invalid_certs && !e.profile.remember_password
                &&& e.profile.password is None
            },
{
    assert forall|m: &mut ManagerState, id: String, a: ManagerAction| #[trigger]
        call_ensures(ManagerState::update, (m, ManagerEvent::Select(id)), a) && m.wf() && (
        exists|i: int| 0 <= i < m@.profiles.len() && (#[trigger] m@.profiles[i]).id
            == id@) implies a is PollNow && (final(m)@.poll_target matches Some(p) && p.id == id@
        && m@.profiles.contains(p)) by {
        place_is_found(m@.profiles, id@);
    }
    assert forall|m: &mut ManagerState, id: String, a: ManagerAction| #[trigger]
        call_ensures(ManagerState::update, (m, ManagerEvent::Edit(id)), a) && m.wf() && (
        exists|i: int| 0 <= i < m@.profiles.len() && (#[trigger] m@.profiles[i]).id
            == id@) implies (final(m)@.edit matches Some(e) && !e.is_new && e.profile.id == id@
        && m@.profiles.contains(e.profile)) by {
        place_is_found(m@.profiles, id@);
    }
}

/// Starting, resuming and closing a session run a client for the profile that
/// is shown, and name the session; where none is shown nothing is run.
pub proof fn sessions_are_run_for_the_shown_profile()
    ensures
        forall|m: &mut ManagerState, event: ManagerEvent, a: ManagerAction| #[trigger]
            call_ensures(ManagerState::update, (m, event), a) && m.wf() && (event is NewSession
                || event is Resume || event is CloseSession) ==> {
                &&& final(m)@ == m@
                &&& shown_profile(m@) is None ==> a is Idle
                &&& shown_profile(m@) matches Some(p) ==> {
                    &&& a matches ManagerAction::Launch(args)
                    &&& args@.len() > 0 && args@[args@.len() - 1]@ == p.server
                    &&& event matches ManagerEvent::Resume(id) ==> args@.len() >= 3
                        && args@[args@.len() - 3]@ == "--attach"@ && args@[args@.len() - 2]@ == id@
                    &&& event matches ManagerEvent::CloseSession(id) ==> args@.len() >= 3
                        && args@[args@.len() - 3]@ == "--close"@ && args@[args@.len() - 2]@ == id@
                }
            },
{
    assert forall|m: &mut ManagerState, event: ManagerEvent, a: ManagerAction| #[trigger]
        call_ensures(ManagerState::update, (m, event), a) && m.wf() && (event is NewSession
            || event is Resume || event is CloseSession) && (shown_profile(
        m@,
    ) matches Some(p)) implies (shown_profile(m@) matches Some(p) && {
        &&& a matches ManagerAction::Launch(args)
        &&& args@.len() > 0 && args@[args@.len() - 1]@ == p.server
        &&& event matches ManagerEvent::Resume(id) ==> args@.len() >= 3 && args@[args@.len() - 3]@
            == "--attach"@ && args@[args@.len() - 2]@ == id@
        &&& event matches ManagerEvent::CloseSession(id) ==> args@.len() >= 3
            && args@[args@.len() - 3]@ == "--close"@ && args@[args@.len() - 2]@ == id@
    }) by {
        let p = shown_profile(m@)->0;
        let extra = match event {
            ManagerEvent::Resume(id) => seq!["--attach"@, id@],
            ManagerEvent::CloseSession(id) => seq!["--close"@, id@],
            _ => Seq::empty(),
        };
        extra_options_stand_before_the_server(p, extra);
        if let ManagerAction::Launch(args) = a {
            let t = text::texts(args@);
            let n = t.len() as int;
            assert(n == args@.len());
            assert(t[n - 1] == args@[n - 1]@);
            if extra.len() == 2 {
                let part = t.subrange(n - 3, n - 1);
                assert(part == extra);
                assert(part[0] == t[n - 3] && part[1] == t[n - 2]);
                assert(t[n - 3] == args@[n - 3]@ && t[n - 2] == args@[n - 2]@);
            }
        }
    }
}

proof fn spaced_from_the_front(v: Seq<Seq<char>>)
    requires
        v.len() >= 2,
    ensures
        spaced(v) == v[0] + (seq![' '] + spaced(v.skip(1))),
    decreases v.len(),
{
    let init = v.drop_last();
    if v.len() == 2 {
        assert(spaced(init) == v[0]);
        assert(spaced(v.skip(1)) == v.last());
        assert(spaced(v) =~= v[0] + (seq![' '] + spaced(v.skip(1))));
    } else {
        spaced_from_the_front(init);
        assert(v.skip(1).drop_last() =~= init.skip(1));
        assert(v.skip(1).last() == v.last());
        assert(spaced(v) =~= v[0] + (seq![' '] + spaced(v.skip(1))));
    }
}

/// Options that hold no space come back from the form as they went into it.
pub proof fn options_survive_the_form(v: Seq<Seq<char>>)
    requires
        forall|i: int, k: int|
            0 <= i < v.len() && 0 <= k < v[i].len() ==> !text::white(#[trigger] v[i][k]),
        forall|i: int| 0 <= i < v.len() ==> (#[trigger] v[i]).len() > 0,
    ensures
        text::words(spaced(v)) == v,
    decreases v.len(),
{
    if v.len() == 1 {
        text::a_word_comes_first(v[0], Seq::empty());
        assert(v[0] + Seq::<char>::empty() =~= v[0]);
        assert(text::words(Seq::empty()) =~= Seq::empty());
        assert(seq![v[0]] =~= v);
    } else if v.len() > 1 {
        let t = v.skip(1);
        assert forall|i: int, k: int|
            0 <= i < t.len() && 0 <= k < t[i].len() implies !text::white(#[trigger] t[i][k]) by {
            assert(t[i] == v[i + 1]);
            assert(!text::white(v[i + 1][k]));
        }
        assert forall|i: int| 0 <= i < t.len() implies (#[trigger] t[i]).len() > 0 by {
            assert(t[i] == v[i + 1]);
        }
        options_survive_the_form(t);
        spaced_from_the_front(v);
        text::a_word_comes_first(v[0], seq![' '] + spaced(t));
        text::leading_space_makes_no_word(' ', spaced(t));
        assert(seq![v[0]] + t =~= v);
    }
}

/// A form starts from the profile and with its options parted by spaces; a
/// field left empty is no value.
pub proof fn forms_start_from_the_profile(
    profile: Profile,
    is_new: bool,
    e: EditState,
    field: String,
    r: Option<String>,
)
    requires
        call_ensures(EditState::from_profile, (profile, is_new), e),
        call_ensures(optional_field, (field,), r),
    ensures
        e.profile == profile,
        e.is_new == is_new,
        e.ssh_opts_text@ == spaced(text::texts(profile.ssh_opts@)),
        r is None <==> field@.len() == 0,
        r matches Some(s) ==> s@ == field@,
{
}

/// The tray keeps at most one window: asked to show one, it raises the one that
/// is open or opens one. It forgets the window that closed and no other, and
/// quitting closes it.
pub proof fn the_tray_keeps_one_window()
    ensures
        forall|h: &mut TrayHost, a: HostAction| #[trigger]
            call_ensures(TrayHost::event, (h, HostEvent::Show), a) ==> {
                &&& h.window is Some ==> a == HostAction::Raise
                &&& h.window is None ==> a == HostAction::Open
                &&& final(h).window == h.window
            },
        forall|h: &mut TrayHost, pid: u32, a: HostAction| #[trigger]
            call_ensures(TrayHost::event, (h, HostEvent::WindowClosed(pid)), a) ==> {
                &&& h.window == Some(pid) ==> a == HostAction::Reap && final(h).window is None
                &&& h.window != Some(pid) ==> a == HostAction::Idle && final(h).window == h.window
            },
        forall|h: &mut TrayHost, a: HostAction| #[trigger]
            call_ensures(TrayHost::event, (h, HostEvent::Quit), a) ==> {
                &&& h.window is Some ==> a == HostAction::CloseAndExit
                &&& h.window is None ==> a == HostAction::Exit
                &&& final(h).window is None
            },
        forall|h: &mut TrayHost, pid: Option<u32>| #[trigger]
            call_ensures(TrayHost::opened, (h, pid), ()) ==> final(h).window == pid,
{
}

/// The window does what the tray asks of it, and closes where the tray is gone.
/// A second manager shows the first one's window, unless it starts hidden.
pub proof fn managers_talk_to_each_other(
    line: Option<&str>,
    r: WindowRequest,
    other_runs: bool,
    minimized: bool,
    l: Launch,
    said: &str,
    changed: bool,
)
    requires
        call_ensures(window_request, (line,), r),
        call_ensures(launch_decision, (other_runs, minimized), l),
        call_ensures(says_profiles_changed, (said,), changed),
    ensures
        line is None ==> r == WindowRequest::Quit,
        line matches Some(s) ==> {
            &&& text::trimmed(s@) == MSG_SHOW@ ==> r == WindowRequest::Show
            &&& text::trimmed(s@) == MSG_QUIT@ ==> r == WindowRequest::Quit
            &&& text::trimmed(s@) != MSG_SHOW@ && text::trimmed(s@) != MSG_QUIT@ ==> r
                == WindowRequest::Ignore
        },
        MSG_SHOW@ != MSG_QUIT@,
        l == Launch::Run <==> !other_runs,
        l == Launch::Exit <==> other_runs && minimized,
        l == Launch::ShowOther <==> other_runs && !minimized,
        changed <==> said@ == MSG_PROFILES_CHANGED@,
{
    reveal_strlit("show");
    reveal_strlit("quit");
    assert("show"@[0] != "quit"@[0]);
}

/// A list of hosts says how each is reached and where; a list of sessions shows
/// the id, mode, size, age and whether someone is attached.
pub proof fn rows_say_what_there_is(
    p: &Profile,
    s: String,
    info: &SessionInfo,
    row: Vec<String>,
    exited: bool,
    polls: u32,
    step: CloseStep,
)
    requires
        call_ensures(route_label, (p,), s),
        call_ensures(session_row, (info,), row),
        call_ensures(close_step, (exited, polls), step),
    ensures
        s@.len() == 4 + p.server@.len(),
        s@.skip(4) == p.server@,
        p.ssh ==> s@.take(3) == "ssh"@,
        !p.ssh && p.tls ==> s@.take(3) == "tls"@,
        !p.ssh && !p.tls ==> s@.take(3) == "tcp"@,
        row@.len() == 5,
        row@[0]@ == info.session_id@,
        row@[1]@ == info.mode@,
        row@[3]@ == connection::age_text(info.age_secs),
        row@[4]@ == "yes"@ <==> info.attached,
        row@[4]@ == "no"@ <==> !info.attached,
        step == CloseStep::Done ==> exited,
        step == CloseStep::Wait ==> !exited && polls < 20,
        step == CloseStep::Kill <==> polls >= 20,
{
    reveal_strlit("ssh");
    reveal_strlit("tls");
    reveal_strlit("tcp");
    reveal_strlit(" ");
    reveal_strlit("yes");
    reveal_strlit("no");
    assert("yes"@.len() != "no"@.len());
    let t = route_text(p@);
    assert(t.skip(4) =~= p.server@);
    assert(p.ssh ==> t.take(3) =~= "ssh"@);
    assert(!p.ssh && p.tls ==> t.take(3) =~= "tls"@);
    assert(!p.ssh && !p.tls ==> t.take(3) =~= "tcp"@);
    let r = text::texts(row@);
    assert(r.len() == row@.len());
    assert(r[0] == row@[0]@ && r[1] == row@[1]@ && r[3] == row@[3]@ && r[4] == row@[4]@);
}

/// A manager starts with the profiles that were read and nothing selected; what
/// is shown is the profile that is selected, and one that is gone is no longer
/// selected.
pub proof fn the_selected_profile_is_shown()
    ensures
        forall|t: SessionTable| #[trigger]
            call_ensures(SessionTable::new, (), t) ==> t.wf() && t@.dom() == Set::<Seq<char>>::empty(),
        forall|profiles: Vec<Profile>, m: ManagerState| #[trigger]
            call_ensures(ManagerState::new, (profiles,), m) ==> {
                &&& m.wf()
                &&& m@.profiles.len() == profiles@.len()
                &&& forall|i: int|
                    0 <= i < profiles@.len() ==> m@.profiles[i] == (#[trigger] profiles@[i])@
                &&& m@.selected is None && m@.edit is None && m@.poll_target is None
                    && m@.delete_confirm is None
                &&& m@.sessions.dom() == Set::<Seq<char>>::empty()
            },
        forall|m: &mut ManagerState, r: Option<usize>| #[trigger]
            call_ensures(ManagerState::shown, (m,), r) ==> {
                &&& r matches Some(place) ==> place < m.profiles@.len() && m@.selected == Some(
                    m.profiles@[place as int].id@,
                ) && *final(m) == *m
                &&& r is None ==> final(m)@.selected is None
                &&& r is None && m@.selected is Some ==> forall|k: int|
                    0 <= k < m@.profiles.len() ==> Some((#[trigger] m@.profiles[k]).id)
                        != m@.selected
                &&& final(m).profiles == m.profiles
            },
{
    assert forall|m: &mut ManagerState, r: Option<usize>| #[trigger]
        call_ensures(ManagerState::shown, (m,), r) implies {
        &&& r matches Some(place) ==> place < m.profiles@.len() && m@.selected == Some(
            m.profiles@[place as int].id@,
        ) && *final(m) == *m
        &&& r is None ==> final(m)@.selected is None
        &&& r is None && m@.selected is Some ==> forall|k: int|
            0 <= k < m@.profiles.len() ==> Some((#[trigger] m@.profiles[k]).id) != m@.selected
        &&& final(m).profiles == m.profiles
    } by {
        if let Some(id) = m@.selected {
            place_is_found(m@.profiles, id);
        }
    }
}

} // verus!
