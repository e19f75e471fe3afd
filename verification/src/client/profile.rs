//! Saved connection profiles of the session manager.
use vstd::prelude::*;
use crate::paths;
use crate::text;

verus! {

/// One saved host with everything needed to connect to it again.
#[derive(Debug, Clone)]
pub struct Profile {
    /// Names the profile whatever it is renamed to.
    pub id: String,
    pub display_name: String,
    /// host:port, or user@host for SSH.
    pub server: String,
    pub ssh: bool,
    pub ssh_opts: Vec<String>,
    pub tls: bool,
    pub accept_invalid_certs: bool,
    pub username: Option<String>,
    /// Whether the password is kept. It is stored in the clear, so this is
    /// off unless the user asked for it.
    pub remember_password: bool,
    pub password: Option<String>,
    pub width: u32,
    pub height: u32,
    pub quality: u8,
    /// "desktop" or "app:<command>".
    pub mode: String,
    pub desktop_shell: Option<String>,
    /// av1, vp9, vp8, h265 or h264; otherwise the codec is negotiated.
    pub codec: Option<String>,
}

/// A profile as texts and numbers.
pub ghost struct ProfileView {
    pub id: Seq<char>,
    pub display_name: Seq<char>,
    pub server: Seq<char>,
    pub ssh: bool,
    pub ssh_opts: Seq<Seq<char>>,
    pub tls: bool,
    pub accept_invalid_certs: bool,
    pub username: Option<Seq<char>>,
    pub remember_password: bool,
    pub password: Option<Seq<char>>,
    pub width: u32,
    pub height: u32,
    pub quality: u8,
    pub mode: Seq<char>,
    pub desktop_shell: Option<Seq<char>>,
    pub codec: Option<Seq<char>>,
}

impl View for Profile {
    type V = ProfileView;

    open spec fn view(&self) -> ProfileView {
        ProfileView {
            id: self.id@,
            display_name: self.display_name@,
            server: self.server@,
            ssh: self.ssh,
            ssh_opts: text::texts(self.ssh_opts@),
            tls: self.tls,
            accept_invalid_certs: self.accept_invalid_certs,
            username: text::optional(self.username),
            remember_password: self.remember_password,
            password: text::optional(self.password),
            width: self.width,
            height: self.height,
            quality: self.quality,
            mode: self.mode@,
            desktop_shell: text::optional(self.desktop_shell),
            codec: text::optional(self.codec),
        }
    }
}

/// Some profiles as texts and numbers.
pub open spec fn views(v: Seq<Profile>) -> Seq<ProfileView> {
    v.map_values(|p: Profile| p@)
}

impl Profile {
    /// A fresh profile under an id, with the command line's defaults.
    pub fn new_default(id: String) -> (p: Profile)
        ensures
            p@ == (ProfileView {
                id: id@,
                display_name: "New profile"@,
                server: ""@,
                ssh: false,
                ssh_opts: Seq::empty(),
                tls: false,
                accept_invalid_certs: false,
                username: None,
                remember_password: false,
                password: None,
                width: 1280,
                height: 720,
                quality: 75,
                mode: "desktop"@,
                desktop_shell: None,
                codec: None,
            }),
    {
        let ssh_opts: Vec<String> = Vec::new();
        assert(text::texts(ssh_opts@) == Seq::<Seq<char>>::empty());
        Profile {
            id,
            display_name: String::from_str("New profile"),
            server: String::from_str(""),
            ssh: false,
            ssh_opts,
            tls: false,
            accept_invalid_certs: false,
            username: None,
            remember_password: false,
            password: None,
            width: 1280,
            height: 720,
            quality: 75,
            mode: String::from_str("desktop"),
            desktop_shell: None,
            codec: None,
        }
    }

    /// A copy of the profile.
    pub fn copy(&self) -> (p: Profile)
        ensures
            p@ == self@,
    {
        Profile {
            id: self.id.clone(),
            display_name: self.display_name.clone(),
            server: self.server.clone(),
            ssh: self.ssh,
            ssh_opts: text::copy_texts(&self.ssh_opts),
            tls: self.tls,
            accept_invalid_certs: self.accept_invalid_certs,
            username: copy_optional(&self.username),
            remember_password: self.remember_password,
            password: copy_optional(&self.password),
            width: self.width,
            height: self.height,
            quality: self.quality,
            mode: self.mode.clone(),
            desktop_shell: copy_optional(&self.desktop_shell),
            codec: copy_optional(&self.codec),
        }
    }
}

/// A copy of an optional string.
pub fn copy_optional(s: &Option<String>) -> (r: Option<String>)
    ensures
        r == *s,
{
    match s {
        Some(t) => Some(t.clone()),
        None => None,
    }
}

/// An id for a new profile, from the nanoseconds since 1970 and a count of the
/// ids made by this process: unique enough for a file that only this program
/// writes.
pub fn generate_id(nanos: u128, count: u32) -> (s: String)
    ensures
        s@ == text::hexadecimal(nanos as nat) + "-"@ + text::hexadecimal(count as nat),
{
    let mut out = text::hexadecimal_chars(nanos);
    text::push_str(&mut out, "-");
    let mut tail = text::hexadecimal_chars(count as u128);
    out.append(&mut tail);
    text::text_of(&out)
}

/// The configuration directory: `$XDG_CONFIG_HOME`, or `.config` under the home
/// directory.
pub open spec fn config_directory(
    xdg_config_home: Option<Seq<char>>,
    home: Option<Seq<char>>,
) -> Option<Seq<char>> {
    match xdg_config_home {
        Some(d) => Some(d),
        None => match home {
            Some(h) => Some(paths::joined(h, ".config"@)),
            None => None,
        },
    }
}

/// The configuration directory, given `$XDG_CONFIG_HOME` and `$HOME`.
pub fn config_dir(xdg_config_home: Option<String>, home: Option<String>) -> (d: Option<String>)
    ensures
        text::optional(d) == config_directory(text::optional(xdg_config_home), text::optional(home)),
{
    match xdg_config_home {
        Some(d) => Some(d),
        None => match home {
            Some(h) => Some(paths::join(h.as_str(), ".config")),
            None => None,
        },
    }
}

/// The file that profiles are saved in, given `$XDG_CONFIG_HOME` and `$HOME`.
pub fn profiles_path(xdg_config_home: Option<String>, home: Option<String>) -> (p: Option<String>)
    ensures
        text::optional(p) == (match config_directory(
            text::optional(xdg_config_home),
            text::optional(home),
        ) {
            Some(d) => Some(paths::joined(paths::joined(d, "termland"@), "profiles.json"@)),
            None => None,
        }),
{
    match config_dir(xdg_config_home, home) {
        Some(d) => Some(
            paths::join(paths::join(d.as_str(), "termland").as_str(), "profiles.json"),
        ),
        None => None,
    }
}

/// Two profiles made at different times, or as different ones of one time, have
/// different ids.
pub proof fn ids_are_unique(n1: u128, c1: u32, s1: String, n2: u128, c2: u32, s2: String)
    requires
        call_ensures(generate_id, (n1, c1), s1),
        call_ensures(generate_id, (n2, c2), s2),
        n1 != n2 || c1 != c2,
    ensures
        s1@ != s2@,
{
    reveal_strlit("-");
    text::hexadecimals_read_back(n1 as nat);
    text::hexadecimals_read_back(n2 as nat);
    text::hexadecimals_read_back(c1 as nat);
    text::hexadecimals_read_back(c2 as nat);
    let a1 = text::hexadecimal(n1 as nat);
    let a2 = text::hexadecimal(n2 as nat);
    let b1 = text::hexadecimal(c1 as nat);
    let b2 = text::hexadecimal(c2 as nat);
    if s1@ == s2@ {
        let i1 = a1.len() as int;
        let i2 = a2.len() as int;
        assert(s1@[i1] == '-');
        assert(s2@[i2] == '-');
        if i1 < i2 {
            assert(s2@[i1] == a2[i1]);
        } else if i2 < i1 {
            assert(s1@[i2] == a1[i2]);
        }
        assert(s1@.take(i1) =~= a1);
        assert(s2@.take(i1) =~= a2);
        assert(s1@.skip(i1 + 1) =~= b1);
        assert(s2@.skip(i1 + 1) =~= b2);
    }
}

/// A new profile is a plain desktop that trusts no one and keeps no password; a
/// copy is what was copied.
pub proof fn new_profiles_are_careful(
    id: String,
    p: Profile,
    q: &Profile,
    c: Profile,
    s: &Option<String>,
    r: Option<String>,
)
    requires
        call_ensures(Profile::new_default, (id,), p),
        call_ensures(Profile::copy, (q,), c),
        call_ensures(copy_optional, (s,), r),
    ensures
        p.id@ == id@,
        p.server@.len() == 0,
        !p.ssh && !p.tls && !p.accept_invalid_certs && !p.remember_password,
        p.username is None && p.password is None && p.desktop_shell is None && p.codec is None,
        p.ssh_opts@.len() == 0,
        p.width == 1280 && p.height == 720 && p.quality == 75,
        p.mode@ == "desktop"@,
        c.id@ == q.id@ && c.display_name@ == q.display_name@ && c.server@ == q.server@,
        c.ssh == q.ssh && c.tls == q.tls && c.accept_invalid_certs == q.accept_invalid_certs,
        text::texts(c.ssh_opts@) == text::texts(q.ssh_opts@),
        text::optional(c.username) == text::optional(q.username),
        text::optional(c.password) == text::optional(q.password),
        c.remember_password == q.remember_password,
        c.width == q.width && c.height == q.height && c.quality == q.quality,
        c.mode@ == q.mode@,
        text::optional(c.desktop_shell) == text::optional(q.desktop_shell),
        text::optional(c.codec) == text::optional(q.codec),
        r == *s,
{
    reveal_strlit("");
    assert(p@.ssh_opts.len() == p.ssh_opts@.len());
    let none = p@;
    assert(none.username is None && none.password is None);
    assert(none.desktop_shell is None && none.codec is None);
}

/// The configuration directory is the one that was set, or else the usual one
/// below the home directory; the profiles stand below it. Without either there
/// is none.
pub proof fn profiles_are_kept_below_the_configuration(
    xdg: Option<String>,
    home: Option<String>,
    d: Option<String>,
    p: Option<String>,
)
    requires
        call_ensures(config_dir, (xdg, home), d),
        call_ensures(profiles_path, (xdg, home), p),
    ensures
        d is None <==> xdg is None && home is None,
        p is None <==> d is None,
        xdg matches Some(x) ==> (d matches Some(c) && c@ == x@),
        xdg is None ==> (home matches Some(h) ==> (d matches Some(c) && paths::stands_below(
            c@,
            h@,
            ".config"@,
        ))),
        d matches Some(c) ==> (p matches Some(f) && exists|dir: Seq<char>| #[trigger]
            paths::stands_below(dir, c@, "termland"@) && paths::stands_below(
                f@,
                dir,
                "profiles.json"@,
            )),
{
    if xdg is None {
        if let Some(h) = home {
            paths::joined_stands_below(h@, ".config"@);
        }
    }
    if let Some(c) = d {
        let dir = paths::joined(c@, "termland"@);
        paths::joined_stands_below(c@, "termland"@);
        paths::joined_stands_below(dir, "profiles.json"@);
        assert(paths::stands_below(dir, c@, "termland"@));
    }
}

} // verus!
