//! Launching the compositor of a session: cage for a single application, labwc
//! for a desktop. These functions plan; the programs that launch and watch the
//! compositor act on the plans.
use vstd::prelude::*;
use crate::compositor::session::CompositorError;
use crate::paths;
use crate::text;

pub mod cage;
pub mod labwc;

verus! {

/// A compositor that runs in a process session of its own, so that it outlives
/// the connection that started it.
#[derive(Debug, Clone)]
pub struct DetachedBackend {
    pub pid: u32,
    pub wayland_display: String,
    /// The runtime directory that the compositor was started with. Every later
    /// connection to it uses this one: under another user it differs from the
    /// server's own.
    pub runtime_dir: String,
}

/// A user of the system that a session runs as.
#[derive(Debug, Clone)]
pub struct TargetUser {
    pub uid: u32,
    pub gid: u32,
    pub home: String,
    pub username: String,
}

/// What the user database holds of a user.
#[derive(Debug, Clone)]
pub struct PasswdEntry {
    pub uid: u32,
    pub gid: u32,
    pub home: Option<String>,
}

/// A string as `{:?}` writes it.
pub uninterp spec fn debug_form(s: Seq<char>) -> Seq<char>;

/// `format!` with `{:?}` on a string: in quotes, with what is not printable
/// escaped. What it is for a given string is not stated.
#[verifier::external_body]
fn debug_text(s: &str) -> (r: String)
    ensures
        r@ == debug_form(s@),
{
    format!("{s:?}")
}

fn start_failed(message: &[char]) -> (e: CompositorError)
    ensures
        e matches CompositorError::StartFailed(m) && m@ == message@,
{
    CompositorError::StartFailed(text::text_of(message))
}

/// Refuses a name that the user database cannot be asked for.
pub fn check_username(username: &str) -> (r: Result<(), CompositorError>)
    ensures
        r is Ok <==> !username@.contains('\0'),
        r matches Err(e) ==> (e matches CompositorError::StartFailed(m) && m@
            == "username contains NUL byte: "@ + debug_form(username@)),
{
    if text::contains_char(&text::chars_of(username), '\0') {
        let mut m = text::chars_of("username contains NUL byte: ");
        text::push_str(&mut m, debug_text(username).as_str());
        Err(start_failed(&m))
    } else {
        Ok(())
    }
}

/// The room for an answer of the user database at first, in bytes.
pub const FIRST_LOOKUP_SIZE: usize = 4096;

/// The room from which on it is not doubled any more.
pub const MAX_LOOKUP_SIZE: usize = 1048576;

/// What to do after asking the user database.
#[derive(Debug, Clone)]
pub enum LookupStep {
    Done,
    /// Ask again, with so much room.
    Retry(usize),
    Fail(CompositorError),
}

/// Decides what follows an answer of the user database, by its error number and
/// whether that says that the room was too small.
pub fn lookup_step(username: &str, errno: i32, too_small: bool, size: usize) -> (s: LookupStep)
    ensures
        if errno == 0 {
            s is Done
        } else if too_small && size < MAX_LOOKUP_SIZE {
            s == LookupStep::Retry((size * 2) as usize)
        } else {
            s matches LookupStep::Fail(CompositorError::StartFailed(m)) && m@ == "getpwnam_r("@
                + username@ + ") failed: errno "@ + text::signed_decimal(errno as int)
        },
{
    if errno == 0 {
        LookupStep::Done
    } else if too_small && size < MAX_LOOKUP_SIZE {
        LookupStep::Retry(size * 2)
    } else {
        let mut m = text::chars_of("getpwnam_r(");
        text::push_str(&mut m, username);
        text::push_str(&mut m, ") failed: errno ");
        text::push_signed(&mut m, errno);
        LookupStep::Fail(start_failed(&m))
    }
}

/// The user that a session is to run as, from what the user database holds.
/// A user that is not there, that is root, or that has no home is refused: the
/// session is not to run as the server instead.
pub fn resolve_target_user(username: &str, entry: Option<PasswdEntry>) -> (r: Result<
    TargetUser,
    CompositorError,
>)
    ensures
        match entry {
            None => r matches Err(CompositorError::StartFailed(m)) && m@
                == "cannot isolate session: no such system user '"@ + username@ + "'"@,
            Some(p) => if p.uid == 0 {
                r matches Err(CompositorError::StartFailed(m)) && m@
                    == "refusing to run an isolated session as uid 0 (user '"@ + username@
                    + "' resolved to root) - this would defeat session isolation entirely"@
            } else {
                match p.home {
                    None => r matches Err(CompositorError::StartFailed(m)) && m@ == "user '"@
                        + username@ + "' has no home directory in passwd"@,
                    Some(home) => r matches Ok(t) && t.uid == p.uid && t.gid == p.gid && t.home
                        == home && t.username@ == username@,
                }
            },
        },
{
    match entry {
        None => {
            let mut m = text::chars_of("cannot isolate session: no such system user '");
            text::push_str(&mut m, username);
            text::push_str(&mut m, "'");
            Err(start_failed(&m))
        },
        Some(p) => {
            if p.uid == 0 {
                let mut m = text::chars_of(
                    "refusing to run an isolated session as uid 0 (user '",
                );
                text::push_str(&mut m, username);
                text::push_str(
                    &mut m,
                    "' resolved to root) - this would defeat session isolation entirely",
                );
                return Err(start_failed(&m));
            }
            match p.home {
                None => {
                    let mut m = text::chars_of("user '");
                    text::push_str(&mut m, username);
                    text::push_str(&mut m, "' has no home directory in passwd");
                    Err(start_failed(&m))
                },
                Some(home) => Ok(
                    TargetUser {
                        uid: p.uid,
                        gid: p.gid,
                        home,
                        username: String::from_str(username),
                    },
                ),
            }
        },
    }
}

/// The runtime directory of a user.
pub open spec fn user_runtime_dir(uid: u32) -> Seq<char> {
    "/run/user/"@ + text::decimal(uid as nat)
}

/// The runtime directory of a user.
pub fn runtime_dir_of(uid: u32) -> (s: String)
    ensures
        s@ == user_runtime_dir(uid),
{
    let mut out = text::chars_of("/run/user/");
    let mut digits = text::decimal_chars(uid as u64);
    out.append(&mut digits);
    text::text_of(&out)
}

/// The permissions of a runtime directory.
pub const RUNTIME_DIR_MODE: u32 = 0x1c0;

/// What making a user's runtime directory can fail at.
#[derive(Debug, Clone, Copy, PartialEq, Eq, Structural)]
pub enum RuntimeDirStep {
    Make,
    GiveAway,
    Restrict,
}

/// The steps for a user's runtime directory. One that exists is left alone:
/// something else may rely on it.
pub fn ensure_runtime_dir(found: bool) -> (v: Vec<RuntimeDirStep>)
    ensures
        v@ == (if found {
            Seq::empty()
        } else {
            seq![RuntimeDirStep::Make, RuntimeDirStep::GiveAway, RuntimeDirStep::Restrict]
        }),
{
    let mut v: Vec<RuntimeDirStep> = Vec::new();
    if !found {
        v.push(RuntimeDirStep::Make);
        v.push(RuntimeDirStep::GiveAway);
        v.push(RuntimeDirStep::Restrict);
    }
    v
}

/// What it says that a step for a runtime directory failed.
pub fn runtime_dir_error(step: RuntimeDirStep, target: &TargetUser, error: &str) -> (e:
    CompositorError)
    ensures
        e matches CompositorError::StartFailed(m) && m@ == (match step {
            RuntimeDirStep::Make => "mkdir "@ + user_runtime_dir(target.uid) + ": "@ + error@,
            RuntimeDirStep::GiveAway => "chown "@ + user_runtime_dir(target.uid) + " to uid="@
                + text::decimal(target.uid as nat) + " gid="@ + text::decimal(target.gid as nat)
                + ": "@ + error@,
            RuntimeDirStep::Restrict => "chmod "@ + user_runtime_dir(target.uid) + " to 0700: "@
                + error@,
        }),
{
    let dir = runtime_dir_of(target.uid);
    let mut m: Vec<char> = Vec::new();
    match step {
        RuntimeDirStep::Make => {
            text::push_str(&mut m, "mkdir ");
            text::push_str(&mut m, dir.as_str());
            text::push_str(&mut m, ": ");
        },
        RuntimeDirStep::GiveAway => {
            text::push_str(&mut m, "chown ");
            text::push_str(&mut m, dir.as_str());
            text::push_str(&mut m, " to uid=");
            let mut uid = text::decimal_chars(target.uid as u64);
            m.append(&mut uid);
            text::push_str(&mut m, " gid=");
            let mut gid = text::decimal_chars(target.gid as u64);
            m.append(&mut gid);
            text::push_str(&mut m, ": ");
        },
        RuntimeDirStep::Restrict => {
            text::push_str(&mut m, "chmod ");
            text::push_str(&mut m, dir.as_str());
            text::push_str(&mut m, " to 0700: ");
        },
    }
    text::push_str(&mut m, error);
    proof {
        let empty = Seq::<char>::empty();
        assert(empty + "mkdir "@ == "mkdir "@);
        assert(empty + "chown "@ == "chown "@);
        assert(empty + "chmod "@ == "chmod "@);
    }
    start_failed(&m)
}

/// What the child process does before it becomes the compositor.
#[derive(Debug, Clone)]
pub enum ChildStep {
    /// Leave the terminal and the process group, so that a hangup does not
    /// reach the compositor.
    NewSession,
    /// Take the groups of the user in place of the server's.
    InitGroups(String, u32),
    SetGid(u32),
    SetUid(u32),
}

/// A variable of the environment.
#[derive(Debug, Clone)]
pub struct Variable {
    pub name: String,
    pub value: String,
}

/// Variables as pairs of texts.
pub open spec fn variables(v: Seq<Variable>) -> Seq<(Seq<char>, Seq<char>)> {
    v.map_values(|e: Variable| (e.name@, e.value@))
}

/// How to start a compositor.
#[derive(Debug, Clone)]
pub struct LaunchPlan {
    pub program: String,
    pub args: Vec<String>,
    /// The variables to take out of the environment.
    pub unset: Vec<String>,
    /// The variables to set in it, in order.
    pub set: Vec<Variable>,
    pub child_steps: Vec<ChildStep>,
    pub runtime_dir: String,
}

/// The variables that would tie the compositor to the server's own desktop.
pub open spec fn inherited_desktop() -> Seq<Seq<char>> {
    seq![
        "WAYLAND_DISPLAY"@,
        "DISPLAY"@,
        "GDK_BACKEND"@,
        "QT_WAYLAND_RECONNECT"@,
        "QT_QPA_PLATFORM"@,
    ]
}

/// The environment of a compositor without a screen.
pub open spec fn headless(width: u32, height: u32) -> Seq<(Seq<char>, Seq<char>)> {
    seq![
        ("WLR_BACKENDS"@, "headless"@),
        ("WLR_HEADLESS_OUTPUTS"@, "1"@),
        (
            "WLR_HEADLESS_OUTPUT_MODE"@,
            text::decimal(width as nat) + "x"@ + text::decimal(height as nat),
        ),
        ("XDG_SESSION_TYPE"@, "wayland"@),
    ]
}

/// The variable that sends a session's sound to a sink of its own. It is set
/// for the session alone: a default sink would silence the server's desktop.
pub open spec fn sink_variable(audio_sink: Option<Seq<char>>) -> Seq<(Seq<char>, Seq<char>)> {
    match audio_sink {
        Some(s) => seq![("PULSE_SINK"@, s)],
        None => Seq::empty(),
    }
}

/// The variables of the user that the session runs as.
pub open spec fn user_variables(run_as: Option<TargetUser>) -> Seq<(Seq<char>, Seq<char>)> {
    match run_as {
        Some(t) => seq![
            ("HOME"@, t.home@),
            ("USER"@, t.username@),
            ("LOGNAME"@, t.username@),
            ("XDG_RUNTIME_DIR"@, user_runtime_dir(t.uid)),
        ],
        None => Seq::empty(),
    }
}

/// What the child process does: it leaves its session, and becomes the user.
/// The groups come first and the user last, as only root may change the others.
pub open spec fn child_steps(run_as: Option<TargetUser>, steps: Seq<ChildStep>) -> bool {
    match run_as {
        Some(t) => {
            &&& steps.len() == 4
            &&& steps[0] is NewSession
            &&& steps[1] matches ChildStep::InitGroups(name, gid) && name@ == t.username@ && gid
                == t.gid
            &&& steps[2] == ChildStep::SetGid(t.gid)
            &&& steps[3] == ChildStep::SetUid(t.uid)
        },
        None => steps.len() == 1 && steps[0] is NewSession,
    }
}

/// The runtime directory that a compositor gets: that of the user it runs as,
/// or the server's own.
pub open spec fn launch_runtime_dir(
    run_as: Option<TargetUser>,
    own_runtime_dir: Option<Seq<char>>,
    own_uid: u32,
) -> Seq<char> {
    match run_as {
        Some(t) => user_runtime_dir(t.uid),
        None => match own_runtime_dir {
            Some(d) => d,
            None => user_runtime_dir(own_uid),
        },
    }
}

fn push_variable(v: &mut Vec<Variable>, name: &str, value: &str)
    ensures
        variables(final(v)@) == variables(old(v)@).push((name@, value@)),
{
    v.push(Variable { name: String::from_str(name), value: String::from_str(value) });
    assert(variables(v@) == variables(old(v)@).push((name@, value@)));
}

/// Plans the start of a compositor without arguments yet. Where a user is
/// given, the compositor and everything in the session run as that user.
pub fn detached_compositor_command(
    program: &str,
    width: u32,
    height: u32,
    run_as: Option<TargetUser>,
    audio_sink: Option<&str>,
    own_runtime_dir: Option<String>,
    own_uid: u32,
) -> (p: LaunchPlan)
    ensures
        p.program@ == program@,
        p.args@.len() == 0,
        text::texts(p.unset@) == inherited_desktop(),
        variables(p.set@) == headless(width, height) + sink_variable(
            match audio_sink {
                Some(s) => Some(s@),
                None => None,
            },
        ) + user_variables(run_as),
        child_steps(run_as, p.child_steps@),
        p.runtime_dir@ == launch_runtime_dir(run_as, text::optional(own_runtime_dir), own_uid),
{
    let mut unset: Vec<String> = Vec::new();
    assert(text::texts(unset@) == Seq::<Seq<char>>::empty());
    text::push_text(&mut unset, "WAYLAND_DISPLAY");
    text::push_text(&mut unset, "DISPLAY");
    text::push_text(&mut unset, "GDK_BACKEND");
    text::push_text(&mut unset, "QT_WAYLAND_RECONNECT");
    text::push_text(&mut unset, "QT_QPA_PLATFORM");
    assert(text::texts(unset@) == inherited_desktop());
    let mut mode = text::decimal_chars(width as u64);
    text::push_str(&mut mode, "x");
    let mut rows = text::decimal_chars(height as u64);
    mode.append(&mut rows);
    let mut set: Vec<Variable> = Vec::new();
    assert(variables(set@) == Seq::<(Seq<char>, Seq<char>)>::empty());
    push_variable(&mut set, "WLR_BACKENDS", "headless");
    push_variable(&mut set, "WLR_HEADLESS_OUTPUTS", "1");
    push_variable(&mut set, "WLR_HEADLESS_OUTPUT_MODE", text::text_of(&mode).as_str());
    push_variable(&mut set, "XDG_SESSION_TYPE", "wayland");
    assert(variables(set@) == headless(width, height));
    let ghost base = variables(set@);
    let ghost sink: Seq<(Seq<char>, Seq<char>)> = sink_variable(
        match audio_sink {
            Some(s) => Some(s@),
            None => None,
        },
    );
    if let Some(s) = audio_sink {
        push_variable(&mut set, "PULSE_SINK", s);
    }
    assert(variables(set@) == base + sink);
    let mut child: Vec<ChildStep> = Vec::new();
    child.push(ChildStep::NewSession);
    let ghost user = user_variables(run_as);
    let runtime_dir = match run_as {
        Some(t) => {
            let dir = runtime_dir_of(t.uid);
            push_variable(&mut set, "HOME", t.home.as_str());
            push_variable(&mut set, "USER", t.username.as_str());
            push_variable(&mut set, "LOGNAME", t.username.as_str());
            push_variable(&mut set, "XDG_RUNTIME_DIR", dir.as_str());
            assert(variables(set@) == base + sink + user);
            child.push(ChildStep::InitGroups(t.username, t.gid));
            child.push(ChildStep::SetGid(t.gid));
            child.push(ChildStep::SetUid(t.uid));
            dir
        },
        None => {
            assert(variables(set@) == base + sink + user);
            match own_runtime_dir {
                Some(d) => d,
                None => runtime_dir_of(own_uid),
            }
        },
    };
    LaunchPlan {
        program: String::from_str(program),
        args: Vec::new(),
        unset,
        set,
        child_steps: child,
        runtime_dir,
    }
}

/// A user's groups and group are taken while the process is still root, and
/// its user last of all.
pub proof fn privileges_are_dropped_in_order(run_as: TargetUser, steps: Seq<ChildStep>)
    requires
        child_steps(Some(run_as), steps),
    ensures
        steps.last() == ChildStep::SetUid(run_as.uid),
        forall|i: int| 0 <= i < steps.len() - 1 ==> !((#[trigger] steps[i]) is SetUid),
        exists|i: int, j: int|
            0 <= i < j < steps.len() - 1 && (#[trigger] steps[i]) is InitGroups && (
            #[trigger] steps[j]) is SetGid,
{
    assert(steps[1] is InitGroups && steps[2] is SetGid);
}

/// The cursor theme that both compositors get.
pub open spec fn cursor_theme() -> Seq<(Seq<char>, Seq<char>)> {
    seq![("XCURSOR_THEME"@, "Adwaita"@), ("XCURSOR_SIZE"@, "24"@)]
}

/// A shell command that says where the compositor listens before it becomes
/// another.
pub open spec fn announcing(command: Seq<char>) -> Seq<char> {
    "echo \"TERMLAND_SOCKET:$WAYLAND_DISPLAY\" >&2; exec "@ + command
}

/// A shell command that says where the compositor listens before it becomes
/// another, which must be one that the shell takes as it is.
pub fn socket_wrapper_cmd(child_command: &str) -> (s: String)
    ensures
        s@ == announcing(child_command@),
{
    let mut out = text::chars_of("echo \"TERMLAND_SOCKET:$WAYLAND_DISPLAY\" >&2; exec ");
    text::push_str(&mut out, child_command);
    text::text_of(&out)
}

/// Sets the cursor theme.
pub(crate) fn add_cursor_theme(plan: &mut LaunchPlan)
    ensures
        variables(final(plan).set@) == variables(old(plan).set@) + cursor_theme(),
        *final(plan) == (LaunchPlan { set: final(plan).set, ..*old(plan) }),
{
    let ghost before = variables(plan.set@);
    push_variable(&mut plan.set, "XCURSOR_THEME", "Adwaita");
    push_variable(&mut plan.set, "XCURSOR_SIZE", "24");
    assert(variables(plan.set@) == before + cursor_theme());
}

/// The name that a line of the compositor's log gives its socket.
pub open spec fn announced(line: Seq<char>) -> Option<Seq<char>> {
    let name = text::trimmed(line.skip("TERMLAND_SOCKET:"@.len() as int));
    if text::has_prefix(line, "TERMLAND_SOCKET:"@) && name.len() > 0 {
        Some(name)
    } else {
        None
    }
}

/// The first name in some lines.
pub open spec fn first_announced(lines: Seq<Seq<char>>) -> Option<Seq<char>>
    decreases lines.len(),
{
    if lines.len() == 0 {
        None
    } else {
        match announced(lines[0]) {
            Some(n) => Some(n),
            None => first_announced(lines.skip(1)),
        }
    }
}

/// Where the compositor listens, by its log.
pub fn socket_in_log(content: &str) -> (r: Option<String>)
    ensures
        text::optional(r) == first_announced(text::lines(content@)),
{
    let rows = text::split_lines(&text::chars_of(content));
    let marker = text::chars_of("TERMLAND_SOCKET:");
    let ghost all = text::char_rows(rows@);
    let mut i: usize = 0;
    assert(all.skip(0) == all);
    while i < rows.len()
        invariant
            i <= rows@.len(),
            all == text::char_rows(rows@),
            all == text::lines(content@),
            marker@ == "TERMLAND_SOCKET:"@,
            first_announced(all) == first_announced(all.skip(i as int)),
        decreases rows@.len() - i,
    {
        let ghost rest = all.skip(i as int);
        proof {
            assert(rest[0] == rows@[i as int]@);
            assert(rest.skip(1) == all.skip(i + 1));
        }
        if text::starts_with(&rows[i], &marker) {
            let tail = text::slice_chars(&rows[i], marker.len(), rows[i].len());
            assert(tail@ == rows@[i as int]@.skip(marker@.len() as int));
            let name = text::trim(&tail);
            if name.len() > 0 {
                return Some(text::text_of(&name));
            }
        }
        i = i + 1;
    }
    assert(all.skip(i as int).len() == 0);
    None
}

/// How long to wait for the compositor to say where it listens, in
/// milliseconds.
pub const LOG_DEADLINE_MS: u64 = 10000;

/// What to do while the compositor starts.
#[derive(Debug, Clone)]
pub enum StartStep {
    Wait,
    /// It listens here.
    Listening(String),
    Fail(CompositorError),
}

/// Decides what to do while the compositor starts, by its log where it can be
/// read, and how it exited where it did.
pub fn read_socket_from_log(
    content: Option<&str>,
    exited: Option<&str>,
    log_path: &str,
    elapsed_ms: u64,
) -> (s: StartStep)
    ensures
        ({
            let found = match content {
                Some(c) => first_announced(text::lines(c@)),
                None => None,
            };
            if elapsed_ms >= LOG_DEADLINE_MS {
                s matches StartStep::Fail(CompositorError::StartFailed(m)) && m@
                    == "could not determine compositor socket from log "@ + log_path@
            } else {
                match found {
                    Some(name) => s matches StartStep::Listening(n) && n@ == name,
                    None => match exited {
                        Some(status) => s matches StartStep::Fail(CompositorError::StartFailed(m))
                            && m@ == "compositor exited early with "@ + status@ + " (see log "@
                            + log_path@ + ")"@,
                        None => s is Wait,
                    },
                }
            }
        }),
{
    if elapsed_ms >= LOG_DEADLINE_MS {
        let mut m = text::chars_of("could not determine compositor socket from log ");
        text::push_str(&mut m, log_path);
        return StartStep::Fail(start_failed(&m));
    }
    if let Some(c) = content {
        if let Some(name) = socket_in_log(c) {
            return StartStep::Listening(name);
        }
    }
    match exited {
        Some(status) => {
            let mut m = text::chars_of("compositor exited early with ");
            text::push_str(&mut m, status);
            text::push_str(&mut m, " (see log ");
            text::push_str(&mut m, log_path);
            text::push_str(&mut m, ")");
            StartStep::Fail(start_failed(&m))
        },
        None => StartStep::Wait,
    }
}

/// How long to wait for the socket's file, in milliseconds.
pub const SOCKET_DEADLINE_MS: u64 = 3000;

/// How long to leave the compositor alone then, in milliseconds.
pub const SOCKET_GRACE_MS: u64 = 300;

/// Whether to stop waiting for the socket's file.
pub fn wait_socket_ready(found: bool, elapsed_ms: u64) -> (b: bool)
    ensures
        b == (found || elapsed_ms >= SOCKET_DEADLINE_MS),
{
    found || elapsed_ms >= SOCKET_DEADLINE_MS
}

/// Whether a character may stand in a command for the shell: letters, digits,
/// spaces, the marks of paths and options, and single quotes around arguments.
pub open spec fn shell_safe(c: char) -> bool {
    ('a' <= c && c <= 'z') || ('A' <= c && c <= 'Z') || ('0' <= c && c <= '9') || c == ' ' || c
        == '-' || c == '_' || c == '.' || c == '/' || c == '=' || c == ':' || c == ',' || c == '\''
        || c == '@'
}

fn is_shell_safe(c: char) -> (b: bool)
    ensures
        b == shell_safe(c),
{
    ('a' <= c && c <= 'z') || ('A' <= c && c <= 'Z') || ('0' <= c && c <= '9') || c == ' ' || c
        == '-' || c == '_' || c == '.' || c == '/' || c == '=' || c == ':' || c == ',' || c == '\''
        || c == '@'
}

/// The first character that may not stand in a command.
pub open spec fn first_unsafe(s: Seq<char>) -> Option<char>
    decreases s.len(),
{
    if s.len() == 0 {
        None
    } else if !shell_safe(s[0]) {
        Some(s[0])
    } else {
        first_unsafe(s.drop_first())
    }
}

/// Refuses a command that the shell could take for more than a command with
/// arguments: it must not be empty, hold another character, or look like an
/// option.
pub fn validate_shell_command(cmd: &str) -> (r: Result<(), CompositorError>)
    ensures
        r is Ok <==> cmd@.len() > 0 && first_unsafe(cmd@) is None && cmd@[0] != '-',
        r matches Err(e) ==> (e matches CompositorError::StartFailed(m) && m@ == (if cmd@.len()
            == 0 {
            "empty command"@
        } else {
            match first_unsafe(cmd@) {
                Some(c) => "rejected shell metacharacter '"@ + seq![c] + "' in command: "@ + cmd@,
                None => "command must not start with '-': "@ + cmd@,
            }
        })),
{
    let s = text::chars_of(cmd);
    if s.len() == 0 {
        return Err(CompositorError::StartFailed(String::from_str("empty command")));
    }
    let mut i: usize = 0;
    assert(s@.skip(0) == s@);
    while i < s.len()
        invariant
            i <= s@.len(),
            s@ == cmd@,
            s@.len() > 0,
            first_unsafe(s@) == first_unsafe(s@.skip(i as int)),
        decreases s@.len() - i,
    {
        assert(s@.skip(i as int).drop_first() == s@.skip(i + 1));
        if !is_shell_safe(s[i]) {
            let mut m = text::chars_of("rejected shell metacharacter '");
            let ghost head = m@;
            m.push(s[i]);
            assert(m@ == head + seq![s@[i as int]]);
            text::push_str(&mut m, "' in command: ");
            text::push_str(&mut m, cmd);
            return Err(start_failed(&m));
        }
        i = i + 1;
    }
    if s[0] == '-' {
        let mut m = text::chars_of("command must not start with '-': ");
        text::push_str(&mut m, cmd);
        return Err(start_failed(&m));
    }
    Ok(())
}

proof fn safe_throughout(s: Seq<char>)
    requires
        first_unsafe(s) is None,
    ensures
        forall|i: int| 0 <= i < s.len() ==> shell_safe(#[trigger] s[i]),
    decreases s.len(),
{
    if s.len() > 0 {
        safe_throughout(s.drop_first());
        assert forall|i: int| 0 <= i < s.len() implies shell_safe(#[trigger] s[i]) by {
            if i > 0 {
                assert(s[i] == s.drop_first()[i - 1]);
            }
        }
    }
}

/// Nothing that ends a command, starts another, or is expanded by the shell
/// stands in a command that was accepted.
pub proof fn accepted_commands_are_plain(cmd: Seq<char>)
    requires
        first_unsafe(cmd) is None,
    ensures
        forall|i: int| 0 <= i < cmd.len() ==> shell_safe(#[trigger] cmd[i]),
        !cmd.contains(';'),
        !cmd.contains('&'),
        !cmd.contains('|'),
        !cmd.contains('$'),
        !cmd.contains('`'),
        !cmd.contains('\n'),
        !cmd.contains('>'),
        !cmd.contains('<'),
        !cmd.contains('"'),
        !cmd.contains('\\'),
        !cmd.contains('('),
{
    safe_throughout(cmd);
}

/// Where a program would be in each directory of a search path, the empty ones
/// too, which stand for the current directory.
pub open spec fn in_search_path(path: Seq<char>, name: Seq<char>) -> Seq<Seq<char>>
    decreases path.len(),
{
    let n = paths::until_colon(path);
    let here = seq![paths::joined(path.take(n as int), name)];
    if n < path.len() {
        proof {
            paths::colon_bound(path);
        }
        here + in_search_path(path.skip((n + 1) as int), name)
    } else {
        here
    }
}

/// Where a program would be: at its name where that is a path, or in the
/// directories of the search path, where there is one.
pub open spec fn candidates(name: Seq<char>, path: Option<Seq<char>>) -> Seq<Seq<char>> {
    if name.contains('/') {
        seq![name]
    } else {
        match path {
            Some(p) => in_search_path(p, name),
            None => Seq::empty(),
        }
    }
}

/// Where a program would be, in the order in which to look.
pub fn program_candidates(name: &str, path: Option<&str>) -> (v: Vec<String>)
    ensures
        text::texts(v@) == candidates(
            name@,
            match path {
                Some(p) => Some(p@),
                None => None,
            },
        ),
{
    let mut v: Vec<String> = Vec::new();
    assert(text::texts(v@) == Seq::<Seq<char>>::empty());
    if text::contains_char(&text::chars_of(name), '/') {
        text::push_text(&mut v, name);
        assert(text::texts(v@) == seq![name@]);
        return v;
    }
    if let Some(p) = path {
        let s = text::chars_of(p);
        let mut i: usize = 0;
        let mut more = true;
        assert(s@.skip(0) == s@);
        assert(text::texts(v@) + in_search_path(s@, name@) == in_search_path(s@, name@));
        while more
            invariant
                i <= s@.len(),
                more ==> text::texts(v@) + in_search_path(s@.skip(i as int), name@)
                    == in_search_path(s@, name@),
                !more ==> text::texts(v@) == in_search_path(s@, name@),
            decreases s@.len() - i + (if more {
                1int
            } else {
                0int
            }),
        {
            let ghost rest = s@.skip(i as int);
            let ghost before = text::texts(v@);
            let mut j: usize = i;
            assert(s@.skip(j as int) == rest);
            while j < s.len() && s[j] != ':'
                invariant
                    i <= j <= s@.len(),
                    rest == s@.skip(i as int),
                    paths::until_colon(rest) == (j - i) + paths::until_colon(s@.skip(j as int)),
                decreases s@.len() - j,
            {
                assert(s@.skip(j as int).drop_first() == s@.skip(j + 1));
                j = j + 1;
            }
            let dir = text::text_of(&text::slice_chars(&s, i, j));
            let file = paths::join(dir.as_str(), name);
            text::push_text(&mut v, file.as_str());
            proof {
                assert(paths::until_colon(rest) == j - i);
                assert(rest.take(j - i) == dir@);
                assert(before.push(file@) == before + seq![file@]);
            }
            if j < s.len() {
                proof {
                    assert(rest.skip(j - i + 1) == s@.skip(j + 1));
                    assert(before + (seq![file@] + in_search_path(s@.skip(j + 1), name@))
                        == text::texts(v@) + in_search_path(s@.skip(j + 1), name@));
                }
                i = j + 1;
            } else {
                more = false;
            }
        }
        assert(s@ == p@);
    }
    v
}

/// Whether a file is a program: an ordinary file that somebody may execute.
pub fn is_executable_file(is_file: bool, mode: u32) -> (b: bool)
    ensures
        b == (is_file && mode & 0x49 != 0),
{
    is_file && mode & 0x49 != 0
}

/// The terminals that are looked for, in order.
pub const TERMINALS: [&'static str; 5] = ["konsole", "foot", "alacritty", "xfce4-terminal", "xterm"];

/// The first of some names that is installed.
pub open spec fn first_installed(names: Seq<Seq<char>>, installed: Seq<Seq<char>>) -> Option<
    Seq<char>,
>
    decreases names.len(),
{
    if names.len() == 0 {
        None
    } else if installed.contains(names[0]) {
        Some(names[0])
    } else {
        first_installed(names.skip(1), installed)
    }
}

/// The names of the terminals that are looked for.
pub open spec fn terminal_names() -> Seq<Seq<char>> {
    seq!["konsole"@, "foot"@, "alacritty"@, "xfce4-terminal"@, "xterm"@]
}

/// The terminal to use: the first that is installed, or `xterm`.
pub open spec fn terminal(installed: Seq<Seq<char>>) -> Seq<char> {
    match first_installed(terminal_names(), installed) {
        Some(t) => t,
        None => "xterm"@,
    }
}

fn is_installed(name: &str, installed: &[String]) -> (b: bool)
    ensures
        b == text::texts(installed@).contains(name@),
{
    let ghost all = text::texts(installed@);
    let mut i: usize = 0;
    while i < installed.len()
        invariant
            i <= installed@.len(),
            all == text::texts(installed@),
            forall|k: int| 0 <= k < i ==> all[k] != name@,
        decreases installed@.len() - i,
    {
        if text::same_text(installed[i].as_str(), name) {
            assert(all[i as int] == name@);
            return true;
        }
        i = i + 1;
    }
    false
}

/// Finds a terminal among the programs that are installed.
pub fn detect_terminal(installed: &[String]) -> (s: String)
    ensures
        s@ == terminal(text::texts(installed@)),
{
    let names = TERMINALS;
    let ghost all = terminal_names();
    let mut i: usize = 0;
    assert(all.skip(0) == all);
    while i < 5
        invariant
            i <= 5,
            names == TERMINALS,
            all == terminal_names(),
            first_installed(all, text::texts(installed@)) == first_installed(
                all.skip(i as int),
                text::texts(installed@),
            ),
        decreases 5 - i,
    {
        assert(all.skip(i as int)[0] == names@[i as int]@);
        assert(all.skip(i as int).skip(1) == all.skip(i + 1));
        if is_installed(names[i], installed) {
            return String::from_str(names[i]);
        }
        i = i + 1;
    }
    assert(all.skip(5).len() == 0);
    String::from_str("xterm")
}

/// Finds what a desktop starts: Plasma's panels with a terminal in front, whose
/// end ends the session, or the terminal alone.
pub fn detect_desktop_shell(installed: &[String]) -> (s: String)
    ensures
        ({
            let all = text::texts(installed@);
            s@ == (if all.contains("plasmashell"@) && all.contains("dbus-run-session"@) {
                "dbus-run-session sh -c 'plasmashell & exec "@ + terminal(all) + "'"@
            } else {
                terminal(all)
            })
        }),
{
    let t = detect_terminal(installed);
    if is_installed("plasmashell", installed) && is_installed("dbus-run-session", installed) {
        let mut out = text::chars_of("dbus-run-session sh -c 'plasmashell & exec ");
        text::push_str(&mut out, t.as_str());
        text::push_str(&mut out, "'");
        text::text_of(&out)
    } else {
        t
    }
}

proof fn first_installed_is(names: Seq<Seq<char>>, installed: Seq<Seq<char>>)
    ensures
        first_installed(names, installed) matches Some(t) ==> installed.contains(t),
        first_installed(names, installed) is None ==> forall|i: int|
            0 <= i < names.len() ==> !installed.contains(#[trigger] names[i]),
    decreases names.len(),
{
    if names.len() > 0 && !installed.contains(names[0]) {
        let rest = names.skip(1);
        first_installed_is(rest, installed);
        if first_installed(names, installed) is None {
            assert forall|i: int| 0 <= i < names.len() implies !installed.contains(
                #[trigger] names[i],
            ) by {
                if i > 0 {
                    assert(names[i] == rest[i - 1]);
                }
            }
        }
    }
}

/// The terminal that is found is installed wherever any is.
pub proof fn a_terminal_that_exists_is_found(installed: Seq<Seq<char>>, i: int)
    requires
        0 <= i < terminal_names().len(),
        installed.contains(terminal_names()[i]),
    ensures
        installed.contains(terminal(installed)),
{
    first_installed_is(terminal_names(), installed);
}

/// Whether a variable is given a value.
pub open spec fn sets(v: Seq<Variable>, name: Seq<char>, value: Seq<char>) -> bool {
    exists|i: int| 0 <= i < v.len() && (#[trigger] v[i]).name@ == name && v[i].value@ == value
}

proof fn view_sets(v: Seq<Variable>, i: int, name: Seq<char>, value: Seq<char>)
    requires
        0 <= i < v.len(),
        variables(v)[i] == (name, value),
    ensures
        sets(v, name, value),
{
    assert(variables(v)[i] == (v[i].name@, v[i].value@));
}

/// A session that is run for a user has that user's home, name and directory; it
/// becomes that user only after its groups are set, and for good. Every session
/// has a screen of the size asked for, its own sound where there is one, and
/// nothing of the desktop that started it.
pub proof fn sessions_run_for_their_user(
    program: &str,
    width: u32,
    height: u32,
    run_as: Option<TargetUser>,
    sink: Option<&str>,
    own_dir: Option<String>,
    own_uid: u32,
    p: LaunchPlan,
)
    requires
        call_ensures(
            detached_compositor_command,
            (program, width, height, run_as, sink, own_dir, own_uid),
            p,
        ),
    ensures
        p.program@ == program@ && p.args@.len() == 0,
        sets(p.set@, "WLR_BACKENDS"@, "headless"@),
        sets(
            p.set@,
            "WLR_HEADLESS_OUTPUT_MODE"@,
            text::decimal(width as nat) + "x"@ + text::decimal(height as nat),
        ),
        sink matches Some(s) ==> sets(p.set@, "PULSE_SINK"@, s@),
        text::texts(p.unset@).contains("WAYLAND_DISPLAY"@),
        text::texts(p.unset@).contains("DISPLAY"@),
        run_as matches Some(t) ==> {
            &&& sets(p.set@, "HOME"@, t.home@)
            &&& sets(p.set@, "USER"@, t.username@)
            &&& sets(p.set@, "LOGNAME"@, t.username@)
            &&& sets(p.set@, "XDG_RUNTIME_DIR"@, p.runtime_dir@)
            &&& p.runtime_dir@.len() > 10
            &&& text::decimal_value(p.runtime_dir@.skip(10)) == t.uid
            &&& p.child_steps@.len() == 4
            &&& p.child_steps@[0] is NewSession
            &&& p.child_steps@[1] matches ChildStep::InitGroups(name, gid) && name@ == t.username@
                && gid == t.gid
            &&& p.child_steps@[2] == ChildStep::SetGid(t.gid)
            &&& p.child_steps@[3] == ChildStep::SetUid(t.uid)
        },
        run_as is None ==> {
            &&& p.child_steps@.len() == 1 && p.child_steps@[0] is NewSession
            &&& own_dir matches Some(d) ==> p.runtime_dir@ == d@
            &&& own_dir is None ==> text::decimal_value(p.runtime_dir@.skip(10)) == own_uid
        },
{
    let v = variables(p.set@);
    let n: int = if sink is Some {
        5
    } else {
        4
    };
    assert(v.len() == p.set@.len());
    view_sets(p.set@, 0, "WLR_BACKENDS"@, "headless"@);
    view_sets(
        p.set@,
        2,
        "WLR_HEADLESS_OUTPUT_MODE"@,
        text::decimal(width as nat) + "x"@ + text::decimal(height as nat),
    );
    if let Some(s) = sink {
        view_sets(p.set@, 4, "PULSE_SINK"@, s@);
    }
    let u = text::texts(p.unset@);
    assert(u[0] == "WAYLAND_DISPLAY"@ && u[1] == "DISPLAY"@);
    reveal_strlit("/run/user/");
    match run_as {
        Some(t) => {
            view_sets(p.set@, n, "HOME"@, t.home@);
            view_sets(p.set@, n + 1, "USER"@, t.username@);
            view_sets(p.set@, n + 2, "LOGNAME"@, t.username@);
            view_sets(p.set@, n + 3, "XDG_RUNTIME_DIR"@, user_runtime_dir(t.uid));
            text::decimals_read_back(t.uid as nat);
            assert(user_runtime_dir(t.uid).skip(10) =~= text::decimal(t.uid as nat));
        },
        None => {
            if own_dir is None {
                text::decimals_read_back(own_uid as nat);
                assert(user_runtime_dir(own_uid).skip(10) =~= text::decimal(own_uid as nat));
            }
        },
    }
}

/// A session is never isolated as the one user that may do everything, nor as
/// one that is not known or has no home; else it gets what is known of its user.
pub proof fn sessions_are_isolated_as_plain_users(
    username: &str,
    entry: Option<PasswdEntry>,
    r: Result<TargetUser, CompositorError>,
    c: Result<(), CompositorError>,
)
    requires
        call_ensures(resolve_target_user, (username, entry), r),
        call_ensures(check_username, (username,), c),
    ensures
        r matches Ok(t) ==> t.uid != 0,
        r matches Ok(t) ==> t.username@ == username@ && (entry matches Some(e) && e.uid == t.uid
            && e.gid == t.gid && e.home == Some(t.home)),
        r is Ok <==> (entry matches Some(e) && e.uid != 0 && e.home is Some),
        r matches Err(e) ==> e is StartFailed,
        c is Ok <==> !username@.contains('\0'),
{
}

/// A lookup that lacks room is tried again with twice as much, up to a limit;
/// one that succeeds is done, and any other failure is told with its number.
pub proof fn lookups_get_more_room(
    username: &str,
    errno: i32,
    too_small: bool,
    size: usize,
    s: LookupStep,
)
    requires
        call_ensures(lookup_step, (username, errno, too_small, size), s),
    ensures
        s is Done <==> errno == 0,
        s is Retry <==> errno != 0 && too_small && size < 1048576,
        s matches LookupStep::Retry(n) ==> n == size + size,
        s is Fail <==> errno != 0 && (!too_small || size >= 1048576),
{
}

/// A runtime directory that is missing is made, given to its user and closed to
/// all others, in this order; one that is there is left alone.
pub proof fn runtime_directories_are_private(
    found: bool,
    v: Vec<RuntimeDirStep>,
    uid: u32,
    d: String,
    step: RuntimeDirStep,
    target: &TargetUser,
    error: &str,
    e: CompositorError,
)
    requires
        call_ensures(ensure_runtime_dir, (found,), v),
        call_ensures(runtime_dir_of, (uid,), d),
        call_ensures(runtime_dir_error, (step, target, error), e),
    ensures
        found ==> v@.len() == 0,
        !found ==> v@.len() == 3 && v@[0] is Make && v@[1] is GiveAway && v@[2] is Restrict,
        RUNTIME_DIR_MODE == 7 * 64,
        d@.take(10) == "/run/user/"@,
        text::decimal_value(d@.skip(10)) == uid,
        e matches CompositorError::StartFailed(m) && m@.len() >= error@.len() && m@.skip(
            m@.len() - error@.len(),
        ) == error@,
{
    reveal_strlit("/run/user/");
    text::decimals_read_back(uid as nat);
    assert(d@.take(10) =~= "/run/user/"@);
    assert(d@.skip(10) =~= text::decimal(uid as nat));
    if let CompositorError::StartFailed(m) = e {
        assert(m@.skip(m@.len() - error@.len()) =~= error@);
    }
}

proof fn first_announced_is_one(lines: Seq<Seq<char>>, i: int)
    requires
        0 <= i < lines.len(),
        announced(lines[i]) is Some,
        forall|k: int| 0 <= k < i ==> announced(#[trigger] lines[k]) is None,
    ensures
        first_announced(lines) == announced(lines[i]),
    decreases lines.len(),
{
    if i > 0 {
        let t = lines.skip(1);
        assert(announced(lines[0]) is None);
        assert(t[i - 1] == lines[i]);
        assert forall|k: int| 0 <= k < i - 1 implies announced(#[trigger] t[k]) is None by {
            assert(t[k] == lines[k + 1]);
        }
        first_announced_is_one(t, i - 1);
    }
}

/// The compositor announces its socket before it runs what it was started for:
/// the line that it writes is the one that is looked for, and the name behind
/// the mark is the socket, whatever was written before.
pub proof fn sockets_are_announced_and_found(
    command: &str,
    s: String,
    content: &str,
    r: Option<String>,
    i: int,
    name: Seq<char>,
)
    requires
        call_ensures(socket_wrapper_cmd, (command,), s),
        call_ensures(socket_in_log, (content,), r),
        0 <= i < text::lines(content@).len(),
        text::lines(content@)[i] == "TERMLAND_SOCKET:"@ + name,
        text::trimmed(name).len() > 0,
        forall|k: int|
            0 <= k < i ==> !text::has_prefix(#[trigger] text::lines(content@)[k], "TERMLAND"@),
    ensures
        s@.len() >= command@.len(),
        s@.skip(s@.len() - command@.len()) == command@,
        s@.take(6) == "echo \""@,
        s@.subrange(6, 22) == "TERMLAND_SOCKET:"@,
        r matches Some(n) && n@ == text::trimmed(name),
{
    reveal_strlit("echo \"TERMLAND_SOCKET:$WAYLAND_DISPLAY\" >&2; exec ");
    reveal_strlit("echo \"");
    reveal_strlit("TERMLAND_SOCKET:");
    reveal_strlit("TERMLAND");
    assert(s@.skip(s@.len() - command@.len()) =~= command@);
    assert(s@.take(6) =~= "echo \""@);
    assert(s@.subrange(6, 22) =~= "TERMLAND_SOCKET:"@);
    let rows = text::lines(content@);
    let mark = "TERMLAND_SOCKET:"@;
    assert(rows[i].skip(16) =~= name);
    assert(rows[i].take(16) =~= mark);
    assert forall|k: int| 0 <= k < i implies announced(#[trigger] rows[k]) is None by {
        if text::has_prefix(rows[k], mark) {
            assert(rows[k].take(8) =~= rows[k].take(16).take(8));
            assert(mark.take(8) =~= "TERMLAND"@);
            assert(text::has_prefix(rows[k], "TERMLAND"@));
        }
    }
    first_announced_is_one(rows, i);
}

/// Starting is over when the socket is announced, when the compositor ended or
/// after ten seconds; the socket is then waited for three seconds more.
pub proof fn starts_end(
    content: Option<&str>,
    exited: Option<&str>,
    log_path: &str,
    elapsed_ms: u64,
    s: StartStep,
    text: &str,
    r: Option<String>,
    found: bool,
    b: bool,
)
    requires
        call_ensures(read_socket_from_log, (content, exited, log_path, elapsed_ms), s),
        call_ensures(socket_in_log, (text,), r),
        call_ensures(wait_socket_ready, (found, elapsed_ms), b),
        content matches Some(c) ==> c@ == text@,
    ensures
        elapsed_ms >= 10000 ==> s is Fail,
        elapsed_ms < 10000 && content is Some ==> (r matches Some(n) ==> (
        s matches StartStep::Listening(m) && m@ == n@)),
        s is Listening ==> content is Some && r is Some && elapsed_ms < 10000,
        elapsed_ms < 10000 && (content is None || r is None) ==> (s is Fail <==> exited is Some) && (
        s is Wait <==> exited is None),
        found ==> b,
        elapsed_ms >= 3000 ==> b,
        !found && elapsed_ms < 3000 ==> !b,
{
}

proof fn unsafe_is_found(s: Seq<char>)
    ensures
        first_unsafe(s) is None <==> forall|i: int| 0 <= i < s.len() ==> shell_safe(#[trigger] s[i]),
        first_unsafe(s) matches Some(c) ==> s.contains(c) && !shell_safe(c),
    decreases s.len(),
{
    if s.len() > 0 && shell_safe(s[0]) {
        let t = s.drop_first();
        unsafe_is_found(t);
        if first_unsafe(s) is None {
            assert forall|i: int| 0 <= i < s.len() implies shell_safe(#[trigger] s[i]) by {
                if i > 0 {
                    assert(t[i - 1] == s[i]);
                }
            }
        } else {
            let c = first_unsafe(s)->0;
            let k = choose|k: int| 0 <= k < t.len() && t[k] == c;
            assert(s[k + 1] == c);
        }
    }
}

/// A command is run by the shell only where it holds no character that the shell
/// reads: letters, digits and a few plain signs. It is not empty, and no option.
pub proof fn only_plain_commands_are_run(cmd: &str, r: Result<(), CompositorError>)
    requires
        call_ensures(validate_shell_command, (cmd,), r),
    ensures
        cmd@.len() == 0 ==> r is Err,
        cmd@.len() > 0 && cmd@[0] == '-' ==> r is Err,
        r is Ok ==> forall|c: char| #[trigger]
            cmd@.contains(c) ==> 'a' <= c <= 'z' || 'A' <= c <= 'Z' || '0' <= c <= '9' || c == ' '
                || c == '-' || c == '_' || c == '.' || c == '/' || c == '=' || c == ':' || c == ','
                || c == '\'' || c == '@',
        cmd@.len() > 0 && cmd@[0] != '-' && (forall|i: int|
            0 <= i < cmd@.len() ==> {
                let c = #[trigger] cmd@[i];
                'a' <= c <= 'z' || 'A' <= c <= 'Z' || '0' <= c <= '9' || c == ' ' || c == '-' || c
                    == '_' || c == '.' || c == '/' || c == '=' || c == ':' || c == ',' || c == '\''
                    || c == '@'
            }) ==> r is Ok,
        r matches Err(e) ==> e is StartFailed,
{
    unsafe_is_found(cmd@);
    if r is Ok {
        assert forall|c: char| #[trigger] cmd@.contains(c) implies shell_safe(c) by {
            let i = choose|i: int| 0 <= i < cmd@.len() && cmd@[i] == c;
            assert(shell_safe(cmd@[i]));
        }
    } else if cmd@.len() > 0 && cmd@[0] != '-' {
        let c = first_unsafe(cmd@)->0;
        let i = choose|i: int| 0 <= i < cmd@.len() && cmd@[i] == c;
        assert(!shell_safe(cmd@[i]));
    }
}

/// A program that is named by a path is looked for there alone; any other in
/// each directory of the search path, in its order.
pub proof fn programs_are_looked_for_along_the_path(
    name: &str,
    path: Option<&str>,
    v: Vec<String>,
    first: Seq<char>,
    rest: Seq<char>,
)
    requires
        call_ensures(program_candidates, (name, path), v),
        !first.contains(':'),
    ensures
        name@.contains('/') ==> v@.len() == 1 && v@[0]@ == name@,
        !name@.contains('/') && path is None ==> v@.len() == 0,
        !name@.contains('/') ==> (path matches Some(p) ==> v@.len() > 0 && text::texts(v@)
            == in_search_path(p@, name@)),
        in_search_path(first, name@).len() == 1,
        paths::stands_below(in_search_path(first, name@)[0], first, name@),
        in_search_path(first + seq![':'] + rest, name@) == in_search_path(first, name@)
            + in_search_path(rest, name@),
{
    let t = text::texts(v@);
    assert(t.len() == v@.len());
    if t.len() > 0 {
        assert(t[0] == v@[0]@);
    }
    let n = first.len() as int;
    let s = first + seq![':'] + rest;
    assert(forall|i: int| 0 <= i < n ==> #[trigger] first[i] != ':');
    colon_ends_the_first(first, rest);
    assert(first.take(n) =~= first);
    assert(s.take(n) =~= first);
    assert(s.skip(n + 1) =~= rest);
    paths::joined_stands_below(first, name@);
}

proof fn colon_ends_the_first(first: Seq<char>, rest: Seq<char>)
    requires
        forall|i: int| 0 <= i < first.len() ==> #[trigger] first[i] != ':',
    ensures
        paths::until_colon(first) == first.len(),
        paths::until_colon(first + seq![':'] + rest) == first.len(),
    decreases first.len(),
{
    let s = first + seq![':'] + rest;
    if first.len() == 0 {
        assert(s[0] == ':');
    } else {
        let t = first.drop_first();
        assert forall|i: int| 0 <= i < t.len() implies #[trigger] t[i] != ':' by {
            assert(t[i] == first[i + 1]);
        }
        colon_ends_the_first(t, rest);
        assert(s[0] == first[0]);
        assert(s.drop_first() =~= t + seq![':'] + rest);
    }
}

/// A file can be run where anyone may run it. The terminal is the first of those
/// known that is installed, and the desktop runs it, under Plasma where that and
/// its bus are there.
pub proof fn installed_programs_are_used(
    is_file: bool,
    mode: u32,
    b: bool,
    installed: &[String],
    t: String,
    d: String,
)
    requires
        call_ensures(is_executable_file, (is_file, mode), b),
        call_ensures(detect_terminal, (installed,), t),
        call_ensures(detect_desktop_shell, (installed,), d),
    ensures
        !is_file ==> !b,
        is_file ==> (b <==> mode & 0x40 != 0 || mode & 0x8 != 0 || mode & 0x1 != 0),
        ({
            let all = text::texts(installed@);
            let names = seq!["konsole"@, "foot"@, "alacritty"@, "xfce4-terminal"@, "xterm"@];
            &&& forall|i: int|
                0 <= i < 5 && all.contains(#[trigger] names[i]) && (forall|k: int|
                    0 <= k < i ==> !all.contains(#[trigger] names[k])) ==> t@ == names[i]
            &&& (forall|i: int| 0 <= i < 5 ==> !all.contains(#[trigger] names[i])) ==> t@
                == "xterm"@
            &&& !all.contains("plasmashell"@) || !all.contains("dbus-run-session"@) ==> d@ == t@
            &&& all.contains("plasmashell"@) && all.contains("dbus-run-session"@) ==> d@
                == "dbus-run-session sh -c 'plasmashell & exec "@ + t@ + "'"@
        }),
{
    assert(mode & 0x49 != 0 <==> mode & 0x40 != 0 || mode & 0x8 != 0 || mode & 0x1 != 0)
        by (bit_vector);
    let all = text::texts(installed@);
    let n = terminal_names();
    let n1 = n.skip(1);
    let n2 = n1.skip(1);
    let n3 = n2.skip(1);
    let n4 = n3.skip(1);
    assert(n4.skip(1) =~= Seq::empty());
    assert(n1[0] == n[1] && n2[0] == n[2] && n3[0] == n[3] && n4[0] == n[4]);
    assert(first_installed(n4.skip(1), all) is None);
    assert(first_installed(n4, all) == if all.contains(n[4]) {
        Some(n[4])
    } else {
        None::<Seq<char>>
    });
    assert(first_installed(n3, all) == if all.contains(n[3]) {
        Some(n[3])
    } else {
        first_installed(n4, all)
    });
    assert(first_installed(n2, all) == if all.contains(n[2]) {
        Some(n[2])
    } else {
        first_installed(n3, all)
    });
    assert(first_installed(n1, all) == if all.contains(n[1]) {
        Some(n[1])
    } else {
        first_installed(n2, all)
    });
}

} // verus!
