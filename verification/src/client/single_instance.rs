//! One manager at a time. The running manager holds a lock for as long as it
//! lives and listens on a socket; a later launch asks it over the socket to
//! show its window, and exits. Locking, binding and connecting are the
//! caller's; the rules are here.
use vstd::prelude::*;
use crate::paths;
use crate::text;

verus! {

/// The file that the running manager holds locked.
pub const LOCK_FILE: &'static str = "manager.lock";

/// The socket that the running manager listens on.
pub const SOCKET_FILE: &'static str = "manager.sock";

/// The request to show the window.
pub const SHOW: &'static str = "show";

/// The directory of the lock and the socket: `termland` under the runtime
/// directory, or one of the user's own under the directory for temporary files
/// where there is none.
pub open spec fn instance_dir(
    xdg_runtime_dir: Option<Seq<char>>,
    temp_dir: Seq<char>,
    uid: u32,
) -> Seq<char> {
    match xdg_runtime_dir {
        Some(d) => paths::joined(d, "termland"@),
        None => paths::joined(temp_dir, "termland-"@ + text::decimal(uid as nat)),
    }
}

/// The directory of the lock and the socket.
pub fn runtime_dir(xdg_runtime_dir: Option<String>, temp_dir: &str, uid: u32) -> (d: String)
    ensures
        d@ == instance_dir(text::optional(xdg_runtime_dir), temp_dir@, uid),
{
    match xdg_runtime_dir {
        Some(d) => paths::join(d.as_str(), "termland"),
        None => {
            let mut name = text::chars_of("termland-");
            let mut digits = text::decimal_chars(uid as u64);
            name.append(&mut digits);
            paths::join(temp_dir, text::text_of(&name).as_str())
        },
    }
}

/// The file of the lock in the manager's directory.
pub fn lock_path(dir: &str) -> (p: String)
    ensures
        p@ == paths::joined(dir@, "manager.lock"@),
{
    paths::join(dir, "manager.lock")
}

/// The socket in the manager's directory.
pub fn socket_path(dir: &str) -> (p: String)
    ensures
        p@ == paths::joined(dir@, "manager.sock"@),
{
    paths::join(dir, "manager.sock")
}

/// Whether a directory is one's own and nobody else may write to it: its group
/// and others lack the write permission. Reading is harmless.
pub open spec fn private(owner: u32, mode: u32, uid: u32) -> bool {
    owner == uid && mode & 0x12 == 0
}

/// Refuses a directory that another user owns or may write to: it could hold a
/// socket of theirs.
pub fn check_private_dir(dir: &str, owner: u32, mode: u32, uid: u32) -> (r: Result<(), String>)
    ensures
        r is Ok <==> private(owner, mode, uid),
        r matches Err(e) ==> e@ == dir@ + " must be owned by uid "@ + text::decimal(uid as nat)
            + " and writable only by it"@,
{
    if owner == uid && mode & 0x12 == 0 {
        Ok(())
    } else {
        let mut out = text::chars_of(dir);
        text::push_str(&mut out, " must be owned by uid ");
        let mut digits = text::decimal_chars(uid as u64);
        out.append(&mut digits);
        text::push_str(&mut out, " and writable only by it");
        Err(text::text_of(&out))
    }
}

/// A directory of one's own is private exactly where neither its group nor
/// others may write to it, whatever else they may do.
pub proof fn writing_decides_privacy(mode: u32, uid: u32)
    ensures
        private(uid, mode, uid) <==> mode & 0x10 == 0 && mode & 0x2 == 0,
        forall|owner: u32| owner != uid ==> !#[trigger] private(owner, mode, uid),
{
    assert(mode & 0x12 == 0 <==> mode & 0x10 == 0 && mode & 0x2 == 0) by (bit_vector);
}

/// What trying to take the lock came to.
#[derive(Debug, Clone, Copy, PartialEq, Eq, Structural)]
pub enum LockResult {
    Taken,
    WouldBlock,
    Failed,
}

/// What a launch is.
#[derive(Debug, Clone, Copy, PartialEq, Eq, Structural)]
pub enum Instance {
    /// No other manager runs.
    Primary,
    /// Another manager holds the lock.
    Secondary,
}

/// What a launch is by its try for the lock, or nothing where the try failed
/// for another reason.
pub fn acquire(lock: LockResult) -> (r: Option<Instance>)
    ensures
        r == (match lock {
            LockResult::Taken => Some(Instance::Primary),
            LockResult::WouldBlock => Some(Instance::Secondary),
            LockResult::Failed => None,
        }),
{
    match lock {
        LockResult::Taken => Some(Instance::Primary),
        LockResult::WouldBlock => Some(Instance::Secondary),
        LockResult::Failed => None,
    }
}

/// Whether a line asks to show the window.
pub open spec fn asks(line: Seq<char>) -> bool {
    text::trimmed(line) == "show"@
}

/// The line that asks for it.
pub open spec fn request() -> Seq<char> {
    "show"@ + "\n"@
}

/// The line that asks the running manager to show its window.
pub fn show_request() -> (s: String)
    ensures
        s@ == request(),
{
    let mut out = text::chars_of("show");
    text::push_str(&mut out, "\n");
    text::text_of(&out)
}

/// Whether a line asks to show the window.
pub fn asks_to_show(line: &str) -> (b: bool)
    ensures
        b == asks(line@),
{
    text::chars_equal(&text::trim(&text::chars_of(line)), &text::chars_of("show"))
}

/// What one manager asks for, the other understands.
pub proof fn show_requests_are_understood()
    ensures
        asks(request()),
{
    reveal_strlit("show");
    reveal_strlit("\n");
    let s = "show"@ + "\n"@;
    assert(s.drop_last() == "show"@);
    assert(text::trim_start(s) == s);
    assert(text::white(s.last()));
    assert(text::trim_end(s) == text::trim_end(s.drop_last()));
}

/// Why the running manager could not be reached.
#[derive(Debug, Clone, Copy, PartialEq, Eq, Structural)]
pub enum ConnectFailure {
    NotFound,
    Refused,
    Other,
}

/// How long a launch tries to reach the running manager, in milliseconds.
pub const SHOW_DEADLINE_MS: u64 = 3000;

/// How long it waits between tries, in milliseconds.
pub const SHOW_RETRY_MS: u64 = 50;

/// Whether to try again to reach the running manager: it takes its lock before
/// it listens, so for a moment nothing answers.
pub fn retry_show(failure: ConnectFailure, elapsed_ms: u64) -> (b: bool)
    ensures
        b == (failure != ConnectFailure::Other && elapsed_ms < SHOW_DEADLINE_MS),
{
    failure != ConnectFailure::Other && elapsed_ms < SHOW_DEADLINE_MS
}

/// The manager's files stand in a directory of its user: below the runtime
/// directory where there is one, and else in one that carries the user's number.
/// The lock and the socket are two files of it.
pub proof fn instances_meet_in_the_users_directory(
    xdg: Option<String>,
    temp_dir: &str,
    uid: u32,
    d: String,
    dir: &str,
    lock: String,
    socket: String,
)
    requires
        call_ensures(runtime_dir, (xdg, temp_dir, uid), d),
        call_ensures(lock_path, (dir,), lock),
        call_ensures(socket_path, (dir,), socket),
    ensures
        xdg matches Some(x) ==> paths::stands_below(d@, x@, "termland"@),
        xdg is None ==> paths::stands_below(
            d@,
            temp_dir@,
            "termland-"@ + text::decimal(uid as nat),
        ),
        paths::stands_below(lock@, dir@, LOCK_FILE@),
        paths::stands_below(socket@, dir@, SOCKET_FILE@),
        lock@ != socket@,
{
    if let Some(x) = xdg {
        paths::joined_stands_below(x@, "termland"@);
    }
    paths::joined_stands_below(temp_dir@, "termland-"@ + text::decimal(uid as nat));
    paths::joined_stands_below(dir@, "manager.lock"@);
    paths::joined_stands_below(dir@, "manager.sock"@);
    reveal_strlit("manager.lock");
    reveal_strlit("manager.sock");
    assert("manager.lock"@.len() == 12 && "manager.sock"@.len() == 12);
    assert("manager.lock"@[8] == 'l' && "manager.sock"@[8] == 's');
    assert(lock@.skip(lock@.len() - 12)[8] != socket@.skip(socket@.len() - 12)[8]);
}

/// A directory is trusted only where its user alone owns it and may write to it;
/// one who may only read or enter it does no harm. A refusal names the
/// directory.
pub proof fn only_private_directories_are_trusted(
    dir: &str,
    owner: u32,
    mode: u32,
    uid: u32,
    r: Result<(), String>,
)
    requires
        call_ensures(check_private_dir, (dir, owner, mode, uid), r),
    ensures
        owner != uid ==> r is Err,
        mode & 0x10 != 0 ==> r is Err,
        mode & 0x2 != 0 ==> r is Err,
        owner == uid && mode & 0x10 == 0 && mode & 0x2 == 0 ==> r is Ok,
        r matches Err(e) ==> e@.len() > dir@.len() && e@.take(dir@.len() as int) == dir@,
{
    writing_decides_privacy(mode, uid);
    if let Err(e) = r {
        reveal_strlit(" must be owned by uid ");
        assert(e@.take(dir@.len() as int) =~= dir@);
    }
}

/// One that holds the lock is the first, one that cannot have it a later one.
/// What a later one asks is understood, and it asks until it is answered or its
/// time is up.
pub proof fn later_instances_ask_the_first(
    lock: LockResult,
    i: Option<Instance>,
    said: String,
    line: &str,
    asked: bool,
    failure: ConnectFailure,
    elapsed_ms: u64,
    again: bool,
)
    requires
        call_ensures(acquire, (lock,), i),
        call_ensures(show_request, (), said),
        call_ensures(asks_to_show, (line,), asked),
        call_ensures(retry_show, (failure, elapsed_ms), again),
    ensures
        lock is Taken <==> i == Some(Instance::Primary),
        lock is WouldBlock <==> i == Some(Instance::Secondary),
        lock is Failed <==> i is None,
        line@ == said@ ==> asked,
        asked ==> text::trimmed(line@) == SHOW@,
        text::trimmed(line@) == SHOW@ ==> asked,
        said@.len() > 0 && said@.last() == '\n',
        elapsed_ms >= 3000 ==> !again,
        failure is Other ==> !again,
        elapsed_ms < 3000 && (failure is NotFound || failure is Refused) ==> again,
{
    show_requests_are_understood();
    reveal_strlit("\n");
    assert(said@.last() == "\n"@[0]);
}

} // verus!
