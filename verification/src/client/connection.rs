//! The connection to a server: handshake, session, reconnecting, and files on
//! the clipboard. These functions decide; their callers send, receive and
//! wait.
use std::collections::VecDeque;
use vstd::prelude::*;
use crate::codec::audio;
use crate::paths;
use crate::pixels;
use crate::protocol::clipboard_files;
use crate::protocol::messages;
use crate::protocol::input::{KeyEvent, MouseButton, MouseMove, MouseScroll};
use crate::protocol::messages::{
    AudioCodec, AuthResponse, ClipboardPayload, CursorModeMsg, CursorUpdate, FileEntry,
    FileTransferPayload, Hello, Message, Pong, SessionAttach, SessionCreate, SessionEnd,
    SessionInfo, SessionMode, SessionReady, SessionResize, VideoCodec, MAX_FILE_TRANSFER_BYTES,
    PROTOCOL_VERSION,
};
use crate::text;

verus! {

/// What the display is told.
#[derive(Debug, Clone)]
pub enum ServerEvent {
    SessionReady(SessionReady),
    /// A picture, ready to be shown.
    Frame { width: u32, height: u32, pixels: Vec<u32> },
    /// Bytes per second over the last second.
    DataRate { bytes_per_sec: u64 },
    /// The shape of the server's cursor changed. Its position is tracked
    /// locally.
    CursorUpdate(CursorUpdate),
    /// The answer to a ping. Nothing asks for one.
    Pong(Pong),
    /// The server ended the session: final, nothing is retried.
    SessionEnded { reason: String },
    /// The connection dropped and attempt number `attempt` to get it back is
    /// about to be made.
    Reconnecting { attempt: u32 },
}

/// What the display asks for.
#[derive(Debug, Clone)]
pub enum ClientCommand {
    KeyEvent(KeyEvent),
    MouseMove(MouseMove),
    MouseButton(MouseButton),
    MouseScroll(MouseScroll),
    Resize(u32, u32),
    /// Whether the server draws its cursor into the video.
    SetCursorInFrame(bool),
    ClipboardSend { mime_type: String, data: Vec<u8> },
    FileTransferSend(FileTransferPayload),
    Disconnect,
}

/// Parameters of a session.
#[derive(Debug, Clone)]
pub struct ConnectParams {
    pub mode: SessionMode,
    pub width: u32,
    pub height: u32,
    pub quality: u8,
    pub audio: bool,
    pub ssh_opts: Vec<String>,
    pub tls: bool,
    pub accept_invalid_certs: bool,
    pub username: Option<String>,
    pub password: Option<String>,
    pub desktop_shell: Option<String>,
    pub encoder_preset: Option<String>,
    pub encoder_crf: Option<u8>,
    pub encoder_extra_params: Option<String>,
    /// The one codec to advertise; otherwise all are offered.
    pub codec: Option<VideoCodec>,
    /// The session to resume; otherwise a new one is created.
    pub attach: Option<String>,
    /// Whether to retry and reattach when the connection drops.
    pub reconnect: bool,
}

/// The pixels of tightly packed RGBA bytes; bytes short of a pixel at the end
/// are ignored.
pub open spec fn packed_pixels(rgba: Seq<u8>) -> Seq<u32> {
    Seq::new(
        rgba.len() / 4,
        |i: int| pixels::rgb(rgba[4 * i], rgba[4 * i + 1], rgba[4 * i + 2]),
    )
}

/// Turns RGBA bytes into pixels.
pub fn rgba_to_pixels(rgba: &[u8]) -> (out: Vec<u32>)
    ensures
        out@ == packed_pixels(rgba@),
{
    let mut out: Vec<u32> = Vec::new();
    let mut i: usize = 0;
    while rgba.len() - i >= 4
        invariant
            i <= rgba@.len(),
            i == 4 * out@.len(),
            out@ == packed_pixels(rgba@).take(out@.len() as int),
            out@.len() <= rgba@.len() / 4,
        decreases rgba@.len() - i,
    {
        let ghost n = out@.len() as int;
        out.push(rgba[i] as u32 * 65536 + rgba[i + 1] as u32 * 256 + rgba[i + 2] as u32);
        i = i + 4;
        proof {
            let all = packed_pixels(rgba@);
            assert(all.take(n + 1) == all.take(n).push(all[n]));
        }
    }
    assert(packed_pixels(rgba@).take(out@.len() as int) == packed_pixels(rgba@));
    out
}

/// How the server is reached.
#[derive(Debug, Clone)]
pub enum Route {
    /// Through `ssh`, with these arguments.
    Ssh { args: Vec<String> },
    /// Over TLS, for a certificate of this host.
    Tls { host: String, accept_invalid_certs: bool },
    /// Over plain TCP.
    Tcp,
}

/// The part of an address before its first colon.
pub open spec fn host_part(server: Seq<char>) -> Seq<char>
    decreases server.len(),
{
    if server.len() == 0 || server[0] == ':' {
        Seq::empty()
    } else {
        seq![server[0]] + host_part(server.drop_first())
    }
}

fn host_of(server: &str) -> (h: String)
    ensures
        h@ == host_part(server@),
{
    let s = text::chars_of(server);
    let mut out: Vec<char> = Vec::new();
    let mut i: usize = 0;
    assert(s@.skip(0) == s@);
    assert(out@ + host_part(s@) == host_part(s@));
    while i < s.len() && s[i] != ':'
        invariant
            i <= s@.len(),
            out@ + host_part(s@.skip(i as int)) == host_part(s@),
        decreases s@.len() - i,
    {
        let ghost before = out@;
        out.push(s[i]);
        proof {
            let rest = s@.skip(i as int);
            assert(rest.drop_first() == s@.skip(i + 1));
            assert(before + (seq![rest[0]] + host_part(s@.skip(i + 1))) == out@ + host_part(
                s@.skip(i + 1),
            ));
        }
        i = i + 1;
    }
    assert(out@ + Seq::<char>::empty() == out@);
    text::text_of(&out)
}

/// Chooses how to reach the server: SSH where it was asked for, else TLS where
/// that was asked for, else TCP.
pub fn route(server: &str, ssh: bool, params: &ConnectParams) -> (r: Route)
    ensures
        ssh ==> (r matches Route::Ssh { args } && text::texts(args@) == text::texts(params.ssh_opts@)
            + seq!["-s"@, server@, "termland"@]),
        !ssh && params.tls ==> (r matches Route::Tls { host, accept_invalid_certs } && host@
            == host_part(server@) && accept_invalid_certs == params.accept_invalid_certs),
        !ssh && !params.tls ==> r is Tcp,
{
    if ssh {
        let mut args: Vec<String> = Vec::new();
        let ghost opts = text::texts(params.ssh_opts@);
        let mut i: usize = 0;
        assert(text::texts(args@) == opts.take(0));
        while i < params.ssh_opts.len()
            invariant
                i <= params.ssh_opts@.len(),
                opts == text::texts(params.ssh_opts@),
                text::texts(args@) == opts.take(i as int),
            decreases params.ssh_opts@.len() - i,
        {
            text::push_text(&mut args, params.ssh_opts[i].as_str());
            assert(opts.take(i + 1) == opts.take(i as int).push(opts[i as int]));
            i = i + 1;
        }
        assert(opts.take(i as int) == opts);
        text::push_text(&mut args, "-s");
        text::push_text(&mut args, server);
        text::push_text(&mut args, "termland");
        assert(text::texts(args@) == opts + seq!["-s"@, server@, "termland"@]);
        Route::Ssh { args }
    } else if params.tls {
        Route::Tls {
            host: host_of(server),
            accept_invalid_certs: params.accept_invalid_certs,
        }
    } else {
        Route::Tcp
    }
}

/// One-shot operations on sessions.
#[derive(Debug, Clone)]
pub enum ControlOp {
    List,
    Close(String),
}

/// What is said of a reply of the wrong kind.
pub open spec fn unexpected_reply(expected: Seq<char>, got: Message) -> Seq<char> {
    "expected "@ + expected + ", got "@ + got.id().label()
}

/// Says that a reply is of the wrong kind.
pub(crate) fn unexpected_text(expected: &str, got: &Message) -> (s: String)
    ensures
        s@ == unexpected_reply(expected@, *got),
{
    String::from_str("expected ").concat(expected).concat(", got ").concat(got.message_id().name())
}

/// Takes the server's answer to a request for its sessions.
pub fn session_list_reply(reply: Message) -> (r: Result<Vec<SessionInfo>, String>)
    ensures
        match reply {
            Message::SessionListResult(l) => r == Ok::<Vec<SessionInfo>, String>(l.sessions),
            _ => r matches Err(e) && e@ == unexpected_reply("SessionListResult"@, reply),
        },
{
    match reply {
        Message::SessionListResult(l) => Ok(l.sessions),
        other => Err(unexpected_text("SessionListResult", &other)),
    }
}

/// How an age is shown: in the largest unit that is at least one.
pub open spec fn age_text(secs: u64) -> Seq<char> {
    if secs < 60 {
        text::decimal(secs as nat) + "s"@
    } else if secs < 3600 {
        text::decimal((secs / 60) as nat) + "m"@
    } else if secs < 86400 {
        text::decimal((secs / 3600) as nat) + "h"@
    } else {
        text::decimal((secs / 86400) as nat) + "d"@
    }
}

/// Shows an age in the largest unit that is at least one.
pub fn format_age(secs: u64) -> (s: String)
    ensures
        s@ == age_text(secs),
{
    if secs < 60 {
        text::decimal_text(secs).concat("s")
    } else if secs < 3600 {
        text::decimal_text(secs / 60).concat("m")
    } else if secs < 86400 {
        text::decimal_text(secs / 3600).concat("h")
    } else {
        text::decimal_text(secs / 86400).concat("d")
    }
}

/// One row of the session table.
pub open spec fn table_row(
    id: Seq<char>,
    mode: Seq<char>,
    size: Seq<char>,
    age: Seq<char>,
) -> Seq<char> {
    text::pad_right(id, 16) + " "@ + text::pad_right(mode, 16) + " "@ + text::pad_right(size, 11)
        + " "@ + text::pad_left(age, 8)
}

/// The row of one session.
pub open spec fn session_row(s: SessionInfo) -> Seq<char> {
    table_row(
        s.session_id@,
        s.mode@,
        text::decimal(s.width as nat) + "x"@ + text::decimal(s.height as nat),
        age_text(s.age_secs),
    )
}

/// The lines that list some sessions.
pub open spec fn listing(sessions: Seq<SessionInfo>) -> Seq<Seq<char>> {
    if sessions.len() == 0 {
        seq!["No resumable sessions."@]
    } else {
        seq![table_row("SESSION ID"@, "MODE"@, "SIZE"@, "AGE"@)] + sessions.map_values(
            |s: SessionInfo| session_row(s),
        ) + seq![""@, "Resume with:  termland-client --attach <SESSION ID> \u{2026}"@]
    }
}

fn row_text(id: &str, mode: &str, size: &str, age: &str) -> (s: String)
    ensures
        s@ == table_row(id@, mode@, size@, age@),
{
    let mut out: Vec<char> = Vec::new();
    text::push_padded_right(&mut out, id, 16);
    text::push_str(&mut out, " ");
    text::push_padded_right(&mut out, mode, 16);
    text::push_str(&mut out, " ");
    text::push_padded_right(&mut out, size, 11);
    text::push_str(&mut out, " ");
    text::push_padded_left(&mut out, age, 8);
    assert(out@ == table_row(id@, mode@, size@, age@));
    text::text_of(&out)
}

/// The lines that list some sessions for a terminal.
pub fn session_listing(sessions: &[SessionInfo]) -> (lines: Vec<String>)
    ensures
        text::texts(lines@) == listing(sessions@),
{
    let mut lines: Vec<String> = Vec::new();
    if sessions.len() == 0 {
        lines.push(String::from_str("No resumable sessions."));
        assert(text::texts(lines@) == listing(sessions@));
        return lines;
    }
    lines.push(row_text("SESSION ID", "MODE", "SIZE", "AGE"));
    let ghost head = table_row("SESSION ID"@, "MODE"@, "SIZE"@, "AGE"@);
    let ghost rows = sessions@.map_values(|s: SessionInfo| session_row(s));
    let mut i: usize = 0;
    assert(text::texts(lines@) == seq![head] + rows.take(0));
    while i < sessions.len()
        invariant
            i <= sessions@.len(),
            rows == sessions@.map_values(|s: SessionInfo| session_row(s)),
            text::texts(lines@) == seq![head] + rows.take(i as int),
        decreases sessions@.len() - i,
    {
        let ghost before = lines@;
        let s = &sessions[i];
        let size = text::decimal_text(s.width as u64).concat("x").concat(
            text::decimal_text(s.height as u64).as_str(),
        );
        let row = row_text(
            s.session_id.as_str(),
            s.mode.as_str(),
            size.as_str(),
            format_age(s.age_secs).as_str(),
        );
        lines.push(row);
        proof {
            assert(row@ == rows[i as int]);
            assert(text::texts(lines@) == text::texts(before).push(row@));
            assert(rows.take(i + 1) == rows.take(i as int).push(rows[i as int]));
        }
        i = i + 1;
        assert(text::texts(lines@) == seq![head] + rows.take(i as int));
    }
    lines.push(String::from_str(""));
    lines.push(String::from_str("Resume with:  termland-client --attach <SESSION ID> \u{2026}"));
    proof {
        assert(rows.take(i as int) == rows);
        assert(text::texts(lines@) == listing(sessions@));
    }
    lines
}

/// How many seconds to wait before an attempt: doubling from one, and 30 from
/// the sixth attempt on.
pub open spec fn backoff(attempt: int) -> int
    decreases attempt,
{
    if attempt <= 1 {
        1
    } else if attempt <= 5 {
        2 * backoff(attempt - 1)
    } else {
        30
    }
}

/// How many seconds to wait before reconnect attempt number `attempt`, counted
/// from 1.
pub fn backoff_delay(attempt: u32) -> (secs: u64)
    ensures
        secs == backoff(attempt as int),
{
    proof {
        reveal_with_fuel(backoff, 6);
    }
    if attempt <= 1 {
        1
    } else if attempt == 2 {
        2
    } else if attempt == 3 {
        4
    } else if attempt == 4 {
        8
    } else if attempt == 5 {
        16
    } else {
        30
    }
}

/// Later attempts never wait less, and none waits more than 30 seconds.
pub proof fn backoff_grows_to_its_cap(a: int, b: int)
    requires
        a <= b,
    ensures
        1 <= backoff(a) <= backoff(b) <= 30,
{
    reveal_with_fuel(backoff, 6);
}

/// Where the handshake stands: which reply is awaited.
#[derive(Debug, Clone, Copy, PartialEq, Eq, Structural)]
pub enum HandshakeState {
    AwaitHelloAck,
    AwaitAuthRequest,
    AwaitAuthResult,
}

/// What a reply makes of the handshake.
#[derive(Debug, Clone)]
pub enum HandshakeStep {
    /// Wait for the next reply.
    Wait(HandshakeState),
    /// Send this and wait for the next reply.
    Send(Message, HandshakeState),
    /// The handshake is over.
    Done,
    /// The handshake failed.
    Fail(String),
}

/// The first message of a connection.
pub fn hello() -> (m: Message)
    ensures
        m matches Message::Hello(h) && h.protocol_version == PROTOCOL_VERSION && h.client_name@
            == "termland-client"@,
{
    Message::Hello(
        Hello {
            protocol_version: PROTOCOL_VERSION,
            client_name: String::from_str("termland-client"),
        },
    )
}

/// The user name to log in with: the one given, or that of the local user.
pub fn login_name(params: &ConnectParams, local_user: String) -> (s: String)
    ensures
        s == (match params.username {
            Some(u) => u,
            None => local_user,
        }),
{
    match &params.username {
        Some(u) => u.clone(),
        None => local_user,
    }
}

/// The password to log in with: the one given, or that of the environment, or
/// none.
pub fn login_password(params: &ConnectParams, environment: Option<String>) -> (s: String)
    ensures
        s@ == (match params.password {
            Some(p) => p@,
            None => match environment {
                Some(e) => e@,
                None => ""@,
            },
        }),
{
    match &params.password {
        Some(p) => p.clone(),
        None => match environment {
            Some(e) => e,
            None => String::from_str(""),
        },
    }
}

/// Whether a step is the right one for a reply during the handshake.
pub open spec fn handshake_answers(
    state: HandshakeState,
    reply: Message,
    username: Seq<char>,
    password: Seq<char>,
    step: HandshakeStep,
) -> bool {
    match state {
        HandshakeState::AwaitHelloAck => match reply {
            Message::HelloAck(a) => if a.auth_required {
                step == HandshakeStep::Wait(HandshakeState::AwaitAuthRequest)
            } else {
                step is Done
            },
            _ => step matches HandshakeStep::Fail(e) && e@ == unexpected_reply("HelloAck"@, reply),
        },
        HandshakeState::AwaitAuthRequest => match reply {
            Message::AuthRequest(_) => step matches HandshakeStep::Send(
                Message::AuthResponse(a),
                HandshakeState::AwaitAuthResult,
            ) && a.username@ == username && a.credential@ == password,
            _ => step matches HandshakeStep::Fail(e) && e@ == unexpected_reply(
                "AuthRequest"@,
                reply,
            ),
        },
        HandshakeState::AwaitAuthResult => match reply {
            Message::AuthResult(a) => if a.success {
                step is Done
            } else {
                step matches HandshakeStep::Fail(e) && e@ == "Authentication failed: "@ + a.message@
            },
            _ => step matches HandshakeStep::Fail(e) && e@ == unexpected_reply(
                "AuthResult"@,
                reply,
            ),
        },
    }
}

/// Takes one reply of the server during the handshake. The server may ask for
/// a login after its greeting; `username` and `password` are the answer.
pub fn handshake_step(
    state: HandshakeState,
    reply: &Message,
    username: &str,
    password: &str,
) -> (step: HandshakeStep)
    ensures
        handshake_answers(state, *reply, username@, password@, step),
{
    match state {
        HandshakeState::AwaitHelloAck => match reply {
            Message::HelloAck(a) => {
                if a.auth_required {
                    HandshakeStep::Wait(HandshakeState::AwaitAuthRequest)
                } else {
                    HandshakeStep::Done
                }
            },
            other => HandshakeStep::Fail(unexpected_text("HelloAck", other)),
        },
        HandshakeState::AwaitAuthRequest => match reply {
            Message::AuthRequest(_) => HandshakeStep::Send(
                Message::AuthResponse(
                    AuthResponse {
                        username: String::from_str(username),
                        credential: String::from_str(password),
                    },
                ),
                HandshakeState::AwaitAuthResult,
            ),
            other => HandshakeStep::Fail(unexpected_text("AuthRequest", other)),
        },
        HandshakeState::AwaitAuthResult => match reply {
            Message::AuthResult(a) => {
                if a.success {
                    HandshakeStep::Done
                } else {
                    HandshakeStep::Fail(
                        String::from_str("Authentication failed: ").concat(a.message.as_str()),
                    )
                }
            },
            other => HandshakeStep::Fail(unexpected_text("AuthResult", other)),
        },
    }
}

/// The login is sent only where the server asked for it, and the handshake is
/// over only where the server asks for none or accepted it.
pub proof fn a_login_is_sent_only_when_asked(
    state: HandshakeState,
    reply: Message,
    username: Seq<char>,
    password: Seq<char>,
    step: HandshakeStep,
)
    requires
        handshake_answers(state, reply, username, password, step),
    ensures
        step is Send ==> state == HandshakeState::AwaitAuthRequest && reply is AuthRequest,
        step is Done ==> {
            ||| state == HandshakeState::AwaitHelloAck && (reply matches Message::HelloAck(a)
                && !a.auth_required)
            ||| state == HandshakeState::AwaitAuthResult && (reply matches Message::AuthResult(a)
                && a.success)
        },
{
}

/// The codecs to advertise: a forced one alone, or all of them.
pub open spec fn offered(codec: Option<VideoCodec>) -> Seq<VideoCodec> {
    match codec {
        Some(c) => seq![c],
        None => VideoCodec::preference(),
    }
}

/// Whether a message opens the session that the parameters ask for: one to
/// resume where there is one, otherwise a new one.
pub open spec fn opens(params: ConnectParams, m: Message) -> bool {
    match params.attach {
        Some(id) => m matches Message::SessionAttach(a) && a.session_id == id && a.audio
            == params.audio && a.quality == params.quality && a.encoder_preset
            == params.encoder_preset && a.encoder_crf == params.encoder_crf
            && a.encoder_extra_params == params.encoder_extra_params && a.supported_codecs@
            == offered(params.codec) && a.supported_audio_codecs@ == seq![AudioCodec::Opus],
        None => m matches Message::SessionCreate(c) && c.mode == params.mode && c.width
            == params.width && c.height == params.height && c.audio == params.audio && c.quality
            == params.quality && c.desktop_shell == params.desktop_shell && c.encoder_preset
            == params.encoder_preset && c.encoder_crf == params.encoder_crf
            && c.encoder_extra_params == params.encoder_extra_params && c.supported_codecs@
            == offered(params.codec) && c.supported_audio_codecs@ == seq![AudioCodec::Opus],
    }
}

/// The message that opens the session.
pub fn opening_message(params: ConnectParams) -> (m: Message)
    ensures
        opens(params, m),
{
    let supported_codecs: Vec<VideoCodec> = match params.codec {
        Some(c) => vec![c],
        None => VideoCodec::all_preferred(),
    };
    assert(supported_codecs@ == offered(params.codec));
    let supported_audio_codecs = AudioCodec::all_preferred();
    match params.attach {
        Some(id) => Message::SessionAttach(
            SessionAttach {
                session_id: id,
                audio: params.audio,
                quality: params.quality,
                encoder_preset: params.encoder_preset,
                encoder_crf: params.encoder_crf,
                encoder_extra_params: params.encoder_extra_params,
                supported_codecs,
                supported_audio_codecs,
            },
        ),
        None => Message::SessionCreate(
            SessionCreate {
                mode: params.mode,
                width: params.width,
                height: params.height,
                audio: params.audio,
                quality: params.quality,
                desktop_shell: params.desktop_shell,
                encoder_preset: params.encoder_preset,
                encoder_crf: params.encoder_crf,
                encoder_extra_params: params.encoder_extra_params,
                supported_codecs,
                supported_audio_codecs,
            },
        ),
    }
}

/// The session that is remembered after a reply: one that has an id, or else
/// the one before.
pub open spec fn remembered(reply: Message, before: Option<String>) -> Option<String> {
    match reply {
        Message::SessionReady(sr) => if sr.session_id@.len() == 0 {
            before
        } else {
            Some(sr.session_id)
        },
        _ => before,
    }
}

/// Takes the reply to the opening message. A session that has an id is
/// remembered, so that a lost connection can come back to it.
pub fn accept_ready(reply: Message, session_id: &mut Option<String>) -> (r: Result<
    SessionReady,
    String,
>)
    ensures
        *final(session_id) == remembered(reply, *old(session_id)),
        match reply {
            Message::SessionReady(sr) => r == Ok::<SessionReady, String>(sr),
            _ => r matches Err(e) && e@ == unexpected_reply("SessionReady"@, reply),
        },
{
    match reply {
        Message::SessionReady(sr) => {
            if !sr.session_id.as_str().is_empty() {
                *session_id = Some(sr.session_id.clone());
            }
            Ok(sr)
        },
        other => Err(unexpected_text("SessionReady", &other)),
    }
}

/// Whether a message carries out a command. `Disconnect` says goodbye.
pub open spec fn carries_out(command: ClientCommand, m: Message) -> bool {
    match command {
        ClientCommand::KeyEvent(e) => m == Message::KeyEvent(e),
        ClientCommand::MouseMove(e) => m == Message::MouseMove(e),
        ClientCommand::MouseButton(e) => m == Message::MouseButton(e),
        ClientCommand::MouseScroll(e) => m == Message::MouseScroll(e),
        ClientCommand::Resize(w, h) => m == Message::SessionResize(
            SessionResize { width: w, height: h },
        ),
        ClientCommand::SetCursorInFrame(yes) => m == Message::CursorMode(
            CursorModeMsg { include_cursor_in_frame: yes },
        ),
        ClientCommand::ClipboardSend { mime_type, data } => m == Message::ClipboardSend(
            ClipboardPayload { mime_type, data },
        ),
        ClientCommand::FileTransferSend(p) => m == Message::FileTransferSend(p),
        ClientCommand::Disconnect => m matches Message::SessionEnd(e) && e.reason@
            == "client disconnect"@,
    }
}

/// The message that carries out a command.
pub fn command_message(command: ClientCommand) -> (m: Message)
    ensures
        carries_out(command, m),
{
    match command {
        ClientCommand::KeyEvent(e) => Message::KeyEvent(e),
        ClientCommand::MouseMove(e) => Message::MouseMove(e),
        ClientCommand::MouseButton(e) => Message::MouseButton(e),
        ClientCommand::MouseScroll(e) => Message::MouseScroll(e),
        ClientCommand::Resize(width, height) => Message::SessionResize(
            SessionResize { width, height },
        ),
        ClientCommand::SetCursorInFrame(yes) => Message::CursorMode(
            CursorModeMsg { include_cursor_in_frame: yes },
        ),
        ClientCommand::ClipboardSend { mime_type, data } => Message::ClipboardSend(
            ClipboardPayload { mime_type, data },
        ),
        ClientCommand::FileTransferSend(p) => Message::FileTransferSend(p),
        ClientCommand::Disconnect => Message::SessionEnd(
            SessionEnd { reason: String::from_str("client disconnect") },
        ),
    }
}

/// Why the session loop ended.
#[derive(Debug, Clone)]
pub enum LoopExit {
    /// The user quit.
    ClientQuit,
    /// The server said that the session is over.
    SessionEnded { reason: String },
    /// The stream ended without a word from the server.
    ConnectionLost,
}

/// What the session loop does with a command.
#[derive(Debug, Clone)]
pub enum CommandStep {
    /// Send this message and go on.
    Send(Message),
    /// Send this message, whether or not it gets through, and leave the loop.
    SendAndExit(Message, LoopExit),
}

/// Whether this is what the session loop does with a command: `Disconnect`
/// leaves it as quit by the user, and every other command keeps it going.
pub open spec fn obeys(command: ClientCommand, s: CommandStep) -> bool {
    if command is Disconnect {
        s matches CommandStep::SendAndExit(Message::SessionEnd(e), LoopExit::ClientQuit)
            && e.reason@ == "client disconnect"@
    } else {
        s matches CommandStep::Send(m) && carries_out(command, m)
    }
}

/// Decides what the session loop does with a command.
pub fn on_command(command: ClientCommand) -> (s: CommandStep)
    ensures
        obeys(command, s),
{
    let quit = match &command {
        ClientCommand::Disconnect => true,
        _ => false,
    };
    let message = command_message(command);
    if quit {
        CommandStep::SendAndExit(message, LoopExit::ClientQuit)
    } else {
        CommandStep::Send(message)
    }
}

/// What came in.
#[derive(Debug, Clone)]
pub enum Incoming {
    Message(Message),
    /// Bytes that are no message.
    Garbage,
    /// The end of the stream.
    Eof,
}

/// What to do with what came in.
#[derive(Debug, Clone)]
pub enum LoopAction {
    /// Show this picture.
    Show { width: u32, height: u32, pixels: Vec<u32> },
    /// Hand this packet to the decoder.
    Decode { data: Vec<u8>, codec: Option<VideoCodec> },
    /// Hand this packet to the audio player.
    Play { data: Vec<u8> },
    /// Tell the display of a new cursor.
    Cursor(CursorUpdate),
    /// Put this on the local clipboard.
    Clipboard { mime_type: String, data: Vec<u8> },
    /// Write these files and put them on the local clipboard.
    ReceiveFiles(FileTransferPayload),
    /// Leave the loop.
    Exit(LoopExit),
    /// Nothing.
    Skip,
}

/// How many bytes of media a message counts for.
pub open spec fn media_bytes(incoming: Incoming) -> nat {
    match incoming {
        Incoming::Message(Message::StillFrame(f)) => f.data@.len(),
        Incoming::Message(Message::VideoFrame(f)) => f.data@.len(),
        Incoming::Message(Message::AudioChunk(c)) => c.data@.len(),
        Incoming::Message(Message::CursorUpdate(c)) => c.image_rgba@.len(),
        _ => 0,
    }
}

/// Whether an action is the right one for what came in.
pub open spec fn reacts(incoming: Incoming, audio: bool, a: LoopAction) -> bool {
    match incoming {
        Incoming::Message(Message::StillFrame(f)) => a matches LoopAction::Show {
            width,
            height,
            pixels,
        } && width == f.width && height == f.height && pixels@ == packed_pixels(f.data@),
        Incoming::Message(Message::VideoFrame(f)) => if f.data@.len() == 0 {
            a is Skip
        } else {
            a == (LoopAction::Decode { data: f.data, codec: f.codec })
        },
        Incoming::Message(Message::AudioChunk(c)) => if audio {
            a == (LoopAction::Play { data: c.data })
        } else {
            a is Skip
        },
        Incoming::Message(Message::CursorUpdate(c)) => a == LoopAction::Cursor(c),
        Incoming::Message(Message::ClipboardData(p)) => a matches LoopAction::Clipboard {
            mime_type,
            data,
        } && data == p.data && mime_type@ == (if p.mime_type@.len() == 0 {
            "text/plain"@
        } else {
            p.mime_type@
        }),
        Incoming::Message(Message::FileTransferData(p)) => a == LoopAction::ReceiveFiles(p),
        Incoming::Message(Message::SessionEnd(e)) => a == LoopAction::Exit(
            LoopExit::SessionEnded { reason: e.reason },
        ),
        Incoming::Message(_) => a is Skip,
        Incoming::Garbage => a == LoopAction::Exit(LoopExit::ConnectionLost),
        Incoming::Eof => a == LoopAction::Exit(LoopExit::ConnectionLost),
    }
}

/// Decides what to do with what came in, and counts its media bytes (up to
/// what the counter holds).
pub fn on_incoming(incoming: Incoming, audio: bool, bytes: &mut u64) -> (a: LoopAction)
    ensures
        reacts(incoming, audio, a),
        *final(bytes) == (if *old(bytes) + media_bytes(incoming) <= u64::MAX {
            *old(bytes) + media_bytes(incoming)
        } else {
            u64::MAX as int
        }),
{
    match incoming {
        Incoming::Message(m) => match m {
            Message::StillFrame(f) => {
                *bytes = bytes.saturating_add(f.data.len() as u64);
                let pixels = rgba_to_pixels(&f.data);
                LoopAction::Show { width: f.width, height: f.height, pixels }
            },
            Message::VideoFrame(f) => {
                if f.data.len() == 0 {
                    LoopAction::Skip
                } else {
                    *bytes = bytes.saturating_add(f.data.len() as u64);
                    LoopAction::Decode { data: f.data, codec: f.codec }
                }
            },
            Message::AudioChunk(c) => {
                *bytes = bytes.saturating_add(c.data.len() as u64);
                if audio {
                    LoopAction::Play { data: c.data }
                } else {
                    LoopAction::Skip
                }
            },
            Message::CursorUpdate(c) => {
                *bytes = bytes.saturating_add(c.image_rgba.len() as u64);
                LoopAction::Cursor(c)
            },
            Message::ClipboardData(p) => {
                let mime_type = if p.mime_type.as_str().is_empty() {
                    String::from_str("text/plain")
                } else {
                    p.mime_type
                };
                LoopAction::Clipboard { mime_type, data: p.data }
            },
            Message::FileTransferData(p) => LoopAction::ReceiveFiles(p),
            Message::SessionEnd(e) => LoopAction::Exit(LoopExit::SessionEnded { reason: e.reason }),
            _ => LoopAction::Skip,
        },
        Incoming::Garbage => LoopAction::Exit(LoopExit::ConnectionLost),
        Incoming::Eof => LoopAction::Exit(LoopExit::ConnectionLost),
    }
}

/// What to do after the session loop ended.
#[derive(Debug, Clone)]
pub enum AfterLoop {
    /// Leave without a word: the user quit.
    Stop,
    /// Tell the display that the session is over, and leave.
    End { reason: String },
    /// Throw away input that is stale by now, and reconnect.
    Reconnect,
}

/// How the session loop came out.
#[derive(Debug, Clone)]
pub enum LoopOutcome {
    Exit(LoopExit),
    /// The loop failed before the session was up.
    Failed,
}

/// What is remembered across connections: the session to come back to, and
/// how often coming back was tried.
#[derive(Debug, Clone)]
pub struct Reconnector {
    /// Whether to reconnect at all.
    pub reconnect: bool,
    /// The id of the last session that was up.
    pub session_id: Option<String>,
    /// The session that the next connection resumes.
    pub attach: Option<String>,
    /// Attempts since the connection was lost.
    pub attempt: u32,
}

/// Whether a session loop that came out so was lost: nobody ended it.
pub open spec fn was_lost(outcome: LoopOutcome) -> bool {
    match outcome {
        LoopOutcome::Exit(LoopExit::ClientQuit) => false,
        LoopOutcome::Exit(LoopExit::SessionEnded { .. }) => false,
        _ => true,
    }
}

/// Whether this is what follows the end of a session loop.
pub open spec fn follows_loop(
    before: Reconnector,
    outcome: LoopOutcome,
    after: Reconnector,
    a: AfterLoop,
) -> bool {
    match outcome {
        LoopOutcome::Exit(LoopExit::ClientQuit) => a is Stop && after == before,
        LoopOutcome::Exit(LoopExit::SessionEnded { reason }) => a == (AfterLoop::End { reason })
            && after == before,
        _ => if !before.reconnect {
            &&& a matches AfterLoop::End { reason } && reason@
                == "connection lost (reconnect disabled)"@
            &&& after == before
        } else {
            &&& a is Reconnect
            &&& after == (Reconnector {
                attempt: 0,
                attach: if before.session_id is Some {
                    before.session_id
                } else {
                    before.attach
                },
                ..before
            })
        },
    }
}

impl Reconnector {
    /// Starts with the parameters of a first connection.
    pub fn new(reconnect: bool, attach: Option<String>) -> (r: Reconnector)
        ensures
            r == (Reconnector { reconnect, session_id: None, attach, attempt: 0 }),
    {
        Reconnector { reconnect, session_id: None, attach, attempt: 0 }
    }

    /// Decides what follows the end of a session loop. A session that the
    /// server ended, or that the user quit, is over. A connection that was
    /// merely lost is taken up again, and then the same session is resumed.
    pub fn after_loop(&mut self, outcome: LoopOutcome) -> (a: AfterLoop)
        ensures
            follows_loop(*old(self), outcome, *final(self), a),
    {
        match outcome {
            LoopOutcome::Exit(LoopExit::ClientQuit) => {
                return AfterLoop::Stop;
            },
            LoopOutcome::Exit(LoopExit::SessionEnded { reason }) => {
                return AfterLoop::End { reason };
            },
            _ => {},
        }
        if !self.reconnect {
            return AfterLoop::End {
                reason: String::from_str("connection lost (reconnect disabled)"),
            };
        }
        if let Some(id) = &self.session_id {
            self.attach = Some(id.clone());
        }
        self.attempt = 0;
        AfterLoop::Reconnect
    }

    /// Begins another attempt: its number, and how many seconds to wait before
    /// it.
    pub fn next_attempt(&mut self) -> (r: (u32, u64))
        ensures
            r.0 == (if old(self).attempt < u32::MAX {
                old(self).attempt + 1
            } else {
                u32::MAX as int
            }),
            r.1 == backoff(r.0 as int),
            *final(self) == (Reconnector { attempt: r.0, ..*old(self) }),
    {
        if self.attempt < u32::MAX {
            self.attempt = self.attempt + 1;
        }
        (self.attempt, backoff_delay(self.attempt))
    }
}

/// A connection that was lost comes back to its session: the next one asks for
/// the session that the server had given an id.
pub proof fn a_lost_session_is_resumed(
    ready: SessionReady,
    known: Option<String>,
    before: Reconnector,
    outcome: LoopOutcome,
    after: Reconnector,
    a: AfterLoop,
    params: ConnectParams,
    m: Message,
)
    requires
        ready.session_id@.len() > 0,
        before.session_id == remembered(Message::SessionReady(ready), known),
        before.reconnect,
        was_lost(outcome),
        follows_loop(before, outcome, after, a),
        params.attach == after.attach,
        opens(params, m),
    ensures
        a is Reconnect,
        m matches Message::SessionAttach(s) && s.session_id == ready.session_id,
{
}

/// A session that the server ended is over, with the server's reason, whether
/// or not lost connections are taken up again.
pub proof fn an_ended_session_is_never_retried(
    end: SessionEnd,
    audio: bool,
    action: LoopAction,
    before: Reconnector,
    after: Reconnector,
    a: AfterLoop,
)
    requires
        reacts(Incoming::Message(Message::SessionEnd(end)), audio, action),
        action matches LoopAction::Exit(exit) ==> follows_loop(
            before,
            LoopOutcome::Exit(exit),
            after,
            a,
        ),
    ensures
        a == (AfterLoop::End { reason: end.reason }),
{
}

/// A session that the user quit is over: nothing is said of it and no other
/// connection is made, whether or not lost connections are taken up again.
pub proof fn a_quit_session_is_never_retried(
    step: CommandStep,
    before: Reconnector,
    after: Reconnector,
    a: AfterLoop,
)
    requires
        obeys(ClientCommand::Disconnect, step),
        step matches CommandStep::SendAndExit(_, exit) ==> follows_loop(
            before,
            LoopOutcome::Exit(exit),
            after,
            a,
        ),
    ensures
        a is Stop,
        after == before,
{
}

/// Every way out of the session loop has its own exit: the user's quitting, the
/// server's goodbye, and the end of the stream or bytes that are no message.
/// Nothing else leaves the loop.
pub proof fn every_way_out_has_its_exit(
    command: ClientCommand,
    step: CommandStep,
    incoming: Incoming,
    audio: bool,
    action: LoopAction,
)
    requires
        obeys(command, step),
        reacts(incoming, audio, action),
    ensures
        step is SendAndExit <==> command is Disconnect,
        step matches CommandStep::SendAndExit(m, exit) ==> exit is ClientQuit && carries_out(
            command,
            m,
        ),
        action is Exit <==> incoming is Eof || incoming is Garbage || incoming matches
            Incoming::Message(Message::SessionEnd(_)),
        action matches LoopAction::Exit(exit) ==> exit == (match incoming {
            Incoming::Message(Message::SessionEnd(e)) => LoopExit::SessionEnded {
                reason: e.reason,
            },
            _ => LoopExit::ConnectionLost,
        }),
{
}

/// The codec to build a new decoder for: that of a packet which the decoder in
/// use does not decode.
pub fn decoder_to_build(packet: Option<VideoCodec>, current: Option<VideoCodec>) -> (r: Option<
    VideoCodec,
>)
    ensures
        r == (if packet is Some && packet != current {
            packet
        } else {
            None
        }),
{
    match packet {
        Some(c) => match current {
            Some(d) => if c == d {
                None
            } else {
                Some(c)
            },
            None => Some(c),
        },
        None => None,
    }
}

/// How many samples may wait for the sound card: one second.
pub open spec fn max_buffered() -> int {
    audio::SAMPLE_RATE * audio::CHANNELS
}

/// The samples that stay when more come in: all of them, or the newest half a
/// second where too many wait.
pub open spec fn kept_samples(ring: Seq<i16>) -> Seq<i16> {
    if ring.len() > max_buffered() {
        ring.skip(ring.len() - max_buffered() / 2)
    } else {
        ring
    }
}

/// Queues decoded samples for the sound card. Where more than a second waits
/// already, all but the newest half second of it is dropped first, so that
/// delay does not build up.
pub fn queue_samples(ring: &mut VecDeque<i16>, pcm: &[i16])
    ensures
        final(ring)@ == kept_samples(old(ring)@) + pcm@,
{
    let ghost before = ring@;
    let max: usize = 96_000;
    assert(max_buffered() == 96_000) by (nonlinear_arith);
    if ring.len() > max {
        let drop: usize = ring.len() - max / 2;
        let mut i: usize = 0;
        assert(before.skip(0) == before);
        while i < drop
            invariant
                i <= drop <= before.len(),
                ring@ == before.skip(i as int),
            decreases drop - i,
        {
            let _ = ring.pop_front();
            i = i + 1;
            assert(ring@ == before.skip(i as int));
        }
    }
    let ghost kept = ring@;
    let mut i: usize = 0;
    assert(kept + pcm@.take(0) == kept);
    while i < pcm.len()
        invariant
            i <= pcm@.len(),
            ring@ == kept + pcm@.take(i as int),
        decreases pcm@.len() - i,
    {
        ring.push_back(pcm[i]);
        assert(pcm@.take(i + 1) == pcm@.take(i as int).push(pcm@[i as int]));
        assert(kept + pcm@.take(i + 1) == (kept + pcm@.take(i as int)).push(pcm@[i as int]));
        i = i + 1;
    }
    assert(pcm@.take(i as int) == pcm@);
}

/// However many samples wait, what is kept before more come in is a second of
/// them at most, and the newest.
pub proof fn delay_stays_bounded(ring: Seq<i16>)
    ensures
        kept_samples(ring).len() <= max_buffered(),
        kept_samples(ring) == ring.skip(ring.len() - kept_samples(ring).len()),
{
    assert(max_buffered() == 96_000) by (nonlinear_arith);
    assert(ring.skip(0) == ring);
}

/// Fills the sound card's buffer from the queue, oldest samples first, and
/// with silence where the queue runs out.
pub fn fill_output(ring: &mut VecDeque<i16>, out: &mut [i16])
    ensures
        final(out)@ == Seq::new(
            old(out)@.len(),
            |i: int|
                if i < old(ring)@.len() {
                    old(ring)@[i]
                } else {
                    0i16
                },
        ),
        final(ring)@ == (if old(ring)@.len() <= old(out)@.len() {
            Seq::empty()
        } else {
            old(ring)@.skip(old(out)@.len() as int)
        }),
{
    let ghost queue = ring@;
    let n: usize = out.len();
    let mut i: usize = 0;
    assert(queue.skip(0) == queue);
    while i < n
        invariant
            i <= n,
            n == out@.len(),
            ring@ == (if i <= queue.len() {
                queue.skip(i as int)
            } else {
                Seq::empty()
            }),
            forall|k: int|
                0 <= k < i ==> #[trigger] out@[k] == (if k < queue.len() {
                    queue[k]
                } else {
                    0i16
                }),
        decreases n - i,
    {
        let sample: i16 = match ring.pop_front() {
            Some(s) => s,
            None => 0,
        };
        out[i] = sample;
        i = i + 1;
        assert(ring@ == (if i <= queue.len() {
            queue.skip(i as int)
        } else {
            Seq::empty()
        }));
    }
}

/// Whether one of some lines names the type of a list of files.
pub open spec fn lists_files(rows: Seq<Seq<char>>) -> bool {
    exists|i: int| 0 <= i < rows.len() && text::trimmed(#[trigger] rows[i]) == "text/uri-list"@
}

/// Whether a list of clipboard types has files on it.
pub fn offers_files(types: &str) -> (b: bool)
    ensures
        b == lists_files(text::lines(types@)),
{
    let rows = text::split_lines(&text::chars_of(types));
    let wanted = text::chars_of("text/uri-list");
    let ghost all = text::lines(types@);
    let mut i: usize = 0;
    while i < rows.len()
        invariant
            i <= rows@.len(),
            text::char_rows(rows@) == all,
            all == text::lines(types@),
            wanted@ == "text/uri-list"@,
            forall|k: int| 0 <= k < i ==> text::trimmed(#[trigger] all[k]) != "text/uri-list"@,
        decreases rows@.len() - i,
    {
        assert(all[i as int] == rows@[i as int]@);
        if text::chars_equal(&text::trim(&rows[i]), &wanted) {
            return true;
        }
        i = i + 1;
    }
    false
}

/// The total size of some files.
pub open spec fn total_size(files: Seq<FileEntry>) -> nat
    decreases files.len(),
{
    if files.len() == 0 {
        0
    } else {
        total_size(files.drop_last()) + files.last().data@.len()
    }
}

/// Files being gathered for one clipboard transfer. Their total never passes
/// the cap.
pub struct FileBatch {
    files: Vec<FileEntry>,
    total: u64,
}

impl FileBatch {
    /// The files so far.
    pub closed spec fn entries(self) -> Seq<FileEntry> {
        self.files@
    }

    /// Whether the batch is in order.
    pub closed spec fn wf(self) -> bool {
        self.total == total_size(self.files@) && self.total <= MAX_FILE_TRANSFER_BYTES
    }

    /// An empty batch.
    pub fn new() -> (b: FileBatch)
        ensures
            b.wf(),
            b.entries() == Seq::<FileEntry>::empty(),
    {
        FileBatch { files: Vec::new(), total: 0 }
    }

    /// Adds what was read from a path, under the path's last component (or
    /// `file` where it has none). `false` means that the batch would pass the
    /// cap, and that nothing of it is to be sent.
    pub fn push(&mut self, path: &str, data: Vec<u8>) -> (fits: bool)
        requires
            old(self).wf(),
        ensures
            final(self).wf(),
            fits == (total_size(old(self).entries()) + data@.len() <= MAX_FILE_TRANSFER_BYTES),
            !fits ==> final(self).entries() == old(self).entries(),
            fits ==> final(self).entries().len() == old(self).entries().len() + 1
                && final(self).entries().drop_last() == old(self).entries()
                && final(self).entries().last().data == data && final(self).entries().last().name@
                == (match paths::last_component(path@) {
                Some(n) => n,
                None => "file"@,
            }),
    {
        let size: u64 = data.len() as u64;
        if size > MAX_FILE_TRANSFER_BYTES - self.total {
            return false;
        }
        let name = match paths::file_name(path) {
            Some(n) => n,
            None => String::from_str("file"),
        };
        let ghost before = self.files@;
        self.files.push(FileEntry { name, data });
        self.total = self.total + size;
        assert(self.files@.drop_last() == before);
        true
    }

    /// The transfer to send, if there is anything to send.
    pub fn finish(self) -> (p: Option<FileTransferPayload>)
        requires
            self.wf(),
        ensures
            p is Some <==> self.entries().len() > 0,
            p matches Some(t) ==> t.files@ == self.entries() && total_size(t.files@)
                <= MAX_FILE_TRANSFER_BYTES,
    {
        if self.files.len() == 0 {
            None
        } else {
            Some(FileTransferPayload { files: self.files })
        }
    }
}

/// The directory for received clipboard files: under the cache directory, or
/// that of the home directory, or the temporary directory.
pub open spec fn clipboard_dir(
    xdg_cache_home: Option<Seq<char>>,
    home: Option<Seq<char>>,
    temp_dir: Seq<char>,
) -> Seq<char> {
    match xdg_cache_home {
        Some(d) => paths::joined(paths::joined(d, "termland"@), "clipboard-files"@),
        None => match home {
            Some(h) => paths::joined(
                paths::joined(paths::joined(h, ".cache"@), "termland"@),
                "clipboard-files"@,
            ),
            None => paths::joined(temp_dir, "termland-clipboard-files"@),
        },
    }
}

/// The directory for received clipboard files, given `$XDG_CACHE_HOME`,
/// `$HOME` and the temporary directory.
pub fn client_clipboard_files_dir(
    xdg_cache_home: Option<String>,
    home: Option<String>,
    temp_dir: &str,
) -> (d: String)
    ensures
        d@ == clipboard_dir(text::optional(xdg_cache_home), text::optional(home), temp_dir@),
{
    let cache: Option<String> = match xdg_cache_home {
        Some(d) => Some(d),
        None => match home {
            Some(h) => Some(paths::join(h.as_str(), ".cache")),
            None => None,
        },
    };
    match cache {
        Some(d) => paths::join(paths::join(d.as_str(), "termland").as_str(), "clipboard-files"),
        None => paths::join(temp_dir, "termland-clipboard-files"),
    }
}

/// The name of the directory for one transfer: the milliseconds since 1970, or
/// `0` where the clock is before that. A fresh one per transfer keeps a later
/// paste from overwriting files that the clipboard may still point at.
pub fn transfer_subdir_name(millis: Option<u64>) -> (s: String)
    ensures
        s@ == (match millis {
            Some(n) => text::decimal(n as nat),
            None => "0"@,
        }),
{
    match millis {
        Some(n) => text::decimal_text(n),
        None => String::from_str("0"),
    }
}

/// A file to be written.
#[derive(Debug, Clone)]
pub struct PlannedFile {
    pub path: String,
    pub data: Vec<u8>,
}

/// Whether files that came in are taken at all: there are some, and they are
/// not over the cap. The sender should have seen to that; it is not trusted
/// to.
pub open spec fn acceptable(files: Seq<FileEntry>) -> bool {
    files.len() > 0 && total_size(files) <= MAX_FILE_TRANSFER_BYTES
}

/// Where one received file goes: under its name in the directory, or nowhere
/// if the name is not a plain one.
pub open spec fn destination(entry: FileEntry, dir: Seq<char>) -> Option<Seq<char>> {
    let name = text::trimmed(entry.name@);
    if clipboard_files::plain_name(name) {
        Some(paths::joined(dir, name))
    } else {
        None
    }
}

/// What is written where, for files received into a directory.
pub open spec fn planned(files: Seq<FileEntry>, dir: Seq<char>) -> Seq<(Seq<char>, Seq<u8>)>
    decreases files.len(),
{
    if files.len() == 0 {
        Seq::empty()
    } else {
        let before = planned(files.drop_last(), dir);
        match destination(files.last(), dir) {
            Some(p) => before.push((p, files.last().data@)),
            None => before,
        }
    }
}

/// A plan as paths and contents.
pub open spec fn plan_view(plan: Seq<PlannedFile>) -> Seq<(Seq<char>, Seq<u8>)> {
    plan.map_values(|f: PlannedFile| (f.path@, f.data@))
}

fn within_cap(files: &[FileEntry]) -> (b: bool)
    ensures
        b == (total_size(files@) <= MAX_FILE_TRANSFER_BYTES),
{
    let mut total: u64 = 0;
    let mut i: usize = 0;
    assert(files@.take(0).len() == 0);
    while i < files.len()
        invariant
            i <= files@.len(),
            total == total_size(files@.take(i as int)),
            total <= MAX_FILE_TRANSFER_BYTES,
        decreases files@.len() - i,
    {
        proof {
            assert(files@.take(i + 1).drop_last() == files@.take(i as int));
            total_size_grows(files@, i + 1);
        }
        let size: u64 = files[i].data.len() as u64;
        if size > MAX_FILE_TRANSFER_BYTES - total {
            return false;
        }
        total = total + size;
        i = i + 1;
    }
    assert(files@.take(i as int) == files@);
    true
}

proof fn total_size_grows(files: Seq<FileEntry>, n: int)
    requires
        0 <= n <= files.len(),
    ensures
        total_size(files.take(n)) <= total_size(files),
    decreases files.len(),
{
    if n < files.len() {
        total_size_grows(files.drop_last(), n);
        assert(files.drop_last().take(n) == files.take(n));
    } else {
        assert(files.take(n) == files);
    }
}

/// Plans what to write for files received into a directory, or refuses the
/// transfer as a whole. A file whose name is not a plain one is left out.
pub fn plan_file_transfer(payload: FileTransferPayload, dir: &str) -> (r: Option<Vec<PlannedFile>>)
    ensures
        r is Some <==> acceptable(payload.files@),
        r matches Some(plan) ==> plan_view(plan@) == planned(payload.files@, dir@),
{
    let files = payload.files;
    if files.len() == 0 || !within_cap(&files) {
        return None;
    }
    let mut plan: Vec<PlannedFile> = Vec::new();
    let mut i: usize = 0;
    assert(plan_view(plan@) == planned(files@.take(0), dir@));
    while i < files.len()
        invariant
            i <= files@.len(),
            plan_view(plan@) == planned(files@.take(i as int), dir@),
        decreases files@.len() - i,
    {
        let ghost before = plan@;
        proof {
            assert(files@.take(i + 1).drop_last() == files@.take(i as int));
            assert(files@.take(i + 1).last() == files@[i as int]);
        }
        if let Some(name) = clipboard_files::sanitize_filename(files[i].name.as_str()) {
            let data = copy_bytes(&files[i].data);
            plan.push(PlannedFile { path: paths::join(dir, name.as_str()), data });
            assert(plan_view(plan@) == plan_view(before).push(
                (plan@.last().path@, plan@.last().data@),
            ));
        }
        i = i + 1;
    }
    assert(files@.take(i as int) == files@);
    Some(plan)
}

fn copy_bytes(b: &[u8]) -> (v: Vec<u8>)
    ensures
        v@ == b@,
{
    let mut v: Vec<u8> = Vec::new();
    v.extend_from_slice(b);
    assert(v@ == b@);
    v
}

/// What goes on the clipboard once files were written: the list of them, or
/// nothing where none was.
pub fn written_files_list(written: &[String]) -> (r: Option<String>)
    ensures
        r is Some <==> written@.len() > 0,
        r matches Some(s) ==> s@ == clipboard_files::uri_list(text::texts(written@)),
{
    if written.len() == 0 {
        None
    } else {
        Some(clipboard_files::build_uri_list(written))
    }
}

/// Whatever names came over the wire, every file that is written has a path
/// that is the directory and one plain name.
pub proof fn received_files_stay_in_their_directory(files: Seq<FileEntry>, dir: Seq<char>, i: int)
    requires
        0 <= i < planned(files, dir).len(),
    ensures
        exists|name: Seq<char>| #[trigger]
            clipboard_files::plain_name(name) && planned(files, dir)[i].0 == paths::joined(
                dir,
                name,
            ),
    decreases files.len(),
{
    let before = planned(files.drop_last(), dir);
    if i < before.len() {
        received_files_stay_in_their_directory(files.drop_last(), dir, i);
    } else {
        assert(clipboard_files::plain_name(text::trimmed(files.last().name@)));
    }
}

/// A session that is not resumed is opened as it was asked for: the same mode,
/// an application with the same command and arguments, the same size, sound,
/// quality and encoder settings. Other parameters open another session.
pub proof fn a_new_session_is_the_one_asked_for(params: ConnectParams, m: Message)
    requires
        call_ensures(opening_message, (params,), m),
        params.attach is None,
    ensures
        m matches Message::SessionCreate(c) && {
            &&& c.mode is Desktop <==> params.mode is Desktop
            &&& params.mode matches SessionMode::App { command, args } ==> c.mode == (
            SessionMode::App { command, args })
            &&& c.width == params.width && c.height == params.height
            &&& c.audio == params.audio
            &&& c.quality == params.quality
            &&& c.desktop_shell == params.desktop_shell
            &&& c.encoder_preset == params.encoder_preset
            &&& c.encoder_crf == params.encoder_crf
            &&& c.encoder_extra_params == params.encoder_extra_params
        },
        forall|other: ConnectParams, n: Message|
            #![trigger call_ensures(opening_message, (other,), n)]
            call_ensures(opening_message, (other,), n) && other.attach is None && (other.mode
                != params.mode || other.width != params.width || other.height != params.height
                || other.audio != params.audio || other.quality != params.quality)
                ==> n != m,
{
}

/// A session is resumed by its id, whatever mode and size were asked for, and
/// under the settings of this connection.
pub proof fn a_resumed_session_is_named(params: ConnectParams, id: String, m: Message)
    requires
        call_ensures(opening_message, (params,), m),
        params.attach == Some(id),
    ensures
        m matches Message::SessionAttach(a) && {
            &&& a.session_id == id
            &&& a.audio == params.audio
            &&& a.quality == params.quality
            &&& a.encoder_preset == params.encoder_preset
            &&& a.encoder_crf == params.encoder_crf
            &&& a.encoder_extra_params == params.encoder_extra_params
        },
{
}

/// A codec that was forced is the only one offered, so that the server must
/// take it. Where none was, every codec is offered once, the most efficient
/// open one first. Sound is always offered as Opus.
pub proof fn forced_codecs_are_offered_alone(params: ConnectParams, m: Message)
    requires
        call_ensures(opening_message, (params,), m),
    ensures
        ({
            let (video, sound) = match m {
                Message::SessionCreate(c) => (c.supported_codecs@, c.supported_audio_codecs@),
                Message::SessionAttach(a) => (a.supported_codecs@, a.supported_audio_codecs@),
                _ => (Seq::empty(), Seq::empty()),
            };
            &&& sound.len() == 1 && sound[0] == AudioCodec::Opus
            &&& params.codec matches Some(c) ==> video.len() == 1 && video[0] == c
            &&& params.codec is None ==> {
                &&& video.len() == 5
                &&& video[0] == VideoCodec::Av1
                &&& forall|c: VideoCodec| #[trigger] video.contains(c)
                &&& forall|i: int, j: int|
                    0 <= i < j < video.len() ==> #[trigger] video[i] != #[trigger] video[j]
            }
        }),
{
    if params.codec is None {
        let video = match m {
            Message::SessionCreate(c) => c.supported_codecs@,
            Message::SessionAttach(a) => a.supported_codecs@,
            _ => Seq::empty(),
        };
        assert(video == VideoCodec::preference());
        assert forall|c: VideoCodec| #[trigger] video.contains(c) by {
            messages::every_codec_is_preferred(c);
        }
    }
}

/// Nothing that a message brings for the user is skipped: pictures are shown
/// pixel by pixel, packets go whole to the decoder or the sound card, a new
/// cursor to the display, and copied text and files to the clipboard as they
/// were sent. What brings nothing is skipped.
pub proof fn nothing_for_the_user_is_skipped()
    ensures
        forall|m: Message, audio: bool, bytes: &mut u64, a: LoopAction| #[trigger]
            call_ensures(on_incoming, (Incoming::Message(m), audio, bytes), a) ==> {
                &&& m matches Message::StillFrame(f) ==> {
                    &&& a matches LoopAction::Show { width, height, pixels }
                    &&& width == f.width && height == f.height
                    &&& pixels@.len() == f.data@.len() / 4
                    &&& forall|i: int|
                        0 <= i < pixels@.len() ==> #[trigger] pixels@[i] == f.data@[4 * i] * 65536
                            + f.data@[4 * i + 1] * 256 + f.data@[4 * i + 2]
                }
                &&& m matches Message::VideoFrame(f) ==> f.data@.len() > 0 ==> {
                    &&& a matches LoopAction::Decode { data, codec }
                    &&& data@ == f.data@ && codec == f.codec
                }
                &&& m matches Message::AudioChunk(c) ==> audio ==> {
                    &&& a matches LoopAction::Play { data }
                    &&& data@ == c.data@
                }
                &&& m matches Message::CursorUpdate(c) ==> {
                    &&& a matches LoopAction::Cursor(u)
                    &&& u == c
                }
                &&& m matches Message::ClipboardData(p) ==> {
                    &&& a matches LoopAction::Clipboard { mime_type, data }
                    &&& data@ == p.data@
                    &&& p.mime_type@.len() > 0 ==> mime_type@ == p.mime_type@
                    &&& p.mime_type@.len() == 0 ==> mime_type@ == "text/plain"@
                }
                &&& m matches Message::FileTransferData(p) ==> {
                    &&& a matches LoopAction::ReceiveFiles(q)
                    &&& q.files@ == p.files@
                }
                &&& a is Skip ==> !(m is StillFrame) && !(m is CursorUpdate) && !(
                m is ClipboardData) && !(m is FileTransferData) && !(m is SessionEnd)
            },
{
}

/// What comes in is never dressed up as something else: an action of one kind
/// has a message of that kind behind it.
pub proof fn actions_have_their_cause()
    ensures
        forall|incoming: Incoming, audio: bool, bytes: &mut u64, a: LoopAction| #[trigger]
            call_ensures(on_incoming, (incoming, audio, bytes), a) ==> {
                &&& a is Show ==> (incoming matches Incoming::Message(Message::StillFrame(_)))
                &&& a is Decode ==> (incoming matches Incoming::Message(Message::VideoFrame(_)))
                &&& a is Play ==> audio && (incoming matches Incoming::Message(
                    Message::AudioChunk(_),
                ))
                &&& a is Cursor ==> (incoming matches Incoming::Message(Message::CursorUpdate(_)))
                &&& a is Clipboard ==> (incoming matches Incoming::Message(
                    Message::ClipboardData(_),
                ))
                &&& a is ReceiveFiles ==> (incoming matches Incoming::Message(
                    Message::FileTransferData(_),
                ))
                &&& a matches LoopAction::Exit(LoopExit::SessionEnded { reason }) ==> (
                incoming matches Incoming::Message(Message::SessionEnd(e)) && e.reason == reason)
                &&& a matches LoopAction::Exit(LoopExit::ConnectionLost) ==> incoming is Eof
                    || incoming is Garbage
                &&& incoming is Eof || incoming is Garbage ==> a == LoopAction::Exit(
                    LoopExit::ConnectionLost,
                )
                &&& incoming matches Incoming::Message(Message::SessionEnd(e)) ==> a
                    == LoopAction::Exit(LoopExit::SessionEnded { reason: e.reason })
                &&& !(a matches LoopAction::Exit(LoopExit::ClientQuit))
            },
{
}

/// The bytes of media add up over what comes in, and nothing else counts.
pub proof fn media_bytes_add_up()
    ensures
        forall|m: Message, audio: bool, bytes: &mut u64, a: LoopAction| #[trigger]
            call_ensures(on_incoming, (Incoming::Message(m), audio, bytes), a) ==> {
                &&& *final(bytes) >= *bytes
                &&& m matches Message::StillFrame(f) ==> *bytes + f.data@.len() <= u64::MAX
                    ==> *final(bytes) == *bytes + f.data@.len()
                &&& m matches Message::VideoFrame(f) ==> *bytes + f.data@.len() <= u64::MAX
                    ==> *final(bytes) == *bytes + f.data@.len()
                &&& m matches Message::AudioChunk(c) ==> *bytes + c.data@.len() <= u64::MAX
                    ==> *final(bytes) == *bytes + c.data@.len()
                &&& m matches Message::CursorUpdate(c) ==> *bytes + c.image_rgba@.len()
                    <= u64::MAX ==> *final(bytes) == *bytes + c.image_rgba@.len()
                &&& *final(bytes) > *bytes ==> m is StillFrame || m is VideoFrame || m is AudioChunk
                    || m is CursorUpdate
            },
        forall|incoming: Incoming, audio: bool, bytes: &mut u64, a: LoopAction| #[trigger]
            call_ensures(on_incoming, (incoming, audio, bytes), a) && !(incoming is Message)
                ==> *final(bytes) == *bytes,
{
}

/// A command reaches the server as it was given: the same key, movement,
/// button, scroll, size, cursor mode, clipboard bytes and files. Only
/// `Disconnect` ends the session, and it ends the loop as quit.
pub proof fn commands_arrive_as_given(command: ClientCommand, s: CommandStep, m: Message)
    requires
        call_ensures(on_command, (command,), s),
        s == CommandStep::Send(m) || (exists|e: LoopExit| s == CommandStep::SendAndExit(m, e)),
    ensures
        command matches ClientCommand::KeyEvent(k) ==> m == Message::KeyEvent(k),
        command matches ClientCommand::MouseMove(k) ==> m == Message::MouseMove(k),
        command matches ClientCommand::MouseButton(k) ==> m == Message::MouseButton(k),
        command matches ClientCommand::MouseScroll(k) ==> m == Message::MouseScroll(k),
        command matches ClientCommand::Resize(w, h) ==> (m matches Message::SessionResize(r)
            && r.width == w && r.height == h),
        command matches ClientCommand::SetCursorInFrame(yes) ==> (m matches Message::CursorMode(c)
            && c.include_cursor_in_frame == yes),
        command matches ClientCommand::ClipboardSend { mime_type, data } ==> (
        m matches Message::ClipboardSend(p) && p.mime_type == mime_type && p.data == data),
        command matches ClientCommand::FileTransferSend(p) ==> m == Message::FileTransferSend(p),
        m is SessionEnd <==> command is Disconnect,
        s matches CommandStep::SendAndExit(_, e) ==> command is Disconnect && e is ClientQuit,
{
}

/// The message of a command is the same wherever it is made.
pub proof fn messages_arrive_as_given(command: ClientCommand, m: Message)
    requires
        call_ensures(command_message, (command,), m),
    ensures
        command matches ClientCommand::KeyEvent(k) ==> m == Message::KeyEvent(k),
        command matches ClientCommand::MouseMove(k) ==> m == Message::MouseMove(k),
        command matches ClientCommand::MouseButton(k) ==> m == Message::MouseButton(k),
        command matches ClientCommand::MouseScroll(k) ==> m == Message::MouseScroll(k),
        command matches ClientCommand::Resize(w, h) ==> (m matches Message::SessionResize(r)
            && r.width == w && r.height == h),
        command matches ClientCommand::SetCursorInFrame(yes) ==> (m matches Message::CursorMode(c)
            && c.include_cursor_in_frame == yes),
        command matches ClientCommand::ClipboardSend { mime_type, data } ==> (
        m matches Message::ClipboardSend(p) && p.mime_type == mime_type && p.data == data),
        command matches ClientCommand::FileTransferSend(p) ==> m == Message::FileTransferSend(p),
        m matches Message::SessionEnd(e) ==> command is Disconnect && e.reason@.len() > 0,
        command is Disconnect ==> m is SessionEnd,
{
    reveal_strlit("client disconnect");
}

/// Greeting, asking for a login and judging it come in this order, and only an
/// answer of the right kind moves on. The login that is sent is the one given;
/// a refusal fails with the server's words, and a server that wants no login
/// gets none.
pub proof fn logins_go_in_order(
    state: HandshakeState,
    reply: &Message,
    username: &str,
    password: &str,
    step: HandshakeStep,
)
    requires
        call_ensures(handshake_step, (state, reply, username, password), step),
    ensures
        state == HandshakeState::AwaitHelloAck ==> {
            &&& *reply matches Message::HelloAck(a) ==> (a.auth_required ==> step
                == HandshakeStep::Wait(HandshakeState::AwaitAuthRequest)) && (!a.auth_required
                ==> step is Done)
            &&& !(*reply is HelloAck) ==> step is Fail
        },
        state == HandshakeState::AwaitAuthRequest ==> {
            &&& *reply is AuthRequest ==> {
                &&& step matches HandshakeStep::Send(Message::AuthResponse(a), next)
                &&& next == HandshakeState::AwaitAuthResult
                &&& a.username@ == username@ && a.credential@ == password@
            }
            &&& !(*reply is AuthRequest) ==> step is Fail
        },
        state == HandshakeState::AwaitAuthResult ==> {
            &&& *reply matches Message::AuthResult(a) ==> {
                &&& a.success ==> step is Done
                &&& !a.success ==> {
                    &&& step matches HandshakeStep::Fail(e)
                    &&& e@.len() >= a.message@.len()
                    &&& e@.skip(e@.len() - a.message@.len()) == a.message@
                }
            }
            &&& !(*reply is AuthResult) ==> step is Fail
        },
{
    if let Message::AuthResult(a) = *reply {
        let e = "Authentication failed: "@ + a.message@;
        assert(e.skip(e.len() - a.message@.len()) == a.message@);
    }
}

/// A login given with the parameters wins over what the machine knows.
pub proof fn given_logins_win(
    params: &ConnectParams,
    local_user: String,
    environment: Option<String>,
    name: String,
    word: String,
)
    requires
        call_ensures(login_name, (params, local_user), name),
        call_ensures(login_password, (params, environment), word),
    ensures
        params.username matches Some(u) ==> name@ == u@,
        params.username is None ==> name@ == local_user@,
        params.password matches Some(p) ==> word@ == p@,
        params.password is None ==> (environment matches Some(e) ==> word@ == e@),
        params.password is None && environment is None ==> word@.len() == 0,
{
    reveal_strlit("");
}

proof fn host_part_facts(server: Seq<char>)
    ensures
        host_part(server).len() <= server.len(),
        host_part(server) == server.take(host_part(server).len() as int),
        !host_part(server).contains(':'),
        host_part(server).len() < server.len() ==> server[host_part(server).len() as int] == ':',
    decreases server.len(),
{
    if server.len() > 0 && server[0] != ':' {
        let rest = server.drop_first();
        host_part_facts(rest);
        let h = host_part(rest);
        let n = h.len() as int;
        assert(host_part(server) =~= seq![server[0]] + h);
        assert(host_part(server) =~= server.take(n + 1));
        assert forall|i: int| 0 <= i < host_part(server).len() implies host_part(server)[i]
            != ':' by {
            if i > 0 {
                assert(h[i - 1] == host_part(server)[i]);
                assert(h.contains(h[i - 1]));
            }
        }
        if h.len() < rest.len() {
            assert(rest[n] == server[n + 1]);
        }
    }
}

/// The way to the server: over SSH where that was asked for, with the options
/// given before the server and its subsystem; else over TLS, checked against
/// the server's name without its port, or plain TCP. Certificates are not
/// checked only where that was asked for.
pub proof fn the_route_is_the_one_chosen(server: &str, ssh: bool, params: &ConnectParams, r: Route)
    requires
        call_ensures(route, (server, ssh, params), r),
    ensures
        r is Ssh <==> ssh,
        r is Tls <==> !ssh && params.tls,
        r is Tcp <==> !ssh && !params.tls,
        r matches Route::Ssh { args } ==> {
            let n = params.ssh_opts@.len() as int;
            &&& args@.len() == n + 3
            &&& forall|i: int| 0 <= i < n ==> (#[trigger] args@[i])@ == params.ssh_opts@[i]@
            &&& args@[n]@ == "-s"@
            &&& args@[n + 1]@ == server@
            &&& args@[n + 2]@ == "termland"@
        },
        r matches Route::Tls { host, accept_invalid_certs } ==> {
            &&& accept_invalid_certs == params.accept_invalid_certs
            &&& host@.len() <= server@.len()
            &&& host@ == server@.take(host@.len() as int)
            &&& !host@.contains(':')
            &&& host@.len() < server@.len() ==> server@[host@.len() as int] == ':'
        },
{
    host_part_facts(server@);
    if let Route::Ssh { args } = r {
        let n = params.ssh_opts@.len() as int;
        let all = text::texts(args@);
        assert(all.len() == args@.len());
        assert forall|i: int| 0 <= i < n implies (#[trigger] args@[i])@ == params.ssh_opts@[i]@ by {
            assert(all[i] == args@[i]@);
            assert(all[i] == text::texts(params.ssh_opts@)[i]);
        }
        assert(all[n] == args@[n]@);
        assert(all[n + 1] == args@[n + 1]@);
        assert(all[n + 2] == args@[n + 2]@);
    }
}

/// A list of sessions is handed on as it came, and nothing else passes for one.
pub proof fn session_lists_are_handed_on(reply: Message, r: Result<Vec<SessionInfo>, String>)
    requires
        call_ensures(session_list_reply, (reply,), r),
    ensures
        r is Ok <==> reply is SessionListResult,
        reply matches Message::SessionListResult(l) ==> (r matches Ok(s) && s@ == l.sessions@),
{
}

/// An age is told in the largest unit of which a whole one has passed (or in
/// seconds), by how many whole ones have.
pub proof fn ages_are_in_whole_units(secs: u64, s: String)
    requires
        call_ensures(format_age, (secs,), s),
    ensures
        exists|n: nat, unit: nat|
            {
                &&& #[trigger] (n * unit) <= secs < n * unit + unit
                &&& s@.len() > 0
                &&& s@.drop_last() == text::decimal(n)
                &&& unit == 1 ==> s@.last() == 's' && secs < 60
                &&& unit == 60 ==> s@.last() == 'm' && 60 <= secs < 3600
                &&& unit == 3600 ==> s@.last() == 'h' && 3600 <= secs < 86400
                &&& unit == 86400 ==> s@.last() == 'd' && 86400 <= secs
                &&& unit == 1 || unit == 60 || unit == 3600 || unit == 86400
            },
{
    reveal_strlit("s");
    reveal_strlit("m");
    reveal_strlit("h");
    reveal_strlit("d");
    let unit: nat = if secs < 60 {
        1
    } else if secs < 3600 {
        60
    } else if secs < 86400 {
        3600
    } else {
        86400
    };
    let n: nat = (secs as nat) / unit;
    assert(n * unit <= secs < n * unit + unit);
    assert(s@.drop_last() =~= text::decimal(n));
}

/// Every session has its own line, which starts with its id.
pub proof fn every_session_is_listed(sessions: &[SessionInfo], lines: Vec<String>, i: int)
    requires
        call_ensures(session_listing, (sessions,), lines),
        0 <= i < sessions@.len(),
    ensures
        lines@.len() == sessions@.len() + 3,
        lines@[i + 1]@.len() >= sessions@[i].session_id@.len(),
        lines@[i + 1]@.take(sessions@[i].session_id@.len() as int) == sessions@[i].session_id@,
{
    let all = text::texts(lines@);
    assert(all.len() == lines@.len());
    assert(all[i + 1] == lines@[i + 1]@);
    assert(all[i + 1] == session_row(sessions@[i]));
    let id = sessions@[i].session_id@;
    assert(session_row(sessions@[i]).take(id.len() as int) =~= id);
}

/// The wait before each attempt is twice the last one, starting at a second,
/// until it reaches half a minute and stays there.
pub proof fn waits_double_to_half_a_minute(attempt: u32, now: u64, next: u64)
    requires
        attempt < u32::MAX,
        call_ensures(backoff_delay, (attempt,), now),
        call_ensures(backoff_delay, ((attempt + 1) as u32,), next),
    ensures
        attempt <= 1 ==> now == 1,
        attempt >= 1 ==> next == (if 2 * now <= 30 {
            2 * now
        } else {
            30
        }),
{
    reveal_with_fuel(backoff, 7);
    if attempt > 5 {
        assert(backoff(attempt as int) == 30);
    }
}

/// The id of a session that is ready is remembered, unless it is empty. Nothing
/// else is taken for a session.
pub proof fn ready_sessions_are_remembered()
    ensures
        forall|reply: Message, id: &mut Option<String>, r: Result<SessionReady, String>| #[trigger]
            call_ensures(accept_ready, (reply, id), r) ==> {
                &&& r is Ok <==> reply is SessionReady
                &&& reply matches Message::SessionReady(sr) ==> {
                    &&& r == Ok::<SessionReady, String>(sr)
                    &&& sr.session_id@.len() > 0 ==> *final(id) == Some(sr.session_id)
                    &&& sr.session_id@.len() == 0 ==> *final(id) == *id
                }
                &&& !(reply is SessionReady) ==> *final(id) == *id
            },
{
}

/// A lost connection is taken up again exactly where that is wanted, and then
/// with the session that was up, if one was. Attempts are counted from one.
pub proof fn lost_connections_are_taken_up_again()
    ensures
        forall|r: &mut Reconnector, outcome: LoopOutcome, a: AfterLoop| #[trigger]
            call_ensures(Reconnector::after_loop, (r, outcome), a) ==> {
                &&& a is Reconnect <==> r.reconnect && (outcome is Failed || outcome
                    == LoopOutcome::Exit(LoopExit::ConnectionLost))
                &&& a is Reconnect ==> {
                    &&& r.session_id is Some ==> final(r).attach == r.session_id
                    &&& r.session_id is None ==> final(r).attach == r.attach
                    &&& final(r).attempt == 0
                    &&& final(r).reconnect
                    &&& final(r).session_id == r.session_id
                }
                &&& a is Stop <==> outcome == LoopOutcome::Exit(LoopExit::ClientQuit)
                &&& outcome matches LoopOutcome::Exit(LoopExit::SessionEnded { reason }) ==> a == (
                AfterLoop::End { reason })
                &&& !(a is Reconnect) ==> *final(r) == *r
            },
        forall|r: &mut Reconnector, x: (u32, u64)| #[trigger]
            call_ensures(Reconnector::next_attempt, (r,), x) ==> {
                &&& r.attempt < u32::MAX ==> x.0 == r.attempt + 1
                &&& final(r).attempt == x.0
                &&& final(r).attach == r.attach
                &&& final(r).session_id == r.session_id
                &&& final(r).reconnect == r.reconnect
                &&& x.1 == backoff(x.0 as int)
            },
        forall|reconnect: bool, attach: Option<String>, r: Reconnector| #[trigger]
            call_ensures(Reconnector::new, (reconnect, attach), r) ==> r.reconnect == reconnect
                && r.attach == attach && r.session_id is None && r.attempt == 0,
{
}

/// A decoder is replaced exactly where a packet says that it is of another
/// codec than the decoder in use, and then by one of the packet's codec.
pub proof fn decoders_follow_the_packets(
    packet: Option<VideoCodec>,
    current: Option<VideoCodec>,
    r: Option<VideoCodec>,
)
    requires
        call_ensures(decoder_to_build, (packet, current), r),
    ensures
        packet is None ==> r is None,
        packet matches Some(c) ==> {
            &&& current == Some(c) ==> r is None
            &&& current != Some(c) ==> r == Some(c)
        },
{
}

/// Samples come out in the order in which they went in, none twice and none
/// lost while less than a second of them waits. Where they run out there is
/// silence.
pub proof fn sound_plays_in_order()
    ensures
        forall|ring: &mut VecDeque<i16>, pcm: &[i16]| #[trigger]
            call_ensures(queue_samples, (ring, pcm), ()) ==> {
                let n = final(ring)@.len();
                &&& ring@.len() <= 96_000 ==> final(ring)@ == ring@ + pcm@
                &&& n >= pcm@.len()
                &&& n <= 96_000 + pcm@.len()
                &&& final(ring)@.skip(n - pcm@.len()) == pcm@
            },
        forall|ring: &mut VecDeque<i16>, out: &mut [i16]| #[trigger]
            call_ensures(fill_output, (ring, out), ()) ==> {
                &&& final(out)@.len() == out@.len()
                &&& ring@.len() >= out@.len() ==> final(out)@ + final(ring)@ == ring@
                &&& ring@.len() < out@.len() ==> {
                    &&& final(ring)@.len() == 0
                    &&& final(out)@.take(ring@.len() as int) == ring@
                    &&& forall|i: int|
                        ring@.len() <= i < out@.len() ==> #[trigger] final(out)@[i] == 0
                }
            },
{
    assert(max_buffered() == 96_000) by (nonlinear_arith);
    assert forall|ring: &mut VecDeque<i16>, pcm: &[i16]| #[trigger]
        call_ensures(queue_samples, (ring, pcm), ()) implies {
        let n = final(ring)@.len();
        &&& ring@.len() <= 96_000 ==> final(ring)@ == ring@ + pcm@
        &&& n >= pcm@.len()
        &&& n <= 96_000 + pcm@.len()
        &&& final(ring)@.skip(n - pcm@.len()) == pcm@
    } by {
        let kept = kept_samples(ring@);
        assert((kept + pcm@).skip(kept.len() as int) =~= pcm@);
    }
    assert forall|ring: &mut VecDeque<i16>, out: &mut [i16]| #[trigger]
        call_ensures(fill_output, (ring, out), ()) implies {
        &&& final(out)@.len() == out@.len()
        &&& ring@.len() >= out@.len() ==> final(out)@ + final(ring)@ == ring@
        &&& ring@.len() < out@.len() ==> {
            &&& final(ring)@.len() == 0
            &&& final(out)@.take(ring@.len() as int) == ring@
            &&& forall|i: int| ring@.len() <= i < out@.len() ==> #[trigger] final(out)@[i] == 0
        }
    } by {
        if ring@.len() >= out@.len() {
            assert(final(out)@ + final(ring)@ =~= ring@);
        } else {
            assert(final(out)@.take(ring@.len() as int) =~= ring@);
        }
    }
}

/// Files are on offer exactly where one line of the types names them.
pub proof fn file_lists_are_noticed(types: &str, b: bool)
    requires
        call_ensures(offers_files, (types,), b),
    ensures
        ({
            let rows = text::lines(types@);
            &&& forall|i: int|
                0 <= i < rows.len() && text::trimmed(#[trigger] rows[i]) == "text/uri-list"@ ==> b
            &&& b ==> exists|i: int|
                0 <= i < rows.len() && text::trimmed(#[trigger] rows[i]) == "text/uri-list"@
        }),
{
}

/// Files are sent in the order in which they were picked, each with all of its
/// bytes and under the last part of its path. One that would go over the limit
/// is refused, and no other is.
pub proof fn picked_files_are_sent_whole()
    ensures
        forall|batch: &mut FileBatch, path: &str, data: Vec<u8>, fits: bool| #[trigger]
            call_ensures(FileBatch::push, (batch, path, data), fits) && batch.wf() ==> {
                let n = batch.entries().len() as int;
                let after = final(batch).entries();
                &&& total_size(batch.entries()) + data@.len() <= 12 * 1024 * 1024 ==> fits
                &&& total_size(batch.entries()) + data@.len() > 12 * 1024 * 1024 ==> !fits
                &&& !fits ==> after == batch.entries()
                &&& fits ==> {
                    &&& after.len() == n + 1
                    &&& forall|i: int| 0 <= i < n ==> #[trigger] after[i] == batch.entries()[i]
                    &&& after[n].data@ == data@
                    &&& paths::last_component(path@) matches Some(name) ==> after[n].name@ == name
                    &&& total_size(after) == total_size(batch.entries()) + data@.len()
                }
            },
        forall|batch: FileBatch, p: Option<FileTransferPayload>| #[trigger]
            call_ensures(FileBatch::finish, (batch,), p) && batch.wf() ==> {
                &&& p is None <==> batch.entries().len() == 0
                &&& p matches Some(t) ==> t.files@ == batch.entries()
            },
        forall|batch: FileBatch| #[trigger]
            call_ensures(FileBatch::new, (), batch) ==> batch.entries().len() == 0 && batch.wf(),
{
    assert forall|batch: &mut FileBatch, path: &str, data: Vec<u8>, fits: bool| #[trigger]
        call_ensures(FileBatch::push, (batch, path, data), fits) && batch.wf() && fits implies {
        let n = batch.entries().len() as int;
        &&& forall|i: int| 0 <= i < n ==> #[trigger] final(batch).entries()[i] == batch.entries()[i]
        &&& total_size(final(batch).entries()) == total_size(batch.entries()) + data@.len()
    } by {
        let after = final(batch).entries();
        assert(after.drop_last() == batch.entries());
        assert forall|i: int| 0 <= i < batch.entries().len() implies #[trigger] after[i]
            == batch.entries()[i] by {
            assert(after.drop_last()[i] == after[i]);
        }
    }
}

proof fn planned_safe_files(files: Seq<FileEntry>, dir: Seq<char>)
    requires
        forall|i: int|
            0 <= i < files.len() ==> clipboard_files::plain_name(
                text::trimmed((#[trigger] files[i]).name@),
            ),
    ensures
        planned(files, dir).len() == files.len(),
        forall|i: int|
            0 <= i < files.len() ==> #[trigger] planned(files, dir)[i] == (
                paths::joined(dir, text::trimmed(files[i].name@)),
                files[i].data@,
            ),
    decreases files.len(),
{
    if files.len() > 0 {
        let before = files.drop_last();
        assert forall|i: int| 0 <= i < before.len() implies clipboard_files::plain_name(
            text::trimmed((#[trigger] before[i]).name@),
        ) by {
            assert(before[i] == files[i]);
        }
        planned_safe_files(before, dir);
        assert(files[files.len() - 1] == files.last());
        assert forall|i: int| 0 <= i < files.len() implies #[trigger] planned(files, dir)[i] == (
            paths::joined(dir, text::trimmed(files[i].name@)),
            files[i].data@,
        ) by {
            if i < before.len() {
                assert(planned(files, dir)[i] == planned(before, dir)[i]);
            }
        }
    }
}

proof fn planned_files_were_sent(files: Seq<FileEntry>, dir: Seq<char>, i: int)
    requires
        0 <= i < planned(files, dir).len(),
    ensures
        planned(files, dir).len() <= files.len(),
        exists|k: int|
            0 <= k < files.len() && (#[trigger] files[k]).data@ == planned(files, dir)[i].1
                && destination(files[k], dir) == Some(planned(files, dir)[i].0),
    decreases files.len(),
{
    let before = files.drop_last();
    assert(files.last() == files[files.len() - 1]);
    if i < planned(before, dir).len() {
        planned_files_were_sent(before, dir, i);
        let k = choose|k: int|
            0 <= k < before.len() && (#[trigger] before[k]).data@ == planned(before, dir)[i].1
                && destination(before[k], dir) == Some(planned(before, dir)[i].0);
        assert(files[k] == before[k]);
    } else if planned(before, dir).len() > 0 {
        planned_files_were_sent(before, dir, 0);
    }
}

/// Files that came with safe names are all written, in their order, below the
/// directory, under their names and with their bytes. Whatever is written was
/// sent. Nothing is written of a transfer that is empty or over the limit.
pub proof fn received_files_are_written_whole(
    payload: FileTransferPayload,
    dir: &str,
    r: Option<Vec<PlannedFile>>,
)
    requires
        call_ensures(plan_file_transfer, (payload, dir), r),
    ensures
        r is Some <==> payload.files@.len() > 0 && total_size(payload.files@) <= 12 * 1024 * 1024,
        r matches Some(plan) ==> {
            &&& plan@.len() <= payload.files@.len()
            &&& (forall|i: int|
                0 <= i < payload.files@.len() ==> clipboard_files::plain_name(
                    text::trimmed((#[trigger] payload.files@[i]).name@),
                )) ==> {
                &&& plan@.len() == payload.files@.len()
                &&& forall|i: int|
                    0 <= i < plan@.len() ==> (#[trigger] plan@[i]).data@ == payload.files@[i].data@
                        && plan@[i].path@ == paths::joined(
                        dir@,
                        text::trimmed(payload.files@[i].name@),
                    )
            }
            &&& forall|i: int|
                0 <= i < plan@.len() ==> exists|k: int|
                    0 <= k < payload.files@.len() && (#[trigger] payload.files@[k]).data@ == (
                    #[trigger] plan@[i]).data@
        },
{
    if let Some(plan) = r {
        let files = payload.files@;
        let v = plan_view(plan@);
        assert(v.len() == plan@.len());
        assert forall|i: int| 0 <= i < plan@.len() implies exists|k: int|
            0 <= k < files.len() && (#[trigger] files[k]).data@ == (#[trigger] plan@[i]).data@ by {
            assert(v[i] == (plan@[i].path@, plan@[i].data@));
            planned_files_were_sent(files, dir@, i);
        }
        if plan@.len() > 0 {
            planned_files_were_sent(files, dir@, 0);
        }
        if forall|i: int|
            0 <= i < files.len() ==> clipboard_files::plain_name(
                text::trimmed((#[trigger] files[i]).name@),
            ) {
            planned_safe_files(files, dir@);
            assert forall|i: int| 0 <= i < plan@.len() implies (#[trigger] plan@[i]).data@
                == files[i].data@ && plan@[i].path@ == paths::joined(
                dir@,
                text::trimmed(files[i].name@),
            ) by {
                assert(v[i] == (plan@[i].path@, plan@[i].data@));
            }
        }
    }
}

/// What was written is offered for pasting, and nothing where nothing was.
pub proof fn written_files_can_be_pasted(
    written: &[String],
    r: Option<String>,
    list: &str,
    read: Vec<String>,
)
    requires
        call_ensures(written_files_list, (written,), r),
        r matches Some(s) ==> list@ == s@,
        call_ensures(clipboard_files::parse_uri_list, (list,), read),
    ensures
        r is None <==> written@.len() == 0,
        r is Some ==> text::texts(read@) == text::texts(written@),
{
    if let Some(s) = r {
        clipboard_files::uri_lists_round_trip(text::texts(written@));
    }
}

/// Received files go below the user's cache, and below the temporary directory
/// only where there is none. Transfers at different times have directories of
/// their own.
pub proof fn transfers_have_directories_of_their_own(
    xdg: Option<String>,
    home: Option<String>,
    temp: &str,
    d: String,
    m: u64,
    n: u64,
    a: String,
    b: String,
)
    requires
        call_ensures(client_clipboard_files_dir, (xdg, home, temp), d),
        call_ensures(transfer_subdir_name, (Some(m),), a),
        call_ensures(transfer_subdir_name, (Some(n),), b),
    ensures
        xdg matches Some(x) ==> d@.len() >= x@.len() && d@.take(x@.len() as int) == x@,
        xdg is None ==> (home matches Some(h) ==> d@.len() >= h@.len() && d@.take(h@.len() as int)
            == h@),
        xdg is None && home is None ==> d@.len() >= temp@.len() && d@.take(temp@.len() as int)
            == temp@,
        m != n ==> a@ != b@,
        text::decimal_value(a@) == m,
{
    text::decimals_read_back(m as nat);
    text::decimals_read_back(n as nat);
    let base = match xdg {
        Some(x) => x@,
        None => match home {
            Some(h) => h@,
            None => temp@,
        },
    };
    assert(d@.take(base.len() as int) =~= base);
}

/// Each four bytes make one pixel of the first three, red, green and blue; a rest
/// makes none.
pub proof fn four_bytes_make_a_pixel(rgba: &[u8], out: Vec<u32>, i: int)
    requires
        call_ensures(rgba_to_pixels, (rgba,), out),
        0 <= i < out@.len(),
    ensures
        4 * out@.len() <= rgba@.len() < 4 * out@.len() + 4,
        out@[i] / 65536 == rgba@[4 * i],
        out@[i] / 256 % 256 == rgba@[4 * i + 1],
        out@[i] % 256 == rgba@[4 * i + 2],
{
}

/// The columns of a list of sessions stand below each other: where they fit, the
/// mode, the size and the age of every session start and end in the same places,
/// and so do their titles.
pub proof fn columns_stand_below_each_other(sessions: &[SessionInfo], lines: Vec<String>, i: int)
    requires
        call_ensures(session_listing, (sessions,), lines),
        0 <= i < sessions@.len(),
        sessions@[i].session_id@.len() <= 16,
        sessions@[i].mode@.len() <= 16,
        text::decimal(sessions@[i].width as nat).len() + text::decimal(
            sessions@[i].height as nat,
        ).len() <= 10,
        age_text(sessions@[i].age_secs).len() <= 8,
    ensures
        ({
            let line = lines@[i + 1]@;
            let s = sessions@[i];
            let w = text::decimal(s.width as nat);
            let h = text::decimal(s.height as nat);
            &&& line.len() == 54
            &&& line.subrange(17, (17 + s.mode@.len()) as int) == s.mode@
            &&& line.subrange(34, (34 + w.len()) as int) == w
            &&& line[(34 + w.len()) as int] == 'x'
            &&& line.subrange((35 + w.len()) as int, (35 + w.len() + h.len()) as int) == h
            &&& text::has_suffix(line, age_text(s.age_secs))
        }),
        lines@[0]@.len() == 54,
        lines@[0]@.take(10) == "SESSION ID"@,
        lines@[0]@.subrange(17, 21) == "MODE"@,
        lines@[0]@.subrange(34, 38) == "SIZE"@,
        lines@[0]@.skip(51) == "AGE"@,
{
    reveal_strlit(" ");
    reveal_strlit("x");
    reveal_strlit("SESSION ID");
    reveal_strlit("MODE");
    reveal_strlit("SIZE");
    reveal_strlit("AGE");
    let all = text::texts(lines@);
    assert(all.len() == lines@.len());
    assert(all[0] == lines@[0]@);
    assert(all[i + 1] == lines@[i + 1]@);
    let s = sessions@[i];
    assert(all[i + 1] == session_row(s));
    let w = text::decimal(s.width as nat);
    let h = text::decimal(s.height as nat);
    row_places(s.session_id@, s.mode@, w + "x"@ + h, age_text(s.age_secs));
    let line = lines@[i + 1]@;
    let size = line.subrange(34, (35 + w.len() + h.len()) as int);
    assert(size == w + "x"@ + h);
    assert(line.subrange(34, (34 + w.len()) as int) =~= size.take(w.len() as int));
    assert(size.take(w.len() as int) =~= w);
    assert(line[(34 + w.len()) as int] == size[w.len() as int]);
    assert(line.subrange((35 + w.len()) as int, (35 + w.len() + h.len()) as int) =~= size.skip(
        (w.len() + 1) as int,
    ));
    assert(size.skip((w.len() + 1) as int) =~= h);
    assert(all[0] == table_row("SESSION ID"@, "MODE"@, "SIZE"@, "AGE"@));
    row_places("SESSION ID"@, "MODE"@, "SIZE"@, "AGE"@);
}

proof fn row_places(id: Seq<char>, mode: Seq<char>, size: Seq<char>, age: Seq<char>)
    requires
        id.len() <= 16,
        mode.len() <= 16,
        size.len() <= 11,
        age.len() <= 8,
    ensures
        ({
            let line = table_row(id, mode, size, age);
            &&& line.len() == 54
            &&& line.take(id.len() as int) == id
            &&& line.subrange(17, (17 + mode.len()) as int) == mode
            &&& line.subrange(34, (34 + size.len()) as int) == size
            &&& line.skip(54 - age.len()) == age
        }),
{
    reveal_strlit(" ");
    let line = table_row(id, mode, size, age);
    assert(line.take(id.len() as int) =~= id);
    assert(line.subrange(17, (17 + mode.len()) as int) =~= mode);
    assert(line.subrange(34, (34 + size.len()) as int) =~= size);
    assert(line.skip(54 - age.len()) =~= age);
}

} // verus!
