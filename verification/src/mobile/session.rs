//! A session of the mobile client: handshake, opening, and the loop that hands
//! packets to the platform and input to the server. Each function takes what
//! came in and says what to do.
use vstd::prelude::*;
use crate::client::connection;
use crate::client::connection::unexpected_text;
use crate::compositor::screencopy::after;
use crate::mobile::error::TermlandError;
use crate::mobile::transport;
use crate::mobile::types;
use crate::mobile::types::{
    MobileCodec, ServerProfile, SessionParams, SessionReadyInfo, SessionSummary, VideoPacket,
};
use crate::protocol::frame::CodecError;
use crate::protocol::input::{KeyEvent, MouseButton, MouseMove, MouseScroll};
use crate::protocol::little_endian;
use crate::protocol::messages;
use crate::protocol::messages::{
    AudioCodec, AuthResponse, ClipboardPayload, CursorModeMsg, FrameType, Hello, Message, Pong,
    SessionAttach, SessionClose, SessionCreate, SessionInfo, SessionList, SessionResize, TextInput,
    VideoCodec, PROTOCOL_VERSION,
};
use crate::protocol::q2;
use crate::text;

verus! {

/// How long a video header is.
pub const VIDEO_HEADER_LEN: usize = 18;

/// How long an audio header is.
pub const AUDIO_HEADER_LEN: usize = 5;

/// The largest picture that is taken. No real one comes near it.
pub const MAX_FRAME_BYTES: u32 = 67108864;

/// Input and control that the platform queues for the server.
#[derive(Debug, Clone)]
pub enum InputCommand {
    Key(KeyEvent),
    Text(TextInput),
    Motion(MouseMove),
    Button(MouseButton),
    Scroll(MouseScroll),
    Clipboard(ClipboardPayload),
    Resize(SessionResize),
    CursorInFrame(bool),
}

impl InputCommand {
    /// The message that carries the command.
    pub open spec fn message(self) -> Message {
        match self {
            InputCommand::Key(e) => Message::KeyEvent(e),
            InputCommand::Text(t) => Message::TextInput(t),
            InputCommand::Motion(m) => Message::MouseMove(m),
            InputCommand::Button(b) => Message::MouseButton(b),
            InputCommand::Scroll(s) => Message::MouseScroll(s),
            InputCommand::Clipboard(c) => Message::ClipboardSend(c),
            InputCommand::Resize(r) => Message::SessionResize(r),
            InputCommand::CursorInFrame(yes) => Message::CursorMode(
                CursorModeMsg { include_cursor_in_frame: yes },
            ),
        }
    }

    /// The message that carries the command.
    pub fn into_message(self) -> (m: Message)
        ensures
            m == self.message(),
    {
        match self {
            InputCommand::Key(e) => Message::KeyEvent(e),
            InputCommand::Text(t) => Message::TextInput(t),
            InputCommand::Motion(m) => Message::MouseMove(m),
            InputCommand::Button(b) => Message::MouseButton(b),
            InputCommand::Scroll(s) => Message::MouseScroll(s),
            InputCommand::Clipboard(c) => Message::ClipboardSend(c),
            InputCommand::Resize(r) => Message::SessionResize(r),
            InputCommand::CursorInFrame(yes) => Message::CursorMode(
                CursorModeMsg { include_cursor_in_frame: yes },
            ),
        }
    }
}

/// The failure of a reply of the wrong kind.
pub open spec fn is_unexpected(e: TermlandError, expected: Seq<char>, got: Message) -> bool {
    e matches TermlandError::Protocol { msg } && msg@ == connection::unexpected_reply(expected, got)
}

/// The failure of a reply of the wrong kind.
pub fn unexpected(expected: &str, got: &Message) -> (e: TermlandError)
    ensures
        is_unexpected(e, expected@, *got),
{
    TermlandError::Protocol { msg: unexpected_text(expected, got) }
}

/// The next message, where there is one: a stream that ends is a failure.
pub fn next_message(incoming: Option<Result<Message, CodecError>>) -> (r: Result<
    Message,
    TermlandError,
>)
    ensures
        match incoming {
            Some(Ok(m)) => r == Ok::<Message, TermlandError>(m),
            Some(Err(e)) => r matches Err(t) && match e {
                CodecError::Io(io) => t == (TermlandError::Io { msg: io }),
                _ => t matches TermlandError::Protocol { msg } && msg@ == e.text(),
            },
            None => r matches Err(TermlandError::Io { msg }) && msg@
                == "connection closed by server"@,
        },
{
    match incoming {
        Some(result) => match result {
            Ok(m) => Ok(m),
            Err(e) => Err(TermlandError::from_codec(e)),
        },
        None => Err(TermlandError::Io { msg: String::from_str("connection closed by server") }),
    }
}

/// The first message of a connection.
pub fn hello() -> (m: Message)
    ensures
        m matches Message::Hello(h) && h.protocol_version == PROTOCOL_VERSION && h.client_name@
            == "termland-mobile"@,
{
    Message::Hello(
        Hello {
            protocol_version: PROTOCOL_VERSION,
            client_name: String::from_str("termland-mobile"),
        },
    )
}

/// Where the handshake stands: which reply is awaited.
#[derive(Debug, Clone, Copy, PartialEq, Eq, Structural)]
pub enum HandshakeState {
    AwaitHelloAck,
    AwaitAuthRequest,
    AwaitAuthResult,
}

/// What a reply makes of the handshake.
#[derive(Debug, Clone)]
pub enum HandshakeStep {
    /// Wait for the next reply.
    Wait(HandshakeState),
    /// Send this and wait for the next reply.
    Send(Message, HandshakeState),
    /// The handshake is over.
    Done,
    Fail(TermlandError),
}

/// The name to log in with: the profile's, without white space at its ends.
pub open spec fn login_name(profile: ServerProfile) -> Seq<char> {
    text::trimmed(transport::or_empty(profile.username))
}

/// Whether a step is the right one for a reply during the handshake.
pub open spec fn handshake_answers(
    state: HandshakeState,
    reply: Message,
    profile: ServerProfile,
    step: HandshakeStep,
) -> bool {
    match state {
        HandshakeState::AwaitHelloAck => match reply {
            Message::HelloAck(a) => if a.auth_required {
                step == HandshakeStep::Wait(HandshakeState::AwaitAuthRequest)
            } else {
                step is Done
            },
            _ => step matches HandshakeStep::Fail(e) && is_unexpected(e, "HelloAck"@, reply),
        },
        HandshakeState::AwaitAuthRequest => match reply {
            Message::AuthRequest(_) => if login_name(profile).len() == 0 {
                step matches HandshakeStep::Fail(TermlandError::Auth { msg }) && msg@
                    == "server requires a username"@
            } else {
                step matches HandshakeStep::Send(
                    Message::AuthResponse(a),
                    HandshakeState::AwaitAuthResult,
                ) && a.username@ == login_name(profile) && a.credential@ == transport::or_empty(
                    profile.password,
                )
            },
            _ => step matches HandshakeStep::Fail(e) && is_unexpected(e, "AuthRequest"@, reply),
        },
        HandshakeState::AwaitAuthResult => match reply {
            Message::AuthResult(a) => if a.success {
                step is Done
            } else {
                step == HandshakeStep::Fail(TermlandError::Auth { msg: a.message })
            },
            _ => step matches HandshakeStep::Fail(e) && is_unexpected(e, "AuthResult"@, reply),
        },
    }
}

/// Takes one reply of the server during the handshake. Where the server asks
/// for a login, the profile must name a user: the local one means nothing to
/// the server.
pub fn handshake_step(state: HandshakeState, reply: &Message, profile: &ServerProfile) -> (step:
    HandshakeStep)
    ensures
        handshake_answers(state, *reply, *profile, step),
{
    match state {
        HandshakeState::AwaitHelloAck => match reply {
            Message::HelloAck(a) => {
                if a.auth_required {
                    HandshakeStep::Wait(HandshakeState::AwaitAuthRequest)
                } else {
                    HandshakeStep::Done
                }
            },
            other => HandshakeStep::Fail(unexpected("HelloAck", other)),
        },
        HandshakeState::AwaitAuthRequest => match reply {
            Message::AuthRequest(_) => {
                let name = match &profile.username {
                    Some(u) => text::trim(&text::chars_of(u.as_str())),
                    None => text::trim(&text::chars_of("")),
                };
                if name.len() == 0 {
                    return HandshakeStep::Fail(
                        TermlandError::Auth { msg: String::from_str("server requires a username") },
                    );
                }
                let credential = match &profile.password {
                    Some(p) => p.clone(),
                    None => String::from_str(""),
                };
                HandshakeStep::Send(
                    Message::AuthResponse(
                        AuthResponse { username: text::text_of(&name), credential },
                    ),
                    HandshakeState::AwaitAuthResult,
                )
            },
            other => HandshakeStep::Fail(unexpected("AuthRequest", other)),
        },
        HandshakeState::AwaitAuthResult => match reply {
            Message::AuthResult(a) => {
                if a.success {
                    HandshakeStep::Done
                } else {
                    HandshakeStep::Fail(TermlandError::Auth { msg: a.message.clone() })
                }
            },
            other => HandshakeStep::Fail(unexpected("AuthResult", other)),
        },
    }
}

/// The request for the sessions that can be resumed.
pub fn list_request() -> (m: Message)
    ensures
        m is SessionList,
{
    Message::SessionList(SessionList {  })
}

/// The request to close a session.
pub fn close_request(session_id: String) -> (m: Message)
    ensures
        m == Message::SessionClose(SessionClose { session_id }),
{
    Message::SessionClose(SessionClose { session_id })
}

/// A session of the list, as the platform gets it.
pub open spec fn summary(s: SessionInfo) -> SessionSummary {
    SessionSummary {
        session_id: s.session_id,
        mode: s.mode,
        width: s.width,
        height: s.height,
        age_secs: s.age_secs,
        attached: s.attached,
    }
}

/// Takes the server's answer to a request for its sessions.
pub fn list_sessions(reply: Message) -> (r: Result<Vec<SessionSummary>, TermlandError>)
    ensures
        match reply {
            Message::SessionListResult(l) => r matches Ok(v) && v@ == l.sessions@.map_values(
                |s: SessionInfo| summary(s),
            ),
            _ => r matches Err(e) && is_unexpected(e, "SessionListResult"@, reply),
        },
{
    match reply {
        Message::SessionListResult(l) => {
            let ghost all = l.sessions@.map_values(|s: SessionInfo| summary(s));
            let mut v: Vec<SessionSummary> = Vec::new();
            let mut i: usize = 0;
            while i < l.sessions.len()
                invariant
                    i <= l.sessions@.len(),
                    all == l.sessions@.map_values(|s: SessionInfo| summary(s)),
                    v@ == all.take(i as int),
                decreases l.sessions@.len() - i,
            {
                let s = &l.sessions[i];
                v.push(
                    SessionSummary {
                        session_id: s.session_id.clone(),
                        mode: s.mode.clone(),
                        width: s.width,
                        height: s.height,
                        age_secs: s.age_secs,
                        attached: s.attached,
                    },
                );
                assert(all.take(i + 1) == all.take(i as int).push(all[i as int]));
                i = i + 1;
            }
            assert(all.take(i as int) == all);
            Ok(v)
        },
        other => Err(unexpected("SessionListResult", &other)),
    }
}

/// The message that opens a session: one to resume where there is one,
/// otherwise a new one.
pub fn opening_message(attach_to: Option<String>, params: &SessionParams) -> (m: Message)
    ensures
        match attach_to {
            Some(id) => m matches Message::SessionAttach(a) && a.session_id == id && a.audio
                == params.audio && a.quality == params.quality && a.encoder_preset is None
                && a.encoder_crf is None && a.encoder_extra_params is None && a.supported_codecs@
                == params.advertised() && a.supported_audio_codecs@ == seq![AudioCodec::Opus],
            None => m matches Message::SessionCreate(c) && c.mode@ == types::mode_for(
                text::optional(params.app_command),
            ) && c.width == params.width && c.height == params.height && c.audio == params.audio
                && c.quality == params.quality && c.desktop_shell == params.desktop_shell
                && c.encoder_preset is None && c.encoder_crf is None && c.encoder_extra_params is None
                && c.supported_codecs@ == params.advertised() && c.supported_audio_codecs@
                == seq![AudioCodec::Opus],
        },
{
    let supported_codecs = params.advertised_codecs();
    let supported_audio_codecs = AudioCodec::all_preferred();
    match attach_to {
        Some(session_id) => Message::SessionAttach(
            SessionAttach {
                session_id,
                audio: params.audio,
                quality: params.quality,
                encoder_preset: None,
                encoder_crf: None,
                encoder_extra_params: None,
                supported_codecs,
                supported_audio_codecs,
            },
        ),
        None => {
            let desktop_shell = match &params.desktop_shell {
                Some(s) => Some(s.clone()),
                None => None,
            };
            Message::SessionCreate(
                SessionCreate {
                    mode: params.session_mode(),
                    width: params.width,
                    height: params.height,
                    audio: params.audio,
                    quality: params.quality,
                    desktop_shell,
                    encoder_preset: None,
                    encoder_crf: None,
                    encoder_extra_params: None,
                    supported_codecs,
                    supported_audio_codecs,
                },
            )
        },
    }
}

/// Takes the reply to the opening message. The decoder needs a codec before the
/// first packet; where the server names none, it is H.264, which every device
/// decodes.
pub fn open_session(reply: Message) -> (r: Result<SessionReadyInfo, TermlandError>)
    ensures
        match reply {
            Message::SessionReady(sr) => r == Ok::<SessionReadyInfo, TermlandError>(
                SessionReadyInfo {
                    width: sr.width,
                    height: sr.height,
                    codec: match sr.codec {
                        Some(c) => types::mobile_codec(c),
                        None => MobileCodec::H264,
                    },
                    session_id: sr.session_id,
                },
            ),
            _ => r matches Err(e) && is_unexpected(e, "SessionReady"@, reply),
        },
{
    match reply {
        Message::SessionReady(sr) => {
            let codec = match sr.codec {
                Some(c) => MobileCodec::from(c),
                None => MobileCodec::H264,
            };
            Ok(
                SessionReadyInfo {
                    width: sr.width,
                    height: sr.height,
                    codec,
                    session_id: sr.session_id,
                },
            )
        },
        other => Err(unexpected("SessionReady", &other)),
    }
}

/// What happens in the session loop. Input comes first where several are there
/// at once: video would starve it.
#[derive(Debug)]
pub enum LoopEvent {
    /// The platform's next command, or the end of its commands: the user
    /// detached.
    Input(Option<InputCommand>),
    /// A command could not be sent.
    SendFailed(String),
    /// A packet of the video stream beside the control stream.
    Video(VideoPacket),
    /// A packet of the audio beside the control stream.
    Audio(Vec<u8>),
    /// What came over the control stream, or its end.
    Incoming(Option<Result<Message, CodecError>>),
}

/// What to do about it.
#[derive(Debug, Clone)]
pub enum LoopAction {
    Idle,
    /// Send this; that it fails ends the loop.
    Send(Message),
    /// Send this; that it fails does not matter.
    Reply(Message),
    /// Hand this to the platform's decoder.
    Video(VideoPacket),
    /// Hand this to the platform's audio.
    Audio(Vec<u8>),
    /// Hand this to the platform's clipboard.
    Clipboard { mime_type: String, data: Vec<u8> },
    /// End, for this reason.
    End { reason: String },
    /// Report this error, and end for this reason.
    Fail { error: String, reason: String },
}

/// How many bytes an event counts for.
pub open spec fn event_bytes(event: LoopEvent) -> nat {
    match event {
        LoopEvent::Video(p) => p.data@.len(),
        LoopEvent::Audio(d) => d@.len(),
        LoopEvent::Incoming(Some(Ok(Message::VideoFrame(f)))) => f.data@.len(),
        LoopEvent::Incoming(Some(Ok(Message::AudioChunk(c)))) => c.data@.len(),
        LoopEvent::Incoming(Some(Ok(Message::ClipboardData(c)))) => c.data@.len(),
        _ => 0,
    }
}

/// Whether an action is the right one for an event, in a session that was
/// opened with a size and a codec. A frame that does not say its size or codec
/// has the session's.
pub open spec fn reacts(ready: SessionReadyInfo, event: LoopEvent, a: LoopAction) -> bool {
    match event {
        LoopEvent::Input(Some(c)) => a == LoopAction::Send(c.message()),
        LoopEvent::Input(None) => a matches LoopAction::End { reason } && reason@ == "detached"@,
        LoopEvent::SendFailed(e) => a matches LoopAction::Fail { error, reason } && error@
            == "send failed: "@ + e@ && reason@ == "send failed"@,
        LoopEvent::Video(p) => a == LoopAction::Video(p),
        LoopEvent::Audio(d) => a == LoopAction::Audio(d),
        LoopEvent::Incoming(None) => a matches LoopAction::End { reason } && reason@
            == "connection closed"@,
        LoopEvent::Incoming(Some(Err(e))) => a matches LoopAction::Fail { error, reason } && error@
            == "protocol error: "@ + e.text() && reason@ == "protocol error"@,
        LoopEvent::Incoming(Some(Ok(m))) => match m {
            Message::VideoFrame(f) => if f.data@.len() == 0 {
                a is Idle
            } else {
                a == LoopAction::Video(
                    VideoPacket {
                        data: f.data,
                        timestamp_us: f.timestamp_us,
                        keyframe: f.frame_type == FrameType::Keyframe,
                        codec: match f.codec {
                            Some(c) => types::mobile_codec(c),
                            None => ready.codec,
                        },
                        width: if f.width == 0 {
                            ready.width
                        } else {
                            f.width as u32
                        },
                        height: if f.height == 0 {
                            ready.height
                        } else {
                            f.height as u32
                        },
                    },
                )
            },
            Message::AudioChunk(c) => a == LoopAction::Audio(c.data),
            Message::ClipboardData(p) => a == (LoopAction::Clipboard {
                mime_type: p.mime_type,
                data: p.data,
            }),
            Message::SessionEnd(e) => a == (LoopAction::End { reason: e.reason }),
            Message::Ping(p) => a == LoopAction::Reply(
                Message::Pong(Pong { timestamp_us: p.timestamp_us }),
            ),
            _ => a is Idle,
        },
    }
}

/// Decides what to do in the session loop, and counts the bytes since the last
/// report (up to what the counter holds).
pub fn run_session(ready: &SessionReadyInfo, event: LoopEvent, bytes: &mut u64) -> (a: LoopAction)
    ensures
        reacts(*ready, event, a),
        *final(bytes) == (if *old(bytes) + event_bytes(event) <= u64::MAX {
            *old(bytes) + event_bytes(event)
        } else {
            u64::MAX as int
        }),
{
    match event {
        LoopEvent::Input(command) => match command {
            Some(c) => LoopAction::Send(c.into_message()),
            None => LoopAction::End { reason: String::from_str("detached") },
        },
        LoopEvent::SendFailed(e) => LoopAction::Fail {
            error: after("send failed: ", e.as_str()),
            reason: String::from_str("send failed"),
        },
        LoopEvent::Video(p) => {
            *bytes = bytes.saturating_add(p.data.len() as u64);
            LoopAction::Video(p)
        },
        LoopEvent::Audio(d) => {
            *bytes = bytes.saturating_add(d.len() as u64);
            LoopAction::Audio(d)
        },
        LoopEvent::Incoming(incoming) => match incoming {
            None => LoopAction::End { reason: String::from_str("connection closed") },
            Some(result) => match result {
                Err(e) => LoopAction::Fail {
                    error: after("protocol error: ", e.message().as_str()),
                    reason: String::from_str("protocol error"),
                },
                Ok(m) => on_message(ready, m, bytes),
            },
        },
    }
}

fn on_message(ready: &SessionReadyInfo, m: Message, bytes: &mut u64) -> (a: LoopAction)
    ensures
        reacts(*ready, LoopEvent::Incoming(Some(Ok(m))), a),
        ({
            let n = event_bytes(LoopEvent::Incoming(Some(Ok(m))));
            *final(bytes) == (if *old(bytes) + n <= u64::MAX {
                *old(bytes) + n
            } else {
                u64::MAX as int
            })
        }),
{
    match m {
        Message::VideoFrame(f) => {
            if f.data.len() == 0 {
                LoopAction::Idle
            } else {
                *bytes = bytes.saturating_add(f.data.len() as u64);
                let codec = match f.codec {
                    Some(c) => MobileCodec::from(c),
                    None => ready.codec,
                };
                LoopAction::Video(
                    VideoPacket {
                        timestamp_us: f.timestamp_us,
                        keyframe: f.frame_type == FrameType::Keyframe,
                        codec,
                        width: if f.width == 0 {
                            ready.width
                        } else {
                            f.width as u32
                        },
                        height: if f.height == 0 {
                            ready.height
                        } else {
                            f.height as u32
                        },
                        data: f.data,
                    },
                )
            }
        },
        Message::AudioChunk(c) => {
            *bytes = bytes.saturating_add(c.data.len() as u64);
            LoopAction::Audio(c.data)
        },
        Message::ClipboardData(p) => {
            *bytes = bytes.saturating_add(p.data.len() as u64);
            LoopAction::Clipboard { mime_type: p.mime_type, data: p.data }
        },
        Message::SessionEnd(e) => LoopAction::End { reason: e.reason },
        Message::Ping(p) => LoopAction::Reply(
            Message::Pong(Pong { timestamp_us: p.timestamp_us }),
        ),
        _ => LoopAction::Idle,
    }
}

/// The codec that a tag stands for.
pub fn decode_video_codec_tag(tag: u8) -> (c: Option<VideoCodec>)
    ensures
        c is Some <==> tag <= 4,
        c matches Some(x) ==> q2::tag_of_codec(x) == tag,
{
    q2::decode_codec_tag(tag)
}

/// The fields of a video header: codec, whether it is a keyframe, width,
/// height, time in microseconds, and how many bytes follow. A codec tag that
/// stands for no codec is refused.
pub fn parse_video_header(header: &[u8; VIDEO_HEADER_LEN]) -> (r: Option<
    (VideoCodec, bool, u16, u16, u64, u32),
>)
    ensures
        r is Some <==> header@[0] <= 4,
        r matches Some(f) ==> {
            &&& q2::tag_of_codec(f.0) == header@[0]
            &&& f.1 == (header@[1] == 1)
            &&& f.2 == little_endian::le_value(header@.subrange(2, 4))
            &&& f.3 == little_endian::le_value(header@.subrange(4, 6))
            &&& f.4 == little_endian::le_value(header@.subrange(6, 14))
            &&& f.5 == little_endian::le_value(header@.subrange(14, 18))
        },
{
    match q2::parse_video_header(header) {
        Some(h) => Some((h.codec, h.keyframe, h.width, h.height, h.timestamp_us, h.data_len)),
        None => None,
    }
}

/// Splits an audio datagram into sample rate, channel count and Opus payload.
pub fn parse_audio_datagram(datagram: &[u8]) -> (r: Option<(u32, u8, &[u8])>)
    ensures
        r is Some <==> datagram@.len() >= AUDIO_HEADER_LEN,
        r matches Some(x) ==> {
            &&& x.0 == little_endian::le_value(datagram@.take(4))
            &&& x.1 == datagram@[4]
            &&& x.2@ == datagram@.skip(5)
        },
{
    q2::parse_audio_datagram(datagram)
}

/// What to do after a header of the video stream.
#[derive(Debug, Clone)]
pub enum VideoRead {
    /// Stop reading the stream. The session goes on without it.
    End,
    /// Read so many bytes, which are the packet's.
    Read { len: u32 },
}

/// Whether this is what follows a header of the video stream.
pub open spec fn follows_header(header: Seq<u8>, r: VideoRead) -> bool {
    let len = little_endian::le_value(header.subrange(14, 18));
    match r {
        VideoRead::End => header[0] > 4 || len > MAX_FRAME_BYTES,
        VideoRead::Read { len: n } => header[0] <= 4 && n == len && n <= MAX_FRAME_BYTES,
    }
}

/// Decides what follows a header of the video stream. A header that means
/// nothing, or a size that no picture has, ends the stream.
pub fn quic_video_reader(header: &[u8; VIDEO_HEADER_LEN]) -> (r: VideoRead)
    ensures
        follows_header(header@, r),
{
    match parse_video_header(header) {
        None => VideoRead::End,
        Some(f) => {
            if f.5 > MAX_FRAME_BYTES {
                VideoRead::End
            } else {
                VideoRead::Read { len: f.5 }
            }
        },
    }
}

/// Whether this is the packet of a header and the bytes behind it. A header
/// whose codec tag stands for no codec has none.
pub open spec fn is_packet_of(header: Seq<u8>, data: Vec<u8>, r: Option<VideoPacket>) -> bool {
    &&& r is Some <==> header[0] <= 4
    &&& r matches Some(p) ==> {
        &&& p.data == data
        &&& q2::tag_of_codec(types::wire_codec(p.codec)) == header[0]
        &&& p.keyframe == (header[1] == 1)
        &&& p.width == little_endian::le_value(header.subrange(2, 4))
        &&& p.height == little_endian::le_value(header.subrange(4, 6))
        &&& p.timestamp_us == little_endian::le_value(header.subrange(6, 14))
    }
}

/// The packet of a header and the bytes behind it, where the header means
/// something.
pub fn video_packet(header: &[u8; VIDEO_HEADER_LEN], data: Vec<u8>) -> (r: Option<VideoPacket>)
    ensures
        is_packet_of(header@, data, r),
{
    match parse_video_header(header) {
        None => None,
        Some(f) => Some(
            VideoPacket {
                data,
                timestamp_us: f.4,
                keyframe: f.1,
                codec: MobileCodec::from(f.0),
                width: f.2 as u32,
                height: f.3 as u32,
            },
        ),
    }
}

/// The Opus packet of a datagram. One that is too short is dropped.
pub fn quic_audio_reader(datagram: &[u8]) -> (r: Option<Vec<u8>>)
    ensures
        match r {
            Some(p) => datagram@.len() >= AUDIO_HEADER_LEN && p@ == datagram@.skip(5),
            None => datagram@.len() < AUDIO_HEADER_LEN,
        },
{
    match parse_audio_datagram(datagram) {
        None => None,
        Some(x) => {
            let payload = x.2;
            let mut out: Vec<u8> = Vec::new();
            let mut i: usize = 0;
            while i < payload.len()
                invariant
                    i <= payload@.len(),
                    out@ == payload@.take(i as int),
                decreases payload@.len() - i,
            {
                out.push(payload[i]);
                assert(payload@.take(i + 1) == payload@.take(i as int).push(payload@[i as int]));
                i = i + 1;
            }
            assert(payload@.take(i as int) == payload@);
            Some(out)
        },
    }
}

/// The login is sent only where the server asked for it and the profile names
/// a user, and the handshake is over only where the server asks for none or
/// accepted it.
pub proof fn a_login_is_sent_only_when_asked(
    state: HandshakeState,
    reply: Message,
    profile: ServerProfile,
    step: HandshakeStep,
)
    requires
        handshake_answers(state, reply, profile, step),
    ensures
        step is Send ==> state == HandshakeState::AwaitAuthRequest && reply is AuthRequest
            && login_name(profile).len() > 0,
        step is Done ==> {
            ||| state == HandshakeState::AwaitHelloAck && (reply matches Message::HelloAck(a)
                && !a.auth_required)
            ||| state == HandshakeState::AwaitAuthResult && (reply matches Message::AuthResult(a)
                && a.success)
        },
{
}

/// Whatever happens in a session that streams, the server is never told to end
/// or close it: a client that leaves can come back.
pub proof fn leaving_keeps_the_session(ready: SessionReadyInfo, event: LoopEvent, a: LoopAction)
    requires
        reacts(ready, event, a),
    ensures
        a matches LoopAction::Send(m) ==> !(m is SessionClose) && !(m is SessionEnd),
        a matches LoopAction::Reply(m) ==> m is Pong,
{
}

/// A packet of the video stream arrives as it was sent: after the header that
/// is written for a picture its bytes are read, unless they are too many, and
/// what comes out is the picture.
pub proof fn video_packets_arrive_as_sent(
    codec: VideoCodec,
    frame_type: FrameType,
    width: u16,
    height: u16,
    timestamp_us: u64,
    data_len: u32,
    data: Vec<u8>,
    next: VideoRead,
    r: Option<VideoPacket>,
)
    requires
        ({
            let h = q2::video_header(codec, frame_type, width, height, timestamp_us, data_len);
            follows_header(h, next) && is_packet_of(h, data, r)
        }),
    ensures
        data_len <= MAX_FRAME_BYTES ==> next == (VideoRead::Read { len: data_len }),
        data_len > MAX_FRAME_BYTES ==> next == VideoRead::End,
        r matches Some(p) && {
            &&& p.data == data
            &&& types::wire_codec(p.codec) == codec
            &&& p.keyframe == (frame_type == FrameType::Keyframe)
            &&& p.width == width
            &&& p.height == height
            &&& p.timestamp_us == timestamp_us
        },
{
    let h = q2::video_header(codec, frame_type, width, height, timestamp_us, data_len);
    little_endian::u16_fits(width);
    little_endian::u16_fits(height);
    little_endian::u64_fits(timestamp_us);
    little_endian::u32_fits(data_len);
    little_endian::le_round_trips(width as nat, 2);
    little_endian::le_round_trips(height as nat, 2);
    little_endian::le_round_trips(timestamp_us as nat, 8);
    little_endian::le_round_trips(data_len as nat, 4);
    assert(h.subrange(2, 4) == little_endian::le_bytes(width as nat, 2));
    assert(h.subrange(4, 6) == little_endian::le_bytes(height as nat, 2));
    assert(h.subrange(6, 14) == little_endian::le_bytes(timestamp_us as nat, 8));
    assert(h.subrange(14, 18) == little_endian::le_bytes(data_len as nat, 4));
    assert(h[0] == q2::tag_of_codec(codec) && h[0] <= 4);
    match r {
        Some(p) => {
            q2::codec_tags_are_distinct(codec, types::wire_codec(p.codec));
        },
        None => {},
    }
}

/// What the phone sends reaches the server as it was given: each command under
/// its own message.
pub proof fn commands_are_sent_as_given(c: InputCommand, m: Message)
    requires
        call_ensures(InputCommand::into_message, (c,), m),
    ensures
        c matches InputCommand::Key(e) ==> m == Message::KeyEvent(e),
        c matches InputCommand::Text(t) ==> m == Message::TextInput(t),
        c matches InputCommand::Motion(v) ==> m == Message::MouseMove(v),
        c matches InputCommand::Button(b) ==> m == Message::MouseButton(b),
        c matches InputCommand::Scroll(s) ==> m == Message::MouseScroll(s),
        c matches InputCommand::Clipboard(p) ==> m == Message::ClipboardSend(p),
        c matches InputCommand::Resize(r) ==> m == Message::SessionResize(r),
        c matches InputCommand::CursorInFrame(yes) ==> (m matches Message::CursorMode(k)
            && k.include_cursor_in_frame == yes),
{
}

/// A session that is asked for has the size, sound, quality, desktop and mode
/// that were chosen; one that is resumed is named. The codecs that were chosen
/// are offered, in their order, and all of them where none was.
pub proof fn sessions_are_asked_for_as_chosen(
    attach_to: Option<String>,
    params: &SessionParams,
    m: Message,
    mode: messages::SessionMode,
    codecs: Vec<VideoCodec>,
)
    requires
        call_ensures(opening_message, (attach_to, params), m),
        call_ensures(SessionParams::session_mode, (params,), mode),
        call_ensures(SessionParams::advertised_codecs, (params,), codecs),
    ensures
        attach_to matches Some(id) ==> (m matches Message::SessionAttach(a) && a.session_id == id
            && a.audio == params.audio && a.quality == params.quality && a.supported_codecs@
            == codecs@ && a.supported_audio_codecs@ == seq![AudioCodec::Opus]),
        attach_to is None ==> (m matches Message::SessionCreate(c) && c.width == params.width
            && c.height == params.height && c.audio == params.audio && c.quality == params.quality
            && c.desktop_shell == params.desktop_shell && c.mode@ == mode@ && c.supported_codecs@
            == codecs@ && c.supported_audio_codecs@ == seq![AudioCodec::Opus]),
{
}

/// What the server says of a session is what is told of it: its size, its id and
/// its codec, which is H.264 where none is named. A list tells every session.
pub proof fn answers_are_told_as_they_are(
    reply: Message,
    r: Result<SessionReadyInfo, TermlandError>,
    l: Result<Vec<SessionSummary>, TermlandError>,
)
    requires
        call_ensures(open_session, (reply,), r),
        call_ensures(list_sessions, (reply,), l),
    ensures
        r is Ok <==> reply is SessionReady,
        l is Ok <==> reply is SessionListResult,
        r matches Err(e) ==> e is Protocol,
        l matches Err(e) ==> e is Protocol,
        reply matches Message::SessionReady(s) ==> (r matches Ok(i) && i.width == s.width
            && i.height == s.height && i.session_id == s.session_id && (s.codec is None
            ==> i.codec is H264) && (s.codec matches Some(c) ==> (c is Av1 <==> i.codec is Av1) && (
        c is Vp9 <==> i.codec is Vp9) && (c is Vp8 <==> i.codec is Vp8) && (c is H265
            <==> i.codec is H265) && (c is H264 <==> i.codec is H264))),
        reply matches Message::SessionListResult(s) ==> (l matches Ok(v) && v@.len()
            == s.sessions@.len() && forall|k: int|
            0 <= k < v@.len() ==> tells_of(#[trigger] v@[k], s.sessions@[k])),
{
    if let Message::SessionListResult(s) = reply {
        if let Ok(v) = l {
            assert forall|k: int| 0 <= k < v@.len() implies tells_of(
                #[trigger] v@[k],
                s.sessions@[k],
            ) by {
                assert(v@[k] == summary(s.sessions@[k]));
            }
        }
    }
}

/// Whether a line of a list tells of a session what the server told of it.
pub open spec fn tells_of(line: SessionSummary, s: SessionInfo) -> bool {
    &&& line.session_id == s.session_id
    &&& line.mode == s.mode
    &&& line.width == s.width && line.height == s.height
    &&& line.age_secs == s.age_secs
    &&& line.attached == s.attached
}

/// Every picture, sound, clipboard and end that comes is handed on as it came,
/// and a ping is answered with its own time. A picture that says no size has the
/// session's, and one that says no codec the session's.
pub proof fn nothing_that_comes_is_lost()
    ensures
        forall|ready: &SessionReadyInfo, m: Message, bytes: &mut u64, a: LoopAction| #[trigger]
            call_ensures(run_session, (ready, LoopEvent::Incoming(Some(Ok(m))), bytes), a) ==> {
                &&& m matches Message::VideoFrame(f) ==> f.data@.len() == 0 ==> a is Idle
                &&& m matches Message::VideoFrame(f) ==> f.data@.len() > 0 ==> {
                    &&& a matches LoopAction::Video(p)
                    &&& p.data == f.data && p.timestamp_us == f.timestamp_us
                    &&& p.keyframe <==> f.frame_type is Keyframe
                    &&& f.width > 0 ==> p.width == f.width
                    &&& f.width == 0 ==> p.width == ready.width
                    &&& f.height > 0 ==> p.height == f.height
                    &&& f.height == 0 ==> p.height == ready.height
                    &&& f.codec is None ==> p.codec == ready.codec
                    &&& f.codec == Some(VideoCodec::Av1) ==> p.codec is Av1
                    &&& f.codec == Some(VideoCodec::Vp9) ==> p.codec is Vp9
                    &&& f.codec == Some(VideoCodec::Vp8) ==> p.codec is Vp8
                    &&& f.codec == Some(VideoCodec::H265) ==> p.codec is H265
                    &&& f.codec == Some(VideoCodec::H264) ==> p.codec is H264
                }
                &&& m matches Message::AudioChunk(c) ==> a == LoopAction::Audio(c.data)
                &&& m matches Message::ClipboardData(p) ==> a == (LoopAction::Clipboard {
                    mime_type: p.mime_type,
                    data: p.data,
                })
                &&& m matches Message::SessionEnd(e) ==> a == (LoopAction::End { reason: e.reason })
                &&& m matches Message::Ping(p) ==> (a matches LoopAction::Reply(Message::Pong(q))
                    && q.timestamp_us == p.timestamp_us)
                &&& a is End ==> m is SessionEnd
                &&& !(a is Fail) && !(a is Send)
            },
        forall|ready: &SessionReadyInfo, p: VideoPacket, bytes: &mut u64, a: LoopAction| #[trigger]
            call_ensures(run_session, (ready, LoopEvent::Video(p), bytes), a) ==> a
                == LoopAction::Video(p),
        forall|ready: &SessionReadyInfo, d: Vec<u8>, bytes: &mut u64, a: LoopAction| #[trigger]
            call_ensures(run_session, (ready, LoopEvent::Audio(d), bytes), a) ==> a
                == LoopAction::Audio(d),
        forall|ready: &SessionReadyInfo, c: InputCommand, bytes: &mut u64, a: LoopAction, m: Message|
            #![trigger call_ensures(run_session, (ready, LoopEvent::Input(Some(c)), bytes), a),
                call_ensures(InputCommand::into_message, (c,), m)]
            call_ensures(run_session, (ready, LoopEvent::Input(Some(c)), bytes), a) && call_ensures(
                InputCommand::into_message,
                (c,),
                m,
            ) ==> a == LoopAction::Send(m),
        forall|ready: &SessionReadyInfo, bytes: &mut u64, a: LoopAction| #[trigger]
            call_ensures(run_session, (ready, LoopEvent::Input(None), bytes), a) ==> a is End,
        forall|ready: &SessionReadyInfo, bytes: &mut u64, a: LoopAction| #[trigger]
            call_ensures(run_session, (ready, LoopEvent::Incoming(None), bytes), a) ==> a is End,
        forall|ready: &SessionReadyInfo, e: CodecError, bytes: &mut u64, a: LoopAction| #[trigger]
            call_ensures(run_session, (ready, LoopEvent::Incoming(Some(Err(e))), bytes), a)
                ==> a is Fail,
        forall|ready: &SessionReadyInfo, e: String, bytes: &mut u64, a: LoopAction| #[trigger]
            call_ensures(run_session, (ready, LoopEvent::SendFailed(e), bytes), a) ==> (
            a matches LoopAction::Fail { error, .. } && error@.len() >= e@.len() && error@.skip(
                error@.len() - e@.len(),
            ) == e@),
{
    assert forall|ready: &SessionReadyInfo, e: String, bytes: &mut u64, a: LoopAction| #[trigger]
        call_ensures(run_session, (ready, LoopEvent::SendFailed(e), bytes), a) implies (
    a matches LoopAction::Fail { error, .. } && error@.len() >= e@.len() && error@.skip(
        error@.len() - e@.len(),
    ) == e@) by {
        if let LoopAction::Fail { error, .. } = a {
            assert(error@.skip(error@.len() - e@.len()) =~= e@);
        }
    }
}

/// The bytes that came are counted: those of a picture, a sound or a clipboard
/// are added, whichever way it came, and nothing else is.
pub proof fn received_bytes_add_up()
    ensures
        forall|ready: &SessionReadyInfo, event: LoopEvent, bytes: &mut u64, a: LoopAction| #[trigger]
            call_ensures(run_session, (ready, event, bytes), a) ==> {
                &&& *final(bytes) >= *bytes
                &&& event matches LoopEvent::Video(p) ==> *bytes + p.data@.len() <= u64::MAX
                    ==> *final(bytes) == *bytes + p.data@.len()
                &&& event matches LoopEvent::Audio(d) ==> *bytes + d@.len() <= u64::MAX ==> *final(bytes) == *bytes + d@.len()
                &&& a matches LoopAction::Video(p) ==> *bytes + p.data@.len() <= u64::MAX
                    ==> *final(bytes) == *bytes + p.data@.len()
                &&& a matches LoopAction::Audio(d) ==> *bytes + d@.len() <= u64::MAX ==> *final(bytes) == *bytes + d@.len()
                &&& a matches LoopAction::Clipboard { data, .. } ==> *bytes + data@.len() <= u64::MAX
                    ==> *final(bytes) == *bytes + data@.len()
                &&& !(a is Video) && !(a is Audio) && !(a is Clipboard) ==> *final(bytes) == *bytes
            },
{
}

/// The handshake goes one way: the server's greeting, its question where it has
/// one, the login and its result. The login that is sent is the profile's, and
/// one without a name is refused before it is sent.
pub proof fn logins_are_the_profiles(
    state: HandshakeState,
    reply: &Message,
    profile: &ServerProfile,
    step: HandshakeStep,
)
    requires
        call_ensures(handshake_step, (state, reply, profile), step),
    ensures
        step matches HandshakeStep::Send(m, next) ==> {
            &&& state is AwaitAuthRequest && *reply is AuthRequest && next is AwaitAuthResult
            &&& m matches Message::AuthResponse(a)
            &&& profile.username matches Some(u) && a.username@ == text::trimmed(u@)
                && a.username@.len() > 0
            &&& profile.password matches Some(p) ==> a.credential@ == p@
            &&& profile.password is None ==> a.credential@.len() == 0
        },
        state is AwaitAuthRequest && *reply is AuthRequest && (profile.username matches Some(u)
            && text::trimmed(u@).len() > 0) ==> step is Send,
        step is Done ==> (reply matches Message::HelloAck(a) && state is AwaitHelloAck
            && !a.auth_required) || (reply matches Message::AuthResult(a) && state is AwaitAuthResult
            && a.success),
        state is AwaitHelloAck ==> (reply matches Message::HelloAck(a) ==> (!a.auth_required
            ==> step is Done) && (a.auth_required ==> step == HandshakeStep::Wait(
            HandshakeState::AwaitAuthRequest,
        ))),
        state is AwaitAuthResult ==> (reply matches Message::AuthResult(a) ==> (a.success
            ==> step is Done) && (!a.success ==> (step matches HandshakeStep::Fail(
            TermlandError::Auth { msg },
        ) && msg == a.message))),
        state is AwaitHelloAck && !(*reply is HelloAck) ==> (step matches HandshakeStep::Fail(e)
            && e is Protocol),
        state is AwaitAuthRequest && !(*reply is AuthRequest) ==> (step matches HandshakeStep::Fail(
            e,
        ) && e is Protocol),
        state is AwaitAuthResult && !(*reply is AuthResult) ==> (step matches HandshakeStep::Fail(e)
            && e is Protocol),
{
    reveal_strlit("");
    text::only_white_space_is_trimmed(""@);
    if profile.username is None {
        let t = text::trimmed(""@);
        let (x, y) = choose|x: int, y: int|
            0 <= x <= y <= ""@.len() && #[trigger] ""@.subrange(x, y) == t;
        assert(t.len() == 0);
    }
}

/// The greeting tells the protocol's version, a list is asked for as one, and
/// the session that is closed is the one named. What comes is taken as it is; an
/// end is a failure of the connection.
pub proof fn requests_say_what_is_asked(
    h: Message,
    l: Message,
    id: String,
    c: Message,
    incoming: Option<Result<Message, CodecError>>,
    r: Result<Message, TermlandError>,
    expected: &str,
    got: &Message,
    e: TermlandError,
)
    requires
        call_ensures(hello, (), h),
        call_ensures(list_request, (), l),
        call_ensures(close_request, (id,), c),
        call_ensures(next_message, (incoming,), r),
        call_ensures(unexpected, (expected, got), e),
    ensures
        h matches Message::Hello(x) && x.protocol_version == PROTOCOL_VERSION,
        l is SessionList,
        c matches Message::SessionClose(x) && x.session_id == id,
        incoming matches Some(Ok(m)) ==> r == Ok::<Message, TermlandError>(m),
        r is Ok ==> (incoming matches Some(Ok(_))),
        incoming is None ==> (r matches Err(f) && f is Io),
        incoming matches Some(Err(CodecError::Io(io))) ==> (r matches Err(TermlandError::Io { msg })
            && msg == io),
        e is Protocol,
{
}

/// What is read of a picture's header is what was written into it, and its data
/// is read whole unless it is too long or of no known codec; so is a datagram of
/// sound.
pub proof fn pictures_are_read_as_sent(
    codec: VideoCodec,
    frame_type: FrameType,
    width: u16,
    height: u16,
    timestamp_us: u64,
    data_len: u32,
    header: &[u8; VIDEO_HEADER_LEN],
    data: Vec<u8>,
    f: Option<(VideoCodec, bool, u16, u16, u64, u32)>,
    next: VideoRead,
    p: Option<VideoPacket>,
    datagram: &[u8],
    sound: Option<Vec<u8>>,
    parts: Option<(u32, u8, &[u8])>,
)
    requires
        header@ == q2::video_header(codec, frame_type, width, height, timestamp_us, data_len),
        call_ensures(parse_video_header, (header,), f),
        call_ensures(quic_video_reader, (header,), next),
        call_ensures(video_packet, (header, data), p),
        call_ensures(quic_audio_reader, (datagram,), sound),
        call_ensures(parse_audio_datagram, (datagram,), parts),
    ensures
        p matches Some(x) && x.data == data && x.width == width && x.height == height
            && x.timestamp_us == timestamp_us && (x.keyframe <==> frame_type is Keyframe) && (
        x.codec is Av1 <==> codec is Av1) && (x.codec is Vp9 <==> codec is Vp9) && (x.codec is Vp8
            <==> codec is Vp8) && (x.codec is H265 <==> codec is H265) && (x.codec is H264
            <==> codec is H264),
        data_len <= 67108864 ==> next == (VideoRead::Read { len: data_len }),
        data_len > 67108864 ==> next == VideoRead::End,
        sound is Some <==> datagram@.len() >= 5,
        sound matches Some(s) ==> s@ == datagram@.skip(5),
        parts is Some <==> datagram@.len() >= 5,
        parts matches Some(x) ==> x.0 == datagram@[0] + 256 * datagram@[1] + 65536 * datagram@[2]
            + 16777216 * datagram@[3] && x.1 == datagram@[4] && x.2@ == datagram@.skip(5),
{
    video_packets_arrive_as_sent(
        codec,
        frame_type,
        width,
        height,
        timestamp_us,
        data_len,
        data,
        next,
        p,
    );
    if let Some(x) = parts {
        let q = datagram@.take(4);
        little_endian::four_bytes_have_their_weight(q);
        assert(q[0] == datagram@[0] && q[1] == datagram@[1] && q[2] == datagram@[2] && q[3]
            == datagram@[3]);
    }
}

/// A codec is told by the same number that it is sent under.
pub proof fn codec_numbers_read_back(c: VideoCodec, tag: u8, r: Option<VideoCodec>, other: u8, o: Option<
    VideoCodec,
>)
    requires
        call_ensures(q2::codec_tag, (c,), tag),
        call_ensures(decode_video_codec_tag, (tag,), r),
        call_ensures(decode_video_codec_tag, (other,), o),
    ensures
        r == Some(c),
        o is Some <==> other <= 4,
{
}

} // verus!
