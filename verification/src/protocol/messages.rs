//! The messages of the wire protocol and their ids.
use vstd::prelude::*;
use crate::protocol::input::{KeyEvent, MouseButton, MouseMove, MouseScroll};
use crate::text;

verus! {

/// Protocol version.
pub const PROTOCOL_VERSION: u32 = 1;

/// Magic bytes of a frame header: "TL".
pub const FRAME_MAGIC: [u8; 2] = [0x54, 0x4C];

/// Maximum payload size: 16 MiB.
pub const MAX_PAYLOAD_SIZE: u32 = 16 * 1024 * 1024;

/// Maximum total size of the files in one clipboard file paste. One paste is
/// one message, so this leaves room under `MAX_PAYLOAD_SIZE` for names and
/// encoding overhead.
pub const MAX_FILE_TRANSFER_BYTES: u64 = 12 * 1024 * 1024;

/// Message ids on the wire: below 0x20 the control plane, from 0x20 what the
/// server sends, from 0x40 what the client sends.
#[derive(Debug, Clone, Copy, PartialEq, Eq, Structural)]
pub enum MessageId {
    Hello,
    HelloAck,
    AuthRequest,
    AuthResponse,
    AuthResult,
    SessionCreate,
    SessionReady,
    SessionResize,
    SessionEnd,
    Ping,
    Pong,
    SessionList,
    SessionListResult,
    SessionAttach,
    SessionClose,
    VideoFrame,
    StillFrame,
    AudioChunk,
    CursorUpdate,
    ClipboardData,
    FileTransferData,
    KeyEvent,
    MouseMove,
    MouseButton,
    MouseScroll,
    ClipboardSend,
    QualityHint,
    CursorMode,
    TextInput,
    FileTransferSend,
}

impl MessageId {
    /// The byte that stands for this id.
    pub open spec fn code(self) -> u8 {
        match self {
            MessageId::Hello => 0x01,
            MessageId::HelloAck => 0x02,
            MessageId::AuthRequest => 0x03,
            MessageId::AuthResponse => 0x04,
            MessageId::AuthResult => 0x05,
            MessageId::SessionCreate => 0x06,
            MessageId::SessionReady => 0x07,
            MessageId::SessionResize => 0x08,
            MessageId::SessionEnd => 0x09,
            MessageId::Ping => 0x0A,
            MessageId::Pong => 0x0B,
            MessageId::SessionList => 0x0C,
            MessageId::SessionListResult => 0x0D,
            MessageId::SessionAttach => 0x0E,
            MessageId::SessionClose => 0x0F,
            MessageId::VideoFrame => 0x20,
            MessageId::StillFrame => 0x21,
            MessageId::AudioChunk => 0x22,
            MessageId::CursorUpdate => 0x23,
            MessageId::ClipboardData => 0x24,
            MessageId::FileTransferData => 0x25,
            MessageId::KeyEvent => 0x40,
            MessageId::MouseMove => 0x41,
            MessageId::MouseButton => 0x42,
            MessageId::MouseScroll => 0x43,
            MessageId::ClipboardSend => 0x44,
            MessageId::QualityHint => 0x45,
            MessageId::CursorMode => 0x46,
            MessageId::TextInput => 0x47,
            MessageId::FileTransferSend => 0x48,
        }
    }

    /// The byte that stands for this id.
    pub fn as_u8(self) -> (v: u8)
        ensures
            v == self.code(),
    {
        match self {
            MessageId::Hello => 0x01,
            MessageId::HelloAck => 0x02,
            MessageId::AuthRequest => 0x03,
            MessageId::AuthResponse => 0x04,
            MessageId::AuthResult => 0x05,
            MessageId::SessionCreate => 0x06,
            MessageId::SessionReady => 0x07,
            MessageId::SessionResize => 0x08,
            MessageId::SessionEnd => 0x09,
            MessageId::Ping => 0x0A,
            MessageId::Pong => 0x0B,
            MessageId::SessionList => 0x0C,
            MessageId::SessionListResult => 0x0D,
            MessageId::SessionAttach => 0x0E,
            MessageId::SessionClose => 0x0F,
            MessageId::VideoFrame => 0x20,
            MessageId::StillFrame => 0x21,
            MessageId::AudioChunk => 0x22,
            MessageId::CursorUpdate => 0x23,
            MessageId::ClipboardData => 0x24,
            MessageId::FileTransferData => 0x25,
            MessageId::KeyEvent => 0x40,
            MessageId::MouseMove => 0x41,
            MessageId::MouseButton => 0x42,
            MessageId::MouseScroll => 0x43,
            MessageId::ClipboardSend => 0x44,
            MessageId::QualityHint => 0x45,
            MessageId::CursorMode => 0x46,
            MessageId::TextInput => 0x47,
            MessageId::FileTransferSend => 0x48,
        }
    }

    /// The id's name.
    pub open spec fn label(self) -> Seq<char> {
        match self {
            MessageId::Hello => "Hello"@,
            MessageId::HelloAck => "HelloAck"@,
            MessageId::AuthRequest => "AuthRequest"@,
            MessageId::AuthResponse => "AuthResponse"@,
            MessageId::AuthResult => "AuthResult"@,
            MessageId::SessionCreate => "SessionCreate"@,
            MessageId::SessionReady => "SessionReady"@,
            MessageId::SessionResize => "SessionResize"@,
            MessageId::SessionEnd => "SessionEnd"@,
            MessageId::Ping => "Ping"@,
            MessageId::Pong => "Pong"@,
            MessageId::SessionList => "SessionList"@,
            MessageId::SessionListResult => "SessionListResult"@,
            MessageId::SessionAttach => "SessionAttach"@,
            MessageId::SessionClose => "SessionClose"@,
            MessageId::VideoFrame => "VideoFrame"@,
            MessageId::StillFrame => "StillFrame"@,
            MessageId::AudioChunk => "AudioChunk"@,
            MessageId::CursorUpdate => "CursorUpdate"@,
            MessageId::ClipboardData => "ClipboardData"@,
            MessageId::FileTransferData => "FileTransferData"@,
            MessageId::KeyEvent => "KeyEvent"@,
            MessageId::MouseMove => "MouseMove"@,
            MessageId::MouseButton => "MouseButton"@,
            MessageId::MouseScroll => "MouseScroll"@,
            MessageId::ClipboardSend => "ClipboardSend"@,
            MessageId::QualityHint => "QualityHint"@,
            MessageId::CursorMode => "CursorMode"@,
            MessageId::TextInput => "TextInput"@,
            MessageId::FileTransferSend => "FileTransferSend"@,
        }
    }

    /// The id's name, for error messages.
    pub fn name(self) -> (s: &'static str)
        ensures
            s@ == self.label(),
    {
        match self {
            MessageId::Hello => "Hello",
            MessageId::HelloAck => "HelloAck",
            MessageId::AuthRequest => "AuthRequest",
            MessageId::AuthResponse => "AuthResponse",
            MessageId::AuthResult => "AuthResult",
            MessageId::SessionCreate => "SessionCreate",
            MessageId::SessionReady => "SessionReady",
            MessageId::SessionResize => "SessionResize",
            MessageId::SessionEnd => "SessionEnd",
            MessageId::Ping => "Ping",
            MessageId::Pong => "Pong",
            MessageId::SessionList => "SessionList",
            MessageId::SessionListResult => "SessionListResult",
            MessageId::SessionAttach => "SessionAttach",
            MessageId::SessionClose => "SessionClose",
            MessageId::VideoFrame => "VideoFrame",
            MessageId::StillFrame => "StillFrame",
            MessageId::AudioChunk => "AudioChunk",
            MessageId::CursorUpdate => "CursorUpdate",
            MessageId::ClipboardData => "ClipboardData",
            MessageId::FileTransferData => "FileTransferData",
            MessageId::KeyEvent => "KeyEvent",
            MessageId::MouseMove => "MouseMove",
            MessageId::MouseButton => "MouseButton",
            MessageId::MouseScroll => "MouseScroll",
            MessageId::ClipboardSend => "ClipboardSend",
            MessageId::QualityHint => "QualityHint",
            MessageId::CursorMode => "CursorMode",
            MessageId::TextInput => "TextInput",
            MessageId::FileTransferSend => "FileTransferSend",
        }
    }

    /// The id that a byte stands for, if it stands for one.
    pub fn from_u8(v: u8) -> (id: Option<Self>)
        ensures
            id matches Some(i) ==> i.code() == v,
            id is None ==> forall|i: MessageId| i.code() != v,
    {
        match v {
            0x01 => Some(MessageId::Hello),
            0x02 => Some(MessageId::HelloAck),
            0x03 => Some(MessageId::AuthRequest),
            0x04 => Some(MessageId::AuthResponse),
            0x05 => Some(MessageId::AuthResult),
            0x06 => Some(MessageId::SessionCreate),
            0x07 => Some(MessageId::SessionReady),
            0x08 => Some(MessageId::SessionResize),
            0x09 => Some(MessageId::SessionEnd),
            0x0A => Some(MessageId::Ping),
            0x0B => Some(MessageId::Pong),
            0x0C => Some(MessageId::SessionList),
            0x0D => Some(MessageId::SessionListResult),
            0x0E => Some(MessageId::SessionAttach),
            0x0F => Some(MessageId::SessionClose),
            0x20 => Some(MessageId::VideoFrame),
            0x21 => Some(MessageId::StillFrame),
            0x22 => Some(MessageId::AudioChunk),
            0x23 => Some(MessageId::CursorUpdate),
            0x24 => Some(MessageId::ClipboardData),
            0x25 => Some(MessageId::FileTransferData),
            0x40 => Some(MessageId::KeyEvent),
            0x41 => Some(MessageId::MouseMove),
            0x42 => Some(MessageId::MouseButton),
            0x43 => Some(MessageId::MouseScroll),
            0x44 => Some(MessageId::ClipboardSend),
            0x45 => Some(MessageId::QualityHint),
            0x46 => Some(MessageId::CursorMode),
            0x47 => Some(MessageId::TextInput),
            0x48 => Some(MessageId::FileTransferSend),
            _ => None,
        }
    }
}

/// Different ids have different bytes, so a byte names at most one id.
pub proof fn message_ids_are_distinct(a: MessageId, b: MessageId)
    requires
        a.code() == b.code(),
    ensures
        a == b,
{
}

/// Top-level message envelope.
#[derive(Debug, Clone)]
pub enum Message {
    Hello(Hello),
    HelloAck(HelloAck),
    AuthRequest(AuthRequest),
    AuthResponse(AuthResponse),
    AuthResult(AuthResult),
    SessionCreate(SessionCreate),
    SessionReady(SessionReady),
    SessionResize(SessionResize),
    SessionEnd(SessionEnd),
    Ping(Ping),
    Pong(Pong),
    SessionList(SessionList),
    SessionListResult(SessionListResult),
    SessionAttach(SessionAttach),
    SessionClose(SessionClose),
    VideoFrame(VideoFrame),
    StillFrame(StillFrame),
    AudioChunk(AudioChunk),
    CursorUpdate(CursorUpdate),
    ClipboardData(ClipboardPayload),
    FileTransferData(FileTransferPayload),
    KeyEvent(KeyEvent),
    MouseMove(MouseMove),
    MouseButton(MouseButton),
    MouseScroll(MouseScroll),
    ClipboardSend(ClipboardPayload),
    QualityHint(QualityHintMsg),
    CursorMode(CursorModeMsg),
    TextInput(TextInput),
    FileTransferSend(FileTransferPayload),
}

impl Message {
    /// The id of this message.
    pub open spec fn id(self) -> MessageId {
        match self {
            Message::Hello(_) => MessageId::Hello,
            Message::HelloAck(_) => MessageId::HelloAck,
            Message::AuthRequest(_) => MessageId::AuthRequest,
            Message::AuthResponse(_) => MessageId::AuthResponse,
            Message::AuthResult(_) => MessageId::AuthResult,
            Message::SessionCreate(_) => MessageId::SessionCreate,
            Message::SessionReady(_) => MessageId::SessionReady,
            Message::SessionResize(_) => MessageId::SessionResize,
            Message::SessionEnd(_) => MessageId::SessionEnd,
            Message::Ping(_) => MessageId::Ping,
            Message::Pong(_) => MessageId::Pong,
            Message::SessionList(_) => MessageId::SessionList,
            Message::SessionListResult(_) => MessageId::SessionListResult,
            Message::SessionAttach(_) => MessageId::SessionAttach,
            Message::SessionClose(_) => MessageId::SessionClose,
            Message::VideoFrame(_) => MessageId::VideoFrame,
            Message::StillFrame(_) => MessageId::StillFrame,
            Message::AudioChunk(_) => MessageId::AudioChunk,
            Message::CursorUpdate(_) => MessageId::CursorUpdate,
            Message::ClipboardData(_) => MessageId::ClipboardData,
            Message::FileTransferData(_) => MessageId::FileTransferData,
            Message::KeyEvent(_) => MessageId::KeyEvent,
            Message::MouseMove(_) => MessageId::MouseMove,
            Message::MouseButton(_) => MessageId::MouseButton,
            Message::MouseScroll(_) => MessageId::MouseScroll,
            Message::ClipboardSend(_) => MessageId::ClipboardSend,
            Message::QualityHint(_) => MessageId::QualityHint,
            Message::CursorMode(_) => MessageId::CursorMode,
            Message::TextInput(_) => MessageId::TextInput,
            Message::FileTransferSend(_) => MessageId::FileTransferSend,
        }
    }

    /// The id under which this message travels.
    pub fn message_id(&self) -> (id: MessageId)
        ensures
            id == self.id(),
    {
        match self {
            Message::Hello(_) => MessageId::Hello,
            Message::HelloAck(_) => MessageId::HelloAck,
            Message::AuthRequest(_) => MessageId::AuthRequest,
            Message::AuthResponse(_) => MessageId::AuthResponse,
            Message::AuthResult(_) => MessageId::AuthResult,
            Message::SessionCreate(_) => MessageId::SessionCreate,
            Message::SessionReady(_) => MessageId::SessionReady,
            Message::SessionResize(_) => MessageId::SessionResize,
            Message::SessionEnd(_) => MessageId::SessionEnd,
            Message::Ping(_) => MessageId::Ping,
            Message::Pong(_) => MessageId::Pong,
            Message::SessionList(_) => MessageId::SessionList,
            Message::SessionListResult(_) => MessageId::SessionListResult,
            Message::SessionAttach(_) => MessageId::SessionAttach,
            Message::SessionClose(_) => MessageId::SessionClose,
            Message::VideoFrame(_) => MessageId::VideoFrame,
            Message::StillFrame(_) => MessageId::StillFrame,
            Message::AudioChunk(_) => MessageId::AudioChunk,
            Message::CursorUpdate(_) => MessageId::CursorUpdate,
            Message::ClipboardData(_) => MessageId::ClipboardData,
            Message::FileTransferData(_) => MessageId::FileTransferData,
            Message::KeyEvent(_) => MessageId::KeyEvent,
            Message::MouseMove(_) => MessageId::MouseMove,
            Message::MouseButton(_) => MessageId::MouseButton,
            Message::MouseScroll(_) => MessageId::MouseScroll,
            Message::ClipboardSend(_) => MessageId::ClipboardSend,
            Message::QualityHint(_) => MessageId::QualityHint,
            Message::CursorMode(_) => MessageId::CursorMode,
            Message::TextInput(_) => MessageId::TextInput,
            Message::FileTransferSend(_) => MessageId::FileTransferSend,
        }
    }
}

/// A message could not be serialized.
#[derive(Debug, Clone)]
pub struct EncodeError(pub String);

/// Bytes could not be read as a message.
#[derive(Debug, Clone)]
pub struct DecodeError(pub String);

impl EncodeError {
    /// What the error says.
    pub open spec fn text(self) -> Seq<char> {
        "encode error: "@ + self.0@
    }

    /// Describes the error.
    pub fn message(&self) -> (s: String)
        ensures
            s@ == self.text(),
    {
        let mut out = text::chars_of("encode error: ");
        text::push_str(&mut out, self.0.as_str());
        text::text_of(&out)
    }
}

impl DecodeError {
    /// What the error says.
    pub open spec fn text(self) -> Seq<char> {
        "decode error: "@ + self.0@
    }

    /// Describes the error.
    pub fn message(&self) -> (s: String)
        ensures
            s@ == self.text(),
    {
        let mut out = text::chars_of("decode error: ");
        text::push_str(&mut out, self.0.as_str());
        text::text_of(&out)
    }
}

#[derive(Debug, Clone)]
pub struct Hello {
    pub protocol_version: u32,
    pub client_name: String,
}

#[derive(Debug, Clone)]
pub struct HelloAck {
    pub protocol_version: u32,
    pub server_name: String,
    pub session_id: String,
    pub auth_required: bool,
}

#[derive(Debug, Clone)]
pub struct AuthRequest {
    pub methods: Vec<String>,
}

#[derive(Debug, Clone)]
pub struct AuthResponse {
    pub username: String,
    pub credential: String,
}

#[derive(Debug, Clone)]
pub struct AuthResult {
    pub success: bool,
    pub message: String,
}

/// What a session runs.
#[derive(Debug, Clone)]
pub enum SessionMode {
    Desktop,
    App { command: String, args: Vec<String> },
}

/// What a session runs, as texts.
pub ghost enum ModeView {
    Desktop,
    App(Seq<char>, Seq<Seq<char>>),
}

impl View for SessionMode {
    type V = ModeView;

    open spec fn view(&self) -> ModeView {
        match *self {
            SessionMode::Desktop => ModeView::Desktop,
            SessionMode::App { command, args } => ModeView::App(command@, text::texts(args@)),
        }
    }
}

#[derive(Debug, Clone)]
pub struct SessionCreate {
    pub mode: SessionMode,
    pub width: u32,
    pub height: u32,
    pub audio: bool,
    /// Video quality 1-100. Maps to encoder bitrate.
    pub quality: u8,
    /// Startup command of a desktop session; the server picks a terminal where
    /// there is none.
    pub desktop_shell: Option<String>,
    /// Overrides the encoder preset.
    pub encoder_preset: Option<String>,
    /// Overrides the constant rate factor of software encoders.
    pub encoder_crf: Option<u8>,
    /// Extra `key=value:...` parameters for SVT-AV1.
    pub encoder_extra_params: Option<String>,
    /// Codecs this client can decode, best first.
    pub supported_codecs: Vec<VideoCodec>,
    /// Audio codecs this client can decode, best first. A peer that does not
    /// send the field can decode Opus and nothing else.
    pub supported_audio_codecs: Vec<AudioCodec>,
}

/// The quality of a session that does not ask for one.
pub fn default_quality() -> (q: u8)
    ensures
        q == 75,
{
    75
}

#[derive(Debug, Clone)]
pub struct SessionReady {
    pub width: u32,
    pub height: u32,
    pub xkb_keymap: Option<String>,
    /// Codec the server encodes this session with.
    pub codec: Option<VideoCodec>,
    /// Audio codec the server encodes this session with.
    pub audio_codec: Option<AudioCodec>,
    /// Stable id of the session, for attaching to it again later. Empty for
    /// servers without persistence.
    pub session_id: String,
}

/// Asks for the list of resumable sessions.
#[derive(Debug, Clone)]
pub struct SessionList {}

/// The sessions that can be resumed.
#[derive(Debug, Clone)]
pub struct SessionListResult {
    pub sessions: Vec<SessionInfo>,
}

/// One persistent session in the resume list.
#[derive(Debug, Clone)]
pub struct SessionInfo {
    pub session_id: String,
    /// Readable description, such as "desktop" or "app: firefox".
    pub mode: String,
    pub width: u32,
    pub height: u32,
    /// Seconds since the session was created.
    pub age_secs: u64,
    /// Whether a client is attached and streaming.
    pub attached: bool,
}

/// Attaches to an existing session and resumes its stream.
#[derive(Debug, Clone)]
pub struct SessionAttach {
    pub session_id: String,
    pub audio: bool,
    pub quality: u8,
    pub encoder_preset: Option<String>,
    pub encoder_crf: Option<u8>,
    pub encoder_extra_params: Option<String>,
    pub supported_codecs: Vec<VideoCodec>,
    pub supported_audio_codecs: Vec<AudioCodec>,
}

/// Terminates a persistent session for good.
#[derive(Debug, Clone)]
pub struct SessionClose {
    pub session_id: String,
}

#[derive(Debug, Clone)]
pub struct SessionResize {
    pub width: u32,
    pub height: u32,
}

#[derive(Debug, Clone)]
pub struct SessionEnd {
    pub reason: String,
}

#[derive(Debug, Clone)]
pub struct Ping {
    pub timestamp_us: u64,
}

#[derive(Debug, Clone)]
pub struct Pong {
    pub timestamp_us: u64,
}

#[derive(Debug, Clone, Copy, PartialEq, Eq, Structural)]
pub enum FrameType {
    Keyframe,
    Inter,
}

/// Video codecs, in preference order: best compression and most open first.
#[derive(Debug, Clone, Copy, PartialEq, Eq, Structural)]
pub enum VideoCodec {
    Av1,
    Vp9,
    Vp8,
    H265,
    H264,
}

impl VideoCodec {
    /// All codecs in preference order.
    pub open spec fn preference() -> Seq<VideoCodec> {
        seq![
            VideoCodec::Av1,
            VideoCodec::Vp9,
            VideoCodec::Vp8,
            VideoCodec::H265,
            VideoCodec::H264,
        ]
    }

    /// All codecs in preference order: what a client advertises, and what one
    /// that does not say is taken to support.
    pub fn all_preferred() -> (v: Vec<VideoCodec>)
        ensures
            v@ == VideoCodec::preference(),
    {
        vec![
            VideoCodec::Av1,
            VideoCodec::Vp9,
            VideoCodec::Vp8,
            VideoCodec::H265,
            VideoCodec::H264,
        ]
    }

    /// The codec's name for people.
    pub open spec fn name(self) -> Seq<char> {
        match self {
            VideoCodec::Av1 => "AV1"@,
            VideoCodec::Vp9 => "VP9"@,
            VideoCodec::Vp8 => "VP8"@,
            VideoCodec::H265 => "H.265"@,
            VideoCodec::H264 => "H.264"@,
        }
    }

    /// The codec's name for people.
    pub fn display_name(self) -> (s: &'static str)
        ensures
            s@ == self.name(),
    {
        match self {
            VideoCodec::Av1 => "AV1",
            VideoCodec::Vp9 => "VP9",
            VideoCodec::Vp8 => "VP8",
            VideoCodec::H265 => "H.265",
            VideoCodec::H264 => "H.264",
        }
    }
}

/// Every codec is in the preference list.
pub proof fn every_codec_is_preferred(c: VideoCodec)
    ensures
        VideoCodec::preference().contains(c),
{
    let p = VideoCodec::preference();
    assert(p[0] == VideoCodec::Av1 && p[1] == VideoCodec::Vp9 && p[2] == VideoCodec::Vp8 && p[3]
        == VideoCodec::H265 && p[4] == VideoCodec::H264);
}

/// Audio codecs, in preference order.
#[derive(Debug, Clone, Copy, PartialEq, Eq, Structural)]
pub enum AudioCodec {
    Opus,
}

impl AudioCodec {
    /// All audio codecs in preference order: what a current client advertises.
    pub fn all_preferred() -> (v: Vec<AudioCodec>)
        ensures
            v@ == seq![AudioCodec::Opus],
    {
        vec![AudioCodec::Opus]
    }

    /// What a peer that never heard of audio negotiation can decode. This is
    /// Opus alone and stays so when codecs are added.
    pub fn before_negotiation() -> (v: Vec<AudioCodec>)
        ensures
            v@ == seq![AudioCodec::Opus],
    {
        vec![AudioCodec::Opus]
    }
}

#[derive(Debug, Clone)]
pub struct VideoFrame {
    pub timestamp_us: u64,
    pub frame_type: FrameType,
    pub width: u16,
    pub height: u16,
    /// Codec of this frame; where it is missing, the negotiated one.
    pub codec: Option<VideoCodec>,
    pub data: Vec<u8>,
}

#[derive(Debug, Clone)]
pub struct StillFrame {
    pub timestamp_us: u64,
    pub x: u32,
    pub y: u32,
    pub width: u32,
    pub height: u32,
    pub lossless: bool,
    pub data: Vec<u8>,
}

#[derive(Debug, Clone)]
pub struct AudioChunk {
    pub timestamp_us: u64,
    pub sample_rate: u32,
    pub channels: u8,
    pub data: Vec<u8>,
}

#[derive(Debug, Clone)]
pub struct CursorUpdate {
    pub x: i32,
    pub y: i32,
    pub hotspot_x: i32,
    pub hotspot_y: i32,
    pub width: u32,
    pub height: u32,
    pub visible: bool,
    pub image_rgba: Vec<u8>,
}

#[derive(Debug, Clone)]
pub struct ClipboardPayload {
    pub mime_type: String,
    pub data: Vec<u8>,
}

/// One file of a clipboard file paste.
#[derive(Debug, Clone)]
pub struct FileEntry {
    /// Basename only. It arrives from the other end of the connection and has
    /// to pass `clipboard_files::sanitize_filename` before it is written.
    pub name: String,
    pub data: Vec<u8>,
}

/// The files that a copy put on one side's clipboard, sent whole. A list over
/// `MAX_FILE_TRANSFER_BYTES` is not sent at all.
#[derive(Debug, Clone)]
pub struct FileTransferPayload {
    pub files: Vec<FileEntry>,
}

#[derive(Debug, Clone)]
pub struct QualityHintMsg {
    pub max_fps: u8,
    pub max_bitrate_kbps: u32,
    pub prefer_lossless: bool,
}

/// One window of a session.
#[derive(Debug, Clone)]
pub struct WindowInfo {
    /// Names the window for as long as the session lasts; never reused.
    pub id: u32,
    pub title: String,
    pub app_id: String,
    pub minimized: bool,
    pub maximized: bool,
    pub fullscreen: bool,
    pub activated: bool,
}

/// Composed Unicode text, as a soft keyboard or an input method finished it.
/// Editing and shortcut keys are not text and travel as key events.
#[derive(Debug, Clone)]
pub struct TextInput {
    pub text: String,
}

/// Whether the server draws the cursor into the video, or the client draws its
/// own for lower latency.
#[derive(Debug, Clone)]
pub struct CursorModeMsg {
    pub include_cursor_in_frame: bool,
}

/// A message goes under the id of its kind, and two kinds never share one.
pub proof fn messages_go_under_their_id(m: &Message, id: MessageId)
    requires
        call_ensures(Message::message_id, (m,), id),
    ensures
        *m is Hello <==> id == MessageId::Hello,
        *m is HelloAck <==> id == MessageId::HelloAck,
        *m is AuthRequest <==> id == MessageId::AuthRequest,
        *m is AuthResponse <==> id == MessageId::AuthResponse,
        *m is AuthResult <==> id == MessageId::AuthResult,
        *m is SessionCreate <==> id == MessageId::SessionCreate,
        *m is SessionReady <==> id == MessageId::SessionReady,
        *m is SessionResize <==> id == MessageId::SessionResize,
        *m is SessionEnd <==> id == MessageId::SessionEnd,
        *m is Ping <==> id == MessageId::Ping,
        *m is Pong <==> id == MessageId::Pong,
        *m is SessionList <==> id == MessageId::SessionList,
        *m is SessionListResult <==> id == MessageId::SessionListResult,
        *m is SessionAttach <==> id == MessageId::SessionAttach,
        *m is SessionClose <==> id == MessageId::SessionClose,
        *m is VideoFrame <==> id == MessageId::VideoFrame,
        *m is StillFrame <==> id == MessageId::StillFrame,
        *m is AudioChunk <==> id == MessageId::AudioChunk,
        *m is CursorUpdate <==> id == MessageId::CursorUpdate,
        *m is ClipboardData <==> id == MessageId::ClipboardData,
        *m is FileTransferData <==> id == MessageId::FileTransferData,
        *m is KeyEvent <==> id == MessageId::KeyEvent,
        *m is MouseMove <==> id == MessageId::MouseMove,
        *m is MouseButton <==> id == MessageId::MouseButton,
        *m is MouseScroll <==> id == MessageId::MouseScroll,
        *m is ClipboardSend <==> id == MessageId::ClipboardSend,
        *m is QualityHint <==> id == MessageId::QualityHint,
        *m is CursorMode <==> id == MessageId::CursorMode,
        *m is TextInput <==> id == MessageId::TextInput,
        *m is FileTransferSend <==> id == MessageId::FileTransferSend,
{
}

/// A byte that stands for an id reads back as that id, and every other byte as
/// none. What controls a session, what the server sends and what the client
/// sends stand apart, each numbered without a gap.
pub proof fn ids_read_back(id: MessageId, v: u8, w: u8, r: Option<MessageId>)
    requires
        call_ensures(MessageId::as_u8, (id,), v),
        call_ensures(MessageId::from_u8, (w,), r),
    ensures
        w == v ==> r == Some(id),
        r is Some <==> 0x01 <= w <= 0x0F || 0x20 <= w <= 0x25 || 0x40 <= w <= 0x48,
        id == MessageId::Hello ==> v == 0x01,
        id == MessageId::SessionClose ==> v == 0x0F,
        id == MessageId::VideoFrame ==> v == 0x20,
        id == MessageId::KeyEvent ==> v == 0x40,
        0x20 <= v <= 0x25 <==> id == MessageId::VideoFrame || id == MessageId::StillFrame || id
            == MessageId::AudioChunk || id == MessageId::CursorUpdate || id
            == MessageId::ClipboardData || id == MessageId::FileTransferData,
        0x40 <= v <==> id == MessageId::KeyEvent || id == MessageId::MouseMove || id
            == MessageId::MouseButton || id == MessageId::MouseScroll || id
            == MessageId::ClipboardSend || id == MessageId::QualityHint || id
            == MessageId::CursorMode || id == MessageId::TextInput || id
            == MessageId::FileTransferSend,
{
    if r is None {
        assert(MessageId::Hello.code() == 0x01);
        assert(MessageId::HelloAck.code() == 0x02);
        assert(MessageId::AuthRequest.code() == 0x03);
        assert(MessageId::AuthResponse.code() == 0x04);
        assert(MessageId::AuthResult.code() == 0x05);
        assert(MessageId::SessionCreate.code() == 0x06);
        assert(MessageId::SessionReady.code() == 0x07);
        assert(MessageId::SessionResize.code() == 0x08);
        assert(MessageId::SessionEnd.code() == 0x09);
        assert(MessageId::Ping.code() == 0x0A);
        assert(MessageId::Pong.code() == 0x0B);
        assert(MessageId::SessionList.code() == 0x0C);
        assert(MessageId::SessionListResult.code() == 0x0D);
        assert(MessageId::SessionAttach.code() == 0x0E);
        assert(MessageId::SessionClose.code() == 0x0F);
        assert(MessageId::VideoFrame.code() == 0x20);
        assert(MessageId::StillFrame.code() == 0x21);
        assert(MessageId::AudioChunk.code() == 0x22);
        assert(MessageId::CursorUpdate.code() == 0x23);
        assert(MessageId::ClipboardData.code() == 0x24);
        assert(MessageId::FileTransferData.code() == 0x25);
        assert(MessageId::KeyEvent.code() == 0x40);
        assert(MessageId::MouseMove.code() == 0x41);
        assert(MessageId::MouseButton.code() == 0x42);
        assert(MessageId::MouseScroll.code() == 0x43);
        assert(MessageId::ClipboardSend.code() == 0x44);
        assert(MessageId::QualityHint.code() == 0x45);
        assert(MessageId::CursorMode.code() == 0x46);
        assert(MessageId::TextInput.code() == 0x47);
        assert(MessageId::FileTransferSend.code() == 0x48);
    }
    if let Some(x) = r {
        if w == v {
            message_ids_are_distinct(x, id);
        }
    }
}

/// The codecs are preferred from the most efficient open one to the most
/// widespread, each once. Sound is Opus, also for peers that never negotiated.
pub proof fn open_codecs_are_preferred(v: Vec<VideoCodec>, a: Vec<AudioCodec>, b: Vec<AudioCodec>)
    requires
        call_ensures(VideoCodec::all_preferred, (), v),
        call_ensures(AudioCodec::all_preferred, (), a),
        call_ensures(AudioCodec::before_negotiation, (), b),
    ensures
        v@.len() == 5,
        v@[0] == VideoCodec::Av1,
        v@[1] == VideoCodec::Vp9,
        v@[2] == VideoCodec::Vp8,
        v@[3] == VideoCodec::H265,
        v@[4] == VideoCodec::H264,
        a@.len() == 1 && a@[0] == AudioCodec::Opus,
        b@.len() == 1 && b@[0] == AudioCodec::Opus,
{
}

/// A message id is called what it is, and so is a codec; a quality that is not
/// chosen is three quarters of the best. An error says why at its end.
pub proof fn things_are_called_what_they_are(
    id: MessageId,
    s: &'static str,
    c: VideoCodec,
    n: &'static str,
    q: u8,
    e: &EncodeError,
    es: String,
    d: &DecodeError,
    ds: String,
)
    requires
        call_ensures(MessageId::name, (id,), s),
        call_ensures(VideoCodec::display_name, (c,), n),
        call_ensures(default_quality, (), q),
        call_ensures(EncodeError::message, (e,), es),
        call_ensures(DecodeError::message, (d,), ds),
    ensures
        id is Hello ==> s@ == "Hello"@,
        id is HelloAck ==> s@ == "HelloAck"@,
        id is AuthRequest ==> s@ == "AuthRequest"@,
        id is AuthResponse ==> s@ == "AuthResponse"@,
        id is AuthResult ==> s@ == "AuthResult"@,
        id is SessionCreate ==> s@ == "SessionCreate"@,
        id is SessionReady ==> s@ == "SessionReady"@,
        id is SessionResize ==> s@ == "SessionResize"@,
        id is SessionEnd ==> s@ == "SessionEnd"@,
        id is Ping ==> s@ == "Ping"@,
        id is Pong ==> s@ == "Pong"@,
        id is SessionList ==> s@ == "SessionList"@,
        id is SessionListResult ==> s@ == "SessionListResult"@,
        id is SessionAttach ==> s@ == "SessionAttach"@,
        id is SessionClose ==> s@ == "SessionClose"@,
        id is VideoFrame ==> s@ == "VideoFrame"@,
        id is StillFrame ==> s@ == "StillFrame"@,
        id is AudioChunk ==> s@ == "AudioChunk"@,
        id is CursorUpdate ==> s@ == "CursorUpdate"@,
        id is ClipboardData ==> s@ == "ClipboardData"@,
        id is FileTransferData ==> s@ == "FileTransferData"@,
        id is KeyEvent ==> s@ == "KeyEvent"@,
        id is MouseMove ==> s@ == "MouseMove"@,
        id is MouseButton ==> s@ == "MouseButton"@,
        id is MouseScroll ==> s@ == "MouseScroll"@,
        id is ClipboardSend ==> s@ == "ClipboardSend"@,
        id is QualityHint ==> s@ == "QualityHint"@,
        id is CursorMode ==> s@ == "CursorMode"@,
        id is TextInput ==> s@ == "TextInput"@,
        id is FileTransferSend ==> s@ == "FileTransferSend"@,
        c is Av1 ==> n@ == "AV1"@,
        c is Vp9 ==> n@ == "VP9"@,
        c is Vp8 ==> n@ == "VP8"@,
        c is H265 ==> n@ == "H.265"@,
        c is H264 ==> n@ == "H.264"@,
        q == 75,
        text::has_suffix(es@, e.0@),
        text::has_suffix(ds@, d.0@),
        es@.len() > 0 && ds@.len() > 0 && es@[0] != ds@[0],
{
    reveal_strlit("encode error: ");
    reveal_strlit("decode error: ");
    assert(es@.skip(es@.len() - e.0@.len()) =~= e.0@);
    assert(ds@.skip(ds@.len() - d.0@.len()) =~= d.0@);
}

} // verus!
