//! The command line: what its options ask for.
use vstd::prelude::*;
use crate::client::connection::{ConnectParams, ControlOp};
use crate::client::manager;
use crate::client::manager::session_mode_for;
use crate::client::profile::copy_optional;
use crate::protocol::messages::{SessionMode, VideoCodec};
use crate::text;

verus! {

/// A codec that can be asked for.
#[derive(Debug, Clone, Copy, PartialEq, Eq, Structural)]
pub enum CodecArg {
    Av1,
    Vp9,
    Vp8,
    H265,
    H264,
}

impl CodecArg {
    /// The codec as the protocol names it.
    pub open spec fn wire(self) -> VideoCodec {
        match self {
            CodecArg::Av1 => VideoCodec::Av1,
            CodecArg::Vp9 => VideoCodec::Vp9,
            CodecArg::Vp8 => VideoCodec::Vp8,
            CodecArg::H265 => VideoCodec::H265,
            CodecArg::H264 => VideoCodec::H264,
        }
    }

    /// The codec as the protocol names it.
    pub fn to_wire(self) -> (c: VideoCodec)
        ensures
            c == self.wire(),
    {
        match self {
            CodecArg::Av1 => VideoCodec::Av1,
            CodecArg::Vp9 => VideoCodec::Vp9,
            CodecArg::Vp8 => VideoCodec::Vp8,
            CodecArg::H265 => VideoCodec::H265,
            CodecArg::H264 => VideoCodec::H264,
        }
    }
}

/// What the command line said.
#[derive(Debug, Clone)]
pub struct Args {
    /// host:port, or user@host for SSH.
    pub server: Option<String>,
    pub ssh: bool,
    pub ssh_opt: Vec<String>,
    pub width: u32,
    pub height: u32,
    /// "desktop" or "app:<command>".
    pub mode: String,
    pub quality: u8,
    pub codec: Option<CodecArg>,
    pub attach: Option<String>,
    pub list_sessions: bool,
    pub close: Option<String>,
    pub tray: bool,
    pub desktop_shell: Option<String>,
    pub preset: Option<String>,
    pub crf: Option<u8>,
    pub svt_params: Option<String>,
    pub audio: bool,
    pub tls: bool,
    pub accept_invalid_certs: bool,
    pub user: Option<String>,
    pub password: Option<String>,
    pub no_reconnect: bool,
}

/// What the program is started for.
#[derive(Debug, Clone)]
pub enum Task {
    /// Neither a window nor a session can be had without a server.
    NoServer,
    /// Run the tray of the host.
    Tray(String),
    /// List the host's sessions, or close one.
    Control(String, ControlOp),
    /// Open a session in a window.
    Session,
}

impl Args {
    /// Whether the mode names a command where it must: "app:" with nothing but
    /// white space behind it does not.
    pub open spec fn mode_is_complete(self) -> bool {
        text::has_prefix(self.mode@, "app:"@) ==> text::words(self.mode@.skip(4)).len() > 0
    }

    /// What the session runs.
    pub fn session_mode(&self) -> (m: SessionMode)
        requires
            self.mode_is_complete(),
        ensures
            m@ == manager::mode_of(self.mode@),
    {
        session_mode_for(self.mode.as_str())
    }

    /// What the program is started for. The tray comes before closing, and
    /// closing before listing.
    pub fn task(&self) -> (t: Task)
        ensures
            if self.list_sessions || self.close is Some || self.tray {
                match self.server {
                    None => t is NoServer,
                    Some(s) => if self.tray {
                        t == Task::Tray(s)
                    } else {
                        t == Task::Control(
                            s,
                            match self.close {
                                Some(id) => ControlOp::Close(id),
                                None => ControlOp::List,
                            },
                        )
                    },
                }
            } else {
                t is Session
            },
    {
        if self.list_sessions || self.close.is_some() || self.tray {
            match &self.server {
                None => Task::NoServer,
                Some(s) => {
                    if self.tray {
                        Task::Tray(s.clone())
                    } else {
                        let op = match &self.close {
                            Some(id) => ControlOp::Close(id.clone()),
                            None => ControlOp::List,
                        };
                        Task::Control(s.clone(), op)
                    }
                },
            }
        } else {
            Task::Session
        }
    }

    /// The parameters for asking about sessions. Nothing is streamed, so what
    /// only a stream needs is left out.
    pub fn control_params(&self) -> (p: ConnectParams)
        requires
            self.mode_is_complete(),
        ensures
            p.mode@ == manager::mode_of(self.mode@),
            p.width == self.width,
            p.height == self.height,
            p.quality == self.quality,
            !p.audio,
            text::texts(p.ssh_opts@) == text::texts(self.ssh_opt@),
            p.tls == (self.tls || self.accept_invalid_certs),
            p.accept_invalid_certs == self.accept_invalid_certs,
            p.username == self.user,
            p.password == self.password,
            p.desktop_shell is None,
            p.encoder_preset is None,
            p.encoder_crf is None,
            p.encoder_extra_params is None,
            p.codec is None,
            p.attach is None,
            p.reconnect == !self.no_reconnect,
    {
        ConnectParams {
            mode: self.session_mode(),
            width: self.width,
            height: self.height,
            quality: self.quality,
            audio: false,
            ssh_opts: text::copy_texts(&self.ssh_opt),
            tls: self.tls || self.accept_invalid_certs,
            accept_invalid_certs: self.accept_invalid_certs,
            username: copy_optional(&self.user),
            password: copy_optional(&self.password),
            desktop_shell: None,
            encoder_preset: None,
            encoder_crf: None,
            encoder_extra_params: None,
            codec: None,
            attach: None,
            reconnect: !self.no_reconnect,
        }
    }

    /// The parameters of a session in a window of a size.
    pub fn session_params(&self, width: u32, height: u32) -> (p: ConnectParams)
        requires
            self.mode_is_complete(),
        ensures
            p.mode@ == manager::mode_of(self.mode@),
            p.width == width,
            p.height == height,
            p.quality == self.quality,
            p.audio == self.audio,
            text::texts(p.ssh_opts@) == text::texts(self.ssh_opt@),
            p.tls == (self.tls || self.accept_invalid_certs),
            p.accept_invalid_certs == self.accept_invalid_certs,
            p.username == self.user,
            p.password == self.password,
            p.desktop_shell == self.desktop_shell,
            p.encoder_preset == self.preset,
            p.encoder_crf == self.crf,
            p.encoder_extra_params == self.svt_params,
            p.codec == (match self.codec {
                Some(c) => Some(c.wire()),
                None => None,
            }),
            p.attach == self.attach,
            p.reconnect == !self.no_reconnect,
    {
        let codec = match self.codec {
            Some(c) => Some(c.to_wire()),
            None => None,
        };
        ConnectParams {
            mode: self.session_mode(),
            width,
            height,
            quality: self.quality,
            audio: self.audio,
            ssh_opts: text::copy_texts(&self.ssh_opt),
            tls: self.tls || self.accept_invalid_certs,
            accept_invalid_certs: self.accept_invalid_certs,
            username: copy_optional(&self.user),
            password: copy_optional(&self.password),
            desktop_shell: copy_optional(&self.desktop_shell),
            encoder_preset: copy_optional(&self.preset),
            encoder_crf: self.crf,
            encoder_extra_params: copy_optional(&self.svt_params),
            codec,
            attach: copy_optional(&self.attach),
            reconnect: !self.no_reconnect,
        }
    }
}

/// What was given on the command line is what the session is asked for with; a
/// size may be another, for a window that was sized since.
pub proof fn arguments_reach_the_session(
    args: &Args,
    width: u32,
    height: u32,
    p: ConnectParams,
    c: ConnectParams,
)
    requires
        args.mode_is_complete(),
        call_ensures(Args::session_params, (args, width, height), p),
        call_ensures(Args::control_params, (args,), c),
    ensures
        p.width == width && p.height == height,
        c.width == args.width && c.height == args.height,
        p.quality == args.quality && c.quality == args.quality,
        p.audio == args.audio,
        !c.audio,
        text::texts(p.ssh_opts@) == text::texts(args.ssh_opt@),
        text::texts(c.ssh_opts@) == text::texts(args.ssh_opt@),
        args.tls ==> p.tls && c.tls,
        args.accept_invalid_certs ==> p.tls && c.tls,
        p.tls ==> args.tls || args.accept_invalid_certs,
        c.tls ==> args.tls || args.accept_invalid_certs,
        p.accept_invalid_certs == args.accept_invalid_certs,
        c.accept_invalid_certs == args.accept_invalid_certs,
        p.username == args.user && c.username == args.user,
        p.password == args.password && c.password == args.password,
        p.desktop_shell == args.desktop_shell,
        p.encoder_preset == args.preset,
        p.encoder_crf == args.crf,
        p.encoder_extra_params == args.svt_params,
        p.attach == args.attach,
        c.attach is None,
        p.reconnect != args.no_reconnect && c.reconnect != args.no_reconnect,
        p.codec is None <==> args.codec is None,
        args.codec == Some(CodecArg::Av1) <==> p.codec == Some(VideoCodec::Av1),
        args.codec == Some(CodecArg::Vp9) <==> p.codec == Some(VideoCodec::Vp9),
        args.codec == Some(CodecArg::Vp8) <==> p.codec == Some(VideoCodec::Vp8),
        args.codec == Some(CodecArg::H265) <==> p.codec == Some(VideoCodec::H265),
        args.codec == Some(CodecArg::H264) <==> p.codec == Some(VideoCodec::H264),
        p.mode@ == c.mode@,
{
}

/// An application with its arguments is run where one was named, and a desktop
/// else.
pub proof fn modes_are_as_given(args: &Args, m: SessionMode)
    requires
        args.mode_is_complete(),
        call_ensures(Args::session_mode, (args,), m),
    ensures
        m matches SessionMode::App { command, args: rest } ==> text::has_prefix(
            args.mode@,
            "app:"@,
        ) && text::words(args.mode@.skip(4)) == seq![command@] + text::texts(rest@),
        text::has_prefix(args.mode@, "app:"@) ==> m is App,
        m is App || m is Desktop,
{
    reveal_strlit("app:");
    reveal_strlit("desktop");
    let w = text::words(args.mode@.skip(4));
    if m is App {
        assert(w =~= seq![w[0]] + w.skip(1));
    }
    if text::has_prefix(args.mode@, "app:"@) {
        assert(args.mode@[0] == args.mode@.take(4)[0]);
        assert(args.mode@[0] == 'a');
        assert("desktop"@[0] == 'd');
    }
}

/// A server must be named to list, close or watch its sessions; watching comes
/// first, then closing. Everything else is a session.
pub proof fn tasks_need_their_server(args: &Args, t: Task)
    requires
        call_ensures(Args::task, (args,), t),
    ensures
        t is Session <==> !args.list_sessions && args.close is None && !args.tray,
        t is NoServer ==> args.server is None,
        args.server is None ==> t is NoServer || t is Session,
        t matches Task::Tray(s) ==> args.tray && args.server == Some(s),
        args.tray && args.server is Some ==> t is Tray,
        t matches Task::Control(s, op) ==> !args.tray && args.server == Some(s) && (
        op matches ControlOp::Close(id) ==> args.close == Some(id)) && (op is List
            ==> args.close is None && args.list_sessions),
{
}

/// Each codec that can be named is asked for as that codec.
pub proof fn named_codecs_are_asked_for(a: CodecArg, c: VideoCodec)
    requires
        call_ensures(CodecArg::to_wire, (a,), c),
    ensures
        a is Av1 <==> c is Av1,
        a is Vp9 <==> c is Vp9,
        a is Vp8 <==> c is Vp8,
        a is H265 <==> c is H265,
        a is H264 <==> c is H264,
{
}

} // verus!
