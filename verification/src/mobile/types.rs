//! What the platform and the core exchange.
use vstd::prelude::*;
use crate::protocol::messages::{ModeView, SessionMode, VideoCodec};
use crate::text;

verus! {

/// A codec that a device's decoder can be asked to handle.
#[derive(Debug, Clone, Copy, PartialEq, Eq, Structural)]
pub enum MobileCodec {
    Av1,
    Vp9,
    Vp8,
    H265,
    H264,
}

impl From<MobileCodec> for VideoCodec {
    fn from(c: MobileCodec) -> (r: VideoCodec) {
        match c {
            MobileCodec::Av1 => VideoCodec::Av1,
            MobileCodec::Vp9 => VideoCodec::Vp9,
            MobileCodec::Vp8 => VideoCodec::Vp8,
            MobileCodec::H265 => VideoCodec::H265,
            MobileCodec::H264 => VideoCodec::H264,
        }
    }
}

impl vstd::std_specs::convert::FromSpecImpl<MobileCodec> for VideoCodec {
    open spec fn obeys_from_spec() -> bool {
        true
    }

    open spec fn from_spec(c: MobileCodec) -> VideoCodec {
        wire_codec(c)
    }
}

impl From<VideoCodec> for MobileCodec {
    fn from(c: VideoCodec) -> (r: MobileCodec) {
        match c {
            VideoCodec::Av1 => MobileCodec::Av1,
            VideoCodec::Vp9 => MobileCodec::Vp9,
            VideoCodec::Vp8 => MobileCodec::Vp8,
            VideoCodec::H265 => MobileCodec::H265,
            VideoCodec::H264 => MobileCodec::H264,
        }
    }
}

impl vstd::std_specs::convert::FromSpecImpl<VideoCodec> for MobileCodec {
    open spec fn obeys_from_spec() -> bool {
        true
    }

    open spec fn from_spec(c: VideoCodec) -> MobileCodec {
        mobile_codec(c)
    }
}

/// A device's codec as the protocol names it.
pub open spec fn wire_codec(c: MobileCodec) -> VideoCodec {
    match c {
        MobileCodec::Av1 => VideoCodec::Av1,
        MobileCodec::Vp9 => VideoCodec::Vp9,
        MobileCodec::Vp8 => VideoCodec::Vp8,
        MobileCodec::H265 => VideoCodec::H265,
        MobileCodec::H264 => VideoCodec::H264,
    }
}

/// A codec of the protocol as a device's.
pub open spec fn mobile_codec(c: VideoCodec) -> MobileCodec {
    match c {
        VideoCodec::Av1 => MobileCodec::Av1,
        VideoCodec::Vp9 => MobileCodec::Vp9,
        VideoCodec::Vp8 => MobileCodec::Vp8,
        VideoCodec::H265 => MobileCodec::H265,
        VideoCodec::H264 => MobileCodec::H264,
    }
}

/// The two kinds of codecs stand for each other.
pub proof fn codecs_convert_both_ways(c: VideoCodec, m: MobileCodec)
    ensures
        wire_codec(mobile_codec(c)) == c,
        mobile_codec(wire_codec(m)) == m,
{
}

/// A saved server.
#[derive(Debug, Clone)]
pub struct ServerProfile {
    pub host: String,
    pub port: u16,
    pub use_tls: bool,
    /// Whether certificates go unchecked. Servers sign their own by default,
    /// but this lets anybody in between listen.
    pub accept_invalid_certs: bool,
    pub username: Option<String>,
    pub password: Option<String>,
    /// Whether to go through a channel of an SSH connection; this comes before
    /// the others.
    pub use_ssh: bool,
    /// Whether to go over QUIC; this comes before TLS.
    pub use_quic: bool,
}

/// A session that can be resumed.
#[derive(Debug, Clone)]
pub struct SessionSummary {
    pub session_id: String,
    pub mode: String,
    pub width: u32,
    pub height: u32,
    pub age_secs: u64,
    pub attached: bool,
}

/// Parameters of a session, new or resumed.
#[derive(Debug, Clone)]
pub struct SessionParams {
    pub width: u32,
    pub height: u32,
    pub quality: u8,
    pub audio: bool,
    pub desktop_shell: Option<String>,
    /// The application to run; otherwise the desktop.
    pub app_command: Option<String>,
    /// What the device can decode, best first.
    pub supported_codecs: Vec<MobileCodec>,
}

/// What a session runs by the command that was asked for: without a word in
/// it, the desktop.
pub open spec fn mode_for(app_command: Option<Seq<char>>) -> ModeView {
    match app_command {
        Some(c) => {
            let w = text::words(c);
            if w.len() > 0 {
                ModeView::App(w[0], w.skip(1))
            } else {
                ModeView::Desktop
            }
        },
        None => ModeView::Desktop,
    }
}

impl SessionParams {
    /// The codecs to advertise. With an empty list the server would have
    /// nothing to pick from, so then it is all of them.
    pub open spec fn advertised(self) -> Seq<VideoCodec> {
        if self.supported_codecs@.len() == 0 {
            VideoCodec::preference()
        } else {
            self.supported_codecs@.map_values(|c: MobileCodec| wire_codec(c))
        }
    }

    /// The codecs to advertise.
    pub fn advertised_codecs(&self) -> (v: Vec<VideoCodec>)
        ensures
            v@ == self.advertised(),
    {
        if self.supported_codecs.len() == 0 {
            return VideoCodec::all_preferred();
        }
        let ghost all = self.advertised();
        let mut v: Vec<VideoCodec> = Vec::new();
        let mut i: usize = 0;
        while i < self.supported_codecs.len()
            invariant
                i <= self.supported_codecs@.len(),
                all == self.supported_codecs@.map_values(|c: MobileCodec| wire_codec(c)),
                v@ == all.take(i as int),
            decreases self.supported_codecs@.len() - i,
        {
            v.push(VideoCodec::from(self.supported_codecs[i]));
            assert(all.take(i + 1) == all.take(i as int).push(all[i as int]));
            i = i + 1;
        }
        assert(all.take(i as int) == all);
        v
    }

    /// What the session runs.
    pub fn session_mode(&self) -> (m: SessionMode)
        ensures
            m@ == mode_for(text::optional(self.app_command)),
    {
        match &self.app_command {
            Some(c) => {
                let parts = text::split_words(&text::chars_of(c.as_str()));
                if parts.len() == 0 {
                    assert(text::char_rows(parts@).len() == 0);
                    SessionMode::Desktop
                } else {
                    let args = text::rows_to_texts(&parts, 1);
                    assert(text::char_rows(parts@)[0] == parts@[0]@);
                    SessionMode::App { command: text::text_of(&parts[0]), args }
                }
            },
            None => SessionMode::Desktop,
        }
    }
}

/// What the platform's decoder is set up with, before any packet reaches it.
#[derive(Debug, Clone)]
pub struct SessionReadyInfo {
    pub width: u32,
    pub height: u32,
    pub codec: MobileCodec,
    /// Names the session, to come back to it after the connection dropped.
    pub session_id: String,
}

/// One encoded picture, as it came in.
#[derive(Debug, Clone)]
pub struct VideoPacket {
    pub data: Vec<u8>,
    pub timestamp_us: u64,
    pub keyframe: bool,
    /// The codec of this packet, which can differ from the negotiated one.
    pub codec: MobileCodec,
    pub width: u32,
    pub height: u32,
}

/// The codecs that were chosen are offered one by one, in their order and as
/// what they are; where none was chosen every codec is offered.
pub proof fn chosen_codecs_are_offered(params: &SessionParams, v: Vec<VideoCodec>)
    requires
        call_ensures(SessionParams::advertised_codecs, (params,), v),
    ensures
        params.supported_codecs@.len() > 0 ==> v@.len() == params.supported_codecs@.len(),
        params.supported_codecs@.len() > 0 ==> forall|i: int|
            0 <= i < v@.len() ==> {
                let c = #[trigger] params.supported_codecs@[i];
                &&& c is Av1 <==> v@[i] is Av1
                &&& c is Vp9 <==> v@[i] is Vp9
                &&& c is Vp8 <==> v@[i] is Vp8
                &&& c is H265 <==> v@[i] is H265
                &&& c is H264 <==> v@[i] is H264
            },
        params.supported_codecs@.len() == 0 ==> forall|c: VideoCodec| #[trigger] v@.contains(c),
{
    if params.supported_codecs@.len() > 0 {
        assert forall|i: int| 0 <= i < v@.len() implies #[trigger] v@[i] == wire_codec(
            params.supported_codecs@[i],
        ) by {}
    } else {
        assert forall|c: VideoCodec| #[trigger] v@.contains(c) by {
            let p = VideoCodec::preference();
            assert(v@ == p);
            assert(p[0] == p[0] && p[1] == p[1] && p[2] == p[2] && p[3] == p[3] && p[4] == p[4]);
            assert(v@.contains(p[0]) && v@.contains(p[1]) && v@.contains(p[2]) && v@.contains(p[3])
                && v@.contains(p[4]));
        }
    }
}

/// A command is run with its arguments, word by word; where there is none the
/// session is a desktop.
pub proof fn commands_are_run_with_their_arguments(params: &SessionParams, m: SessionMode)
    requires
        call_ensures(SessionParams::session_mode, (params,), m),
    ensures
        m matches SessionMode::App { command, args } ==> (params.app_command matches Some(c)
            && text::words(c@) == seq![command@] + text::texts(args@)),
        params.app_command matches Some(c) ==> text::words(c@).len() > 0 ==> m is App,
        params.app_command is None ==> m is Desktop,
        m is App || m is Desktop,
{
    if m is App {
        let w = text::words(params.app_command->0@);
        assert(w =~= seq![w[0]] + w.skip(1));
    }
}

} // verus!
