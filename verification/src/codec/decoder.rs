//! Video decoder backends: which exist, in what order they are tried, and how
//! a decoder recovers when one fails.
use vstd::prelude::*;
use crate::protocol::messages::VideoCodec;
use crate::text;

verus! {

/// Why decoding failed.
#[derive(Debug, Clone)]
pub enum DecoderError {
    InitFailed(String),
    DecodeFailed(String),
    NoFrame,
}

impl DecoderError {
    /// What the error says.
    pub open spec fn text(self) -> Seq<char> {
        match self {
            DecoderError::InitFailed(e) => "decoder init failed: "@ + e@,
            DecoderError::DecodeFailed(e) => "decode failed: "@ + e@,
            DecoderError::NoFrame => "no frame available"@,
        }
    }

    /// Describes the error.
    pub fn message(&self) -> (s: String)
        ensures
            s@ == self.text(),
    {
        match self {
            DecoderError::InitFailed(e) => String::from_str("decoder init failed: ").concat(
                e.as_str(),
            ),
            DecoderError::DecodeFailed(e) => String::from_str("decode failed: ").concat(e.as_str()),
            DecoderError::NoFrame => String::from_str("no frame available"),
        }
    }
}

/// Which video decoder is in use: AV1, VP9 and VP8 (open codecs) before H.265
/// and H.264.
#[derive(Debug, Clone, Copy, PartialEq, Eq, Structural)]
pub enum DecoderBackend {
    IntelQsv,
    NvidiaCuvid,
    Dav1d,
    Vp9Vaapi,
    Vp9V4l2m2m,
    LibvpxVp9,
    Vp8V4l2m2m,
    Libvpx,
    HevcQsv,
    HevcCuvid,
    HevcVaapi,
    HevcV4l2m2m,
    HevcSoftware,
    H264Qsv,
    H264Cuvid,
    H264Vaapi,
    H264V4l2m2m,
    H264Software,
}

impl DecoderBackend {
    /// FFmpeg's name for this decoder.
    pub open spec fn ffmpeg_name(self) -> Seq<char> {
        match self {
            DecoderBackend::IntelQsv => "av1_qsv"@,
            DecoderBackend::NvidiaCuvid => "av1_cuvid"@,
            DecoderBackend::Dav1d => "libdav1d"@,
            DecoderBackend::Vp9Vaapi => "vp9_vaapi"@,
            DecoderBackend::Vp9V4l2m2m => "vp9_v4l2m2m"@,
            DecoderBackend::LibvpxVp9 => "libvpx-vp9"@,
            DecoderBackend::Vp8V4l2m2m => "vp8_v4l2m2m"@,
            DecoderBackend::Libvpx => "libvpx"@,
            DecoderBackend::HevcQsv => "hevc_qsv"@,
            DecoderBackend::HevcCuvid => "hevc_cuvid"@,
            DecoderBackend::HevcVaapi => "hevc_vaapi"@,
            DecoderBackend::HevcV4l2m2m => "hevc_v4l2m2m"@,
            DecoderBackend::HevcSoftware => "hevc"@,
            DecoderBackend::H264Qsv => "h264_qsv"@,
            DecoderBackend::H264Cuvid => "h264_cuvid"@,
            DecoderBackend::H264Vaapi => "h264_vaapi"@,
            DecoderBackend::H264V4l2m2m => "h264_v4l2m2m"@,
            DecoderBackend::H264Software => "h264"@,
        }
    }

    /// FFmpeg's name for this decoder.
    pub fn codec_name(&self) -> (s: &'static str)
        ensures
            s@ == self.ffmpeg_name(),
    {
        match self {
            DecoderBackend::IntelQsv => "av1_qsv",
            DecoderBackend::NvidiaCuvid => "av1_cuvid",
            DecoderBackend::Dav1d => "libdav1d",
            DecoderBackend::Vp9Vaapi => "vp9_vaapi",
            DecoderBackend::Vp9V4l2m2m => "vp9_v4l2m2m",
            DecoderBackend::LibvpxVp9 => "libvpx-vp9",
            DecoderBackend::Vp8V4l2m2m => "vp8_v4l2m2m",
            DecoderBackend::Libvpx => "libvpx",
            DecoderBackend::HevcQsv => "hevc_qsv",
            DecoderBackend::HevcCuvid => "hevc_cuvid",
            DecoderBackend::HevcVaapi => "hevc_vaapi",
            DecoderBackend::HevcV4l2m2m => "hevc_v4l2m2m",
            DecoderBackend::HevcSoftware => "hevc",
            DecoderBackend::H264Qsv => "h264_qsv",
            DecoderBackend::H264Cuvid => "h264_cuvid",
            DecoderBackend::H264Vaapi => "h264_vaapi",
            DecoderBackend::H264V4l2m2m => "h264_v4l2m2m",
            DecoderBackend::H264Software => "h264",
        }
    }

    /// The wire codec that this backend decodes.
    pub open spec fn wire_codec(self) -> VideoCodec {
        match self {
            DecoderBackend::IntelQsv => VideoCodec::Av1,
            DecoderBackend::NvidiaCuvid => VideoCodec::Av1,
            DecoderBackend::Dav1d => VideoCodec::Av1,
            DecoderBackend::Vp9Vaapi => VideoCodec::Vp9,
            DecoderBackend::Vp9V4l2m2m => VideoCodec::Vp9,
            DecoderBackend::LibvpxVp9 => VideoCodec::Vp9,
            DecoderBackend::Vp8V4l2m2m => VideoCodec::Vp8,
            DecoderBackend::Libvpx => VideoCodec::Vp8,
            DecoderBackend::HevcQsv => VideoCodec::H265,
            DecoderBackend::HevcCuvid => VideoCodec::H265,
            DecoderBackend::HevcVaapi => VideoCodec::H265,
            DecoderBackend::HevcV4l2m2m => VideoCodec::H265,
            DecoderBackend::HevcSoftware => VideoCodec::H265,
            DecoderBackend::H264Qsv => VideoCodec::H264,
            DecoderBackend::H264Cuvid => VideoCodec::H264,
            DecoderBackend::H264Vaapi => VideoCodec::H264,
            DecoderBackend::H264V4l2m2m => VideoCodec::H264,
            DecoderBackend::H264Software => VideoCodec::H264,
        }
    }

    /// The wire codec that this backend decodes.
    pub fn codec(&self) -> (c: VideoCodec)
        ensures
            c == self.wire_codec(),
    {
        match self {
            DecoderBackend::IntelQsv
            | DecoderBackend::NvidiaCuvid
            | DecoderBackend::Dav1d => VideoCodec::Av1,
            DecoderBackend::Vp9Vaapi
            | DecoderBackend::Vp9V4l2m2m
            | DecoderBackend::LibvpxVp9 => VideoCodec::Vp9,
            DecoderBackend::Vp8V4l2m2m
            | DecoderBackend::Libvpx => VideoCodec::Vp8,
            DecoderBackend::HevcQsv
            | DecoderBackend::HevcCuvid
            | DecoderBackend::HevcVaapi
            | DecoderBackend::HevcV4l2m2m
            | DecoderBackend::HevcSoftware => VideoCodec::H265,
            DecoderBackend::H264Qsv
            | DecoderBackend::H264Cuvid
            | DecoderBackend::H264Vaapi
            | DecoderBackend::H264V4l2m2m
            | DecoderBackend::H264Software => VideoCodec::H264,
        }
    }

    /// How logs name this backend.
    pub open spec fn label(self) -> Seq<char> {
        match self {
            DecoderBackend::IntelQsv => "Intel QSV (av1_qsv)"@,
            DecoderBackend::NvidiaCuvid => "NVIDIA CUVID (av1_cuvid)"@,
            DecoderBackend::Dav1d => "dav1d (libdav1d, software)"@,
            DecoderBackend::Vp9Vaapi => "VA-API (vp9_vaapi)"@,
            DecoderBackend::Vp9V4l2m2m => "v4l2m2m (vp9_v4l2m2m)"@,
            DecoderBackend::LibvpxVp9 => "libvpx-vp9 (software)"@,
            DecoderBackend::Vp8V4l2m2m => "v4l2m2m (vp8_v4l2m2m)"@,
            DecoderBackend::Libvpx => "libvpx (vp8, software)"@,
            DecoderBackend::HevcQsv => "Intel QSV (hevc_qsv)"@,
            DecoderBackend::HevcCuvid => "NVIDIA CUVID (hevc_cuvid)"@,
            DecoderBackend::HevcVaapi => "VA-API (hevc_vaapi)"@,
            DecoderBackend::HevcV4l2m2m => "v4l2m2m (hevc_v4l2m2m)"@,
            DecoderBackend::HevcSoftware => "hevc (software)"@,
            DecoderBackend::H264Qsv => "Intel QSV (h264_qsv)"@,
            DecoderBackend::H264Cuvid => "NVIDIA CUVID (h264_cuvid)"@,
            DecoderBackend::H264Vaapi => "VA-API (h264_vaapi)"@,
            DecoderBackend::H264V4l2m2m => "v4l2m2m (h264_v4l2m2m)"@,
            DecoderBackend::H264Software => "h264 (software)"@,
        }
    }

    /// How logs name this backend: who made it and FFmpeg's name for it.
    pub fn display_name(&self) -> (s: &'static str)
        ensures
            s@ == self.label(),
    {
        match self {
            DecoderBackend::IntelQsv => "Intel QSV (av1_qsv)",
            DecoderBackend::NvidiaCuvid => "NVIDIA CUVID (av1_cuvid)",
            DecoderBackend::Dav1d => "dav1d (libdav1d, software)",
            DecoderBackend::Vp9Vaapi => "VA-API (vp9_vaapi)",
            DecoderBackend::Vp9V4l2m2m => "v4l2m2m (vp9_v4l2m2m)",
            DecoderBackend::LibvpxVp9 => "libvpx-vp9 (software)",
            DecoderBackend::Vp8V4l2m2m => "v4l2m2m (vp8_v4l2m2m)",
            DecoderBackend::Libvpx => "libvpx (vp8, software)",
            DecoderBackend::HevcQsv => "Intel QSV (hevc_qsv)",
            DecoderBackend::HevcCuvid => "NVIDIA CUVID (hevc_cuvid)",
            DecoderBackend::HevcVaapi => "VA-API (hevc_vaapi)",
            DecoderBackend::HevcV4l2m2m => "v4l2m2m (hevc_v4l2m2m)",
            DecoderBackend::HevcSoftware => "hevc (software)",
            DecoderBackend::H264Qsv => "Intel QSV (h264_qsv)",
            DecoderBackend::H264Cuvid => "NVIDIA CUVID (h264_cuvid)",
            DecoderBackend::H264Vaapi => "VA-API (h264_vaapi)",
            DecoderBackend::H264V4l2m2m => "v4l2m2m (h264_v4l2m2m)",
            DecoderBackend::H264Software => "h264 (software)",
        }
    }

    /// Whether this backend runs on the CPU.
    pub open spec fn software(self) -> bool {
        ||| self == DecoderBackend::Dav1d
        ||| self == DecoderBackend::LibvpxVp9
        ||| self == DecoderBackend::Libvpx
        ||| self == DecoderBackend::HevcSoftware
        ||| self == DecoderBackend::H264Software
    }

    /// Where this backend stands in the priority order.
    pub open spec fn rank(self) -> int {
        match self {
            DecoderBackend::IntelQsv => 1,
            DecoderBackend::NvidiaCuvid => 0,
            DecoderBackend::Dav1d => 13,
            DecoderBackend::Vp9Vaapi => 2,
            DecoderBackend::Vp9V4l2m2m => 3,
            DecoderBackend::LibvpxVp9 => 14,
            DecoderBackend::Vp8V4l2m2m => 4,
            DecoderBackend::Libvpx => 15,
            DecoderBackend::HevcQsv => 8,
            DecoderBackend::HevcCuvid => 5,
            DecoderBackend::HevcVaapi => 6,
            DecoderBackend::HevcV4l2m2m => 7,
            DecoderBackend::HevcSoftware => 16,
            DecoderBackend::H264Qsv => 12,
            DecoderBackend::H264Cuvid => 9,
            DecoderBackend::H264Vaapi => 10,
            DecoderBackend::H264V4l2m2m => 11,
            DecoderBackend::H264Software => 17,
        }
    }
}

/// Decoders to try, best first. Hardware comes before software, and within
/// each tier open codecs come first. Intel QSV stands after the other hardware
/// decoders of its codec: it opens even where there is no Intel GPU and fails
/// on the first packet, while the others fail at once.
pub const BACKEND_PRIORITY: [DecoderBackend; 18] = [
    DecoderBackend::NvidiaCuvid,
    DecoderBackend::IntelQsv,
    DecoderBackend::Vp9Vaapi,
    DecoderBackend::Vp9V4l2m2m,
    DecoderBackend::Vp8V4l2m2m,
    DecoderBackend::HevcCuvid,
    DecoderBackend::HevcVaapi,
    DecoderBackend::HevcV4l2m2m,
    DecoderBackend::HevcQsv,
    DecoderBackend::H264Cuvid,
    DecoderBackend::H264Vaapi,
    DecoderBackend::H264V4l2m2m,
    DecoderBackend::H264Qsv,
    DecoderBackend::Dav1d,
    DecoderBackend::LibvpxVp9,
    DecoderBackend::Libvpx,
    DecoderBackend::HevcSoftware,
    DecoderBackend::H264Software,
];

/// After this many failures in a row to start a proven decoder over, it is
/// given up for the next one.
pub const MAX_REINIT_FAILURES: u32 = 2;

/// Where a codec stands in the preference order.
pub open spec fn codec_rank(c: VideoCodec) -> int {
    match c {
        VideoCodec::Av1 => 0,
        VideoCodec::Vp9 => 1,
        VideoCodec::Vp8 => 2,
        VideoCodec::H265 => 3,
        VideoCodec::H264 => 4,
    }
}

/// Whether this is an Intel QSV decoder.
pub open spec fn is_qsv(b: DecoderBackend) -> bool {
    b == DecoderBackend::IntelQsv || b == DecoderBackend::HevcQsv || b == DecoderBackend::H264Qsv
}

/// Every backend stands in the priority list, at its rank and nowhere else.
pub proof fn every_backend_is_tried_once(b: DecoderBackend, i: int)
    requires
        0 <= i < BACKEND_PRIORITY@.len(),
    ensures
        0 <= b.rank() < BACKEND_PRIORITY@.len(),
        BACKEND_PRIORITY@[b.rank()] == b,
        BACKEND_PRIORITY@[i].rank() == i,
{
}

/// Hardware is tried before software, within each tier codecs are tried in
/// preference order, and QSV is the last hardware decoder of its codec.
pub proof fn priority_is_by_tier_and_codec(a: DecoderBackend, b: DecoderBackend)
    ensures
        !a.software() && b.software() ==> a.rank() < b.rank(),
        a.software() == b.software() && codec_rank(a.wire_codec()) < codec_rank(b.wire_codec())
            ==> a.rank() < b.rank(),
        is_qsv(b) && a != b && !a.software() && a.wire_codec() == b.wire_codec() ==> a.rank()
            < b.rank(),
{
}

/// Every codec has a software decoder to end up with.
pub proof fn every_codec_has_a_software_decoder(c: VideoCodec)
    ensures
        exists|b: DecoderBackend| #[trigger] b.software() && b.wire_codec() == c,
{
    let b = match c {
        VideoCodec::Av1 => DecoderBackend::Dav1d,
        VideoCodec::Vp9 => DecoderBackend::LibvpxVp9,
        VideoCodec::Vp8 => DecoderBackend::Libvpx,
        VideoCodec::H265 => DecoderBackend::HevcSoftware,
        VideoCodec::H264 => DecoderBackend::H264Software,
    };
    assert(b.software() && b.wire_codec() == c);
}

/// Whether a backend may be tried: it has not failed before and decodes the
/// negotiated codec, where one was negotiated.
pub open spec fn eligible(
    b: DecoderBackend,
    failed: Seq<DecoderBackend>,
    filter: Option<VideoCodec>,
) -> bool {
    &&& !failed.contains(b)
    &&& filter matches Some(c) ==> b.wire_codec() == c
}

/// The first place from `start` on whose backend may be tried.
pub open spec fn next_place(
    start: int,
    failed: Seq<DecoderBackend>,
    filter: Option<VideoCodec>,
) -> Option<int>
    decreases BACKEND_PRIORITY@.len() - start,
{
    if start < 0 || start >= BACKEND_PRIORITY@.len() {
        None
    } else if eligible(BACKEND_PRIORITY@[start], failed, filter) {
        Some(start)
    } else {
        next_place(start + 1, failed, filter)
    }
}

proof fn next_place_is_first(start: int, failed: Seq<DecoderBackend>, filter: Option<VideoCodec>)
    requires
        0 <= start,
    ensures
        next_place(start, failed, filter) matches Some(i) ==> {
            &&& start <= i < BACKEND_PRIORITY@.len()
            &&& eligible(BACKEND_PRIORITY@[i], failed, filter)
            &&& forall|k: int| start <= k < i ==> !eligible(BACKEND_PRIORITY@[k], failed, filter)
        },
        next_place(start, failed, filter) is None ==> forall|k: int|
            start <= k < BACKEND_PRIORITY@.len() ==> !eligible(BACKEND_PRIORITY@[k], failed, filter),
    decreases BACKEND_PRIORITY@.len() - start,
{
    if start < BACKEND_PRIORITY@.len() && !eligible(BACKEND_PRIORITY@[start], failed, filter) {
        next_place_is_first(start + 1, failed, filter);
    }
}

fn has_failed(failed: &[DecoderBackend], b: DecoderBackend) -> (r: bool)
    ensures
        r == failed@.contains(b),
{
    let mut i: usize = 0;
    while i < failed.len()
        invariant
            i <= failed@.len(),
            forall|k: int| 0 <= k < i ==> failed@[k] != b,
        decreases failed@.len() - i,
    {
        if failed[i] == b {
            assert(failed@[i as int] == b);
            return true;
        }
        i = i + 1;
    }
    false
}

/// The first place in the priority list, from `start` on, whose backend may be
/// tried.
pub fn next_backend(
    start: usize,
    failed: &[DecoderBackend],
    filter: Option<VideoCodec>,
) -> (r: Option<usize>)
    ensures
        match r {
            Some(i) => next_place(start as int, failed@, filter) == Some(i as int),
            None => next_place(start as int, failed@, filter) is None,
        },
{
    let all = BACKEND_PRIORITY;
    let mut i: usize = start;
    while i < all.len()
        invariant
            start <= i,
            all@ == BACKEND_PRIORITY@,
            next_place(start as int, failed@, filter) == next_place(i as int, failed@, filter),
        decreases BACKEND_PRIORITY@.len() - i,
    {
        let b = all[i];
        let decodes = match filter {
            Some(c) => b.codec() == c,
            None => true,
        };
        if decodes && !has_failed(failed, b) {
            return Some(i);
        }
        i = i + 1;
    }
    None
}

/// What a decoder is waiting for.
#[derive(Debug, Clone, Copy, PartialEq, Eq, Structural)]
pub enum DecoderPhase {
    /// A packet.
    Idle,
    /// Whether the backend on trial opens.
    Opening,
    /// What the open backend makes of the packet.
    Decoding,
    /// What a fresh context of the same backend makes of the packet.
    Reinit,
    /// Nothing: no backend opened.
    Unavailable,
}

/// What to do next.
#[derive(Debug, Clone)]
pub enum DecodeAction {
    /// Open this backend.
    Open(DecoderBackend),
    /// Wait for a packet.
    Ready,
    /// Hand the packet to the open backend.
    Decode,
    /// Open a fresh context of this backend and hand it the packet.
    Reinit(DecoderBackend),
    /// Convert and show the frame; `new_scaler` asks for a new converter first.
    Deliver { new_scaler: bool },
    /// There is no picture yet.
    Wait,
    /// Report this error.
    Fail(DecoderError),
}

/// The step of a fresh start at which a proven decoder failed.
#[derive(Debug, Clone, Copy, PartialEq, Eq, Structural)]
pub enum ReinitStage {
    Open,
    Send,
    Receive,
    /// Making the converter for the picture.
    CreateScaler,
    /// Converting the picture, which has this size.
    Scale { width: u32, height: u32 },
}

/// The state of a decoder, as its contracts speak of it.
pub ghost struct DecoderView {
    /// What it is waiting for.
    pub phase: DecoderPhase,
    /// The place of the open backend.
    pub current: Option<int>,
    /// The place of the backend on trial.
    pub trial: int,
    /// Backends that have failed.
    pub failed: Seq<DecoderBackend>,
    /// Whether the open backend has produced a picture.
    pub confirmed: bool,
    /// Failures in a row to start the open backend over.
    pub reinit_failures: int,
    /// The negotiated codec, where there is one.
    pub filter: Option<VideoCodec>,
    /// Whether a packet waits to be decoded.
    pub pending: bool,
    /// The size of the last picture.
    pub size: (u32, u32),
}

/// The choice of a decoder backend, and how it recovers. It says what to do
/// next and is told how it went; the FFmpeg contexts are its caller's.
pub struct VideoDecoder {
    phase: DecoderPhase,
    current: Option<usize>,
    trial: usize,
    failed: Vec<DecoderBackend>,
    confirmed: bool,
    reinit_failures: u32,
    filter: Option<VideoCodec>,
    pending: bool,
    width: u32,
    height: u32,
}

/// The error of a search that found no backend.
pub open spec fn none_available(filter: Option<VideoCodec>) -> Seq<char> {
    match filter {
        Some(c) => "no "@ + c.name() + " decoder available"@,
        None => "no video decoder available"@,
    }
}

/// The error of a fresh start that failed.
pub open spec fn reinit_error(b: DecoderBackend, stage: ReinitStage, why: Seq<char>) -> Seq<char> {
    match stage {
        ReinitStage::Open => "reinit "@ + b.label() + ": "@ + why,
        ReinitStage::Send => "reinit send: "@ + why,
        ReinitStage::Receive => "reinit recv: "@ + why,
        ReinitStage::CreateScaler => "create scaler: "@ + why,
        ReinitStage::Scale { .. } => "scale: "@ + why,
    }
}

/// The state of a search that goes on at `start`. A search that
/// runs out leaves the open backend in place and forgets the failed ones.
pub open spec fn searching(s: DecoderView, start: int) -> DecoderView {
    match next_place(start, s.failed, s.filter) {
        Some(i) => DecoderView { phase: DecoderPhase::Opening, trial: i, ..s },
        None => DecoderView {
            phase: if s.current is Some {
                DecoderPhase::Idle
            } else {
                DecoderPhase::Unavailable
            },
            failed: Seq::empty(),
            pending: false,
            ..s
        },
    }
}

/// Whether an action is the one of a search that goes on at `start`.
pub open spec fn search_action(s: DecoderView, start: int, action: DecodeAction) -> bool {
    match next_place(start, s.failed, s.filter) {
        Some(i) => action == DecodeAction::Open(BACKEND_PRIORITY@[i]),
        None => action matches DecodeAction::Fail(DecoderError::InitFailed(e)) && e@
            == none_available(s.filter),
    }
}

/// A state in which the open backend counts as failed.
pub open spec fn given_up(s: DecoderView) -> DecoderView {
    DecoderView { failed: s.failed.push(BACKEND_PRIORITY@[s.current->0]), ..s }
}

/// What a decoder is told.
pub ghost enum DecoderStep {
    /// There is a packet.
    Packet,
    /// The backend on trial opened.
    Opened,
    /// The backend on trial did not open.
    OpenFailed,
    /// There is a picture of this size.
    Frame(u32, u32),
    /// There is no picture yet.
    NoFrame,
    /// The open backend failed.
    DecodeFailed,
    /// A fresh context of the open backend failed.
    ReinitFailed(ReinitStage),
}

impl DecoderView {
    /// Whether a step is one that the decoder is waiting for.
    pub open spec fn expects(self, step: DecoderStep) -> bool {
        match step {
            DecoderStep::Packet => self.phase == DecoderPhase::Idle,
            DecoderStep::Opened => self.phase == DecoderPhase::Opening,
            DecoderStep::OpenFailed => self.phase == DecoderPhase::Opening,
            DecoderStep::Frame(..) => self.phase == DecoderPhase::Decoding || self.phase
                == DecoderPhase::Reinit,
            DecoderStep::NoFrame => self.phase == DecoderPhase::Decoding || self.phase
                == DecoderPhase::Reinit,
            DecoderStep::DecodeFailed => self.phase == DecoderPhase::Decoding,
            DecoderStep::ReinitFailed(_) => self.phase == DecoderPhase::Reinit,
        }
    }

    /// The state after a step.
    pub open spec fn after(self, step: DecoderStep) -> DecoderView {
        match step {
            DecoderStep::Packet => DecoderView {
                phase: DecoderPhase::Decoding,
                pending: true,
                ..self
            },
            DecoderStep::Opened => DecoderView {
                phase: if self.pending {
                    DecoderPhase::Decoding
                } else {
                    DecoderPhase::Idle
                },
                current: Some(self.trial),
                confirmed: false,
                reinit_failures: 0,
                size: (0, 0),
                ..self
            },
            DecoderStep::OpenFailed => searching(self, self.trial + 1),
            DecoderStep::Frame(width, height) => DecoderView {
                phase: DecoderPhase::Idle,
                confirmed: true,
                reinit_failures: 0,
                pending: false,
                size: (width, height),
                ..self
            },
            DecoderStep::NoFrame => DecoderView {
                phase: DecoderPhase::Idle,
                pending: false,
                size: if self.phase == DecoderPhase::Reinit {
                    (0, 0)
                } else {
                    self.size
                },
                ..self
            },
            DecoderStep::DecodeFailed => if self.confirmed {
                DecoderView { phase: DecoderPhase::Reinit, ..self }
            } else {
                searching(given_up(self), self.current->0 + 1)
            },
            DecoderStep::ReinitFailed(stage) => {
                let s = VideoDecoder::after_reinit_failure(self, stage);
                if self.reinit_failures + 1 < MAX_REINIT_FAILURES {
                    DecoderView { phase: DecoderPhase::Idle, pending: false, ..s }
                } else {
                    searching(given_up(s), s.current->0 + 1)
                }
            },
        }
    }

    /// The state after a number of steps.
    pub open spec fn after_all(self, steps: Seq<DecoderStep>) -> DecoderView
        decreases steps.len(),
    {
        if steps.len() == 0 {
            self
        } else {
            self.after_all(steps.drop_last()).after(steps.last())
        }
    }

    /// Whether each of a number of steps is waited for in its turn.
    pub open spec fn expects_all(self, steps: Seq<DecoderStep>) -> bool
        decreases steps.len(),
    {
        steps.len() > 0 ==> {
            &&& self.expects_all(steps.drop_last())
            &&& self.after_all(steps.drop_last()).expects(steps.last())
        }
    }
}

impl View for VideoDecoder {
    type V = DecoderView;

    closed spec fn view(&self) -> DecoderView {
        DecoderView {
            phase: self.phase,
            current: match self.current {
                Some(i) => Some(i as int),
                None => None,
            },
            trial: self.trial as int,
            failed: self.failed@,
            confirmed: self.confirmed,
            reinit_failures: self.reinit_failures as int,
            filter: self.filter,
            pending: self.pending,
            size: (self.width, self.height),
        }
    }
}

/// What holds of a decoder at all times: the backends open and on trial decode
/// the negotiated codec, the failed ones stand before the one on trial, and
/// while a packet is worked on there is an open backend.
pub open spec fn decoder_ok(s: DecoderView) -> bool {
    &&& 0 <= s.trial < BACKEND_PRIORITY@.len()
    &&& s.current matches Some(i) ==> {
        &&& 0 <= i < BACKEND_PRIORITY@.len()
        &&& s.filter matches Some(c) ==> BACKEND_PRIORITY@[i].wire_codec() == c
    }
    &&& s.phase == DecoderPhase::Opening ==> {
        &&& s.filter matches Some(c) ==> BACKEND_PRIORITY@[s.trial].wire_codec() == c
        &&& s.current matches Some(i) ==> i < s.trial
        &&& forall|k: int| 0 <= k < s.failed.len() ==> (#[trigger] s.failed[k]).rank() < s.trial
        &&& s.pending <==> s.current is Some
    }
    &&& s.phase == DecoderPhase::Idle || s.phase == DecoderPhase::Decoding || s.phase
        == DecoderPhase::Reinit ==> {
        &&& s.current matches Some(i)
        &&& forall|k: int| 0 <= k < s.failed.len() ==> (#[trigger] s.failed[k]).rank() < i
    }
    &&& s.phase == DecoderPhase::Decoding || s.phase == DecoderPhase::Reinit ==> s.pending
    &&& s.phase == DecoderPhase::Idle ==> !s.pending
    &&& s.phase == DecoderPhase::Reinit ==> s.confirmed
}

impl VideoDecoder {
    /// Whether the decoder is in order.
    pub open spec fn wf(&self) -> bool {
        decoder_ok(self@)
    }

    /// Starts a decoder for any codec. Only for servers that do not announce
    /// one.
    pub fn new() -> (r: (VideoDecoder, DecodeAction))
        ensures
            r.0.wf(),
            r.1 is Open,
            r.0@ == searching(VideoDecoder::fresh(None), 0),
            search_action(VideoDecoder::fresh(None), 0, r.1),
    {
        VideoDecoder::start(None)
    }

    /// Starts a decoder for a negotiated codec: only that codec's backends are
    /// ever tried.
    pub fn for_codec(codec: VideoCodec) -> (r: (VideoDecoder, DecodeAction))
        ensures
            r.0.wf(),
            r.1 is Open,
            r.0@ == searching(VideoDecoder::fresh(Some(codec)), 0),
            search_action(VideoDecoder::fresh(Some(codec)), 0, r.1),
    {
        VideoDecoder::start(Some(codec))
    }

    /// The state before any backend was tried.
    pub open spec fn fresh(filter: Option<VideoCodec>) -> DecoderView {
        DecoderView {
            phase: DecoderPhase::Unavailable,
            current: None,
            trial: 0,
            failed: Seq::empty(),
            confirmed: false,
            reinit_failures: 0,
            filter,
            pending: false,
            size: (0, 0),
        }
    }

    fn start(filter: Option<VideoCodec>) -> (r: (VideoDecoder, DecodeAction))
        ensures
            r.0.wf(),
            r.1 is Open,
            r.0@ == searching(VideoDecoder::fresh(filter), 0),
            search_action(VideoDecoder::fresh(filter), 0, r.1),
    {
        let mut d = VideoDecoder {
            phase: DecoderPhase::Unavailable,
            current: None,
            trial: 0,
            failed: Vec::new(),
            confirmed: false,
            reinit_failures: 0,
            filter,
            pending: false,
            width: 0,
            height: 0,
        };
        proof {
            next_place_is_first(0, Seq::empty(), filter);
            a_search_starts_somewhere(filter);
        }
        let a = d.search(0);
        (d, a)
    }

    fn search(&mut self, start: usize) -> (a: DecodeAction)
        ensures
            final(self)@ == searching(old(self)@, start as int),
            search_action(old(self)@, start as int, a),
    {
        proof {
            next_place_is_first(start as int, self.failed@, self.filter);
        }
        match next_backend(start, &self.failed, self.filter) {
            Some(i) => {
                self.phase = DecoderPhase::Opening;
                self.trial = i;
                let all = BACKEND_PRIORITY;
                DecodeAction::Open(all[i])
            },
            None => {
                self.phase = match self.current {
                    Some(_) => DecoderPhase::Idle,
                    None => DecoderPhase::Unavailable,
                };
                self.failed = Vec::new();
                self.pending = false;
                DecodeAction::Fail(DecoderError::InitFailed(none_available_text(self.filter)))
            },
        }
    }

    /// What the decoder is waiting for.
    pub fn phase(&self) -> (p: DecoderPhase)
        ensures
            p == self@.phase,
    {
        self.phase
    }

    /// The backend in use.
    pub fn backend(&self) -> (b: Option<DecoderBackend>)
        requires
            self.wf(),
        ensures
            b == (match self@.current {
                Some(i) => Some(BACKEND_PRIORITY@[i]),
                None => None,
            }),
    {
        let all = BACKEND_PRIORITY;
        match self.current {
            Some(i) => Some(all[i]),
            None => None,
        }
    }

    /// The codec that the backend in use decodes.
    pub fn codec(&self) -> (c: Option<VideoCodec>)
        requires
            self.wf(),
        ensures
            c == (match self@.current {
                Some(i) => Some(BACKEND_PRIORITY@[i].wire_codec()),
                None => None,
            }),
            self@.current is Some && self@.filter is Some ==> c == self@.filter,
    {
        match self.backend() {
            Some(b) => Some(b.codec()),
            None => None,
        }
    }

    /// Takes a packet to decode.
    pub fn packet(&mut self) -> (a: DecodeAction)
        requires
            old(self).wf(),
            old(self)@.expects(DecoderStep::Packet),
        ensures
            final(self).wf(),
            a == DecodeAction::Decode,
            final(self)@ == old(self)@.after(DecoderStep::Packet),
            final(self)@.filter == old(self)@.filter,
    {
        self.phase = DecoderPhase::Decoding;
        self.pending = true;
        DecodeAction::Decode
    }

    /// The backend on trial opened: it is in use now, unproven. A packet that
    /// waits goes to it.
    pub fn opened(&mut self) -> (a: DecodeAction)
        requires
            old(self).wf(),
            old(self)@.expects(DecoderStep::Opened),
        ensures
            final(self).wf(),
            a == (if old(self)@.pending {
                DecodeAction::Decode
            } else {
                DecodeAction::Ready
            }),
            final(self)@ == old(self)@.after(DecoderStep::Opened),
            final(self)@.filter == old(self)@.filter,
    {
        self.current = Some(self.trial);
        self.confirmed = false;
        self.reinit_failures = 0;
        self.width = 0;
        self.height = 0;
        if self.pending {
            self.phase = DecoderPhase::Decoding;
            DecodeAction::Decode
        } else {
            self.phase = DecoderPhase::Idle;
            DecodeAction::Ready
        }
    }

    /// The backend on trial did not open: the search goes on behind it.
    pub fn open_failed(&mut self) -> (a: DecodeAction)
        requires
            old(self).wf(),
            old(self)@.expects(DecoderStep::OpenFailed),
        ensures
            final(self).wf(),
            final(self)@ == old(self)@.after(DecoderStep::OpenFailed),
            final(self)@.filter == old(self)@.filter,
            search_action(old(self)@, old(self)@.trial + 1, a),
    {
        let start: usize = self.trial + 1;
        proof {
            next_place_is_first(start as int, self.failed@, self.filter);
        }
        self.search(start)
    }

    /// The backend produced a picture of this size: it is proven. A backend
    /// that is being started over has shown it by then.
    pub fn frame(&mut self, width: u32, height: u32, have_scaler: bool) -> (a: DecodeAction)
        requires
            old(self).wf(),
            old(self)@.expects(DecoderStep::Frame(width, height)),
        ensures
            final(self).wf(),
            a == (DecodeAction::Deliver {
                new_scaler: old(self)@.phase == DecoderPhase::Reinit || old(self)@.size != (
                    width,
                    height,
                ) || !have_scaler,
            }),
            final(self)@ == old(self)@.after(DecoderStep::Frame(width, height)),
            final(self)@.filter == old(self)@.filter,
    {
        let new_scaler = self.phase == DecoderPhase::Reinit || self.width != width || self.height
            != height || !have_scaler;
        self.phase = DecoderPhase::Idle;
        self.confirmed = true;
        self.reinit_failures = 0;
        self.pending = false;
        self.width = width;
        self.height = height;
        DecodeAction::Deliver { new_scaler }
    }

    /// The backend wants more packets before there is a picture. A fresh
    /// context has no size yet.
    pub fn no_frame(&mut self) -> (a: DecodeAction)
        requires
            old(self).wf(),
            old(self)@.expects(DecoderStep::NoFrame),
        ensures
            final(self).wf(),
            a == DecodeAction::Wait,
            final(self)@ == old(self)@.after(DecoderStep::NoFrame),
            final(self)@.filter == old(self)@.filter,
    {
        if self.phase == DecoderPhase::Reinit {
            self.width = 0;
            self.height = 0;
        }
        self.phase = DecoderPhase::Idle;
        self.pending = false;
        DecodeAction::Wait
    }

    /// The open backend failed on a packet. A proven one is started over,
    /// since a changed picture size is enough to upset it; one that never
    /// worked is given up for the next.
    pub fn decode_failed(&mut self) -> (a: DecodeAction)
        requires
            old(self).wf(),
            old(self)@.expects(DecoderStep::DecodeFailed),
        ensures
            final(self).wf(),
            final(self)@ == old(self)@.after(DecoderStep::DecodeFailed),
            final(self)@.filter == old(self)@.filter,
            old(self)@.confirmed ==> a == DecodeAction::Reinit(
                BACKEND_PRIORITY@[old(self)@.current->0],
            ),
            !old(self)@.confirmed ==> search_action(
                given_up(old(self)@),
                old(self)@.current->0 + 1,
                a,
            ),
    {
        if self.confirmed {
            self.phase = DecoderPhase::Reinit;
            let all = BACKEND_PRIORITY;
            match self.current {
                Some(i) => DecodeAction::Reinit(all[i]),
                None => DecodeAction::Wait,
            }
        } else {
            self.fall_back()
        }
    }

    fn fall_back(&mut self) -> (a: DecodeAction)
        requires
            old(self).wf(),
            old(self)@.phase == DecoderPhase::Decoding || old(self)@.phase == DecoderPhase::Reinit,
        ensures
            final(self).wf(),
            final(self)@ == searching(given_up(old(self)@), old(self)@.current->0 + 1),
            search_action(given_up(old(self)@), old(self)@.current->0 + 1, a),
    {
        let all = BACKEND_PRIORITY;
        match self.current {
            Some(i) => {
                let ghost before = self.failed@;
                self.failed.push(all[i]);
                proof {
                    every_backend_is_tried_once(BACKEND_PRIORITY@[i as int], i as int);
                    next_place_is_first(i + 1, self.failed@, self.filter);
                    assert forall|k: int| 0 <= k < self.failed@.len() implies (
                    #[trigger] self.failed@[k]).rank() < i + 1 by {
                        if k < before.len() {
                            assert(self.failed@[k] == before[k]);
                        }
                    }
                }
                self.search(i + 1)
            },
            None => DecodeAction::Wait,
        }
    }

    /// A fresh context of the proven backend failed too. The first time the
    /// error is reported; when it goes on, the backend is broken (a driver
    /// update can do that) and is given up for the next.
    pub fn reinit_failed(&mut self, stage: ReinitStage, why: &str) -> (a: DecodeAction)
        requires
            old(self).wf(),
            old(self)@.expects(DecoderStep::ReinitFailed(stage)),
        ensures
            final(self).wf(),
            final(self)@ == old(self)@.after(DecoderStep::ReinitFailed(stage)),
            final(self)@.filter == old(self)@.filter,
            ({
                let s = VideoDecoder::after_reinit_failure(old(self)@, stage);
                if old(self)@.reinit_failures + 1 < MAX_REINIT_FAILURES {
                    a matches DecodeAction::Fail(DecoderError::DecodeFailed(e)) && e@
                        == reinit_error(BACKEND_PRIORITY@[s.current->0], stage, why@)
                } else {
                    search_action(given_up(s), s.current->0 + 1, a)
                }
            }),
    {
        if self.reinit_failures < u32::MAX {
            self.reinit_failures = self.reinit_failures + 1;
        }
        match stage {
            ReinitStage::Open => {},
            ReinitStage::Scale { width, height } => {
                self.width = width;
                self.height = height;
            },
            _ => {
                self.width = 0;
                self.height = 0;
            },
        }
        if self.reinit_failures >= MAX_REINIT_FAILURES {
            self.fall_back()
        } else {
            self.phase = DecoderPhase::Idle;
            self.pending = false;
            let all = BACKEND_PRIORITY;
            match self.current {
                Some(i) => DecodeAction::Fail(
                    DecoderError::DecodeFailed(reinit_text(all[i], stage, why)),
                ),
                None => DecodeAction::Wait,
            }
        }
    }

    /// The state once a failure to start over is counted. A context that did
    /// open has the size of the picture that it could not show, or none.
    pub open spec fn after_reinit_failure(s: DecoderView, stage: ReinitStage) -> DecoderView {
        DecoderView {
            reinit_failures: if s.reinit_failures < u32::MAX {
                s.reinit_failures + 1
            } else {
                s.reinit_failures
            },
            size: match stage {
                ReinitStage::Open => s.size,
                ReinitStage::Scale { width, height } => (width, height),
                _ => (0, 0),
            },
            ..s
        }
    }
}

fn none_available_text(filter: Option<VideoCodec>) -> (s: String)
    ensures
        s@ == none_available(filter),
{
    match filter {
        Some(c) => String::from_str("no ").concat(c.display_name()).concat(" decoder available"),
        None => String::from_str("no video decoder available"),
    }
}

fn reinit_text(b: DecoderBackend, stage: ReinitStage, why: &str) -> (s: String)
    ensures
        s@ == reinit_error(b, stage, why@),
{
    match stage {
        ReinitStage::Open => String::from_str("reinit ").concat(b.display_name()).concat(
            ": ",
        ).concat(why),
        ReinitStage::Send => String::from_str("reinit send: ").concat(why),
        ReinitStage::Receive => String::from_str("reinit recv: ").concat(why),
        ReinitStage::CreateScaler => String::from_str("create scaler: ").concat(why),
        ReinitStage::Scale { .. } => String::from_str("scale: ").concat(why),
    }
}

/// A search for a decoder always finds one to try: whatever codec was
/// negotiated, there is a backend for it.
pub proof fn a_search_starts_somewhere(filter: Option<VideoCodec>)
    ensures
        next_place(0, Seq::empty(), filter) is Some,
{
    next_place_is_first(0, Seq::empty(), filter);
    if let Some(c) = filter {
        every_codec_has_a_software_decoder(c);
        let b = choose|b: DecoderBackend| #[trigger] b.software() && b.wire_codec() == c;
        every_backend_is_tried_once(b, 0);
        assert(eligible(BACKEND_PRIORITY@[b.rank()], Seq::empty(), filter));
    } else {
        assert(eligible(BACKEND_PRIORITY@[0], Seq::empty(), filter));
    }
}

/// Falling back only moves forward: the backend tried next stands behind the
/// one given up, was not tried before, and decodes the negotiated codec.
pub proof fn fallback_moves_forward(s: DecoderView, action: DecodeAction)
    requires
        decoder_ok(s),
        s.phase == DecoderPhase::Decoding || s.phase == DecoderPhase::Reinit,
        search_action(given_up(s), s.current->0 + 1, action),
        action is Open,
    ensures
        action->Open_0.rank() > s.current->0,
        !given_up(s).failed.contains(action->Open_0),
        s.filter matches Some(c) ==> action->Open_0.wire_codec() == c,
{
    next_place_is_first(s.current->0 + 1, given_up(s).failed, s.filter);
    let i = next_place(s.current->0 + 1, given_up(s).failed, s.filter)->0;
    every_backend_is_tried_once(BACKEND_PRIORITY@[i], i);
}

proof fn a_step_keeps_order(s: DecoderView, step: DecoderStep)
    requires
        decoder_ok(s),
        s.expects(step),
    ensures
        decoder_ok(s.after(step)),
        s.after(step).filter == s.filter,
{
    next_place_is_first(s.trial + 1, s.failed, s.filter);
    if let Some(i) = s.current {
        let failed = given_up(s).failed;
        next_place_is_first(i + 1, failed, s.filter);
        every_backend_is_tried_once(BACKEND_PRIORITY@[i], i);
    }
}

/// A decoder made for a codec keeps to it: whatever it is told and however
/// often, through every fallback and every fresh start, whether pictures come
/// or errors, the backend in use and the one on trial decode that codec.
pub proof fn a_decoder_keeps_its_codec(codec: VideoCodec, steps: Seq<DecoderStep>)
    requires
        searching(VideoDecoder::fresh(Some(codec)), 0).expects_all(steps),
    ensures
        ({
            let d = searching(VideoDecoder::fresh(Some(codec)), 0).after_all(steps);
            &&& decoder_ok(d)
            &&& d.filter == Some(codec)
            &&& d.current matches Some(i) ==> BACKEND_PRIORITY@[i].wire_codec() == codec
            &&& d.phase == DecoderPhase::Opening ==> BACKEND_PRIORITY@[d.trial].wire_codec()
                == codec
        }),
    decreases steps.len(),
{
    let start = searching(VideoDecoder::fresh(Some(codec)), 0);
    if steps.len() == 0 {
        a_search_starts_somewhere(Some(codec));
        next_place_is_first(0, Seq::empty(), Some(codec));
    } else {
        a_decoder_keeps_its_codec(codec, steps.drop_last());
        a_step_keeps_order(start.after_all(steps.drop_last()), steps.last());
    }
}

/// The converter follows the picture: of two pictures in a row, the second asks
/// for a new one exactly where its size differs from that of the picture right
/// before it, or where there is none to use.
pub proof fn converters_follow_the_picture()
    ensures
        forall|
            d: &mut VideoDecoder,
            e: &mut VideoDecoder,
            f: &mut VideoDecoder,
            w: u32,
            h: u32,
            had: bool,
            first: DecodeAction,
            between: DecodeAction,
            v: u32,
            g: u32,
            have: bool,
            second: DecodeAction,
        |
            #![trigger call_ensures(VideoDecoder::frame, (d, w, h, had), first), call_ensures(VideoDecoder::packet, (e,), between), call_ensures(VideoDecoder::frame, (f, v, g, have), second)]
            d.wf() && d@.expects(DecoderStep::Frame(w, h)) && call_ensures(
                VideoDecoder::frame,
                (d, w, h, had),
                first,
            ) && *e == *final(d) && call_ensures(VideoDecoder::packet, (e,), between) && *f
                == *final(e) && call_ensures(VideoDecoder::frame, (f, v, g, have), second) ==> {
                &&& between == DecodeAction::Decode
                &&& second == (DecodeAction::Deliver { new_scaler: v != w || g != h || !have })
            },
        forall|d: &mut VideoDecoder, w: u32, h: u32, had: bool, a: DecodeAction| #[trigger]
            call_ensures(VideoDecoder::frame, (d, w, h, had), a) && d.wf() && d@.expects(
                DecoderStep::Frame(w, h),
            ) ==> {
                &&& a matches DecodeAction::Deliver { new_scaler }
                &&& !had ==> new_scaler
                &&& d@.phase == DecoderPhase::Reinit ==> new_scaler
                &&& final(d)@.size == (w, h)
                &&& final(d)@.phase == DecoderPhase::Idle
                &&& final(d)@.current == d@.current
            },
{
}

/// The first picture of a backend that was just opened asks for a converter.
pub proof fn a_new_backend_needs_a_converter()
    ensures
        forall|
            d: &mut VideoDecoder,
            e: &mut VideoDecoder,
            opened: DecodeAction,
            w: u32,
            h: u32,
            have: bool,
            a: DecodeAction,
        |
            #![trigger call_ensures(VideoDecoder::opened, (d,), opened), call_ensures(VideoDecoder::frame, (e, w, h, have), a)]
            d.wf() && d@.expects(DecoderStep::Opened) && call_ensures(
                VideoDecoder::opened,
                (d,),
                opened,
            ) && opened == DecodeAction::Decode && *e == *final(d) && call_ensures(
                VideoDecoder::frame,
                (e, w, h, have),
                a,
            ) && (w > 0 || h > 0) ==> a == (DecodeAction::Deliver { new_scaler: true }),
{
}

/// A backend that has shown a picture is started over when it fails, since a
/// change of size may have upset it. One that never has is given up, for one
/// that was not tried before or with an error.
pub proof fn proven_backends_are_started_over()
    ensures
        forall|
            d: &mut VideoDecoder,
            e: &mut VideoDecoder,
            f: &mut VideoDecoder,
            w: u32,
            h: u32,
            had: bool,
            first: DecodeAction,
            between: DecodeAction,
            a: DecodeAction,
        |
            #![trigger call_ensures(VideoDecoder::frame, (d, w, h, had), first), call_ensures(VideoDecoder::packet, (e,), between), call_ensures(VideoDecoder::decode_failed, (f,), a)]
            d.wf() && d@.expects(DecoderStep::Frame(w, h)) && call_ensures(
                VideoDecoder::frame,
                (d, w, h, had),
                first,
            ) && *e == *final(d) && call_ensures(VideoDecoder::packet, (e,), between) && *f
                == *final(e) && call_ensures(VideoDecoder::decode_failed, (f,), a) ==> {
                &&& a == DecodeAction::Reinit(BACKEND_PRIORITY@[d@.current->0])
                &&& final(f)@.current == d@.current
            },
        forall|
            d: &mut VideoDecoder,
            e: &mut VideoDecoder,
            opened: DecodeAction,
            a: DecodeAction,
        |
            #![trigger call_ensures(VideoDecoder::opened, (d,), opened), call_ensures(VideoDecoder::decode_failed, (e,), a)]
            d.wf() && d@.expects(DecoderStep::Opened) && call_ensures(
                VideoDecoder::opened,
                (d,),
                opened,
            ) && opened == DecodeAction::Decode && *e == *final(d) && call_ensures(
                VideoDecoder::decode_failed,
                (e,),
                a,
            ) ==> {
                &&& a is Open || a is Fail
                &&& a matches DecodeAction::Open(b) ==> b.rank() > d@.trial
            },
{
    assert forall|
        d: &mut VideoDecoder,
        e: &mut VideoDecoder,
        opened: DecodeAction,
        a: DecodeAction,
    |
        #![trigger call_ensures(VideoDecoder::opened, (d,), opened), call_ensures(VideoDecoder::decode_failed, (e,), a)]
        d.wf() && d@.expects(DecoderStep::Opened) && call_ensures(
            VideoDecoder::opened,
            (d,),
            opened,
        ) && opened == DecodeAction::Decode && *e == *final(d) && call_ensures(
            VideoDecoder::decode_failed,
            (e,),
            a,
        ) implies {
        &&& a is Open || a is Fail
        &&& a matches DecodeAction::Open(b) ==> b.rank() > d@.trial
    } by {
        let s = e@;
        let i = s.current->0;
        next_place_is_first(i + 1, given_up(s).failed, s.filter);
        if let DecodeAction::Open(b) = a {
            let k = next_place(i + 1, given_up(s).failed, s.filter)->0;
            every_backend_is_tried_once(BACKEND_PRIORITY@[k], k);
        }
    }
}

/// A fresh start that fails is reported once; the second in a row gives the
/// backend up. A picture in between forgets the failure.
pub proof fn the_second_failure_gives_up()
    ensures
        forall|d: &mut VideoDecoder, stage: ReinitStage, why: &str, a: DecodeAction| #[trigger]
            call_ensures(VideoDecoder::reinit_failed, (d, stage, why), a) && d.wf() && d@.expects(
                DecoderStep::ReinitFailed(stage),
            ) ==> {
                &&& d@.reinit_failures == 0 ==> {
                    &&& a matches DecodeAction::Fail(DecoderError::DecodeFailed(_))
                    &&& final(d)@.current == d@.current
                    &&& final(d)@.reinit_failures == 1
                    &&& final(d)@.confirmed == d@.confirmed
                    &&& final(d)@.phase == DecoderPhase::Idle
                }
                &&& d@.reinit_failures >= 1 ==> {
                    ||| a is Open
                    ||| a matches DecodeAction::Fail(DecoderError::InitFailed(_))
                }
                &&& d@.reinit_failures >= 1 && a is Open ==> a->Open_0.rank() > d@.current->0
            },
        forall|d: &mut VideoDecoder, w: u32, h: u32, had: bool, a: DecodeAction| #[trigger]
            call_ensures(VideoDecoder::frame, (d, w, h, had), a) && d.wf() && d@.expects(
                DecoderStep::Frame(w, h),
            ) ==> final(d)@.reinit_failures == 0 && final(d)@.confirmed,
        forall|d: &mut VideoDecoder, a: DecodeAction| #[trigger]
            call_ensures(VideoDecoder::opened, (d,), a) && d.wf() && d@.expects(DecoderStep::Opened)
                ==> final(d)@.reinit_failures == 0 && !final(d)@.confirmed && final(d)@.current
                == Some(d@.trial),
{
    assert forall|d: &mut VideoDecoder, stage: ReinitStage, why: &str, a: DecodeAction| #[trigger]
        call_ensures(VideoDecoder::reinit_failed, (d, stage, why), a) && d.wf() && d@.expects(
            DecoderStep::ReinitFailed(stage),
        ) && d@.reinit_failures >= 1 && a is Open implies a->Open_0.rank() > d@.current->0 by {
        let s = VideoDecoder::after_reinit_failure(d@, stage);
        let i = s.current->0;
        next_place_is_first(i + 1, given_up(s).failed, s.filter);
        let k = next_place(i + 1, given_up(s).failed, s.filter)->0;
        every_backend_is_tried_once(BACKEND_PRIORITY@[k], k);
    }
}

/// A packet goes to the backend in use, and where there is no picture yet the
/// next one is waited for. A backend that does not open is passed over for a
/// later one.
pub proof fn packets_go_to_the_backend()
    ensures
        forall|d: &mut VideoDecoder, a: DecodeAction| #[trigger]
            call_ensures(VideoDecoder::packet, (d,), a) && d.wf() && d@.expects(DecoderStep::Packet)
                ==> a == DecodeAction::Decode && final(d)@.current == d@.current
                && final(d)@.confirmed == d@.confirmed && final(d)@.size == d@.size,
        forall|d: &mut VideoDecoder, a: DecodeAction| #[trigger]
            call_ensures(VideoDecoder::no_frame, (d,), a) && d.wf() && d@.expects(
                DecoderStep::NoFrame,
            ) ==> a == DecodeAction::Wait && final(d)@.current == d@.current
                && final(d)@.confirmed == d@.confirmed && final(d)@.phase == DecoderPhase::Idle,
        forall|d: &mut VideoDecoder, a: DecodeAction| #[trigger]
            call_ensures(VideoDecoder::open_failed, (d,), a) && d.wf() && d@.expects(
                DecoderStep::OpenFailed,
            ) ==> {
                &&& a is Open || (a matches DecodeAction::Fail(DecoderError::InitFailed(_)))
                &&& a matches DecodeAction::Open(b) ==> b.rank() > d@.trial && !d@.failed.contains(
                    b,
                ) && (d@.filter matches Some(c) ==> b.wire_codec() == c)
                &&& final(d)@.current == d@.current
            },
{
    assert forall|d: &mut VideoDecoder, a: DecodeAction| #[trigger]
        call_ensures(VideoDecoder::open_failed, (d,), a) && d.wf() && d@.expects(
            DecoderStep::OpenFailed,
        ) implies (a matches DecodeAction::Open(b) ==> b.rank() > d@.trial && !d@.failed.contains(b)
        && (d@.filter matches Some(c) ==> b.wire_codec() == c)) by {
        next_place_is_first(d@.trial + 1, d@.failed, d@.filter);
        if let DecodeAction::Open(b) = a {
            let k = next_place(d@.trial + 1, d@.failed, d@.filter)->0;
            every_backend_is_tried_once(BACKEND_PRIORITY@[k], k);
        }
    }
}

/// A decoder for a codec starts with the best backend of that codec, and one
/// for any codec with the best of all.
pub proof fn the_best_backend_is_tried_first(codec: VideoCodec, r: (VideoDecoder, DecodeAction))
    requires
        call_ensures(VideoDecoder::for_codec, (codec,), r),
    ensures
        r.1 matches DecodeAction::Open(b) && b.wire_codec() == codec && (forall|
            other: DecoderBackend,
        | #[trigger]
            other.wire_codec() == codec ==> b.rank() <= other.rank()),
        forall|s: (VideoDecoder, DecodeAction)| #[trigger]
            call_ensures(VideoDecoder::new, (), s) ==> s.1 == DecodeAction::Open(
                DecoderBackend::NvidiaCuvid,
            ),
{
    a_search_starts_somewhere(Some(codec));
    next_place_is_first(0, Seq::empty(), Some(codec));
    let i = next_place(0, Seq::empty(), Some(codec))->0;
    let b = BACKEND_PRIORITY@[i];
    every_backend_is_tried_once(b, i);
    assert forall|other: DecoderBackend| #[trigger]
        other.wire_codec() == codec implies b.rank() <= other.rank() by {
        every_backend_is_tried_once(other, 0);
        if other.rank() < i {
            assert(eligible(BACKEND_PRIORITY@[other.rank()], Seq::empty(), Some(codec)));
        }
    }
    a_search_starts_somewhere(None);
    next_place_is_first(0, Seq::empty(), None);
    assert(eligible(BACKEND_PRIORITY@[0], Seq::empty(), None));
}

/// The next backend is the first from a place on that decodes the codec asked
/// for and has not failed.
pub proof fn the_next_backend_is_the_first_fit(
    start: usize,
    failed: &[DecoderBackend],
    filter: Option<VideoCodec>,
    r: Option<usize>,
)
    requires
        call_ensures(next_backend, (start, failed, filter), r),
    ensures
        r matches Some(i) ==> {
            &&& start <= i < 18
            &&& !failed@.contains(BACKEND_PRIORITY@[i as int])
            &&& filter matches Some(c) ==> BACKEND_PRIORITY@[i as int].wire_codec() == c
        },
        forall|k: int|
            #![trigger BACKEND_PRIORITY@[k]]
            start <= k < 18 && (r matches Some(i) ==> k < i) ==> failed@.contains(
                BACKEND_PRIORITY@[k],
            ) || (filter matches Some(c) && BACKEND_PRIORITY@[k].wire_codec() != c),
{
    next_place_is_first(start as int, failed@, filter);
    assert forall|k: int|
        #![trigger BACKEND_PRIORITY@[k]]
        start <= k < 18 && (r matches Some(i) ==> k < i) implies failed@.contains(
        BACKEND_PRIORITY@[k],
    ) || (filter matches Some(c) && BACKEND_PRIORITY@[k].wire_codec() != c) by {
        assert(!eligible(BACKEND_PRIORITY@[k], failed@, filter));
    }
}

/// Each backend decodes the codec that it is built for, hardware and software
/// alike.
pub proof fn backends_decode_their_codec(b: &DecoderBackend, c: VideoCodec)
    requires
        call_ensures(DecoderBackend::codec, (b,), c),
    ensures
        c == VideoCodec::Av1 <==> *b == DecoderBackend::IntelQsv || *b
            == DecoderBackend::NvidiaCuvid || *b == DecoderBackend::Dav1d,
        c == VideoCodec::Vp9 <==> *b == DecoderBackend::Vp9Vaapi || *b
            == DecoderBackend::Vp9V4l2m2m || *b == DecoderBackend::LibvpxVp9,
        c == VideoCodec::Vp8 <==> *b == DecoderBackend::Vp8V4l2m2m || *b == DecoderBackend::Libvpx,
        c == VideoCodec::H265 <==> *b == DecoderBackend::HevcQsv || *b == DecoderBackend::HevcCuvid
            || *b == DecoderBackend::HevcVaapi || *b == DecoderBackend::HevcV4l2m2m || *b
            == DecoderBackend::HevcSoftware,
{
}

/// The backend and codec that a decoder tells of are those in use.
pub proof fn decoders_tell_what_is_in_use(
    d: &VideoDecoder,
    b: Option<DecoderBackend>,
    c: Option<VideoCodec>,
)
    requires
        d.wf(),
        call_ensures(VideoDecoder::backend, (d,), b),
        call_ensures(VideoDecoder::codec, (d,), c),
    ensures
        b is Some <==> d@.current is Some,
        b matches Some(x) ==> x.rank() == d@.current->0 && c == Some(x.wire_codec()),
        b is None ==> c is None,
{
    if let Some(i) = d@.current {
        every_backend_is_tried_once(BACKEND_PRIORITY@[i], i);
    }
}

/// What a codec is called in the names of FFmpeg's codecs.
pub open spec fn ffmpeg_family(c: VideoCodec) -> Seq<char> {
    match c {
        VideoCodec::Av1 => "av1"@,
        VideoCodec::Vp9 => "vp9"@,
        VideoCodec::Vp8 => "vp8"@,
        VideoCodec::H265 => "hevc"@,
        VideoCodec::H264 => "h264"@,
    }
}

/// A decoder in hardware goes by its codec and by what it runs on, and what is
/// shown of it holds its name.
pub proof fn decoders_go_by_codec_and_maker(
    b: &DecoderBackend,
    name: &'static str,
    label: &'static str,
    c: VideoCodec,
)
    requires
        call_ensures(DecoderBackend::codec_name, (b,), name),
        call_ensures(DecoderBackend::display_name, (b,), label),
        call_ensures(DecoderBackend::codec, (b,), c),
    ensures
        text::holds(label@, name@),
        *b is IntelQsv || *b is HevcQsv || *b is H264Qsv ==> name@ == ffmpeg_family(c) + "_qsv"@,
        *b is NvidiaCuvid || *b is HevcCuvid || *b is H264Cuvid ==> name@ == ffmpeg_family(c) + "_cuvid"@,
        *b is Vp9Vaapi || *b is HevcVaapi || *b is H264Vaapi ==> name@ == ffmpeg_family(c) + "_vaapi"@,
        *b is Vp9V4l2m2m || *b is Vp8V4l2m2m || *b is HevcV4l2m2m || *b is H264V4l2m2m ==> name@ == ffmpeg_family(c) + "_v4l2m2m"@,
        *b is Dav1d ==> name@ == "libdav1d"@,
        *b is LibvpxVp9 ==> name@ == "libvpx-vp9"@,
        *b is Libvpx ==> name@ == "libvpx"@,
        *b is HevcSoftware ==> name@ == "hevc"@,
        *b is H264Software ==> name@ == "h264"@,
{
    reveal_strlit("");
    reveal_strlit(" (software)");
    reveal_strlit(" (vp8, software)");
    reveal_strlit(")");
    reveal_strlit(", software)");
    reveal_strlit("Intel QSV (");
    reveal_strlit("Intel QSV (av1_qsv)");
    reveal_strlit("Intel QSV (h264_qsv)");
    reveal_strlit("Intel QSV (hevc_qsv)");
    reveal_strlit("NVIDIA CUVID (");
    reveal_strlit("NVIDIA CUVID (av1_cuvid)");
    reveal_strlit("NVIDIA CUVID (h264_cuvid)");
    reveal_strlit("NVIDIA CUVID (hevc_cuvid)");
    reveal_strlit("VA-API (");
    reveal_strlit("VA-API (h264_vaapi)");
    reveal_strlit("VA-API (hevc_vaapi)");
    reveal_strlit("VA-API (vp9_vaapi)");
    reveal_strlit("_cuvid");
    reveal_strlit("_qsv");
    reveal_strlit("_v4l2m2m");
    reveal_strlit("_vaapi");
    reveal_strlit("av1");
    reveal_strlit("av1_cuvid");
    reveal_strlit("av1_qsv");
    reveal_strlit("dav1d (");
    reveal_strlit("dav1d (libdav1d, software)");
    reveal_strlit("h264");
    reveal_strlit("h264 (software)");
    reveal_strlit("h264_cuvid");
    reveal_strlit("h264_qsv");
    reveal_strlit("h264_v4l2m2m");
    reveal_strlit("h264_vaapi");
    reveal_strlit("hevc");
    reveal_strlit("hevc (software)");
    reveal_strlit("hevc_cuvid");
    reveal_strlit("hevc_qsv");
    reveal_strlit("hevc_v4l2m2m");
    reveal_strlit("hevc_vaapi");
    reveal_strlit("libdav1d");
    reveal_strlit("libvpx");
    reveal_strlit("libvpx (vp8, software)");
    reveal_strlit("libvpx-vp9");
    reveal_strlit("libvpx-vp9 (software)");
    reveal_strlit("v4l2m2m (");
    reveal_strlit("v4l2m2m (h264_v4l2m2m)");
    reveal_strlit("v4l2m2m (hevc_v4l2m2m)");
    reveal_strlit("v4l2m2m (vp8_v4l2m2m)");
    reveal_strlit("v4l2m2m (vp9_v4l2m2m)");
    reveal_strlit("vp8");
    reveal_strlit("vp8_v4l2m2m");
    reveal_strlit("vp9");
    reveal_strlit("vp9_v4l2m2m");
    reveal_strlit("vp9_vaapi");
    match *b {
        DecoderBackend::IntelQsv => {
            assert(label@ =~= "Intel QSV ("@ + name@ + ")"@);
            assert(name@ =~= "av1"@ + "_qsv"@);
        },
        DecoderBackend::NvidiaCuvid => {
            assert(label@ =~= "NVIDIA CUVID ("@ + name@ + ")"@);
            assert(name@ =~= "av1"@ + "_cuvid"@);
        },
        DecoderBackend::Dav1d => {
            assert(label@ =~= "dav1d ("@ + name@ + ", software)"@);
        },
        DecoderBackend::Vp9Vaapi => {
            assert(label@ =~= "VA-API ("@ + name@ + ")"@);
            assert(name@ =~= "vp9"@ + "_vaapi"@);
        },
        DecoderBackend::Vp9V4l2m2m => {
            assert(label@ =~= "v4l2m2m ("@ + name@ + ")"@);
            assert(name@ =~= "vp9"@ + "_v4l2m2m"@);
        },
        DecoderBackend::LibvpxVp9 => {
            assert(label@ =~= ""@ + name@ + " (software)"@);
        },
        DecoderBackend::Vp8V4l2m2m => {
            assert(label@ =~= "v4l2m2m ("@ + name@ + ")"@);
            assert(name@ =~= "vp8"@ + "_v4l2m2m"@);
        },
        DecoderBackend::Libvpx => {
            assert(label@ =~= ""@ + name@ + " (vp8, software)"@);
        },
        DecoderBackend::HevcQsv => {
            assert(label@ =~= "Intel QSV ("@ + name@ + ")"@);
            assert(name@ =~= "hevc"@ + "_qsv"@);
        },
        DecoderBackend::HevcCuvid => {
            assert(label@ =~= "NVIDIA CUVID ("@ + name@ + ")"@);
            assert(name@ =~= "hevc"@ + "_cuvid"@);
        },
        DecoderBackend::HevcVaapi => {
            assert(label@ =~= "VA-API ("@ + name@ + ")"@);
            assert(name@ =~= "hevc"@ + "_vaapi"@);
        },
        DecoderBackend::HevcV4l2m2m => {
            assert(label@ =~= "v4l2m2m ("@ + name@ + ")"@);
            assert(name@ =~= "hevc"@ + "_v4l2m2m"@);
        },
        DecoderBackend::HevcSoftware => {
            assert(label@ =~= ""@ + name@ + " (software)"@);
        },
        DecoderBackend::H264Qsv => {
            assert(label@ =~= "Intel QSV ("@ + name@ + ")"@);
            assert(name@ =~= "h264"@ + "_qsv"@);
        },
        DecoderBackend::H264Cuvid => {
            assert(label@ =~= "NVIDIA CUVID ("@ + name@ + ")"@);
            assert(name@ =~= "h264"@ + "_cuvid"@);
        },
        DecoderBackend::H264Vaapi => {
            assert(label@ =~= "VA-API ("@ + name@ + ")"@);
            assert(name@ =~= "h264"@ + "_vaapi"@);
        },
        DecoderBackend::H264V4l2m2m => {
            assert(label@ =~= "v4l2m2m ("@ + name@ + ")"@);
            assert(name@ =~= "h264"@ + "_v4l2m2m"@);
        },
        DecoderBackend::H264Software => {
            assert(label@ =~= ""@ + name@ + " (software)"@);
        },
    }
}

/// An error that has a reason says it at its end, and none is silent.
pub proof fn decoder_errors_say_why(e: &DecoderError, s: String)
    requires
        call_ensures(DecoderError::message, (e,), s),
    ensures
        e matches DecoderError::InitFailed(x) ==> text::has_suffix(s@, x@),
        e matches DecoderError::DecodeFailed(x) ==> text::has_suffix(s@, x@),
        s@.len() > 0,
{
    reveal_strlit("decoder init failed: ");
    reveal_strlit("decode failed: ");
    reveal_strlit("no frame available");
    match *e {
        DecoderError::InitFailed(x) => {
            assert(s@.skip(s@.len() - x@.len()) =~= x@);
        },
        DecoderError::DecodeFailed(x) => {
            assert(s@.skip(s@.len() - x@.len()) =~= x@);
        },
        _ => {},
    }
}

/// A decoder starts unproven: with nothing open, nothing failed and no picture,
/// and for any codec or for the one that was agreed on.
pub proof fn decoders_start_unproven(
    any: (VideoDecoder, DecodeAction),
    codec: VideoCodec,
    one: (VideoDecoder, DecodeAction),
)
    requires
        call_ensures(VideoDecoder::new, (), any),
        call_ensures(VideoDecoder::for_codec, (codec,), one),
    ensures
        any.1 is Open && one.1 is Open,
        any.0@.filter is None,
        one.0@.filter == Some(codec),
        !any.0@.confirmed && !one.0@.confirmed,
        any.0@.failed.len() == 0 && one.0@.failed.len() == 0,
        any.0@.reinit_failures == 0 && one.0@.reinit_failures == 0,
        any.0@.current is None && one.0@.current is None,
        any.0@.size == (0u32, 0u32) && one.0@.size == (0u32, 0u32),
        !any.0@.pending && !one.0@.pending,
{
}

} // verus!
