//! Video encoder backends: which exist, in what order they are tried for a
//! client, how each is tuned, and how frames go in and packets come out.
use vstd::prelude::*;
use crate::protocol::messages::VideoCodec;
use crate::text;

verus! {

/// Why encoding failed.
#[derive(Debug, Clone)]
pub enum EncoderError {
    NoEncoder,
    InitFailed(String),
    EncodeFailed(String),
}

impl EncoderError {
    /// What the error says.
    pub open spec fn text(self) -> Seq<char> {
        match self {
            EncoderError::NoEncoder => "no encoder available"@,
            EncoderError::InitFailed(e) => "encoder initialization failed: "@ + e@,
            EncoderError::EncodeFailed(e) => "encode failed: "@ + e@,
        }
    }

    /// Describes the error.
    pub fn message(&self) -> (s: String)
        ensures
            s@ == self.text(),
    {
        match self {
            EncoderError::NoEncoder => String::from_str("no encoder available"),
            EncoderError::InitFailed(e) => String::from_str(
                "encoder initialization failed: ",
            ).concat(e.as_str()),
            EncoderError::EncodeFailed(e) => String::from_str("encode failed: ").concat(e.as_str()),
        }
    }
}

/// Which video encoder is in use: AV1, VP9 and VP8 (open codecs) before H.265
/// and H.264.
#[derive(Debug, Clone, Copy, PartialEq, Eq, Structural)]
pub enum EncoderBackend {
    IntelQsv,
    NvidiaEnc,
    AmdAmf,
    AmdVaapi,
    SvtAv1,
    Vp9Vaapi,
    Vp9V4l2m2m,
    SvtVp9,
    Vp8V4l2m2m,
    Vp8Libvpx,
    H265Qsv,
    H265Nvenc,
    H265Amf,
    H265Vaapi,
    H265V4l2m2m,
    Libx265,
    H264Qsv,
    H264Nvenc,
    H264Amf,
    H264Vaapi,
    H264V4l2m2m,
    Libx264,
}

impl EncoderBackend {
    /// FFmpeg's name for this encoder.
    pub open spec fn ffmpeg_name(self) -> Seq<char> {
        match self {
            EncoderBackend::IntelQsv => "av1_qsv"@,
            EncoderBackend::NvidiaEnc => "av1_nvenc"@,
            EncoderBackend::AmdAmf => "av1_amf"@,
            EncoderBackend::AmdVaapi => "av1_vaapi"@,
            EncoderBackend::SvtAv1 => "libsvtav1"@,
            EncoderBackend::Vp9Vaapi => "vp9_vaapi"@,
            EncoderBackend::Vp9V4l2m2m => "vp9_v4l2m2m"@,
            EncoderBackend::SvtVp9 => "libvpx-vp9"@,
            EncoderBackend::Vp8V4l2m2m => "vp8_v4l2m2m"@,
            EncoderBackend::Vp8Libvpx => "libvpx"@,
            EncoderBackend::H265Qsv => "hevc_qsv"@,
            EncoderBackend::H265Nvenc => "hevc_nvenc"@,
            EncoderBackend::H265Amf => "hevc_amf"@,
            EncoderBackend::H265Vaapi => "hevc_vaapi"@,
            EncoderBackend::H265V4l2m2m => "hevc_v4l2m2m"@,
            EncoderBackend::Libx265 => "libx265"@,
            EncoderBackend::H264Qsv => "h264_qsv"@,
            EncoderBackend::H264Nvenc => "h264_nvenc"@,
            EncoderBackend::H264Amf => "h264_amf"@,
            EncoderBackend::H264Vaapi => "h264_vaapi"@,
            EncoderBackend::H264V4l2m2m => "h264_v4l2m2m"@,
            EncoderBackend::Libx264 => "libx264"@,
        }
    }

    /// FFmpeg's name for this encoder.
    pub fn codec_name(&self) -> (s: &'static str)
        ensures
            s@ == self.ffmpeg_name(),
    {
        match self {
            EncoderBackend::IntelQsv => "av1_qsv",
            EncoderBackend::NvidiaEnc => "av1_nvenc",
            EncoderBackend::AmdAmf => "av1_amf",
            EncoderBackend::AmdVaapi => "av1_vaapi",
            EncoderBackend::SvtAv1 => "libsvtav1",
            EncoderBackend::Vp9Vaapi => "vp9_vaapi",
            EncoderBackend::Vp9V4l2m2m => "vp9_v4l2m2m",
            EncoderBackend::SvtVp9 => "libvpx-vp9",
            EncoderBackend::Vp8V4l2m2m => "vp8_v4l2m2m",
            EncoderBackend::Vp8Libvpx => "libvpx",
            EncoderBackend::H265Qsv => "hevc_qsv",
            EncoderBackend::H265Nvenc => "hevc_nvenc",
            EncoderBackend::H265Amf => "hevc_amf",
            EncoderBackend::H265Vaapi => "hevc_vaapi",
            EncoderBackend::H265V4l2m2m => "hevc_v4l2m2m",
            EncoderBackend::Libx265 => "libx265",
            EncoderBackend::H264Qsv => "h264_qsv",
            EncoderBackend::H264Nvenc => "h264_nvenc",
            EncoderBackend::H264Amf => "h264_amf",
            EncoderBackend::H264Vaapi => "h264_vaapi",
            EncoderBackend::H264V4l2m2m => "h264_v4l2m2m",
            EncoderBackend::Libx264 => "libx264",
        }
    }

    /// The wire codec that this backend produces.
    pub open spec fn wire_codec(self) -> VideoCodec {
        match self {
            EncoderBackend::IntelQsv => VideoCodec::Av1,
            EncoderBackend::NvidiaEnc => VideoCodec::Av1,
            EncoderBackend::AmdAmf => VideoCodec::Av1,
            EncoderBackend::AmdVaapi => VideoCodec::Av1,
            EncoderBackend::SvtAv1 => VideoCodec::Av1,
            EncoderBackend::Vp9Vaapi => VideoCodec::Vp9,
            EncoderBackend::Vp9V4l2m2m => VideoCodec::Vp9,
            EncoderBackend::SvtVp9 => VideoCodec::Vp9,
            EncoderBackend::Vp8V4l2m2m => VideoCodec::Vp8,
            EncoderBackend::Vp8Libvpx => VideoCodec::Vp8,
            EncoderBackend::H265Qsv => VideoCodec::H265,
            EncoderBackend::H265Nvenc => VideoCodec::H265,
            EncoderBackend::H265Amf => VideoCodec::H265,
            EncoderBackend::H265Vaapi => VideoCodec::H265,
            EncoderBackend::H265V4l2m2m => VideoCodec::H265,
            EncoderBackend::Libx265 => VideoCodec::H265,
            EncoderBackend::H264Qsv => VideoCodec::H264,
            EncoderBackend::H264Nvenc => VideoCodec::H264,
            EncoderBackend::H264Amf => VideoCodec::H264,
            EncoderBackend::H264Vaapi => VideoCodec::H264,
            EncoderBackend::H264V4l2m2m => VideoCodec::H264,
            EncoderBackend::Libx264 => VideoCodec::H264,
        }
    }

    /// The wire codec that this backend produces.
    pub fn codec(&self) -> (c: VideoCodec)
        ensures
            c == self.wire_codec(),
    {
        match self {
            EncoderBackend::IntelQsv
            | EncoderBackend::NvidiaEnc
            | EncoderBackend::AmdAmf
            | EncoderBackend::AmdVaapi
            | EncoderBackend::SvtAv1 => VideoCodec::Av1,
            EncoderBackend::Vp9Vaapi
            | EncoderBackend::Vp9V4l2m2m
            | EncoderBackend::SvtVp9 => VideoCodec::Vp9,
            EncoderBackend::Vp8V4l2m2m
            | EncoderBackend::Vp8Libvpx => VideoCodec::Vp8,
            EncoderBackend::H265Qsv
            | EncoderBackend::H265Nvenc
            | EncoderBackend::H265Amf
            | EncoderBackend::H265Vaapi
            | EncoderBackend::H265V4l2m2m
            | EncoderBackend::Libx265 => VideoCodec::H265,
            EncoderBackend::H264Qsv
            | EncoderBackend::H264Nvenc
            | EncoderBackend::H264Amf
            | EncoderBackend::H264Vaapi
            | EncoderBackend::H264V4l2m2m
            | EncoderBackend::Libx264 => VideoCodec::H264,
        }
    }

    /// How logs name this backend.
    pub open spec fn label(self) -> Seq<char> {
        match self {
            EncoderBackend::IntelQsv => "Intel QSV (av1_qsv)"@,
            EncoderBackend::NvidiaEnc => "NVIDIA NVENC (av1_nvenc)"@,
            EncoderBackend::AmdAmf => "AMD AMF (av1_amf)"@,
            EncoderBackend::AmdVaapi => "VA-API (av1_vaapi)"@,
            EncoderBackend::SvtAv1 => "SVT-AV1 (libsvtav1, software)"@,
            EncoderBackend::Vp9Vaapi => "VA-API (vp9_vaapi)"@,
            EncoderBackend::Vp9V4l2m2m => "v4l2m2m (vp9_v4l2m2m)"@,
            EncoderBackend::SvtVp9 => "SVT-VP9 (libvpx-vp9, software)"@,
            EncoderBackend::Vp8V4l2m2m => "v4l2m2m (vp8_v4l2m2m)"@,
            EncoderBackend::Vp8Libvpx => "libvpx (vp8, software)"@,
            EncoderBackend::H265Qsv => "Intel QSV (hevc_qsv)"@,
            EncoderBackend::H265Nvenc => "NVIDIA NVENC (hevc_nvenc)"@,
            EncoderBackend::H265Amf => "AMD AMF (hevc_amf)"@,
            EncoderBackend::H265Vaapi => "VA-API (hevc_vaapi)"@,
            EncoderBackend::H265V4l2m2m => "v4l2m2m (hevc_v4l2m2m)"@,
            EncoderBackend::Libx265 => "libx265 (software)"@,
            EncoderBackend::H264Qsv => "Intel QSV (h264_qsv)"@,
            EncoderBackend::H264Nvenc => "NVIDIA NVENC (h264_nvenc)"@,
            EncoderBackend::H264Amf => "AMD AMF (h264_amf)"@,
            EncoderBackend::H264Vaapi => "VA-API (h264_vaapi)"@,
            EncoderBackend::H264V4l2m2m => "v4l2m2m (h264_v4l2m2m)"@,
            EncoderBackend::Libx264 => "libx264 (software)"@,
        }
    }

    /// How logs name this backend: who made it and FFmpeg's name for it.
    pub fn display_name(&self) -> (s: &'static str)
        ensures
            s@ == self.label(),
    {
        match self {
            EncoderBackend::IntelQsv => "Intel QSV (av1_qsv)",
            EncoderBackend::NvidiaEnc => "NVIDIA NVENC (av1_nvenc)",
            EncoderBackend::AmdAmf => "AMD AMF (av1_amf)",
            EncoderBackend::AmdVaapi => "VA-API (av1_vaapi)",
            EncoderBackend::SvtAv1 => "SVT-AV1 (libsvtav1, software)",
            EncoderBackend::Vp9Vaapi => "VA-API (vp9_vaapi)",
            EncoderBackend::Vp9V4l2m2m => "v4l2m2m (vp9_v4l2m2m)",
            EncoderBackend::SvtVp9 => "SVT-VP9 (libvpx-vp9, software)",
            EncoderBackend::Vp8V4l2m2m => "v4l2m2m (vp8_v4l2m2m)",
            EncoderBackend::Vp8Libvpx => "libvpx (vp8, software)",
            EncoderBackend::H265Qsv => "Intel QSV (hevc_qsv)",
            EncoderBackend::H265Nvenc => "NVIDIA NVENC (hevc_nvenc)",
            EncoderBackend::H265Amf => "AMD AMF (hevc_amf)",
            EncoderBackend::H265Vaapi => "VA-API (hevc_vaapi)",
            EncoderBackend::H265V4l2m2m => "v4l2m2m (hevc_v4l2m2m)",
            EncoderBackend::Libx265 => "libx265 (software)",
            EncoderBackend::H264Qsv => "Intel QSV (h264_qsv)",
            EncoderBackend::H264Nvenc => "NVIDIA NVENC (h264_nvenc)",
            EncoderBackend::H264Amf => "AMD AMF (h264_amf)",
            EncoderBackend::H264Vaapi => "VA-API (h264_vaapi)",
            EncoderBackend::H264V4l2m2m => "v4l2m2m (h264_v4l2m2m)",
            EncoderBackend::Libx264 => "libx264 (software)",
        }
    }

    /// Whether this backend runs on the CPU.
    pub open spec fn software(self) -> bool {
        ||| self == EncoderBackend::SvtAv1
        ||| self == EncoderBackend::SvtVp9
        ||| self == EncoderBackend::Vp8Libvpx
        ||| self == EncoderBackend::Libx265
        ||| self == EncoderBackend::Libx264
    }

    /// Where this backend stands in the priority order.
    pub open spec fn rank(self) -> int {
        match self {
            EncoderBackend::IntelQsv => 0,
            EncoderBackend::NvidiaEnc => 1,
            EncoderBackend::AmdAmf => 2,
            EncoderBackend::AmdVaapi => 3,
            EncoderBackend::SvtAv1 => 17,
            EncoderBackend::Vp9Vaapi => 4,
            EncoderBackend::Vp9V4l2m2m => 5,
            EncoderBackend::SvtVp9 => 18,
            EncoderBackend::Vp8V4l2m2m => 6,
            EncoderBackend::Vp8Libvpx => 19,
            EncoderBackend::H265Qsv => 7,
            EncoderBackend::H265Nvenc => 8,
            EncoderBackend::H265Amf => 9,
            EncoderBackend::H265Vaapi => 10,
            EncoderBackend::H265V4l2m2m => 11,
            EncoderBackend::Libx265 => 20,
            EncoderBackend::H264Qsv => 12,
            EncoderBackend::H264Nvenc => 13,
            EncoderBackend::H264Amf => 14,
            EncoderBackend::H264Vaapi => 15,
            EncoderBackend::H264V4l2m2m => 16,
            EncoderBackend::Libx264 => 21,
        }
    }
}

/// Encoders to try, best first. Hardware comes before software, since a
/// software encoder always opens and would win every probe; within each tier
/// open codecs come first.
pub const ENCODER_PRIORITY: [EncoderBackend; 22] = [
    EncoderBackend::IntelQsv,
    EncoderBackend::NvidiaEnc,
    EncoderBackend::AmdAmf,
    EncoderBackend::AmdVaapi,
    EncoderBackend::Vp9Vaapi,
    EncoderBackend::Vp9V4l2m2m,
    EncoderBackend::Vp8V4l2m2m,
    EncoderBackend::H265Qsv,
    EncoderBackend::H265Nvenc,
    EncoderBackend::H265Amf,
    EncoderBackend::H265Vaapi,
    EncoderBackend::H265V4l2m2m,
    EncoderBackend::H264Qsv,
    EncoderBackend::H264Nvenc,
    EncoderBackend::H264Amf,
    EncoderBackend::H264Vaapi,
    EncoderBackend::H264V4l2m2m,
    EncoderBackend::SvtAv1,
    EncoderBackend::SvtVp9,
    EncoderBackend::Vp8Libvpx,
    EncoderBackend::Libx265,
    EncoderBackend::Libx264,
];

/// Where a codec stands in the preference order.
pub open spec fn codec_rank(c: VideoCodec) -> int {
    match c {
        VideoCodec::Av1 => 0,
        VideoCodec::Vp9 => 1,
        VideoCodec::Vp8 => 2,
        VideoCodec::H265 => 3,
        VideoCodec::H264 => 4,
    }
}

/// Every backend stands in the priority list, at its rank and nowhere else.
pub proof fn every_backend_is_tried_once(b: EncoderBackend, i: int)
    requires
        0 <= i < ENCODER_PRIORITY@.len(),
    ensures
        0 <= b.rank() < ENCODER_PRIORITY@.len(),
        ENCODER_PRIORITY@[b.rank()] == b,
        ENCODER_PRIORITY@[i].rank() == i,
{
}

/// Hardware is tried before software, and within each tier codecs are tried in
/// preference order.
pub proof fn priority_is_by_tier_and_codec(a: EncoderBackend, b: EncoderBackend)
    ensures
        !a.software() && b.software() ==> a.rank() < b.rank(),
        a.software() == b.software() && codec_rank(a.wire_codec()) < codec_rank(b.wire_codec())
            ==> a.rank() < b.rank(),
{
}

/// Whether a client that advertised `allowed` can decode what a backend
/// produces. A client that advertised nothing is not restricted.
pub open spec fn permitted(b: EncoderBackend, allowed: Seq<VideoCodec>) -> bool {
    allowed.len() == 0 || allowed.contains(b.wire_codec())
}

/// The backends to try for a client, in order.
pub open spec fn candidate_list(allowed: Seq<VideoCodec>) -> Seq<EncoderBackend> {
    ENCODER_PRIORITY@.filter(|b: EncoderBackend| permitted(b, allowed))
}

fn allows(allowed: &[VideoCodec], c: VideoCodec) -> (r: bool)
    ensures
        r == allowed@.contains(c),
{
    let mut i: usize = 0;
    while i < allowed.len()
        invariant
            i <= allowed@.len(),
            forall|k: int| 0 <= k < i ==> allowed@[k] != c,
        decreases allowed@.len() - i,
    {
        if allowed[i] == c {
            assert(allowed@[i as int] == c);
            return true;
        }
        i = i + 1;
    }
    false
}

/// The backends to try, in order, for a client that advertised `allowed`. An
/// empty list is no restriction: older clients announce nothing.
pub fn candidates(allowed: &[VideoCodec]) -> (r: Vec<EncoderBackend>)
    ensures
        r@ == candidate_list(allowed@),
{
    let all = ENCODER_PRIORITY;
    let mut r: Vec<EncoderBackend> = Vec::new();
    let mut i: usize = 0;
    let ghost pred = |b: EncoderBackend| permitted(b, allowed@);
    proof {
        reveal(Seq::filter);
        assert(all@.take(0).filter(pred) == Seq::<EncoderBackend>::empty());
    }
    while i < all.len()
        invariant
            i <= all@.len(),
            all@ == ENCODER_PRIORITY@,
            pred == (|b: EncoderBackend| permitted(b, allowed@)),
            r@ == all@.take(i as int).filter(pred),
        decreases all@.len() - i,
    {
        let b = all[i];
        proof {
            reveal(Seq::filter);
            assert(all@.take(i + 1).drop_last() == all@.take(i as int));
            assert(all@.take(i + 1).last() == b);
        }
        if allowed.len() == 0 || allows(allowed, b.codec()) {
            r.push(b);
        }
        i = i + 1;
    }
    assert(all@.take(i as int) == all@);
    r
}

/// Negotiation never hands out an encoder that the client cannot decode, keeps
/// the priority order, and leaves no permitted encoder out.
pub proof fn candidates_are_the_permitted_backends_in_order(allowed: Seq<VideoCodec>)
    ensures
        forall|i: int|
            0 <= i < candidate_list(allowed).len() ==> permitted(
                #[trigger] candidate_list(allowed)[i],
                allowed,
            ),
        forall|b: EncoderBackend| permitted(b, allowed) ==> candidate_list(allowed).contains(b),
        forall|i: int, j: int|
            0 <= i < j < candidate_list(allowed).len() ==> (#[trigger] candidate_list(
                allowed,
            )[i]).rank() < (#[trigger] candidate_list(allowed)[j]).rank(),
{
    let pred = |b: EncoderBackend| permitted(b, allowed);
    let all = ENCODER_PRIORITY@;
    all.filter_lemma(pred);
    assert forall|b: EncoderBackend| permitted(b, allowed) implies candidate_list(allowed).contains(
        b,
    ) by {
        every_backend_is_tried_once(b, 0);
        assert(pred(all[b.rank()]));
    }
    assert forall|i: int|
        0 <= i < candidate_list(allowed).len() implies permitted(
        #[trigger] candidate_list(allowed)[i],
        allowed,
    ) by {
        assert(pred(all.filter(pred)[i]));
    }
    assert forall|k: int| 0 <= k < all.len() implies (#[trigger] all[k]).rank() == k by {
        every_backend_is_tried_once(all[k], k);
    }
    filtered_ranks_ascend(all, pred);
}

proof fn filtered_ranks_ascend(s: Seq<EncoderBackend>, pred: spec_fn(EncoderBackend) -> bool)
    requires
        forall|k: int| 0 <= k < s.len() ==> (#[trigger] s[k]).rank() == k,
    ensures
        forall|i: int, j: int|
            0 <= i < j < s.filter(pred).len() ==> (#[trigger] s.filter(pred)[i]).rank() < (
            #[trigger] s.filter(pred)[j]).rank(),
        forall|i: int|
            0 <= i < s.filter(pred).len() ==> (#[trigger] s.filter(pred)[i]).rank() < s.len(),
    decreases s.len(),
{
    reveal(Seq::filter);
    if s.len() > 0 {
        let t = s.drop_last();
        assert forall|k: int| 0 <= k < t.len() implies (#[trigger] t[k]).rank() == k by {
            assert(t[k] == s[k]);
        }
        filtered_ranks_ascend(t, pred);
        let f = t.filter(pred);
        assert forall|i: int, j: int| 0 <= i < j < s.filter(pred).len() implies (
        #[trigger] s.filter(pred)[i]).rank() < (#[trigger] s.filter(pred)[j]).rank() by {
            assert(s.filter(pred)[i] == f[i]);
            if j < f.len() {
                assert(s.filter(pred)[j] == f[j]);
            } else {
                assert(s.filter(pred)[j] == s.last());
            }
        }
        assert forall|i: int| 0 <= i < s.filter(pred).len() implies (#[trigger] s.filter(
            pred,
        )[i]).rank() < s.len() by {
            if i < f.len() {
                assert(s.filter(pred)[i] == f[i]);
            }
        }
    }
}

/// A client that advertised one codec gets that codec's hardware and then its
/// software encoder: there is always something to fall back to.
pub proof fn each_codec_has_hardware_and_software(c: VideoCodec)
    ensures
        exists|hw: EncoderBackend, sw: EncoderBackend|
            {
                &&& #[trigger] candidate_list(seq![c]).contains(hw)
                &&& #[trigger] candidate_list(seq![c]).contains(sw)
                &&& !hw.software()
                &&& sw.software()
                &&& hw.rank() < sw.rank()
            },
{
    candidates_are_the_permitted_backends_in_order(seq![c]);
    let (hw, sw) = match c {
        VideoCodec::Av1 => (EncoderBackend::IntelQsv, EncoderBackend::SvtAv1),
        VideoCodec::Vp9 => (EncoderBackend::Vp9Vaapi, EncoderBackend::SvtVp9),
        VideoCodec::Vp8 => (EncoderBackend::Vp8V4l2m2m, EncoderBackend::Vp8Libvpx),
        VideoCodec::H265 => (EncoderBackend::H265Qsv, EncoderBackend::Libx265),
        VideoCodec::H264 => (EncoderBackend::H264Qsv, EncoderBackend::Libx264),
    };
    assert(seq![c][0] == c);
    assert(permitted(hw, seq![c]) && permitted(sw, seq![c]));
}

/// The search for an encoder that opens: the candidates, and how many of them
/// have failed.
pub struct EncoderProbe {
    candidates: Vec<EncoderBackend>,
    failed: usize,
}

impl EncoderProbe {
    /// The candidates of this search.
    pub closed spec fn list(self) -> Seq<EncoderBackend> {
        self.candidates@
    }

    /// How many candidates have failed.
    pub closed spec fn tried(self) -> int {
        self.failed as int
    }

    /// Starts a search for a client that advertised `allowed`.
    pub fn new(allowed: &[VideoCodec]) -> (p: EncoderProbe)
        ensures
            p.list() == candidate_list(allowed@),
            p.tried() == 0,
    {
        EncoderProbe { candidates: candidates(allowed), failed: 0 }
    }

    /// The backend to open now, or the error of a search that has run out.
    pub fn current(&self) -> (r: Result<EncoderBackend, EncoderError>)
        ensures
            self.tried() < self.list().len() ==> r == Ok::<EncoderBackend, EncoderError>(
                self.list()[self.tried()],
            ),
            self.tried() >= self.list().len() ==> r matches Err(EncoderError::NoEncoder),
    {
        if self.failed < self.candidates.len() {
            Ok(self.candidates[self.failed])
        } else {
            Err(EncoderError::NoEncoder)
        }
    }

    /// Records that the current backend did not open.
    pub fn reject(&mut self)
        requires
            old(self).tried() < old(self).list().len(),
        ensures
            final(self).list() == old(self).list(),
            final(self).tried() == old(self).tried() + 1,
    {
        let n: usize = self.candidates.len();
        assert(self.failed < n);
        self.failed = self.failed + 1;
    }
}

/// What a session asks of its encoder.
#[derive(Debug, Clone)]
pub struct EncoderConfig {
    pub width: u32,
    pub height: u32,
    pub fps: u32,
    pub bitrate_kbps: u32,
    pub keyframe_interval: u32,
    /// Overrides the preset; otherwise the backend has its own.
    pub preset: Option<String>,
    /// Overrides the constant rate factor of software encoders.
    pub crf: Option<u8>,
    /// More SVT-AV1 parameters, `key=value:key=value`.
    pub extra_svt_params: Option<String>,
}

impl Default for EncoderConfig {
    fn default() -> (c: Self)
        ensures
            c == (EncoderConfig {
                width: 1920,
                height: 1080,
                fps: 30,
                bitrate_kbps: 5000,
                keyframe_interval: 60,
                preset: None,
                crf: None,
                extra_svt_params: None,
            }),
    {
        EncoderConfig {
            width: 1920,
            height: 1080,
            fps: 30,
            bitrate_kbps: 5000,
            keyframe_interval: 60,
            preset: None,
            crf: None,
            extra_svt_params: None,
        }
    }
}

/// The pixel format that an encoder is fed.
#[derive(Debug, Clone, Copy, PartialEq, Eq, Structural)]
pub enum PixelFormat {
    Nv12,
    Yuv420p,
}

/// Which pixel format a backend is fed: NV12 for the hardware encoders and
/// planar YUV for the software ones.
pub open spec fn input_format(b: EncoderBackend) -> PixelFormat {
    if b.software() {
        PixelFormat::Yuv420p
    } else {
        PixelFormat::Nv12
    }
}

/// How to open an encoder.
#[derive(Debug, Clone)]
pub struct EncoderPlan {
    pub codec_name: &'static str,
    pub pixel_format: PixelFormat,
    pub width: u32,
    pub height: u32,
    /// Frames per second: the denominator of the time base.
    pub fps: u32,
    /// Frames between keyframes.
    pub gop: u32,
    /// Bits per second, where the rate is set at all.
    pub bit_rate: Option<u64>,
    /// The limit on B-frames, where one is set.
    pub max_b_frames: Option<u32>,
    /// FFmpeg options, in the order they are set.
    pub options: Vec<(String, String)>,
}

/// The options of a plan as texts.
pub open spec fn option_texts(v: Seq<(String, String)>) -> Seq<(Seq<char>, Seq<char>)> {
    v.map_values(|o: (String, String)| (o.0@, o.1@))
}

/// The preset of a configuration, or the backend's own.
pub open spec fn preset_or(c: EncoderConfig, own: Seq<char>) -> Seq<char> {
    match c.preset {
        Some(p) => p@,
        None => own,
    }
}

/// The constant rate factor of a configuration, or the backend's own.
pub open spec fn crf_or(c: EncoderConfig, own: Seq<char>) -> Seq<char> {
    match c.crf {
        Some(n) => text::decimal(n as nat),
        None => own,
    }
}

/// SVT-AV1's own parameters: low delay, and then whatever was asked for.
pub open spec fn svt_params(c: EncoderConfig) -> Seq<char> {
    match c.extra_svt_params {
        Some(e) => if e@.len() == 0 {
            "pred-struct=1"@
        } else {
            "pred-struct=1"@ + ":"@ + e@
        },
        None => "pred-struct=1"@,
    }
}

/// The families that backends are tuned by.
#[derive(Debug, Clone, Copy, PartialEq, Eq, Structural)]
pub enum Tuning {
    SvtAv1,
    SvtVp9,
    /// Intel QSV for AV1, which also has low-delay rate control.
    QsvAv1,
    Qsv,
    Nvenc,
    /// Preset only where one was asked for.
    PresetOnly,
    X26x,
    BitRateOnly,
}

/// The family that a backend is tuned by.
pub open spec fn tuning(b: EncoderBackend) -> Tuning {
    match b {
        EncoderBackend::SvtAv1 => Tuning::SvtAv1,
        EncoderBackend::SvtVp9 => Tuning::SvtVp9,
        EncoderBackend::IntelQsv => Tuning::QsvAv1,
        EncoderBackend::H265Qsv => Tuning::Qsv,
        EncoderBackend::H264Qsv => Tuning::Qsv,
        EncoderBackend::NvidiaEnc => Tuning::Nvenc,
        EncoderBackend::H265Nvenc => Tuning::Nvenc,
        EncoderBackend::H264Nvenc => Tuning::Nvenc,
        EncoderBackend::AmdAmf => Tuning::PresetOnly,
        EncoderBackend::AmdVaapi => Tuning::PresetOnly,
        EncoderBackend::H265Amf => Tuning::PresetOnly,
        EncoderBackend::H265Vaapi => Tuning::PresetOnly,
        EncoderBackend::H265V4l2m2m => Tuning::PresetOnly,
        EncoderBackend::H264Amf => Tuning::PresetOnly,
        EncoderBackend::H264Vaapi => Tuning::PresetOnly,
        EncoderBackend::H264V4l2m2m => Tuning::PresetOnly,
        EncoderBackend::Libx265 => Tuning::X26x,
        EncoderBackend::Libx264 => Tuning::X26x,
        EncoderBackend::Vp9Vaapi => Tuning::BitRateOnly,
        EncoderBackend::Vp9V4l2m2m => Tuning::BitRateOnly,
        EncoderBackend::Vp8V4l2m2m => Tuning::BitRateOnly,
        EncoderBackend::Vp8Libvpx => Tuning::BitRateOnly,
    }
}

/// The FFmpeg options of a backend under a configuration.
pub open spec fn planned_options(b: EncoderBackend, c: EncoderConfig) -> Seq<
    (Seq<char>, Seq<char>),
> {
    match tuning(b) {
        Tuning::SvtAv1 => seq![
            ("preset"@, preset_or(c, "10"@)),
            ("crf"@, crf_or(c, "35"@)),
            ("svtav1-params"@, svt_params(c)),
        ],
        Tuning::SvtVp9 => seq![("preset"@, preset_or(c, "8"@)), ("crf"@, crf_or(c, "35"@))],
        Tuning::QsvAv1 => seq![
            ("preset"@, preset_or(c, "veryfast"@)),
            ("look_ahead"@, "0"@),
            ("async_depth"@, "1"@),
            ("low_delay_brc"@, "1"@),
        ],
        Tuning::Qsv => seq![
            ("preset"@, preset_or(c, "veryfast"@)),
            ("look_ahead"@, "0"@),
            ("async_depth"@, "1"@),
        ],
        Tuning::Nvenc => seq![
            ("preset"@, preset_or(c, "p1"@)),
            ("tune"@, "ull"@),
            ("rc"@, "cbr"@),
        ],
        Tuning::PresetOnly => match c.preset {
            Some(p) => seq![("preset"@, p@)],
            None => Seq::empty(),
        },
        Tuning::X26x => seq![("preset"@, preset_or(c, "fast"@)), ("crf"@, crf_or(c, "23"@))],
        Tuning::BitRateOnly => Seq::empty(),
    }
}

/// The SVT encoders are steered by their rate factor; all others by bit rate.
pub open spec fn planned_bit_rate(b: EncoderBackend, c: EncoderConfig) -> Option<u64> {
    if tuning(b) == Tuning::SvtAv1 || tuning(b) == Tuning::SvtVp9 {
        None
    } else {
        Some((c.bitrate_kbps * 1000) as u64)
    }
}

/// The low-delay families do without B-frames.
pub open spec fn planned_b_frames(b: EncoderBackend) -> Option<u32> {
    if tuning(b) == Tuning::SvtAv1 || tuning(b) == Tuning::SvtVp9 || tuning(b) == Tuning::QsvAv1
        || tuning(b) == Tuning::Qsv {
        Some(0)
    } else {
        None
    }
}

fn family(b: EncoderBackend) -> (t: Tuning)
    ensures
        t == tuning(b),
{
    match b {
        EncoderBackend::SvtAv1 => Tuning::SvtAv1,
        EncoderBackend::SvtVp9 => Tuning::SvtVp9,
        EncoderBackend::IntelQsv => Tuning::QsvAv1,
        EncoderBackend::H265Qsv | EncoderBackend::H264Qsv => Tuning::Qsv,
        EncoderBackend::NvidiaEnc | EncoderBackend::H265Nvenc | EncoderBackend::H264Nvenc => Tuning::Nvenc,
        EncoderBackend::AmdAmf
        | EncoderBackend::AmdVaapi
        | EncoderBackend::H265Amf
        | EncoderBackend::H265Vaapi
        | EncoderBackend::H265V4l2m2m
        | EncoderBackend::H264Amf
        | EncoderBackend::H264Vaapi
        | EncoderBackend::H264V4l2m2m => Tuning::PresetOnly,
        EncoderBackend::Libx265 | EncoderBackend::Libx264 => Tuning::X26x,
        EncoderBackend::Vp9Vaapi
        | EncoderBackend::Vp9V4l2m2m
        | EncoderBackend::Vp8V4l2m2m
        | EncoderBackend::Vp8Libvpx => Tuning::BitRateOnly,
    }
}

fn pixel_format(b: EncoderBackend) -> (f: PixelFormat)
    ensures
        f == input_format(b),
{
    match b {
        EncoderBackend::SvtAv1
        | EncoderBackend::SvtVp9
        | EncoderBackend::Vp8Libvpx
        | EncoderBackend::Libx265
        | EncoderBackend::Libx264 => PixelFormat::Yuv420p,
        _ => PixelFormat::Nv12,
    }
}

fn push_option(out: &mut Vec<(String, String)>, key: &str, value: &str)
    ensures
        option_texts(final(out)@) == option_texts(old(out)@).push((key@, value@)),
{
    out.push((String::from_str(key), String::from_str(value)));
    assert(option_texts(out@) == option_texts(old(out)@).push((key@, value@)));
}

fn push_preset(out: &mut Vec<(String, String)>, c: &EncoderConfig, own: &str)
    ensures
        option_texts(final(out)@) == option_texts(old(out)@).push(("preset"@, preset_or(*c, own@))),
{
    match &c.preset {
        Some(p) => push_option(out, "preset", p.as_str()),
        None => push_option(out, "preset", own),
    }
}

fn push_crf(out: &mut Vec<(String, String)>, c: &EncoderConfig, own: &str)
    ensures
        option_texts(final(out)@) == option_texts(old(out)@).push(("crf"@, crf_or(*c, own@))),
{
    match c.crf {
        Some(n) => {
            let digits = text::text_of(&text::decimal_chars(n as u64));
            push_option(out, "crf", digits.as_str());
        },
        None => push_option(out, "crf", own),
    }
}

fn svt_parameters(c: &EncoderConfig) -> (s: String)
    ensures
        s@ == svt_params(*c),
{
    let base = String::from_str("pred-struct=1");
    match &c.extra_svt_params {
        Some(extra) => {
            if extra.as_str().is_empty() {
                base
            } else {
                base.concat(":").concat(extra.as_str())
            }
        },
        None => base,
    }
}

fn options_for(b: EncoderBackend, c: &EncoderConfig) -> (out: Vec<(String, String)>)
    ensures
        option_texts(out@) == planned_options(b, *c),
{
    let mut out: Vec<(String, String)> = Vec::new();
    assert(option_texts(out@) == Seq::<(Seq<char>, Seq<char>)>::empty());
    match family(b) {
        Tuning::SvtAv1 => {
            push_preset(&mut out, c, "10");
            push_crf(&mut out, c, "35");
            push_option(&mut out, "svtav1-params", svt_parameters(c).as_str());
        },
        Tuning::SvtVp9 => {
            push_preset(&mut out, c, "8");
            push_crf(&mut out, c, "35");
        },
        Tuning::QsvAv1 => {
            push_preset(&mut out, c, "veryfast");
            push_option(&mut out, "look_ahead", "0");
            push_option(&mut out, "async_depth", "1");
            push_option(&mut out, "low_delay_brc", "1");
        },
        Tuning::Qsv => {
            push_preset(&mut out, c, "veryfast");
            push_option(&mut out, "look_ahead", "0");
            push_option(&mut out, "async_depth", "1");
        },
        Tuning::Nvenc => {
            push_preset(&mut out, c, "p1");
            push_option(&mut out, "tune", "ull");
            push_option(&mut out, "rc", "cbr");
        },
        Tuning::PresetOnly => {
            if let Some(p) = &c.preset {
                push_option(&mut out, "preset", p.as_str());
            }
        },
        Tuning::X26x => {
            push_preset(&mut out, c, "fast");
            push_crf(&mut out, c, "23");
        },
        Tuning::BitRateOnly => {},
    }
    assert(option_texts(out@) == planned_options(b, *c));
    out
}

impl EncoderPlan {
    /// Plans how to open a backend: pixel format, size, rate, and the options
    /// that tune it for low delay.
    pub fn new(backend: EncoderBackend, config: &EncoderConfig) -> (p: EncoderPlan)
        ensures
            p.codec_name@ == backend.ffmpeg_name(),
            p.pixel_format == input_format(backend),
            p.width == config.width,
            p.height == config.height,
            p.fps == config.fps,
            p.gop == config.keyframe_interval,
            p.bit_rate == planned_bit_rate(backend, *config),
            p.max_b_frames == planned_b_frames(backend),
            option_texts(p.options@) == planned_options(backend, *config),
    {
        let family = family(backend);
        let bit_rate: Option<u64> = if family == Tuning::SvtAv1 || family == Tuning::SvtVp9 {
            None
        } else {
            Some(config.bitrate_kbps as u64 * 1000)
        };
        let max_b_frames: Option<u32> = if family == Tuning::SvtAv1 || family == Tuning::SvtVp9
            || family == Tuning::QsvAv1 || family == Tuning::Qsv {
            Some(0)
        } else {
            None
        };
        EncoderPlan {
            codec_name: backend.codec_name(),
            pixel_format: pixel_format(backend),
            width: config.width,
            height: config.height,
            fps: config.fps,
            gop: config.keyframe_interval,
            bit_rate,
            max_b_frames,
            options: options_for(backend, config),
        }
    }
}

/// One encoded frame.
#[derive(Debug, Clone)]
pub struct EncodedFrame {
    pub data: Vec<u8>,
    pub keyframe: bool,
    pub timestamp_us: u64,
}

/// The text of the error for a frame of the wrong size.
pub open spec fn size_error(expected: nat, got: nat) -> Seq<char> {
    "expected "@ + text::decimal(expected) + " bytes, got "@ + text::decimal(got)
}

/// Checks that an RGBA frame has four bytes for each pixel.
pub fn check_frame_size(width: u32, height: u32, len: usize) -> (r: Result<(), EncoderError>)
    requires
        width * height * 4 <= u32::MAX,
    ensures
        r is Ok <==> len == width * height * 4,
        r is Err ==> (r matches Err(EncoderError::EncodeFailed(e)) && e@ == size_error(
            (width * height * 4) as nat,
            len as nat,
        )),
{
    assert(width * height <= u32::MAX) by (nonlinear_arith)
        requires
            width * height * 4 <= u32::MAX,
            width >= 0,
            height >= 0,
    ;
    let expected: u32 = width * height * 4;
    if len == expected as usize {
        Ok(())
    } else {
        let mut out = text::chars_of("expected ");
        let mut digits = text::decimal_chars(expected as u64);
        out.append(&mut digits);
        text::push_str(&mut out, " bytes, got ");
        let mut digits = text::decimal_chars(len as u64);
        out.append(&mut digits);
        Err(EncoderError::EncodeFailed(text::text_of(&out)))
    }
}

/// A picture plane after the first `n` of some tightly packed rows were copied
/// into it: row `i` stands at `i * stride`, a later row over an earlier one
/// where they meet, and the padding keeps what it held.
pub open spec fn plane_with_rows(
    plane: Seq<u8>,
    stride: int,
    rows: Seq<u8>,
    row_len: int,
    n: int,
) -> Seq<u8>
    decreases n,
{
    if n <= 0 {
        plane
    } else {
        let before = plane_with_rows(plane, stride, rows, row_len, n - 1);
        let start = (n - 1) * stride;
        Seq::new(
            plane.len(),
            |i: int|
                if start <= i < start + row_len {
                    rows[(n - 1) * row_len + i - start]
                } else {
                    before[i]
                },
        )
    }
}

/// Copies `height` tightly packed rows of `row_len` bytes into a plane whose
/// rows are `stride` bytes apart.
pub fn copy_rows(rows: &[u8], row_len: usize, height: usize, plane: &mut [u8], stride: usize)
    requires
        row_len * height <= rows@.len(),
        height > 0 ==> (height - 1) * stride + row_len <= old(plane)@.len(),
    ensures
        final(plane)@ == plane_with_rows(
            old(plane)@,
            stride as int,
            rows@,
            row_len as int,
            height as int,
        ),
{
    let ghost before = plane@;
    let ghost st = stride as int;
    let ghost rl = row_len as int;
    let mut row: usize = 0;
    let plane_len: usize = plane.len();
    let rows_len: usize = rows.len();
    while row < height
        invariant
            row <= height,
            st == stride,
            rl == row_len,
            rl * height <= rows@.len(),
            rows_len == rows@.len(),
            height > 0 ==> (height - 1) * st + rl <= before.len(),
            plane_len == before.len(),
            plane@.len() == before.len(),
            plane@ == plane_with_rows(before, st, rows@, rl, row as int),
        decreases height - row,
    {
        proof {
            assert(0 <= row * st <= (height - 1) * st) by (nonlinear_arith)
                requires
                    0 <= row <= height - 1,
                    st >= 0,
            ;
            assert(0 <= row * rl && row * rl + rl <= rl * height) by (nonlinear_arith)
                requires
                    0 <= row,
                    row + 1 <= height,
                    rl >= 0,
            ;
        }
        let src_start: usize = row * row_len;
        let dst_start: usize = row * stride;
        let mut col: usize = 0;
        let ghost old_rows = plane@;
        while col < row_len
            invariant
                col <= row_len,
                rl == row_len,
                src_start + rl <= rows@.len(),
                dst_start + rl <= before.len(),
                rows_len == rows@.len(),
                plane_len == before.len(),
                plane@.len() == before.len(),
                old_rows.len() == before.len(),
                forall|i: int|
                    0 <= i < before.len() ==> #[trigger] plane@[i] == (if dst_start <= i < dst_start
                        + col {
                        rows@[src_start + (i - dst_start)]
                    } else {
                        old_rows[i]
                    }),
            decreases row_len - col,
        {
            plane[dst_start + col] = rows[src_start + col];
            col = col + 1;
        }
        assert(plane@ == plane_with_rows(before, st, rows@, rl, row + 1));
        row = row + 1;
    }
}

/// Rows that do not overlap stand in the plane as they were, and nothing else
/// in it has changed.
pub proof fn rows_stand_apart(
    plane: Seq<u8>,
    stride: int,
    rows: Seq<u8>,
    row_len: int,
    n: int,
    row: int,
    col: int,
)
    requires
        0 <= row_len <= stride,
        0 <= row,
        0 <= col < stride,
        row * stride + col < plane.len(),
    ensures
        plane_with_rows(plane, stride, rows, row_len, n)[row * stride + col] == (if row < n && col
            < row_len {
            rows[row * row_len + col]
        } else {
            plane[row * stride + col]
        }),
    decreases n,
{
    if n > 0 {
        rows_stand_apart(plane, stride, rows, row_len, n - 1, row, col);
        let i = row * stride + col;
        let start = (n - 1) * stride;
        assert(0 <= row * stride) by (nonlinear_arith)
            requires
                0 <= row,
                0 <= stride,
        ;
        if row < n - 1 {
            assert(i < start) by (nonlinear_arith)
                requires
                    i == row * stride + col,
                    start == (n - 1) * stride,
                    row + 1 <= n - 1,
                    0 <= col < stride,
            ;
        } else if row > n - 1 {
            assert(i >= start + stride) by (nonlinear_arith)
                requires
                    i == row * stride + col,
                    start == (n - 1) * stride,
                    row >= n,
                    0 <= col,
                    0 <= stride,
            ;
        }
    }
}

/// What asking an encoder for a packet gave.
#[derive(Debug, Clone)]
pub enum PacketEvent {
    /// A packet, possibly empty.
    Packet { data: Vec<u8>, keyframe: bool },
    /// Nothing until another frame goes in.
    Again,
    /// The encoder is drained.
    Eof,
    /// The encoder failed.
    Failed(String),
}

/// Takes the answer to one request for a packet while a frame is being
/// encoded. Packets that hold something are kept, under the frame's time;
/// `true` asks for another one.
pub fn drain_step(results: &mut Vec<EncodedFrame>, event: PacketEvent, timestamp_us: u64) -> (r:
    Result<bool, EncoderError>)
    ensures
        match event {
            PacketEvent::Packet { data, keyframe } => {
                &&& r == Ok::<bool, EncoderError>(true)
                &&& final(results)@ == (if data@.len() == 0 {
                    old(results)@
                } else {
                    old(results)@.push(EncodedFrame { data, keyframe, timestamp_us })
                })
            },
            PacketEvent::Again => r == Ok::<bool, EncoderError>(false) && final(results)@ == old(
                results,
            )@,
            PacketEvent::Eof => {
                &&& r matches Err(EncoderError::EncodeFailed(e)) && e@ == "receive packet: End of file"@
                &&& final(results)@ == old(results)@
            },
            PacketEvent::Failed(why) => {
                &&& r matches Err(EncoderError::EncodeFailed(e)) && e@ == "receive packet: "@ + why@
                &&& final(results)@ == old(results)@
            },
        },
{
    match event {
        PacketEvent::Packet { data, keyframe } => {
            if data.len() > 0 {
                results.push(EncodedFrame { data, keyframe, timestamp_us });
            }
            Ok(true)
        },
        PacketEvent::Again => Ok(false),
        PacketEvent::Eof => Err(
            EncoderError::EncodeFailed(String::from_str("receive packet: End of file")),
        ),
        PacketEvent::Failed(why) => Err(
            EncoderError::EncodeFailed(String::from_str("receive packet: ").concat(why.as_str())),
        ),
    }
}

/// What to do next while an encoder is flushed.
#[derive(Debug, Clone, Copy, PartialEq, Eq, Structural)]
pub enum FlushStep {
    /// Ask for another packet.
    More,
    /// Ask again after a short pause.
    Wait,
    /// The flush is over.
    Stop,
}

/// Takes the answer to one request for a packet during a flush. An encoder
/// that has nothing yet is waited for until the deadline; one that fails ends
/// the flush with what there is.
pub fn flush_step(frames: &mut Vec<EncodedFrame>, event: PacketEvent, past_deadline: bool) -> (next:
    FlushStep)
    ensures
        match event {
            PacketEvent::Packet { data, keyframe } => {
                &&& next == FlushStep::More
                &&& final(frames)@ == (if data@.len() == 0 {
                    old(frames)@
                } else {
                    old(frames)@.push(EncodedFrame { data, keyframe, timestamp_us: 0 })
                })
            },
            PacketEvent::Again => {
                &&& next == (if past_deadline {
                    FlushStep::Stop
                } else {
                    FlushStep::Wait
                })
                &&& final(frames)@ == old(frames)@
            },
            PacketEvent::Eof => next == FlushStep::Stop && final(frames)@ == old(frames)@,
            PacketEvent::Failed(_) => next == FlushStep::Stop && final(frames)@ == old(frames)@,
        },
{
    match event {
        PacketEvent::Packet { data, keyframe } => {
            if data.len() > 0 {
                frames.push(EncodedFrame { data, keyframe, timestamp_us: 0 });
            }
            FlushStep::More
        },
        PacketEvent::Again => {
            if past_deadline {
                FlushStep::Stop
            } else {
                FlushStep::Wait
            }
        },
        PacketEvent::Eof => FlushStep::Stop,
        PacketEvent::Failed(_) => FlushStep::Stop,
    }
}

/// An encoder is opened as it was configured: at its size, rate and keyframe
/// interval, and at its bit rate where the rate is not left to the quality.
/// Hardware is fed NV12, software planar YUV.
pub proof fn plans_keep_the_configuration(
    b: EncoderBackend,
    config: &EncoderConfig,
    p: EncoderPlan,
)
    requires
        call_ensures(EncoderPlan::new, (b, config), p),
    ensures
        p.width == config.width && p.height == config.height,
        p.fps == config.fps && p.gop == config.keyframe_interval,
        p.codec_name@ == b.ffmpeg_name(),
        p.bit_rate matches Some(r) ==> r == config.bitrate_kbps * 1000,
        p.bit_rate is None <==> b == EncoderBackend::SvtAv1 || b == EncoderBackend::SvtVp9,
        p.pixel_format == PixelFormat::Yuv420p <==> b == EncoderBackend::SvtAv1 || b
            == EncoderBackend::SvtVp9 || b == EncoderBackend::Vp8Libvpx || b
            == EncoderBackend::Libx265 || b == EncoderBackend::Libx264,
        p.max_b_frames matches Some(n) ==> n == 0,
        b == EncoderBackend::SvtAv1 || b == EncoderBackend::SvtVp9 || b == EncoderBackend::IntelQsv
            || b == EncoderBackend::H265Qsv || b == EncoderBackend::H264Qsv ==> p.max_b_frames
            == Some(0u32),
{
}

/// A preset that the user chose is the one in effect, for every encoder that
/// has presets.
pub proof fn chosen_presets_are_used(
    b: EncoderBackend,
    config: &EncoderConfig,
    preset: String,
    p: EncoderPlan,
)
    requires
        call_ensures(EncoderPlan::new, (b, config), p),
        config.preset == Some(preset),
        b != EncoderBackend::Vp9Vaapi,
        b != EncoderBackend::Vp9V4l2m2m,
        b != EncoderBackend::Vp8V4l2m2m,
        b != EncoderBackend::Vp8Libvpx,
    ensures
        p.options@.len() > 0,
        p.options@[0].0@ == "preset"@,
        p.options@[0].1@ == preset@,
{
    let o = option_texts(p.options@);
    assert(o.len() == p.options@.len());
    assert(o[0] == ("preset"@, preset@));
    assert(o[0] == (p.options@[0].0@, p.options@[0].1@));
}

/// A quality that the user chose is the one in effect, for every encoder that
/// goes by quality.
pub proof fn chosen_qualities_are_used(
    b: EncoderBackend,
    config: &EncoderConfig,
    crf: u8,
    p: EncoderPlan,
)
    requires
        call_ensures(EncoderPlan::new, (b, config), p),
        config.crf == Some(crf),
        b == EncoderBackend::SvtAv1 || b == EncoderBackend::SvtVp9 || b == EncoderBackend::Libx265
            || b == EncoderBackend::Libx264,
    ensures
        p.options@.len() > 1,
        p.options@[1].0@ == "crf"@,
        text::decimal_value(p.options@[1].1@) == crf,
{
    let o = option_texts(p.options@);
    assert(o.len() == p.options@.len());
    assert(o[1] == ("crf"@, text::decimal(crf as nat)));
    assert(o[1] == (p.options@[1].0@, p.options@[1].1@));
    text::decimals_read_back(crf as nat);
}

/// Where the user chose nothing, software AV1 is tuned for low delay, and
/// parameters of the user's own come after that and do not replace it.
pub proof fn software_av1_answers_at_once(config: &EncoderConfig, p: EncoderPlan)
    requires
        call_ensures(EncoderPlan::new, (EncoderBackend::SvtAv1, config), p),
    ensures
        p.options@.len() == 3,
        config.preset is None ==> p.options@[0].1@ == "10"@,
        config.crf is None ==> p.options@[1].1@ == "35"@,
        p.options@[2].0@ == "svtav1-params"@,
        p.options@[2].1@.len() >= 13,
        p.options@[2].1@.take(13) == "pred-struct=1"@,
        config.extra_svt_params matches Some(e) ==> e@.len() > 0 ==> p.options@[2].1@.skip(14)
            == e@ && p.options@[2].1@[13] == ':',
{
    reveal_strlit("pred-struct=1");
    reveal_strlit(":");
    let o = option_texts(p.options@);
    assert(o.len() == p.options@.len());
    assert(o[0] == (p.options@[0].0@, p.options@[0].1@));
    assert(o[1] == (p.options@[1].0@, p.options@[1].1@));
    assert(o[2] == (p.options@[2].0@, p.options@[2].1@));
    assert(svt_params(*config).take(13) =~= "pred-struct=1"@);
    if let Some(e) = config.extra_svt_params {
        if e@.len() > 0 {
            assert(svt_params(*config).skip(14) =~= e@);
        }
    }
}

/// Hardware is asked to answer at once: QSV neither looks ahead nor queues, and
/// NVENC runs at a steady rate for the lowest delay.
pub proof fn hardware_answers_at_once(b: EncoderBackend, config: &EncoderConfig, p: EncoderPlan)
    requires
        call_ensures(EncoderPlan::new, (b, config), p),
    ensures
        b == EncoderBackend::IntelQsv || b == EncoderBackend::H265Qsv || b
            == EncoderBackend::H264Qsv ==> {
            &&& p.options@.len() >= 3
            &&& p.options@[1].0@ == "look_ahead"@ && p.options@[1].1@ == "0"@
            &&& p.options@[2].0@ == "async_depth"@ && p.options@[2].1@ == "1"@
        },
        b == EncoderBackend::NvidiaEnc || b == EncoderBackend::H265Nvenc || b
            == EncoderBackend::H264Nvenc ==> {
            &&& p.options@.len() == 3
            &&& p.options@[1].0@ == "tune"@ && p.options@[1].1@ == "ull"@
            &&& p.options@[2].0@ == "rc"@ && p.options@[2].1@ == "cbr"@
        },
{
    let o = option_texts(p.options@);
    assert(o.len() == p.options@.len());
    if o.len() >= 3 {
        assert(o[1] == (p.options@[1].0@, p.options@[1].1@));
        assert(o[2] == (p.options@[2].0@, p.options@[2].1@));
    }
}

/// The encoders to try are exactly those whose codec the client can decode, or
/// all where it did not say, each once, hardware before software and the
/// preferred codec first.
pub proof fn clients_get_what_they_decode(allowed: &[VideoCodec], r: Vec<EncoderBackend>)
    requires
        call_ensures(candidates, (allowed,), r),
    ensures
        forall|b: EncoderBackend| #[trigger]
            r@.contains(b) <==> allowed@.len() == 0 || allowed@.contains(b.wire_codec()),
        forall|i: int, j: int|
            0 <= i < j < r@.len() ==> {
                &&& #[trigger] r@[i] != #[trigger] r@[j]
                &&& r@[i].software() ==> r@[j].software()
                &&& r@[i].software() == r@[j].software() ==> codec_rank(r@[i].wire_codec())
                    <= codec_rank(r@[j].wire_codec())
            },
        codec_rank(VideoCodec::Av1) < codec_rank(VideoCodec::Vp9) < codec_rank(VideoCodec::Vp8)
            < codec_rank(VideoCodec::H265) < codec_rank(VideoCodec::H264),
{
    candidates_are_the_permitted_backends_in_order(allowed@);
    assert forall|b: EncoderBackend| #[trigger] r@.contains(b) implies allowed@.len() == 0
        || allowed@.contains(b.wire_codec()) by {
        let i = choose|i: int| 0 <= i < r@.len() && r@[i] == b;
        assert(permitted(candidate_list(allowed@)[i], allowed@));
    }
    assert forall|i: int, j: int| 0 <= i < j < r@.len() implies {
        &&& #[trigger] r@[i] != #[trigger] r@[j]
        &&& r@[i].software() ==> r@[j].software()
        &&& r@[i].software() == r@[j].software() ==> codec_rank(r@[i].wire_codec()) <= codec_rank(
            r@[j].wire_codec(),
        )
    } by {
        priority_is_by_tier_and_codec(r@[j], r@[i]);
    }
}

/// Each encoder produces the codec that it is built for.
pub proof fn backends_encode_their_codec(b: &EncoderBackend, c: VideoCodec)
    requires
        call_ensures(EncoderBackend::codec, (b,), c),
    ensures
        c == VideoCodec::Av1 <==> *b == EncoderBackend::IntelQsv || *b == EncoderBackend::NvidiaEnc
            || *b == EncoderBackend::AmdAmf || *b == EncoderBackend::AmdVaapi || *b
            == EncoderBackend::SvtAv1,
        c == VideoCodec::Vp9 <==> *b == EncoderBackend::Vp9Vaapi || *b
            == EncoderBackend::Vp9V4l2m2m || *b == EncoderBackend::SvtVp9,
        c == VideoCodec::Vp8 <==> *b == EncoderBackend::Vp8V4l2m2m || *b
            == EncoderBackend::Vp8Libvpx,
        c == VideoCodec::H265 <==> *b == EncoderBackend::H265Qsv || *b == EncoderBackend::H265Nvenc
            || *b == EncoderBackend::H265Amf || *b == EncoderBackend::H265Vaapi || *b
            == EncoderBackend::H265V4l2m2m || *b == EncoderBackend::Libx265,
{
}

/// Probing goes through the candidates one by one, and where all have failed
/// there is no encoder.
pub proof fn probing_goes_through_the_candidates()
    ensures
        forall|allowed: &[VideoCodec], p: EncoderProbe| #[trigger]
            call_ensures(EncoderProbe::new, (allowed,), p) ==> p.list() == candidate_list(allowed@)
                && p.tried() == 0,
        forall|p: &EncoderProbe, r: Result<EncoderBackend, EncoderError>| #[trigger]
            call_ensures(EncoderProbe::current, (p,), r) ==> {
                &&& 0 <= p.tried() < p.list().len() ==> (r matches Ok(b) && b
                    == p.list()[p.tried()])
                &&& p.tried() >= p.list().len() ==> r matches Err(EncoderError::NoEncoder)
            },
        forall|p: &mut EncoderProbe| #[trigger]
            call_ensures(EncoderProbe::reject, (p,), ()) && p.tried() < p.list().len()
                ==> final(p).tried() == p.tried() + 1 && final(p).list() == p.list(),
{
}

/// A picture is encoded only where it has four bytes for each of its pixels.
pub proof fn pictures_must_be_whole(width: u32, height: u32, len: usize, r: Result<(), EncoderError>)
    requires
        width * height * 4 <= u32::MAX,
        call_ensures(check_frame_size, (width, height, len), r),
    ensures
        r is Ok <==> len == 4 * (width * height),
{
}

/// Rows stand in the plane as they were given, each at its own place.
pub proof fn copied_rows_read_back()
    ensures
        forall|
            rows: &[u8],
            row_len: usize,
            height: usize,
            plane: &mut [u8],
            stride: usize,
            row: int,
            col: int,
        |
            #![trigger call_ensures(copy_rows, (rows, row_len, height, plane, stride), ()), final(plane)@[row * stride + col]]
            call_ensures(copy_rows, (rows, row_len, height, plane, stride), ()) && row_len * height
                <= rows@.len() && row_len <= stride && (height > 0 ==> (height - 1) * stride
                + row_len <= plane@.len()) && 0 <= row && 0 <= col < stride && row * stride + col
                < plane@.len() ==> {
                &&& final(plane)@.len() == plane@.len()
                &&& row < height && col < row_len ==> final(plane)@[row * stride + col]
                    == rows@[row * row_len + col]
                &&& row >= height || col >= row_len ==> final(plane)@[row * stride + col]
                    == plane@[row * stride + col]
            },
{
    assert forall|
        rows: &[u8],
        row_len: usize,
        height: usize,
        plane: &mut [u8],
        stride: usize,
        row: int,
        col: int,
    |
        #![trigger call_ensures(copy_rows, (rows, row_len, height, plane, stride), ()), final(plane)@[row * stride + col]]
        call_ensures(copy_rows, (rows, row_len, height, plane, stride), ()) && row_len * height
            <= rows@.len() && row_len <= stride && (height > 0 ==> (height - 1) * stride + row_len
            <= plane@.len()) && 0 <= row && 0 <= col < stride && row * stride + col
            < plane@.len() implies {
        &&& final(plane)@.len() == plane@.len()
        &&& row < height && col < row_len ==> final(plane)@[row * stride + col] == rows@[row
            * row_len + col]
        &&& row >= height || col >= row_len ==> final(plane)@[row * stride + col] == plane@[row
            * stride + col]
    } by {
        rows_stand_apart(
            plane@,
            stride as int,
            rows@,
            row_len as int,
            height as int,
            row,
            col,
        );
        plane_keeps_its_size(plane@, stride as int, rows@, row_len as int, height as int);
    }
}

proof fn plane_keeps_its_size(plane: Seq<u8>, stride: int, rows: Seq<u8>, row_len: int, n: int)
    ensures
        plane_with_rows(plane, stride, rows, row_len, n).len() == plane.len(),
    decreases n,
{
    if n > 0 {
        plane_keeps_its_size(plane, stride, rows, row_len, n - 1);
    }
}

/// Packets come out as the encoder made them, in order, each marked as the
/// keyframe that it is and with the time of its frame; empty ones are left out.
/// Asking stops where the encoder wants another frame.
pub proof fn packets_come_out_in_order()
    ensures
        forall|
            results: &mut Vec<EncodedFrame>,
            event: PacketEvent,
            timestamp_us: u64,
            r: Result<bool, EncoderError>,
        | #[trigger]
            call_ensures(drain_step, (results, event, timestamp_us), r) ==> {
                let n = results@.len() as int;
                &&& event matches PacketEvent::Packet { data, keyframe } ==> {
                    &&& r == Ok::<bool, EncoderError>(true)
                    &&& data@.len() > 0 ==> {
                        &&& final(results)@.len() == n + 1
                        &&& final(results)@.take(n) == results@
                        &&& final(results)@[n].data@ == data@
                        &&& final(results)@[n].keyframe == keyframe
                        &&& final(results)@[n].timestamp_us == timestamp_us
                    }
                    &&& data@.len() == 0 ==> final(results)@ == results@
                }
                &&& event is Again ==> r == Ok::<bool, EncoderError>(false)
                &&& event is Eof || event is Failed ==> r is Err
                &&& !(event is Packet) ==> final(results)@ == results@
            },
        forall|
            frames: &mut Vec<EncodedFrame>,
            event: PacketEvent,
            late: bool,
            next: FlushStep,
        | #[trigger]
            call_ensures(flush_step, (frames, event, late), next) ==> {
                let n = frames@.len() as int;
                &&& event matches PacketEvent::Packet { data, keyframe } ==> {
                    &&& next == FlushStep::More
                    &&& data@.len() > 0 ==> {
                        &&& final(frames)@.len() == n + 1
                        &&& final(frames)@.take(n) == frames@
                        &&& final(frames)@[n].data@ == data@
                        &&& final(frames)@[n].keyframe == keyframe
                    }
                    &&& data@.len() == 0 ==> final(frames)@ == frames@
                }
                &&& event is Again ==> (next == FlushStep::Stop <==> late) && (next
                    == FlushStep::Wait <==> !late)
                &&& event is Eof || event is Failed ==> next == FlushStep::Stop
                &&& !(event is Packet) ==> final(frames)@ == frames@
            },
{
    assert forall|
        results: &mut Vec<EncodedFrame>,
        event: PacketEvent,
        timestamp_us: u64,
        r: Result<bool, EncoderError>,
    | #[trigger]
        call_ensures(drain_step, (results, event, timestamp_us), r) && (
        event matches PacketEvent::Packet { data, keyframe } && data@.len()
            > 0) implies final(results)@.take(results@.len() as int) == results@ by {
        assert(final(results)@.take(results@.len() as int) =~= results@);
    }
    assert forall|
        frames: &mut Vec<EncodedFrame>,
        event: PacketEvent,
        late: bool,
        next: FlushStep,
    | #[trigger]
        call_ensures(flush_step, (frames, event, late), next) && (
        event matches PacketEvent::Packet { data, keyframe } && data@.len()
            > 0) implies final(frames)@.take(frames@.len() as int) == frames@ by {
        assert(final(frames)@.take(frames@.len() as int) =~= frames@);
    }
}

/// What a codec is called in the names of FFmpeg's codecs.
pub open spec fn ffmpeg_family(c: VideoCodec) -> Seq<char> {
    match c {
        VideoCodec::Av1 => "av1"@,
        VideoCodec::Vp9 => "vp9"@,
        VideoCodec::Vp8 => "vp8"@,
        VideoCodec::H265 => "hevc"@,
        VideoCodec::H264 => "h264"@,
    }
}

/// An encoder in hardware goes by its codec and by what it runs on, and what is
/// shown of it holds its name.
pub proof fn encoders_go_by_codec_and_maker(
    b: &EncoderBackend,
    name: &'static str,
    label: &'static str,
    c: VideoCodec,
)
    requires
        call_ensures(EncoderBackend::codec_name, (b,), name),
        call_ensures(EncoderBackend::display_name, (b,), label),
        call_ensures(EncoderBackend::codec, (b,), c),
    ensures
        text::holds(label@, name@),
        *b is IntelQsv || *b is H265Qsv || *b is H264Qsv ==> name@ == ffmpeg_family(c) + "_qsv"@,
        *b is NvidiaEnc || *b is H265Nvenc || *b is H264Nvenc ==> name@ == ffmpeg_family(c) + "_nvenc"@,
        *b is AmdAmf || *b is H265Amf || *b is H264Amf ==> name@ == ffmpeg_family(c) + "_amf"@,
        *b is AmdVaapi || *b is Vp9Vaapi || *b is H265Vaapi || *b is H264Vaapi ==> name@ == ffmpeg_family(c) + "_vaapi"@,
        *b is Vp9V4l2m2m || *b is Vp8V4l2m2m || *b is H265V4l2m2m || *b is H264V4l2m2m ==> name@ == ffmpeg_family(c) + "_v4l2m2m"@,
        *b is SvtAv1 ==> name@ == "libsvtav1"@,
        *b is SvtVp9 ==> name@ == "libvpx-vp9"@,
        *b is Vp8Libvpx ==> name@ == "libvpx"@,
        *b is Libx265 ==> name@ == "libx265"@,
        *b is Libx264 ==> name@ == "libx264"@,
{
    reveal_strlit("");
    reveal_strlit(" (software)");
    reveal_strlit(" (vp8, software)");
    reveal_strlit(")");
    reveal_strlit(", software)");
    reveal_strlit("AMD AMF (");
    reveal_strlit("AMD AMF (av1_amf)");
    reveal_strlit("AMD AMF (h264_amf)");
    reveal_strlit("AMD AMF (hevc_amf)");
    reveal_strlit("Intel QSV (");
    reveal_strlit("Intel QSV (av1_qsv)");
    reveal_strlit("Intel QSV (h264_qsv)");
    reveal_strlit("Intel QSV (hevc_qsv)");
    reveal_strlit("NVIDIA NVENC (");
    reveal_strlit("NVIDIA NVENC (av1_nvenc)");
    reveal_strlit("NVIDIA NVENC (h264_nvenc)");
    reveal_strlit("NVIDIA NVENC (hevc_nvenc)");
    reveal_strlit("SVT-AV1 (");
    reveal_strlit("SVT-AV1 (libsvtav1, software)");
    reveal_strlit("SVT-VP9 (");
    reveal_strlit("SVT-VP9 (libvpx-vp9, software)");
    reveal_strlit("VA-API (");
    reveal_strlit("VA-API (av1_vaapi)");
    reveal_strlit("VA-API (h264_vaapi)");
    reveal_strlit("VA-API (hevc_vaapi)");
    reveal_strlit("VA-API (vp9_vaapi)");
    reveal_strlit("_amf");
    reveal_strlit("_nvenc");
    reveal_strlit("_qsv");
    reveal_strlit("_v4l2m2m");
    reveal_strlit("_vaapi");
    reveal_strlit("av1");
    reveal_strlit("av1_amf");
    reveal_strlit("av1_nvenc");
    reveal_strlit("av1_qsv");
    reveal_strlit("av1_vaapi");
    reveal_strlit("h264");
    reveal_strlit("h264_amf");
    reveal_strlit("h264_nvenc");
    reveal_strlit("h264_qsv");
    reveal_strlit("h264_v4l2m2m");
    reveal_strlit("h264_vaapi");
    reveal_strlit("hevc");
    reveal_strlit("hevc_amf");
    reveal_strlit("hevc_nvenc");
    reveal_strlit("hevc_qsv");
    reveal_strlit("hevc_v4l2m2m");
    reveal_strlit("hevc_vaapi");
    reveal_strlit("libsvtav1");
    reveal_strlit("libvpx");
    reveal_strlit("libvpx (vp8, software)");
    reveal_strlit("libvpx-vp9");
    reveal_strlit("libx264");
    reveal_strlit("libx264 (software)");
    reveal_strlit("libx265");
    reveal_strlit("libx265 (software)");
    reveal_strlit("v4l2m2m (");
    reveal_strlit("v4l2m2m (h264_v4l2m2m)");
    reveal_strlit("v4l2m2m (hevc_v4l2m2m)");
    reveal_strlit("v4l2m2m (vp8_v4l2m2m)");
    reveal_strlit("v4l2m2m (vp9_v4l2m2m)");
    reveal_strlit("vp8");
    reveal_strlit("vp8_v4l2m2m");
    reveal_strlit("vp9");
    reveal_strlit("vp9_v4l2m2m");
    reveal_strlit("vp9_vaapi");
    match *b {
        EncoderBackend::IntelQsv => {
            assert(label@ =~= "Intel QSV ("@ + name@ + ")"@);
            assert(name@ =~= "av1"@ + "_qsv"@);
        },
        EncoderBackend::NvidiaEnc => {
            assert(label@ =~= "NVIDIA NVENC ("@ + name@ + ")"@);
            assert(name@ =~= "av1"@ + "_nvenc"@);
        },
        EncoderBackend::AmdAmf => {
            assert(label@ =~= "AMD AMF ("@ + name@ + ")"@);
            assert(name@ =~= "av1"@ + "_amf"@);
        },
        EncoderBackend::AmdVaapi => {
            assert(label@ =~= "VA-API ("@ + name@ + ")"@);
            assert(name@ =~= "av1"@ + "_vaapi"@);
        },
        EncoderBackend::SvtAv1 => {
            assert(label@ =~= "SVT-AV1 ("@ + name@ + ", software)"@);
        },
        EncoderBackend::Vp9Vaapi => {
            assert(label@ =~= "VA-API ("@ + name@ + ")"@);
            assert(name@ =~= "vp9"@ + "_vaapi"@);
        },
        EncoderBackend::Vp9V4l2m2m => {
            assert(label@ =~= "v4l2m2m ("@ + name@ + ")"@);
            assert(name@ =~= "vp9"@ + "_v4l2m2m"@);
        },
        EncoderBackend::SvtVp9 => {
            assert(label@ =~= "SVT-VP9 ("@ + name@ + ", software)"@);
        },
        EncoderBackend::Vp8V4l2m2m => {
            assert(label@ =~= "v4l2m2m ("@ + name@ + ")"@);
            assert(name@ =~= "vp8"@ + "_v4l2m2m"@);
        },
        EncoderBackend::Vp8Libvpx => {
            assert(label@ =~= ""@ + name@ + " (vp8, software)"@);
        },
        EncoderBackend::H265Qsv => {
            assert(label@ =~= "Intel QSV ("@ + name@ + ")"@);
            assert(name@ =~= "hevc"@ + "_qsv"@);
        },
        EncoderBackend::H265Nvenc => {
            assert(label@ =~= "NVIDIA NVENC ("@ + name@ + ")"@);
            assert(name@ =~= "hevc"@ + "_nvenc"@);
        },
        EncoderBackend::H265Amf => {
            assert(label@ =~= "AMD AMF ("@ + name@ + ")"@);
            assert(name@ =~= "hevc"@ + "_amf"@);
        },
        EncoderBackend::H265Vaapi => {
            assert(label@ =~= "VA-API ("@ + name@ + ")"@);
            assert(name@ =~= "hevc"@ + "_vaapi"@);
        },
        EncoderBackend::H265V4l2m2m => {
            assert(label@ =~= "v4l2m2m ("@ + name@ + ")"@);
            assert(name@ =~= "hevc"@ + "_v4l2m2m"@);
        },
        EncoderBackend::Libx265 => {
            assert(label@ =~= ""@ + name@ + " (software)"@);
        },
        EncoderBackend::H264Qsv => {
            assert(label@ =~= "Intel QSV ("@ + name@ + ")"@);
            assert(name@ =~= "h264"@ + "_qsv"@);
        },
        EncoderBackend::H264Nvenc => {
            assert(label@ =~= "NVIDIA NVENC ("@ + name@ + ")"@);
            assert(name@ =~= "h264"@ + "_nvenc"@);
        },
        EncoderBackend::H264Amf => {
            assert(label@ =~= "AMD AMF ("@ + name@ + ")"@);
            assert(name@ =~= "h264"@ + "_amf"@);
        },
        EncoderBackend::H264Vaapi => {
            assert(label@ =~= "VA-API ("@ + name@ + ")"@);
            assert(name@ =~= "h264"@ + "_vaapi"@);
        },
        EncoderBackend::H264V4l2m2m => {
            assert(label@ =~= "v4l2m2m ("@ + name@ + ")"@);
            assert(name@ =~= "h264"@ + "_v4l2m2m"@);
        },
        EncoderBackend::Libx264 => {
            assert(label@ =~= ""@ + name@ + " (software)"@);
        },
    }
}

/// An error that has a reason says it at its end, and none is silent.
pub proof fn encoder_errors_say_why(e: &EncoderError, s: String)
    requires
        call_ensures(EncoderError::message, (e,), s),
    ensures
        e matches EncoderError::InitFailed(x) ==> text::has_suffix(s@, x@),
        e matches EncoderError::EncodeFailed(x) ==> text::has_suffix(s@, x@),
        s@.len() > 0,
{
    reveal_strlit("encoder initialization failed: ");
    reveal_strlit("encode failed: ");
    reveal_strlit("no encoder available");
    match *e {
        EncoderError::InitFailed(x) => {
            assert(s@.skip(s@.len() - x@.len()) =~= x@);
        },
        EncoderError::EncodeFailed(x) => {
            assert(s@.skip(s@.len() - x@.len()) =~= x@);
        },
        _ => {},
    }
}

} // verus!
