//! Media framing over QUIC: the 18-byte video header and the 5-byte audio
//! header. All listeners and clients share this layout.
use vstd::prelude::*;
use vstd::slice::slice_subrange;
use crate::protocol::little_endian;
use crate::protocol::messages::{FrameType, VideoCodec};

verus! {

/// `[codec: u8][frame_type: u8][width: u16][height: u16][timestamp_us: u64][data_len: u32]`
pub const VIDEO_HEADER_LEN: usize = 18;

/// `[sample_rate: u32][channels: u8]`. No length: a datagram is one message.
pub const AUDIO_HEADER_LEN: usize = 5;

/// Cap on `data_len`, so that a corrupt header cannot become an unbounded
/// allocation. It matches the payload cap of the control stream.
pub const MAX_VIDEO_FRAME_BYTES: u32 = 16 * 1024 * 1024;

/// One parsed video header.
#[derive(Debug, Clone, Copy, PartialEq, Eq, Structural)]
pub struct VideoHeader {
    pub codec: VideoCodec,
    pub keyframe: bool,
    pub width: u16,
    pub height: u16,
    pub timestamp_us: u64,
    pub data_len: u32,
}

/// The byte that stands for a codec.
pub open spec fn tag_of_codec(codec: VideoCodec) -> u8 {
    match codec {
        VideoCodec::Av1 => 0,
        VideoCodec::Vp9 => 1,
        VideoCodec::Vp8 => 2,
        VideoCodec::H265 => 3,
        VideoCodec::H264 => 4,
    }
}

/// The byte that stands for a frame type.
pub open spec fn tag_of_frame_type(frame_type: FrameType) -> u8 {
    match frame_type {
        FrameType::Inter => 0,
        FrameType::Keyframe => 1,
    }
}

/// The byte that stands for a codec.
pub fn codec_tag(codec: VideoCodec) -> (tag: u8)
    ensures
        tag == tag_of_codec(codec),
{
    match codec {
        VideoCodec::Av1 => 0,
        VideoCodec::Vp9 => 1,
        VideoCodec::Vp8 => 2,
        VideoCodec::H265 => 3,
        VideoCodec::H264 => 4,
    }
}

/// The byte that stands for a frame type.
pub fn frame_type_tag(frame_type: FrameType) -> (tag: u8)
    ensures
        tag == tag_of_frame_type(frame_type),
{
    match frame_type {
        FrameType::Inter => 0,
        FrameType::Keyframe => 1,
    }
}

/// The codec that a byte stands for, if it stands for one.
pub fn decode_codec_tag(tag: u8) -> (codec: Option<VideoCodec>)
    ensures
        codec matches Some(c) ==> tag_of_codec(c) == tag,
        codec is None ==> tag > 4,
{
    match tag {
        0 => Some(VideoCodec::Av1),
        1 => Some(VideoCodec::Vp9),
        2 => Some(VideoCodec::Vp8),
        3 => Some(VideoCodec::H265),
        4 => Some(VideoCodec::H264),
        _ => None,
    }
}

/// The bytes of a video header.
pub open spec fn video_header(
    codec: VideoCodec,
    frame_type: FrameType,
    width: u16,
    height: u16,
    timestamp_us: u64,
    data_len: u32,
) -> Seq<u8> {
    seq![tag_of_codec(codec), tag_of_frame_type(frame_type)] + little_endian::le_bytes(
        width as nat,
        2,
    ) + little_endian::le_bytes(height as nat, 2) + little_endian::le_bytes(timestamp_us as nat, 8)
        + little_endian::le_bytes(data_len as nat, 4)
}

/// Encodes the header of one video frame.
pub fn video_header_bytes(
    codec: VideoCodec,
    frame_type: FrameType,
    width: u16,
    height: u16,
    timestamp_us: u64,
    data_len: u32,
) -> (buf: [u8; VIDEO_HEADER_LEN])
    ensures
        buf@ == video_header(codec, frame_type, width, height, timestamp_us, data_len),
{
    proof {
        little_endian::le_bytes_len(width as nat, 2);
        little_endian::le_bytes_len(height as nat, 2);
        little_endian::le_bytes_len(timestamp_us as nat, 8);
        little_endian::le_bytes_len(data_len as nat, 4);
    }
    let mut v: Vec<u8> = Vec::new();
    v.push(codec_tag(codec));
    v.push(frame_type_tag(frame_type));
    assert(v@ == seq![tag_of_codec(codec), tag_of_frame_type(frame_type)]);
    little_endian::push_le(&mut v, width as u64, 2);
    little_endian::push_le(&mut v, height as u64, 2);
    little_endian::push_le(&mut v, timestamp_us, 8);
    little_endian::push_le(&mut v, data_len as u64, 4);
    let buf: [u8; VIDEO_HEADER_LEN] = [
        v[0],
        v[1],
        v[2],
        v[3],
        v[4],
        v[5],
        v[6],
        v[7],
        v[8],
        v[9],
        v[10],
        v[11],
        v[12],
        v[13],
        v[14],
        v[15],
        v[16],
        v[17],
    ];
    assert(buf@ == v@);
    buf
}

/// What the fields of a header say.
pub open spec fn header_fields(header: Seq<u8>, h: VideoHeader) -> bool {
    &&& tag_of_codec(h.codec) == header[0]
    &&& h.keyframe == (header[1] == 1)
    &&& h.width == little_endian::le_value(header.subrange(2, 4))
    &&& h.height == little_endian::le_value(header.subrange(4, 6))
    &&& h.timestamp_us == little_endian::le_value(header.subrange(6, 14))
    &&& h.data_len == little_endian::le_value(header.subrange(14, 18))
}

/// Parses a video header. A codec tag that stands for no codec is refused.
pub fn parse_video_header(header: &[u8; VIDEO_HEADER_LEN]) -> (h: Option<VideoHeader>)
    ensures
        h is Some <==> header@[0] <= 4,
        h matches Some(x) ==> header_fields(header@, x),
{
    let codec = match decode_codec_tag(header[0]) {
        Some(c) => c,
        None => {
            return None;
        },
    };
    let bytes = header.as_slice();
    Some(
        VideoHeader {
            codec,
            keyframe: header[1] == 1,
            width: little_endian::u16_at(bytes, 2),
            height: little_endian::u16_at(bytes, 4),
            timestamp_us: little_endian::u64_at(bytes, 6),
            data_len: little_endian::u32_at(bytes, 14),
        },
    )
}

/// The bytes of an audio header.
pub open spec fn audio_header(sample_rate: u32, channels: u8) -> Seq<u8> {
    little_endian::le_bytes(sample_rate as nat, 4).push(channels)
}

/// Encodes the header of one audio datagram.
pub fn audio_header_bytes(sample_rate: u32, channels: u8) -> (buf: [u8; AUDIO_HEADER_LEN])
    ensures
        buf@ == audio_header(sample_rate, channels),
{
    proof {
        little_endian::le_bytes_len(sample_rate as nat, 4);
    }
    let mut v: Vec<u8> = Vec::new();
    little_endian::push_le(&mut v, sample_rate as u64, 4);
    v.push(channels);
    let buf: [u8; AUDIO_HEADER_LEN] = [v[0], v[1], v[2], v[3], v[4]];
    assert(buf@ == v@);
    buf
}

/// Splits an audio datagram into sample rate, channel count and Opus payload.
pub fn parse_audio_datagram(datagram: &[u8]) -> (r: Option<(u32, u8, &[u8])>)
    ensures
        r is Some <==> datagram@.len() >= AUDIO_HEADER_LEN,
        r matches Some(x) ==> {
            &&& x.0 == little_endian::le_value(datagram@.take(4))
            &&& x.1 == datagram@[4]
            &&& x.2@ == datagram@.skip(5)
        },
{
    if datagram.len() < AUDIO_HEADER_LEN {
        return None;
    }
    let sample_rate: u32 = little_endian::u32_at(datagram, 0);
    let payload = slice_subrange(datagram, AUDIO_HEADER_LEN, datagram.len());
    proof {
        assert(datagram@.subrange(0, 4) == datagram@.take(4));
        assert(payload@ == datagram@.skip(5));
    }
    Some((sample_rate, datagram[4], payload))
}

/// Whether bytes start with an Annex B start code.
pub open spec fn annex_b(data: Seq<u8>) -> bool {
    ||| data.len() >= 4 && data[0] == 0 && data[1] == 0 && data[2] == 0 && data[3] == 1
    ||| data.len() >= 3 && data[0] == 0 && data[1] == 0 && data[2] == 1
}

/// Whether bytes can be the start of a codec's elementary stream: for AV1 an
/// OBU whose type (bits 3 to 6) is a sequence header, temporal delimiter,
/// frame header or frame; for VP9 the frame marker (the two high bits); for
/// H.264 and H.265 a start code. VP8 has no usable marker.
pub open spec fn looks_like(codec: VideoCodec, data: Seq<u8>) -> bool {
    data.len() > 0 && match codec {
        VideoCodec::Av1 => {
            let obu_type = (data[0] as int / 8) % 16;
            obu_type == 1 || obu_type == 2 || obu_type == 3 || obu_type == 6
        },
        VideoCodec::Vp9 => data[0] as int / 64 == 2,
        VideoCodec::Vp8 => true,
        VideoCodec::H264 => annex_b(data),
        VideoCodec::H265 => annex_b(data),
    }
}

/// Whether an encoded payload looks like the given codec's elementary stream.
/// Used to refuse advertising a codec whose bitstream was not produced;
/// unknown prefixes do not match.
pub fn bitstream_matches_codec(codec: VideoCodec, data: &[u8]) -> (b: bool)
    ensures
        b == looks_like(codec, data@),
{
    if data.len() == 0 {
        return false;
    }
    match codec {
        VideoCodec::Av1 => {
            let obu_type: u8 = (data[0] / 8) % 16;
            obu_type == 1 || obu_type == 2 || obu_type == 3 || obu_type == 6
        },
        VideoCodec::Vp9 => data[0] / 64 == 2,
        VideoCodec::Vp8 => true,
        VideoCodec::H264 | VideoCodec::H265 => {
            (data.len() >= 4 && data[0] == 0 && data[1] == 0 && data[2] == 0 && data[3] == 1) || (
            data.len() >= 3 && data[0] == 0 && data[1] == 0 && data[2] == 1)
        },
    }
}

/// Different codecs have different tags.
pub proof fn codec_tags_are_distinct(a: VideoCodec, b: VideoCodec)
    requires
        tag_of_codec(a) == tag_of_codec(b),
    ensures
        a == b,
{
}

/// Parsing an encoded video header gives back every field, for every codec
/// and frame type.
pub proof fn video_headers_round_trip(
    codec: VideoCodec,
    frame_type: FrameType,
    width: u16,
    height: u16,
    timestamp_us: u64,
    data_len: u32,
    parsed: VideoHeader,
)
    requires
        header_fields(
            video_header(codec, frame_type, width, height, timestamp_us, data_len),
            parsed,
        ),
    ensures
        video_header(codec, frame_type, width, height, timestamp_us, data_len).len()
            == VIDEO_HEADER_LEN,
        video_header(codec, frame_type, width, height, timestamp_us, data_len)[0] <= 4,
        parsed == (VideoHeader {
            codec,
            keyframe: frame_type == FrameType::Keyframe,
            width,
            height,
            timestamp_us,
            data_len,
        }),
{
    let h = video_header(codec, frame_type, width, height, timestamp_us, data_len);
    little_endian::u16_fits(width);
    little_endian::u16_fits(height);
    little_endian::u64_fits(timestamp_us);
    little_endian::u32_fits(data_len);
    little_endian::le_round_trips(width as nat, 2);
    little_endian::le_round_trips(height as nat, 2);
    little_endian::le_round_trips(timestamp_us as nat, 8);
    little_endian::le_round_trips(data_len as nat, 4);
    assert(h.subrange(2, 4) == little_endian::le_bytes(width as nat, 2));
    assert(h.subrange(4, 6) == little_endian::le_bytes(height as nat, 2));
    assert(h.subrange(6, 14) == little_endian::le_bytes(timestamp_us as nat, 8));
    assert(h.subrange(14, 18) == little_endian::le_bytes(data_len as nat, 4));
    codec_tags_are_distinct(codec, parsed.codec);
}

/// Splitting a datagram made of an audio header and a payload gives back the
/// sample rate, the channel count and the payload.
pub proof fn audio_datagrams_round_trip(sample_rate: u32, channels: u8, payload: Seq<u8>)
    ensures
        ({
            let d = audio_header(sample_rate, channels) + payload;
            &&& d.len() >= AUDIO_HEADER_LEN
            &&& little_endian::le_value(d.take(4)) == sample_rate
            &&& d[4] == channels
            &&& d.skip(5) == payload
        }),
{
    let d = audio_header(sample_rate, channels) + payload;
    little_endian::u32_fits(sample_rate);
    little_endian::le_round_trips(sample_rate as nat, 4);
    assert(d.take(4) == little_endian::le_bytes(sample_rate as nat, 4));
    assert(d.skip(5) == payload);
}

/// A video header says what it was made of, at fixed places: the codec, whether
/// the frame is a keyframe, its size, its time and how many bytes follow.
pub proof fn video_headers_say_what_they_were_made_of(
    codec: VideoCodec,
    frame_type: FrameType,
    width: u16,
    height: u16,
    timestamp_us: u64,
    data_len: u32,
    buf: [u8; VIDEO_HEADER_LEN],
    header: &[u8; VIDEO_HEADER_LEN],
    h: Option<VideoHeader>,
)
    requires
        call_ensures(
            video_header_bytes,
            (codec, frame_type, width, height, timestamp_us, data_len),
            buf,
        ),
        header@ == buf@,
        call_ensures(parse_video_header, (header,), h),
    ensures
        buf@.len() == 18,
        codec == VideoCodec::Av1 ==> buf@[0] == 0,
        codec == VideoCodec::Vp9 ==> buf@[0] == 1,
        codec == VideoCodec::Vp8 ==> buf@[0] == 2,
        codec == VideoCodec::H265 ==> buf@[0] == 3,
        codec == VideoCodec::H264 ==> buf@[0] == 4,
        frame_type == FrameType::Keyframe ==> buf@[1] == 1,
        frame_type == FrameType::Inter ==> buf@[1] == 0,
        buf@[2] + 256 * buf@[3] == width,
        buf@[4] + 256 * buf@[5] == height,
        h matches Some(x) && x.codec == codec && x.keyframe == (frame_type == FrameType::Keyframe)
            && x.width == width && x.height == height && x.timestamp_us == timestamp_us
            && x.data_len == data_len,
{
    let b = video_header(codec, frame_type, width, height, timestamp_us, data_len);
    if let Some(x) = h {
        video_headers_round_trip(
            codec,
            frame_type,
            width,
            height,
            timestamp_us,
            data_len,
            x,
        );
    }
    little_endian::u16_fits(width);
    little_endian::u16_fits(height);
    little_endian::le_round_trips(width as nat, 2);
    little_endian::le_round_trips(height as nat, 2);
    little_endian::le_bytes_len(timestamp_us as nat, 8);
    little_endian::le_bytes_len(data_len as nat, 4);
    reveal_with_fuel(little_endian::le_value, 3);
    let w = little_endian::le_bytes(width as nat, 2);
    let g = little_endian::le_bytes(height as nat, 2);
    assert(b[2] == w[0] && b[3] == w[1]);
    assert(b[4] == g[0] && b[5] == g[1]);
    assert(w.skip(1).skip(1).len() == 0);
    assert(g.skip(1).skip(1).len() == 0);
}

/// A header is refused exactly where its codec is unknown.
pub proof fn unknown_codecs_are_refused(header: &[u8; VIDEO_HEADER_LEN], h: Option<VideoHeader>)
    requires
        call_ensures(parse_video_header, (header,), h),
    ensures
        h is None <==> header@[0] > 4,
        h matches Some(x) ==> x.keyframe == (header@[1] == 1),
        h matches Some(x) ==> (x.codec == VideoCodec::Av1 <==> header@[0] == 0) && (x.codec
            == VideoCodec::Vp9 <==> header@[0] == 1) && (x.codec == VideoCodec::Vp8 <==> header@[0]
            == 2) && (x.codec == VideoCodec::H265 <==> header@[0] == 3),
{
}

/// A sound datagram gives back its rate, its channels and its packet; one that
/// is too short for a header gives nothing.
pub proof fn sound_datagrams_say_what_they_hold(
    sample_rate: u32,
    channels: u8,
    buf: [u8; AUDIO_HEADER_LEN],
    payload: Seq<u8>,
    datagram: &[u8],
    r: Option<(u32, u8, &[u8])>,
)
    requires
        call_ensures(audio_header_bytes, (sample_rate, channels), buf),
        call_ensures(parse_audio_datagram, (datagram,), r),
    ensures
        buf@.len() == 5,
        datagram@ == buf@ + payload ==> (r matches Some(x) && x.0 == sample_rate && x.1 == channels
            && x.2@ == payload),
        datagram@.len() < 5 <==> r is None,
{
    audio_datagrams_round_trip(sample_rate, channels, payload);
    little_endian::le_bytes_len(sample_rate as nat, 4);
}

/// A stream is taken for a codec only where it starts like one: with an AV1
/// header or frame, with VP9's marker, or with a start code of H.264 and H.265.
/// Nothing at all is no stream.
pub proof fn streams_start_like_their_codec(codec: VideoCodec, data: &[u8], b: bool)
    requires
        call_ensures(bitstream_matches_codec, (codec, data), b),
    ensures
        data@.len() == 0 ==> !b,
        codec == VideoCodec::Vp8 && data@.len() > 0 ==> b,
        codec == VideoCodec::Vp9 && data@.len() > 0 ==> (b <==> 0x80 <= data@[0] < 0xC0),
        codec == VideoCodec::H264 || codec == VideoCodec::H265 ==> (b <==> (data@.len() >= 3
            && data@[0] == 0 && data@[1] == 0 && (data@[2] == 1 || (data@.len() >= 4 && data@[2]
            == 0 && data@[3] == 1)))),
        codec == VideoCodec::Av1 && data@.len() > 0 ==> (b <==> {
            let kind = (data@[0] % 128) / 8;
            kind == 1 || kind == 2 || kind == 3 || kind == 6
        }),
{
    if codec == VideoCodec::Av1 && data@.len() > 0 {
        let x = data@[0] as int;
        assert((x / 8) % 16 == (x % 128) / 8);
    }
}

/// Tags and codecs stand for each other.
pub proof fn tags_read_back(codec: VideoCodec, tag: u8, other: u8, r: Option<VideoCodec>)
    requires
        call_ensures(codec_tag, (codec,), tag),
        call_ensures(decode_codec_tag, (other,), r),
    ensures
        tag <= 4,
        other == tag ==> r == Some(codec),
        other > 4 ==> r is None,
        codec == VideoCodec::Av1 ==> tag == 0,
        codec == VideoCodec::H264 ==> tag == 4,
{
    if let Some(c) = r {
        if other == tag {
            codec_tags_are_distinct(c, codec);
        }
    }
}

/// A picture that needs no other is marked, and one that does is not.
pub proof fn frame_types_have_their_mark(t: FrameType, tag: u8)
    requires
        call_ensures(frame_type_tag, (t,), tag),
    ensures
        t is Keyframe <==> tag == 1,
        t is Inter <==> tag == 0,
{
}

} // verus!
