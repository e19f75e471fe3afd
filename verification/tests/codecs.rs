use termland::codec::audio::{
    interleaved_len, AudioError, BITRATE, CHANNELS, FRAME_MS, FRAME_SIZE, SAMPLE_RATE,
};
use termland::codec::decoder::{
    next_backend, DecodeAction, DecoderBackend, DecoderError, DecoderPhase, ReinitStage, VideoDecoder,
    BACKEND_PRIORITY, MAX_REINIT_FAILURES,
};
use termland::codec::encoder::{
    candidates, check_frame_size, copy_rows, drain_step, flush_step, EncoderBackend,
    EncoderConfig, EncoderError, EncoderPlan, EncoderProbe, FlushStep, PacketEvent, PixelFormat,
    ENCODER_PRIORITY,
};
use termland::pixels::pixels_of_rows;
use termland::protocol::messages::VideoCodec;

const HARDWARE_DECODERS: &[DecoderBackend] = &[
    DecoderBackend::NvidiaCuvid,
    DecoderBackend::IntelQsv,
    DecoderBackend::Vp9Vaapi,
    DecoderBackend::Vp9V4l2m2m,
    DecoderBackend::Vp8V4l2m2m,
    DecoderBackend::HevcCuvid,
    DecoderBackend::HevcVaapi,
    DecoderBackend::HevcV4l2m2m,
    DecoderBackend::HevcQsv,
    DecoderBackend::H264Cuvid,
    DecoderBackend::H264Vaapi,
    DecoderBackend::H264V4l2m2m,
    DecoderBackend::H264Qsv,
];

const SOFTWARE_DECODERS: &[DecoderBackend] = &[
    DecoderBackend::Dav1d,
    DecoderBackend::LibvpxVp9,
    DecoderBackend::Libvpx,
    DecoderBackend::HevcSoftware,
    DecoderBackend::H264Software,
];

fn all_decoders() -> Vec<DecoderBackend> {
    HARDWARE_DECODERS.iter().chain(SOFTWARE_DECODERS).copied().collect()
}

#[test]
fn decoder_all_backends_are_accounted_for() {
    assert_eq!(all_decoders().len(), BACKEND_PRIORITY.len());
}

#[test]
fn decoder_every_backend_is_probed() {
    for backend in all_decoders() {
        assert!(BACKEND_PRIORITY.contains(&backend), "{backend:?} will never be tried");
    }
}

#[test]
fn decoder_priority_list_has_no_duplicates() {
    let mut seen = Vec::new();
    for backend in BACKEND_PRIORITY {
        assert!(!seen.contains(&backend), "{backend:?} appears twice");
        seen.push(backend);
    }
}

#[test]
fn decoder_ffmpeg_name_agrees_with_declared_codec() {
    for backend in all_decoders() {
        let name = backend.codec_name();
        let ok = match backend.codec() {
            VideoCodec::Av1 => name.contains("av1") || name == "libdav1d",
            VideoCodec::Vp9 => name.contains("vp9"),
            VideoCodec::Vp8 => name.contains("vp8") || name == "libvpx",
            VideoCodec::H265 => name.contains("hevc") || name.contains("265"),
            VideoCodec::H264 => name.contains("h264") || name.contains("264"),
        };
        assert!(ok, "{backend:?} declares {:?} but is {name:?}", backend.codec());
    }
}

#[test]
fn display_names_the_ffmpeg_decoder() {
    for backend in all_decoders() {
        let shown = backend.display_name();
        assert!(shown.contains(backend.codec_name()), "{backend:?} is shown as {shown:?}");
    }
}

#[test]
fn decoder_hardware_is_probed_before_software() {
    let last_hw = BACKEND_PRIORITY.iter().rposition(|b| HARDWARE_DECODERS.contains(b)).unwrap();
    let first_sw = BACKEND_PRIORITY.iter().position(|b| SOFTWARE_DECODERS.contains(b)).unwrap();
    assert!(last_hw < first_sw);
}

#[test]
fn decoder_each_tier_follows_the_documented_codec_preference() {
    let rank = |c: VideoCodec| VideoCodec::all_preferred().iter().position(|p| *p == c).unwrap();
    for (tier, members) in [("hardware", HARDWARE_DECODERS), ("software", SOFTWARE_DECODERS)] {
        let ranks: Vec<_> = BACKEND_PRIORITY
            .iter()
            .filter(|b| members.contains(b))
            .map(|b| rank(b.codec()))
            .collect();
        let mut sorted = ranks.clone();
        sorted.sort_unstable();
        assert_eq!(ranks, sorted, "{tier} tier departs from the preferred order");
    }
}

#[test]
fn qsv_comes_after_other_hardware_of_the_same_codec() {
    let qsv = [DecoderBackend::IntelQsv, DecoderBackend::HevcQsv, DecoderBackend::H264Qsv];
    for backend in qsv {
        let codec = backend.codec();
        let at = BACKEND_PRIORITY.iter().position(|b| *b == backend).unwrap();
        for (i, other) in BACKEND_PRIORITY.iter().enumerate() {
            if other.codec() == codec && HARDWARE_DECODERS.contains(other) && *other != backend {
                assert!(i < at, "{other:?} must be probed before {backend:?}");
            }
        }
    }
}

#[test]
fn every_codec_has_a_decoder() {
    for codec in VideoCodec::all_preferred() {
        let backends: Vec<_> = BACKEND_PRIORITY.iter().filter(|b| b.codec() == codec).collect();
        assert!(!backends.is_empty(), "no decoder backend handles {codec:?}");
        assert!(backends.len() > 1, "{codec:?} has only one decoder backend");
    }
}

const HARDWARE_ENCODERS: &[EncoderBackend] = &[
    EncoderBackend::IntelQsv,
    EncoderBackend::NvidiaEnc,
    EncoderBackend::AmdAmf,
    EncoderBackend::AmdVaapi,
    EncoderBackend::Vp9Vaapi,
    EncoderBackend::Vp9V4l2m2m,
    EncoderBackend::Vp8V4l2m2m,
    EncoderBackend::H265Qsv,
    EncoderBackend::H265Nvenc,
    EncoderBackend::H265Amf,
    EncoderBackend::H265Vaapi,
    EncoderBackend::H265V4l2m2m,
    EncoderBackend::H264Qsv,
    EncoderBackend::H264Nvenc,
    EncoderBackend::H264Amf,
    EncoderBackend::H264Vaapi,
    EncoderBackend::H264V4l2m2m,
];

const SOFTWARE_ENCODERS: &[EncoderBackend] = &[
    EncoderBackend::SvtAv1,
    EncoderBackend::SvtVp9,
    EncoderBackend::Vp8Libvpx,
    EncoderBackend::Libx265,
    EncoderBackend::Libx264,
];

fn all_encoders() -> Vec<EncoderBackend> {
    HARDWARE_ENCODERS.iter().chain(SOFTWARE_ENCODERS).copied().collect()
}

#[test]
fn encoder_all_backends_are_accounted_for() {
    assert_eq!(all_encoders().len(), ENCODER_PRIORITY.len());
}

#[test]
fn encoder_every_backend_is_probed() {
    for backend in all_encoders() {
        assert!(ENCODER_PRIORITY.contains(&backend), "{backend:?} will never be probed");
    }
}

#[test]
fn encoder_priority_list_has_no_duplicates() {
    let mut seen = Vec::new();
    for backend in ENCODER_PRIORITY {
        assert!(!seen.contains(&backend), "{backend:?} appears twice");
        seen.push(backend);
    }
}

#[test]
fn encoder_ffmpeg_name_agrees_with_declared_codec() {
    for backend in all_encoders() {
        let name = backend.codec_name();
        let ok = match backend.codec() {
            VideoCodec::Av1 => name.contains("av1"),
            VideoCodec::Vp9 => name.contains("vp9"),
            VideoCodec::Vp8 => name.contains("vp8") || name == "libvpx",
            VideoCodec::H265 => name.contains("hevc") || name.contains("265"),
            VideoCodec::H264 => name.contains("h264") || name.contains("264"),
        };
        assert!(ok, "{backend:?} declares {:?} but is {name:?}", backend.codec());
    }
}

#[test]
fn display_names_the_ffmpeg_encoder() {
    for backend in all_encoders() {
        let shown = backend.display_name();
        assert!(shown.contains(backend.codec_name()), "{backend:?} is shown as {shown:?}");
    }
}

#[test]
fn encoder_hardware_is_probed_before_software() {
    let last_hw = ENCODER_PRIORITY.iter().rposition(|b| HARDWARE_ENCODERS.contains(b)).unwrap();
    let first_sw = ENCODER_PRIORITY.iter().position(|b| SOFTWARE_ENCODERS.contains(b)).unwrap();
    assert!(last_hw < first_sw);
}

#[test]
fn encoder_each_tier_follows_the_documented_codec_preference() {
    let rank = |c: VideoCodec| VideoCodec::all_preferred().iter().position(|p| *p == c).unwrap();
    for (tier, members) in [("hardware", HARDWARE_ENCODERS), ("software", SOFTWARE_ENCODERS)] {
        let ranks: Vec<_> = ENCODER_PRIORITY
            .iter()
            .filter(|b| members.contains(b))
            .map(|b| rank(b.codec()))
            .collect();
        let mut sorted = ranks.clone();
        sorted.sort_unstable();
        assert_eq!(ranks, sorted, "{tier} tier departs from the preferred order");
    }
}

#[test]
fn every_codec_has_an_encoder() {
    for codec in VideoCodec::all_preferred() {
        assert!(ENCODER_PRIORITY.iter().any(|b| b.codec() == codec), "no encoder for {codec:?}");
    }
}

#[test]
fn empty_negotiation_set_allows_everything() {
    assert_eq!(candidates(&[]).len(), ENCODER_PRIORITY.len());
}

#[test]
fn negotiation_yields_only_allowed_codecs() {
    let allowed = [VideoCodec::Vp9, VideoCodec::H264];
    let picked = candidates(&allowed);
    assert!(!picked.is_empty());
    for backend in &picked {
        assert!(allowed.contains(&backend.codec()), "{backend:?} was not advertised");
    }
}

#[test]
fn negotiation_preserves_priority_order() {
    let all_codecs = VideoCodec::all_preferred();
    let picked = candidates(&all_codecs);
    assert_eq!(picked, ENCODER_PRIORITY.to_vec());
}

#[test]
fn single_codec_negotiation_keeps_its_fallback_chain() {
    for codec in VideoCodec::all_preferred() {
        let picked = candidates(&[codec]);
        assert!(picked.iter().all(|b| b.codec() == codec), "{codec:?} leaked another codec");
        assert!(picked.len() > 1, "{codec:?} has no fallback");
    }
}

#[test]
fn probing_goes_through_the_candidates() {
    let mut probe = EncoderProbe::new(&[VideoCodec::Vp8]);
    assert_eq!(probe.current().ok(), Some(EncoderBackend::Vp8V4l2m2m));
    probe.reject();
    assert_eq!(probe.current().ok(), Some(EncoderBackend::Vp8Libvpx));
    probe.reject();
    let e = probe.current().err().unwrap();
    assert!(matches!(e, EncoderError::NoEncoder));
}

fn texts(plan: &EncoderPlan) -> Vec<(&str, &str)> {
    plan.options.iter().map(|(k, v)| (k.as_str(), v.as_str())).collect()
}

#[test]
fn software_av1_is_tuned_for_low_delay() {
    let plan = EncoderPlan::new(EncoderBackend::SvtAv1, &EncoderConfig::default());
    assert_eq!(plan.codec_name, "libsvtav1");
    assert_eq!(plan.pixel_format, PixelFormat::Yuv420p);
    assert_eq!((plan.width, plan.height, plan.fps, plan.gop), (1920, 1080, 30, 60));
    assert_eq!(plan.bit_rate, None);
    assert_eq!(plan.max_b_frames, Some(0));
    assert!(texts(&plan).contains(&("svtav1-params", "pred-struct=1")));
    let config = EncoderConfig {
        extra_svt_params: Some("scm=2".to_string()),
        preset: Some("8".to_string()),
        crf: Some(30),
        ..EncoderConfig::default()
    };
    let plan = EncoderPlan::new(EncoderBackend::SvtAv1, &config);
    assert!(texts(&plan).contains(&("svtav1-params", "pred-struct=1:scm=2")));
    assert!(texts(&plan).contains(&("preset", "8")));
    assert!(texts(&plan).contains(&("crf", "30")));
}

#[test]
fn hardware_encoders_get_a_bit_rate() {
    let plan = EncoderPlan::new(EncoderBackend::H264Nvenc, &EncoderConfig::default());
    assert_eq!(plan.bit_rate, Some(5_000_000));
    assert_eq!(plan.pixel_format, PixelFormat::Nv12);
}

#[test]
fn hardware_encoders_are_fed_nv12_and_software_ones_planar_yuv() {
    for backend in HARDWARE_ENCODERS {
        let plan = EncoderPlan::new(*backend, &EncoderConfig::default());
        assert_eq!(plan.pixel_format, PixelFormat::Nv12, "{backend:?}");
    }
    for backend in SOFTWARE_ENCODERS {
        let plan = EncoderPlan::new(*backend, &EncoderConfig::default());
        assert_eq!(plan.pixel_format, PixelFormat::Yuv420p, "{backend:?}");
    }
}

#[test]
fn frames_of_the_wrong_size_are_refused() {
    assert!(check_frame_size(4, 2, 32).is_ok());
    match check_frame_size(4, 2, 31) {
        Err(EncoderError::EncodeFailed(m)) => assert_eq!(m, "expected 32 bytes, got 31"),
        other => panic!("expected an error, got {other:?}"),
    }
}

#[test]
fn rows_are_copied_to_their_stride() {
    let mut plane = vec![9u8; 12];
    copy_rows(&[1, 2, 3, 4], 2, 2, &mut plane, 5);
    assert_eq!(plane, vec![1, 2, 9, 9, 9, 3, 4, 9, 9, 9, 9, 9]);
}

#[test]
fn the_last_row_needs_no_padding() {
    let mut plane = vec![9u8; 7];
    copy_rows(&[1, 2, 3, 4], 2, 2, &mut plane, 5);
    assert_eq!(plane, vec![1, 2, 9, 9, 9, 3, 4]);
    let mut close = vec![9u8; 3];
    copy_rows(&[1, 2, 3, 4], 2, 2, &mut close, 1);
    assert_eq!(close, vec![1, 3, 4]);
    copy_rows(&[], 2, 0, &mut close, 0);
    assert_eq!(close, vec![1, 3, 4]);
}

#[test]
fn packets_are_drained_until_the_encoder_wants_more() {
    let mut out = Vec::new();
    let packet = PacketEvent::Packet { data: vec![1, 2], keyframe: true };
    assert!(drain_step(&mut out, packet, 77).unwrap());
    let empty = PacketEvent::Packet { data: vec![], keyframe: false };
    assert!(drain_step(&mut out, empty, 77).unwrap());
    assert!(!drain_step(&mut out, PacketEvent::Again, 77).unwrap());
    assert_eq!(out.len(), 1);
    assert_eq!((out[0].data.clone(), out[0].keyframe, out[0].timestamp_us), (vec![1, 2], true, 77));
    let e = drain_step(&mut out, PacketEvent::Failed("boom".to_string()), 77).unwrap_err();
    assert!(e.message().contains("receive packet: boom"));
    let e = drain_step(&mut out, PacketEvent::Eof, 77).unwrap_err();
    assert!(e.message().contains("End of file"));
}

#[test]
fn a_flush_waits_only_so_long() {
    let mut out = Vec::new();
    assert_eq!(flush_step(&mut out, PacketEvent::Again, false), FlushStep::Wait);
    assert_eq!(flush_step(&mut out, PacketEvent::Again, true), FlushStep::Stop);
    let packet = PacketEvent::Packet { data: vec![5], keyframe: false };
    assert_eq!(flush_step(&mut out, packet, true), FlushStep::More);
    assert_eq!(out.len(), 1);
    assert_eq!(flush_step(&mut out, PacketEvent::Eof, false), FlushStep::Stop);
    let failed = PacketEvent::Failed("x".to_string());
    assert_eq!(flush_step(&mut out, failed, false), FlushStep::Stop);
}

#[test]
fn codec_errors_say_what_they_are() {
    assert_eq!(AudioError::Opus("bad".to_string()).message(), "opus error: bad");
    assert_eq!(AudioError::Other("x".to_string()).message(), "audio error: x");
    assert!(EncoderError::EncodeFailed("x".to_string()).message().contains("x"));
    assert!(DecoderError::DecodeFailed("y".to_string()).message().contains("y"));
}

#[test]
fn frame_size_is_twenty_ms_at_the_current_rate() {
    assert_eq!(FRAME_SIZE, 960);
    assert_eq!(FRAME_SIZE as u32 * 1000 / SAMPLE_RATE, FRAME_MS);
}

#[test]
fn interleaved_frame_divides_by_channel_count() {
    let interleaved = FRAME_SIZE * CHANNELS as usize;
    assert_eq!(interleaved % CHANNELS as usize, 0);
    assert_eq!(interleaved / CHANNELS as usize, FRAME_SIZE);
}

#[test]
fn bitrate_is_within_the_opus_accepted_range() {
    assert!((6_000..=510_000).contains(&BITRATE));
}

#[test]
fn interleaved_samples_are_counted() {
    assert_eq!(interleaved_len(0), 0);
    assert_eq!(interleaved_len(FRAME_SIZE), 1920);
}

#[test]
fn a_search_skips_other_codecs() {
    assert_eq!(next_backend(0, &[], None), Some(0));
    assert_eq!(next_backend(0, &[BACKEND_PRIORITY[0]], None), Some(1));
    let first_h264 = BACKEND_PRIORITY.iter().position(|b| b.codec() == VideoCodec::H264).unwrap();
    assert_eq!(next_backend(0, &[], Some(VideoCodec::H264)), Some(first_h264));
    assert_eq!(next_backend(BACKEND_PRIORITY.len(), &[], None), None);
}

#[test]
fn a_decoder_falls_back_until_one_opens_and_decodes() {
    let (mut d, first) = VideoDecoder::for_codec(VideoCodec::Av1);
    assert!(matches!(first, DecodeAction::Open(DecoderBackend::NvidiaCuvid)));
    assert!(matches!(d.open_failed(), DecodeAction::Open(DecoderBackend::IntelQsv)));
    assert!(matches!(d.opened(), DecodeAction::Ready));
    assert_eq!(d.backend(), Some(DecoderBackend::IntelQsv));
    assert!(matches!(d.packet(), DecodeAction::Decode));
    // The first packet fails: the backend never worked, so the next one is tried.
    assert!(matches!(d.decode_failed(), DecodeAction::Open(DecoderBackend::Dav1d)));
    assert!(matches!(d.opened(), DecodeAction::Decode));
    assert!(matches!(d.frame(640, 480, false), DecodeAction::Deliver { new_scaler: true }));
    assert_eq!(d.codec(), Some(VideoCodec::Av1));
}

#[test]
fn a_proven_decoder_starts_over_before_it_is_given_up() {
    let (mut d, _) = VideoDecoder::for_codec(VideoCodec::H264);
    let _ = d.opened();
    let _ = d.packet();
    let _ = d.frame(640, 480, false);
    let proven = d.backend().unwrap();
    for round in 1..=MAX_REINIT_FAILURES {
        let _ = d.packet();
        match d.decode_failed() {
            DecodeAction::Reinit(b) => assert_eq!(b, proven),
            other => panic!("expected a fresh start, got {other:?}"),
        }
        match d.reinit_failed(ReinitStage::Send, "why") {
            DecodeAction::Fail(e) => {
                assert!(round < MAX_REINIT_FAILURES);
                assert_eq!(e.message(), "decode failed: reinit send: why");
                assert_eq!(d.phase(), DecoderPhase::Idle);
            }
            DecodeAction::Open(next) => {
                assert_eq!(round, MAX_REINIT_FAILURES);
                assert_ne!(next, proven);
                assert_eq!(next.codec(), VideoCodec::H264);
            }
            other => panic!("unexpected {other:?}"),
        }
    }
}

#[test]
fn a_search_without_a_decoder_says_so() {
    let (mut d, mut action) = VideoDecoder::for_codec(VideoCodec::Vp8);
    for _ in 0..BACKEND_PRIORITY.len() {
        if let DecodeAction::Open(b) = action {
            assert_eq!(b.codec(), VideoCodec::Vp8);
            action = d.open_failed();
        }
    }
    match action {
        DecodeAction::Fail(DecoderError::InitFailed(e)) => {
            assert_eq!(e, format!("no {} decoder available", VideoCodec::Vp8.display_name()))
        }
        other => panic!("expected an error, got {other:?}"),
    }
    assert_eq!(d.phase(), DecoderPhase::Unavailable);
    assert_eq!(DecoderError::NoFrame.message(), "no frame available");
}

#[test]
fn a_decoder_waits_for_its_first_picture() {
    let (mut d, _) = VideoDecoder::for_codec(VideoCodec::Vp9);
    let _ = d.opened();
    let _ = d.packet();
    assert!(matches!(d.no_frame(), DecodeAction::Wait));
    assert_eq!(d.phase(), DecoderPhase::Idle);
    // It never worked, so a failure now moves on to the next backend.
    let _ = d.packet();
    assert!(matches!(d.decode_failed(), DecodeAction::Open(_)));
}

#[test]
fn pixels_skip_what_stands_behind_the_rows() {
    let rows = [1, 2, 3, 255, 4, 5, 6, 0, 99, 99, 7, 8, 9, 255, 10, 11, 12, 255, 99, 99];
    assert_eq!(pixels_of_rows(&rows, 10, 2, 2), vec![0x010203, 0x040506, 0x070809, 0x0A0B0C]);
    assert_eq!(pixels_of_rows(&rows, 10, 1, 2), vec![0x010203, 0x070809]);
    assert_eq!(pixels_of_rows(&[], 0, 0, 3), Vec::<u32>::new());
    assert_eq!(pixels_of_rows(&rows[..17], 10, 2, 2)[3], 0x0A0B0C);
    assert_eq!(pixels_of_rows(&rows[..7], 0, 2, 2), vec![0x010203, 0x040506, 0x010203, 0x040506]);
}

#[test]
fn a_decoder_keeps_its_codec_through_fallbacks_and_fresh_starts() {
    let (mut d, mut action) = VideoDecoder::for_codec(VideoCodec::Vp9);
    let mut tried = Vec::new();
    loop {
        match action {
            DecodeAction::Open(b) => {
                assert_eq!(b.codec(), VideoCodec::Vp9);
                tried.push(b);
                action = d.opened();
            }
            DecodeAction::Ready => action = d.packet(),
            DecodeAction::Decode => {
                assert_eq!(d.codec(), Some(VideoCodec::Vp9));
                action = if tried.len() < 3 { d.decode_failed() } else { d.frame(8, 8, true) };
            }
            DecodeAction::Deliver { .. } => break,
            other => panic!("unexpected {other:?}"),
        }
    }
    assert_eq!(
        tried,
        vec![DecoderBackend::Vp9Vaapi, DecoderBackend::Vp9V4l2m2m, DecoderBackend::LibvpxVp9]
    );
    for _ in 0..MAX_REINIT_FAILURES {
        d.packet();
        assert!(matches!(d.decode_failed(), DecodeAction::Reinit(DecoderBackend::LibvpxVp9)));
        let failed = d.reinit_failed(ReinitStage::Send, "bad data");
        assert!(matches!(failed, DecodeAction::Fail(_)));
        assert_eq!(d.codec(), Some(VideoCodec::Vp9));
    }
}

#[test]
fn pictures_have_a_plain_pixel_for_each_place() {
    let rows = vec![255u8; 3 * 12];
    let pixels = pixels_of_rows(&rows, 12, 2, 3);
    assert_eq!(pixels.len(), 6);
    assert!(pixels.iter().all(|p| *p == 0x00FF_FFFF));
}
