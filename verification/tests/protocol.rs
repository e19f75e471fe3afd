use bytes::BytesMut;
use ciborium::Value;
use termland::protocol::frame::{CodecError, TermlandCodec, HEADER_SIZE};
use termland::protocol::input::{browser_code_to_evdev, buttons};
use termland::protocol::messages::{
    default_quality, AudioCodec, DecodeError, EncodeError, Hello, Message, MessageId, Ping,
    VideoCodec, FRAME_MAGIC, MAX_PAYLOAD_SIZE, PROTOCOL_VERSION,
};
use termland::protocol::q2::{
    audio_header_bytes, bitstream_matches_codec, parse_audio_datagram, parse_video_header,
    video_header_bytes, AUDIO_HEADER_LEN, VIDEO_HEADER_LEN,
};
use termland::protocol::messages::FrameType;

fn map(fields: Vec<(&str, Value)>) -> Value {
    Value::Map(fields.into_iter().map(|(k, v)| (Value::Text(k.to_string()), v)).collect())
}

fn bytes_of(value: &Value) -> Vec<u8> {
    let mut out = Vec::new();
    ciborium::into_writer(value, &mut out).unwrap();
    out
}

/// Frames a value, takes the frame off again and reads the value.
fn round_trip(id: MessageId, value: &Value) -> Value {
    let mut codec = TermlandCodec;
    let mut buf = BytesMut::new();
    codec.encode(id, &bytes_of(value), &mut buf).unwrap();
    assert_eq!(buf[2], id.as_u8());
    let frame = codec.decode(&mut buf).unwrap().unwrap();
    assert_eq!(MessageId::from_u8(frame.message_id), Some(id));
    assert!(buf.is_empty());
    ciborium::from_reader(&frame.payload[..]).unwrap()
}

fn field<'a>(value: &'a Value, name: &str) -> &'a Value {
    let fields = value.as_map().unwrap();
    &fields.iter().find(|(k, _)| k.as_text() == Some(name)).unwrap().1
}

#[test]
fn roundtrip_hello() {
    let msg = map(vec![
        ("protocol_version", Value::from(1)),
        ("client_name", Value::from("test-client")),
    ]);
    let decoded = round_trip(MessageId::Hello, &msg);
    assert_eq!(field(&decoded, "protocol_version"), &Value::from(1));
    assert_eq!(field(&decoded, "client_name"), &Value::from("test-client"));
}

#[test]
fn roundtrip_text_input() {
    let text = "héllo 世界 🎉";
    let decoded = round_trip(MessageId::TextInput, &map(vec![("text", Value::from(text))]));
    assert_eq!(field(&decoded, "text").as_text(), Some(text));
}

#[test]
fn roundtrip_video_frame() {
    let msg = map(vec![
        ("timestamp_us", Value::from(12345)),
        ("frame_type", Value::from("Keyframe")),
        ("width", Value::from(1920)),
        ("height", Value::from(1080)),
        ("codec", Value::from("Av1")),
        ("data", Value::Bytes(vec![0xDE, 0xAD, 0xBE, 0xEF])),
    ]);
    let decoded = round_trip(MessageId::VideoFrame, &msg);
    assert_eq!(field(&decoded, "timestamp_us"), &Value::from(12345));
    assert_eq!(field(&decoded, "width"), &Value::from(1920));
    assert_eq!(field(&decoded, "data"), &Value::Bytes(vec![0xDE, 0xAD, 0xBE, 0xEF]));
}

#[test]
fn roundtrip_cursor_update() {
    let msg = map(vec![
        ("x", Value::from(640)),
        ("y", Value::from(360)),
        ("hotspot_x", Value::from(3)),
        ("hotspot_y", Value::from(1)),
        ("width", Value::from(16)),
        ("height", Value::from(16)),
        ("visible", Value::from(true)),
        ("image_rgba", Value::Bytes([0u8, 128, 255, 255].repeat(16 * 16))),
    ]);
    let decoded = round_trip(MessageId::CursorUpdate, &msg);
    assert_eq!(field(&decoded, "x"), &Value::from(640));
    assert_eq!(field(&decoded, "y"), &Value::from(360));
    assert_eq!(field(&decoded, "hotspot_x"), &Value::from(3));
    assert_eq!(field(&decoded, "hotspot_y"), &Value::from(1));
    assert_eq!(field(&decoded, "width"), &Value::from(16));
    assert_eq!(field(&decoded, "height"), &Value::from(16));
    assert_eq!(field(&decoded, "visible"), &Value::from(true));
    assert_eq!(field(&decoded, "image_rgba").as_bytes().unwrap().len(), 16 * 16 * 4);
}

fn file(name: &str, data: Vec<u8>) -> Value {
    map(vec![("name", Value::from(name)), ("data", Value::Bytes(data))])
}

#[test]
fn roundtrip_file_transfer() {
    let msg = map(vec![(
        "files",
        Value::Array(vec![
            file("report.pdf", vec![0x25, 0x50, 0x44, 0x46]),
            file("üñïçødé notes.txt", b"hello world".to_vec()),
        ]),
    )]);
    let decoded = round_trip(MessageId::FileTransferSend, &msg);
    let files = field(&decoded, "files").as_array().unwrap();
    assert_eq!(files.len(), 2);
    assert_eq!(field(&files[0], "name").as_text(), Some("report.pdf"));
    assert_eq!(field(&files[0], "data").as_bytes().unwrap(), &vec![0x25, 0x50, 0x44, 0x46]);
    assert_eq!(field(&files[1], "name").as_text(), Some("üñïçødé notes.txt"));
    assert_eq!(field(&files[1], "data").as_bytes().unwrap(), &b"hello world".to_vec());
}

#[test]
fn roundtrip_file_transfer_data_server_to_client() {
    let msg = map(vec![("files", Value::Array(vec![file("a.txt", vec![1, 2, 3])]))]);
    let decoded = round_trip(MessageId::FileTransferData, &msg);
    let files = field(&decoded, "files").as_array().unwrap();
    assert_eq!(files.len(), 1);
    assert_eq!(field(&files[0], "name").as_text(), Some("a.txt"));
    assert_eq!(field(&files[0], "data").as_bytes().unwrap(), &vec![1, 2, 3]);
}

#[test]
fn partial_read() {
    let payload = bytes_of(&map(vec![("timestamp_us", Value::from(42))]));
    let mut codec = TermlandCodec;
    let mut full_buf = BytesMut::new();
    codec.encode(MessageId::Ping, &payload, &mut full_buf).unwrap();

    let half = full_buf.len() / 2;
    let mut partial = BytesMut::from(&full_buf[..half]);
    assert!(codec.decode(&mut partial).unwrap().is_none());

    partial.extend_from_slice(&full_buf[half..]);
    let frame = codec.decode(&mut partial).unwrap().unwrap();
    assert_eq!(frame.message_id, MessageId::Ping.as_u8());
    let value: Value = ciborium::from_reader(&frame.payload[..]).unwrap();
    assert_eq!(field(&value, "timestamp_us"), &Value::from(42));
}

#[test]
fn frames_have_an_exact_layout() {
    let mut codec = TermlandCodec;
    let mut buf = BytesMut::from(&b"before"[..]);
    codec.encode(MessageId::Hello, b"abc", &mut buf).unwrap();
    let mut expected = b"before".to_vec();
    expected.extend_from_slice(&FRAME_MAGIC);
    expected.push(MessageId::Hello.as_u8());
    expected.extend_from_slice(&[3, 0, 0, 0]);
    expected.extend_from_slice(b"abc");
    assert_eq!(&buf[..], &expected[..]);
    assert_eq!(HEADER_SIZE, 7);
}

#[test]
fn two_frames_come_off_one_by_one() {
    let mut codec = TermlandCodec;
    let mut buf = BytesMut::new();
    codec.encode(MessageId::Hello, b"one", &mut buf).unwrap();
    codec.encode(MessageId::Ping, b"", &mut buf).unwrap();
    let first = codec.decode(&mut buf).unwrap().unwrap();
    assert_eq!(&first.payload[..], b"one");
    let second = codec.decode(&mut buf).unwrap().unwrap();
    assert_eq!(second.message_id, MessageId::Ping.as_u8());
    assert!(second.payload.is_empty());
    assert!(codec.decode(&mut buf).unwrap().is_none());
}

#[test]
fn foreign_bytes_are_no_frame() {
    let mut codec = TermlandCodec;
    let mut buf = BytesMut::from(&b"HTTP/1.1 200 OK"[..]);
    assert!(matches!(codec.decode(&mut buf), Err(CodecError::InvalidMagic)));
}

#[test]
fn payloads_that_are_too_large_are_refused() {
    let mut codec = TermlandCodec;
    let mut buf = BytesMut::new();
    buf.extend_from_slice(&FRAME_MAGIC);
    buf.extend_from_slice(&[1]);
    buf.extend_from_slice(&(MAX_PAYLOAD_SIZE + 1).to_le_bytes());
    match codec.decode(&mut buf) {
        Err(CodecError::PayloadTooLarge(n)) => assert_eq!(n, MAX_PAYLOAD_SIZE + 1),
        other => panic!("expected an error, got {other:?}"),
    }
    let large = vec![0u8; MAX_PAYLOAD_SIZE as usize + 1];
    let mut out = BytesMut::new();
    assert!(matches!(
        codec.encode(MessageId::VideoFrame, &large, &mut out),
        Err(CodecError::PayloadTooLarge(_))
    ));
    let mut exact = BytesMut::new();
    codec.encode(MessageId::VideoFrame, &large[1..], &mut exact).unwrap();
    assert_eq!(exact.len(), HEADER_SIZE + MAX_PAYLOAD_SIZE as usize);
}

#[test]
fn stream_errors_say_what_they_are() {
    assert_eq!(CodecError::InvalidMagic.message(), "invalid magic bytes");
    assert_eq!(
        CodecError::PayloadTooLarge(99).message(),
        "payload too large: 99 bytes (max 16777216)"
    );
    assert_eq!(
        CodecError::Encode(EncodeError("x".to_string())).message(),
        format!("encode error: {}", EncodeError("x".to_string()).message())
    );
    assert_eq!(
        CodecError::Decode(DecodeError("y".to_string())).message(),
        format!("decode error: {}", DecodeError("y".to_string()).message())
    );
    assert_eq!(CodecError::Io("broken pipe".to_string()).message(), "io error: broken pipe");
}

#[test]
fn message_ids_survive_the_wire() {
    let mut seen = Vec::new();
    for v in 0..=255u8 {
        if let Some(id) = MessageId::from_u8(v) {
            assert_eq!(id.as_u8(), v);
            assert!(!seen.contains(&id.name()));
            seen.push(id.name());
        }
    }
    assert!(seen.len() > 20);
    let hello = Message::Hello(Hello {
        protocol_version: PROTOCOL_VERSION,
        client_name: "c".to_string(),
    });
    assert_eq!(hello.message_id(), MessageId::Hello);
    assert_eq!(Message::Ping(Ping { timestamp_us: 1 }).message_id(), MessageId::Ping);
}

#[test]
fn protocol_defaults() {
    assert_eq!(PROTOCOL_VERSION, 1);
    assert_eq!(default_quality(), 75);
    assert_eq!(
        VideoCodec::all_preferred(),
        vec![
            VideoCodec::Av1,
            VideoCodec::Vp9,
            VideoCodec::Vp8,
            VideoCodec::H265,
            VideoCodec::H264
        ]
    );
    assert_eq!(AudioCodec::all_preferred(), vec![AudioCodec::Opus]);
    assert_eq!(AudioCodec::before_negotiation(), vec![AudioCodec::Opus]);
}

#[test]
fn home_row_and_modifiers_match_evdev() {
    assert_eq!(browser_code_to_evdev("Escape"), Some(1));
    assert_eq!(browser_code_to_evdev("KeyA"), Some(30));
    assert_eq!(browser_code_to_evdev("KeyS"), Some(31));
    assert_eq!(browser_code_to_evdev("KeyD"), Some(32));
    assert_eq!(browser_code_to_evdev("Enter"), Some(28));
    assert_eq!(browser_code_to_evdev("Space"), Some(57));
    assert_eq!(browser_code_to_evdev("ControlLeft"), Some(29));
    assert_eq!(browser_code_to_evdev("ShiftLeft"), Some(42));
    assert_eq!(browser_code_to_evdev("AltLeft"), Some(56));
    assert_eq!(browser_code_to_evdev("MetaLeft"), Some(125));
}

#[test]
fn unknown_codes_are_dropped_not_guessed() {
    assert_eq!(browser_code_to_evdev("Fn"), None);
    assert_eq!(browser_code_to_evdev(""), None);
    assert_eq!(browser_code_to_evdev("keya"), None, "match is case-sensitive");
}

#[test]
fn every_mapped_code_is_unique() {
    const CODES: &[&str] = &[
        "Escape", "Digit1", "Digit2", "Digit3", "Digit4", "Digit5", "Digit6",
        "Digit7", "Digit8", "Digit9", "Digit0", "Minus", "Equal", "Backspace",
        "Tab", "KeyQ", "KeyW", "KeyE", "KeyR", "KeyT", "KeyY", "KeyU", "KeyI",
        "KeyO", "KeyP", "BracketLeft", "BracketRight", "Enter", "ControlLeft",
        "KeyA", "KeyS", "KeyD", "KeyF", "KeyG", "KeyH", "KeyJ", "KeyK", "KeyL",
        "Semicolon", "Quote", "Backquote", "ShiftLeft", "Backslash", "KeyZ",
        "KeyX", "KeyC", "KeyV", "KeyB", "KeyN", "KeyM", "Comma", "Period",
        "Slash", "ShiftRight", "NumpadMultiply", "AltLeft", "Space", "CapsLock",
        "F1", "F2", "F3", "F4", "F5", "F6", "F7", "F8", "F9", "F10", "NumLock",
        "ScrollLock", "Numpad7", "Numpad8", "Numpad9", "NumpadSubtract",
        "Numpad4", "Numpad5", "Numpad6", "NumpadAdd", "Numpad1", "Numpad2",
        "Numpad3", "Numpad0", "NumpadDecimal", "F11", "F12", "NumpadEnter",
        "ControlRight", "NumpadDivide", "PrintScreen", "AltRight", "Home",
        "ArrowUp", "PageUp", "ArrowLeft", "ArrowRight", "End", "ArrowDown",
        "PageDown", "Insert", "Delete", "Pause", "MetaLeft", "MetaRight",
        "ContextMenu",
    ];
    let mut seen = std::collections::HashMap::new();
    for code in CODES {
        let sc = browser_code_to_evdev(code)
            .unwrap_or_else(|| panic!("{code} is in the list but maps to None"));
        if let Some(prev) = seen.insert(sc, *code) {
            panic!("scancode {sc} is used by both {prev} and {code}");
        }
    }
}

#[test]
fn button_codes_are_those_of_evdev() {
    assert_eq!(
        [buttons::LEFT, buttons::RIGHT, buttons::MIDDLE, buttons::BACK, buttons::FORWARD],
        [0x110, 0x111, 0x112, 0x113, 0x114]
    );
}

#[test]
fn video_header_round_trips_all_codecs_and_frame_types() {
    for (codec, tag) in [
        (VideoCodec::Av1, 0u8),
        (VideoCodec::Vp9, 1),
        (VideoCodec::Vp8, 2),
        (VideoCodec::H265, 3),
        (VideoCodec::H264, 4),
    ] {
        for (frame_type, keyframe) in [(FrameType::Inter, false), (FrameType::Keyframe, true)] {
            let header = video_header_bytes(codec, frame_type, 1920, 1080, 123_456_789_012, 65536);
            assert_eq!(header.len(), VIDEO_HEADER_LEN);
            let parsed = parse_video_header(&header).expect("parse");
            assert_eq!(header[0], tag);
            assert_eq!(parsed.codec, codec);
            assert_eq!(parsed.keyframe, keyframe);
            assert_eq!(parsed.width, 1920);
            assert_eq!(parsed.height, 1080);
            assert_eq!(parsed.timestamp_us, 123_456_789_012);
            assert_eq!(parsed.data_len, 65536);
        }
    }
}

#[test]
fn video_header_byte_offsets_are_exact() {
    let header = video_header_bytes(
        VideoCodec::H264,
        FrameType::Keyframe,
        0x0102,
        0x0304,
        0x0102030405060708,
        0xAABBCCDD,
    );
    assert_eq!(header[0], 4);
    assert_eq!(header[1], 1);
    assert_eq!(&header[2..4], &0x0102u16.to_le_bytes());
    assert_eq!(&header[4..6], &0x0304u16.to_le_bytes());
    assert_eq!(&header[6..14], &0x0102030405060708u64.to_le_bytes());
    assert_eq!(&header[14..18], &0xAABBCCDDu32.to_le_bytes());
}

#[test]
fn unknown_codec_tag_is_rejected() {
    let mut header = video_header_bytes(VideoCodec::Av1, FrameType::Inter, 1, 1, 0, 0);
    header[0] = 255;
    assert!(parse_video_header(&header).is_none());
}

#[test]
fn audio_header_layout_is_exact() {
    let header = audio_header_bytes(48000, 2);
    assert_eq!(header.len(), AUDIO_HEADER_LEN);
    assert_eq!(&header[0..4], &48000u32.to_le_bytes());
    assert_eq!(header[4], 2);
    let datagram = [&header[..], b"opus"].concat();
    let (rate, ch, payload) = parse_audio_datagram(&datagram).unwrap();
    assert_eq!(rate, 48000);
    assert_eq!(ch, 2);
    assert_eq!(payload, b"opus");
}

#[test]
fn short_audio_datagram_is_rejected() {
    assert!(parse_audio_datagram(&[0, 1, 2, 3]).is_none());
}

#[test]
fn bitstream_probe_accepts_av1_obu_and_h264_annexb() {
    assert!(bitstream_matches_codec(VideoCodec::Av1, &[0x08, 0x00]));
    assert!(bitstream_matches_codec(VideoCodec::H264, &[0, 0, 0, 1, 0x67]));
    assert!(!bitstream_matches_codec(VideoCodec::Av1, &[0xFF]));
    assert!(!bitstream_matches_codec(VideoCodec::H264, &[0x67, 0x42]));
    assert!(!bitstream_matches_codec(VideoCodec::Av1, &[]));
}
