use bytes::BytesMut;
use ciborium::Value;
use termland::mobile::client::{TermlandClient, BTN_LEFT};
use termland::mobile::error::TermlandError;
use termland::mobile::session::{
    close_request, decode_video_codec_tag, handshake_step, hello, list_request, list_sessions,
    next_message, open_session, opening_message, parse_audio_datagram, parse_video_header,
    quic_audio_reader, quic_video_reader, run_session, video_packet, HandshakeState,
    HandshakeStep, InputCommand, LoopAction, LoopEvent, VideoRead, AUDIO_HEADER_LEN,
    MAX_FRAME_BYTES, VIDEO_HEADER_LEN,
};
use termland::mobile::transport::{
    check_ssh_login, connect_error, dial_address, subsystem_step, ChannelReply, ConnectStage,
    SubsystemStep, Transport,
};
use termland::mobile::types::{
    MobileCodec, ServerProfile, SessionParams, SessionReadyInfo,
};
use termland::protocol::frame::{CodecError, TermlandCodec};
use termland::protocol::messages::{
    AudioChunk, AuthRequest, AuthResult, ClipboardPayload, FrameType, HelloAck, Message,
    MessageId, Ping, SessionEnd, SessionInfo, SessionListResult, SessionMode, SessionReady,
    VideoCodec, VideoFrame,
};

fn params() -> SessionParams {
    SessionParams {
        width: 1920,
        height: 1080,
        quality: 75,
        audio: false,
        desktop_shell: None,
        app_command: None,
        supported_codecs: vec![MobileCodec::H265, MobileCodec::H264],
    }
}

fn framed(id: MessageId, value: &Value) -> Value {
    let mut payload = Vec::new();
    ciborium::into_writer(value, &mut payload).unwrap();
    let mut codec = TermlandCodec;
    let mut buf = BytesMut::new();
    codec.encode(id, &payload, &mut buf).expect("encode");
    let frame = codec.decode(&mut buf).expect("decode").expect("full frame");
    assert_eq!(frame.message_id, id.as_u8());
    ciborium::from_reader(&frame.payload[..]).unwrap()
}

fn field<'a>(value: &'a Value, name: &str) -> &'a Value {
    let fields = value.as_map().unwrap();
    &fields.iter().find(|(k, _)| k.as_text() == Some(name)).unwrap().1
}

fn entry(name: &str, value: Value) -> (Value, Value) {
    (Value::from(name), value)
}

#[test]
fn session_params_roundtrip_through_wire_codec() {
    let sc = match opening_message(None, &params()) {
        Message::SessionCreate(sc) => sc,
        other => panic!("expected SessionCreate, got {other:?}"),
    };
    assert!(matches!(sc.mode, SessionMode::Desktop));
    let names: Vec<Value> =
        sc.supported_codecs.iter().map(|c| Value::from(format!("{c:?}"))).collect();
    let sent = Value::Map(vec![
        entry("mode", Value::from("Desktop")),
        entry("width", Value::from(sc.width)),
        entry("height", Value::from(sc.height)),
        entry("quality", Value::from(sc.quality)),
        entry("supported_codecs", Value::Array(names)),
    ]);
    let got = framed(MessageId::SessionCreate, &sent);
    assert_eq!(field(&got, "width"), &Value::from(1920));
    assert_eq!(field(&got, "height"), &Value::from(1080));
    assert_eq!(field(&got, "quality"), &Value::from(75));
    assert_eq!(field(&got, "mode"), &Value::from("Desktop"));
    assert_eq!(
        field(&got, "supported_codecs"),
        &Value::Array(vec![Value::from("H265"), Value::from("H264")])
    );
    assert_eq!(sc.supported_codecs, vec![VideoCodec::H265, VideoCodec::H264]);
}

#[test]
fn app_command_becomes_app_mode() {
    let p = SessionParams { app_command: Some("firefox --kiosk about:blank".into()), ..params() };
    match p.session_mode() {
        SessionMode::App { command, args } => {
            assert_eq!(command, "firefox");
            assert_eq!(args, vec!["--kiosk", "about:blank"]);
        }
        other => panic!("expected App mode, got {other:?}"),
    }
    assert!(matches!(
        SessionParams { app_command: Some("  ".into()), ..params() }.session_mode(),
        SessionMode::Desktop
    ));
}

#[test]
fn empty_codec_list_advertises_all() {
    let p = SessionParams { supported_codecs: vec![], ..params() };
    assert_eq!(p.advertised_codecs(), VideoCodec::all_preferred());
}

#[test]
fn codec_tags_survive_both_conversions() {
    for c in VideoCodec::all_preferred() {
        assert_eq!(VideoCodec::from(MobileCodec::from(c)), c);
    }
}

#[test]
fn text_input_encodes_and_input_is_safe_while_disconnected() {
    let text = "héllo 🌍";
    let got = framed(MessageId::TextInput, &Value::Map(vec![entry("text", Value::from(text))]));
    assert_eq!(field(&got, "text").as_text(), Some(text));

    let mut client = TermlandClient::new();
    assert!(!client.is_connected());
    client.send_text("dropped".into());
    client.send_key(1, 0xff1b, true, 0);
    client.send_pointer_motion(10.0f64.to_bits(), 20.0f64.to_bits(), true);
    client.send_pointer_button(BTN_LEFT, true);
    client.send_scroll(0.0f64.to_bits(), (-1.0f64).to_bits());
    client.send_clipboard("text/plain".into(), b"x".to_vec());
    client.resize(800, 600);
    client.set_cursor_in_frame(true);
    client.disconnect();
    assert!(!client.is_connected());
    let id = client.start();
    assert!(client.next_input(id).is_none());
}

#[test]
fn input_reaches_the_session_that_runs() {
    let mut client = TermlandClient::new();
    assert!(client.can_start());
    let first = client.start();
    assert!(client.is_connected());
    client.send_text("".into());
    client.send_text("hi".into());
    client.resize(3, 4);
    assert!(matches!(client.next_input(first), Some(InputCommand::Text(t)) if t.text == "hi"));
    let second = client.start();
    assert!(client.is_detached(first));
    assert!(!client.is_detached(second));
    assert!(client.next_input(second).is_none());
    assert!(matches!(client.next_input(first), Some(InputCommand::Resize(_))));
    assert!(client.next_input(first).is_none());
    client.ended(first);
    assert!(client.is_connected());
    client.send_pointer_button(BTN_LEFT, true);
    match client.next_input(second).unwrap().into_message() {
        Message::MouseButton(b) => assert_eq!(b.button, 0x110),
        other => panic!("expected a button, got {other:?}"),
    }
    client.ended(second);
    assert!(!client.is_connected());
}

#[test]
fn what_waits_is_sent_after_a_detach() {
    let mut client = TermlandClient::new();
    let id = client.start();
    client.send_text("last words".into());
    client.disconnect();
    assert!(!client.is_connected());
    assert!(client.is_detached(id));
    client.send_text("too late".into());
    assert!(matches!(client.next_input(id), Some(InputCommand::Text(t)) if t.text == "last words"));
    assert!(client.next_input(id).is_none());

    // A loop that has ended sends nothing any more.
    let id = client.start();
    client.send_text("unsent".into());
    client.ended(id);
    client.disconnect();
    assert!(client.next_input(id).is_none());
}

fn profile() -> ServerProfile {
    ServerProfile {
        host: "example.test".into(),
        port: 7867,
        use_tls: false,
        accept_invalid_certs: false,
        username: None,
        password: None,
        use_ssh: false,
        use_quic: false,
    }
}

#[test]
fn transport_selection_prioritizes_ssh_over_tls_over_tcp() {
    assert!(matches!(Transport::for_profile(&profile()), Transport::Tcp));
    let tls = ServerProfile { use_tls: true, ..profile() };
    assert!(matches!(
        Transport::for_profile(&tls),
        Transport::Tls { accept_invalid_certs: false }
    ));
    let ssh = ServerProfile { use_ssh: true, ..profile() };
    assert!(matches!(Transport::for_profile(&ssh), Transport::Ssh { .. }));
    let both = ServerProfile { use_ssh: true, use_tls: true, ..profile() };
    assert!(matches!(Transport::for_profile(&both), Transport::Ssh { .. }));
}

#[test]
fn transport_selection_prioritizes_quic_over_tls_but_not_over_ssh() {
    let quic = ServerProfile { use_quic: true, ..profile() };
    assert!(matches!(
        Transport::for_profile(&quic),
        Transport::Quic { accept_invalid_certs: false }
    ));
    let quic_and_tls = ServerProfile { use_quic: true, use_tls: true, ..profile() };
    assert!(matches!(Transport::for_profile(&quic_and_tls), Transport::Quic { .. }));
    let quic_and_ssh = ServerProfile { use_quic: true, use_ssh: true, ..profile() };
    assert!(matches!(Transport::for_profile(&quic_and_ssh), Transport::Ssh { .. }));
}

#[test]
fn ssh_transport_takes_username_and_password_from_profile() {
    let p = ServerProfile {
        use_ssh: true,
        username: Some("alice".into()),
        password: Some("hunter2".into()),
        ..profile()
    };
    match Transport::for_profile(&p) {
        Transport::Ssh { username, password } => {
            assert_eq!(username, "alice");
            assert_eq!(password, "hunter2");
        }
        _ => panic!("expected Transport::Ssh"),
    }
    let no_pw = ServerProfile { use_ssh: true, username: Some("bob".into()), ..profile() };
    match Transport::for_profile(&no_pw) {
        Transport::Ssh { username, password } => {
            assert_eq!(username, "bob");
            assert_eq!(password, "");
        }
        _ => panic!("expected Transport::Ssh"),
    }
}

#[test]
fn connections_fail_with_a_reason() {
    assert_eq!(dial_address("h", 7867), "h:7867");
    assert_eq!(
        connect_error(ConnectStage::Dial, "h", "h:1", "refused").message(),
        "connect failed: h:1: refused"
    );
    assert_eq!(
        connect_error(ConnectStage::ServerName, "h", "h:1", "bad").message(),
        "TLS error: invalid server name 'h': bad"
    );
    assert!(check_ssh_login(true).is_ok());
    assert_eq!(
        check_ssh_login(false).unwrap_err().message(),
        "authentication failed: SSH server rejected the password"
    );
    assert!(matches!(subsystem_step(ChannelReply::Success), SubsystemStep::Ready));
    assert!(matches!(subsystem_step(ChannelReply::Other), SubsystemStep::Wait));
    assert!(matches!(subsystem_step(ChannelReply::Failure), SubsystemStep::Fail(_)));
    assert!(matches!(subsystem_step(ChannelReply::Closed), SubsystemStep::Fail(_)));
}

#[test]
fn phones_shake_hands() {
    assert!(matches!(hello(), Message::Hello(h) if h.client_name == "termland-mobile"));
    let ask = Message::AuthRequest(AuthRequest { methods: vec![] });
    let nobody = ServerProfile { username: Some("  ".into()), ..profile() };
    assert!(matches!(
        handshake_step(HandshakeState::AwaitAuthRequest, &ask, &nobody),
        HandshakeStep::Fail(TermlandError::Auth { .. })
    ));
    let alice = ServerProfile {
        username: Some(" alice ".into()),
        password: Some("pw".into()),
        ..profile()
    };
    match handshake_step(HandshakeState::AwaitAuthRequest, &ask, &alice) {
        HandshakeStep::Send(Message::AuthResponse(a), HandshakeState::AwaitAuthResult) => {
            assert_eq!((a.username.as_str(), a.credential.as_str()), ("alice", "pw"))
        }
        other => panic!("expected a login, got {other:?}"),
    }
    let ack = Message::HelloAck(HelloAck {
        protocol_version: 1,
        server_name: "s".into(),
        session_id: "".into(),
        auth_required: false,
    });
    assert!(matches!(
        handshake_step(HandshakeState::AwaitHelloAck, &ack, &alice),
        HandshakeStep::Done
    ));
    let yes = Message::AuthResult(AuthResult { success: true, message: "".into() });
    assert!(matches!(
        handshake_step(HandshakeState::AwaitAuthResult, &yes, &alice),
        HandshakeStep::Done
    ));
    let no = Message::AuthResult(AuthResult { success: false, message: "m".into() });
    assert!(matches!(
        handshake_step(HandshakeState::AwaitAuthResult, &no, &alice),
        HandshakeStep::Fail(TermlandError::Auth { msg }) if msg == "m"
    ));
    match handshake_step(HandshakeState::AwaitHelloAck, &no, &alice) {
        HandshakeStep::Fail(e) => {
            assert_eq!(e.message(), "protocol error: expected HelloAck, got AuthResult")
        }
        other => panic!("expected a failure, got {other:?}"),
    }
}

#[test]
fn streams_end_with_an_error() {
    let ping = Message::Ping(Ping { timestamp_us: 1 });
    assert!(matches!(next_message(Some(Ok(ping))), Ok(Message::Ping(_))));
    assert_eq!(
        next_message(None).unwrap_err().message(),
        "I/O error: connection closed by server"
    );
    assert!(matches!(
        next_message(Some(Err(CodecError::Io("x".into())))),
        Err(TermlandError::Io { msg }) if msg == "x"
    ));
}

#[test]
fn sessions_are_listed_closed_and_opened() {
    assert!(matches!(list_request(), Message::SessionList(_)));
    assert!(matches!(close_request("a".into()), Message::SessionClose(c) if c.session_id == "a"));
    let info = SessionInfo {
        session_id: "s".into(),
        mode: "desktop".into(),
        width: 1,
        height: 2,
        age_secs: 3,
        attached: true,
    };
    let list = Message::SessionListResult(SessionListResult { sessions: vec![info] });
    let got = list_sessions(list).unwrap();
    assert_eq!((got[0].session_id.as_str(), got[0].age_secs, got[0].attached), ("s", 3, true));
    let e = list_sessions(Message::Ping(Ping { timestamp_us: 1 })).unwrap_err();
    assert_eq!(e.message(), "protocol error: expected SessionListResult, got Ping");
    assert!(matches!(
        opening_message(Some("s".into()), &params()),
        Message::SessionAttach(a) if a.session_id == "s"
    ));
    let sr = SessionReady {
        width: 1,
        height: 2,
        xkb_keymap: None,
        codec: None,
        audio_codec: None,
        session_id: "s".into(),
    };
    let ready = open_session(Message::SessionReady(sr)).unwrap();
    assert!(matches!(ready.codec, MobileCodec::H264));
    assert!(open_session(Message::Ping(Ping { timestamp_us: 1 })).is_err());
}

#[test]
fn a_session_runs_until_it_ends() {
    let ready = SessionReadyInfo {
        width: 1,
        height: 2,
        codec: MobileCodec::Av1,
        session_id: "s".into(),
    };
    let mut bytes = 0u64;
    assert!(matches!(
        run_session(&ready, LoopEvent::Input(Some(InputCommand::CursorInFrame(true))), &mut bytes),
        LoopAction::Send(Message::CursorMode(_))
    ));
    assert!(matches!(
        run_session(&ready, LoopEvent::Input(None), &mut bytes),
        LoopAction::End { reason } if reason == "detached"
    ));
    let video = Message::VideoFrame(VideoFrame {
        timestamp_us: 9,
        frame_type: FrameType::Keyframe,
        width: 1,
        height: 2,
        codec: None,
        data: vec![0; 7],
    });
    match run_session(&ready, LoopEvent::Incoming(Some(Ok(video))), &mut bytes) {
        LoopAction::Video(p) => {
            assert!(p.keyframe);
            assert!(matches!(p.codec, MobileCodec::Av1));
        }
        other => panic!("expected a packet, got {other:?}"),
    }
    assert_eq!(bytes, 7);
    let sound =
        Message::AudioChunk(AudioChunk { timestamp_us: 0, sample_rate: 1, channels: 1, data: vec![5] });
    assert!(matches!(
        run_session(&ready, LoopEvent::Incoming(Some(Ok(sound))), &mut bytes),
        LoopAction::Audio(d) if d == vec![5]
    ));
    let copied = ClipboardPayload { mime_type: "text/plain".into(), data: vec![1] };
    assert!(matches!(
        run_session(&ready, LoopEvent::Incoming(Some(Ok(Message::ClipboardData(copied)))), &mut bytes),
        LoopAction::Clipboard { .. }
    ));
    let ping = Message::Ping(Ping { timestamp_us: 4 });
    assert!(matches!(
        run_session(&ready, LoopEvent::Incoming(Some(Ok(ping))), &mut bytes),
        LoopAction::Reply(Message::Pong(p)) if p.timestamp_us == 4
    ));
    let end = Message::SessionEnd(SessionEnd { reason: "r".into() });
    assert!(matches!(
        run_session(&ready, LoopEvent::Incoming(Some(Ok(end))), &mut bytes),
        LoopAction::End { reason } if reason == "r"
    ));
    assert!(matches!(
        run_session(&ready, LoopEvent::SendFailed("x".into()), &mut bytes),
        LoopAction::Fail { .. }
    ));
}

/// A video header, byte for byte.
fn build_video_header(
    codec_tag: u8,
    frame_type_tag: u8,
    width: u16,
    height: u16,
    timestamp_us: u64,
    data_len: u32,
) -> [u8; VIDEO_HEADER_LEN] {
    let mut buf = [0u8; VIDEO_HEADER_LEN];
    buf[0] = codec_tag;
    buf[1] = frame_type_tag;
    buf[2..4].copy_from_slice(&width.to_le_bytes());
    buf[4..6].copy_from_slice(&height.to_le_bytes());
    buf[6..14].copy_from_slice(&timestamp_us.to_le_bytes());
    buf[14..18].copy_from_slice(&data_len.to_le_bytes());
    buf
}

#[test]
fn video_header_decodes_all_codec_and_frame_type_tags() {
    let cases = [
        (0u8, VideoCodec::Av1),
        (1, VideoCodec::Vp9),
        (2, VideoCodec::Vp8),
        (3, VideoCodec::H265),
        (4, VideoCodec::H264),
    ];
    for (tag, expected_codec) in cases {
        for (ft_tag, expected_keyframe) in [(0u8, false), (1u8, true)] {
            let header = build_video_header(tag, ft_tag, 1920, 1080, 123_456_789_012, 65536);
            let (codec, keyframe, width, height, timestamp_us, data_len) =
                parse_video_header(&header)
                    .unwrap_or_else(|| panic!("expected header to decode for codec tag {tag}"));
            assert_eq!(codec, expected_codec);
            assert_eq!(keyframe, expected_keyframe);
            assert_eq!(width, 1920);
            assert_eq!(height, 1080);
            assert_eq!(timestamp_us, 123_456_789_012);
            assert_eq!(data_len, 65536);
            assert_eq!(decode_video_codec_tag(tag), Some(expected_codec));
        }
    }
}

#[test]
fn video_header_rejects_unknown_codec_tag() {
    let header = build_video_header(255, 0, 640, 480, 0, 0);
    assert!(parse_video_header(&header).is_none());
}

#[test]
fn video_header_field_offsets_match_server_layout() {
    let header = build_video_header(4, 1, 0x0102, 0x0304, 0x0102030405060708, 0xAABBCCDD);
    assert_eq!(header[0], 4);
    assert_eq!(header[1], 1);
    assert_eq!(&header[2..4], &0x0102u16.to_le_bytes());
    assert_eq!(&header[4..6], &0x0304u16.to_le_bytes());
    assert_eq!(&header[6..14], &0x0102030405060708u64.to_le_bytes());
    assert_eq!(&header[14..18], &0xAABBCCDDu32.to_le_bytes());

    let (codec, keyframe, width, height, timestamp_us, data_len) =
        parse_video_header(&header).unwrap();
    assert_eq!(codec, VideoCodec::H264);
    assert!(keyframe);
    assert_eq!(width, 0x0102);
    assert_eq!(height, 0x0304);
    assert_eq!(timestamp_us, 0x0102030405060708);
    assert_eq!(data_len, 0xAABBCCDD);
}

#[test]
fn video_streams_end_at_a_header_that_means_nothing() {
    let good = build_video_header(0, 1, 4, 2, 5, MAX_FRAME_BYTES);
    assert!(matches!(quic_video_reader(&good), VideoRead::Read { len: MAX_FRAME_BYTES }));
    let long = build_video_header(0, 1, 4, 2, 5, MAX_FRAME_BYTES + 1);
    assert!(matches!(quic_video_reader(&long), VideoRead::End));
    let odd = build_video_header(9, 1, 4, 2, 5, 1);
    assert!(matches!(quic_video_reader(&odd), VideoRead::End));
    assert!(video_packet(&odd, vec![]).is_none());
    let p = video_packet(&good, vec![1, 2]).unwrap();
    assert_eq!((p.data, p.timestamp_us, p.keyframe, p.width, p.height), (vec![1, 2], 5, true, 4, 2));
}

#[test]
fn audio_datagram_round_trips_header_and_payload() {
    let mut datagram = Vec::new();
    datagram.extend_from_slice(&48000u32.to_le_bytes());
    datagram.push(2u8);
    datagram.extend_from_slice(b"opus-payload-bytes");

    let (sample_rate, channels, payload) =
        parse_audio_datagram(&datagram).expect("datagram at least AUDIO_HEADER_LEN bytes");
    assert_eq!(sample_rate, 48000);
    assert_eq!(channels, 2);
    assert_eq!(payload, b"opus-payload-bytes");
    assert_eq!(quic_audio_reader(&datagram).unwrap(), b"opus-payload-bytes");
}

#[test]
fn audio_datagram_shorter_than_header_is_rejected() {
    let short = vec![0u8; AUDIO_HEADER_LEN - 1];
    assert!(parse_audio_datagram(&short).is_none());
    assert!(quic_audio_reader(&short).is_none());
}

#[test]
fn audio_datagram_with_empty_payload_is_valid() {
    let mut datagram = Vec::new();
    datagram.extend_from_slice(&16000u32.to_le_bytes());
    datagram.push(1u8);
    let (sample_rate, channels, payload) = parse_audio_datagram(&datagram).unwrap();
    assert_eq!(sample_rate, 16000);
    assert_eq!(channels, 1);
    assert!(payload.is_empty());
}
