use std::collections::VecDeque;
use termland::client::connection::{
    accept_ready, backoff_delay, client_clipboard_files_dir, command_message, decoder_to_build,
    fill_output, format_age, handshake_step, hello, login_name, login_password, offers_files,
    on_command, on_incoming, opening_message, plan_file_transfer, queue_samples, rgba_to_pixels,
    route, session_list_reply, session_listing, transfer_subdir_name, written_files_list,
    AfterLoop, ClientCommand, CommandStep, ConnectParams, FileBatch, HandshakeState, HandshakeStep,
    Incoming, LoopAction, LoopExit, LoopOutcome, Reconnector, Route, ServerEvent,
};
use termland::client::display::{
    covers_window, draw_frame, inhibit_global, inhibit_possible, keycode_to_evdev,
    mouse_button_to_linux, DisplayState, InhibitGlobal, PointerButton, UiAction, UiEvent,
};
use termland::client::overlay::{
    blend, display_line, draw_keyboard_button, draw_local_cursor, draw_remote_cursor, draw_text, fill_rect,
    fill_rect_alpha, format_rate, hit_test_keyboard_button, hit_test_menubar,
    keyboard_button_rect, truncate, draw_menubar, BarItem, RemoteCursor, BAR_ITEMS, CURSOR_FILL,
    CURSOR_OUTLINE,
};
use termland::protocol::input::browser_code_to_evdev;
use termland::protocol::messages::{
    AuthRequest, AuthResult, AudioChunk, ClipboardPayload, FileEntry, FileTransferPayload,
    FrameType, HelloAck, Message, Ping, Pong, SessionEnd, SessionInfo, SessionListResult, SessionMode,
    SessionReady, StillFrame, VideoCodec, VideoFrame, WindowInfo, MAX_FILE_TRANSFER_BYTES,
};

#[test]
fn backoff_schedule_doubles_then_caps() {
    assert_eq!(backoff_delay(1), 1);
    assert_eq!(backoff_delay(2), 2);
    assert_eq!(backoff_delay(3), 4);
    assert_eq!(backoff_delay(4), 8);
    assert_eq!(backoff_delay(5), 16);
    assert_eq!(backoff_delay(6), 30);
    assert_eq!(backoff_delay(7), 30);
}

#[test]
fn backoff_stays_capped_for_many_attempts() {
    for attempt in [10u32, 100, 1_000, u32::MAX] {
        assert_eq!(backoff_delay(attempt), 30);
    }
}

fn params() -> ConnectParams {
    ConnectParams {
        mode: SessionMode::Desktop,
        width: 1280,
        height: 720,
        quality: 75,
        audio: false,
        ssh_opts: vec!["-oPort=9022".to_string()],
        tls: false,
        accept_invalid_certs: false,
        username: None,
        password: None,
        desktop_shell: None,
        encoder_preset: None,
        encoder_crf: None,
        encoder_extra_params: None,
        codec: None,
        attach: None,
        reconnect: true,
    }
}

#[test]
fn routes_go_by_ssh_then_tls_then_tcp() {
    match route("user@host", true, &params()) {
        Route::Ssh { args } => assert_eq!(args, vec!["-oPort=9022", "-s", "user@host", "termland"]),
        other => panic!("expected SSH, got {other:?}"),
    }
    let tls = ConnectParams { tls: true, accept_invalid_certs: true, ..params() };
    match route("host:7867", false, &tls) {
        Route::Tls { host, accept_invalid_certs } => {
            assert_eq!(host, "host");
            assert!(accept_invalid_certs);
        }
        other => panic!("expected TLS, got {other:?}"),
    }
    assert!(matches!(route("host:7867", false, &params()), Route::Tcp));
}

#[test]
fn pixels_come_from_whole_groups_of_four() {
    assert_eq!(rgba_to_pixels(&[1, 2, 3, 255, 4, 5, 6, 0, 9, 9]), vec![0x010203, 0x040506]);
    assert_eq!(rgba_to_pixels(&[]), Vec::<u32>::new());
}

#[test]
fn ages_are_shown_in_their_largest_unit() {
    assert_eq!(format_age(0), "0s");
    assert_eq!(format_age(59), "59s");
    assert_eq!(format_age(60), "1m");
    assert_eq!(format_age(3599), "59m");
    assert_eq!(format_age(3600), "1h");
    assert_eq!(format_age(86399), "23h");
    assert_eq!(format_age(86400), "1d");
    assert_eq!(format_age(u64::MAX), format!("{}d", u64::MAX / 86400));
}

fn info(id: &str, attached: bool) -> SessionInfo {
    SessionInfo {
        session_id: id.to_string(),
        mode: "desktop".to_string(),
        width: 1920,
        height: 1080,
        age_secs: 61,
        attached,
    }
}

#[test]
fn sessions_are_listed_in_columns() {
    let lines = session_listing(&[info("abc", true), info("d", false)]);
    assert_eq!(
        lines,
        vec![
            format!("{:<16} {:<16} {:<11} {:>8}", "SESSION ID", "MODE", "SIZE", "AGE"),
            format!("{:<16} {:<16} {:<11} {:>8}", "abc", "desktop", "1920x1080", "1m"),
            format!("{:<16} {:<16} {:<11} {:>8}", "d", "desktop", "1920x1080", "1m"),
            String::new(),
            "Resume with:  termland-client --attach <SESSION ID> \u{2026}".to_string(),
        ]
    );
    assert_eq!(session_listing(&[]), vec!["No resumable sessions."]);
}

#[test]
fn a_reply_of_the_wrong_kind_is_named() {
    let ok = Message::SessionListResult(SessionListResult { sessions: vec![info("x", true)] });
    assert_eq!(session_list_reply(ok).unwrap()[0].session_id, "x");
    let e = session_list_reply(Message::Ping(Ping { timestamp_us: 1 })).unwrap_err();
    assert_eq!(e, "expected SessionListResult, got Ping");
}

#[test]
fn a_handshake_without_login() {
    assert!(matches!(hello(), Message::Hello(h) if h.client_name == "termland-client"));
    let ack = Message::HelloAck(HelloAck {
        protocol_version: 1,
        server_name: "s".to_string(),
        session_id: "".to_string(),
        auth_required: false,
    });
    let step = handshake_step(HandshakeState::AwaitHelloAck, &ack, "u", "p");
    assert!(matches!(step, HandshakeStep::Done));
}

#[test]
fn a_handshake_with_login() {
    let ack = Message::HelloAck(HelloAck {
        protocol_version: 1,
        server_name: "s".to_string(),
        session_id: "".to_string(),
        auth_required: true,
    });
    let step = handshake_step(HandshakeState::AwaitHelloAck, &ack, "u", "p");
    assert!(matches!(step, HandshakeStep::Wait(HandshakeState::AwaitAuthRequest)));
    let ask = Message::AuthRequest(AuthRequest { methods: vec!["pam".to_string()] });
    match handshake_step(HandshakeState::AwaitAuthRequest, &ask, "u", "p") {
        HandshakeStep::Send(Message::AuthResponse(a), HandshakeState::AwaitAuthResult) => {
            assert_eq!((a.username.as_str(), a.credential.as_str()), ("u", "p"));
        }
        other => panic!("expected a login, got {other:?}"),
    }
    let no = Message::AuthResult(AuthResult { success: false, message: "no".to_string() });
    match handshake_step(HandshakeState::AwaitAuthResult, &no, "u", "p") {
        HandshakeStep::Fail(e) => assert_eq!(e, "Authentication failed: no"),
        other => panic!("expected a failure, got {other:?}"),
    }
    match handshake_step(HandshakeState::AwaitAuthResult, &ask, "u", "p") {
        HandshakeStep::Fail(e) => assert_eq!(e, "expected AuthResult, got AuthRequest"),
        other => panic!("expected a failure, got {other:?}"),
    }
}

#[test]
fn logins_fall_back() {
    let named = ConnectParams {
        username: Some("alice".to_string()),
        password: Some("pw".to_string()),
        ..params()
    };
    assert_eq!(login_name(&named, "me".to_string()), "alice");
    assert_eq!(login_name(&params(), "me".to_string()), "me");
    assert_eq!(login_password(&named, Some("env".to_string())), "pw");
    assert_eq!(login_password(&params(), Some("env".to_string())), "env");
    assert_eq!(login_password(&params(), None), "");
}

#[test]
fn sessions_are_opened_or_resumed() {
    match opening_message(params()) {
        Message::SessionCreate(c) => {
            assert_eq!((c.width, c.height, c.quality), (1280, 720, 75));
            assert_eq!(c.supported_codecs, VideoCodec::all_preferred());
        }
        other => panic!("expected a new session, got {other:?}"),
    }
    let resumed = ConnectParams {
        attach: Some("s1".to_string()),
        codec: Some(VideoCodec::Vp9),
        ..params()
    };
    match opening_message(resumed) {
        Message::SessionAttach(a) => {
            assert_eq!(a.session_id, "s1");
            assert_eq!(a.supported_codecs, vec![VideoCodec::Vp9]);
        }
        other => panic!("expected a resumed session, got {other:?}"),
    }
}

fn ready(id: &str) -> SessionReady {
    SessionReady {
        width: 4,
        height: 2,
        xkb_keymap: None,
        codec: None,
        audio_codec: None,
        session_id: id.to_string(),
    }
}

#[test]
fn a_lost_connection_comes_back_to_its_session() {
    let mut id = None;
    accept_ready(Message::SessionReady(ready("s9")), &mut id).unwrap();
    assert_eq!(id.as_deref(), Some("s9"));
    accept_ready(Message::SessionReady(ready("")), &mut id).unwrap();
    assert_eq!(id.as_deref(), Some("s9"));
    assert!(accept_ready(Message::Ping(Ping { timestamp_us: 0 }), &mut id).is_err());

    let mut r = Reconnector::new(true, None);
    r.session_id = id;
    assert!(matches!(
        r.after_loop(LoopOutcome::Exit(LoopExit::ConnectionLost)),
        AfterLoop::Reconnect
    ));
    assert_eq!(r.attach.as_deref(), Some("s9"));
    assert_eq!(r.next_attempt(), (1, 1));
    assert_eq!(r.next_attempt(), (2, 2));
    let ended = LoopExit::SessionEnded { reason: "bye".to_string() };
    match r.after_loop(LoopOutcome::Exit(ended)) {
        AfterLoop::End { reason } => assert_eq!(reason, "bye"),
        other => panic!("expected the end, got {other:?}"),
    }
    assert!(matches!(
        r.after_loop(LoopOutcome::Exit(LoopExit::ClientQuit)),
        AfterLoop::Stop
    ));
    let mut once = Reconnector::new(false, None);
    match once.after_loop(LoopOutcome::Failed) {
        AfterLoop::End { reason } => assert_eq!(reason, "connection lost (reconnect disabled)"),
        other => panic!("expected the end, got {other:?}"),
    }
}

#[test]
fn commands_become_messages() {
    assert!(matches!(
        command_message(ClientCommand::SetCursorInFrame(true)),
        Message::CursorMode(m) if m.include_cursor_in_frame
    ));
    match command_message(ClientCommand::Disconnect) {
        Message::SessionEnd(e) => assert_eq!(e.reason, "client disconnect"),
        other => panic!("expected a goodbye, got {other:?}"),
    }
}

#[test]
fn only_disconnect_leaves_the_loop() {
    match on_command(ClientCommand::Resize(640, 480)) {
        CommandStep::Send(Message::SessionResize(r)) => {
            assert_eq!((r.width, r.height), (640, 480));
        }
        other => panic!("expected a message, got {other:?}"),
    }
    let clipboard = ClientCommand::ClipboardSend { mime_type: "text/plain".into(), data: vec![1] };
    assert!(matches!(
        on_command(clipboard),
        CommandStep::Send(Message::ClipboardSend(p)) if p.data == [1]
    ));
    match on_command(ClientCommand::Disconnect) {
        CommandStep::SendAndExit(Message::SessionEnd(e), exit) => {
            assert_eq!(e.reason, "client disconnect");
            assert!(matches!(exit, LoopExit::ClientQuit));
        }
        other => panic!("expected the end, got {other:?}"),
    }
}

#[test]
fn a_quit_session_stays_quit() {
    let mut r = Reconnector::new(true, Some("s1".to_string()));
    let CommandStep::SendAndExit(_, exit) = on_command(ClientCommand::Disconnect) else {
        panic!("expected the end");
    };
    assert!(matches!(r.after_loop(LoopOutcome::Exit(exit)), AfterLoop::Stop));
    assert_eq!(r.attach.as_deref(), Some("s1"));
}

#[test]
fn what_comes_in_is_shown_played_or_skipped() {
    let mut bytes = 0u64;
    let still = Message::StillFrame(StillFrame {
        timestamp_us: 0,
        x: 0,
        y: 0,
        width: 1,
        height: 1,
        lossless: true,
        data: vec![1, 2, 3, 4],
    });
    match on_incoming(Incoming::Message(still), false, &mut bytes) {
        LoopAction::Show { width, height, pixels } => {
            assert_eq!((width, height, pixels), (1, 1, vec![0x010203]))
        }
        other => panic!("expected a picture, got {other:?}"),
    }
    assert_eq!(bytes, 4);
    let video = Message::VideoFrame(VideoFrame {
        timestamp_us: 0,
        frame_type: FrameType::Inter,
        width: 1,
        height: 1,
        codec: Some(VideoCodec::H264),
        data: vec![0; 10],
    });
    assert!(matches!(
        on_incoming(Incoming::Message(video), false, &mut bytes),
        LoopAction::Decode { codec: Some(VideoCodec::H264), .. }
    ));
    let sound = AudioChunk { timestamp_us: 0, sample_rate: 48000, channels: 2, data: vec![0; 3] };
    assert!(matches!(
        on_incoming(Incoming::Message(Message::AudioChunk(sound.clone())), false, &mut bytes),
        LoopAction::Skip
    ));
    assert!(matches!(
        on_incoming(Incoming::Message(Message::AudioChunk(sound)), true, &mut bytes),
        LoopAction::Play { .. }
    ));
    assert_eq!(bytes, 20);
    let copied = ClipboardPayload { mime_type: "".to_string(), data: vec![1] };
    match on_incoming(Incoming::Message(Message::ClipboardData(copied)), true, &mut bytes) {
        LoopAction::Clipboard { mime_type, .. } => assert_eq!(mime_type, "text/plain"),
        other => panic!("expected the clipboard, got {other:?}"),
    }
    let end = Message::SessionEnd(SessionEnd { reason: "r".to_string() });
    assert!(matches!(
        on_incoming(Incoming::Message(end), true, &mut bytes),
        LoopAction::Exit(LoopExit::SessionEnded { .. })
    ));
    assert!(matches!(
        on_incoming(Incoming::Eof, true, &mut bytes),
        LoopAction::Exit(LoopExit::ConnectionLost)
    ));
    let mut full = u64::MAX;
    let more = AudioChunk { timestamp_us: 0, sample_rate: 48000, channels: 2, data: vec![0; 3] };
    let _ = on_incoming(Incoming::Message(Message::AudioChunk(more)), true, &mut full);
    assert_eq!(full, u64::MAX);
}

#[test]
fn a_new_codec_needs_a_new_decoder() {
    assert_eq!(decoder_to_build(None, None), None);
    assert_eq!(decoder_to_build(Some(VideoCodec::Av1), None), Some(VideoCodec::Av1));
    assert_eq!(decoder_to_build(Some(VideoCodec::Av1), Some(VideoCodec::Av1)), None);
    assert_eq!(
        decoder_to_build(Some(VideoCodec::Vp8), Some(VideoCodec::Av1)),
        Some(VideoCodec::Vp8)
    );
}

#[test]
fn samples_wait_in_order_and_not_too_long() {
    let mut ring: VecDeque<i16> = VecDeque::new();
    queue_samples(&mut ring, &[1, 2, 3]);
    let mut out = [7i16; 5];
    fill_output(&mut ring, &mut out);
    assert_eq!(out, [1, 2, 3, 0, 0]);
    assert!(ring.is_empty());
    queue_samples(&mut ring, &vec![5i16; 96_001]);
    assert_eq!(ring.len(), 96_001);
    queue_samples(&mut ring, &[6]);
    assert_eq!(ring.len(), 48_001);
    assert_eq!(ring.back(), Some(&6));
}

#[test]
fn file_lists_are_recognised() {
    assert!(offers_files("text/plain\ntext/uri-list\n"));
    assert!(offers_files("  text/uri-list  "));
    assert!(!offers_files("text/plain\ntext/uri-list-x\n"));
}

#[test]
fn batches_keep_to_the_cap() {
    let mut batch = FileBatch::new();
    assert!(batch.push("/tmp/a.txt", vec![1, 2]));
    assert!(batch.push("/", vec![3]));
    assert!(!batch.push("/tmp/big", vec![0; MAX_FILE_TRANSFER_BYTES as usize]));
    let sent = batch.finish().unwrap();
    assert_eq!(sent.files.len(), 2);
    assert_eq!(sent.files[0].name, "a.txt");
    assert_eq!(sent.files[1].name, "file");
    assert!(FileBatch::new().finish().is_none());
}

#[test]
fn received_files_go_nowhere_else() {
    let payload = FileTransferPayload {
        files: vec![
            FileEntry { name: "../../etc/passwd".to_string(), data: vec![1] },
            FileEntry { name: " ok.txt ".to_string(), data: vec![2] },
        ],
    };
    let plan = plan_file_transfer(payload, "/cache/1").unwrap();
    assert_eq!(plan.len(), 1);
    assert_eq!(plan[0].path, "/cache/1/ok.txt");
    assert_eq!(plan[0].data, vec![2]);
    assert!(plan_file_transfer(FileTransferPayload { files: vec![] }, "/c").is_none());
    let big = FileEntry {
        name: "x".to_string(),
        data: vec![0; MAX_FILE_TRANSFER_BYTES as usize + 1],
    };
    assert!(plan_file_transfer(FileTransferPayload { files: vec![big] }, "/c").is_none());
    assert_eq!(written_files_list(&[]), None);
    assert_eq!(
        written_files_list(&["/a b".to_string()]).as_deref(),
        Some("file:///a%20b\r\n")
    );
}

#[test]
fn received_files_have_a_directory() {
    let some = |s: &str| Some(s.to_string());
    assert_eq!(
        client_clipboard_files_dir(some("/c"), some("/h"), "/tmp"),
        "/c/termland/clipboard-files"
    );
    assert_eq!(
        client_clipboard_files_dir(None, some("/h"), "/tmp"),
        "/h/.cache/termland/clipboard-files"
    );
    assert_eq!(client_clipboard_files_dir(None, None, "/tmp"), "/tmp/termland-clipboard-files");
    assert_eq!(transfer_subdir_name(Some(1700000000123)), "1700000000123");
    assert_eq!(transfer_subdir_name(None), "0");
}

fn win(title: &str, app_id: &str, activated: bool) -> WindowInfo {
    WindowInfo {
        id: 1,
        title: title.into(),
        app_id: app_id.into(),
        minimized: false,
        maximized: false,
        fullscreen: false,
        activated,
    }
}

#[test]
fn untitled_window_falls_back_to_app_id() {
    let line = display_line(&win("", "org.kde.konsole", false));
    assert!(line.contains("org.kde.konsole"), "got {line:?}");
}

#[test]
fn window_with_neither_title_nor_app_id_still_renders() {
    let line = display_line(&win("", "", false));
    assert!(line.contains("(untitled)"), "got {line:?}");
}

#[test]
fn focused_window_is_marked() {
    assert!(display_line(&win("Konsole", "x", true)).starts_with('>'));
    assert!(!display_line(&win("Konsole", "x", false)).starts_with('>'));
}

#[test]
fn truncation_marks_that_it_cut() {
    let long = "a".repeat(100);
    let out = truncate(&long, 10);
    assert_eq!(out.chars().count(), 10);
    assert!(out.ends_with('…'));
}

#[test]
fn short_lines_are_left_alone() {
    assert_eq!(truncate("konsole", 40), "konsole");
}

#[test]
fn truncation_never_exceeds_its_limit() {
    assert_eq!(truncate("konsole", 0), "");
    assert_eq!(truncate("konsole", 1), "…");
    assert_eq!(truncate("konsole", 2), "k…");
    assert_eq!(truncate("k", 1), "k");
    assert_eq!(truncate("", 0), "");
}

#[test]
fn truncation_is_character_wise_not_byte_wise() {
    let s = "日本語のウィンドウタイトル";
    let out = truncate(s, 5);
    assert_eq!(out.chars().count(), 5);
}

/// Rates as they are written with floating-point numbers.
fn float_rate(bps: u64) -> String {
    let b = bps as f64;
    if b >= 1_048_576.0 {
        format!("{:.1} MB/s", b / 1_048_576.0)
    } else if b >= 1024.0 {
        format!("{:.1} KB/s", b / 1024.0)
    } else {
        format!("{:.0} B/s", b)
    }
}

#[test]
fn rates_read_as_floating_point_numbers_do() {
    assert_eq!(format_rate(0), "0 B/s");
    assert_eq!(format_rate(2048), "2.0 KB/s");
    assert_eq!(format_rate(1_572_864), "1.5 MB/s");
    let mut n: u64 = 1;
    for i in 0..40_000u64 {
        assert_eq!(format_rate(i), float_rate(i));
        n = n.wrapping_mul(6364136223846793005).wrapping_add(1442695040888963407);
        for shift in [0, 11, 12, 20, 30, 40, 44] {
            let v = n >> shift;
            assert_eq!(format_rate(v), float_rate(v), "{v}");
        }
    }
    for v in [1023, 1024, 1_048_575, 1_048_576, u64::MAX, u64::MAX - 1, 1 << 53, (1 << 53) + 1] {
        assert_eq!(format_rate(v), float_rate(v), "{v}");
    }
}

#[test]
fn glyphs_are_those_of_the_font() {
    let mut buf = vec![0u32; 16 * 16];
    draw_text(&mut buf, 16, 0, 0, "A", 0xFFFFFF);
    let glyph = font8x8::legacy::BASIC_LEGACY['A' as usize];
    let mut expected = vec![0u32; 16 * 16];
    for y in 0..16 {
        for x in 0..16 {
            if glyph[y / 2] & (1 << (x / 2)) != 0 {
                expected[y * 16 + x] = 0xFFFFFF;
            }
        }
    }
    assert_eq!(buf, expected);
    assert!(buf.iter().any(|p| *p != 0));
}

#[test]
fn rectangles_far_to_the_right_draw_nothing() {
    let mut buf = vec![9u32; 8];
    fill_rect(&mut buf, 4, usize::MAX - 6, 0, 2, 2, 7);
    fill_rect(&mut buf, 4, usize::MAX, 2, usize::MAX, 1, 7);
    fill_rect_alpha(&mut buf, 4, usize::MAX - 2, 0, 2, 2, 7, 255);
    assert_eq!(buf, vec![9u32; 8]);
}

#[test]
fn rectangles_are_clipped() {
    let mut buf = vec![0u32; 4 * 3];
    fill_rect(&mut buf, 4, 2, 1, 5, 5, 7);
    assert_eq!(buf, vec![0, 0, 0, 0, 0, 0, 7, 7, 0, 0, 7, 7]);
    fill_rect_alpha(&mut buf, 4, 0, 0, 1, 1, 0xFF00FF, 255);
    assert_eq!(buf[0], 0xFF00FF);
}

#[test]
fn blending_mixes_colours() {
    assert_eq!(blend(0x000000, 0xFFFFFF, 255), 0xFFFFFF);
    assert_eq!(blend(0x123456, 0xFFFFFF, 0), 0x123456);
    let mid = blend(0x000000, 0xFF0000, 128);
    assert_eq!(mid & 0xFFFF, 0);
    assert_eq!(mid >> 16, 128);
}

#[test]
fn a_pointer_is_drawn_where_it_is() {
    let mut buf = vec![0x111111u32; 32 * 32];
    draw_local_cursor(&mut buf, 32, 32, 0, 0);
    assert_eq!(buf[0], CURSOR_OUTLINE);
    assert!(buf.contains(&CURSOR_FILL));
    let cursor = RemoteCursor {
        hotspot_x: 1,
        hotspot_y: 1,
        width: 2,
        height: 1,
        visible: true,
        rgba: vec![255, 0, 0, 255, 0, 255, 0, 0],
    };
    let mut buf = vec![0x111111u32; 4 * 4];
    draw_remote_cursor(&mut buf, 4, 4, 2, 2, &cursor);
    assert_eq!(buf[4 + 1], 0xFF0000);
    assert_eq!(buf[4 + 2], 0x111111);
}

#[test]
fn the_keyboard_button_stands_in_its_corner() {
    let (x, y, w, h) = keyboard_button_rect(800, 600);
    assert!(hit_test_keyboard_button(800, 600, x as i32, y as i32));
    assert!(hit_test_keyboard_button(800, 600, (x + w - 1) as i32, (y + h - 1) as i32));
    assert!(!hit_test_keyboard_button(800, 600, (x + w) as i32, y as i32));
    assert!(!hit_test_keyboard_button(800, 600, 0, 0));
}

#[test]
fn the_keyboard_button_is_lit_while_the_keyboard_is_up() {
    let (x, y, w, h) = keyboard_button_rect(200, 100);
    let at = |px: u32, py: u32| (py * 200 + px) as usize;
    let mut idle = vec![0u32; 200 * 100];
    draw_keyboard_button(&mut idle, 200, 100, false);
    let mut lit = vec![0u32; 200 * 100];
    draw_keyboard_button(&mut lit, 200, 100, true);
    assert_eq!(idle[at(x, y)], 0x585B70);
    assert_ne!(lit[at(x, y)], idle[at(x, y)]);
    assert_eq!(idle[at(x + w - 1, y + h - 1)], 0x585B70);
    assert_eq!(idle[at(x - 1, y)], 0);
    assert_eq!(idle[at(x + 1, y + 1)], blend(0, 0x1E1E2E, 140));
    assert_eq!(lit[at(x + 1, y + 1)], blend(0, 0x1E1E2E, 210));
}

#[test]
fn clicks_find_their_menu_entry() {
    let mut buf = vec![0u32; 1280 * 100];
    let layout =
        draw_menubar(&mut buf, 1280, 100, true, true, false, false, 2048, 3, Some(BarItem::Quit));
    assert_eq!(layout.item_rects.len(), BAR_ITEMS.len());
    for (item, x, w) in &layout.item_rects {
        assert_eq!(hit_test_menubar(&layout, *x as i32, true), Some(*item));
        assert_eq!(hit_test_menubar(&layout, (*x + *w - 1) as i32, true), Some(*item));
        assert_eq!(hit_test_menubar(&layout, *x as i32, false), None);
    }
    assert!(BarItem::DataRate
        .label(true, true, false, false, 2048, 3)
        .contains("2.0 KB/s"));
}

#[test]
fn desktop_keys_agree_with_the_browser_table() {
    for (name, code) in [
        ("Escape", 1), ("Digit1", 2), ("Digit2", 3), ("Digit3", 4), ("Digit4", 5), ("Digit5", 6),
        ("Digit6", 7), ("Digit7", 8), ("Digit8", 9), ("Digit9", 10), ("Digit0", 11),
        ("Minus", 12), ("Equal", 13), ("Backspace", 14), ("Tab", 15), ("KeyQ", 16), ("KeyW", 17),
        ("KeyE", 18), ("KeyR", 19), ("KeyT", 20), ("KeyY", 21), ("KeyU", 22), ("KeyI", 23),
        ("KeyO", 24), ("KeyP", 25), ("BracketLeft", 26), ("BracketRight", 27), ("Enter", 28),
        ("ControlLeft", 29), ("KeyA", 30), ("KeyS", 31), ("KeyD", 32), ("KeyF", 33), ("KeyG", 34),
        ("KeyH", 35), ("KeyJ", 36), ("KeyK", 37), ("KeyL", 38), ("Semicolon", 39), ("Quote", 40),
        ("Backquote", 41), ("ShiftLeft", 42), ("Backslash", 43), ("KeyZ", 44), ("KeyX", 45),
        ("KeyC", 46), ("KeyV", 47), ("KeyB", 48), ("KeyN", 49), ("KeyM", 50), ("Comma", 51),
        ("Period", 52), ("Slash", 53), ("ShiftRight", 54), ("AltLeft", 56), ("Space", 57),
        ("CapsLock", 58), ("F1", 59), ("F2", 60), ("F3", 61), ("F4", 62), ("F5", 63), ("F6", 64),
        ("F7", 65), ("F8", 66), ("F9", 67), ("F10", 68), ("F11", 87), ("F12", 88), ("Home", 102),
        ("ArrowUp", 103), ("PageUp", 104), ("ArrowLeft", 105), ("ArrowRight", 106), ("End", 107),
        ("ArrowDown", 108), ("PageDown", 109), ("Insert", 110), ("Delete", 111),
        ("AltRight", 100), ("ControlRight", 97), ("SuperLeft", 125), ("SuperRight", 126),
    ] {
        assert_eq!(keycode_to_evdev(name), Some(code), "{name}");
        let browser = name.replace("Super", "Meta");
        assert_eq!(browser_code_to_evdev(&browser), Some(code), "{name}");
    }
    for name in ["Nonsense", "NumpadEnter", "Pause", "MetaLeft", ""] {
        assert_eq!(keycode_to_evdev(name), None, "{name}");
    }
    assert_eq!(mouse_button_to_linux(PointerButton::Left), 0x110);
    assert_eq!(mouse_button_to_linux(PointerButton::Forward), 0x114);
    assert_eq!(mouse_button_to_linux(PointerButton::Other(9)), 0x119);
}

#[test]
fn shortcuts_need_a_seat_and_a_manager() {
    assert_eq!(inhibit_global("wl_seat", 7, false), Some(InhibitGlobal::Seat { version: 1 }));
    assert_eq!(inhibit_global("wl_seat", 7, true), None);
    assert_eq!(
        inhibit_global("zwp_keyboard_shortcuts_inhibit_manager_v1", 1, true),
        Some(InhibitGlobal::Manager { version: 1 })
    );
    assert!(inhibit_possible(true, true).is_ok());
    assert_eq!(inhibit_possible(false, true).unwrap_err(), "no wl_seat found");
    assert!(inhibit_possible(true, false).unwrap_err().contains("shortcuts inhibitor"));
}

#[test]
fn a_window_takes_keys_and_keeps_its_own() {
    let mut d = DisplayState::new();
    let f10 = UiEvent::Key { name: "F10".to_string(), pressed: true, repeat: false };
    assert!(matches!(d.window_event(f10), UiAction::Idle));
    assert!(d.bar_visible);
    let f11 = UiEvent::Key { name: "F11".to_string(), pressed: true, repeat: false };
    assert!(matches!(d.window_event(f11), UiAction::SetFullscreen(true)));
    let a = UiEvent::Key { name: "KeyA".to_string(), pressed: true, repeat: false };
    match d.window_event(a) {
        UiAction::Send(ClientCommand::KeyEvent(k)) => assert_eq!(k.scancode, 30),
        other => panic!("expected a key, got {other:?}"),
    }
    let held = UiEvent::Key { name: "KeyA".to_string(), pressed: true, repeat: true };
    assert!(matches!(d.window_event(held), UiAction::Idle));
    assert!(matches!(d.window_event(UiEvent::CloseRequested), UiAction::Quit));
    assert!(matches!(
        d.window_event(UiEvent::CursorEntered),
        UiAction::SetCursorVisible(false)
    ));
}

#[test]
fn a_window_tells_its_size_once_it_rests() {
    let mut d = DisplayState::new();
    assert_eq!(d.initial_size(Some((100, 900)), (1, 1)), (320, 900));
    assert_eq!(d.initial_size(None, (640, 480)), (640, 480));
    let _ = d.window_event(UiEvent::Resized { width: 800, height: 600, now_ms: 1000 });
    assert_eq!(d.flush_pending_resize(1149), None);
    assert_eq!(d.flush_pending_resize(1150), Some((800, 600)));
    assert_eq!(d.flush_pending_resize(2000), None);
    let _ = d.window_event(UiEvent::Resized { width: 0, height: 600, now_ms: 3000 });
    assert_eq!(d.flush_pending_resize(9000), None);
}

#[test]
fn a_window_shows_the_session() {
    let mut d = DisplayState::new();
    d.process_event(ServerEvent::Reconnecting { attempt: 3 });
    assert_eq!(d.reconnecting, Some(3));
    d.process_event(ServerEvent::SessionReady(ready("x")));
    assert_eq!(d.frame, vec![0; 8]);
    assert_eq!(d.reconnecting, None);
    d.process_event(ServerEvent::Frame { width: 2, height: 1, pixels: vec![5, 6] });
    d.menu.client_cursor = false;
    let mut out = vec![0u32; 4];
    assert!(d.render(&mut out, 4, 1, 0, 0, false));
    assert_eq!(out, vec![5, 5, 6, 6]);
    assert_eq!(d.update_title().as_deref(), Some("Termland  [0 B/s]"));
    assert_eq!(d.update_title(), None);
    assert!(matches!(d.activate_bar_item(BarItem::DataRate), UiAction::Idle));
    assert_eq!(d.update_title().as_deref(), Some("Termland"));
    assert!(matches!(
        d.activate_bar_item(BarItem::ClientCursor),
        UiAction::Send(ClientCommand::SetCursorInFrame(false))
    ));
    let _ = d.activate_bar_item(BarItem::Windows);
    assert!(d.menu.show_windows);
    d.process_event(ServerEvent::Pong(Pong { timestamp_us: 1 }));
    assert!(!d.should_exit);
    d.process_event(ServerEvent::SessionEnded { reason: "r".to_string() });
    assert!(d.should_exit);
}

#[test]
fn frames_are_scaled_to_the_nearest_pixel() {
    let frame = vec![1, 2, 3, 4];
    let mut out = vec![0u32; 16];
    draw_frame(&mut out, &frame, 2, 2, 4, 4);
    assert_eq!(out, vec![1, 1, 2, 2, 1, 1, 2, 2, 3, 3, 4, 4, 3, 3, 4, 4]);
    let mut same = vec![9u32; 4];
    draw_frame(&mut same, &frame, 2, 2, 2, 2);
    assert_eq!(same, frame);
}

#[test]
fn a_short_frame_is_shown_where_what_it_lacks_is_not_read() {
    assert!(covers_window(3, 4, 4, 2, 1));
    assert!(!covers_window(2, 4, 4, 2, 1));
    assert!(covers_window(0, 4, 4, 4, 4));
    assert!(covers_window(0, 4, 0, 2, 2));
    let mut out = vec![0u32; 2];
    draw_frame(&mut out, &[1, 2, 3], 4, 4, 2, 1);
    assert_eq!(out, vec![1, 3]);
}

#[test]
fn desktop_keys_have_codes_of_their_own() {
    let names = ["SuperLeft", "SuperRight", "KeyA", "F10", "F11", "ControlRight", "AltRight"];
    let mut codes: Vec<u32> = names.iter().filter_map(|n| keycode_to_evdev(n)).collect();
    codes.sort_unstable();
    codes.dedup();
    assert_eq!(codes.len(), names.len());
}
