use termland::compositor::backend::{
    cage, check_username, detached_compositor_command, detect_desktop_shell, detect_terminal,
    ensure_runtime_dir, is_executable_file, labwc, lookup_step, program_candidates,
    read_socket_from_log, resolve_target_user, runtime_dir_error, runtime_dir_of, socket_in_log,
    socket_wrapper_cmd, validate_shell_command, wait_socket_ready, ChildStep, DetachedBackend,
    LookupStep, PasswdEntry, RuntimeDirStep, StartStep, TargetUser, LOG_DEADLINE_MS,
    MAX_LOOKUP_SIZE, SOCKET_DEADLINE_MS, TERMINALS,
};
use termland::compositor::cursor_capture::{
    check_cursor_globals, cursor_global, read_shm_to_rgba_preserving_alpha, CursorCapture,
    CursorCaptureError, CursorEvent, CursorGlobal, CursorPlan, CursorState, CursorStep,
    MAX_ROUNDTRIPS,
};
use termland::compositor::input::{
    check_input_globals, input_global, keysym_name, text_chunks, type_chunk, InputError,
    InputGlobal, Modifiers, TextAction, TextInjection, MAX_KEYS_PER_KEYMAP,
};
use termland::compositor::output_resize::{
    ApplyResult, OutputEvent, OutputState, ResizeError, ResizeStep, APPLY_MS, DISCOVERY_MS,
};
use termland::compositor::screencopy::{
    buffer_size, capture_global, check_globals, layout, read_shm_to_rgba, CaptureError,
    CaptureGlobal, CaptureStep, FrameCapture, Offer, ABGR8888, ARGB8888, BGR888, RGB888,
    SHM_ARGB8888, SHM_XRGB8888, XBGR8888, XRGB8888,
};
use termland::compositor::session::{
    choose_backend, Compositor, CompositorConfig, CompositorError, Launch, SessionMode,
};
use termland::compositor::toplevels::{
    check_manager, flag_words, toplevel_global, ToplevelError, ToplevelEvent, WindowList,
};
use termland::protocol::messages;

#[test]
fn ids_are_not_reused_after_a_window_closes() {
    let mut list = WindowList::new();
    list.event(ToplevelEvent::Appeared(100));
    let first = list.get(100).unwrap().id;
    list.event(ToplevelEvent::Closed(100));
    list.event(ToplevelEvent::Appeared(200));
    let second = list.get(200).unwrap().id;
    assert_ne!(first, second, "a new window reused a closed window's id");
    assert!(second > first);
}

#[test]
fn an_entry_is_found_or_made_with_a_later_id() {
    let mut list = WindowList::new();
    for key in 1..=4 {
        list.event(ToplevelEvent::Title(key, format!("window {key}")));
    }
    list.event(ToplevelEvent::Closed(4));
    list.event(ToplevelEvent::Closed(2));
    list.event(ToplevelEvent::Appeared(3));
    assert_eq!(list.len(), 2);
    assert_eq!(list.get(3).unwrap().title, "window 3");
    assert_eq!(list.get(3).unwrap().id, 3);
    list.event(ToplevelEvent::Appeared(2));
    let again = list.get(2).unwrap();
    assert_eq!((again.id, again.title.as_str(), again.app_id.as_str()), (5, "", ""));
    assert!(!again.minimized && !again.maximized && !again.fullscreen && !again.activated);
    assert_eq!(list.get(1).unwrap().id, 1);
    assert_eq!(list.get(3).unwrap().title, "window 3");
}

#[test]
fn repeated_events_for_one_window_share_an_entry() {
    let mut list = WindowList::new();
    list.event(ToplevelEvent::Title(7, "konsole".into()));
    list.event(ToplevelEvent::AppId(7, "org.kde.konsole".into()));
    assert_eq!(list.len(), 1);
    let w = list.get(7).unwrap();
    assert_eq!(w.title, "konsole");
    assert_eq!(w.app_id, "org.kde.konsole");
}

#[test]
fn state_flags_are_replaced_not_accumulated() {
    let mut list = WindowList::new();
    list.event(ToplevelEvent::State(1, vec![0, 2]));
    let w = list.get(1).unwrap();
    assert!(w.maximized && w.activated && !w.minimized && !w.fullscreen);
    list.event(ToplevelEvent::State(1, vec![1]));
    let w = list.get(1).unwrap();
    assert!(w.minimized);
    assert!(!w.maximized, "stale maximized survived a state update");
    assert!(!w.activated, "stale activated survived a state update");
    list.event(ToplevelEvent::State(1, vec![3, 9]));
    let w = list.get(1).unwrap();
    assert!(w.fullscreen && !w.minimized);
}

#[test]
fn windows_are_listed_in_stable_id_order() {
    let mut list = WindowList::new();
    list.event(ToplevelEvent::Appeared(300));
    list.event(ToplevelEvent::Appeared(100));
    list.event(ToplevelEvent::Appeared(200));
    let ids: Vec<u32> = list.windows().into_iter().map(|w| w.id).collect();
    assert_eq!(ids, vec![1, 2, 3]);
}

#[test]
fn windows_are_waited_for() {
    let mut list = WindowList::new();
    assert!(list.has_room_for(&ToplevelEvent::Appeared(9)));
    assert!(list.has_room_for(&ToplevelEvent::Done));
    assert!(!list.settled());
    assert!(!list.done_waiting(99, 100));
    assert!(list.done_waiting(100, 100));
    list.event(ToplevelEvent::Done);
    assert!(list.settled());
    assert!(!list.done_waiting(0, 100));
    list.event(ToplevelEvent::Appeared(1));
    assert!(list.done_waiting(0, 100));
    assert!(check_manager(true).is_ok());
    let e = check_manager(false).unwrap_err();
    assert!(e.message().contains("zwlr_foreign_toplevel_management_v1"));
    assert_eq!(ToplevelError::Connect("x".into()).message(), "wayland connect: x");
}

#[test]
fn refuses_uid_zero() {
    let root = PasswdEntry { uid: 0, gid: 0, home: Some("/root".into()) };
    let err = resolve_target_user("root", Some(root)).unwrap_err().message();
    assert!(err.contains("uid 0"), "expected a uid-0 refusal, got: {err}");
}

#[test]
fn refuses_unknown_username() {
    let err = resolve_target_user("termland-test-nonexistent-user-8f3c1a", None)
        .unwrap_err()
        .message();
    assert!(err.contains("no such system user"), "expected a no-such-user error, got: {err}");
}

#[test]
fn refuses_embedded_nul() {
    let e = check_username("bad\0user").unwrap_err();
    assert_eq!(
        e.message(),
        "failed to start compositor: username contains NUL byte: \"bad\\0user\""
    );
    assert!(check_username("good").is_ok());
}

#[test]
fn users_need_a_home() {
    let lost = PasswdEntry { uid: 5, gid: 6, home: None };
    assert!(resolve_target_user("u", Some(lost)).is_err());
    let found = PasswdEntry { uid: 5, gid: 6, home: Some("/home/u".into()) };
    let t = resolve_target_user("u", Some(found)).unwrap();
    assert_eq!((t.uid, t.gid, t.home.as_str(), t.username.as_str()), (5, 6, "/home/u", "u"));
    assert_eq!(runtime_dir_of(1000), "/run/user/1000");
}

#[test]
fn lookups_get_more_room() {
    assert!(matches!(lookup_step("u", 0, false, 4096), LookupStep::Done));
    assert!(matches!(lookup_step("u", 34, true, 4096), LookupStep::Retry(8192)));
    match lookup_step("u", 34, true, MAX_LOOKUP_SIZE) {
        LookupStep::Fail(e) => {
            assert_eq!(e.message(), "failed to start compositor: getpwnam_r(u) failed: errno 34")
        }
        other => panic!("expected a failure, got {other:?}"),
    }
    match lookup_step("u", -5, false, 4096) {
        LookupStep::Fail(e) => assert!(e.message().ends_with("errno -5")),
        other => panic!("expected a failure, got {other:?}"),
    }
}

fn user() -> TargetUser {
    TargetUser { uid: 1000, gid: 100, home: "/home/u".into(), username: "u".into() }
}

#[test]
fn runtime_directories_are_made_once() {
    assert!(ensure_runtime_dir(true).is_empty());
    assert_eq!(
        ensure_runtime_dir(false),
        vec![RuntimeDirStep::Make, RuntimeDirStep::GiveAway, RuntimeDirStep::Restrict]
    );
    let e = runtime_dir_error(RuntimeDirStep::GiveAway, &user(), "denied");
    assert_eq!(
        e.message(),
        "failed to start compositor: chown /run/user/1000 to uid=1000 gid=100: denied"
    );
}

/// Whether a program is found among some files.
fn has_program(name: &str, path: Option<&str>, files: &[&str]) -> bool {
    program_candidates(name, path)
        .iter()
        .any(|c| is_executable_file(files.contains(&c.as_str()), 0o100755))
}

#[test]
fn finds_a_program_that_is_definitely_on_path() {
    assert!(has_program("sh", Some("/usr/local/bin:/usr/bin:/bin"), &["/bin/sh"]));
}

#[test]
fn does_not_find_a_program_that_does_not_exist() {
    let name = "termland-definitely-not-a-real-binary-xyzzy";
    assert!(!has_program(name, Some("/usr/local/bin:/usr/bin:/bin"), &["/bin/sh"]));
}

#[test]
fn absolute_paths_are_used_directly() {
    assert!(has_program("/bin/sh", None, &["/bin/sh"]));
    assert!(!has_program("/nonexistent/path/to/nothing", Some("/bin"), &["/bin/sh"]));
    assert_eq!(program_candidates("./sh", Some("/bin")), vec!["./sh"]);
}

#[test]
fn directories_are_not_executables() {
    assert!(!is_executable_file(false, 0o40755));
    assert!(!is_executable_file(false, 0o41777));
}

#[test]
fn non_executable_files_are_rejected() {
    assert!(!is_executable_file(true, 0o100644));
    assert!(is_executable_file(true, 0o100010));
}

#[test]
fn missing_path_variable_yields_no_match() {
    assert!(!has_program("sh", None, &["/bin/sh"]), "no PATH must mean no match");
}

#[test]
fn search_paths_can_name_the_current_directory() {
    assert_eq!(program_candidates("sh", Some(":/bin:")), vec!["sh", "/bin/sh", "sh"]);
    assert_eq!(program_candidates("sh", Some("")), vec!["sh"]);
}

#[test]
fn detected_terminal_is_a_real_program_when_one_exists() {
    for t in TERMINALS {
        let installed = vec!["vi".to_string(), t.to_string()];
        assert!(installed.contains(&detect_terminal(&installed)));
    }
    let both = vec!["xterm".to_string(), "foot".to_string()];
    assert_eq!(detect_terminal(&both), "foot");
    assert_eq!(detect_terminal(&[]), "xterm");
}

#[test]
fn desktops_are_detected() {
    let plasma: Vec<String> =
        ["plasmashell", "dbus-run-session", "konsole"].iter().map(|s| s.to_string()).collect();
    assert_eq!(
        detect_desktop_shell(&plasma),
        "dbus-run-session sh -c 'plasmashell & exec konsole'"
    );
    assert_eq!(detect_desktop_shell(&plasma[..1]), "xterm");
}

#[test]
fn commands_are_checked() {
    assert!(validate_shell_command("konsole --profile=a/b.c:d,e_f '@x'").is_ok());
    assert!(validate_shell_command("").is_err());
    for bad in ["a;b", "a|b", "a&b", "$(x)", "`x`", "a>b", "a\nb", "a\"b", "a+b", "-x", "ä"] {
        assert!(validate_shell_command(bad).is_err(), "{bad:?}");
    }
}

fn value<'a>(plan: &'a termland::compositor::backend::LaunchPlan, name: &str) -> Option<&'a str> {
    plan.set.iter().rev().find(|v| v.name == name).map(|v| v.value.as_str())
}

#[test]
fn privileges_are_dropped_before_the_compositor_runs() {
    let plan = detached_compositor_command("cage", 800, 600, Some(user()), Some("sink"), None, 0);
    assert_eq!(plan.program, "cage");
    assert_eq!(plan.runtime_dir, "/run/user/1000");
    assert_eq!(value(&plan, "XDG_RUNTIME_DIR"), Some("/run/user/1000"));
    assert_eq!(value(&plan, "HOME"), Some("/home/u"));
    assert_eq!(value(&plan, "WLR_BACKENDS"), Some("headless"));
    assert_eq!(value(&plan, "PULSE_SINK"), Some("sink"));
    assert!(plan.unset.contains(&"WAYLAND_DISPLAY".to_string()));
    assert_eq!(plan.child_steps.len(), 4);
    assert!(matches!(plan.child_steps[0], ChildStep::NewSession));
    assert!(matches!(&plan.child_steps[1], ChildStep::InitGroups(n, 100) if n == "u"));
    assert!(matches!(plan.child_steps[2], ChildStep::SetGid(100)));
    assert!(matches!(plan.child_steps[3], ChildStep::SetUid(1000)));
}

#[test]
fn a_session_can_run_as_the_server() {
    let dir = Some("/run/user/7".to_string());
    let plan = detached_compositor_command("cage", 800, 600, None, None, dir, 7);
    assert_eq!(plan.child_steps.len(), 1);
    assert_eq!(plan.runtime_dir, "/run/user/7");
    assert_eq!(value(&plan, "HOME"), None);
    let plan = detached_compositor_command("cage", 800, 600, None, None, None, 7);
    assert_eq!(plan.runtime_dir, "/run/user/7");
}

#[test]
fn compositors_are_started_with_their_programs() {
    let args = vec!["-a".to_string(), "b".to_string()];
    let plan = cage::launch_detached(1, 1, "app", &args, None, None, None, 1);
    assert_eq!(plan.program, "cage");
    assert_eq!(
        plan.args.last().unwrap(),
        "echo \"TERMLAND_SOCKET:$WAYLAND_DISPLAY\" >&2; exec app -a b"
    );
    assert_eq!(socket_wrapper_cmd("x"), "echo \"TERMLAND_SOCKET:$WAYLAND_DISPLAY\" >&2; exec x");
    let plan = labwc::launch_detached(1, 1, "sh -c 'x'", "/tmp/c", None, None, None, 1);
    assert_eq!(plan.program, "labwc");
    assert_eq!(plan.args[..3], ["-C", "/tmp/c", "-S"]);
    assert_eq!(
        plan.args[3],
        "sh -c 'echo \"TERMLAND_SOCKET:$WAYLAND_DISPLAY\" >&2; exec sh -c '\\''x'\\'''"
    );
}

#[test]
fn labwc_has_a_configuration_of_its_own() {
    assert_eq!(labwc::random_suffix(&[0, 15, 16, 255]), "000f10ff");
    assert_eq!(labwc::labwc_config_dir("/tmp", 42, "ab"), "/tmp/termland-labwc-42-ab");
    let config = labwc::minimal_config(1920, 1080);
    assert!(config.contains("<width>1920</width><height>1080</height>"));
    assert!(config.contains("<name>HEADLESS-1</name>"));
}

#[test]
fn the_log_says_where_the_compositor_listens() {
    let log = "noise\nTERMLAND_SOCKET:\r\nTERMLAND_SOCKET: wayland-3 \nTERMLAND_SOCKET:wayland-4\n";
    assert_eq!(socket_in_log(log).as_deref(), Some("wayland-3"));
    assert_eq!(socket_in_log("x TERMLAND_SOCKET:y"), None);
    assert!(matches!(
        read_socket_from_log(Some(log), None, "/l", 0),
        StartStep::Listening(s) if s == "wayland-3"
    ));
    assert!(matches!(read_socket_from_log(None, None, "/l", 0), StartStep::Wait));
    match read_socket_from_log(Some(""), Some("exit status: 1"), "/l", 0) {
        StartStep::Fail(e) => assert_eq!(
            e.message(),
            "failed to start compositor: compositor exited early with exit status: 1 (see log /l)"
        ),
        other => panic!("expected a failure, got {other:?}"),
    }
    assert!(matches!(
        read_socket_from_log(Some(log), None, "/l", LOG_DEADLINE_MS),
        StartStep::Fail(_)
    ));
    assert!(wait_socket_ready(true, 0));
    assert!(!wait_socket_ready(false, 0));
    assert!(wait_socket_ready(false, SOCKET_DEADLINE_MS));
}

#[test]
fn frames_are_read_in_every_format() {
    let four = [1, 2, 3, 4];
    for (format, rgba) in [
        (SHM_ARGB8888, [3, 2, 1, 255]),
        (SHM_XRGB8888, [3, 2, 1, 255]),
        (ARGB8888, [3, 2, 1, 255]),
        (XRGB8888, [3, 2, 1, 255]),
        (ABGR8888, [1, 2, 3, 255]),
        (XBGR8888, [1, 2, 3, 255]),
        (RGB888, [3, 2, 1, 255]),
        (BGR888, [1, 2, 3, 255]),
        (77, [3, 2, 1, 255]),
    ] {
        assert_eq!(read_shm_to_rgba(&four, 1, 1, 4, format), rgba, "{format}");
    }
    let rows = [1, 2, 3, 0, 9, 9, 4, 5, 6, 0, 9, 9];
    assert_eq!(
        read_shm_to_rgba(&rows, 1, 2, 6, SHM_XRGB8888),
        vec![3, 2, 1, 255, 6, 5, 4, 255]
    );
    assert_eq!(buffer_size(6, 2), 12);
    assert_eq!(layout(RGB888).bytes, 3);
}

#[test]
fn pointers_are_read_with_their_transparency() {
    let px = [1, 2, 3, 4];
    assert_eq!(read_shm_to_rgba_preserving_alpha(&px, 1, 1, 4, SHM_ARGB8888), [3, 2, 1, 4]);
    assert_eq!(read_shm_to_rgba_preserving_alpha(&px, 1, 1, 4, ABGR8888), [1, 2, 3, 4]);
    assert_eq!(read_shm_to_rgba_preserving_alpha(&px, 1, 1, 4, SHM_XRGB8888), [3, 2, 1, 255]);
    assert_eq!(read_shm_to_rgba_preserving_alpha(&px, 1, 1, 4, RGB888), [3, 2, 1, 255]);
}

fn offer(format: u32) -> Offer {
    Offer { format, width: 2, height: 2, stride: 8 }
}

#[test]
fn readable_buffers_are_preferred() {
    let mut c = FrameCapture::new();
    assert!(matches!(c.buffer_info(), Err(CaptureError::Failed(_))));
    c.buffer(offer(1234));
    assert!(c.buffer_info().is_err());
    c.buffer(offer(RGB888));
    assert_eq!(c.buffer_info().unwrap().format, RGB888);
    c.buffer(offer(XRGB8888));
    c.buffer(offer(BGR888));
    assert_eq!(c.buffer_info().unwrap().format, XRGB8888);
    assert!(matches!(c.step(), CaptureStep::Wait));
    c.frame_ready();
    assert!(matches!(c.step(), CaptureStep::Read));
    let mut c = FrameCapture::new();
    c.frame_failed();
    assert!(matches!(c.step(), CaptureStep::Fail(CaptureError::Failed(_))));
}

#[test]
fn globals_are_bound_at_their_versions() {
    assert_eq!(capture_global("wl_shm", 2, false), Some((CaptureGlobal::Shm, 1)));
    assert_eq!(capture_global("wl_output", 3, false), Some((CaptureGlobal::Output, 3)));
    assert_eq!(capture_global("wl_output", 3, true), None);
    assert_eq!(
        capture_global("zwlr_screencopy_manager_v1", 9, true),
        Some((CaptureGlobal::Screencopy, 3))
    );
    assert_eq!(capture_global("wl_seat", 1, false), None);
    assert!(check_globals(true, true, true).is_ok());
    assert!(matches!(check_globals(false, true, true), Err(CaptureError::NoShm)));
    assert!(matches!(check_globals(true, false, true), Err(CaptureError::NoOutput)));
    assert!(matches!(check_globals(true, true, false), Err(CaptureError::NoScreencopy)));

    assert_eq!(cursor_global("wl_seat", 9, true, false), Some((CursorGlobal::Seat, 8)));
    assert_eq!(cursor_global("wl_seat", 9, false, true), None);
    assert!(matches!(
        check_cursor_globals(true, true, false, true, true),
        Err(CursorCaptureError::NoSeat)
    ));
    assert!(matches!(
        check_cursor_globals(true, true, true, false, true),
        Err(CursorCaptureError::NoSourceManager)
    ));
    assert!(matches!(
        check_cursor_globals(true, true, true, true, false),
        Err(CursorCaptureError::NoCaptureManager)
    ));
    assert!(matches!(
        check_cursor_globals(false, true, true, true, true),
        Err(CursorCaptureError::NoShm)
    ));
    assert!(matches!(
        check_cursor_globals(true, false, true, true, true),
        Err(CursorCaptureError::NoOutput)
    ));
    assert!(check_cursor_globals(true, true, true, true, true).is_ok());

    assert_eq!(
        input_global("zwp_virtual_keyboard_manager_v1", 4, false),
        Some((InputGlobal::KeyboardManager, 1))
    );
    assert_eq!(
        input_global("zwlr_virtual_pointer_manager_v1", 4, false),
        Some((InputGlobal::PointerManager, 2))
    );
    assert!(check_input_globals(true, true, true).is_ok());
    assert_eq!(
        check_input_globals(false, true, true).unwrap_err().message(),
        "missing global: wl_seat"
    );
    assert_eq!(
        check_input_globals(true, false, true).unwrap_err().message(),
        "missing global: zwlr_virtual_pointer_manager_v1"
    );
    assert_eq!(
        check_input_globals(true, true, false).unwrap_err().message(),
        "missing global: zwp_virtual_keyboard_manager_v1"
    );
    assert_eq!(OutputState::global("zwlr_output_manager_v1", 7), Some(4));
    assert_eq!(OutputState::global("wl_output", 7), None);
}

#[test]
fn pointers_are_captured() {
    let mut s = CursorState::new();
    assert!(matches!(s.check_session(), Err(CursorCaptureError::NoConstraints)));
    s.event(CursorEvent::ConstraintsDone);
    assert!(s.check_session().is_ok());
    assert!(matches!(s.capture_cursor(), CursorPlan::Hidden(c) if !c.visible));
    s.event(CursorEvent::Enter);
    s.event(CursorEvent::Position { x: 10, y: 20 });
    s.event(CursorEvent::Hotspot { x: 1, y: 2 });
    s.event(CursorEvent::BufferSize { width: 1, height: 1 });
    s.event(CursorEvent::ShmFormat { format: SHM_ARGB8888 });
    match s.capture_cursor() {
        CursorPlan::Capture { width, height, stride, format } => {
            assert_eq!((width, height, stride, format), (1, 1, 4, SHM_ARGB8888))
        }
        other => panic!("expected a capture, got {other:?}"),
    }
    assert!(matches!(s.step(0), CursorStep::Wait));
    assert!(matches!(s.step(MAX_ROUNDTRIPS), CursorStep::Wait));
    assert!(matches!(s.step(MAX_ROUNDTRIPS + 1), CursorStep::Fail(_)));
    s.event(CursorEvent::FrameReady);
    assert!(matches!(s.step(1), CursorStep::Read));
    let c = s.captured(&[1, 2, 3, 4], 1, 1, 4, SHM_ARGB8888);
    assert_eq!((c.x, c.y, c.hotspot_x, c.hotspot_y), (10, 20, 1, 2));
    assert_eq!((c.width, c.height, c.visible), (1, 1, true));
    assert_eq!(c.rgba, vec![3, 2, 1, 4]);
    s.event(CursorEvent::FrameFailed);
    s.event(CursorEvent::Stopped);
    assert!(matches!(s.capture_cursor(), CursorPlan::Fail(CursorCaptureError::Stopped)));
}

#[test]
fn outputs_are_resized() {
    let mut s = OutputState::new();
    assert!(matches!(s.discovery_step(0), ResizeStep::Fail(ResizeError::NoManager)));
    s.manager = true;
    assert!(matches!(s.discovery_step(0), ResizeStep::Wait));
    assert!(matches!(s.discovery_step(DISCOVERY_MS), ResizeStep::Fail(ResizeError::NoHead)));
    s.event(OutputEvent::Head(3));
    s.event(OutputEvent::Head(4));
    s.event(OutputEvent::Done(77));
    assert!(matches!(s.discovery_step(0), ResizeStep::Done));
    let c = s.resize(800, 600).unwrap();
    assert_eq!((c.serial, c.head, c.width, c.height, c.refresh), (77, 3, 800, 600, 60000));
    assert!(matches!(s.apply_step(0), ResizeStep::Wait));
    assert!(matches!(s.apply_step(APPLY_MS), ResizeStep::Fail(ResizeError::Timeout)));
    s.event(OutputEvent::Answer(ApplyResult::Succeeded));
    assert!(matches!(s.apply_step(0), ResizeStep::Done));
    let _ = s.resize(1, 1);
    s.event(OutputEvent::Answer(ApplyResult::Failed));
    assert!(matches!(s.apply_step(0), ResizeStep::Fail(ResizeError::ApplyFailed(_))));
    let _ = s.resize(1, 1);
    s.event(OutputEvent::Answer(ApplyResult::Cancelled));
    assert!(matches!(s.apply_step(0), ResizeStep::Fail(ResizeError::ApplyFailed(_))));
    assert!(matches!(OutputState::new().resize(1, 1), Err(ResizeError::NoManager)));
    let mut headless = OutputState::new();
    headless.manager = true;
    assert!(matches!(headless.resize(1, 1), Err(ResizeError::NoHead)));
}

#[test]
fn modifiers_are_held_until_released() {
    let mut m = Modifiers::new();
    assert_eq!(m.key(30, true), None);
    assert_eq!(m.key(42, true), Some(1));
    assert_eq!(m.key(29, true), Some(5));
    assert_eq!(m.key(54, false), Some(4));
    assert_eq!(m.key(125, true), Some(0x44));
    assert_eq!(m.key(97, false), Some(0x40));
    assert_eq!(m.key(100, true), Some(0x48));
}

#[test]
fn characters_have_keysyms() {
    assert_eq!(keysym_name('a').as_deref(), Some("U0061"));
    assert_eq!(keysym_name('\u{1F600}').as_deref(), Some("U1F600"));
    assert_eq!(keysym_name('\n').as_deref(), Some("Return"));
    assert_eq!(keysym_name('\r').as_deref(), Some("Return"));
    assert_eq!(keysym_name('\t').as_deref(), Some("Tab"));
    assert_eq!(keysym_name('\u{1b}'), None);
    assert_eq!(keysym_name('\u{7f}'), None);
    assert_eq!(keysym_name('\u{9f}'), None);
    assert_eq!(keysym_name('\u{a0}').as_deref(), Some("U00A0"));
}

#[test]
fn text_is_typed_with_keymaps_of_its_own() {
    let plan = type_chunk(&['b', 'a', 'b']).unwrap();
    assert_eq!(plan.keys, vec![1, 2, 1]);
    assert!(plan.keymap.contains("<K9> = 9;"));
    assert!(plan.keymap.contains("key <K9> { [ U0062 ] };"));
    assert!(plan.keymap.contains("key <K10> { [ U0061 ] };"));
    assert!(plan.keymap.contains("maximum = 11;"));
    let e = type_chunk(&['\u{1}']).unwrap_err();
    assert!(matches!(e, InputError::InjectFailed(_)));
    let long: String = (0..300u32).map(|i| char::from_u32(0x4E00 + i).unwrap()).collect();
    let chunks = text_chunks(&long);
    assert_eq!(chunks.len(), 2);
    assert_eq!(chunks[0].len(), MAX_KEYS_PER_KEYMAP);
    let joined: String = chunks.iter().flatten().collect();
    assert_eq!(joined, long);
    assert_eq!(text_chunks("a\u{1}b"), vec![vec!['a', 'b']]);
    assert!(text_chunks("\u{1}").is_empty());
    assert_eq!(text_chunks(&"ab".repeat(1000)).len(), 1);
}

#[test]
fn the_keymap_is_put_back_whatever_happens() {
    let mut t = TextInjection::new("hi", 0);
    assert!(matches!(t.next(None), TextAction::Type(0)));
    assert!(matches!(t.next(None), TextAction::RestoreKeymap));
    assert!(matches!(t.next(None), TextAction::Flush));
    assert!(matches!(t.next(None), TextAction::Finish(Ok(()))));

    let failed = || Some(InputError::InjectFailed("x".to_string()));
    let mut t = TextInjection::new("hi", 4);
    assert!(matches!(t.next(None), TextAction::SetModifiers(0)));
    assert!(matches!(t.next(None), TextAction::Type(0)));
    assert!(matches!(t.next(failed()), TextAction::RestoreKeymap));
    assert!(matches!(t.next(failed()), TextAction::SetModifiers(4)));
    match t.next(None) {
        TextAction::Finish(Err(e)) => assert_eq!(e.message(), "failed to inject: x"),
        other => panic!("expected the end, got {other:?}"),
    }
    let mut nothing = TextInjection::new("", 4);
    assert!(matches!(nothing.next(None), TextAction::Finish(Ok(()))));
}

fn config(mode: SessionMode, shell: Option<&str>) -> CompositorConfig {
    CompositorConfig { width: 640, height: 480, mode, desktop_shell: shell.map(|s| s.to_string()) }
}

#[test]
fn modes_choose_their_compositor() {
    let wire = messages::SessionMode::App { command: "c".into(), args: vec!["a".into()] };
    let app = choose_backend(&config(SessionMode::from(wire), None), "d".into());
    assert!(matches!(&app, Launch::Cage { command, args } if command == "c" && args == &["a"]));
    assert_eq!(app.name(), "cage");
    let desktop = SessionMode::from(messages::SessionMode::Desktop);
    let asked = choose_backend(&config(desktop.clone(), Some("sway")), "d".into());
    assert!(matches!(&asked, Launch::Labwc { shell } if shell == "sway"));
    assert_eq!(asked.name(), "labwc");
    let found = choose_backend(&config(desktop, None), "d".into());
    assert!(matches!(found, Launch::Labwc { shell } if shell == "d"));
}

#[test]
fn compositors_are_held() {
    let started = DetachedBackend {
        pid: 9,
        wayland_display: "wayland-1".into(),
        runtime_dir: "/run/user/5".into(),
    };
    let c = config(SessionMode::Desktop, None);
    let (mut comp, pid) =
        Compositor::create(c.clone(), "labwc", started, Ok(()), true, false).unwrap();
    assert_eq!(pid, 9);
    assert_eq!((comp.width(), comp.height()), (640, 480));
    assert_eq!(comp.wayland_display(), "wayland-1");
    assert_eq!(comp.runtime_dir(), "/run/user/5");
    assert_eq!(comp.backend_name(), "labwc");
    assert!(comp.check_resize().is_ok());
    assert!(comp.resize(800, 600, Ok(())).is_ok());
    assert_eq!((comp.width(), comp.height()), (800, 600));
    assert!(comp.resize(1, 1, Err(ResizeError::NoHead)).is_err());
    assert_eq!((comp.width(), comp.height()), (800, 600));
    assert!(comp.check_cursor().is_err());
    assert!(comp.capture_frame(Ok((1, 1, vec![0; 4]))).is_ok());
    assert!(matches!(
        comp.capture_frame(Err(CaptureError::NoShm)),
        Err(CompositorError::CaptureError(m)) if m == "no wl_shm global"
    ));
    let attached = Compositor::attach(
        c.clone(),
        "wayland-2".into(),
        "/r".into(),
        Err("gone".to_string()),
        true,
        true,
    );
    match attached {
        Err(CompositorError::WaylandError(m)) => assert_eq!(m, "connect to compositor: gone"),
        _ => panic!("expected a failure"),
    }
    let mut held =
        Compositor::attach(c, "wayland-2".into(), "/r".into(), Ok(()), false, true).unwrap();
    assert!(held.check_resize().is_err());
    assert!(held.resize(1, 1, Ok(())).is_err());
    assert!(held.check_cursor().is_ok());
    assert!(held.capture_cursor(Ok(CursorCapture::default())).is_ok());
    assert_eq!(
        CompositorError::CompositorExited.message(),
        "compositor exited unexpectedly"
    );
}

#[test]
fn window_flags_come_in_words() {
    assert_eq!(flag_words(&[]), Vec::<[u8; 4]>::new());
    assert_eq!(flag_words(&[1, 2, 3]), Vec::<[u8; 4]>::new());
    assert_eq!(flag_words(&[1, 0, 0, 0, 3, 0, 0, 0, 9]), vec![[1, 0, 0, 0], [3, 0, 0, 0]]);
}

#[test]
fn the_window_manager_is_bound_at_a_version_both_know() {
    assert_eq!(toplevel_global("zwlr_foreign_toplevel_manager_v1", 5), Some(3));
    assert_eq!(toplevel_global("zwlr_foreign_toplevel_manager_v1", 2), Some(2));
    assert_eq!(toplevel_global("zwlr_output_manager_v1", 5), None);
}

#[test]
fn buffer_errors_become_pointer_errors() {
    let e = CursorCaptureError::from_capture(&CaptureError::NoShm);
    assert_eq!(e.message(), format!("shm error: {}", CaptureError::NoShm.message()));
}
