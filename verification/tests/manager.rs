use termland::client::args::{Args, CodecArg, Task};
use termland::client::connection::ControlOp;
use termland::client::desktop::{
    autostart_enabled, autostart_entry, autostart_path_in, exec_quote, icon_path, icon_search_dirs, set_autostart,
    tray_icon_name, AutostartPlan, APP_ID,
};
use termland::client::manager::{
    client_args, close_step, codec_from_name, connect_params_for_profile, launch_decision,
    optional_field, poll_request, route_label, says_profiles_changed, session_mode_for,
    session_row, window_request, CloseStep, EditState, HostAction, HostEvent, Launch,
    ManagerAction, ManagerEvent, ManagerState, PollResult, PollState, SessionTable, TrayHost,
    WindowRequest, CLOSE_POLLS, MSG_PROFILES_CHANGED, MSG_QUIT, MSG_SHOW,
};
use termland::client::profile::{config_dir, generate_id, profiles_path, Profile};
use termland::client::single_instance::{
    acquire, asks_to_show, check_private_dir, lock_path, retry_show, runtime_dir, show_request,
    socket_path, ConnectFailure, Instance, LockResult, SHOW_DEADLINE_MS,
};
use termland::client::tray::{
    manager_entry_icon, manager_tray_menu, Entry, HostTray, Item, ManagerTrayAction, TrayAction,
};
use termland::protocol::messages::{SessionInfo, SessionMode, VideoCodec};

fn profile(id: &str) -> Profile {
    Profile::new_default(id.to_string())
}

#[test]
fn client_args_new_session_matches_expected_flags() {
    let mut p = profile("1");
    p.server = "example.com:7100".into();
    p.tls = true;
    p.ssh_opts = vec!["-oPort=9022".into()];
    p.username = Some("alice".into());
    p.remember_password = false;
    p.password = Some("should-not-appear".into());
    p.codec = Some("av1".into());

    let args = client_args(&p, &[]);
    assert_eq!(
        args,
        vec![
            "--ssh-opt", "-oPort=9022",
            "--tls",
            "--user", "alice",
            "--width", "1280",
            "--height", "720",
            "--mode", "desktop",
            "--quality", "75",
            "--codec", "av1",
            "example.com:7100",
        ]
    );
}

#[test]
fn client_args_resume_appends_attach_before_server() {
    let mut p = profile("1");
    p.server = "host:7100".into();
    let args = client_args(&p, &["--attach".into(), "sess-1".into()]);
    assert_eq!(args.last().unwrap(), "host:7100");
    assert!(args.windows(2).any(|w| w == ["--attach", "sess-1"]));
}

#[test]
fn client_args_omits_password_unless_remembered() {
    let mut p = profile("1");
    p.server = "host:7100".into();
    p.password = Some("secret".into());
    p.remember_password = false;
    let args = client_args(&p, &[]);
    assert!(!args.contains(&"--password".to_string()));

    p.remember_password = true;
    let args = client_args(&p, &[]);
    assert!(args.contains(&"--password".to_string()));
    assert!(args.contains(&"secret".to_string()));
}

#[test]
fn client_args_pass_every_setting() {
    let mut p = profile("1");
    p.server = "h".into();
    p.ssh = true;
    p.accept_invalid_certs = true;
    p.desktop_shell = Some("sway".into());
    let args = client_args(&p, &[]);
    assert_eq!(
        args,
        vec![
            "--ssh", "--accept-invalid-certs", "--width", "1280", "--height", "720", "--mode",
            "desktop", "--quality", "75", "--desktop-shell", "sway", "h",
        ]
    );
}

#[test]
fn exec_quote_leaves_plain_paths_alone() {
    assert_eq!(exec_quote("/usr/bin/termland-client"), "/usr/bin/termland-client");
}

#[test]
fn exec_quote_quotes_and_escapes_reserved_characters() {
    assert_eq!(exec_quote("/opt/my apps/termland"), "\"/opt/my apps/termland\"");
    assert_eq!(exec_quote("/opt/$x/t"), "\"/opt/\\\\$x/t\"");
    assert_eq!(exec_quote("/opt/a\\b"), "\"/opt/a\\\\\\\\b\"");
    assert_eq!(exec_quote("/opt/100%/t"), "/opt/100%%/t");
}

/// Reads an `Exec=` value of one argument.
fn unquote(value: &str) -> String {
    let s = value.replace("\\\\", "\\");
    let inner = match s.strip_prefix('"') {
        Some(rest) => {
            let mut out = String::new();
            let mut chars = rest.chars();
            while let Some(c) = chars.next() {
                match c {
                    '"' => break,
                    '\\' => out.extend(chars.next()),
                    _ => out.push(c),
                }
            }
            out
        }
        None => s,
    };
    inner.replace("%%", "%")
}

#[test]
fn quoted_arguments_are_read_back() {
    for arg in ["", "plain", "a b", "%", "%%", "100%", "\"", "\\", "`x`", "$HOME", "a\\\"$`%b c"] {
        assert_eq!(unquote(&exec_quote(arg)), arg);
    }
}

#[test]
fn autostart_entry_starts_the_manager_minimized() {
    let entry = autostart_entry("/usr/bin/termland-client");
    assert!(entry.starts_with("[Desktop Entry]\n"));
    assert!(entry.contains("\nExec=/usr/bin/termland-client --manager --minimized\n"));
    assert!(entry.contains(&format!("\nIcon={APP_ID}\n")));
    assert!(entry.ends_with("\nTerminal=false\nX-GNOME-Autostart-enabled=true\n"));
}

#[test]
fn set_autostart_creates_and_removes_the_entry() {
    let exe = "/usr/bin/termland-client";
    match set_autostart(Some("/home/a/.config"), exe, true) {
        AutostartPlan::Write { dir, path, entry } => {
            assert_eq!(dir, "/home/a/.config/autostart");
            assert_eq!(path, autostart_path_in("/home/a/.config"));
            assert_eq!(path, format!("/home/a/.config/autostart/{APP_ID}.desktop"));
            assert_eq!(entry, autostart_entry(exe));
        }
        other => panic!("expected to write, got {other:?}"),
    }
    match set_autostart(Some("/home/a/.config"), exe, false) {
        AutostartPlan::Remove { path } => assert_eq!(path, autostart_path_in("/home/a/.config")),
        other => panic!("expected to remove, got {other:?}"),
    }
    assert!(matches!(set_autostart(None, exe, true), AutostartPlan::NoConfigDir));
    let files = vec!["/x".to_string(), autostart_path_in("/home/a/.config")];
    assert!(autostart_enabled(Some("/home/a/.config"), &files));
    assert!(!autostart_enabled(Some("/home/a/.config"), &files[..1]));
    assert!(!autostart_enabled(None, &files));
}

#[test]
fn icons_are_looked_for_in_the_data_directories() {
    let some = |s: &str| Some(s.to_string());
    assert_eq!(
        icon_search_dirs(None, some("/home/a"), None),
        vec!["/home/a/.local/share", "/usr/local/share", "/usr/share"]
    );
    assert_eq!(
        icon_search_dirs(some("/d"), some("/home/a"), some(":/x::/y:")),
        vec!["/d", "/x", "/y"]
    );
    assert_eq!(
        icon_search_dirs(None, None, some("")),
        vec!["/usr/local/share", "/usr/share"]
    );
    assert_eq!(icon_path("/usr/share"), format!("/usr/share/icons/hicolor/scalable/apps/{APP_ID}.svg"));
    assert_eq!(tray_icon_name(true), APP_ID);
    assert_eq!(tray_icon_name(false), "video-display");
}

#[test]
fn modes_and_codecs_are_read() {
    assert!(matches!(session_mode_for("desktop"), SessionMode::Desktop));
    assert!(matches!(session_mode_for("app:  "), SessionMode::Desktop));
    assert!(matches!(session_mode_for("kiosk"), SessionMode::Desktop));
    match session_mode_for("app:konsole --profile Dark") {
        SessionMode::App { command, args } => {
            assert_eq!(command, "konsole");
            assert_eq!(args, vec!["--profile", "Dark"]);
        }
        other => panic!("expected an application, got {other:?}"),
    }
    assert_eq!(codec_from_name("hevc"), Some(VideoCodec::H265));
    assert_eq!(codec_from_name("avc"), Some(VideoCodec::H264));
    assert_eq!(codec_from_name("av1"), Some(VideoCodec::Av1));
    assert_eq!(codec_from_name("AV1"), None);
}

#[test]
fn hosts_are_polled_with_their_profile() {
    let mut p = profile("7");
    p.server = "h:1".into();
    p.accept_invalid_certs = true;
    p.password = Some("pw".into());
    p.codec = Some("vp9".into());
    let c = connect_params_for_profile(&p);
    assert!(c.tls && c.accept_invalid_certs && !c.audio);
    assert_eq!(c.password, None);
    assert_eq!(c.codec, Some(VideoCodec::Vp9));
    let r = poll_request(&p);
    assert_eq!((r.profile_id.as_str(), r.server.as_str(), r.ssh), ("7", "h:1", false));
    assert_eq!(route_label(&p), "tcp h:1");
    p.tls = true;
    assert_eq!(route_label(&p), "tls h:1");
    p.ssh = true;
    assert_eq!(route_label(&p), "ssh h:1");
}

fn info(id: &str) -> SessionInfo {
    SessionInfo {
        session_id: id.to_string(),
        mode: "desktop".to_string(),
        width: 1920,
        height: 1080,
        age_secs: 7200,
        attached: true,
    }
}

#[test]
fn the_manager_selects_edits_and_deletes() {
    let mut m = ManagerState::new(vec![profile("a"), profile("b")]);
    assert!(matches!(m.update(ManagerEvent::Select("a".to_string())), ManagerAction::PollNow));
    assert_eq!(m.selected.as_deref(), Some("a"));
    assert!(matches!(m.sessions.get("a"), Some(PollState::Loading)));
    assert_eq!(m.poll_target.as_ref().unwrap().id, "a");
    let polled = PollResult::Sessions("a".to_string(), vec![info("s1")]);
    assert!(matches!(m.update(ManagerEvent::Polled(polled)), ManagerAction::Idle));
    match m.sessions.get("a") {
        Some(PollState::Ready(v)) => assert_eq!(v[0].session_id, "s1"),
        other => panic!("expected sessions, got {other:?}"),
    }
    match m.update(ManagerEvent::Resume("s1".to_string())) {
        ManagerAction::Launch(args) => {
            assert!(args.windows(2).any(|w| w == ["--attach", "s1"]))
        }
        other => panic!("expected a launch, got {other:?}"),
    }
    match m.update(ManagerEvent::CloseSession("s1".to_string())) {
        ManagerAction::Launch(args) => assert!(args.windows(2).any(|w| w == ["--close", "s1"])),
        other => panic!("expected a launch, got {other:?}"),
    }
    assert!(matches!(m.update(ManagerEvent::NewSession), ManagerAction::Launch(_)));

    let _ = m.update(ManagerEvent::Edit("b".to_string()));
    let edit = m.edit.as_mut().unwrap();
    assert!(!edit.is_new);
    edit.profile.display_name = "B".to_string();
    edit.ssh_opts_text = " -v  -4 ".to_string();
    assert!(matches!(m.update(ManagerEvent::SaveEdit), ManagerAction::SaveProfiles));
    assert_eq!(m.profiles.len(), 2);
    assert_eq!(m.profiles[1].display_name, "B");
    assert_eq!(m.profiles[1].ssh_opts, vec!["-v", "-4"]);
    assert_eq!(m.profiles[0].id, "a");

    let _ = m.update(ManagerEvent::NewProfile("c".to_string()));
    assert!(matches!(m.update(ManagerEvent::SaveEdit), ManagerAction::SaveProfiles));
    assert_eq!(m.profiles.len(), 3);
    assert!(matches!(m.update(ManagerEvent::SaveEdit), ManagerAction::Idle));

    let _ = m.update(ManagerEvent::AskDelete("a".to_string()));
    let _ = m.update(ManagerEvent::CancelDelete);
    assert!(matches!(m.update(ManagerEvent::ConfirmDelete), ManagerAction::Idle));
    let _ = m.update(ManagerEvent::AskDelete("a".to_string()));
    assert!(matches!(m.update(ManagerEvent::ConfirmDelete), ManagerAction::SaveProfiles));
    let ids: Vec<_> = m.profiles.iter().map(|p| p.id.as_str()).collect();
    assert_eq!(ids, vec!["b", "c"]);
    assert_eq!(m.selected, None);
    assert!(m.poll_target.is_none());
    assert!(m.sessions.get("a").is_none());
    assert!(matches!(m.update(ManagerEvent::NewSession), ManagerAction::Idle));
    assert!(matches!(m.update(ManagerEvent::Select("zz".to_string())), ManagerAction::Idle));
    assert_eq!(m.shown(), None);
    assert_eq!(m.selected, None);
}

#[test]
fn sessions_are_known_by_profile() {
    let mut t = SessionTable::new();
    t.insert("a", PollState::Loading);
    t.insert("b", PollState::Error("x".to_string()));
    t.insert("a", PollState::Ready(vec![]));
    assert!(matches!(t.get("a"), Some(PollState::Ready(_))));
    t.remove("a");
    assert!(t.get("a").is_none());
    assert!(matches!(t.get("b"), Some(PollState::Error(_))));
    assert_eq!(session_row(&info("s")), vec!["s", "desktop", "1920x1080", "2h", "yes"]);
}

#[test]
fn fields_are_edited_as_text() {
    let mut p = profile("1");
    p.ssh_opts = vec!["-v".into(), "-4".into()];
    assert_eq!(EditState::from_profile(p, true).ssh_opts_text, "-v -4");
    assert_eq!(optional_field("".to_string()), None);
    assert_eq!(optional_field("x".to_string()).as_deref(), Some("x"));
}

#[test]
fn the_tray_process_owns_one_window() {
    let mut host = TrayHost { window: None };
    assert_eq!(host.event(HostEvent::Show), HostAction::Open);
    host.opened(Some(10));
    assert_eq!(host.event(HostEvent::Show), HostAction::Raise);
    assert_eq!(host.event(HostEvent::WindowClosed(9)), HostAction::Idle);
    assert_eq!(host.window, Some(10));
    assert_eq!(host.event(HostEvent::WindowClosed(10)), HostAction::Reap);
    assert_eq!(host.event(HostEvent::Quit), HostAction::Exit);
    host.opened(Some(11));
    assert_eq!(host.event(HostEvent::Quit), HostAction::CloseAndExit);
    assert_eq!(close_step(true, 0), CloseStep::Done);
    assert_eq!(close_step(false, CLOSE_POLLS - 1), CloseStep::Wait);
    assert_eq!(close_step(false, CLOSE_POLLS), CloseStep::Kill);
}

#[test]
fn the_two_processes_understand_each_other() {
    assert_eq!(window_request(Some(MSG_SHOW)), WindowRequest::Show);
    assert_eq!(window_request(Some(" quit \n")), WindowRequest::Quit);
    assert_eq!(window_request(Some(MSG_QUIT)), WindowRequest::Quit);
    assert_eq!(window_request(Some("hello")), WindowRequest::Ignore);
    assert_eq!(window_request(None), WindowRequest::Quit);
    assert!(says_profiles_changed(MSG_PROFILES_CHANGED));
    assert!(!says_profiles_changed("INFO starting"));
    assert_eq!(launch_decision(false, true), Launch::Run);
    assert_eq!(launch_decision(true, true), Launch::Exit);
    assert_eq!(launch_decision(true, false), Launch::ShowOther);
}

#[test]
fn profiles_have_ids_and_a_file() {
    assert_eq!(generate_id(0x1234_5678_9abc, 7), "123456789abc-7");
    assert_eq!(generate_id(0, 0), "0-0");
    let some = |s: &str| Some(s.to_string());
    assert_eq!(config_dir(some("/c"), some("/h")).as_deref(), Some("/c"));
    assert_eq!(config_dir(None, some("/h/")).as_deref(), Some("/h/.config"));
    assert_eq!(config_dir(None, None), None);
    assert_eq!(
        profiles_path(None, some("/h")).as_deref(),
        Some("/h/.config/termland/profiles.json")
    );
}

#[test]
fn accepts_the_0750_directory_the_server_creates() {
    assert!(check_private_dir("/run/user/1000/termland", 1000, 0o40750, 1000).is_ok());
    assert!(check_private_dir("/d", 1000, 0o700, 1000).is_ok());
}

#[test]
fn refuses_a_directory_other_users_can_write() {
    let e = check_private_dir("/tmp/termland-1000", 1000, 0o777, 1000).unwrap_err();
    assert_eq!(e, "/tmp/termland-1000 must be owned by uid 1000 and writable only by it");
    assert!(check_private_dir("/d", 1000, 0o720, 1000).is_err());
    assert!(check_private_dir("/d", 1000, 0o702, 1000).is_err());
    assert!(check_private_dir("/d", 1001, 0o700, 1000).is_err());
}

#[test]
fn second_acquire_is_secondary_until_primary_goes_away() {
    assert_eq!(acquire(LockResult::Taken), Some(Instance::Primary));
    assert_eq!(acquire(LockResult::WouldBlock), Some(Instance::Secondary));
    assert_eq!(acquire(LockResult::Failed), None);
    assert_eq!(lock_path("/r/termland"), "/r/termland/manager.lock");
    assert_eq!(socket_path("/r/termland"), "/r/termland/manager.sock");
}

#[test]
fn request_show_reaches_the_primary() {
    assert!(asks_to_show(&show_request()));
    assert!(!asks_to_show("quit\n"));
    assert!(retry_show(ConnectFailure::NotFound, 0));
    assert!(retry_show(ConnectFailure::Refused, SHOW_DEADLINE_MS - 1));
    assert!(!retry_show(ConnectFailure::Refused, SHOW_DEADLINE_MS));
    assert!(!retry_show(ConnectFailure::Other, 0));
    assert_eq!(runtime_dir(Some("/run/user/5".to_string()), "/tmp", 5), "/run/user/5/termland");
    assert_eq!(runtime_dir(None, "/tmp", 5), "/tmp/termland-5");
}

fn labels(items: &[Item<TrayAction>]) -> Vec<String> {
    items
        .iter()
        .map(|i| match i {
            Item::Separator => "---".to_string(),
            Item::Note(s) => s.clone(),
            Item::Choice(e) => e.label.clone(),
            Item::Group(s, _) => s.clone(),
        })
        .collect()
}

#[test]
fn a_host_tray_lists_its_sessions() {
    let mut tray = HostTray::new("box".to_string(), true);
    assert_eq!(tray.title(), "Termland \u{2014} box");
    assert_eq!(tray.description(), "0 session(s)");
    assert_eq!(
        labels(&tray.menu()),
        vec![
            "Termland \u{2014} box",
            "---",
            "No resumable sessions",
            "---",
            "New desktop session",
            "Manage profiles\u{2026}",
            "Quit tray",
        ]
    );
    tray.update(Ok(vec![info("s1")]));
    let menu = tray.menu();
    assert_eq!(labels(&menu)[2], "s1 \u{2014} desktop (1920\u{d7}1080)");
    match &menu[2] {
        Item::Group(_, entries) => {
            assert_eq!(entries[0].label, "Resume");
            let args = tray.launch_args(&entries[0].action).unwrap();
            assert_eq!(args, vec!["--ssh", "--attach", "s1", "box"]);
            let args = tray.launch_args(&entries[1].action).unwrap();
            assert_eq!(args, vec!["--ssh", "--close", "s1", "box"]);
        }
        other => panic!("expected a session, got {other:?}"),
    }
    tray.update(Err("no route".to_string()));
    assert_eq!(labels(&tray.menu())[2], "\u{26a0} offline: no route");
    assert_eq!(tray.description(), "offline: no route");
    assert_eq!(tray.sessions.len(), 1);
    assert_eq!(tray.launch_args(&TrayAction::NewSession).unwrap(), vec!["--ssh", "box"]);
    assert_eq!(tray.launch_args(&TrayAction::ManageProfiles).unwrap(), vec!["--manager"]);
    assert!(tray.launch_args(&TrayAction::Quit).is_none());
}

#[test]
fn the_manager_tray_starts_sessions() {
    let empty = manager_tray_menu(&[]);
    assert_eq!(empty.len(), 5);
    assert!(matches!(&empty[2], Item::Note(s) if s == "No saved profiles"));
    let menu = manager_tray_menu(&[profile("a"), profile("b")]);
    assert_eq!(menu.len(), 6);
    match &menu[3] {
        Item::Group(name, entries) => {
            assert_eq!(name, "New profile");
            let Entry { label, action } = &entries[0];
            assert_eq!(label, "New session");
            assert_eq!(*action, ManagerTrayAction::NewSession(1));
        }
        other => panic!("expected a profile, got {other:?}"),
    }
    assert!(matches!(
        &menu[0],
        Item::Choice(e) if e.action == ManagerTrayAction::Host(HostEvent::Show)
    ));
}

#[test]
fn only_quitting_has_an_icon_in_the_managers_menu() {
    let quit = ManagerTrayAction::Host(HostEvent::Quit);
    assert_eq!(manager_entry_icon(&quit), Some("application-exit"));
    assert_eq!(manager_entry_icon(&ManagerTrayAction::Host(HostEvent::Show)), None);
    assert_eq!(manager_entry_icon(&ManagerTrayAction::NewSession(0)), None);
    let menu = manager_tray_menu(&[profile("a")]);
    assert!(matches!(
        menu.last(),
        Some(Item::Choice(e)) if e.label == "Quit Termland" && e.action == quit
    ));
}

fn args() -> Args {
    Args {
        server: Some("h:1".to_string()),
        ssh: false,
        ssh_opt: vec![],
        width: 1280,
        height: 720,
        mode: "desktop".to_string(),
        quality: 75,
        codec: None,
        attach: None,
        list_sessions: false,
        close: None,
        tray: false,
        desktop_shell: None,
        preset: None,
        crf: None,
        svt_params: None,
        audio: true,
        tls: false,
        accept_invalid_certs: false,
        user: None,
        password: None,
        no_reconnect: false,
    }
}

#[test]
fn the_command_line_says_what_to_do() {
    assert!(matches!(args().task(), Task::Session));
    let close = Args { close: Some("s".to_string()), list_sessions: true, ..args() };
    assert!(matches!(close.task(), Task::Control(_, ControlOp::Close(id)) if id == "s"));
    let list = Args { list_sessions: true, ..args() };
    assert!(matches!(list.task(), Task::Control(_, ControlOp::List)));
    let tray = Args { tray: true, list_sessions: true, ..args() };
    assert!(matches!(tray.task(), Task::Tray(s) if s == "h:1"));
    let nowhere = Args { server: None, tray: true, ..args() };
    assert!(matches!(nowhere.task(), Task::NoServer));
}

#[test]
fn the_command_line_sets_the_parameters() {
    let a = Args {
        codec: Some(CodecArg::H265),
        accept_invalid_certs: true,
        attach: Some("s".to_string()),
        mode: "app:firefox -P".to_string(),
        ..args()
    };
    let p = a.session_params(800, 600);
    assert_eq!((p.width, p.height, p.audio, p.tls), (800, 600, true, true));
    assert_eq!(p.codec, Some(VideoCodec::H265));
    assert_eq!(p.attach.as_deref(), Some("s"));
    assert!(matches!(p.mode, SessionMode::App { command, .. } if command == "firefox"));
    assert!(p.reconnect);
    let c = a.control_params();
    assert_eq!((c.width, c.audio, c.codec, c.attach), (1280, false, None, None));
    for (arg, wire) in [
        (CodecArg::Av1, VideoCodec::Av1),
        (CodecArg::Vp9, VideoCodec::Vp9),
        (CodecArg::Vp8, VideoCodec::Vp8),
        (CodecArg::H264, VideoCodec::H264),
    ] {
        assert_eq!(arg.to_wire(), wire);
    }
}
