//! The session window: what it shows and what it does with input. These
//! functions decide; the window system and the connection are their caller's.
use vstd::prelude::*;
use crate::client::connection::{ClientCommand, ServerEvent};
use crate::client::overlay;
use crate::client::overlay::{
    BarItem, BarLayout, BarStatus, MenuState, RemoteCursor, MENUBAR_HEIGHT,
};
use crate::pixels;
use crate::protocol::input;
use crate::protocol::input::{ButtonState, KeyEvent, KeyState, MouseButton, MouseMove, MouseScroll};
use crate::protocol::messages::WindowInfo;
use crate::text;

verus! {

/// The names in the browsers' table of keys that the desktop does not forward.
pub open spec fn browser_only() -> Seq<Seq<char>> {
    seq![
        "NumpadMultiply"@,
        "NumLock"@,
        "ScrollLock"@,
        "Numpad7"@,
        "Numpad8"@,
        "Numpad9"@,
        "NumpadSubtract"@,
        "Numpad4"@,
        "Numpad5"@,
        "Numpad6"@,
        "NumpadAdd"@,
        "Numpad1"@,
        "Numpad2"@,
        "Numpad3"@,
        "Numpad0"@,
        "NumpadDecimal"@,
        "NumpadEnter"@,
        "NumpadDivide"@,
        "PrintScreen"@,
        "Pause"@,
        "MetaLeft"@,
        "MetaRight"@,
        "ContextMenu"@,
    ]
}

/// The browsers' name of a key that the window system names: they differ in the
/// two Super keys.
pub open spec fn browser_name(key: Seq<char>) -> Seq<char> {
    if key == "SuperLeft"@ {
        "MetaLeft"@
    } else if key == "SuperRight"@ {
        "MetaRight"@
    } else {
        key
    }
}

/// The evdev scancode of a key that the window system names. The numbers have
/// one home, the browsers' table.
pub open spec fn desktop_key(key: Seq<char>) -> Option<u32> {
    if browser_only().contains(key) {
        None
    } else {
        input::lookup(input::key_table(), browser_name(key))
    }
}

fn is_browser_only(key: &str) -> (b: bool)
    ensures
        b == browser_only().contains(key@),
{
    let names: Vec<&'static str> = vec![
        "NumpadMultiply",
        "NumLock",
        "ScrollLock",
        "Numpad7",
        "Numpad8",
        "Numpad9",
        "NumpadSubtract",
        "Numpad4",
        "Numpad5",
        "Numpad6",
        "NumpadAdd",
        "Numpad1",
        "Numpad2",
        "Numpad3",
        "Numpad0",
        "NumpadDecimal",
        "NumpadEnter",
        "NumpadDivide",
        "PrintScreen",
        "Pause",
        "MetaLeft",
        "MetaRight",
        "ContextMenu",
    ];
    let ghost all = browser_only();
    assert(names@.len() == all.len());
    let mut i: usize = 0;
    while i < names.len()
        invariant
            i <= names@.len(),
            all == browser_only(),
            names@.len() == all.len(),
            forall|k: int| 0 <= k < all.len() ==> (#[trigger] names@[k])@ == all[k],
            forall|k: int| 0 <= k < i ==> all[k] != key@,
        decreases names@.len() - i,
    {
        assert(names@[i as int]@ == all[i as int]);
        if text::same_text(names[i], key) {
            return true;
        }
        i = i + 1;
    }
    false
}

/// The evdev scancode of a key that the window system names, such as `KeyA` or
/// `SuperLeft`. Keys without one are not forwarded.
pub fn keycode_to_evdev(key: &str) -> (r: Option<u32>)
    ensures
        r == desktop_key(key@),
{
    if is_browser_only(key) {
        None
    } else if text::same_text(key, "SuperLeft") {
        input::browser_code_to_evdev("MetaLeft")
    } else if text::same_text(key, "SuperRight") {
        input::browser_code_to_evdev("MetaRight")
    } else {
        input::browser_code_to_evdev(key)
    }
}

/// No two keys of the desktop share a scancode, although two of them are named
/// otherwise than in the browsers' table.
pub proof fn desktop_codes_are_unique(a: Seq<char>, b: Seq<char>)
    requires
        desktop_key(a) is Some,
        desktop_key(a) == desktop_key(b),
    ensures
        a == b,
{
    input::key_codes_are_unique(browser_name(a), browser_name(b));
    assert(browser_only()[20] == "MetaLeft"@);
    assert(browser_only()[21] == "MetaRight"@);
    reveal_strlit("MetaLeft");
    reveal_strlit("MetaRight");
    assert("MetaLeft"@.len() != "MetaRight"@.len());
}

/// A mouse button as the window system reports it.
#[derive(Debug, Clone, Copy, PartialEq, Eq, Structural)]
pub enum PointerButton {
    Left,
    Right,
    Middle,
    Back,
    Forward,
    Other(u16),
}

/// The evdev code of a mouse button.
pub open spec fn button_code(button: PointerButton) -> u32 {
    match button {
        PointerButton::Left => 0x110,
        PointerButton::Right => 0x111,
        PointerButton::Middle => 0x112,
        PointerButton::Back => 0x113,
        PointerButton::Forward => 0x114,
        PointerButton::Other(n) => (0x110 + n) as u32,
    }
}

/// The evdev code of a mouse button.
pub fn mouse_button_to_linux(button: PointerButton) -> (code: u32)
    ensures
        code == button_code(button),
{
    match button {
        PointerButton::Left => 0x110,
        PointerButton::Right => 0x111,
        PointerButton::Middle => 0x112,
        PointerButton::Back => 0x113,
        PointerButton::Forward => 0x114,
        PointerButton::Other(n) => 0x110 + n as u32,
    }
}

/// A Wayland global that is wanted to keep the compositor's own shortcuts off.
#[derive(Debug, Clone, Copy, PartialEq, Eq, Structural)]
pub enum InhibitGlobal {
    Seat { version: u32 },
    Manager { version: u32 },
}

/// Which globals to bind to inhibit shortcuts, and at which version: the first
/// seat, and the inhibit manager.
pub fn inhibit_global(interface: &str, version: u32, have_seat: bool) -> (r: Option<InhibitGlobal>)
    ensures
        ({
            let v: u32 = if version < 1 {
                version
            } else {
                1
            };
            r == (if interface@ == "wl_seat"@ {
                if have_seat {
                    None
                } else {
                    Some(InhibitGlobal::Seat { version: v })
                }
            } else if interface@ == "zwp_keyboard_shortcuts_inhibit_manager_v1"@ {
                Some(InhibitGlobal::Manager { version: v })
            } else {
                None
            })
        }),
{
    let v: u32 = if version < 1 {
        version
    } else {
        1
    };
    if text::same_text(interface, "wl_seat") {
        if have_seat {
            None
        } else {
            Some(InhibitGlobal::Seat { version: v })
        }
    } else if text::same_text(interface, "zwp_keyboard_shortcuts_inhibit_manager_v1") {
        Some(InhibitGlobal::Manager { version: v })
    } else {
        None
    }
}

/// Whether shortcuts can be inhibited with the globals that were found.
pub fn inhibit_possible(have_seat: bool, have_manager: bool) -> (r: Result<(), String>)
    ensures
        r is Ok <==> have_seat && have_manager,
        !have_seat ==> (r matches Err(e) && e@ == "no wl_seat found"@),
        have_seat && !have_manager ==> (r matches Err(e) && e@
            == "compositor does not support keyboard shortcuts inhibitor protocol"@),
{
    if !have_seat {
        Err(String::from_str("no wl_seat found"))
    } else if !have_manager {
        Err(
            String::from_str(
                "compositor does not support keyboard shortcuts inhibitor protocol",
            ),
        )
    } else {
        Ok(())
    }
}

/// The size to ask for at first: that of the window, but at least 320 by 240,
/// or the configured one where there is no window.
pub open spec fn first_size(window: Option<(u32, u32)>, configured: (u32, u32)) -> (u32, u32) {
    match window {
        Some(s) => (
            if s.0 > 320 {
                s.0
            } else {
                320
            },
            if s.1 > 240 {
                s.1
            } else {
                240
            },
        ),
        None => configured,
    }
}

/// What the window does in answer to an event.
#[derive(Debug, Clone)]
pub enum UiAction {
    /// Nothing.
    Idle,
    /// Say goodbye to the server and close.
    Quit,
    /// Send this command to the server.
    Send(ClientCommand),
    /// Enter or leave fullscreen.
    SetFullscreen(bool),
    /// Show or hide the system's pointer.
    SetCursorVisible(bool),
}

/// An event of the window system. Positions come as the whole pixels that the
/// menu bar is tested with; what goes to the server comes as the bit patterns
/// of its floating-point numbers.
#[derive(Debug, Clone)]
pub enum UiEvent {
    CloseRequested,
    /// New size, and the time in milliseconds.
    Resized { width: u32, height: u32, now_ms: u64 },
    /// A physical key by its name.
    Key { name: String, pressed: bool, repeat: bool },
    /// The pointer moved: its column, whether it is above the bar's lower
    /// edge, whether it is in the bar's rows, and where that is on the server.
    CursorMoved { x: i32, above_edge: bool, in_bar: bool, server_x_bits: u64, server_y_bits: u64 },
    MouseInput { button: PointerButton, pressed: bool, x: i32, above_edge: bool, in_bar: bool },
    MouseWheel { dx_bits: u64, dy_bits: u64, above_edge: bool },
    CursorEntered,
    CursorLeft,
}

/// The state of the session window.
#[derive(Debug)]
pub struct DisplayState {
    pub frame_width: u32,
    pub frame_height: u32,
    pub frame: Vec<u32>,
    pub should_exit: bool,
    pub menu: MenuState,
    pub cursor_in_window: bool,
    pub remote_cursor: RemoteCursor,
    /// The attempt to reconnect that is under way.
    pub reconnecting: Option<u32>,
    /// The windows of the session.
    pub windows: Vec<WindowInfo>,
    /// Bytes per second, as last reported.
    pub data_rate: u64,
    pub last_title: String,
    /// Where the menu bar's entries were last drawn.
    pub bar_layout: Option<BarLayout>,
    pub bar_hovered: Option<BarItem>,
    pub bar_visible: bool,
    pub fullscreen: bool,
    /// A size that the server was not told yet, and since when it is known.
    pub pending_resize: Option<(u32, u32, u64)>,
    pub last_sent_size: Option<(u32, u32)>,
}

/// A layout's entries end within 32 bits, as those of a drawn bar do.
pub open spec fn layout_ok(layout: Option<BarLayout>) -> bool {
    layout matches Some(l) ==> forall|i: int|
        0 <= i < l.item_rects@.len() ==> (#[trigger] l.item_rects@[i]).1 + l.item_rects@[i].2
            <= u32::MAX
}

impl DisplayState {
    /// The window before anything was received.
    pub fn new() -> (d: DisplayState)
        ensures
            d.wf(),
            d.frame_width == 0,
            d.frame_height == 0,
            d.frame@.len() == 0,
            !d.should_exit,
            d.menu == (MenuState {
                show_data_rate: true,
                client_cursor: true,
                show_windows: false,
            }),
            !d.cursor_in_window,
            d.remote_cursor.empty(),
            d.reconnecting is None,
            d.windows@.len() == 0,
            d.data_rate == 0,
            d.last_title@ == ""@,
            d.bar_layout is None,
            d.bar_hovered is None,
            !d.bar_visible,
            !d.fullscreen,
            d.pending_resize is None,
            d.last_sent_size is None,
    {
        DisplayState {
            frame_width: 0,
            frame_height: 0,
            frame: Vec::new(),
            should_exit: false,
            menu: MenuState::new(),
            cursor_in_window: false,
            remote_cursor: RemoteCursor::default(),
            reconnecting: None,
            windows: Vec::new(),
            data_rate: 0,
            last_title: String::from_str(""),
            bar_layout: None,
            bar_hovered: None,
            bar_visible: false,
            fullscreen: false,
            pending_resize: None,
            last_sent_size: None,
        }
    }

    /// Whether the state is in order.
    pub open spec fn wf(&self) -> bool {
        layout_ok(self.bar_layout)
    }

    /// Whether the menu bar is on screen.
    pub open spec fn bar_shown(&self) -> bool {
        self.bar_visible && !self.fullscreen
    }

    /// The entry of the menu bar at a position.
    pub open spec fn bar_entry(&self, x: i32, in_bar: bool) -> Option<BarItem> {
        match self.bar_layout {
            Some(l) => if in_bar {
                overlay::entry_at(l.item_rects@, x)
            } else {
                None
            },
            None => None,
        }
    }

    fn entry(&self, x: i32, in_bar: bool) -> (r: Option<BarItem>)
        requires
            self.wf(),
        ensures
            r == self.bar_entry(x, in_bar),
    {
        match &self.bar_layout {
            Some(l) => overlay::hit_test_menubar(l, x, in_bar),
            None => None,
        }
    }

    /// Chooses the size of the session to ask for at first, and remembers a
    /// window's size as told to the server.
    pub fn initial_size(&mut self, window: Option<(u32, u32)>, configured: (u32, u32)) -> (r: (
        u32,
        u32,
    ))
        ensures
            r == first_size(window, configured),
            *final(self) == (DisplayState {
                last_sent_size: if window is Some {
                    Some(r)
                } else {
                    old(self).last_sent_size
                },
                ..*old(self)
            }),
    {
        match window {
            Some((ww, wh)) => {
                let w: u32 = if ww > 320 {
                    ww
                } else {
                    320
                };
                let h: u32 = if wh > 240 {
                    wh
                } else {
                    240
                };
                self.last_sent_size = Some((w, h));
                (w, h)
            },
            None => configured,
        }
    }

    /// Takes an event of the connection. A session that is ready starts with a
    /// black picture; a lost connection keeps the last one.
    pub fn process_event(&mut self, event: ServerEvent)
        requires
            event matches ServerEvent::SessionReady(sr) ==> sr.width * sr.height <= u32::MAX,
        ensures
            match event {
                ServerEvent::SessionReady(sr) => {
                    &&& final(self).frame@ == Seq::new(
                        (sr.width * sr.height) as nat,
                        |i: int| 0u32,
                    )
                    &&& *final(self) == (DisplayState {
                        frame_width: sr.width,
                        frame_height: sr.height,
                        frame: final(self).frame,
                        reconnecting: None,
                        ..*old(self)
                    })
                },
                ServerEvent::Frame { width, height, pixels } => *final(self) == (DisplayState {
                    frame_width: width,
                    frame_height: height,
                    frame: pixels,
                    ..*old(self)
                }),
                ServerEvent::DataRate { bytes_per_sec } => *final(self) == (DisplayState {
                    data_rate: bytes_per_sec,
                    ..*old(self)
                }),
                ServerEvent::CursorUpdate(c) => *final(self) == (DisplayState {
                    remote_cursor: RemoteCursor {
                        hotspot_x: c.hotspot_x,
                        hotspot_y: c.hotspot_y,
                        width: c.width,
                        height: c.height,
                        visible: c.visible,
                        rgba: c.image_rgba,
                    },
                    ..*old(self)
                }),
                ServerEvent::Pong(_) => *final(self) == *old(self),
                ServerEvent::SessionEnded { .. } => *final(self) == (DisplayState {
                    should_exit: true,
                    ..*old(self)
                }),
                ServerEvent::Reconnecting { attempt } => *final(self) == (DisplayState {
                    reconnecting: Some(attempt),
                    ..*old(self)
                }),
            },
    {
        match event {
            ServerEvent::SessionReady(sr) => {
                self.frame_width = sr.width;
                self.frame_height = sr.height;
                self.frame = black(sr.width * sr.height);
                self.reconnecting = None;
            },
            ServerEvent::Frame { width, height, pixels } => {
                self.frame_width = width;
                self.frame_height = height;
                self.frame = pixels;
            },
            ServerEvent::DataRate { bytes_per_sec } => {
                self.data_rate = bytes_per_sec;
            },
            ServerEvent::CursorUpdate(c) => {
                self.remote_cursor = RemoteCursor {
                    hotspot_x: c.hotspot_x,
                    hotspot_y: c.hotspot_y,
                    width: c.width,
                    height: c.height,
                    visible: c.visible,
                    rgba: c.image_rgba,
                };
            },
            ServerEvent::Pong(_) => {},
            ServerEvent::SessionEnded { .. } => {
                self.should_exit = true;
            },
            ServerEvent::Reconnecting { attempt } => {
                self.reconnecting = Some(attempt);
            },
        }
    }

    /// Whether this is the size to tell the server at a time: one that has been
    /// stable for 150 milliseconds and was not told yet.
    pub open spec fn tells_size(
        self,
        now_ms: u64,
        next: DisplayState,
        r: Option<(u32, u32)>,
    ) -> bool {
        match self.pending_resize {
            Some((w, h, since)) => if now_ms - since >= 150 && self.last_sent_size != Some((w, h)) {
                &&& r == Some((w, h))
                &&& next == (DisplayState {
                    last_sent_size: Some((w, h)),
                    pending_resize: None,
                    ..self
                })
            } else {
                r is None && next == self
            },
            None => r is None && next == self,
        }
    }

    /// The size to tell the server now: one that has been stable for 150
    /// milliseconds, so that dragging an edge does not flood it.
    pub fn flush_pending_resize(&mut self, now_ms: u64) -> (r: Option<(u32, u32)>)
        ensures
            old(self).tells_size(now_ms, *final(self), r),
    {
        if let Some((w, h, since)) = self.pending_resize {
            let sent = match self.last_sent_size {
                Some((sw, sh)) => sw == w && sh == h,
                None => false,
            };
            if now_ms >= since && now_ms - since >= 150 && !sent {
                self.last_sent_size = Some((w, h));
                self.pending_resize = None;
                return Some((w, h));
            }
        }
        None
    }

    /// The title that the window should have.
    pub open spec fn title(&self) -> Seq<char> {
        if self.menu.show_data_rate {
            "Termland  ["@ + overlay::rate_text(self.data_rate) + "]"@
        } else {
            "Termland"@
        }
    }

    /// The title to set, if it changed.
    pub fn update_title(&mut self) -> (r: Option<String>)
        ensures
            old(self).title() == old(self).last_title@ ==> r is None && *final(self) == *old(self),
            old(self).title() != old(self).last_title@ ==> {
                &&& r matches Some(t) && t@ == old(self).title() && *final(self) == (DisplayState {
                    last_title: t,
                    ..*old(self)
                })
            },
    {
        let title = if self.menu.show_data_rate {
            String::from_str("Termland  [").concat(
                overlay::format_rate(self.data_rate).as_str(),
            ).concat("]")
        } else {
            String::from_str("Termland")
        };
        if text::same_text(title.as_str(), self.last_title.as_str()) {
            None
        } else {
            self.last_title = title.clone();
            Some(title)
        }
    }

    /// The state after an entry of the menu bar was chosen.
    pub open spec fn activated(self, item: BarItem, cleared: String) -> DisplayState {
        match item {
            BarItem::DataRate => DisplayState {
                menu: MenuState { show_data_rate: !self.menu.show_data_rate, ..self.menu },
                last_title: cleared,
                ..self
            },
            BarItem::ClientCursor => DisplayState {
                menu: MenuState { client_cursor: !self.menu.client_cursor, ..self.menu },
                ..self
            },
            BarItem::Windows => DisplayState {
                menu: MenuState { show_windows: !self.menu.show_windows, ..self.menu },
                ..self
            },
            BarItem::Fullscreen => DisplayState { fullscreen: !self.fullscreen, ..self },
            BarItem::Quit => self,
        }
    }

    /// What choosing an entry of the menu bar asks for.
    pub open spec fn activation(self, item: BarItem) -> UiAction {
        match item {
            BarItem::DataRate => UiAction::Idle,
            BarItem::ClientCursor => UiAction::Send(
                ClientCommand::SetCursorInFrame(self.menu.client_cursor),
            ),
            BarItem::Windows => UiAction::Idle,
            BarItem::Fullscreen => UiAction::SetFullscreen(!self.fullscreen),
            BarItem::Quit => UiAction::Quit,
        }
    }

    /// Carries out an entry of the menu bar.
    pub fn activate_bar_item(&mut self, item: BarItem) -> (a: UiAction)
        ensures
            a == old(self).activation(item),
            *final(self) == old(self).activated(item, final(self).last_title),
            item == BarItem::DataRate ==> final(self).last_title@ == ""@,
    {
        match item {
            BarItem::DataRate => {
                self.menu.show_data_rate = !self.menu.show_data_rate;
                self.last_title = String::from_str("");
                UiAction::Idle
            },
            BarItem::ClientCursor => {
                self.menu.client_cursor = !self.menu.client_cursor;
                UiAction::Send(ClientCommand::SetCursorInFrame(!self.menu.client_cursor))
            },
            BarItem::Windows => {
                self.menu.show_windows = !self.menu.show_windows;
                UiAction::Idle
            },
            BarItem::Fullscreen => self.toggle_fullscreen(),
            BarItem::Quit => UiAction::Quit,
        }
    }

    /// Enters or leaves fullscreen.
    pub fn toggle_fullscreen(&mut self) -> (a: UiAction)
        ensures
            a == UiAction::SetFullscreen(!old(self).fullscreen),
            *final(self) == (DisplayState { fullscreen: !old(self).fullscreen, ..*old(self) }),
    {
        self.fullscreen = !self.fullscreen;
        UiAction::SetFullscreen(self.fullscreen)
    }

    /// Whether a state and an action are what follows a key. F10 shows or hides
    /// the menu bar and F11 is fullscreen; every other key goes to the server,
    /// once for each press and release.
    pub open spec fn after_key(
        self,
        name: Seq<char>,
        pressed: bool,
        repeat: bool,
        next: DisplayState,
        a: UiAction,
    ) -> bool {
        if pressed && !repeat && name == "F10"@ {
            a is Idle && next == (DisplayState { bar_visible: !self.bar_visible, ..self })
        } else if pressed && !repeat && name == "F11"@ {
            &&& a == UiAction::SetFullscreen(!self.fullscreen)
            &&& next == (DisplayState { fullscreen: !self.fullscreen, ..self })
        } else {
            &&& next == self
            &&& match desktop_key(name) {
                Some(scancode) => if repeat {
                    a is Idle
                } else {
                    a == UiAction::Send(
                        ClientCommand::KeyEvent(
                            KeyEvent {
                                scancode,
                                keysym: 0,
                                state: if pressed {
                                    KeyState::Pressed
                                } else {
                                    KeyState::Released
                                },
                                modifiers: 0,
                            },
                        ),
                    )
                },
                None => a is Idle,
            }
        }
    }

    fn on_key(&mut self, name: &str, pressed: bool, repeat: bool) -> (a: UiAction)
        ensures
            old(self).after_key(name@, pressed, repeat, *final(self), a),
    {
        if pressed && !repeat && text::same_text(name, "F10") {
            self.bar_visible = !self.bar_visible;
            return UiAction::Idle;
        }
        if pressed && !repeat && text::same_text(name, "F11") {
            return self.toggle_fullscreen();
        }
        if repeat {
            return UiAction::Idle;
        }
        match keycode_to_evdev(name) {
            Some(scancode) => {
                let state = if pressed {
                    KeyState::Pressed
                } else {
                    KeyState::Released
                };
                UiAction::Send(
                    ClientCommand::KeyEvent(KeyEvent { scancode, keysym: 0, state, modifiers: 0 }),
                )
            },
            None => UiAction::Idle,
        }
    }

    /// Whether a state and an action are what follows an event of the window
    /// system. What happens on the menu bar stays there; the rest goes to the
    /// server.
    pub open spec fn follows(self, event: UiEvent, next: DisplayState, a: UiAction) -> bool {
        match event {
            UiEvent::CloseRequested => a is Quit && next == self,
            UiEvent::Resized { width, height, now_ms } => {
                &&& a is Idle
                &&& next == (if width > 0 && height > 0 {
                    DisplayState { pending_resize: Some((width, height, now_ms)), ..self }
                } else {
                    self
                })
            },
            UiEvent::Key { name, pressed, repeat } => self.after_key(
                name@,
                pressed,
                repeat,
                next,
                a,
            ),
            UiEvent::CursorMoved { x, above_edge, in_bar, server_x_bits, server_y_bits } => {
                &&& next == (DisplayState {
                    bar_hovered: if self.bar_shown() {
                        self.bar_entry(x, in_bar)
                    } else {
                        None
                    },
                    ..self
                })
                &&& if self.bar_shown() && above_edge {
                    a is Idle
                } else {
                    a == UiAction::Send(
                        ClientCommand::MouseMove(
                            MouseMove {
                                x_bits: server_x_bits,
                                y_bits: server_y_bits,
                                absolute: true,
                            },
                        ),
                    )
                }
            },
            UiEvent::MouseInput { button, pressed, x, above_edge, in_bar } => {
                if self.bar_shown() && above_edge {
                    match self.bar_entry(x, in_bar) {
                        Some(item) => if pressed && button == PointerButton::Left {
                            &&& a == self.activation(item)
                            &&& next == self.activated(item, next.last_title)
                            &&& item == BarItem::DataRate ==> next.last_title@ == ""@
                        } else {
                            a is Idle && next == self
                        },
                        None => a is Idle && next == self,
                    }
                } else {
                    &&& next == self
                    &&& a == UiAction::Send(
                        ClientCommand::MouseButton(
                            MouseButton {
                                button: button_code(button),
                                state: if pressed {
                                    ButtonState::Pressed
                                } else {
                                    ButtonState::Released
                                },
                            },
                        ),
                    )
                }
            },
            UiEvent::MouseWheel { dx_bits, dy_bits, above_edge } => {
                &&& next == self
                &&& if self.bar_shown() && above_edge {
                    a is Idle
                } else {
                    a == UiAction::Send(
                        ClientCommand::MouseScroll(MouseScroll { dx_bits, dy_bits }),
                    )
                }
            },
            UiEvent::CursorEntered => a == UiAction::SetCursorVisible(false) && next == (
            DisplayState { cursor_in_window: true, ..self }),
            UiEvent::CursorLeft => a == UiAction::SetCursorVisible(true) && next == (DisplayState {
                cursor_in_window: false,
                ..self
            }),
        }
    }

    /// Takes an event of the window system.
    pub fn window_event(&mut self, event: UiEvent) -> (a: UiAction)
        requires
            old(self).wf(),
        ensures
            final(self).wf(),
            old(self).follows(event, *final(self), a),
    {
        let shown = self.bar_visible && !self.fullscreen;
        match event {
            UiEvent::CloseRequested => UiAction::Quit,
            UiEvent::Resized { width, height, now_ms } => {
                if width > 0 && height > 0 {
                    self.pending_resize = Some((width, height, now_ms));
                }
                UiAction::Idle
            },
            UiEvent::Key { name, pressed, repeat } => self.on_key(name.as_str(), pressed, repeat),
            UiEvent::CursorMoved { x, above_edge, in_bar, server_x_bits, server_y_bits } => {
                self.bar_hovered = if shown {
                    self.entry(x, in_bar)
                } else {
                    None
                };
                if shown && above_edge {
                    UiAction::Idle
                } else {
                    UiAction::Send(
                        ClientCommand::MouseMove(
                            MouseMove {
                                x_bits: server_x_bits,
                                y_bits: server_y_bits,
                                absolute: true,
                            },
                        ),
                    )
                }
            },
            UiEvent::MouseInput { button, pressed, x, above_edge, in_bar } => {
                if shown && above_edge {
                    if pressed && button == PointerButton::Left {
                        if let Some(item) = self.entry(x, in_bar) {
                            return self.activate_bar_item(item);
                        }
                    }
                    return UiAction::Idle;
                }
                let state = if pressed {
                    ButtonState::Pressed
                } else {
                    ButtonState::Released
                };
                UiAction::Send(
                    ClientCommand::MouseButton(
                        MouseButton { button: mouse_button_to_linux(button), state },
                    ),
                )
            },
            UiEvent::MouseWheel { dx_bits, dy_bits, above_edge } => {
                if shown && above_edge {
                    UiAction::Idle
                } else {
                    UiAction::Send(ClientCommand::MouseScroll(MouseScroll { dx_bits, dy_bits }))
                }
            },
            UiEvent::CursorEntered => {
                self.cursor_in_window = true;
                UiAction::SetCursorVisible(false)
            },
            UiEvent::CursorLeft => {
                self.cursor_in_window = false;
                UiAction::SetCursorVisible(true)
            },
        }
    }
}

/// What the pointer does on the menu bar never reaches the server.
pub proof fn the_menu_bar_keeps_the_pointer(
    d: DisplayState,
    event: UiEvent,
    next: DisplayState,
    a: UiAction,
)
    requires
        d.follows(event, next, a),
        d.bar_shown(),
        match event {
            UiEvent::CursorMoved { above_edge, .. } => above_edge,
            UiEvent::MouseInput { above_edge, .. } => above_edge,
            UiEvent::MouseWheel { above_edge, .. } => above_edge,
            _ => false,
        },
    ensures
        a matches UiAction::Send(c) ==> c is SetCursorInFrame,
{
}

/// Every key that is pressed and known goes to the server, whatever modifiers
/// are held, but for the two that are the window's own.
pub proof fn keys_reach_the_server(
    d: DisplayState,
    name: String,
    pressed: bool,
    next: DisplayState,
    a: UiAction,
)
    requires
        d.follows((UiEvent::Key { name, pressed, repeat: false }), next, a),
        desktop_key(name@) is Some,
        pressed ==> name@ != "F10"@ && name@ != "F11"@,
    ensures
        a matches UiAction::Send(ClientCommand::KeyEvent(k)) && Some(k.scancode) == desktop_key(
            name@,
        ),
        next == d,
{
}

/// A size is told once: until the window changes again, nothing more is sent.
pub proof fn sizes_are_told_once(
    d: DisplayState,
    now_ms: u64,
    next: DisplayState,
    r: Option<(u32, u32)>,
    later_ms: u64,
    last: DisplayState,
    again: Option<(u32, u32)>,
)
    requires
        d.tells_size(now_ms, next, r),
        r is Some,
        next.tells_size(later_ms, last, again),
    ensures
        again is None,
{
}

/// Which of `n` source pixels is shown at position `i` of `m`, by a fixed-point
/// ratio with 16 fractional bits.
pub open spec fn nearest_source(i: int, n: int, m: int) -> int {
    let k = (i * ((n * 65536) / m)) / 65536;
    if k < n - 1 {
        k
    } else {
        n - 1
    }
}

/// The window's pixels showing a frame: as it is where the sizes agree, scaled
/// to the nearest pixel where they do not, and black where it has no size.
pub open spec fn shown_frame(
    out: Seq<u32>,
    frame: Seq<u32>,
    fw: u32,
    fh: u32,
    ww: u32,
    wh: u32,
) -> Seq<u32> {
    if fw == ww && fh == wh {
        Seq::new(
            out.len(),
            |i: int|
                if i < frame.len() {
                    frame[i]
                } else {
                    out[i]
                },
        )
    } else if fw > 0 && fh > 0 {
        Seq::new(
            out.len(),
            |i: int|
                frame[nearest_source(i / (ww as int), fh as int, wh as int) * fw + nearest_source(
                    i % (ww as int),
                    fw as int,
                    ww as int,
                )],
        )
    } else {
        Seq::new(out.len(), |i: int| 0u32)
    }
}

/// Whether a frame has every pixel that showing it reads. One that is not
/// scaled may be short.
pub open spec fn frame_covers(len: int, fw: u32, fh: u32, ww: u32, wh: u32) -> bool {
    fw > 0 && fh > 0 && ww > 0 && wh > 0 && !(fw == ww && fh == wh) ==> nearest_source(
        wh - 1,
        fh as int,
        wh as int,
    ) * fw + nearest_source(ww - 1, fw as int, ww as int) < len
}

/// Tells whether a frame has every pixel that showing it reads.
pub fn covers_window(len: usize, fw: u32, fh: u32, ww: u32, wh: u32) -> (b: bool)
    ensures
        b == frame_covers(len as int, fw, fh, ww, wh),
{
    if fw == 0 || fh == 0 || ww == 0 || wh == 0 || (fw == ww && fh == wh) {
        return true;
    }
    let row: u32 = source_index(wh - 1, fh, wh);
    let column: u32 = source_index(ww - 1, fw, ww);
    assert(0 <= row * fw <= 0xFFFF_FFFE * 0xFFFF_FFFF) by (nonlinear_arith)
        requires
            0 <= row <= 0xFFFF_FFFE,
            0 <= fw <= 0xFFFF_FFFF,
    ;
    row as u64 * fw as u64 + (column as u64) < len as u64
}

proof fn nearest_source_grows(i: int, j: int, n: int, m: int)
    requires
        0 <= i <= j < m,
        0 < n,
    ensures
        0 <= nearest_source(i, n, m) <= nearest_source(j, n, m) < n,
{
    let ratio = (n * 65536) / m;
    assert(0 <= ratio) by (nonlinear_arith)
        requires
            ratio == (n * 65536) / m,
            0 < n,
            0 < m,
    ;
    assert(0 <= i * ratio <= j * ratio) by (nonlinear_arith)
        requires
            0 <= i <= j,
            0 <= ratio,
    ;
}

proof fn source_is_covered(x: int, y: int, fw: u32, fh: u32, ww: u32, wh: u32, len: int)
    requires
        0 <= x < ww,
        0 <= y < wh,
        0 < fw,
        0 < fh,
        nearest_source(wh - 1, fh as int, wh as int) * fw + nearest_source(
            ww - 1,
            fw as int,
            ww as int,
        ) < len,
    ensures
        0 <= nearest_source(y, fh as int, wh as int) * fw,
        nearest_source(y, fh as int, wh as int) * fw + nearest_source(x, fw as int, ww as int)
            < len,
{
    nearest_source_grows(y, wh - 1, fh as int, wh as int);
    nearest_source_grows(x, ww - 1, fw as int, ww as int);
    let row = nearest_source(y, fh as int, wh as int);
    let last = nearest_source(wh - 1, fh as int, wh as int);
    assert(0 <= row * fw <= last * fw) by (nonlinear_arith)
        requires
            0 <= row <= last,
            0 <= fw,
    ;
}

fn source_index(i: u32, n: u32, m: u32) -> (k: u32)
    requires
        0 < n,
        i < m,
    ensures
        k == nearest_source(i as int, n as int, m as int),
        k < n,
{
    let ratio: u64 = (n as u64 * 65536) / m as u64;
    assert(i * ratio <= n * 65536) by (nonlinear_arith)
        requires
            ratio == (n * 65536) / (m as int),
            0 <= i < m,
            n >= 0,
    ;
    let k: u64 = (i as u64 * ratio) / 65536;
    assert(k >= 0 && i * ratio >= 0) by (nonlinear_arith)
        requires
            i >= 0,
            ratio >= 0,
            k >= 0,
    ;
    if k < n as u64 - 1 {
        k as u32
    } else {
        n - 1
    }
}

fn scale_frame(out: &mut [u32], frame: &[u32], fw: u32, fh: u32, ww: u32, wh: u32)
    requires
        0 < fw,
        0 < fh,
        0 < ww,
        0 < wh,
        !(fw == ww && fh == wh),
        old(out)@.len() == ww * wh,
        frame_covers(frame@.len() as int, fw, fh, ww, wh),
    ensures
        final(out)@ == Seq::new(
            old(out)@.len(),
            |i: int|
                frame@[nearest_source(i / (ww as int), fh as int, wh as int) * fw + nearest_source(
                    i % (ww as int),
                    fw as int,
                    ww as int,
                )],
        ),
{
    let ghost all = Seq::new(
        old(out)@.len(),
        |i: int|
            frame@[nearest_source(i / (ww as int), fh as int, wh as int) * fw + nearest_source(
                i % (ww as int),
                fw as int,
                ww as int,
            )],
    );
    let out_len: usize = out.len();
    let frame_len: usize = frame.len();
    let mut y: u32 = 0;
    assert(0 * ww == 0) by (nonlinear_arith);
    while y < wh
        invariant
            y <= wh,
            0 < fw,
            0 < fh,
            0 < ww,
            out_len == ww * wh,
            out@.len() == out_len,
            all.len() == out_len,
            frame_len == frame@.len(),
            !(fw == ww && fh == wh),
            frame_covers(frame_len as int, fw, fh, ww, wh),
            all == Seq::new(
                out_len as nat,
                |i: int|
                    frame@[nearest_source(i / (ww as int), fh as int, wh as int) * fw
                        + nearest_source(i % (ww as int), fw as int, ww as int)],
            ),
            forall|i: int| 0 <= i < y * ww ==> #[trigger] out@[i] == all[i],
        decreases wh - y,
    {
        let src_y: u32 = source_index(y, fh, wh);
        proof {
            source_is_covered(0, y as int, fw, fh, ww, wh, frame_len as int);
            nearest_source_grows(0, 0, fw as int, ww as int);
            pixels::rows_fit(y as int, wh as int, ww as int);
            assert(ww * wh == wh * ww) by (nonlinear_arith);
        }
        let src_row: usize = src_y as usize * fw as usize;
        let dst_row: usize = y as usize * ww as usize;
        let mut x: u32 = 0;
        while x < ww
            invariant
                x <= ww,
                y < wh,
                0 < fw,
                0 < fh,
                0 < ww,
                src_y == nearest_source(y as int, fh as int, wh as int),
                src_row == src_y * fw,
                !(fw == ww && fh == wh),
                frame_covers(frame_len as int, fw, fh, ww, wh),
                dst_row == y * ww,
                dst_row + ww <= out_len,
                out_len == ww * wh,
                out@.len() == out_len,
                all.len() == out_len,
                frame_len == frame@.len(),
                all == Seq::new(
                    out_len as nat,
                    |i: int|
                        frame@[nearest_source(i / (ww as int), fh as int, wh as int) * fw
                            + nearest_source(i % (ww as int), fw as int, ww as int)],
                ),
                forall|i: int| 0 <= i < dst_row + x ==> #[trigger] out@[i] == all[i],
            decreases ww - x,
        {
            let src_x: u32 = source_index(x, fw, ww);
            proof {
                source_is_covered(x as int, y as int, fw, fh, ww, wh, frame_len as int);
            }
            out[dst_row + x as usize] = frame[src_row + src_x as usize];
            proof {
                pixels::row_position(y as int, x as int, ww as int);
            }
            x = x + 1;
        }
        proof {
            assert((y + 1) * ww == y * ww + ww) by (nonlinear_arith);
        }
        y = y + 1;
    }
    proof {
        assert(wh * ww == ww * wh) by (nonlinear_arith);
        assert(out@ == all);
    }
}

/// Shows a frame in the window's pixels.
pub fn draw_frame(out: &mut [u32], frame: &[u32], fw: u32, fh: u32, ww: u32, wh: u32)
    requires
        0 < ww,
        0 < wh,
        old(out)@.len() == ww * wh,
        frame_covers(frame@.len() as int, fw, fh, ww, wh),
    ensures
        final(out)@ == shown_frame(old(out)@, frame@, fw, fh, ww, wh),
{
    let ghost before = out@;
    let n: usize = out.len();
    if fw == ww && fh == wh {
        let len: usize = if n < frame.len() {
            n
        } else {
            frame.len()
        };
        let mut i: usize = 0;
        while i < len
            invariant
                i <= len,
                len <= n,
                len <= frame@.len(),
                n == out@.len(),
                n == before.len(),
                forall|k: int|
                    0 <= k < n ==> #[trigger] out@[k] == (if k < i {
                        frame@[k]
                    } else {
                        before[k]
                    }),
            decreases len - i,
        {
            out[i] = frame[i];
            i = i + 1;
        }
        assert(out@ == shown_frame(before, frame@, fw, fh, ww, wh));
    } else if fw > 0 && fh > 0 {
        scale_frame(out, frame, fw, fh, ww, wh);
    } else {
        let mut i: usize = 0;
        while i < n
            invariant
                i <= n,
                n == out@.len(),
                forall|k: int| 0 <= k < i ==> #[trigger] out@[k] == 0u32,
            decreases n - i,
        {
            out[i] = 0;
            i = i + 1;
        }
        assert(out@ == shown_frame(before, frame@, fw, fh, ww, wh));
    }
}

impl DisplayState {
    /// What the menu bar shows.
    pub open spec fn bar_status(&self) -> BarStatus {
        BarStatus {
            show_data_rate: self.menu.show_data_rate,
            client_cursor: self.menu.client_cursor,
            show_windows: self.menu.show_windows,
            fullscreen: self.fullscreen,
            data_rate: self.data_rate,
            window_count: self.windows@.len() as usize,
            hovered: self.bar_hovered,
        }
    }

    /// The window's pixels with the pointer drawn: the server's own where it
    /// sent one, else the arrow. Over the menu bar there is none.
    pub open spec fn with_pointer(
        &self,
        buf: Seq<u32>,
        ww: u32,
        wh: u32,
        x: i32,
        y: i32,
        above_edge: bool,
    ) -> Seq<u32> {
        if self.menu.client_cursor && self.cursor_in_window && !(self.bar_shown() && above_edge) {
            if self.remote_cursor.empty() {
                overlay::with_local_cursor(buf, ww, wh, x as int, y as int)
            } else {
                overlay::with_remote_cursor(
                    buf,
                    ww,
                    wh,
                    x as int,
                    y as int,
                    self.remote_cursor,
                )
            }
        } else {
            buf
        }
    }

    /// Everything the window shows: the frame, the pointer, the menu bar, the
    /// window list, and the banner of a lost connection.
    pub open spec fn picture(
        &self,
        out: Seq<u32>,
        ww: u32,
        wh: u32,
        x: i32,
        y: i32,
        above_edge: bool,
    ) -> Seq<u32> {
        let frame = shown_frame(out, self.frame@, self.frame_width, self.frame_height, ww, wh);
        let pointer = self.with_pointer(frame, ww, wh, x, y, above_edge);
        let bar = if self.bar_shown() {
            overlay::with_menubar(pointer, ww, self.bar_status())
        } else {
            pointer
        };
        let list = if self.menu.show_windows {
            overlay::with_window_list(bar, ww, wh, self.windows@, self.list_offset())
        } else {
            bar
        };
        match self.reconnecting {
            Some(attempt) => overlay::with_banner(list, ww, attempt),
            None => list,
        }
    }

    /// Where the window list starts: under the menu bar where that is shown.
    pub open spec fn list_offset(&self) -> u32 {
        if self.bar_shown() {
            MENUBAR_HEIGHT
        } else {
            0
        }
    }

    /// Whether there is nothing to show yet.
    pub open spec fn blank(&self) -> bool {
        self.frame@.len() == 0 || self.frame_width == 0
    }

    /// Whether the positions of what is drawn over the session's picture can be
    /// computed.
    pub open spec fn overlays_fit(&self, ww: u32, wh: u32) -> bool {
        let len = ww * wh;
        &&& self.bar_shown() ==> overlay::bar_fits(len, ww, self.bar_status())
        &&& self.menu.show_windows ==> overlay::list_fits(
            len,
            ww,
            wh,
            self.windows@,
            self.list_offset(),
        )
        &&& self.reconnecting matches Some(attempt) ==> overlay::banner_fits(len, ww, attempt)
    }

    /// Draws the window's pixels. Returns whether there is anything to show.
    pub fn render(
        &mut self,
        out: &mut [u32],
        ww: u32,
        wh: u32,
        x: i32,
        y: i32,
        above_edge: bool,
    ) -> (drawn: bool)
        requires
            old(out)@.len() == ww * wh,
            !old(self).blank() ==> frame_covers(
                old(self).frame@.len() as int,
                old(self).frame_width,
                old(self).frame_height,
                ww,
                wh,
            ),
            !old(self).blank() && ww > 0 && wh > 0 ==> old(self).overlays_fit(ww, wh),
        ensures
            drawn == (!old(self).blank() && ww > 0 && wh > 0),
            !drawn ==> final(out)@ == old(out)@ && *final(self) == *old(self),
            drawn ==> {
                &&& final(out)@ == old(self).picture(old(out)@, ww, wh, x, y, above_edge)
                &&& final(self).wf()
                &&& old(self).bar_shown() ==> (final(self).bar_layout matches Some(l)
                    && l.item_rects@ == overlay::bar_layout(old(self).bar_status(), 5)
                    && *final(self) == (DisplayState { bar_layout: Some(l), ..*old(self) }))
                &&& !old(self).bar_shown() ==> *final(self) == (DisplayState {
                    bar_layout: None,
                    bar_hovered: None,
                    ..*old(self)
                })
            },
    {
        if self.frame.len() == 0 || self.frame_width == 0 || ww == 0 || wh == 0 {
            return false;
        }
        draw_frame(out, &self.frame, self.frame_width, self.frame_height, ww, wh);
        let shown = self.bar_visible && !self.fullscreen;
        let offset: u32 = if shown {
            MENUBAR_HEIGHT
        } else {
            0
        };
        if self.menu.client_cursor && self.cursor_in_window && !(shown && above_edge) {
            if self.remote_cursor.is_empty() {
                overlay::draw_local_cursor(out, ww, wh, x, y);
            } else {
                overlay::draw_remote_cursor(out, ww, wh, x, y, &self.remote_cursor);
            }
        }
        let ghost pointer = out@;
        if shown {
            let layout = overlay::draw_menubar(
                out,
                ww,
                wh,
                self.menu.show_data_rate,
                self.menu.client_cursor,
                self.menu.show_windows,
                self.fullscreen,
                self.data_rate,
                self.windows.len(),
                self.bar_hovered,
            );
            proof {
                overlay::bar_part_len(pointer, ww as int, self.bar_status(), 5);
                assert forall|i: int| 0 <= i < 5 implies (#[trigger] layout.item_rects@[i]).1
                    + layout.item_rects@[i].2 <= u32::MAX by {
                    overlay::bar_bounds(self.bar_status(), i);
                }
            }
            self.bar_layout = Some(layout);
        } else {
            self.bar_layout = None;
            self.bar_hovered = None;
        }
        let ghost bar = out@;
        if self.menu.show_windows {
            proof {
                overlay::with_window_list_len(bar, ww, wh, self.windows@, offset);
            }
            overlay::draw_window_list(out, ww, wh, &self.windows, offset);
        }
        if let Some(attempt) = self.reconnecting {
            overlay::draw_reconnect_banner(out, ww, wh, attempt);
        }
        true
    }
}

fn black(n: u32) -> (v: Vec<u32>)
    ensures
        v@ == Seq::new(n as nat, |i: int| 0u32),
{
    let v: Vec<u32> = vec![0u32; n as usize];
    assert(v@ == Seq::new(n as nat, |i: int| 0u32));
    v
}

/// A mouse button that does not hit the menu bar reaches the server under its
/// evdev code, pressed exactly where the window system said that it was
/// pressed. The window itself does not change.
pub proof fn clicks_reach_the_server()
    ensures
        forall|
            d: &mut DisplayState,
            button: PointerButton,
            pressed: bool,
            x: i32,
            above_edge: bool,
            in_bar: bool,
            a: UiAction,
        |
            #![trigger call_ensures(DisplayState::window_event, (d, (UiEvent::MouseInput { button, pressed, x, above_edge, in_bar })), a)]
            d.wf() && call_ensures(
                DisplayState::window_event,
                (d, (UiEvent::MouseInput { button, pressed, x, above_edge, in_bar })),
                a,
            ) && !(d.bar_visible && !d.fullscreen && above_edge) ==> {
                &&& a matches UiAction::Send(ClientCommand::MouseButton(m))
                &&& m.state == ButtonState::Pressed <==> pressed
                &&& m.state == ButtonState::Released <==> !pressed
                &&& button == PointerButton::Left ==> m.button == 0x110
                &&& button == PointerButton::Right ==> m.button == 0x111
                &&& button == PointerButton::Middle ==> m.button == 0x112
                &&& button == PointerButton::Back ==> m.button == 0x113
                &&& button == PointerButton::Forward ==> m.button == 0x114
                &&& button matches PointerButton::Other(n) ==> m.button == 0x110 + n
                &&& *final(d) == *d
            },
{
}

/// A key that the window does not keep for itself reaches the server under its
/// scancode, pressed exactly where it was pressed. A key held down is not sent
/// again.
pub proof fn keys_are_sent_as_pressed()
    ensures
        forall|d: &mut DisplayState, name: String, pressed: bool, repeat: bool, a: UiAction|
            #![trigger call_ensures(DisplayState::window_event, (d, (UiEvent::Key { name, pressed, repeat })), a)]
            d.wf() && call_ensures(
                DisplayState::window_event,
                (d, (UiEvent::Key { name, pressed, repeat })),
                a,
            ) ==> {
                &&& repeat ==> a is Idle && *final(d) == *d
                &&& !repeat && !(pressed && (name@ == "F10"@ || name@ == "F11"@)) ==> {
                    &&& *final(d) == *d
                    &&& desktop_key(name@) is None ==> a is Idle
                    &&& desktop_key(name@) matches Some(code) ==> {
                        &&& a matches UiAction::Send(ClientCommand::KeyEvent(k))
                        &&& k.scancode == code
                        &&& k.state == KeyState::Pressed <==> pressed
                        &&& k.state == KeyState::Released <==> !pressed
                    }
                }
            },
{
}

/// F10 shows the menu bar and hides it again; F11 does so with the whole
/// screen. Neither is sent to the server.
pub proof fn two_keys_belong_to_the_window()
    ensures
        forall|d: &mut DisplayState, name: String, a: UiAction|
            #![trigger call_ensures(DisplayState::window_event, (d, (UiEvent::Key { name, pressed: true, repeat: false })), a)]
            d.wf() && call_ensures(
                DisplayState::window_event,
                (d, (UiEvent::Key { name, pressed: true, repeat: false })),
                a,
            ) ==> {
                &&& name@ == "F10"@ ==> {
                    &&& a is Idle
                    &&& final(d).bar_visible == !d.bar_visible
                    &&& *d == (DisplayState { bar_visible: d.bar_visible, ..*final(d) })
                }
                &&& name@ == "F11"@ ==> {
                    &&& a == UiAction::SetFullscreen(final(d).fullscreen)
                    &&& final(d).fullscreen == !d.fullscreen
                    &&& *d == (DisplayState { fullscreen: d.fullscreen, ..*final(d) })
                }
            },
{
    reveal_strlit("F10");
    reveal_strlit("F11");
    assert("F10"@[2] != "F11"@[2]);
}

/// The pointer's movements and the wheel's reach the server as they are, except
/// above the menu bar.
pub proof fn the_pointer_moves_as_told()
    ensures
        forall|
            d: &mut DisplayState,
            x: i32,
            above_edge: bool,
            in_bar: bool,
            server_x_bits: u64,
            server_y_bits: u64,
            a: UiAction,
        |
            #![trigger call_ensures(DisplayState::window_event, (d, (UiEvent::CursorMoved { x, above_edge, in_bar, server_x_bits, server_y_bits })), a)]
            d.wf() && call_ensures(
                DisplayState::window_event,
                (
                    d,
                    (UiEvent::CursorMoved { x, above_edge, in_bar, server_x_bits, server_y_bits }),
                ),
                a,
            ) ==> {
                let over_bar = d.bar_visible && !d.fullscreen && above_edge;
                &&& over_bar ==> a is Idle
                &&& !over_bar ==> {
                    &&& a matches UiAction::Send(ClientCommand::MouseMove(m))
                    &&& m.x_bits == server_x_bits && m.y_bits == server_y_bits && m.absolute
                }
                &&& !(d.bar_visible && !d.fullscreen) ==> final(d).bar_hovered is None
                &&& final(d).frame == d.frame && final(d).menu == d.menu
            },
        forall|d: &mut DisplayState, dx_bits: u64, dy_bits: u64, above_edge: bool, a: UiAction|
            #![trigger call_ensures(DisplayState::window_event, (d, (UiEvent::MouseWheel { dx_bits, dy_bits, above_edge })), a)]
            d.wf() && call_ensures(
                DisplayState::window_event,
                (d, (UiEvent::MouseWheel { dx_bits, dy_bits, above_edge })),
                a,
            ) ==> {
                let over_bar = d.bar_visible && !d.fullscreen && above_edge;
                &&& *final(d) == *d
                &&& over_bar ==> a is Idle
                &&& !over_bar ==> {
                    &&& a matches UiAction::Send(ClientCommand::MouseScroll(m))
                    &&& m.dx_bits == dx_bits && m.dy_bits == dy_bits
                }
            },
{
}

/// Closing the window quits. A new size is kept to be told, unless it is none
/// at all. The window system's pointer is hidden in the window and back outside
/// it.
pub proof fn the_window_follows_its_owner()
    ensures
        forall|d: &mut DisplayState, a: UiAction|
            #![trigger call_ensures(DisplayState::window_event, (d, UiEvent::CloseRequested), a)]
            d.wf() && call_ensures(DisplayState::window_event, (d, UiEvent::CloseRequested), a)
                ==> a is Quit,
        forall|d: &mut DisplayState, width: u32, height: u32, now_ms: u64, a: UiAction|
            #![trigger call_ensures(DisplayState::window_event, (d, (UiEvent::Resized { width, height, now_ms })), a)]
            d.wf() && call_ensures(
                DisplayState::window_event,
                (d, (UiEvent::Resized { width, height, now_ms })),
                a,
            ) ==> {
                &&& a is Idle
                &&& width > 0 && height > 0 ==> final(d).pending_resize == Some(
                    (width, height, now_ms),
                )
                &&& width == 0 || height == 0 ==> final(d).pending_resize == d.pending_resize
                &&& final(d).last_sent_size == d.last_sent_size
            },
        forall|d: &mut DisplayState, a: UiAction|
            #![trigger call_ensures(DisplayState::window_event, (d, UiEvent::CursorEntered), a)]
            d.wf() && call_ensures(DisplayState::window_event, (d, UiEvent::CursorEntered), a)
                ==> a == UiAction::SetCursorVisible(false) && final(d).cursor_in_window,
        forall|d: &mut DisplayState, a: UiAction|
            #![trigger call_ensures(DisplayState::window_event, (d, UiEvent::CursorLeft), a)]
            d.wf() && call_ensures(DisplayState::window_event, (d, UiEvent::CursorLeft), a) ==> a
                == UiAction::SetCursorVisible(true) && !final(d).cursor_in_window,
{
}

/// Each entry of the menu bar turns one thing over and leaves the others: what
/// is on goes off and what is off goes on. The server draws its cursor exactly
/// while the window does not.
pub proof fn entries_turn_one_thing_over()
    ensures
        forall|d: &mut DisplayState, item: BarItem, a: UiAction| #[trigger]
            call_ensures(DisplayState::activate_bar_item, (d, item), a) ==> {
                &&& (final(d).menu.show_data_rate != d.menu.show_data_rate) <==> item
                    == BarItem::DataRate
                &&& (final(d).menu.client_cursor != d.menu.client_cursor) <==> item
                    == BarItem::ClientCursor
                &&& (final(d).menu.show_windows != d.menu.show_windows) <==> item
                    == BarItem::Windows
                &&& (final(d).fullscreen != d.fullscreen) <==> item == BarItem::Fullscreen
                &&& item == BarItem::ClientCursor ==> a == UiAction::Send(
                    ClientCommand::SetCursorInFrame(!final(d).menu.client_cursor),
                )
                &&& item == BarItem::Fullscreen ==> a == UiAction::SetFullscreen(
                    final(d).fullscreen,
                )
                &&& a is Quit <==> item == BarItem::Quit
                &&& item == BarItem::DataRate ==> final(d).last_title@.len() == 0
                &&& final(d).frame == d.frame && final(d).bar_visible == d.bar_visible
                    && final(d).windows == d.windows
            },
        forall|d: &mut DisplayState, a: UiAction| #[trigger]
            call_ensures(DisplayState::toggle_fullscreen, (d,), a) ==> {
                &&& final(d).fullscreen == !d.fullscreen
                &&& a == UiAction::SetFullscreen(final(d).fullscreen)
                &&& final(d).menu == d.menu && final(d).frame == d.frame
            },
{
    reveal_strlit("");
}

/// A left click on an entry of the menu bar does what the entry does; any other
/// click there does nothing, and none goes to the server.
pub proof fn clicks_on_the_bar_stay_there()
    ensures
        forall|
            d: &mut DisplayState,
            button: PointerButton,
            pressed: bool,
            x: i32,
            in_bar: bool,
            a: UiAction,
        |
            #![trigger call_ensures(DisplayState::window_event, (d, (UiEvent::MouseInput { button, pressed, x, above_edge: true, in_bar })), a)]
            d.wf() && call_ensures(
                DisplayState::window_event,
                (d, (UiEvent::MouseInput { button, pressed, x, above_edge: true, in_bar })),
                a,
            ) && d.bar_visible && !d.fullscreen ==> {
                let hit = d.bar_entry(x, in_bar);
                &&& !(a matches UiAction::Send(ClientCommand::MouseButton(_)))
                &&& hit is None || !pressed || button != PointerButton::Left ==> a is Idle
                    && *final(d) == *d
                &&& pressed && button == PointerButton::Left ==> {
                    &&& a is Quit <==> hit == Some(BarItem::Quit)
                    &&& a is SetFullscreen <==> hit == Some(BarItem::Fullscreen)
                    &&& a is Send <==> hit == Some(BarItem::ClientCursor)
                    &&& hit == Some(BarItem::Windows) ==> final(d).menu.show_windows
                        == !d.menu.show_windows
                    &&& hit == Some(BarItem::DataRate) ==> final(d).menu.show_data_rate
                        == !d.menu.show_data_rate
                    &&& hit == Some(BarItem::ClientCursor) ==> final(d).menu.client_cursor
                        == !d.menu.client_cursor
                    &&& hit == Some(BarItem::Fullscreen) ==> final(d).fullscreen
                }
            },
{
}

/// What the connection reports is what is shown: the picture, the rate, the
/// cursor's shape, and that the connection is being retried, until a session is
/// ready again. A lost connection keeps the last picture. Only the end of the
/// session closes the window.
pub proof fn reports_are_shown()
    ensures
        forall|d: &mut DisplayState, event: ServerEvent| #[trigger]
            call_ensures(DisplayState::process_event, (d, event), ()) && (
            event matches ServerEvent::SessionReady(sr) ==> sr.width * sr.height <= u32::MAX) ==> {
                &&& event matches ServerEvent::Frame { width, height, pixels } ==> {
                    &&& final(d).frame@ == pixels@
                    &&& final(d).frame_width == width && final(d).frame_height == height
                }
                &&& event matches ServerEvent::SessionReady(sr) ==> {
                    &&& final(d).frame_width == sr.width && final(d).frame_height == sr.height
                    &&& final(d).frame@.len() == sr.width * sr.height
                    &&& forall|i: int|
                        0 <= i < final(d).frame@.len() ==> #[trigger] final(d).frame@[i] == 0
                    &&& final(d).reconnecting is None
                }
                &&& event matches ServerEvent::DataRate { bytes_per_sec } ==> final(d).data_rate
                    == bytes_per_sec
                &&& event matches ServerEvent::CursorUpdate(c) ==> {
                    let r = final(d).remote_cursor;
                    &&& r.rgba@ == c.image_rgba@
                    &&& r.width == c.width && r.height == c.height
                    &&& r.hotspot_x == c.hotspot_x && r.hotspot_y == c.hotspot_y
                    &&& r.visible == c.visible
                }
                &&& event matches ServerEvent::Reconnecting { attempt } ==> final(d).reconnecting
                    == Some(attempt)
                &&& event is SessionEnded ==> final(d).should_exit
                &&& !(event is SessionEnded) ==> final(d).should_exit == d.should_exit
                &&& !(event is Frame) && !(event is SessionReady) ==> final(d).frame == d.frame
                    && final(d).frame_width == d.frame_width && final(d).frame_height
                    == d.frame_height
                &&& !(event is Reconnecting) && !(event is SessionReady) ==> final(d).reconnecting
                    == d.reconnecting
                &&& final(d).menu == d.menu && final(d).bar_visible == d.bar_visible
            },
{
    assert forall|d: &mut DisplayState, event: ServerEvent| #[trigger]
        call_ensures(DisplayState::process_event, (d, event), ()) && (
        event matches ServerEvent::SessionReady(sr) && sr.width * sr.height
            <= u32::MAX) implies forall|i: int|
        0 <= i < final(d).frame@.len() ==> #[trigger] final(d).frame@[i] == 0 by {
        if let ServerEvent::SessionReady(sr) = event {
            assert(sr.width * sr.height >= 0) by (nonlinear_arith)
                requires
                    sr.width >= 0,
                    sr.height >= 0,
            ;
        }
    }
    assert forall|d: &mut DisplayState, event: ServerEvent| #[trigger]
        call_ensures(DisplayState::process_event, (d, event), ()) && (
        event matches ServerEvent::SessionReady(sr) && sr.width * sr.height <= u32::MAX) implies (
    event matches ServerEvent::SessionReady(sr) && final(d).frame@.len() == sr.width
        * sr.height) by {
        if let ServerEvent::SessionReady(sr) = event {
            assert(sr.width * sr.height >= 0) by (nonlinear_arith)
                requires
                    sr.width >= 0,
                    sr.height >= 0,
            ;
        }
    }
}

/// A size is told once it has stood for 150 milliseconds and differs from the
/// one told last; until then it waits.
pub proof fn sizes_are_told_when_they_stand()
    ensures
        forall|d: &mut DisplayState, now_ms: u64, r: Option<(u32, u32)>| #[trigger]
            call_ensures(DisplayState::flush_pending_resize, (d, now_ms), r) ==> {
                &&& r matches Some(s) ==> {
                    &&& d.pending_resize matches Some(p)
                    &&& p.0 == s.0 && p.1 == s.1
                    &&& now_ms >= p.2 + 150
                    &&& d.last_sent_size != Some(s)
                    &&& final(d).last_sent_size == Some(s)
                    &&& final(d).pending_resize is None
                }
                &&& r is None ==> *final(d) == *d
                &&& d.pending_resize matches Some(p) ==> now_ms >= p.2 + 150 && d.last_sent_size
                    != Some((p.0, p.1)) ==> r is Some
            },
{
}

/// The window's title is told where it has changed, and names the rate exactly
/// while that is shown.
pub proof fn titles_name_the_rate()
    ensures
        forall|d: &mut DisplayState, r: Option<String>| #[trigger]
            call_ensures(DisplayState::update_title, (d,), r) ==> {
                &&& r matches Some(t) ==> {
                    &&& t@ != d.last_title@
                    &&& final(d).last_title@ == t@
                    &&& !d.menu.show_data_rate ==> t@ == "Termland"@
                    &&& d.menu.show_data_rate ==> t@ == "Termland  ["@ + overlay::rate_text(
                        d.data_rate,
                    ) + "]"@
                }
                &&& r is None ==> *final(d) == *d
                &&& final(d).last_title@ == final(d).title()
            },
{
}

/// A session starts no smaller than the least size that a desktop is usable at,
/// and otherwise as large as the window.
pub proof fn sessions_start_at_the_windows_size()
    ensures
        forall|d: &mut DisplayState, window: Option<(u32, u32)>, configured: (u32, u32), r: (u32, u32)|
            #![trigger call_ensures(DisplayState::initial_size, (d, window, configured), r)]
            call_ensures(DisplayState::initial_size, (d, window, configured), r) ==> {
                &&& window matches Some(s) ==> {
                    &&& r.0 >= 320 && r.1 >= 240
                    &&& r.0 >= s.0 && r.1 >= s.1
                    &&& s.0 >= 320 ==> r.0 == s.0
                    &&& s.1 >= 240 ==> r.1 == s.1
                    &&& s.0 < 320 ==> r.0 == 320
                    &&& s.1 < 240 ==> r.1 == 240
                    &&& final(d).last_sent_size == Some(r)
                }
                &&& window is None ==> r == configured && final(d).last_sent_size
                    == d.last_sent_size
            },
{
}

/// A frame of the window's size is shown as it is.
pub proof fn frames_that_fit_are_copied()
    ensures
        forall|out: &mut [u32], frame: &[u32], w: u32, h: u32| #[trigger]
            call_ensures(draw_frame, (out, frame, w, h, w, h), ()) && 0 < w && 0 < h && out@.len()
                == w * h && frame@.len() == w * h ==> final(out)@ == frame@,
{
    assert forall|out: &mut [u32], frame: &[u32], w: u32, h: u32| #[trigger]
        call_ensures(draw_frame, (out, frame, w, h, w, h), ()) && 0 < w && 0 < h && out@.len() == w
            * h && frame@.len() == w * h implies final(out)@ == frame@ by {
        assert(final(out)@ =~= frame@);
    }
}

/// Scaling keeps every place: what stands at a share of the window's width or
/// height comes from the same share of the frame's, to within two pixels.
pub proof fn scaling_keeps_places(i: int, n: int, m: int)
    requires
        0 <= i < m <= 65536,
        0 < n,
    ensures
        0 <= nearest_source(i, n, m) < n,
        nearest_source(i, n, m) * m <= i * n,
        i * n < (nearest_source(i, n, m) + 2) * m,
        nearest_source(0, n, m) == 0,
{
    nearest_source_grows(i, i, n, m);
    let r = (n * 65536) / m;
    let k = (i * r) / 65536;
    let s = nearest_source(i, n, m);
    vstd::arithmetic::div_mod::lemma_fundamental_div_mod(n * 65536, m);
    vstd::arithmetic::div_mod::lemma_mod_bound(n * 65536, m);
    let rest = (n * 65536) % m;
    assert(n * 65536 == m * r + rest);
    assert(m * (i * r) == i * (m * r)) by (nonlinear_arith);
    assert(i * (n * 65536) == i * (m * r) + i * rest) by (nonlinear_arith)
        requires
            n * 65536 == m * r + rest,
    ;
    assert(0 <= i * rest && i * rest <= 65536 * m) by (nonlinear_arith)
        requires
            0 <= i <= 65536,
            0 <= rest < m,
    ;
    assert(i * (n * 65536) == 65536 * (i * n)) by (nonlinear_arith);
    assert(65536 * k <= i * r < 65536 * k + 65536);
    assert(m * (65536 * k) <= m * (i * r) && m * (i * r) < m * (65536 * k + 65536))
        by (nonlinear_arith)
        requires
            0 < m,
            65536 * k <= i * r < 65536 * k + 65536,
    ;
    assert(m * (65536 * k) == 65536 * (k * m)) by (nonlinear_arith);
    assert(m * (65536 * k + 65536) == 65536 * (k * m) + 65536 * m) by (nonlinear_arith);
    assert(k * m <= i * n);
    assert(k <= n - 1) by (nonlinear_arith)
        requires
            k * m <= i * n,
            0 <= i < m,
            0 < n,
    ;
    assert(s == k);
    assert((k + 2) * m == k * m + 2 * m) by (nonlinear_arith);
    assert(0 * r == 0) by (nonlinear_arith);
}

/// Every pixel of a scaled picture is a pixel of the frame, from the same share
/// of its height and width.
pub proof fn scaled_frames_show_the_frame()
    ensures
        forall|out: &mut [u32], frame: &[u32], fw: u32, fh: u32, ww: u32, wh: u32, x: int, y: int|
            #![trigger call_ensures(draw_frame, (out, frame, fw, fh, ww, wh), ()), final(out)@[y * ww + x]]
            call_ensures(draw_frame, (out, frame, fw, fh, ww, wh), ()) && out@.len() == ww * wh
                && frame_covers(frame@.len() as int, fw, fh, ww, wh) && 0 < fw && 0 < fh && !(fw
                == ww && fh == wh) && 0 <= x < ww && 0 <= y < wh ==> final(out)@[y * ww + x]
                == frame@[nearest_source(y, fh as int, wh as int) * fw + nearest_source(
                x,
                fw as int,
                ww as int,
            )],
{
    assert forall|out: &mut [u32], frame: &[u32], fw: u32, fh: u32, ww: u32, wh: u32, x: int, y: int|
        #![trigger call_ensures(draw_frame, (out, frame, fw, fh, ww, wh), ()), final(out)@[y * ww + x]]
        call_ensures(draw_frame, (out, frame, fw, fh, ww, wh), ()) && out@.len() == ww * wh
            && frame_covers(frame@.len() as int, fw, fh, ww, wh) && 0 < fw && 0 < fh && !(fw == ww
            && fh == wh) && 0 <= x < ww && 0 <= y < wh implies final(out)@[y * ww + x]
        == frame@[nearest_source(y, fh as int, wh as int) * fw + nearest_source(
        x,
        fw as int,
        ww as int,
    )] by {
        pixels::row_position(y, x, ww as int);
        pixels::rows_fit(y, wh as int, ww as int);
        assert(ww * wh == wh * ww) by (nonlinear_arith);
    }
}

/// Where nothing is laid over the picture, the window shows the picture alone,
/// and where there is none, the window is left as it was.
pub proof fn the_picture_is_shown()
    ensures
        forall|
            d: &mut DisplayState,
            out: &mut [u32],
            ww: u32,
            wh: u32,
            x: i32,
            y: i32,
            above_edge: bool,
            drawn: bool,
        |
            #![trigger call_ensures(DisplayState::render, (d, out, ww, wh, x, y, above_edge), drawn)]
            call_ensures(DisplayState::render, (d, out, ww, wh, x, y, above_edge), drawn)
                && out@.len() == ww * wh && d.overlays_fit(ww, wh) && frame_covers(
                d.frame@.len() as int,
                d.frame_width,
                d.frame_height,
                ww,
                wh,
            ) ==> {
                &&& d.frame@.len() == 0 || d.frame_width == 0 ==> !drawn && final(out)@ == out@
                &&& d.frame@.len() > 0 && d.frame_width > 0 && ww > 0 && wh > 0 ==> drawn
                &&& drawn && d.frame_width == ww && d.frame_height == wh && d.frame@.len() == ww
                    * wh && !d.bar_visible && !d.menu.show_windows && d.reconnecting is None
                    && !d.cursor_in_window ==> final(out)@ == d.frame@
                &&& final(d).frame == d.frame && final(d).menu == d.menu && final(d).windows
                    == d.windows
            },
{
    assert forall|
        d: &mut DisplayState,
        out: &mut [u32],
        ww: u32,
        wh: u32,
        x: i32,
        y: i32,
        above_edge: bool,
        drawn: bool,
    |
        #![trigger call_ensures(DisplayState::render, (d, out, ww, wh, x, y, above_edge), drawn)]
        call_ensures(DisplayState::render, (d, out, ww, wh, x, y, above_edge), drawn) && out@.len()
            == ww * wh && d.overlays_fit(ww, wh) && frame_covers(
            d.frame@.len() as int,
            d.frame_width,
            d.frame_height,
            ww,
            wh,
        ) && drawn && d.frame_width == ww && d.frame_height == wh && d.frame@.len() == ww * wh
            && !d.bar_visible && !d.menu.show_windows && d.reconnecting is None
            && !d.cursor_in_window implies final(out)@ == d.frame@ by {
        assert(shown_frame(out@, d.frame@, ww, wh, ww, wh) =~= d.frame@);
    }
}

/// A window starts without a picture, in a frame, without its menu bar, drawing
/// the pointer itself and showing the rate.
pub proof fn windows_start_plain(d: DisplayState)
    requires
        call_ensures(DisplayState::new, (), d),
    ensures
        d.frame@.len() == 0 && d.frame_width == 0,
        !d.should_exit && !d.bar_visible && !d.fullscreen,
        d.menu.client_cursor && d.menu.show_data_rate && !d.menu.show_windows,
        d.pending_resize is None && d.last_sent_size is None && d.reconnecting is None,
        d.windows@.len() == 0,
{
}

/// The buttons have the codes of the evdev table, the five named ones in a row.
pub proof fn buttons_have_evdev_codes(button: PointerButton, code: u32)
    requires
        call_ensures(mouse_button_to_linux, (button,), code),
    ensures
        button == PointerButton::Left ==> code == 0x110,
        button == PointerButton::Right ==> code == 0x111,
        button == PointerButton::Middle ==> code == 0x112,
        button == PointerButton::Back ==> code == 0x113,
        button == PointerButton::Forward ==> code == 0x114,
        button matches PointerButton::Other(n) ==> code == 0x110 + n,
{
}

/// A key's number is the one of the browsers' table, under the browsers' name
/// for the two Super keys, and keys that only browsers name have none.
pub proof fn desktop_keys_are_numbered(key: &str, r: Option<u32>)
    requires
        call_ensures(keycode_to_evdev, (key,), r),
    ensures
        key@ == "SuperLeft"@ ==> r == input::lookup(input::key_table(), "MetaLeft"@),
        key@ == "SuperRight"@ ==> r == input::lookup(input::key_table(), "MetaRight"@),
        key@ != "SuperLeft"@ && key@ != "SuperRight"@ && r is Some ==> r == input::lookup(
            input::key_table(),
            key@,
        ),
        r is None ==> input::lookup(input::key_table(), browser_name(key@)) is None
            || browser_only().contains(key@),
        key@ == "MetaLeft"@ || key@ == "MetaRight"@ ==> r is None,
{
    assert(browser_only()[20] == "MetaLeft"@);
    assert(browser_only()[21] == "MetaRight"@);
    super_keys_are_forwarded();
}

proof fn super_keys_are_forwarded()
    ensures
        !browser_only().contains("SuperLeft"@),
        !browser_only().contains("SuperRight"@),
        "SuperLeft"@ != "SuperRight"@,
{
    reveal_strlit("SuperLeft");
    reveal_strlit("SuperRight");
    reveal_strlit("ScrollLock");
    reveal_strlit("NumpadMultiply");
    reveal_strlit("NumLock");
    reveal_strlit("Numpad7");
    reveal_strlit("Numpad8");
    reveal_strlit("Numpad9");
    reveal_strlit("NumpadSubtract");
    reveal_strlit("Numpad4");
    reveal_strlit("Numpad5");
    reveal_strlit("Numpad6");
    reveal_strlit("NumpadAdd");
    reveal_strlit("Numpad1");
    reveal_strlit("Numpad2");
    reveal_strlit("Numpad3");
    reveal_strlit("Numpad0");
    reveal_strlit("NumpadDecimal");
    reveal_strlit("NumpadEnter");
    reveal_strlit("NumpadDivide");
    reveal_strlit("PrintScreen");
    reveal_strlit("Pause");
    reveal_strlit("MetaLeft");
    reveal_strlit("MetaRight");
    reveal_strlit("ContextMenu");
    assert forall|i: int| 0 <= i < browser_only().len() implies browser_only()[i][0] != 'S'
        || browser_only()[i][1] == 'c' by {
    }
    assert("SuperLeft"@[0] == 'S' && "SuperLeft"@[1] == 'u');
    assert("SuperRight"@[0] == 'S' && "SuperRight"@[1] == 'u');
    assert("SuperLeft"@.len() != "SuperRight"@.len());
}

/// Shortcuts are kept off by the first seat and the manager, bound at the first
/// version, and only where both are there.
pub proof fn shortcuts_need_a_seat_and_a_manager(
    interface: &str,
    version: u32,
    have_seat: bool,
    have_manager: bool,
    r: Option<InhibitGlobal>,
    p: Result<(), String>,
)
    requires
        call_ensures(inhibit_global, (interface, version, have_seat), r),
        call_ensures(inhibit_possible, (have_seat, have_manager), p),
    ensures
        r matches Some(InhibitGlobal::Seat { version: v }) ==> interface@ == "wl_seat"@
            && !have_seat && v <= 1 && v <= version,
        r matches Some(InhibitGlobal::Manager { version: v }) ==> interface@
            == "zwp_keyboard_shortcuts_inhibit_manager_v1"@ && v <= 1 && v <= version,
        interface@ == "wl_seat"@ && !have_seat ==> r is Some,
        interface@ == "zwp_keyboard_shortcuts_inhibit_manager_v1"@ ==> r is Some,
        p is Ok <==> have_seat && have_manager,
{
    reveal_strlit("wl_seat");
    reveal_strlit("zwp_keyboard_shortcuts_inhibit_manager_v1");
    assert("wl_seat"@.len() != "zwp_keyboard_shortcuts_inhibit_manager_v1"@.len());
}

/// A frame that is said to cover the window has every pixel that is read of it,
/// for every place in the window; one of another size that is too short is found
/// out.
pub proof fn covering_frames_have_every_pixel(
    len: usize,
    fw: u32,
    fh: u32,
    ww: u32,
    wh: u32,
    b: bool,
    row: int,
    col: int,
)
    requires
        call_ensures(covers_window, (len, fw, fh, ww, wh), b),
        fw > 0,
        fh > 0,
        0 <= row < wh,
        0 <= col < ww,
        fw != ww || fh != wh,
    ensures
        b ==> nearest_source(row, fh as int, wh as int) * fw + nearest_source(
            col,
            fw as int,
            ww as int,
        ) < len,
        len >= fw * fh ==> b,
        len == 0 ==> !b,
{
    nearest_source_grows(row, wh - 1, fh as int, wh as int);
    nearest_source_grows(col, ww - 1, fw as int, ww as int);
    let r1 = nearest_source(row, fh as int, wh as int);
    let r2 = nearest_source(wh - 1, fh as int, wh as int);
    let c2 = nearest_source(ww - 1, fw as int, ww as int);
    assert(r1 * fw <= r2 * fw && 0 <= r2 * fw && r2 * fw + c2 < fw * fh) by (nonlinear_arith)
        requires
            0 <= r1 <= r2 < fh,
            0 <= c2 < fw,
    ;
}

/// The bar's entries are where they were drawn: what is under the mouse, and what
/// a click does, is what a search of the layout finds there.
pub proof fn the_bar_is_searched_where_it_was_drawn()
    ensures
        forall|
            d: &mut DisplayState,
            x: i32,
            in_bar: bool,
            a: UiAction,
            l: &BarLayout,
            hit: Option<BarItem>,
        |
            #![trigger call_ensures(DisplayState::window_event, (d, (UiEvent::MouseInput { button: PointerButton::Left, pressed: true, x, above_edge: true, in_bar })), a),
                call_ensures(overlay::hit_test_menubar, (l, x, in_bar), hit)]
            d.wf() && call_ensures(
                DisplayState::window_event,
                (
                    d,
                    (UiEvent::MouseInput {
                        button: PointerButton::Left,
                        pressed: true,
                        x,
                        above_edge: true,
                        in_bar,
                    }),
                ),
                a,
            ) && call_ensures(overlay::hit_test_menubar, (l, x, in_bar), hit) && d.bar_visible
                && !d.fullscreen && d.bar_layout == Some(*l) ==> {
                &&& a is Quit <==> hit == Some(BarItem::Quit)
                &&& a is SetFullscreen <==> hit == Some(BarItem::Fullscreen)
                &&& a is Send <==> hit == Some(BarItem::ClientCursor)
                &&& final(d).menu.show_windows != d.menu.show_windows <==> hit == Some(
                    BarItem::Windows,
                )
                &&& final(d).menu.show_data_rate != d.menu.show_data_rate <==> hit == Some(
                    BarItem::DataRate,
                )
            },
        forall|
            d: &mut DisplayState,
            x: i32,
            above_edge: bool,
            in_bar: bool,
            sx: u64,
            sy: u64,
            a: UiAction,
            l: &BarLayout,
            hit: Option<BarItem>,
        |
            #![trigger call_ensures(DisplayState::window_event, (d, (UiEvent::CursorMoved { x, above_edge, in_bar, server_x_bits: sx, server_y_bits: sy })), a),
                call_ensures(overlay::hit_test_menubar, (l, x, in_bar), hit)]
            d.wf() && call_ensures(
                DisplayState::window_event,
                (
                    d,
                    (UiEvent::CursorMoved {
                        x,
                        above_edge,
                        in_bar,
                        server_x_bits: sx,
                        server_y_bits: sy,
                    }),
                ),
                a,
            ) && call_ensures(overlay::hit_test_menubar, (l, x, in_bar), hit) && d.bar_layout
                == Some(*l) ==> {
                &&& d.bar_visible && !d.fullscreen ==> final(d).bar_hovered == hit
                &&& !d.bar_visible || d.fullscreen ==> final(d).bar_hovered is None
            },
{
}

/// A frame without a size shows black everywhere, unless the window has none
/// either; and a frame that need not be scaled, or has nothing to show, covers
/// any window.
pub proof fn frames_without_size_are_black()
    ensures
        forall|out: &mut [u32], frame: &[u32], fw: u32, fh: u32, ww: u32, wh: u32| #[trigger]
            call_ensures(draw_frame, (out, frame, fw, fh, ww, wh), ()) && (fw == 0 || fh == 0) && 0
                < ww && 0 < wh ==> final(out)@.len() == out@.len() && forall|i: int|
                0 <= i < out@.len() ==> #[trigger] final(out)@[i] == 0,
        forall|len: usize, fw: u32, fh: u32, ww: u32, wh: u32, b: bool| #[trigger]
            call_ensures(covers_window, (len, fw, fh, ww, wh), b) && (fw == 0 || fh == 0 || ww == 0
                || wh == 0 || (fw == ww && fh == wh)) ==> b,
{
}

} // verus!
