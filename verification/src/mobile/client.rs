//! The object that the platform holds: at most one session at a time, and the
//! input that waits to be sent in it.
use vstd::prelude::*;
use std::collections::{HashMap, VecDeque};
use crate::mobile::session::InputCommand;
use crate::protocol::input::{
    ButtonState, KeyEvent, KeyState, MouseButton, MouseMove, MouseScroll,
};
use crate::protocol::messages::{ClipboardPayload, SessionResize, TextInput};

verus! {

/// The left button.
pub const BTN_LEFT: u32 = 0x110;

/// A session that streams, and the input that waits for it.
struct Session {
    id: u64,
    connected: bool,
    input: VecDeque<InputCommand>,
}

/// The mobile client. Starting a session detaches the one before it.
pub struct TermlandClient {
    session: Option<Session>,
    /// The input that sessions which were detached have yet to send.
    leaving: HashMap<u64, VecDeque<InputCommand>>,
    /// How many sessions were started.
    started: u64,
}

/// What a client holds of a session.
pub ghost struct SessionView {
    pub id: u64,
    pub connected: bool,
    pub input: Seq<InputCommand>,
}

/// What a client holds.
#[verifier::ext_equal]
pub ghost struct ClientView {
    pub session: Option<SessionView>,
    pub leaving: Map<u64, Seq<InputCommand>>,
    pub started: u64,
}

impl View for TermlandClient {
    type V = ClientView;

    closed spec fn view(&self) -> ClientView {
        ClientView {
            session: match self.session {
                Some(s) => Some(
                    SessionView { id: s.id, connected: s.connected, input: s.input@ },
                ),
                None => None,
            },
            leaving: self.leaving@.map_values(|q: VecDeque<InputCommand>| q@),
            started: self.started,
        }
    }
}

impl ClientView {
    /// Whether a session streams.
    pub open spec fn is_connected(self) -> bool {
        self.session matches Some(s) && s.connected
    }

    /// The input that a session has yet to send.
    pub open spec fn waiting(self, id: u64) -> Seq<InputCommand> {
        if self.session matches Some(s) && s.id == id {
            self.session->0.input
        } else if self.leaving.contains_key(id) {
            self.leaving[id]
        } else {
            Seq::empty()
        }
    }

    /// Without the first input that a session has yet to send.
    pub open spec fn with_sent(self, id: u64) -> ClientView {
        if self.session matches Some(s) && s.id == id {
            let s = self.session->0;
            ClientView { session: Some(SessionView { input: s.input.skip(1), ..s }), ..self }
        } else {
            ClientView { leaving: self.leaving.insert(id, self.leaving[id].skip(1)), ..self }
        }
    }

    /// With a command behind the input that waits. Without a session that
    /// streams it is dropped.
    pub open spec fn with_input(self, c: InputCommand) -> ClientView {
        match self.session {
            Some(s) => if s.connected {
                ClientView {
                    session: Some(SessionView { input: s.input.push(c), ..s }),
                    ..self
                }
            } else {
                self
            },
            None => self,
        }
    }

    /// Without a session: the remote one goes on and can be resumed. One that
    /// streams has yet to send the input that waits.
    pub open spec fn detached(self) -> ClientView {
        ClientView {
            session: None,
            leaving: match self.session {
                Some(s) => if s.connected {
                    self.leaving.insert(s.id, s.input)
                } else {
                    self.leaving
                },
                None => self.leaving,
            },
            ..self
        }
    }

    /// With a session that is up, in place of the one before it.
    pub open spec fn with_session(self) -> ClientView {
        let id = (self.started + 1) as u64;
        ClientView {
            session: Some(SessionView { id, connected: true, input: Seq::empty() }),
            started: id,
            ..self.detached()
        }
    }

    /// With a session whose loop has ended. One that was detached is forgotten.
    pub open spec fn with_ended(self, id: u64) -> ClientView {
        if self.session matches Some(s) && s.id == id {
            let s = self.session->0;
            ClientView { session: Some(SessionView { connected: false, ..s }), ..self }
        } else {
            ClientView { leaving: self.leaving.remove(id), ..self }
        }
    }
}

impl TermlandClient {
    /// A client without a session.
    pub fn new() -> (c: TermlandClient)
        ensures
            c@ == (ClientView { session: None, leaving: Map::empty(), started: 0 }),
    {
        broadcast use vstd::std_specs::hash::group_hash_axioms;

        TermlandClient { session: None, leaving: HashMap::new(), started: 0 }
    }

    /// Whether another session can be counted.
    pub fn can_start(&self) -> (b: bool)
        ensures
            b == (self@.started < u64::MAX),
    {
        self.started < u64::MAX
    }

    /// Notes that a session is up, in place of the one before it. Its id tells
    /// it from the others.
    pub fn start(&mut self) -> (id: u64)
        requires
            old(self)@.started < u64::MAX,
        ensures
            id == old(self)@.started + 1,
            final(self)@ == old(self)@.with_session(),
    {
        self.disconnect();
        self.started = self.started + 1;
        let input: VecDeque<InputCommand> = VecDeque::new();
        self.session = Some(Session { id: self.started, connected: true, input });
        assert(self@.session->0.input == Seq::<InputCommand>::empty());
        self.started
    }

    /// Notes that the loop of a session has ended. A session that was detached
    /// or replaced is forgotten then.
    pub fn ended(&mut self, id: u64)
        ensures
            final(self)@ == old(self)@.with_ended(id),
    {
        broadcast use vstd::std_specs::hash::group_hash_axioms;

        let current = match &self.session {
            Some(s) => s.id == id,
            None => false,
        };
        if current {
            match self.session.take() {
                Some(s) => {
                    let mut s = s;
                    s.connected = false;
                    self.session = Some(s);
                },
                None => {},
            }
        } else {
            let _ = self.leaving.remove(&id);
        }
    }

    /// Detaches: nothing is said to the server, which keeps the session. Input
    /// that waits is still sent.
    pub fn disconnect(&mut self)
        ensures
            final(self)@ == old(self)@.detached(),
    {
        broadcast use vstd::std_specs::hash::group_hash_axioms;

        match self.session.take() {
            Some(s) => {
                if s.connected {
                    let _ = self.leaving.insert(s.id, s.input);
                }
            },
            None => {},
        }
    }

    /// Whether a session streams.
    pub fn is_connected(&self) -> (b: bool)
        ensures
            b == self@.is_connected(),
    {
        match &self.session {
            Some(s) => s.connected,
            None => false,
        }
    }

    fn send(&mut self, command: InputCommand)
        ensures
            final(self)@ == old(self)@.with_input(command),
    {
        match self.session.take() {
            Some(s) => {
                let mut s = s;
                if s.connected {
                    s.input.push_back(command);
                }
                self.session = Some(s);
            },
            None => {},
        }
    }

    /// Takes the next input to send in a session, detached or not.
    pub fn next_input(&mut self, id: u64) -> (c: Option<InputCommand>)
        ensures
            ({
                let waiting = old(self)@.waiting(id);
                if waiting.len() > 0 {
                    c == Some(waiting[0]) && final(self)@ == old(self)@.with_sent(id)
                } else {
                    c is None && final(self)@ == old(self)@
                }
            }),
    {
        broadcast use vstd::std_specs::hash::group_hash_axioms;

        let ghost before = self@;
        let current = match &self.session {
            Some(s) => s.id == id,
            None => false,
        };
        if current {
            match self.session.take() {
                Some(s) => {
                    let mut s = s;
                    let ghost queue = s.input@;
                    let c = s.input.pop_front();
                    assert(queue.len() > 0 ==> s.input@ == queue.skip(1));
                    self.session = Some(s);
                    c
                },
                None => None,
            }
        } else {
            match self.leaving.remove(&id) {
                Some(q) => {
                    let mut q = q;
                    let ghost queue = q@;
                    let c = q.pop_front();
                    assert(queue.len() > 0 ==> q@ == queue.skip(1));
                    let _ = self.leaving.insert(id, q);
                    assert(queue.len() == 0 ==> self@.leaving =~= before.leaving);
                    assert(queue.len() > 0 ==> self@.leaving =~= before.with_sent(id).leaving);
                    c
                },
                None => {
                    assert(self@.leaving =~= before.leaving);
                    None
                },
            }
        }
    }

    /// Whether a session was detached or replaced, so that its loop is to end
    /// once no input waits.
    pub fn is_detached(&self, id: u64) -> (b: bool)
        ensures
            b == !(self@.session matches Some(s) && s.id == id),
    {
        match &self.session {
            Some(s) => s.id != id,
            None => true,
        }
    }

    /// Sends a key that is edited or navigated with, as an evdev scancode and
    /// an X11 keysym.
    pub fn send_key(&mut self, scancode: u32, keysym: u32, pressed: bool, modifiers: u32)
        ensures
            final(self)@ == old(self)@.with_input(
                InputCommand::Key(
                    KeyEvent {
                        scancode,
                        keysym,
                        state: if pressed {
                            KeyState::Pressed
                        } else {
                            KeyState::Released
                        },
                        modifiers,
                    },
                ),
            ),
    {
        self.send(
            InputCommand::Key(
                KeyEvent {
                    scancode,
                    keysym,
                    state: if pressed {
                        KeyState::Pressed
                    } else {
                        KeyState::Released
                    },
                    modifiers,
                },
            ),
        );
    }

    /// Sends text that an input method finished. Empty text is nothing.
    pub fn send_text(&mut self, text: String)
        ensures
            final(self)@ == (if text@.len() == 0 {
                old(self)@
            } else {
                old(self)@.with_input(InputCommand::Text(TextInput { text }))
            }),
    {
        if text.as_str().is_empty() {
            return ;
        }
        self.send(InputCommand::Text(TextInput { text }));
    }

    /// Sends where the pointer is, or how far it moved, as the bit patterns of
    /// two floating-point numbers.
    pub fn send_pointer_motion(&mut self, x_bits: u64, y_bits: u64, absolute: bool)
        ensures
            final(self)@ == old(self)@.with_input(
                InputCommand::Motion(MouseMove { x_bits, y_bits, absolute }),
            ),
    {
        self.send(InputCommand::Motion(MouseMove { x_bits, y_bits, absolute }));
    }

    /// Sends a button, by its evdev code. No code is the left button.
    pub fn send_pointer_button(&mut self, button: u32, pressed: bool)
        ensures
            final(self)@ == old(self)@.with_input(
                InputCommand::Button(
                    MouseButton {
                        button: if button == 0 {
                            BTN_LEFT
                        } else {
                            button
                        },
                        state: if pressed {
                            ButtonState::Pressed
                        } else {
                            ButtonState::Released
                        },
                    },
                ),
            ),
    {
        self.send(
            InputCommand::Button(
                MouseButton {
                    button: if button == 0 {
                        BTN_LEFT
                    } else {
                        button
                    },
                    state: if pressed {
                        ButtonState::Pressed
                    } else {
                        ButtonState::Released
                    },
                },
            ),
        );
    }

    /// Sends a scroll movement, as the bit patterns of two floating-point
    /// numbers.
    pub fn send_scroll(&mut self, dx_bits: u64, dy_bits: u64)
        ensures
            final(self)@ == old(self)@.with_input(
                InputCommand::Scroll(MouseScroll { dx_bits, dy_bits }),
            ),
    {
        self.send(InputCommand::Scroll(MouseScroll { dx_bits, dy_bits }));
    }

    /// Sends what was copied on the device.
    pub fn send_clipboard(&mut self, mime_type: String, data: Vec<u8>)
        ensures
            final(self)@ == old(self)@.with_input(
                InputCommand::Clipboard(ClipboardPayload { mime_type, data }),
            ),
    {
        self.send(InputCommand::Clipboard(ClipboardPayload { mime_type, data }));
    }

    /// Asks for another size of the session.
    pub fn resize(&mut self, width: u32, height: u32)
        ensures
            final(self)@ == old(self)@.with_input(
                InputCommand::Resize(SessionResize { width, height }),
            ),
    {
        self.send(InputCommand::Resize(SessionResize { width, height }));
    }

    /// Says whether the server draws the pointer into the video.
    pub fn set_cursor_in_frame(&mut self, in_frame: bool)
        ensures
            final(self)@ == old(self)@.with_input(InputCommand::CursorInFrame(in_frame)),
    {
        self.send(InputCommand::CursorInFrame(in_frame));
    }
}

/// A session that was replaced cannot end the one that replaced it, however
/// late its loop ends.
pub proof fn a_replaced_session_ends_alone(c: ClientView, old_id: u64)
    requires
        c.started < u64::MAX,
        old_id <= c.started,
    ensures
        c.with_session().with_ended(old_id).session == c.with_session().session,
        c.with_session().with_ended(old_id).is_connected(),
{
}

/// Detaching, by hand or by another session, loses no input: what waited for
/// the session still waits for it, and it is told apart from the next one.
pub proof fn detaching_loses_no_input(c: ClientView)
    requires
        c.is_connected(),
        c.started < u64::MAX,
        c.session->0.id <= c.started,
    ensures
        c.detached().waiting(c.session->0.id) == c.waiting(c.session->0.id),
        c.with_session().waiting(c.session->0.id) == c.waiting(c.session->0.id),
        c.with_session().waiting((c.started + 1) as u64) == Seq::<InputCommand>::empty(),
{
}

/// Input waits in the order in which it was made, behind what waits already.
pub proof fn input_keeps_its_order(c: ClientView, first: InputCommand, second: InputCommand)
    requires
        c.is_connected(),
    ensures
        c.with_input(first).with_input(second).session matches Some(s) && s.input
            == c.session->0.input + seq![first, second],
{
    let s = c.session->0;
    assert(s.input.push(first).push(second) == s.input + seq![first, second]);
}

/// Without a session that streams, input changes nothing.
pub proof fn input_without_a_session_is_dropped(c: ClientView, command: InputCommand)
    requires
        !c.is_connected(),
    ensures
        c.with_input(command) == c,
{
}

/// What is typed, clicked, moved, pasted or resized waits behind what was there,
/// with every value that it was called with; without a session nothing waits.
pub proof fn input_waits_as_given()
    ensures
        forall|c: &mut TermlandClient, scancode: u32, keysym: u32, pressed: bool, modifiers: u32|
            #[trigger]
            call_ensures(TermlandClient::send_key, (c, scancode, keysym, pressed, modifiers), ())
                ==> {
                &&& !c@.is_connected() ==> final(c)@ == c@
                &&& c@.is_connected() ==> {
                    &&& final(c)@.is_connected()
                    &&& final(c)@.session->0.id == c@.session->0.id
                    &&& final(c)@.session->0.input.drop_last() == c@.session->0.input
                    &&& final(c)@.session->0.input.len() == c@.session->0.input.len() + 1
                    &&& final(c)@.session->0.input.last() matches InputCommand::Key(k)
                    &&& k.scancode == scancode && k.keysym == keysym && k.modifiers == modifiers
                    &&& pressed <==> k.state is Pressed
                    &&& !pressed <==> k.state is Released
                }
            },
        forall|c: &mut TermlandClient, t: String| #[trigger]
            call_ensures(TermlandClient::send_text, (c, t), ()) ==> {
                &&& !c@.is_connected() || t@.len() == 0 ==> final(c)@ == c@
                &&& c@.is_connected() && t@.len() > 0 ==> {
                    &&& final(c)@.session->0.input.drop_last() == c@.session->0.input
                    &&& final(c)@.session->0.input.len() == c@.session->0.input.len() + 1
                    &&& final(c)@.session->0.input.last() matches InputCommand::Text(i)
                    &&& i.text == t
                }
            },
        forall|c: &mut TermlandClient, x: u64, y: u64, absolute: bool| #[trigger]
            call_ensures(TermlandClient::send_pointer_motion, (c, x, y, absolute), ()) ==> {
                &&& !c@.is_connected() ==> final(c)@ == c@
                &&& c@.is_connected() ==> {
                    &&& final(c)@.session->0.input.drop_last() == c@.session->0.input
                    &&& final(c)@.session->0.input.len() == c@.session->0.input.len() + 1
                    &&& final(c)@.session->0.input.last() matches InputCommand::Motion(m)
                    &&& m.x_bits == x && m.y_bits == y && m.absolute == absolute
                }
            },
        forall|c: &mut TermlandClient, button: u32, pressed: bool| #[trigger]
            call_ensures(TermlandClient::send_pointer_button, (c, button, pressed), ()) ==> {
                &&& !c@.is_connected() ==> final(c)@ == c@
                &&& c@.is_connected() ==> {
                    &&& final(c)@.session->0.input.drop_last() == c@.session->0.input
                    &&& final(c)@.session->0.input.len() == c@.session->0.input.len() + 1
                    &&& final(c)@.session->0.input.last() matches InputCommand::Button(b)
                    &&& button != 0 ==> b.button == button
                    &&& button == 0 ==> b.button == 0x110
                    &&& pressed <==> b.state is Pressed
                    &&& !pressed <==> b.state is Released
                }
            },
        forall|c: &mut TermlandClient, dx: u64, dy: u64| #[trigger]
            call_ensures(TermlandClient::send_scroll, (c, dx, dy), ()) ==> {
                &&& !c@.is_connected() ==> final(c)@ == c@
                &&& c@.is_connected() ==> {
                    &&& final(c)@.session->0.input.drop_last() == c@.session->0.input
                    &&& final(c)@.session->0.input.len() == c@.session->0.input.len() + 1
                    &&& final(c)@.session->0.input.last() matches InputCommand::Scroll(s)
                    &&& s.dx_bits == dx && s.dy_bits == dy
                }
            },
        forall|c: &mut TermlandClient, mime: String, data: Vec<u8>| #[trigger]
            call_ensures(TermlandClient::send_clipboard, (c, mime, data), ()) ==> {
                &&& !c@.is_connected() ==> final(c)@ == c@
                &&& c@.is_connected() ==> {
                    &&& final(c)@.session->0.input.drop_last() == c@.session->0.input
                    &&& final(c)@.session->0.input.len() == c@.session->0.input.len() + 1
                    &&& final(c)@.session->0.input.last() matches InputCommand::Clipboard(p)
                    &&& p.mime_type == mime && p.data == data
                }
            },
        forall|c: &mut TermlandClient, width: u32, height: u32| #[trigger]
            call_ensures(TermlandClient::resize, (c, width, height), ()) ==> {
                &&& !c@.is_connected() ==> final(c)@ == c@
                &&& c@.is_connected() ==> {
                    &&& final(c)@.session->0.input.drop_last() == c@.session->0.input
                    &&& final(c)@.session->0.input.len() == c@.session->0.input.len() + 1
                    &&& final(c)@.session->0.input.last() matches InputCommand::Resize(r)
                    &&& r.width == width && r.height == height
                }
            },
        forall|c: &mut TermlandClient, in_frame: bool| #[trigger]
            call_ensures(TermlandClient::set_cursor_in_frame, (c, in_frame), ()) ==> {
                &&& !c@.is_connected() ==> final(c)@ == c@
                &&& c@.is_connected() ==> {
                    &&& final(c)@.session->0.input.drop_last() == c@.session->0.input
                    &&& final(c)@.session->0.input.len() == c@.session->0.input.len() + 1
                    &&& final(c)@.session->0.input.last() == InputCommand::CursorInFrame(in_frame)
                }
            },
{
}

/// A session that is started has a number of its own, is connected, and has
/// nothing waiting; it may be started as long as numbers are left.
pub proof fn sessions_start_afresh()
    ensures
        forall|c: &mut TermlandClient, id: u64| #[trigger]
            call_ensures(TermlandClient::start, (c,), id) && c@.started < u64::MAX ==> {
                &&& id > c@.started
                &&& final(c)@.started == id
                &&& final(c)@.session matches Some(s)
                &&& s.id == id && s.connected && s.input.len() == 0
            },
        forall|c: &TermlandClient, b: bool| #[trigger]
            call_ensures(TermlandClient::can_start, (c,), b) ==> (b <==> c@.started < u64::MAX),
        forall|c: &TermlandClient, b: bool| #[trigger]
            call_ensures(TermlandClient::is_connected, (c,), b) ==> (b <==> (
            c@.session matches Some(s) && s.connected)),
        forall|c: &TermlandClient, id: u64, b: bool| #[trigger]
            call_ensures(TermlandClient::is_detached, (c, id), b) ==> (b <==> c@.session is None
                || c@.session->0.id != id),
        forall|c: TermlandClient| #[trigger]
            call_ensures(TermlandClient::new, (), c) ==> c@.session is None && c@.started == 0
                && c@.leaving.dom() == Set::<u64>::empty(),
{
}

/// What waits is taken in the order it came, one at a time, also after the
/// session was left; the end of a session stops its input, and no other's.
pub proof fn waiting_input_is_taken_in_order()
    ensures
        forall|c: &mut TermlandClient, id: u64, r: Option<InputCommand>| #[trigger]
            call_ensures(TermlandClient::next_input, (c, id), r) && (c@.session matches Some(s)
                && s.id == id) ==> {
                let s = c@.session->0;
                &&& s.input.len() == 0 ==> r is None && final(c)@ == c@
                &&& s.input.len() > 0 ==> {
                    &&& r == Some(s.input[0])
                    &&& final(c)@.session matches Some(t)
                    &&& t.id == id && t.connected == s.connected
                    &&& seq![s.input[0]] + t.input == s.input
                    &&& final(c)@.leaving == c@.leaving && final(c)@.started == c@.started
                }
            },
        forall|c: &mut TermlandClient, id: u64, r: Option<InputCommand>| #[trigger]
            call_ensures(TermlandClient::next_input, (c, id), r) && !(c@.session matches Some(s)
                && s.id == id) ==> {
                &&& !c@.leaving.dom().contains(id) ==> r is None && final(c)@ == c@
                &&& c@.leaving.dom().contains(id) && c@.leaving[id].len() > 0 ==> {
                    &&& r == Some(c@.leaving[id][0])
                    &&& final(c)@.leaving.dom().contains(id)
                    &&& seq![c@.leaving[id][0]] + final(c)@.leaving[id] == c@.leaving[id]
                    &&& final(c)@.session == c@.session
                }
            },
        forall|c: &mut TermlandClient| #[trigger]
            call_ensures(TermlandClient::disconnect, (c,), ()) ==> {
                &&& final(c)@.session is None
                &&& final(c)@.started == c@.started
                &&& c@.session matches Some(s) ==> s.connected ==> final(c)@.leaving.dom().contains(s.id) && final(c)@.leaving[s.id] == s.input
                &&& forall|k: u64|
                    c@.leaving.dom().contains(k) && !(c@.session matches Some(s) && s.id == k)
                        ==> #[trigger] final(c)@.leaving.dom().contains(k) && final(c)@.leaving[k]
                        == c@.leaving[k]
            },
        forall|c: &mut TermlandClient, id: u64| #[trigger]
            call_ensures(TermlandClient::ended, (c, id), ()) ==> {
                &&& (c@.session matches Some(s) && s.id == id) ==> {
                    &&& final(c)@.session matches Some(t)
                    &&& t.id == id && !t.connected && t.input == c@.session->0.input
                    &&& final(c)@.leaving == c@.leaving
                }
                &&& !(c@.session matches Some(s) && s.id == id) ==> {
                    &&& final(c)@.session == c@.session
                    &&& !final(c)@.leaving.dom().contains(id)
                    &&& forall|k: u64|
                        k != id && c@.leaving.dom().contains(k) ==> #[trigger] final(c)@.leaving.dom().contains(k) && final(c)@.leaving[k] == c@.leaving[k]
                }
                &&& final(c)@.started == c@.started
            },
{
    assert forall|c: &mut TermlandClient, id: u64, r: Option<InputCommand>| #[trigger]
        call_ensures(TermlandClient::next_input, (c, id), r) && (c@.session matches Some(s) && s.id
            == id) && c@.session->0.input.len() > 0 implies seq![c@.session->0.input[0]] + final(c)@.session->0.input == c@.session->0.input by {
        let q = c@.session->0.input;
        assert(seq![q[0]] + q.skip(1) =~= q);
    }
    assert forall|c: &mut TermlandClient, id: u64, r: Option<InputCommand>| #[trigger]
        call_ensures(TermlandClient::next_input, (c, id), r) && !(c@.session matches Some(s)
            && s.id == id) && c@.leaving.dom().contains(id) && c@.leaving[id].len()
        > 0 implies seq![c@.leaving[id][0]] + final(c)@.leaving[id] == c@.leaving[id] by {
        let q = c@.leaving[id];
        assert(seq![q[0]] + q.skip(1) =~= q);
    }
}

} // verus!
