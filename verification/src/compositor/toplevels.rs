//! The windows inside a session, as the compositor announces them: title,
//! application, and whether each is minimised, maximised, fullscreen or
//! focused.
use vstd::prelude::*;
use crate::compositor::screencopy::{self, min_version};
use crate::text;

verus! {

/// Why windows cannot be listed.
#[derive(Debug, Clone)]
pub enum ToplevelError {
    Connect(String),
    NoManager,
}

impl ToplevelError {
    /// What the error says.
    pub open spec fn text(self) -> Seq<char> {
        match self {
            ToplevelError::Connect(e) => "wayland connect: "@ + e@,
            ToplevelError::NoManager =>
                "compositor does not implement zwlr_foreign_toplevel_management_v1"@,
        }
    }

    /// Writes what the error says.
    pub fn message(&self) -> (s: String)
        ensures
            s@ == self.text(),
    {
        match self {
            ToplevelError::Connect(e) => {
                let mut out = text::chars_of("wayland connect: ");
                text::push_str(&mut out, e.as_str());
                text::text_of(&out)
            },
            ToplevelError::NoManager => String::from_str(
                "compositor does not implement zwlr_foreign_toplevel_management_v1",
            ),
        }
    }
}

/// One window inside the session.
#[derive(Debug, Clone, PartialEq, Eq)]
pub struct Toplevel {
    /// Names the window for as long as it lives. The compositor names windows
    /// by objects, which mean nothing to a client.
    pub id: u32,
    pub title: String,
    /// The application's identifier; often the name of its desktop entry.
    pub app_id: String,
    pub minimized: bool,
    pub maximized: bool,
    pub fullscreen: bool,
    pub activated: bool,
}

/// A window, as text.
pub ghost struct ToplevelView {
    pub id: u32,
    pub title: Seq<char>,
    pub app_id: Seq<char>,
    pub minimized: bool,
    pub maximized: bool,
    pub fullscreen: bool,
    pub activated: bool,
}

impl View for Toplevel {
    type V = ToplevelView;

    open spec fn view(&self) -> ToplevelView {
        ToplevelView {
            id: self.id,
            title: self.title@,
            app_id: self.app_id@,
            minimized: self.minimized,
            maximized: self.maximized,
            fullscreen: self.fullscreen,
            activated: self.activated,
        }
    }
}

impl Default for Toplevel {
    fn default() -> (w: Toplevel)
        ensures
            w@ == unnamed(0),
    {
        Toplevel {
            id: 0,
            title: String::from_str(""),
            app_id: String::from_str(""),
            minimized: false,
            maximized: false,
            fullscreen: false,
            activated: false,
        }
    }
}

/// A window of which nothing is known yet.
pub open spec fn unnamed(id: u32) -> ToplevelView {
    ToplevelView {
        id,
        title: ""@,
        app_id: ""@,
        minimized: false,
        maximized: false,
        fullscreen: false,
        activated: false,
    }
}

impl Toplevel {
    fn copy(&self) -> (w: Toplevel)
        ensures
            w@ == self@,
    {
        Toplevel {
            id: self.id,
            title: self.title.clone(),
            app_id: self.app_id.clone(),
            minimized: self.minimized,
            maximized: self.maximized,
            fullscreen: self.fullscreen,
            activated: self.activated,
        }
    }
}

/// The state of a window by the list of its flags. The compositor sends all of
/// them each time, so the former state does not matter.
pub open spec fn flagged(w: ToplevelView, flags: Seq<u32>) -> ToplevelView {
    ToplevelView {
        maximized: flags.contains(0),
        minimized: flags.contains(1),
        activated: flags.contains(2),
        fullscreen: flags.contains(3),
        ..w
    }
}

fn has_flag(flags: &[u32], flag: u32) -> (b: bool)
    ensures
        b == flags@.contains(flag),
{
    let mut i: usize = 0;
    while i < flags.len()
        invariant
            i <= flags@.len(),
            forall|k: int| 0 <= k < i ==> flags@[k] != flag,
        decreases flags@.len() - i,
    {
        if flags[i] == flag {
            assert(flags@[i as int] == flag);
            return true;
        }
        i = i + 1;
    }
    false
}

/// What the compositor says of its windows, each named by its object.
#[derive(Debug, Clone)]
pub enum ToplevelEvent {
    /// A window is there. It is listed at once, even before it has a title.
    Appeared(u32),
    Title(u32, String),
    AppId(u32, String),
    /// The complete state of a window.
    State(u32, Vec<u32>),
    Closed(u32),
    /// A burst of updates is over.
    Done,
    /// No more windows will be announced.
    Finished,
}

/// What is known of the windows.
#[verifier::ext_equal]
pub ghost struct WindowsView {
    /// The windows by their objects.
    pub windows: Map<u32, ToplevelView>,
    /// The last id that was given to a window.
    pub last_id: u32,
    pub settled: bool,
    pub managed: bool,
}

impl WindowsView {
    /// Whether every id was given out, and none twice.
    pub open spec fn valid(self) -> bool {
        &&& forall|k: u32| #[trigger]
            self.windows.dom().contains(k) ==> 1 <= self.windows[k].id <= self.last_id
        &&& forall|a: u32, b: u32|
            self.windows.dom().contains(a) && self.windows.dom().contains(b) && a != b
                ==> (#[trigger] self.windows[a]).id != (#[trigger] self.windows[b]).id
    }

    /// With an entry for an object: the one it has, or a new one under the next
    /// id.
    pub open spec fn with_entry(self, key: u32) -> WindowsView {
        if self.windows.dom().contains(key) {
            self
        } else {
            let id = (self.last_id + 1) as u32;
            WindowsView { windows: self.windows.insert(key, unnamed(id)), last_id: id, ..self }
        }
    }

    /// With another state of one window.
    pub open spec fn with_window(self, key: u32, w: ToplevelView) -> WindowsView {
        WindowsView { windows: self.windows.insert(key, w), ..self }
    }

    /// Whether there is an id left for the window that an event is about, where
    /// it needs one.
    pub open spec fn has_room_for(self, event: ToplevelEvent) -> bool {
        match event {
            ToplevelEvent::Appeared(key) => self.has_entry_room(key),
            ToplevelEvent::Title(key, _) => self.has_entry_room(key),
            ToplevelEvent::AppId(key, _) => self.has_entry_room(key),
            ToplevelEvent::State(key, _) => self.has_entry_room(key),
            _ => true,
        }
    }

    /// Whether an object has an id, or there is one left for it.
    pub open spec fn has_entry_room(self, key: u32) -> bool {
        self.windows.dom().contains(key) || self.last_id < u32::MAX
    }

    /// After an event.
    pub open spec fn after(self, event: ToplevelEvent) -> WindowsView {
        match event {
            ToplevelEvent::Appeared(key) => self.with_entry(key),
            ToplevelEvent::Title(key, title) => {
                let s = self.with_entry(key);
                s.with_window(key, ToplevelView { title: title@, ..s.windows[key] })
            },
            ToplevelEvent::AppId(key, app_id) => {
                let s = self.with_entry(key);
                s.with_window(key, ToplevelView { app_id: app_id@, ..s.windows[key] })
            },
            ToplevelEvent::State(key, flags) => {
                let s = self.with_entry(key);
                s.with_window(key, flagged(s.windows[key], flags@))
            },
            ToplevelEvent::Closed(key) => WindowsView { windows: self.windows.remove(key), ..self },
            ToplevelEvent::Done => WindowsView { settled: true, ..self },
            ToplevelEvent::Finished => WindowsView { managed: false, ..self },
        }
    }

    /// Before any event.
    pub open spec fn start() -> WindowsView {
        WindowsView { windows: Map::empty(), last_id: 0, settled: false, managed: true }
    }

    /// After a number of events.
    pub open spec fn after_all(self, events: Seq<ToplevelEvent>) -> WindowsView
        decreases events.len(),
    {
        if events.len() == 0 {
            self
        } else {
            self.after_all(events.drop_last()).after(events.last())
        }
    }

    /// Whether there is an id left at each of a number of events, in its turn,
    /// where it needs one.
    pub open spec fn has_room_for_all(self, events: Seq<ToplevelEvent>) -> bool
        decreases events.len(),
    {
        events.len() > 0 ==> {
            &&& self.has_room_for_all(events.drop_last())
            &&& self.after_all(events.drop_last()).has_room_for(events.last())
        }
    }
}

/// Whether a list holds every window once, by ascending id.
pub open spec fn lists_windows(windows: Map<u32, ToplevelView>, list: Seq<ToplevelView>) -> bool {
    &&& forall|i: int, j: int|
        0 <= i < j < list.len() ==> (#[trigger] list[i]).id < (#[trigger] list[j]).id
    &&& forall|i: int|
        0 <= i < list.len() ==> exists|k: u32| #[trigger]
            windows.dom().contains(k) && windows[k] == #[trigger] list[i]
    &&& forall|k: u32| #[trigger] windows.dom().contains(k) ==> list.contains(windows[k])
}

/// Some windows, as text.
pub open spec fn views(v: Seq<Toplevel>) -> Seq<ToplevelView> {
    v.map_values(|w: Toplevel| w@)
}

/// The windows of a session. They are kept in the order in which they
/// appeared, which is that of their ids.
pub struct WindowList {
    windows: Vec<(u32, Toplevel)>,
    last_id: u32,
    settled: bool,
    managed: bool,
}

/// A list of windows as a map.
pub open spec fn window_map(v: Seq<(u32, Toplevel)>) -> Map<u32, ToplevelView>
    decreases v.len(),
{
    if v.len() == 0 {
        Map::empty()
    } else {
        window_map(v.drop_last()).insert(v.last().0, v.last().1@)
    }
}

spec fn in_order(v: Seq<(u32, Toplevel)>, last_id: u32) -> bool {
    &&& forall|i: int, j: int|
        0 <= i < j < v.len() ==> (#[trigger] v[i]).0 != (#[trigger] v[j]).0 && v[i].1.id < v[j].1.id
    &&& forall|i: int| 0 <= i < v.len() ==> 1 <= (#[trigger] v[i]).1.id <= last_id
}

proof fn window_map_facts(v: Seq<(u32, Toplevel)>)
    requires
        forall|i: int, j: int|
            0 <= i < j < v.len() ==> (#[trigger] v[i]).0 != (#[trigger] v[j]).0,
    ensures
        forall|i: int|
            0 <= i < v.len() ==> window_map(v).dom().contains((#[trigger] v[i]).0) && window_map(
                v,
            )[v[i].0] == v[i].1@,
        forall|k: u32| #[trigger]
            window_map(v).dom().contains(k) ==> exists|i: int|
                0 <= i < v.len() && (#[trigger] v[i]).0 == k,
    decreases v.len(),
{
    if v.len() > 0 {
        let t = v.drop_last();
        assert forall|i: int, j: int| 0 <= i < j < t.len() implies (#[trigger] t[i]).0 != (
        #[trigger] t[j]).0 by {
            assert(t[i] == v[i] && t[j] == v[j]);
        }
        window_map_facts(t);
        assert forall|i: int| 0 <= i < v.len() implies window_map(v).dom().contains(
            (#[trigger] v[i]).0,
        ) && window_map(v)[v[i].0] == v[i].1@ by {
            if i < t.len() {
                assert(t[i] == v[i]);
                assert(v[i].0 != v[v.len() - 1].0);
            }
        }
        assert forall|k: u32| #[trigger] window_map(v).dom().contains(k) implies exists|i: int|
            0 <= i < v.len() && (#[trigger] v[i]).0 == k by {
            if k == v.last().0 {
                assert(v[v.len() - 1].0 == k);
            } else {
                assert(window_map(t).dom().contains(k));
                let i = choose|i: int| 0 <= i < t.len() && (#[trigger] t[i]).0 == k;
                assert(v[i] == t[i]);
            }
        }
    }
}

/// Replacing one window of a list replaces it in the map.
proof fn window_map_update(v: Seq<(u32, Toplevel)>, i: int, w: Toplevel)
    requires
        forall|i: int, j: int|
            0 <= i < j < v.len() ==> (#[trigger] v[i]).0 != (#[trigger] v[j]).0,
        0 <= i < v.len(),
    ensures
        window_map(v.update(i, (v[i].0, w))) == window_map(v).insert(v[i].0, w@),
    decreases v.len(),
{
    let u = v.update(i, (v[i].0, w));
    let t = v.drop_last();
    if i == v.len() - 1 {
        assert(u.drop_last() == t);
        assert(window_map(u) =~= window_map(v).insert(v[i].0, w@));
    } else {
        assert forall|a: int, b: int| 0 <= a < b < t.len() implies (#[trigger] t[a]).0 != (
        #[trigger] t[b]).0 by {
            assert(t[a] == v[a] && t[b] == v[b]);
        }
        window_map_update(t, i, w);
        assert(u.drop_last() == t.update(i, (t[i].0, w)));
        assert(u.last() == v.last());
        assert(v[i].0 != v[v.len() - 1].0);
        assert(window_map(u) =~= window_map(v).insert(v[i].0, w@));
    }
}

impl View for WindowList {
    type V = WindowsView;

    closed spec fn view(&self) -> WindowsView {
        WindowsView {
            windows: window_map(self.windows@),
            last_id: self.last_id,
            settled: self.settled,
            managed: self.managed,
        }
    }
}

impl WindowList {
    /// Whether the windows are in the order of their ids, each once.
    pub closed spec fn wf(&self) -> bool {
        in_order(self.windows@, self.last_id)
    }

    /// A list without windows.
    pub fn new() -> (l: WindowList)
        ensures
            l.wf(),
            l@ == WindowsView::start(),
    {
        WindowList { windows: Vec::new(), last_id: 0, settled: false, managed: true }
    }

    /// Whether the compositor has finished a burst of updates, so that a list
    /// without windows means that there are none.
    pub fn settled(&self) -> (b: bool)
        ensures
            b == self@.settled,
    {
        self.settled
    }

    /// How many windows there are.
    pub fn len(&self) -> (n: usize)
        requires
            self.wf(),
        ensures
            n == 0 <==> self@.windows == Map::<u32, ToplevelView>::empty(),
            self@.windows.dom().finite(),
            n == self@.windows.dom().len(),
    {
        proof {
            self.counts(self.windows@.len() as int);
            assert(self.windows@.take(self.windows@.len() as int) == self.windows@);
            window_map_facts(self.windows@);
            if self.windows@.len() > 0 {
                assert(self@.windows.dom().contains(self.windows@[0].0));
            }
        }
        self.windows.len()
    }

    proof fn counts(&self, n: int)
        requires
            self.wf(),
            0 <= n <= self.windows@.len(),
        ensures
            window_map(self.windows@.take(n)).dom().finite(),
            window_map(self.windows@.take(n)).dom().len() == n,
        decreases n,
    {
        let t = self.windows@.take(n);
        if n > 0 {
            self.counts(n - 1);
            let s = self.windows@.take(n - 1);
            assert(t.drop_last() == s);
            window_map_facts(s);
            if window_map(s).dom().contains(t.last().0) {
                let i = choose|i: int| 0 <= i < s.len() && (#[trigger] s[i]).0 == t.last().0;
                assert(self.windows@[i].0 == self.windows@[n - 1].0);
            }
            assert(window_map(t).dom() =~= window_map(s).dom().insert(t.last().0));
        } else {
            assert(window_map(t).dom() =~= Set::<u32>::empty());
        }
    }

    fn position(&self, key: u32) -> (r: Option<usize>)
        ensures
            match r {
                Some(i) => i < self.windows@.len() && self.windows@[i as int].0 == key,
                None => forall|i: int|
                    0 <= i < self.windows@.len() ==> (#[trigger] self.windows@[i]).0 != key,
            },
    {
        let mut i: usize = 0;
        while i < self.windows.len()
            invariant
                i <= self.windows@.len(),
                forall|k: int| 0 <= k < i ==> (#[trigger] self.windows@[k]).0 != key,
            decreases self.windows@.len() - i,
        {
            if self.windows[i].0 == key {
                return Some(i);
            }
            i = i + 1;
        }
        None
    }

    /// The window of an object.
    pub fn get(&self, key: u32) -> (r: Option<&Toplevel>)
        requires
            self.wf(),
        ensures
            match r {
                Some(w) => self@.windows.dom().contains(key) && self@.windows[key] == w@,
                None => !self@.windows.dom().contains(key),
            },
    {
        proof {
            window_map_facts(self.windows@);
        }
        match self.position(key) {
            Some(i) => {
                assert(self.windows@[i as int].0 == key);
                Some(&self.windows[i].1)
            },
            None => None,
        }
    }

    /// The place of an object's entry, which is made where there is none yet.
    /// Every event about a window so lands on the same entry.
    fn entry(&mut self, key: u32) -> (i: usize)
        requires
            old(self).wf(),
            old(self)@.has_entry_room(key),
        ensures
            final(self).wf(),
            final(self)@ == old(self)@.with_entry(key),
            i < final(self).windows@.len(),
            final(self).windows@[i as int].0 == key,
    {
        let ghost before = self.windows@;
        proof {
            window_map_facts(before);
        }
        match self.position(key) {
            Some(i) => {
                assert(before[i as int].0 == key);
                i
            },
            None => {
                self.last_id = self.last_id + 1;
                let w = Toplevel {
                    id: self.last_id,
                    title: String::from_str(""),
                    app_id: String::from_str(""),
                    minimized: false,
                    maximized: false,
                    fullscreen: false,
                    activated: false,
                };
                self.windows.push((key, w));
                proof {
                    let after = self.windows@;
                    assert(after.drop_last() == before);
                    assert forall|a: int, b: int| 0 <= a < b < after.len() implies (
                    #[trigger] after[a]).0 != (#[trigger] after[b]).0 && after[a].1.id
                        < after[b].1.id by {
                        assert(after[a] == before[a]);
                        if b < before.len() {
                            assert(after[b] == before[b]);
                        }
                    }
                    assert forall|a: int| 0 <= a < after.len() implies 1 <= (
                    #[trigger] after[a]).1.id <= self.last_id by {
                        if a < before.len() {
                            assert(after[a] == before[a]);
                        }
                    }
                    assert(self@ =~= old(self)@.with_entry(key));
                }
                self.windows.len() - 1
            },
        }
    }

    fn replace(&mut self, i: usize, w: Toplevel)
        requires
            old(self).wf(),
            i < old(self).windows@.len(),
            w.id == old(self).windows@[i as int].1.id,
        ensures
            final(self).wf(),
            final(self)@ == old(self)@.with_window(old(self).windows@[i as int].0, w@),
    {
        let ghost before = self.windows@;
        let key: u32 = self.windows[i].0;
        self.windows.set(i, (key, w));
        proof {
            let after = self.windows@;
            window_map_update(before, i as int, w);
            assert forall|a: int, b: int| 0 <= a < b < after.len() implies (#[trigger] after[a]).0
                != (#[trigger] after[b]).0 && after[a].1.id < after[b].1.id by {
                assert(before[a].0 == after[a].0 && before[a].1.id == after[a].1.id);
                assert(before[b].0 == after[b].0 && before[b].1.id == after[b].1.id);
            }
            assert forall|a: int| 0 <= a < after.len() implies 1 <= (#[trigger] after[a]).1.id
                <= self.last_id by {
                assert(before[a].1.id == after[a].1.id);
            }
        }
    }

    fn close(&mut self, key: u32)
        requires
            old(self).wf(),
        ensures
            final(self).wf(),
            final(self)@ == (WindowsView {
                windows: old(self)@.windows.remove(key),
                ..old(self)@
            }),
    {
        let ghost before = self.windows@;
        proof {
            window_map_facts(before);
        }
        match self.position(key) {
            Some(i) => {
                let _ = self.windows.remove(i);
                proof {
                    let after = self.windows@;
                    let m = window_map(before).remove(key);
                    assert(after == before.remove(i as int));
                    assert(before[i as int].0 == key);
                    assert forall|a: int, b: int| 0 <= a < b < after.len() implies (
                    #[trigger] after[a]).0 != (#[trigger] after[b]).0 && after[a].1.id
                        < after[b].1.id by {
                        assert(after[a] == before[kept(a, i as int)]);
                        assert(after[b] == before[kept(b, i as int)]);
                    }
                    assert forall|a: int| 0 <= a < after.len() implies 1 <= (
                    #[trigger] after[a]).1.id <= self.last_id by {
                        assert(after[a] == before[kept(a, i as int)]);
                    }
                    window_map_facts(after);
                    assert forall|k: u32|
                        window_map(after).dom().contains(k) <==> m.dom().contains(k) by {
                        if window_map(after).dom().contains(k) {
                            let a = choose|a: int| 0 <= a < after.len() && (#[trigger] after[a]).0
                                == k;
                            assert(after[a] == before[kept(a, i as int)]);
                        }
                        if m.dom().contains(k) {
                            let x = choose|x: int| 0 <= x < before.len() && (
                            #[trigger] before[x]).0 == k;
                            let a = if x < i {
                                x
                            } else {
                                x - 1
                            };
                            assert(after[a] == before[x]);
                        }
                    }
                    assert forall|k: u32| window_map(after).dom().contains(k) implies window_map(
                        after,
                    )[k] == m[k] by {
                        let a = choose|a: int| 0 <= a < after.len() && (#[trigger] after[a]).0 == k;
                        assert(after[a] == before[kept(a, i as int)]);
                    }
                    assert(window_map(after) =~= m);
                }
            },
            None => {
                assert(window_map(before).remove(key) =~= window_map(before));
            },
        }
    }

    fn entry_room(&self, key: u32) -> (b: bool)
        requires
            self.wf(),
        ensures
            b == self@.has_entry_room(key),
    {
        proof {
            window_map_facts(self.windows@);
        }
        match self.position(key) {
            Some(i) => {
                assert(self.windows@[i as int].0 == key);
                true
            },
            None => self.last_id < u32::MAX,
        }
    }

    /// Whether there is an id left for the window that an event is about, where
    /// it needs one.
    pub fn has_room_for(&self, event: &ToplevelEvent) -> (b: bool)
        requires
            self.wf(),
        ensures
            b == self@.has_room_for(*event),
    {
        match event {
            ToplevelEvent::Appeared(key) => self.entry_room(*key),
            ToplevelEvent::Title(key, _) => self.entry_room(*key),
            ToplevelEvent::AppId(key, _) => self.entry_room(*key),
            ToplevelEvent::State(key, _) => self.entry_room(*key),
            _ => true,
        }
    }

    /// Takes an event.
    pub fn event(&mut self, event: ToplevelEvent)
        requires
            old(self).wf(),
            old(self)@.has_room_for(event),
        ensures
            final(self).wf(),
            final(self)@ == old(self)@.after(event),
    {
        match event {
            ToplevelEvent::Appeared(key) => {
                let _ = self.entry(key);
            },
            ToplevelEvent::Title(key, title) => {
                let i = self.entry(key);
                proof {
                    window_map_facts(self.windows@);
                    assert(self.windows@[i as int].0 == key);
                }
                let w = Toplevel { title, ..self.windows[i].1.copy() };
                self.replace(i, w);
            },
            ToplevelEvent::AppId(key, app_id) => {
                let i = self.entry(key);
                proof {
                    window_map_facts(self.windows@);
                    assert(self.windows@[i as int].0 == key);
                }
                let w = Toplevel { app_id, ..self.windows[i].1.copy() };
                self.replace(i, w);
            },
            ToplevelEvent::State(key, flags) => {
                let i = self.entry(key);
                proof {
                    window_map_facts(self.windows@);
                    assert(self.windows@[i as int].0 == key);
                }
                let w = Toplevel {
                    maximized: has_flag(&flags, 0),
                    minimized: has_flag(&flags, 1),
                    activated: has_flag(&flags, 2),
                    fullscreen: has_flag(&flags, 3),
                    ..self.windows[i].1.copy()
                };
                self.replace(i, w);
            },
            ToplevelEvent::Closed(key) => {
                self.close(key);
            },
            ToplevelEvent::Done => {
                self.settled = true;
            },
            ToplevelEvent::Finished => {
                self.managed = false;
            },
        }
    }

    /// The windows, by ascending id, so that the list is the same from one
    /// look to the next.
    pub fn windows(&self) -> (list: Vec<Toplevel>)
        requires
            self.wf(),
        ensures
            lists_windows(self@.windows, views(list@)),
    {
        let mut list: Vec<Toplevel> = Vec::new();
        let mut i: usize = 0;
        while i < self.windows.len()
            invariant
                i <= self.windows@.len(),
                list@.len() == i,
                forall|k: int| 0 <= k < i ==> (#[trigger] list@[k])@ == self.windows@[k].1@,
            decreases self.windows@.len() - i,
        {
            list.push(self.windows[i].1.copy());
            i = i + 1;
        }
        proof {
            let v = self.windows@;
            let m = self@.windows;
            let out = views(list@);
            window_map_facts(v);
            assert forall|a: int| 0 <= a < out.len() implies out[a] == #[trigger] v[a].1@ by {
                assert(list@[a]@ == v[a].1@);
            }
            assert forall|a: int, b: int| 0 <= a < b < out.len() implies (#[trigger] out[a]).id < (
            #[trigger] out[b]).id by {
                assert(out[a] == v[a].1@ && out[b] == v[b].1@);
            }
            assert forall|a: int| 0 <= a < out.len() implies exists|k: u32| #[trigger]
                m.dom().contains(k) && m[k] == #[trigger] out[a] by {
                assert(out[a] == v[a].1@);
                assert(m.dom().contains(v[a].0));
            }
            assert forall|k: u32| #[trigger] m.dom().contains(k) implies out.contains(m[k]) by {
                let a = choose|a: int| 0 <= a < v.len() && (#[trigger] v[a]).0 == k;
                assert(out[a] == v[a].1@);
            }
        }
        list
    }

    /// Whether to stop waiting for the first window.
    pub fn done_waiting(&self, elapsed_ms: u64, timeout_ms: u64) -> (b: bool)
        requires
            self.wf(),
        ensures
            b == (self@.windows != Map::<u32, ToplevelView>::empty() || elapsed_ms >= timeout_ms),
    {
        self.len() > 0 || elapsed_ms >= timeout_ms
    }
}

spec fn kept(a: int, removed: int) -> int {
    if a < removed {
        a
    } else {
        a + 1
    }
}

/// Whether the watcher can be used: the compositor must announce windows.
pub fn check_manager(managed: bool) -> (r: Result<(), ToplevelError>)
    ensures
        r is Ok <==> managed,
        r matches Err(e) ==> e is NoManager,
{
    if managed {
        Ok(())
    } else {
        Err(ToplevelError::NoManager)
    }
}

/// The version at which to bind an announced interface, where it is the manager
/// of the windows.
pub fn toplevel_global(interface: &str, version: u32) -> (v: Option<u32>)
    ensures
        v == (if interface@ == "zwlr_foreign_toplevel_manager_v1"@ {
            Some(screencopy::lower(version, 3))
        } else {
            None
        }),
{
    if text::same_text(interface, "zwlr_foreign_toplevel_manager_v1") {
        Some(min_version(version, 3))
    } else {
        None
    }
}

/// The words that a list of flags is sent as: groups of four bytes. What is
/// left over at the end is not a flag.
pub fn flag_words(bytes: &[u8]) -> (words: Vec<[u8; 4]>)
    ensures
        words@.len() == bytes@.len() / 4,
        forall|i: int|
            0 <= i < words@.len() ==> (#[trigger] words@[i])@ == bytes@.subrange(
                4 * i,
                4 * i + 4,
            ),
{
    let mut words: Vec<[u8; 4]> = Vec::new();
    let len: usize = bytes.len();
    let n: usize = len / 4;
    let mut i: usize = 0;
    while i < n
        invariant
            i <= n,
            n == len / 4,
            len == bytes@.len(),
            words@.len() == i,
            forall|k: int|
                0 <= k < i ==> (#[trigger] words@[k])@ == bytes@.subrange(4 * k, 4 * k + 4),
        decreases n - i,
    {
        let word: [u8; 4] = [bytes[4 * i], bytes[4 * i + 1], bytes[4 * i + 2], bytes[4 * i + 3]];
        assert(word@ == bytes@.subrange(4 * i, 4 * i + 4));
        words.push(word);
        i = i + 1;
    }
    words
}

/// An id is never given to a second window: whatever happens, what was given
/// out stays given out, and a window that is new has a later id than all
/// before it. So an old id of a closed window names nothing.
pub proof fn ids_are_never_reused(s: WindowsView, event: ToplevelEvent)
    requires
        s.valid(),
        s.has_room_for(event),
    ensures
        s.after(event).valid(),
        s.after(event).last_id >= s.last_id,
        forall|k: u32| #[trigger]
            s.after(event).windows.dom().contains(k) && !s.windows.dom().contains(k) ==> s.after(
                event,
            ).windows[k].id > s.last_id,
        forall|k: u32| #[trigger]
            s.after(event).windows.dom().contains(k) && s.windows.dom().contains(k) ==> s.after(
                event,
            ).windows[k].id == s.windows[k].id,
{
}

proof fn ids_grow(events: Seq<ToplevelEvent>, n: int)
    requires
        WindowsView::start().has_room_for_all(events),
        0 <= n <= events.len(),
    ensures
        WindowsView::start().after_all(events).valid(),
        WindowsView::start().after_all(events.take(n)).valid(),
        WindowsView::start().after_all(events.take(n)).last_id <= WindowsView::start().after_all(
            events,
        ).last_id,
    decreases events.len(),
{
    let start = WindowsView::start();
    if events.len() > 0 {
        let before = events.drop_last();
        ids_grow(
            before,
            if n < events.len() {
                n
            } else {
                0
            },
        );
        ids_are_never_reused(start.after_all(before), events.last());
        if n < events.len() {
            assert(before.take(n) =~= events.take(n));
        } else {
            assert(events.take(n) =~= events);
        }
    } else {
        assert(events.take(n) =~= events);
    }
}

/// Whatever happened since the start, an object that has an entry keeps it, and
/// one that has none gets one without a title and without flags, whose id is
/// later than that of every window there ever was, closed ones too. The other
/// entries stay as they are.
pub proof fn an_entry_is_found_or_new(events: Seq<ToplevelEvent>, key: u32)
    requires
        WindowsView::start().has_room_for_all(events),
        WindowsView::start().after_all(events).has_entry_room(key),
    ensures
        ({
            let s = WindowsView::start().after_all(events);
            let t = s.with_entry(key);
            &&& s.windows.dom().contains(key) ==> t == s
            &&& !s.windows.dom().contains(key) ==> {
                &&& t.windows.dom() == s.windows.dom().insert(key)
                &&& t.windows[key] == unnamed(t.windows[key].id)
                &&& t.windows[key].id == s.last_id + 1
                &&& t == (WindowsView {
                    windows: t.windows,
                    last_id: t.windows[key].id,
                    ..s
                })
                &&& forall|n: int, k: u32|
                    #![trigger WindowsView::start().after_all(events.take(n)).windows.dom().contains(k)]
                    0 <= n <= events.len() && WindowsView::start().after_all(
                        events.take(n),
                    ).windows.dom().contains(k) ==> WindowsView::start().after_all(
                        events.take(n),
                    ).windows[k].id < t.windows[key].id
            }
            &&& forall|k: u32|
                k != key ==> (#[trigger] t.windows.dom().contains(k) <==> s.windows.dom().contains(
                    k,
                ))
            &&& forall|k: u32| k != key && s.windows.dom().contains(k) ==> #[trigger] t.windows[k]
                == s.windows[k]
            &&& t.valid()
        }),
{
    let s = WindowsView::start().after_all(events);
    let t = s.with_entry(key);
    ids_grow(events, 0);
    assert(t.windows.dom() =~= s.windows.dom().insert(key) || s.windows.dom().contains(key));
    assert forall|n: int, k: u32|
        #![trigger WindowsView::start().after_all(events.take(n)).windows.dom().contains(k)]
        0 <= n <= events.len() && WindowsView::start().after_all(
            events.take(n),
        ).windows.dom().contains(k) implies WindowsView::start().after_all(
        events.take(n),
    ).windows[k].id <= s.last_id by {
        ids_grow(events, n);
    }
}

/// A state replaces the former one: only the flags of the last list count.
pub proof fn states_replace_each_other(s: WindowsView, key: u32, first: Vec<u32>, second: Vec<u32>)
    ensures
        s.after(ToplevelEvent::State(key, first)).after(ToplevelEvent::State(key, second))
            == s.after(ToplevelEvent::State(key, second)),
{
    assert(s.after(ToplevelEvent::State(key, first)).after(ToplevelEvent::State(key, second))
        =~= s.after(ToplevelEvent::State(key, second)));
}

/// A list of the windows is the only one: two lists are the same.
pub proof fn there_is_one_list(
    s: WindowsView,
    a: Seq<ToplevelView>,
    b: Seq<ToplevelView>,
)
    requires
        s.valid(),
        lists_windows(s.windows, a),
        lists_windows(s.windows, b),
    ensures
        a == b,
{
    assert forall|i: int| 0 <= i < a.len() implies b.contains(#[trigger] a[i]) by {
    }
    assert forall|i: int| 0 <= i < b.len() implies a.contains(#[trigger] b[i]) by {
    }
    same_prefix(a, b, a.len() as int);
    if b.len() > a.len() {
        assert(b.contains(b[a.len() as int]));
        let x = b[a.len() as int];
        let i = choose|i: int| 0 <= i < a.len() && a[i] == x;
        assert(b[i] == a[i]);
    }
    if a.len() > b.len() {
        let x = a[b.len() as int];
        let i = choose|i: int| 0 <= i < b.len() && b[i] == x;
        assert(b[i] == a[i]);
    }
    assert(a =~= b);
}

proof fn same_prefix(a: Seq<ToplevelView>, b: Seq<ToplevelView>, n: int)
    requires
        0 <= n <= a.len(),
        forall|i: int, j: int| 0 <= i < j < a.len() ==> (#[trigger] a[i]).id < (#[trigger] a[j]).id,
        forall|i: int, j: int| 0 <= i < j < b.len() ==> (#[trigger] b[i]).id < (#[trigger] b[j]).id,
        forall|i: int| 0 <= i < a.len() ==> b.contains(#[trigger] a[i]),
        forall|i: int| 0 <= i < b.len() ==> a.contains(#[trigger] b[i]),
    ensures
        n <= b.len(),
        forall|i: int| 0 <= i < n ==> a[i] == #[trigger] b[i],
    decreases n,
{
    if n > 0 {
        same_prefix(a, b, n - 1);
        let x = a[n - 1];
        let p = choose|p: int| 0 <= p < b.len() && b[p] == x;
        if p < n - 1 {
            assert(a[p] == b[p]);
            assert(a[p].id < a[n - 1].id);
        }
        assert(p >= n - 1);
        let y = b[n - 1];
        let q = choose|q: int| 0 <= q < a.len() && a[q] == y;
        if q < n - 1 {
            assert(a[q] == b[q]);
            assert(b[q].id < b[n - 1].id);
        }
        assert(q >= n - 1);
        if p > n - 1 {
            assert(b[n - 1].id < b[p].id);
            if q > n - 1 {
                assert(a[n - 1].id < a[q].id);
            }
        }
        assert(b[n - 1] == a[n - 1]);
    }
}

/// A window's title, program and states are the last that were told, whoever
/// tells first makes the window known, and telling of one window changes no
/// other. A window that closed is gone.
pub proof fn windows_are_followed()
    ensures
        forall|l: &mut WindowList, key: u32| #[trigger]
            call_ensures(WindowList::event, (l, ToplevelEvent::Appeared(key)), ()) && l.wf()
                && l@.has_room_for(ToplevelEvent::Appeared(key)) ==> {
                &&& final(l)@.windows.dom() == l@.windows.dom().insert(key)
                &&& l@.windows.dom().contains(key) ==> final(l)@ == l@
                &&& !l@.windows.dom().contains(key) ==> final(l)@.windows[key].title.len() == 0
                    && final(l)@.windows[key].app_id.len() == 0
                    && !final(l)@.windows[key].minimized && !final(l)@.windows[key].maximized
                    && !final(l)@.windows[key].fullscreen && !final(l)@.windows[key].activated
                    && final(l)@.windows[key].id > l@.last_id
            },
        forall|l: &mut WindowList, key: u32, title: String| #[trigger]
            call_ensures(WindowList::event, (l, ToplevelEvent::Title(key, title)), ()) && l.wf()
                && l@.has_room_for(ToplevelEvent::Title(key, title)) ==> {
                &&& final(l)@.windows.dom() == l@.windows.dom().insert(key)
                &&& final(l)@.windows[key].title == title@
                &&& l@.windows.dom().contains(key) ==> final(l)@.windows[key] == (ToplevelView {
                    title: title@,
                    ..l@.windows[key]
                })
            },
        forall|l: &mut WindowList, key: u32, app_id: String| #[trigger]
            call_ensures(WindowList::event, (l, ToplevelEvent::AppId(key, app_id)), ()) && l.wf()
                && l@.has_room_for(ToplevelEvent::AppId(key, app_id)) ==> {
                &&& final(l)@.windows.dom() == l@.windows.dom().insert(key)
                &&& final(l)@.windows[key].app_id == app_id@
                &&& l@.windows.dom().contains(key) ==> final(l)@.windows[key] == (ToplevelView {
                    app_id: app_id@,
                    ..l@.windows[key]
                })
            },
        forall|l: &mut WindowList, key: u32, flags: Vec<u32>| #[trigger]
            call_ensures(WindowList::event, (l, ToplevelEvent::State(key, flags)), ()) && l.wf()
                && l@.has_room_for(ToplevelEvent::State(key, flags)) ==> {
                let w = final(l)@.windows[key];
                &&& final(l)@.windows.dom() == l@.windows.dom().insert(key)
                &&& w.maximized <==> flags@.contains(0)
                &&& w.minimized <==> flags@.contains(1)
                &&& w.activated <==> flags@.contains(2)
                &&& w.fullscreen <==> flags@.contains(3)
                &&& l@.windows.dom().contains(key) ==> w.id == l@.windows[key].id && w.title
                    == l@.windows[key].title && w.app_id == l@.windows[key].app_id
            },
        forall|l: &mut WindowList, key: u32| #[trigger]
            call_ensures(WindowList::event, (l, ToplevelEvent::Closed(key)), ()) && l.wf() ==> {
                &&& final(l)@.windows.dom() == l@.windows.dom().remove(key)
                &&& final(l)@.last_id == l@.last_id
            },
        forall|l: &mut WindowList, event: ToplevelEvent, k: u32|
            #![trigger call_ensures(WindowList::event, (l, event), ()), l@.windows.dom().contains(k)]
            call_ensures(WindowList::event, (l, event), ()) && l.wf() && l@.has_room_for(event)
                && l@.windows.dom().contains(k) && !(event matches ToplevelEvent::Title(key, _)
                && key == k) && !(event matches ToplevelEvent::AppId(key, _) && key == k) && !(
            event matches ToplevelEvent::State(key, _) && key == k) && !(
            event matches ToplevelEvent::Closed(key) && key == k)
                ==> final(l)@.windows.dom().contains(k) && final(l)@.windows[k] == l@.windows[k],
        forall|l: &mut WindowList, event: ToplevelEvent| #[trigger]
            call_ensures(WindowList::event, (l, event), ()) && l.wf() && l@.has_room_for(event)
                ==> {
                &&& final(l)@.settled == (l@.settled || event is Done)
                &&& final(l)@.managed == (l@.managed && !(event is Finished))
                &&& event is Done || event is Finished ==> final(l)@.windows == l@.windows
            },
{
    reveal_strlit("");
}

/// Whether a window is one of those that are known.
pub open spec fn is_among(windows: Map<u32, ToplevelView>, w: ToplevelView) -> bool {
    exists|k: u32| #[trigger] windows.dom().contains(k) && windows[k] == w
}

/// The list holds each window once, in the order in which they became known, and
/// no other; what is asked of it is what it holds.
pub proof fn lists_hold_the_windows_there_are(
    l: &WindowList,
    list: Vec<Toplevel>,
    n: usize,
    key: u32,
    r: Option<&Toplevel>,
    elapsed_ms: u64,
    timeout_ms: u64,
    b: bool,
    settled: bool,
)
    requires
        l.wf(),
        call_ensures(WindowList::windows, (l,), list),
        call_ensures(WindowList::len, (l,), n),
        call_ensures(WindowList::get, (l, key), r),
        call_ensures(WindowList::done_waiting, (l, elapsed_ms, timeout_ms), b),
        call_ensures(WindowList::settled, (l,), settled),
    ensures
        forall|i: int, j: int|
            0 <= i < j < list@.len() ==> (#[trigger] list@[i]).id < (#[trigger] list@[j]).id,
        forall|i: int|
            0 <= i < list@.len() ==> is_among(l@.windows, (#[trigger] list@[i])@),
        forall|k: u32| #[trigger]
            l@.windows.dom().contains(k) ==> exists|i: int|
                0 <= i < list@.len() && (#[trigger] list@[i])@ == l@.windows[k],
        n == l@.windows.dom().len(),
        r is Some <==> l@.windows.dom().contains(key),
        r matches Some(w) ==> w@ == l@.windows[key],
        elapsed_ms >= timeout_ms ==> b,
        n > 0 ==> b,
        n == 0 && elapsed_ms < timeout_ms ==> !b,
        settled == l@.settled,
{
    let v = views(list@);
    assert(v.len() == list@.len());
    assert forall|i: int, j: int| 0 <= i < j < list@.len() implies (#[trigger] list@[i]).id < (
    #[trigger] list@[j]).id by {
        assert(v[i] == list@[i]@ && v[j] == list@[j]@);
    }
    assert forall|i: int| 0 <= i < list@.len() implies is_among(
        l@.windows,
        (#[trigger] list@[i])@,
    ) by {
        assert(v[i] == list@[i]@);
    }
    assert forall|k: u32| #[trigger] l@.windows.dom().contains(k) implies exists|i: int|
        0 <= i < list@.len() && (#[trigger] list@[i])@ == l@.windows[k] by {
        assert(v.contains(l@.windows[k]));
        let i = choose|i: int| 0 <= i < v.len() && v[i] == l@.windows[k];
        assert(v[i] == list@[i]@);
    }
}

/// States come as groups of four bytes, whole ones only and in their order; a
/// list needs its manager, found by its name and no newer than it is known. A
/// new list knows no window.
pub proof fn states_come_in_fours(
    bytes: &[u8],
    words: Vec<[u8; 4]>,
    managed: bool,
    r: Result<(), ToplevelError>,
    interface: &str,
    version: u32,
    v: Option<u32>,
    l: WindowList,
)
    requires
        call_ensures(flag_words, (bytes,), words),
        call_ensures(check_manager, (managed,), r),
        call_ensures(toplevel_global, (interface, version), v),
        call_ensures(WindowList::new, (), l),
    ensures
        4 * words@.len() <= bytes@.len() < 4 * words@.len() + 4,
        forall|i: int, k: int|
            0 <= i < words@.len() && 0 <= k < 4 ==> (#[trigger] words@[i])@[k] == #[trigger] bytes@[4
                * i + k],
        r is Ok <==> managed,
        v is Some <==> interface@ == "zwlr_foreign_toplevel_manager_v1"@,
        v matches Some(n) ==> n <= version && n <= 3 && (n == version || n == 3),
        l@.windows.dom() == Set::<u32>::empty(),
        l@.last_id == 0 && !l@.settled && l@.managed,
{
    assert forall|i: int, k: int| 0 <= i < words@.len() && 0 <= k < 4 implies (
    #[trigger] words@[i])@[k] == #[trigger] bytes@[4 * i + k] by {
        assert(bytes@.subrange(4 * i, 4 * i + 4)[k] == bytes@[4 * i + k]);
    }
}

/// There is room for all that is told of a window that is known, and for any
/// other as long as ids are left.
pub proof fn ids_make_room(l: &WindowList, event: &ToplevelEvent, b: bool, e: &ToplevelError, s: String)
    requires
        l.wf(),
        call_ensures(WindowList::has_room_for, (l, event), b),
        call_ensures(ToplevelError::message, (e,), s),
    ensures
        l@.last_id < u32::MAX ==> b,
        *event is Closed || *event is Done || *event is Finished ==> b,
        event matches ToplevelEvent::Title(k, _) ==> (l@.windows.dom().contains(*k) ==> b),
        event matches ToplevelEvent::AppId(k, _) ==> (l@.windows.dom().contains(*k) ==> b),
        event matches ToplevelEvent::State(k, _) ==> (l@.windows.dom().contains(*k) ==> b),
        event matches ToplevelEvent::Appeared(k) ==> (!l@.windows.dom().contains(*k) && l@.last_id
            == u32::MAX ==> !b),
        e matches ToplevelError::Connect(x) ==> text::has_suffix(s@, x@),
{
    if let ToplevelError::Connect(x) = *e {
        assert(s@.skip(s@.len() - x@.len()) =~= x@);
    }
}

} // verus!
