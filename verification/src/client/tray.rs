//! The tray icons, as data: what their menus and tool tips say and what each
//! entry does. Two of them: that of one host, which lists its sessions, and
//! the manager's own, which starts sessions from saved profiles.
use vstd::prelude::*;
use crate::client::manager::HostEvent;
use crate::client::profile;
use crate::client::profile::{Profile, ProfileView};
use crate::protocol::messages::SessionInfo;
use crate::text;

verus! {

/// How often the host's tray asks for its sessions, in seconds.
pub const REFRESH_SECS: u64 = 5;

/// What an entry of the host's menu does.
#[derive(Debug, Clone)]
pub enum TrayAction {
    /// Resume the session.
    Resume(String),
    /// Close the session.
    Close(String),
    /// Start a session.
    NewSession,
    /// Open the manager, which has its own hosts.
    ManageProfiles,
    Quit,
}

/// What an entry of the manager's menu does.
#[derive(Debug, Clone, Copy, PartialEq, Eq, Structural)]
pub enum ManagerTrayAction {
    /// Hand an event to the tray process.
    Host(HostEvent),
    /// Start a session with the profile at this place.
    NewSession(usize),
}

/// An entry that does something.
#[derive(Debug, Clone)]
pub struct Entry<A> {
    pub label: String,
    pub action: A,
}

/// An item of a menu.
#[derive(Debug, Clone)]
pub enum Item<A> {
    Separator,
    /// A label that cannot be chosen.
    Note(String),
    Choice(Entry<A>),
    Group(String, Vec<Entry<A>>),
}

/// An item of a menu, as text.
pub ghost enum ItemView<A> {
    Separator,
    Note(Seq<char>),
    Choice(Seq<char>, A),
    Group(Seq<char>, Seq<(Seq<char>, A)>),
}

/// The entries of a group, as text.
pub open spec fn entries<A>(v: Seq<Entry<A>>) -> Seq<(Seq<char>, A)> {
    v.map_values(|e: Entry<A>| (e.label@, e.action))
}

impl<A> View for Item<A> {
    type V = ItemView<A>;

    open spec fn view(&self) -> ItemView<A> {
        match *self {
            Item::Separator => ItemView::Separator,
            Item::Note(s) => ItemView::Note(s@),
            Item::Choice(e) => ItemView::Choice(e.label@, e.action),
            Item::Group(s, v) => ItemView::Group(s@, entries(v@)),
        }
    }
}

/// The items of a menu, as text.
pub open spec fn items<A>(v: Seq<Item<A>>) -> Seq<ItemView<A>> {
    v.map_values(|i: Item<A>| i@)
}

fn push_item<A>(menu: &mut Vec<Item<A>>, item: Item<A>)
    ensures
        items(final(menu)@) == items(old(menu)@).push(item@),
{
    menu.push(item);
    assert(items(menu@) == items(old(menu)@).push(item@));
}

fn note<A>(label: &str) -> (i: Item<A>)
    ensures
        i@ == ItemView::<A>::Note(label@),
{
    Item::Note(String::from_str(label))
}

fn entry<A>(label: &str, action: A) -> (e: Entry<A>)
    ensures
        e.label@ == label@,
        e.action == action,
{
    Entry { label: String::from_str(label), action }
}

/// The tray of one host: what it last heard of its sessions.
pub struct HostTray {
    pub server: String,
    pub ssh: bool,
    pub sessions: Vec<SessionInfo>,
    pub error: Option<String>,
}

/// The tray's title with its host.
pub open spec fn host_title(server: Seq<char>) -> Seq<char> {
    "Termland \u{2014} "@ + server
}

/// How a session is listed.
pub open spec fn session_label(s: SessionInfo) -> Seq<char> {
    s.session_id@ + " \u{2014} "@ + s.mode@ + " ("@ + text::decimal(s.width as nat) + "\u{d7}"@
        + text::decimal(s.height as nat) + ")"@
}

/// A session with what can be done with it.
pub open spec fn session_item(s: SessionInfo) -> ItemView<TrayAction> {
    ItemView::Group(
        session_label(s),
        seq![
            ("Resume"@, TrayAction::Resume(s.session_id)),
            ("Close session"@, TrayAction::Close(s.session_id)),
        ],
    )
}

/// What the menu says of the sessions: that the host is offline, that there
/// are none, or each of them.
pub open spec fn session_items(error: Option<Seq<char>>, sessions: Seq<SessionInfo>) -> Seq<
    ItemView<TrayAction>,
> {
    match error {
        Some(e) => seq![ItemView::Note("\u{26a0} offline: "@ + e)],
        None => if sessions.len() == 0 {
            seq![ItemView::Note("No resumable sessions"@)]
        } else {
            sessions.map_values(|s: SessionInfo| session_item(s))
        },
    }
}

/// The menu of a host's tray.
pub open spec fn host_menu(
    server: Seq<char>,
    error: Option<Seq<char>>,
    sessions: Seq<SessionInfo>,
) -> Seq<ItemView<TrayAction>> {
    seq![ItemView::Note(host_title(server)), ItemView::Separator] + session_items(error, sessions)
        + seq![
        ItemView::Separator,
        ItemView::Choice("New desktop session"@, TrayAction::NewSession),
        ItemView::Choice("Manage profiles\u{2026}"@, TrayAction::ManageProfiles),
        ItemView::Choice("Quit tray"@, TrayAction::Quit),
    ]
}

/// The options that come before the server where a host's tray launches the
/// client.
pub open spec fn launch_options(action: TrayAction) -> Seq<Seq<char>> {
    match action {
        TrayAction::Resume(id) => seq!["--attach"@, id@],
        TrayAction::Close(id) => seq!["--close"@, id@],
        _ => Seq::empty(),
    }
}

impl HostTray {
    /// The tray of a host that has not answered yet.
    pub fn new(server: String, ssh: bool) -> (t: HostTray)
        ensures
            t.server == server,
            t.ssh == ssh,
            t.sessions@ == Seq::<SessionInfo>::empty(),
            t.error is None,
    {
        HostTray { server, ssh, sessions: Vec::new(), error: None }
    }

    /// Takes the host's answer. An error leaves the sessions as they were last
    /// heard of.
    pub fn update(&mut self, result: Result<Vec<SessionInfo>, String>)
        ensures
            final(self).server == old(self).server,
            final(self).ssh == old(self).ssh,
            match result {
                Ok(s) => final(self).sessions == s && final(self).error is None,
                Err(e) => final(self).sessions == old(self).sessions && final(self).error == Some(
                    e,
                ),
            },
    {
        match result {
            Ok(s) => {
                self.sessions = s;
                self.error = None;
            },
            Err(e) => {
                self.error = Some(e);
            },
        }
    }

    /// The title of the tool tip.
    pub fn title(&self) -> (s: String)
        ensures
            s@ == host_title(self.server@),
    {
        let mut out = text::chars_of("Termland \u{2014} ");
        text::push_str(&mut out, self.server.as_str());
        text::text_of(&out)
    }

    /// The text of the tool tip: the error, or how many sessions there are.
    pub fn description(&self) -> (s: String)
        ensures
            s@ == (match self.error {
                Some(e) => "offline: "@ + e@,
                None => text::decimal(self.sessions@.len()) + " session(s)"@,
            }),
    {
        match &self.error {
            Some(e) => {
                let mut out = text::chars_of("offline: ");
                text::push_str(&mut out, e.as_str());
                text::text_of(&out)
            },
            None => {
                let mut out = text::decimal_chars(self.sessions.len() as u64);
                text::push_str(&mut out, " session(s)");
                text::text_of(&out)
            },
        }
    }

    fn push_sessions(&self, menu: &mut Vec<Item<TrayAction>>)
        ensures
            items(final(menu)@) == items(old(menu)@) + session_items(
                text::optional(self.error),
                self.sessions@,
            ),
    {
        let ghost head = items(menu@);
        if let Some(e) = &self.error {
            let mut out = text::chars_of("\u{26a0} offline: ");
            text::push_str(&mut out, e.as_str());
            push_item(menu, note(text::text_of(&out).as_str()));
            assert(items(menu@) == head + session_items(text::optional(self.error), self.sessions@));
        } else if self.sessions.len() == 0 {
            push_item(menu, note("No resumable sessions"));
            assert(items(menu@) == head + session_items(text::optional(self.error), self.sessions@));
        } else {
            let ghost all = self.sessions@.map_values(|s: SessionInfo| session_item(s));
            let mut i: usize = 0;
            assert(head + all.take(0) == head);
            while i < self.sessions.len()
                invariant
                    i <= self.sessions@.len(),
                    all == self.sessions@.map_values(|s: SessionInfo| session_item(s)),
                    items(menu@) == head + all.take(i as int),
                decreases self.sessions@.len() - i,
            {
                let s = &self.sessions[i];
                let mut list: Vec<Entry<TrayAction>> = Vec::new();
                list.push(entry("Resume", TrayAction::Resume(s.session_id.clone())));
                list.push(entry("Close session", TrayAction::Close(s.session_id.clone())));
                assert(entries(list@) == seq![
                    ("Resume"@, TrayAction::Resume(s.session_id)),
                    ("Close session"@, TrayAction::Close(s.session_id)),
                ]);
                push_item(menu, Item::Group(label_of(s), list));
                proof {
                    assert(all.take(i + 1) == all.take(i as int).push(all[i as int]));
                    assert(head + all.take(i + 1) == (head + all.take(i as int)).push(
                        all[i as int],
                    ));
                }
                i = i + 1;
            }
            assert(all.take(i as int) == all);
        }
    }

    /// The menu: what is known of the sessions, and what can be started.
    pub fn menu(&self) -> (menu: Vec<Item<TrayAction>>)
        ensures
            items(menu@) == host_menu(self.server@, text::optional(self.error), self.sessions@),
    {
        let mut menu: Vec<Item<TrayAction>> = Vec::new();
        assert(items(menu@) == Seq::<ItemView<TrayAction>>::empty());
        push_item(&mut menu, note(self.title().as_str()));
        push_item(&mut menu, Item::Separator);
        assert(items(menu@) == seq![
            ItemView::Note(host_title(self.server@)),
            ItemView::<TrayAction>::Separator,
        ]);
        self.push_sessions(&mut menu);
        let ghost upper = items(menu@);
        push_item(&mut menu, Item::Separator);
        push_item(&mut menu, Item::Choice(entry("New desktop session", TrayAction::NewSession)));
        push_item(
            &mut menu,
            Item::Choice(entry("Manage profiles\u{2026}", TrayAction::ManageProfiles)),
        );
        push_item(&mut menu, Item::Choice(entry("Quit tray", TrayAction::Quit)));
        assert(items(menu@) == upper + seq![
            ItemView::Separator,
            ItemView::Choice("New desktop session"@, TrayAction::NewSession),
            ItemView::Choice("Manage profiles\u{2026}"@, TrayAction::ManageProfiles),
            ItemView::Choice("Quit tray"@, TrayAction::Quit),
        ]);
        menu
    }

    /// The arguments with which an entry launches this program, where it does.
    /// The manager gets no server: it has its own hosts.
    pub fn launch_args(&self, action: &TrayAction) -> (r: Option<Vec<String>>)
        ensures
            match *action {
                TrayAction::Quit => r is None,
                TrayAction::ManageProfiles => r matches Some(v) && text::texts(v@)
                    == seq!["--manager"@],
                _ => r matches Some(v) && text::texts(v@) == (if self.ssh {
                    seq!["--ssh"@]
                } else {
                    Seq::empty()
                }) + launch_options(*action) + seq![self.server@],
            },
    {
        let mut v: Vec<String> = Vec::new();
        assert(text::texts(v@) == Seq::<Seq<char>>::empty());
        match action {
            TrayAction::Quit => {
                return None;
            },
            TrayAction::ManageProfiles => {
                text::push_text(&mut v, "--manager");
                assert(text::texts(v@) == seq!["--manager"@]);
                return Some(v);
            },
            _ => {},
        }
        if self.ssh {
            text::push_text(&mut v, "--ssh");
            assert(text::texts(v@) == seq!["--ssh"@]);
        }
        let ghost head = text::texts(v@);
        match action {
            TrayAction::Resume(id) => {
                text::push_text(&mut v, "--attach");
                text::push_text(&mut v, id.as_str());
            },
            TrayAction::Close(id) => {
                text::push_text(&mut v, "--close");
                text::push_text(&mut v, id.as_str());
            },
            _ => {},
        }
        assert(text::texts(v@) == head + launch_options(*action));
        text::push_text(&mut v, self.server.as_str());
        assert(text::texts(v@) == head + launch_options(*action) + seq![self.server@]);
        Some(v)
    }
}

fn label_of(s: &SessionInfo) -> (l: String)
    ensures
        l@ == session_label(*s),
{
    let mut out = text::chars_of(s.session_id.as_str());
    text::push_str(&mut out, " \u{2014} ");
    text::push_str(&mut out, s.mode.as_str());
    text::push_str(&mut out, " (");
    let mut w = text::decimal_chars(s.width as u64);
    out.append(&mut w);
    text::push_str(&mut out, "\u{d7}");
    let mut h = text::decimal_chars(s.height as u64);
    out.append(&mut h);
    text::push_str(&mut out, ")");
    text::text_of(&out)
}

/// A profile with what can be done with it.
pub open spec fn profile_item(name: Seq<char>, place: usize) -> ItemView<ManagerTrayAction> {
    ItemView::Group(name, seq![("New session"@, ManagerTrayAction::NewSession(place))])
}

/// What the manager's menu says of the saved profiles.
pub open spec fn profile_items(profiles: Seq<ProfileView>) -> Seq<ItemView<ManagerTrayAction>> {
    if profiles.len() == 0 {
        seq![ItemView::Note("No saved profiles"@)]
    } else {
        Seq::new(
            profiles.len(),
            |i: int| profile_item(profiles[i].display_name, i as usize),
        )
    }
}

/// The menu of the manager's tray.
pub open spec fn manager_menu(profiles: Seq<ProfileView>) -> Seq<ItemView<ManagerTrayAction>> {
    seq![
        ItemView::Choice("Open Session Manager"@, ManagerTrayAction::Host(HostEvent::Show)),
        ItemView::Separator,
    ] + profile_items(profiles) + seq![
        ItemView::Separator,
        ItemView::Choice("Quit Termland"@, ManagerTrayAction::Host(HostEvent::Quit)),
    ]
}

/// The icon beside an entry of the manager's menu, by the name that icon themes
/// give it. Only quitting has one.
pub open spec fn icon_of(action: ManagerTrayAction) -> Option<Seq<char>> {
    if action == ManagerTrayAction::Host(HostEvent::Quit) {
        Some("application-exit"@)
    } else {
        None
    }
}

/// The name of the icon beside an entry of the manager's menu, where it has
/// one.
pub fn manager_entry_icon(action: &ManagerTrayAction) -> (icon: Option<&'static str>)
    ensures
        match icon {
            Some(name) => icon_of(*action) == Some(name@),
            None => icon_of(*action) is None,
        },
{
    match action {
        ManagerTrayAction::Host(HostEvent::Quit) => Some("application-exit"),
        _ => None,
    }
}

/// The menu of the manager's tray: the window, a new session with each saved
/// profile, and the end.
pub fn manager_tray_menu(profiles: &[Profile]) -> (menu: Vec<Item<ManagerTrayAction>>)
    ensures
        items(menu@) == manager_menu(profile::views(profiles@)),
{
    let ghost views = profile::views(profiles@);
    let mut menu: Vec<Item<ManagerTrayAction>> = Vec::new();
    assert(items(menu@) == Seq::<ItemView<ManagerTrayAction>>::empty());
    push_item(
        &mut menu,
        Item::Choice(entry("Open Session Manager", ManagerTrayAction::Host(HostEvent::Show))),
    );
    push_item(&mut menu, Item::Separator);
    let ghost head = seq![
        ItemView::Choice("Open Session Manager"@, ManagerTrayAction::Host(HostEvent::Show)),
        ItemView::Separator,
    ];
    assert(items(menu@) == head);
    if profiles.len() == 0 {
        push_item(&mut menu, note("No saved profiles"));
        assert(items(menu@) == head + profile_items(views));
    }
    let ghost all: Seq<ItemView<ManagerTrayAction>> = Seq::new(
        views.len(),
        |i: int| profile_item(views[i].display_name, i as usize),
    );
    let mut i: usize = 0;
    assert(profiles@.len() > 0 ==> head + all.take(0) == head);
    while i < profiles.len()
        invariant
            i <= profiles@.len(),
            views == profile::views(profiles@),
            all == Seq::new(
                views.len(),
                |i: int| profile_item(views[i].display_name, i as usize),
            ),
            profiles@.len() > 0 ==> items(menu@) == head + all.take(i as int),
            profiles@.len() == 0 ==> items(menu@) == head + profile_items(views),
        decreases profiles@.len() - i,
    {
        let mut list: Vec<Entry<ManagerTrayAction>> = Vec::new();
        list.push(entry("New session", ManagerTrayAction::NewSession(i)));
        assert(entries(list@) == seq![("New session"@, ManagerTrayAction::NewSession(i))]);
        push_item(&mut menu, Item::Group(profiles[i].display_name.clone(), list));
        proof {
            assert(all.take(i + 1) == all.take(i as int).push(all[i as int]));
            assert(head + all.take(i + 1) == (head + all.take(i as int)).push(all[i as int]));
        }
        i = i + 1;
    }
    assert(all.take(i as int) == all);
    let ghost upper = items(menu@);
    push_item(&mut menu, Item::Separator);
    push_item(
        &mut menu,
        Item::Choice(entry("Quit Termland", ManagerTrayAction::Host(HostEvent::Quit))),
    );
    assert(items(menu@) == upper + seq![
        ItemView::Separator,
        ItemView::Choice("Quit Termland"@, ManagerTrayAction::Host(HostEvent::Quit)),
    ]);
    menu
}

/// Whether an entry goes by a session's id and resumes or closes it.
pub open spec fn offers_session(item: ItemView<TrayAction>, s: SessionInfo) -> bool {
    &&& item matches ItemView::Group(label, choices)
    &&& label.len() >= s.session_id@.len()
    &&& label.take(s.session_id@.len() as int) == s.session_id@
    &&& choices.len() == 2
    &&& choices[0].1 == TrayAction::Resume(s.session_id)
    &&& choices[1].1 == TrayAction::Close(s.session_id)
}

/// A host's menu begins with its title and ends with a way to start a session,
/// to edit profiles and to leave. Where the host answered, every session stands
/// between, by its id, to be resumed or closed.
pub proof fn every_session_can_be_chosen(t: &HostTray, menu: Vec<Item<TrayAction>>)
    requires
        call_ensures(HostTray::menu, (t,), menu),
    ensures
        menu@.len() >= 6,
        menu@[0]@ matches ItemView::Note(s) && s.len() >= t.server@.len() && s.skip(
            s.len() - t.server@.len(),
        ) == t.server@,
        menu@[menu@.len() - 3]@ matches ItemView::Choice(_, a) && a == TrayAction::NewSession,
        menu@[menu@.len() - 2]@ matches ItemView::Choice(_, a) && a == TrayAction::ManageProfiles,
        menu@[menu@.len() - 1]@ matches ItemView::Choice(_, a) && a == TrayAction::Quit,
        t.error is None && t.sessions@.len() > 0 ==> menu@.len() == t.sessions@.len() + 6,
        t.error is None ==> forall|i: int|
            0 <= i < t.sessions@.len() ==> offers_session(menu@[2 + i]@, #[trigger] t.sessions@[i]),
        t.error matches Some(e) ==> menu@[2]@ is Note && menu@.len() == 7,
{
    let m = items(menu@);
    assert(m.len() == menu@.len());
    assert(forall|k: int| 0 <= k < m.len() ==> #[trigger] m[k] == menu@[k]@);
    let title = host_title(t.server@);
    assert(title.skip(title.len() - t.server@.len()) =~= t.server@);
    assert(m[0] == ItemView::<TrayAction>::Note(title));
    assert(m[m.len() - 3] == menu@[menu@.len() - 3]@);
    assert(m[m.len() - 2] == menu@[menu@.len() - 2]@);
    assert(m[m.len() - 1] == menu@[menu@.len() - 1]@);
    assert(m[2] == menu@[2]@);
    if t.error is None {
        assert forall|i: int| 0 <= i < t.sessions@.len() implies offers_session(
            menu@[2 + i]@,
            #[trigger] t.sessions@[i],
        ) by {
            let s = t.sessions@[i];
            assert(m[2 + i] == menu@[2 + i]@);
            assert(m[2 + i] == session_item(s));
            let label = session_label(s);
            assert(label.take(s.session_id@.len() as int) =~= s.session_id@);
        }
    }
}

/// What is chosen from a host's menu runs a client for that host, over SSH where
/// the host was reached so, and for the session that was named.
pub proof fn choices_are_run(t: &HostTray, action: &TrayAction, r: Option<Vec<String>>)
    requires
        call_ensures(HostTray::launch_args, (t, action), r),
    ensures
        r is None <==> *action is Quit,
        *action is ManageProfiles ==> (r matches Some(v) && v@.len() == 1 && v@[0]@
            == "--manager"@),
        *action is Resume || *action is Close || *action is NewSession ==> (r matches Some(v)
            && v@.len() > 0 && v@[v@.len() - 1]@ == t.server@ && (t.ssh ==> v@[0]@ == "--ssh"@)),
        action matches TrayAction::Resume(id) ==> (r matches Some(v) && v@.len() >= 3
            && v@[v@.len() - 3]@ == "--attach"@ && v@[v@.len() - 2]@ == id@),
        action matches TrayAction::Close(id) ==> (r matches Some(v) && v@.len() >= 3
            && v@[v@.len() - 3]@ == "--close"@ && v@[v@.len() - 2]@ == id@),
        *action is NewSession ==> (r matches Some(v) && v@.len() == if t.ssh {
            2int
        } else {
            1int
        }),
{
    if let Some(v) = r {
        let a = text::texts(v@);
        assert(a.len() == v@.len());
        assert(forall|k: int| 0 <= k < a.len() ==> #[trigger] a[k] == v@[k]@);
        assert(a[0] == v@[0]@);
        assert(a[a.len() - 1] == v@[v@.len() - 1]@);
        if a.len() >= 3 {
            assert(a[a.len() - 2] == v@[v@.len() - 2]@);
            assert(a[a.len() - 3] == v@[v@.len() - 3]@);
        }
    }
}

/// What a host answered replaces what was known; a failure is told and leaves
/// the sessions as they were.
pub proof fn answers_are_told()
    ensures
        forall|t: &mut HostTray, list: Vec<SessionInfo>| #[trigger]
            call_ensures(HostTray::update, (t, Ok::<Vec<SessionInfo>, String>(list)), ()) ==> {
                &&& final(t).sessions == list
                &&& final(t).error is None
                &&& final(t).server == t.server && final(t).ssh == t.ssh
            },
        forall|t: &mut HostTray, e: String| #[trigger]
            call_ensures(HostTray::update, (t, Err::<Vec<SessionInfo>, String>(e)), ()) ==> {
                &&& final(t).sessions == t.sessions
                &&& final(t).error == Some(e)
                &&& final(t).server == t.server && final(t).ssh == t.ssh
            },
        forall|t: &HostTray, s: String| #[trigger]
            call_ensures(HostTray::description, (t,), s) ==> {
                &&& t.error matches Some(e) ==> s@.len() >= e@.len() && s@.skip(s@.len() - e@.len())
                    == e@
                &&& t.error is None ==> s@.take(text::decimal(t.sessions@.len()).len() as int)
                    == text::decimal(t.sessions@.len())
            },
        forall|t: &HostTray, s: String| #[trigger]
            call_ensures(HostTray::title, (t,), s) ==> s@.len() >= t.server@.len() && s@.skip(
                s@.len() - t.server@.len(),
            ) == t.server@,
        forall|server: String, ssh: bool, t: HostTray| #[trigger]
            call_ensures(HostTray::new, (server, ssh), t) ==> t.server == server && t.ssh == ssh
                && t.sessions@.len() == 0 && t.error is None,
{
    assert forall|t: &HostTray, s: String| #[trigger]
        call_ensures(HostTray::description, (t,), s) implies {
        &&& t.error matches Some(e) ==> s@.len() >= e@.len() && s@.skip(s@.len() - e@.len()) == e@
        &&& t.error is None ==> s@.take(text::decimal(t.sessions@.len()).len() as int)
            == text::decimal(t.sessions@.len())
    } by {
        if let Some(e) = t.error {
            assert(s@.skip(s@.len() - e@.len()) =~= e@);
        } else {
            let n = text::decimal(t.sessions@.len());
            assert(s@.take(n.len() as int) =~= n);
        }
    }
    assert forall|t: &HostTray, s: String| #[trigger]
        call_ensures(HostTray::title, (t,), s) implies s@.len() >= t.server@.len() && s@.skip(
        s@.len() - t.server@.len(),
    ) == t.server@ by {
        assert(s@.skip(s@.len() - t.server@.len()) =~= t.server@);
    }
}

/// The manager's tray opens the window, starts a session of each profile by its
/// name and place, and leaves; only leaving has an icon.
pub proof fn every_profile_can_be_chosen(
    profiles: &[Profile],
    menu: Vec<Item<ManagerTrayAction>>,
    action: &ManagerTrayAction,
    icon: Option<&'static str>,
)
    requires
        call_ensures(manager_tray_menu, (profiles,), menu),
        call_ensures(manager_entry_icon, (action,), icon),
        profiles@.len() <= usize::MAX,
    ensures
        menu@.len() >= 5,
        menu@[0]@ matches ItemView::Choice(_, a) && a == ManagerTrayAction::Host(HostEvent::Show),
        menu@[menu@.len() - 1]@ matches ItemView::Choice(_, a) && a == ManagerTrayAction::Host(
            HostEvent::Quit,
        ),
        profiles@.len() > 0 ==> menu@.len() == profiles@.len() + 4,
        forall|i: int|
            0 <= i < profiles@.len() ==> {
                let p = #[trigger] profiles@[i];
                &&& menu@[2 + i]@ matches ItemView::Group(name, choices)
                &&& name == p.display_name@
                &&& choices.len() == 1
                &&& choices[0].1 matches ManagerTrayAction::NewSession(place)
                &&& place == i
            },
        icon is Some <==> *action == ManagerTrayAction::Host(HostEvent::Quit),
{
    let m = items(menu@);
    let views = profile::views(profiles@);
    assert(views.len() == profiles@.len());
    assert(m.len() == menu@.len());
    assert(m[0] == menu@[0]@);
    assert(m[m.len() - 1] == menu@[menu@.len() - 1]@);
    assert forall|i: int| 0 <= i < profiles@.len() implies {
        let p = #[trigger] profiles@[i];
        &&& menu@[2 + i]@ matches ItemView::Group(name, choices)
        &&& name == p.display_name@
        &&& choices.len() == 1
        &&& choices[0].1 matches ManagerTrayAction::NewSession(place)
        &&& place == i
    } by {
        assert(m[2 + i] == menu@[2 + i]@);
        assert(views[i] == profiles@[i]@);
        assert(m[2 + i] == profile_item(views[i].display_name, i as usize));
    }
}

} // verus!
