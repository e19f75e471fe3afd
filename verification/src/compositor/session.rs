//! A session's compositor as a connection sees it: what it was started with,
//! and what it can do.
use vstd::prelude::*;
use crate::compositor::backend::DetachedBackend;
use crate::compositor::cursor_capture::{CursorCapture, CursorCaptureError};
use crate::compositor::output_resize::ResizeError;
use crate::compositor::screencopy::{after, CaptureError};
use crate::protocol::messages;
use crate::protocol::messages::ModeView;
use crate::text;

verus! {

/// Why a compositor cannot be had or used.
#[derive(Debug, Clone)]
pub enum CompositorError {
    StartFailed(String),
    CaptureError(String),
    WaylandError(String),
    CompositorExited,
}

impl CompositorError {
    /// What the error says.
    pub open spec fn text(self) -> Seq<char> {
        match self {
            CompositorError::StartFailed(e) => "failed to start compositor: "@ + e@,
            CompositorError::CaptureError(e) => "capture error: "@ + e@,
            CompositorError::WaylandError(e) => "wayland error: "@ + e@,
            CompositorError::CompositorExited => "compositor exited unexpectedly"@,
        }
    }

    /// Writes what the error says.
    pub fn message(&self) -> (s: String)
        ensures
            s@ == self.text(),
    {
        match self {
            CompositorError::StartFailed(e) => after("failed to start compositor: ", e),
            CompositorError::CaptureError(e) => after("capture error: ", e),
            CompositorError::WaylandError(e) => after("wayland error: ", e),
            CompositorError::CompositorExited => String::from_str("compositor exited unexpectedly"),
        }
    }
}

/// What a session runs.
#[derive(Debug, Clone)]
pub enum SessionMode {
    /// A desktop with many windows, under labwc.
    Desktop,
    /// One application that fills the screen, under cage.
    App { command: String, args: Vec<String> },
}

impl View for SessionMode {
    type V = ModeView;

    open spec fn view(&self) -> ModeView {
        match *self {
            SessionMode::Desktop => ModeView::Desktop,
            SessionMode::App { command, args } => ModeView::App(command@, text::texts(args@)),
        }
    }
}

impl From<messages::SessionMode> for SessionMode {
    fn from(mode: messages::SessionMode) -> (m: SessionMode) {
        match mode {
            messages::SessionMode::Desktop => SessionMode::Desktop,
            messages::SessionMode::App { command, args } => SessionMode::App { command, args },
        }
    }
}

impl vstd::std_specs::convert::FromSpecImpl<messages::SessionMode> for SessionMode {
    open spec fn obeys_from_spec() -> bool {
        true
    }

    open spec fn from_spec(mode: messages::SessionMode) -> SessionMode {
        match mode {
            messages::SessionMode::Desktop => SessionMode::Desktop,
            messages::SessionMode::App { command, args } => SessionMode::App { command, args },
        }
    }
}

/// What a compositor is started with.
#[derive(Debug, Clone)]
pub struct CompositorConfig {
    pub width: u32,
    pub height: u32,
    pub mode: SessionMode,
    /// What a desktop starts; otherwise one is looked for.
    pub desktop_shell: Option<String>,
}

/// Which compositor to start.
#[derive(Debug, Clone)]
pub enum Launch {
    Labwc { shell: String },
    Cage { command: String, args: Vec<String> },
}

impl Launch {
    /// The name of the compositor.
    pub fn name(&self) -> (s: &'static str)
        ensures
            s@ == (if *self is Labwc {
                "labwc"@
            } else {
                "cage"@
            }),
    {
        match self {
            Launch::Labwc { .. } => "labwc",
            Launch::Cage { .. } => "cage",
        }
    }
}

/// Chooses the compositor of a session: labwc with the desktop that was asked
/// for, or else the one that was found, and cage for an application.
pub fn choose_backend(config: &CompositorConfig, detected_shell: String) -> (l: Launch)
    ensures
        match config.mode {
            SessionMode::Desktop => l == (Launch::Labwc {
                shell: match config.desktop_shell {
                    Some(s) => s,
                    None => detected_shell,
                },
            }),
            SessionMode::App { command, args } => l matches Launch::Cage { command: c, args: a }
                && c == command && text::texts(a@) == text::texts(args@),
        },
{
    match &config.mode {
        SessionMode::Desktop => {
            let shell = match &config.desktop_shell {
                Some(s) => s.clone(),
                None => detected_shell,
            };
            Launch::Labwc { shell }
        },
        SessionMode::App { command, args } => Launch::Cage {
            command: command.clone(),
            args: text::copy_texts(args),
        },
    }
}

/// A connection's hold on a session's compositor. The compositor outlives it:
/// letting go leaves the session running.
pub struct Compositor {
    config: CompositorConfig,
    wayland_display: String,
    /// The runtime directory that the compositor was started with, which need
    /// not be this process's own.
    runtime_dir: String,
    backend_name: &'static str,
    /// Whether the output's size can be changed.
    can_resize: bool,
    /// Whether the pointer's picture can be captured.
    can_capture_cursor: bool,
}

impl Compositor {
    /// What the compositor was started with, and its size now.
    pub closed spec fn config(self) -> CompositorConfig {
        self.config
    }

    /// Where the compositor listens.
    pub closed spec fn display(self) -> Seq<char> {
        self.wayland_display@
    }

    /// The directory that it listens in.
    pub closed spec fn dir(self) -> Seq<char> {
        self.runtime_dir@
    }

    /// Its name.
    pub closed spec fn backend(self) -> Seq<char> {
        self.backend_name@
    }

    /// Whether the output's size can be changed.
    pub closed spec fn resizable(self) -> bool {
        self.can_resize
    }

    /// Whether the pointer's picture can be captured.
    pub closed spec fn has_cursor(self) -> bool {
        self.can_capture_cursor
    }

    /// Takes hold of a compositor that was just started, with the process to
    /// remember it by.
    pub fn create(
        config: CompositorConfig,
        backend_name: &'static str,
        started: DetachedBackend,
        capturer: Result<(), String>,
        can_resize: bool,
        can_capture_cursor: bool,
    ) -> (r: Result<(Compositor, u32), CompositorError>)
        ensures
            match capturer {
                Ok(_) => {
                    &&& r matches Ok((c, pid))
                    &&& pid == started.pid
                    &&& c.config() == config
                    &&& c.display() == started.wayland_display@
                    &&& c.dir() == started.runtime_dir@
                    &&& c.backend() == backend_name@
                    &&& c.resizable() == can_resize
                    &&& c.has_cursor() == can_capture_cursor
                },
                Err(e) => r matches Err(CompositorError::WaylandError(m)) && m@ == "connect to "@
                    + backend_name@ + ": "@ + e@,
            },
    {
        let pid: u32 = started.pid;
        match Compositor::connect(
            config,
            started.wayland_display,
            backend_name,
            started.runtime_dir,
            capturer,
            can_resize,
            can_capture_cursor,
        ) {
            Ok(c) => Ok((c, pid)),
            Err(e) => Err(e),
        }
    }

    /// Takes hold of a compositor that runs already, to resume its session. The
    /// runtime directory is the one that it was started with.
    pub fn attach(
        config: CompositorConfig,
        wayland_display: String,
        runtime_dir: String,
        capturer: Result<(), String>,
        can_resize: bool,
        can_capture_cursor: bool,
    ) -> (r: Result<Compositor, CompositorError>)
        ensures
            match capturer {
                Ok(_) => {
                    &&& r matches Ok(c)
                    &&& c.config() == config
                    &&& c.display() == wayland_display@
                    &&& c.dir() == runtime_dir@
                    &&& c.backend() == "compositor"@
                    &&& c.resizable() == can_resize
                    &&& c.has_cursor() == can_capture_cursor
                },
                Err(e) => r matches Err(CompositorError::WaylandError(m)) && m@ == "connect to "@
                    + "compositor"@ + ": "@ + e@,
            },
    {
        Compositor::connect(
            config,
            wayland_display,
            "compositor",
            runtime_dir,
            capturer,
            can_resize,
            can_capture_cursor,
        )
    }

    /// Takes hold of a running compositor. Its frames must be there; that its
    /// size cannot be changed, or its pointer not captured, only means less.
    fn connect(
        config: CompositorConfig,
        wayland_display: String,
        backend_name: &'static str,
        runtime_dir: String,
        capturer: Result<(), String>,
        can_resize: bool,
        can_capture_cursor: bool,
    ) -> (r: Result<Compositor, CompositorError>)
        ensures
            match capturer {
                Ok(_) => {
                    &&& r matches Ok(c)
                    &&& c.config() == config
                    &&& c.display() == wayland_display@
                    &&& c.dir() == runtime_dir@
                    &&& c.backend() == backend_name@
                    &&& c.resizable() == can_resize
                    &&& c.has_cursor() == can_capture_cursor
                },
                Err(e) => r matches Err(CompositorError::WaylandError(m)) && m@ == "connect to "@
                    + backend_name@ + ": "@ + e@,
            },
    {
        match capturer {
            Ok(_) => Ok(
                Compositor {
                    config,
                    wayland_display,
                    runtime_dir,
                    backend_name,
                    can_resize,
                    can_capture_cursor,
                },
            ),
            Err(e) => {
                let mut m = text::chars_of("connect to ");
                text::push_str(&mut m, backend_name);
                text::push_str(&mut m, ": ");
                text::push_str(&mut m, e.as_str());
                Err(CompositorError::WaylandError(text::text_of(&m)))
            },
        }
    }

    /// The width of the output.
    pub fn width(&self) -> (w: u32)
        ensures
            w == self.config().width,
    {
        self.config.width
    }

    /// The height of the output.
    pub fn height(&self) -> (h: u32)
        ensures
            h == self.config().height,
    {
        self.config.height
    }

    /// Where the compositor listens.
    pub fn wayland_display(&self) -> (s: &str)
        ensures
            s@ == self.display(),
    {
        self.wayland_display.as_str()
    }

    /// The directory that the compositor listens in. Whoever connects to it
    /// uses this, not a directory of their own.
    pub fn runtime_dir(&self) -> (s: &str)
        ensures
            s@ == self.dir(),
    {
        self.runtime_dir.as_str()
    }

    /// The compositor's name.
    pub fn backend_name(&self) -> (s: &'static str)
        ensures
            s@ == self.backend(),
    {
        self.backend_name
    }

    /// Whether the size may be asked to change.
    pub fn check_resize(&self) -> (r: Result<(), CompositorError>)
        ensures
            r is Ok <==> self.resizable(),
            r matches Err(e) ==> (e matches CompositorError::WaylandError(m) && m@
                == "output manager not available"@),
    {
        if self.can_resize {
            Ok(())
        } else {
            Err(CompositorError::WaylandError(String::from_str("output manager not available")))
        }
    }

    /// Notes what came of a change of size. Where it failed, or the compositor
    /// has no output manager, the size is what it was.
    pub fn resize(&mut self, width: u32, height: u32, outcome: Result<(), ResizeError>) -> (r: Result<
        (),
        CompositorError,
    >)
        ensures
            final(self).display() == old(self).display(),
            final(self).dir() == old(self).dir(),
            final(self).backend() == old(self).backend(),
            final(self).resizable() == old(self).resizable(),
            final(self).has_cursor() == old(self).has_cursor(),
            if !old(self).resizable() {
                (r matches Err(CompositorError::WaylandError(m)) && m@
                    == "output manager not available"@) && final(self).config()
                    == old(self).config()
            } else {
                match outcome {
                    Ok(_) => r is Ok && final(self).config() == (CompositorConfig {
                        width,
                        height,
                        ..old(self).config()
                    }),
                    Err(e) => (r matches Err(CompositorError::WaylandError(m)) && m@ == "resize: "@
                        + e.text()) && final(self).config() == old(self).config(),
                }
            },
    {
        self.check_resize()?;
        match outcome {
            Ok(_) => {
                self.config.width = width;
                self.config.height = height;
                Ok(())
            },
            Err(e) => Err(CompositorError::WaylandError(after("resize: ", e.message().as_str()))),
        }
    }

    /// The frame that was captured: its size, and its pixels as RGBA.
    pub fn capture_frame(&self, captured: Result<(u32, u32, Vec<u8>), CaptureError>) -> (r: Result<
        (u32, u32, Vec<u8>),
        CompositorError,
    >)
        ensures
            match captured {
                Ok(f) => r == Ok::<(u32, u32, Vec<u8>), CompositorError>(f),
                Err(e) => r matches Err(CompositorError::CaptureError(m)) && m@ == e.text(),
            },
    {
        match captured {
            Ok(f) => Ok(f),
            Err(e) => Err(CompositorError::CaptureError(e.message())),
        }
    }

    /// Whether the pointer's picture may be asked for. Without it, no new shape
    /// is known, and that is all.
    pub fn check_cursor(&self) -> (r: Result<(), CompositorError>)
        ensures
            r is Ok <==> self.has_cursor(),
            r matches Err(e) ==> (e matches CompositorError::CaptureError(m) && m@
                == "cursor capturer not available"@),
    {
        if self.can_capture_cursor {
            Ok(())
        } else {
            Err(CompositorError::CaptureError(String::from_str("cursor capturer not available")))
        }
    }

    /// The pointer that was captured, where the compositor lets it be.
    pub fn capture_cursor(&self, captured: Result<CursorCapture, CursorCaptureError>) -> (r: Result<
        CursorCapture,
        CompositorError,
    >)
        ensures
            if !self.has_cursor() {
                r matches Err(CompositorError::CaptureError(m)) && m@
                    == "cursor capturer not available"@
            } else {
                match captured {
                    Ok(c) => r == Ok::<CursorCapture, CompositorError>(c),
                    Err(e) => r matches Err(CompositorError::CaptureError(m)) && m@ == e.text(),
                }
            },
    {
        self.check_cursor()?;
        match captured {
            Ok(c) => Ok(c),
            Err(e) => Err(CompositorError::CaptureError(e.message())),
        }
    }
}

/// A desktop runs its shell: the one that was set, or else the one that was
/// found. An application is run alone, with its arguments. Either goes by the
/// name of the compositor that it needs.
pub proof fn modes_choose_their_compositor(
    config: &CompositorConfig,
    detected: String,
    l: Launch,
    s: &'static str,
)
    requires
        call_ensures(choose_backend, (config, detected), l),
        call_ensures(Launch::name, (&l,), s),
    ensures
        l is Labwc <==> config.mode is Desktop,
        l is Cage <==> config.mode is App,
        l matches Launch::Labwc { shell } ==> {
            &&& config.desktop_shell matches Some(d) ==> shell == d
            &&& config.desktop_shell is None ==> shell == detected
        },
        config.mode matches SessionMode::App { command, args } ==> (l matches Launch::Cage {
            command: c,
            args: a,
        } && c == command && text::texts(a@) == text::texts(args@)),
        l is Labwc ==> s@ == "labwc"@,
        l is Cage ==> s@ == "cage"@,
{
}

/// A compositor is the one that was started: it has the process, the socket, the
/// directory, the size and the abilities that were found, and each is told as it
/// is. One that cannot be reached is none, and the reason is told.
pub proof fn compositors_are_what_was_started(
    config: CompositorConfig,
    name: &'static str,
    started: DetachedBackend,
    capturer: Result<(), String>,
    resize: bool,
    cursor: bool,
    r: Result<(Compositor, u32), CompositorError>,
    display: String,
    dir: String,
    t: Result<Compositor, CompositorError>,
)
    requires
        call_ensures(Compositor::create, (config, name, started, capturer, resize, cursor), r),
        call_ensures(Compositor::attach, (config, display, dir, capturer, resize, cursor), t),
    ensures
        r is Ok <==> capturer is Ok,
        t is Ok <==> capturer is Ok,
        r matches Ok((c, pid)) ==> {
            &&& pid == started.pid
            &&& c.config() == config
            &&& c.display() == started.wayland_display@ && c.dir() == started.runtime_dir@
            &&& c.backend() == name@
            &&& c.resizable() == resize && c.has_cursor() == cursor
        },
        t matches Ok(c) ==> {
            &&& c.config() == config
            &&& c.display() == display@ && c.dir() == dir@
            &&& c.resizable() == resize && c.has_cursor() == cursor
        },
        r matches Err(e) ==> (e matches CompositorError::WaylandError(m) && capturer matches Err(
            why,
        ) && m@.len() >= why@.len() && m@.skip(m@.len() - why@.len()) == why@),
        t matches Err(e) ==> (e matches CompositorError::WaylandError(m) && capturer matches Err(
            why,
        ) && m@.len() >= why@.len() && m@.skip(m@.len() - why@.len()) == why@),
        forall|c: &Compositor, w: u32| #[trigger]
            call_ensures(Compositor::width, (c,), w) ==> w == c.config().width,
        forall|c: &Compositor, h: u32| #[trigger]
            call_ensures(Compositor::height, (c,), h) ==> h == c.config().height,
        forall|c: &Compositor, s: &str| #[trigger]
            call_ensures(Compositor::wayland_display, (c,), s) ==> s@ == c.display(),
        forall|c: &Compositor, s: &str| #[trigger]
            call_ensures(Compositor::runtime_dir, (c,), s) ==> s@ == c.dir(),
        forall|c: &Compositor, s: &'static str| #[trigger]
            call_ensures(Compositor::backend_name, (c,), s) ==> s@ == c.backend(),
{
    if let Err(why) = capturer {
        if let Err(CompositorError::WaylandError(m)) = r {
            assert(m@.skip(m@.len() - why@.len()) =~= why@);
        }
        if let Err(CompositorError::WaylandError(m)) = t {
            assert(m@.skip(m@.len() - why@.len()) =~= why@);
        }
    }
}

/// A resize that succeeds is the size from then on; one that fails, or that
/// cannot be done, changes nothing. Nothing else ever changes.
pub proof fn sizes_change_only_when_resized()
    ensures
        forall|
            c: &mut Compositor,
            w: u32,
            h: u32,
            outcome: Result<(), ResizeError>,
            r: Result<(), CompositorError>,
        | #[trigger]
            call_ensures(Compositor::resize, (c, w, h, outcome), r) ==> {
                &&& r is Ok <==> c.resizable() && outcome is Ok
                &&& r is Ok ==> final(c).config().width == w && final(c).config().height == h
                &&& r is Ok ==> final(c).config().mode == c.config().mode
                    && final(c).config().desktop_shell == c.config().desktop_shell
                &&& r is Err ==> final(c).config() == c.config()
                &&& final(c).display() == c.display() && final(c).dir() == c.dir()
                &&& final(c).backend() == c.backend()
                &&& final(c).resizable() == c.resizable() && final(c).has_cursor()
                    == c.has_cursor()
            },
        forall|c: &Compositor, r: Result<(), CompositorError>| #[trigger]
            call_ensures(Compositor::check_resize, (c,), r) ==> (r is Ok <==> c.resizable()),
        forall|c: &Compositor, r: Result<(), CompositorError>| #[trigger]
            call_ensures(Compositor::check_cursor, (c,), r) ==> (r is Ok <==> c.has_cursor()),
{
}

/// What was captured is handed on as it is; a failure is told as one of the
/// capture. A pointer is never made up where it cannot be captured.
pub proof fn captures_are_handed_on(
    c: &Compositor,
    f: Result<(u32, u32, Vec<u8>), CaptureError>,
    r: Result<(u32, u32, Vec<u8>), CompositorError>,
    p: Result<CursorCapture, CursorCaptureError>,
    q: Result<CursorCapture, CompositorError>,
    e: &CompositorError,
    s: String,
    mode: messages::SessionMode,
)
    requires
        call_ensures(Compositor::capture_frame, (c, f), r),
        call_ensures(Compositor::capture_cursor, (c, p), q),
        call_ensures(CompositorError::message, (e,), s),
    ensures
        f matches Ok(x) ==> (r matches Ok(y) && x == y),
        r is Ok ==> f is Ok,
        r matches Err(x) ==> x is CaptureError,
        q is Ok <==> c.has_cursor() && p is Ok,
        q matches Ok(x) ==> p == Ok::<CursorCapture, CursorCaptureError>(x),
        q matches Err(x) ==> x is CaptureError,
        e matches CompositorError::StartFailed(m) ==> s@.skip(s@.len() - m@.len()) == m@,
        e matches CompositorError::CaptureError(m) ==> s@.skip(s@.len() - m@.len()) == m@,
        e matches CompositorError::WaylandError(m) ==> s@.skip(s@.len() - m@.len()) == m@,
        <SessionMode as vstd::std_specs::convert::FromSpec<messages::SessionMode>>::from_spec(
            mode,
        )@ == mode@,
{
    match *e {
        CompositorError::StartFailed(m) => {
            assert(s@.skip(s@.len() - m@.len()) =~= m@);
        },
        CompositorError::CaptureError(m) => {
            assert(s@.skip(s@.len() - m@.len()) =~= m@);
        },
        CompositorError::WaylandError(m) => {
            assert(s@.skip(s@.len() - m@.len()) =~= m@);
        },
        CompositorError::CompositorExited => {},
    }
}

} // verus!
