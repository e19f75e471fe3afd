//! Capturing the pointer's picture apart from the frames, for clients that draw
//! the pointer themselves. It is captured with its hotspot and its
//! transparency, and may not be there at all.
use vstd::prelude::*;
use crate::compositor::screencopy;
use crate::compositor::screencopy::{
    after, is_four_bytes, is_three_bytes, layout, min_version, pack_rgba, CaptureError,
};
use crate::text;

verus! {

/// Why the pointer could not be captured.
#[derive(Debug, Clone)]
pub enum CursorCaptureError {
    Connect(String),
    NoShm,
    NoOutput,
    NoSeat,
    NoSourceManager,
    NoCaptureManager,
    NoConstraints,
    Stopped,
    Failed(String),
    ShmError(String),
}

impl CursorCaptureError {
    /// What the error says.
    pub open spec fn text(self) -> Seq<char> {
        match self {
            CursorCaptureError::Connect(e) => "wayland connect: "@ + e@,
            CursorCaptureError::NoShm => "no wl_shm global"@,
            CursorCaptureError::NoOutput => "no wl_output global"@,
            CursorCaptureError::NoSeat => "no wl_seat global"@,
            CursorCaptureError::NoSourceManager =>
                "no ext_output_image_capture_source_manager_v1 global (compositor lacks staging cursor-capture support)"@,
            CursorCaptureError::NoCaptureManager =>
                "no ext_image_copy_capture_manager_v1 global (compositor lacks staging cursor-capture support)"@,
            CursorCaptureError::NoConstraints =>
                "compositor never sent buffer constraints for the cursor session"@,
            CursorCaptureError::Stopped => "cursor capture session stopped by the compositor"@,
            CursorCaptureError::Failed(e) => "capture failed: "@ + e@,
            CursorCaptureError::ShmError(e) => "shm error: "@ + e@,
        }
    }

    /// Writes what the error says.
    pub fn message(&self) -> (s: String)
        ensures
            s@ == self.text(),
    {
        match self {
            CursorCaptureError::Connect(e) => after("wayland connect: ", e),
            CursorCaptureError::NoShm => String::from_str("no wl_shm global"),
            CursorCaptureError::NoOutput => String::from_str("no wl_output global"),
            CursorCaptureError::NoSeat => String::from_str("no wl_seat global"),
            CursorCaptureError::NoSourceManager => String::from_str(
                "no ext_output_image_capture_source_manager_v1 global (compositor lacks staging cursor-capture support)",
            ),
            CursorCaptureError::NoCaptureManager => String::from_str(
                "no ext_image_copy_capture_manager_v1 global (compositor lacks staging cursor-capture support)",
            ),
            CursorCaptureError::NoConstraints => String::from_str(
                "compositor never sent buffer constraints for the cursor session",
            ),
            CursorCaptureError::Stopped => String::from_str(
                "cursor capture session stopped by the compositor",
            ),
            CursorCaptureError::Failed(e) => after("capture failed: ", e),
            CursorCaptureError::ShmError(e) => after("shm error: ", e),
        }
    }

    /// An error of the buffer's.
    pub fn from_capture(e: &CaptureError) -> (r: CursorCaptureError)
        ensures
            r matches CursorCaptureError::ShmError(s) && s@ == e.text(),
    {
        CursorCaptureError::ShmError(e.message())
    }
}

/// A captured pointer, or that it is not to be seen.
#[derive(Debug, Clone)]
pub struct CursorCapture {
    /// Where the hotspot is on the output.
    pub x: i32,
    pub y: i32,
    pub hotspot_x: i32,
    pub hotspot_y: i32,
    pub width: u32,
    pub height: u32,
    pub visible: bool,
    pub rgba: Vec<u8>,
}

impl CursorCapture {
    /// Whether this is a pointer that is not to be seen.
    pub open spec fn is_hidden(self) -> bool {
        &&& self.x == 0 && self.y == 0
        &&& self.hotspot_x == 0 && self.hotspot_y == 0
        &&& self.width == 0 && self.height == 0
        &&& !self.visible
        &&& self.rgba@.len() == 0
    }
}

impl Default for CursorCapture {
    fn default() -> (c: CursorCapture)
        ensures
            c.is_hidden(),
    {
        CursorCapture {
            x: 0,
            y: 0,
            hotspot_x: 0,
            hotspot_y: 0,
            width: 0,
            height: 0,
            visible: false,
            rgba: Vec::new(),
        }
    }
}

/// What the compositor says of the pointer and of its capture.
#[derive(Debug, Clone, Copy, PartialEq, Eq, Structural)]
pub enum CursorEvent {
    Enter,
    Leave,
    Position { x: i32, y: i32 },
    Hotspot { x: i32, y: i32 },
    BufferSize { width: u32, height: u32 },
    ShmFormat { format: u32 },
    ConstraintsDone,
    Stopped,
    FrameReady,
    FrameFailed,
}

/// What is known of the pointer. What a buffer must be is sent again whenever
/// the pointer's shape changes.
#[derive(Debug, Clone, Copy, PartialEq, Eq, Structural)]
pub struct CursorState {
    pub present: bool,
    pub x: i32,
    pub y: i32,
    pub hotspot_x: i32,
    pub hotspot_y: i32,
    pub width: u32,
    pub height: u32,
    pub format: Option<u32>,
    pub constraints_done: bool,
    pub stopped: bool,
    pub frame_ready: bool,
    pub frame_failed: bool,
}

/// What to do about the pointer.
#[derive(Debug, Clone)]
pub enum CursorPlan {
    /// There is nothing to see.
    Hidden(CursorCapture),
    /// Copy it into such a buffer.
    Capture { width: u32, height: u32, stride: u32, format: u32 },
    Fail(CursorCaptureError),
}

/// What to do while the pointer is copied.
#[derive(Debug, Clone)]
pub enum CursorStep {
    Wait,
    Read,
    Fail(CursorCaptureError),
}

/// How often to look for the copy before giving up: the pointer can leave
/// meanwhile.
pub const MAX_ROUNDTRIPS: usize = 50;

impl CursorState {
    /// Before anything is known.
    pub fn new() -> (s: CursorState)
        ensures
            s == (CursorState {
                present: false,
                x: 0,
                y: 0,
                hotspot_x: 0,
                hotspot_y: 0,
                width: 0,
                height: 0,
                format: None,
                constraints_done: false,
                stopped: false,
                frame_ready: false,
                frame_failed: false,
            }),
    {
        CursorState {
            present: false,
            x: 0,
            y: 0,
            hotspot_x: 0,
            hotspot_y: 0,
            width: 0,
            height: 0,
            format: None,
            constraints_done: false,
            stopped: false,
            frame_ready: false,
            frame_failed: false,
        }
    }

    /// After an event. A format of four bytes per pixel replaces any other.
    pub open spec fn after(self, event: CursorEvent) -> CursorState {
        match event {
            CursorEvent::Enter => CursorState { present: true, ..self },
            CursorEvent::Leave => CursorState { present: false, ..self },
            CursorEvent::Position { x, y } => CursorState { x, y, ..self },
            CursorEvent::Hotspot { x, y } => CursorState { hotspot_x: x, hotspot_y: y, ..self },
            CursorEvent::BufferSize { width, height } => CursorState { width, height, ..self },
            CursorEvent::ShmFormat { format } => if screencopy::four_bytes(format)
                || self.format is None {
                CursorState { format: Some(format), ..self }
            } else {
                self
            },
            CursorEvent::ConstraintsDone => CursorState { constraints_done: true, ..self },
            CursorEvent::Stopped => CursorState { stopped: true, ..self },
            CursorEvent::FrameReady => CursorState { frame_ready: true, ..self },
            CursorEvent::FrameFailed => CursorState { frame_failed: true, ..self },
        }
    }

    /// Takes an event.
    pub fn event(&mut self, event: CursorEvent)
        ensures
            *final(self) == old(self).after(event),
    {
        match event {
            CursorEvent::Enter => {
                self.present = true;
            },
            CursorEvent::Leave => {
                self.present = false;
            },
            CursorEvent::Position { x, y } => {
                self.x = x;
                self.y = y;
            },
            CursorEvent::Hotspot { x, y } => {
                self.hotspot_x = x;
                self.hotspot_y = y;
            },
            CursorEvent::BufferSize { width, height } => {
                self.width = width;
                self.height = height;
            },
            CursorEvent::ShmFormat { format } => {
                if is_four_bytes(format) || self.format.is_none() {
                    self.format = Some(format);
                }
            },
            CursorEvent::ConstraintsDone => {
                self.constraints_done = true;
            },
            CursorEvent::Stopped => {
                self.stopped = true;
            },
            CursorEvent::FrameReady => {
                self.frame_ready = true;
            },
            CursorEvent::FrameFailed => {
                self.frame_failed = true;
            },
        }
    }

    /// Whether capturing can start, once the compositor had its say.
    pub fn check_session(&self) -> (r: Result<(), CursorCaptureError>)
        ensures
            r is Ok <==> !self.stopped && self.constraints_done,
            self.stopped ==> r == Err::<(), CursorCaptureError>(CursorCaptureError::Stopped),
            !self.stopped && !self.constraints_done ==> r == Err::<(), CursorCaptureError>(
                CursorCaptureError::NoConstraints,
            ),
    {
        if self.stopped {
            Err(CursorCaptureError::Stopped)
        } else if !self.constraints_done {
            Err(CursorCaptureError::NoConstraints)
        } else {
            Ok(())
        }
    }

    /// Decides what to do about the pointer. That it is elsewhere, or has no
    /// size yet, is no error. A buffer is made for a new copy.
    pub fn capture_cursor(&mut self) -> (p: CursorPlan)
        requires
            !old(self).stopped && old(self).present && old(self).height > 0 ==> (old(
                self,
            ).format matches Some(f) ==> old(self).width * screencopy::layout_of(f).bytes
                <= u32::MAX),
        ensures
            if old(self).stopped {
                p == CursorPlan::Fail(CursorCaptureError::Stopped) && *final(self) == *old(self)
            } else if !old(self).present || old(self).width == 0 || old(self).height == 0 {
                p matches CursorPlan::Hidden(c) && c.is_hidden() && *final(self) == *old(self)
            } else {
                match old(self).format {
                    None => p == CursorPlan::Fail(CursorCaptureError::NoConstraints)
                        && *final(self) == *old(self),
                    Some(f) => {
                        &&& p matches CursorPlan::Capture { width, height, stride, format }
                        &&& width == old(self).width
                        &&& height == old(self).height
                        &&& format == f
                        &&& stride == width * screencopy::layout_of(f).bytes
                        &&& *final(self) == (CursorState {
                            frame_ready: false,
                            frame_failed: false,
                            ..*old(self)
                        })
                    },
                }
            },
    {
        if self.stopped {
            return CursorPlan::Fail(CursorCaptureError::Stopped);
        }
        if !self.present || self.width == 0 || self.height == 0 {
            return CursorPlan::Hidden(CursorCapture::default());
        }
        match self.format {
            None => CursorPlan::Fail(CursorCaptureError::NoConstraints),
            Some(format) => {
                let bytes: u32 = if is_three_bytes(format) {
                    3
                } else {
                    4
                };
                self.frame_ready = false;
                self.frame_failed = false;
                CursorPlan::Capture {
                    width: self.width,
                    height: self.height,
                    stride: self.width * bytes,
                    format,
                }
            },
        }
    }

    /// What to do while the pointer is copied, after some looks.
    pub fn step(&self, tries: usize) -> (s: CursorStep)
        ensures
            if tries > MAX_ROUNDTRIPS {
                s matches CursorStep::Fail(CursorCaptureError::Failed(e)) && e@
                    == "timed out waiting for cursor frame"@
            } else if self.frame_failed {
                s matches CursorStep::Fail(CursorCaptureError::Failed(e)) && e@
                    == "compositor reported failure"@
            } else if self.frame_ready {
                s is Read
            } else {
                s is Wait
            },
    {
        if tries > MAX_ROUNDTRIPS {
            CursorStep::Fail(
                CursorCaptureError::Failed(String::from_str("timed out waiting for cursor frame")),
            )
        } else if self.frame_failed {
            CursorStep::Fail(
                CursorCaptureError::Failed(String::from_str("compositor reported failure")),
            )
        } else if self.frame_ready {
            CursorStep::Read
        } else {
            CursorStep::Wait
        }
    }

    /// The pointer with the bytes that were copied into the buffer.
    pub fn captured(&self, data: &[u8], width: u32, height: u32, stride: u32, format: u32) -> (c:
        CursorCapture)
        requires
            screencopy::rows_lie_within(
                width as int,
                height as int,
                stride as int,
                screencopy::layout_of(format).bytes as int,
                data@.len() as int,
            ),
        ensures
            c.x == self.x && c.y == self.y,
            c.hotspot_x == self.hotspot_x && c.hotspot_y == self.hotspot_y,
            c.width == width && c.height == height,
            c.visible,
            screencopy::converted(
                data@,
                width as int,
                height as int,
                stride as int,
                screencopy::layout_of(format),
                true,
                c.rgba@,
            ),
    {
        CursorCapture {
            x: self.x,
            y: self.y,
            hotspot_x: self.hotspot_x,
            hotspot_y: self.hotspot_y,
            width,
            height,
            visible: true,
            rgba: read_shm_to_rgba_preserving_alpha(data, width, height, stride, format),
        }
    }
}

/// A captured pointer as RGBA, with its transparency: around the shape it is
/// to be seen through. A format without alpha is opaque.
pub fn read_shm_to_rgba_preserving_alpha(
    data: &[u8],
    width: u32,
    height: u32,
    stride: u32,
    format: u32,
) -> (rgba: Vec<u8>)
    requires
        screencopy::rows_lie_within(
            width as int,
            height as int,
            stride as int,
            screencopy::layout_of(format).bytes as int,
            data@.len() as int,
        ),
    ensures
        screencopy::converted(
            data@,
            width as int,
            height as int,
            stride as int,
            screencopy::layout_of(format),
            true,
            rgba@,
        ),
{
    let l = layout(format);
    pack_rgba(data, width, height, stride, l, true)
}

/// The alpha of each pixel of a pointer is that of its bytes where the format
/// has one, and opaque where it has none.
pub proof fn pointers_keep_their_transparency(
    data: Seq<u8>,
    width: int,
    height: int,
    stride: int,
    format: u32,
    rgba: Seq<u8>,
    x: int,
    y: int,
)
    requires
        screencopy::converted(
            data,
            width,
            height,
            stride,
            screencopy::layout_of(format),
            true,
            rgba,
        ),
        0 <= x < width,
        0 <= y < height,
    ensures
        screencopy::rgba_pixel(rgba, width, x, y).3 == (if screencopy::layout_of(format).alpha {
            data[y * stride + x * 4 + 3]
        } else {
            255
        }),
{
}

/// Which globals capturing the pointer needs and binds.
#[derive(Debug, Clone, Copy, PartialEq, Eq, Structural)]
pub enum CursorGlobal {
    Shm,
    Output,
    Seat,
    SourceManager,
    CaptureManager,
}

/// Which global an announced interface is and the version to bind; of the
/// outputs and the seats only the first is taken.
pub fn cursor_global(interface: &str, version: u32, have_output: bool, have_seat: bool) -> (r: Option<
    (CursorGlobal, u32),
>)
    ensures
        r == (if interface@ == "wl_shm"@ {
            Some((CursorGlobal::Shm, screencopy::lower(version, 1)))
        } else if interface@ == "wl_output"@ {
            if have_output {
                None
            } else {
                Some((CursorGlobal::Output, screencopy::lower(version, 4)))
            }
        } else if interface@ == "wl_seat"@ {
            if have_seat {
                None
            } else {
                Some((CursorGlobal::Seat, screencopy::lower(version, 8)))
            }
        } else if interface@ == "ext_output_image_capture_source_manager_v1"@ {
            Some((CursorGlobal::SourceManager, screencopy::lower(version, 1)))
        } else if interface@ == "ext_image_copy_capture_manager_v1"@ {
            Some((CursorGlobal::CaptureManager, screencopy::lower(version, 1)))
        } else {
            None
        }),
{
    if text::same_text(interface, "wl_shm") {
        Some((CursorGlobal::Shm, min_version(version, 1)))
    } else if text::same_text(interface, "wl_output") {
        if have_output {
            None
        } else {
            Some((CursorGlobal::Output, min_version(version, 4)))
        }
    } else if text::same_text(interface, "wl_seat") {
        if have_seat {
            None
        } else {
            Some((CursorGlobal::Seat, min_version(version, 8)))
        }
    } else if text::same_text(interface, "ext_output_image_capture_source_manager_v1") {
        Some((CursorGlobal::SourceManager, min_version(version, 1)))
    } else if text::same_text(interface, "ext_image_copy_capture_manager_v1") {
        Some((CursorGlobal::CaptureManager, min_version(version, 1)))
    } else {
        None
    }
}

/// Whether the globals that were found suffice. A compositor without them
/// still works; only the pointer's picture is missing.
pub fn check_cursor_globals(
    shm: bool,
    output: bool,
    seat: bool,
    source_manager: bool,
    capture_manager: bool,
) -> (r: Result<(), CursorCaptureError>)
    ensures
        r == (if !shm {
            Err(CursorCaptureError::NoShm)
        } else if !output {
            Err(CursorCaptureError::NoOutput)
        } else if !seat {
            Err(CursorCaptureError::NoSeat)
        } else if !source_manager {
            Err(CursorCaptureError::NoSourceManager)
        } else if !capture_manager {
            Err(CursorCaptureError::NoCaptureManager)
        } else {
            Ok::<(), CursorCaptureError>(())
        }),
{
    if !shm {
        Err(CursorCaptureError::NoShm)
    } else if !output {
        Err(CursorCaptureError::NoOutput)
    } else if !seat {
        Err(CursorCaptureError::NoSeat)
    } else if !source_manager {
        Err(CursorCaptureError::NoSourceManager)
    } else if !capture_manager {
        Err(CursorCaptureError::NoCaptureManager)
    } else {
        Ok(())
    }
}

/// Each thing that is told of the pointer is remembered, and nothing else
/// changes by it.
pub proof fn pointers_are_followed()
    ensures
        forall|s: &mut CursorState, event: CursorEvent| #[trigger]
            call_ensures(CursorState::event, (s, event), ()) ==> {
                let t = *final(s);
                &&& event is Enter ==> t.present
                &&& event is Leave ==> !t.present
                &&& !(event is Enter) && !(event is Leave) ==> t.present == s.present
                &&& event matches CursorEvent::Position { x, y } ==> t.x == x && t.y == y
                &&& !(event is Position) ==> t.x == s.x && t.y == s.y
                &&& event matches CursorEvent::Hotspot { x, y } ==> t.hotspot_x == x && t.hotspot_y
                    == y
                &&& !(event is Hotspot) ==> t.hotspot_x == s.hotspot_x && t.hotspot_y == s.hotspot_y
                &&& event matches CursorEvent::BufferSize { width, height } ==> t.width == width
                    && t.height == height
                &&& !(event is BufferSize) ==> t.width == s.width && t.height == s.height
                &&& event matches CursorEvent::ShmFormat { format } ==> (s.format is None
                    ==> t.format == Some(format)) && t.format is Some && (t.format == Some(format)
                    || t.format == s.format)
                &&& event matches CursorEvent::ShmFormat { format } ==> s.format is Some ==> (
                t.format == Some(format) <==> s.format == Some(format) || format
                    == screencopy::SHM_ARGB8888 || format == screencopy::SHM_XRGB8888 || format
                    == screencopy::ARGB8888 || format == screencopy::XRGB8888 || format
                    == screencopy::ABGR8888 || format == screencopy::XBGR8888)
                &&& !(event is ShmFormat) ==> t.format == s.format
                &&& t.constraints_done == (s.constraints_done || event is ConstraintsDone)
                &&& t.stopped == (s.stopped || event is Stopped)
                &&& t.frame_ready == (s.frame_ready || event is FrameReady)
                &&& t.frame_failed == (s.frame_failed || event is FrameFailed)
            },
        forall|s: CursorState| #[trigger]
            call_ensures(CursorState::new, (), s) ==> !s.present && s.format is None && s.width == 0
                && s.height == 0 && !s.constraints_done && !s.stopped && !s.frame_ready
                && !s.frame_failed && s.x == 0 && s.y == 0 && s.hotspot_x == 0 && s.hotspot_y == 0,
{
}

/// A pointer is captured where there is one, at its size and in the format that
/// was offered; one that left or has no size is hidden, and a session that was
/// stopped is over.
pub proof fn pointers_that_are_there_are_captured()
    ensures
        forall|s: &mut CursorState, p: CursorPlan| #[trigger]
            call_ensures(CursorState::capture_cursor, (s,), p) ==> {
                &&& s.stopped <==> p == CursorPlan::Fail(CursorCaptureError::Stopped)
                &&& p matches CursorPlan::Hidden(c) ==> !c.visible && c.rgba@.len() == 0
                &&& p is Hidden <==> !s.stopped && (!s.present || s.width == 0 || s.height == 0)
                &&& p is Capture <==> !s.stopped && s.present && s.width > 0 && s.height > 0
                    && s.format is Some
                &&& p matches CursorPlan::Capture { width, height, stride, format } ==> {
                    &&& width == s.width && height == s.height && s.format == Some(format)
                    &&& stride >= 3 * width && stride <= 4 * width
                    &&& !final(s).frame_ready && !final(s).frame_failed
                }
                &&& !(p is Capture) ==> *final(s) == *s
                &&& final(s).present == s.present && final(s).x == s.x && final(s).y == s.y
                &&& final(s).hotspot_x == s.hotspot_x && final(s).hotspot_y == s.hotspot_y
            },
        forall|s: &CursorState, tries: usize, c: CursorStep| #[trigger]
            call_ensures(CursorState::step, (s, tries), c) ==> {
                &&& c is Read <==> tries <= 50 && s.frame_ready && !s.frame_failed
                &&& c is Wait <==> tries <= 50 && !s.frame_ready && !s.frame_failed
                &&& c is Fail <==> tries > 50 || s.frame_failed
            },
        forall|s: &CursorState, r: Result<(), CursorCaptureError>| #[trigger]
            call_ensures(CursorState::check_session, (s,), r) ==> {
                &&& r is Ok <==> !s.stopped && s.constraints_done
                &&& r matches Err(e) ==> (e is Stopped <==> s.stopped)
            },
{
}

/// A captured pointer is where it was told to be and shows the pixels that were
/// read, color by color: blue comes first but in the formats that say otherwise.
pub proof fn pointers_show_their_pixels(
    s: &CursorState,
    data: &[u8],
    width: u32,
    height: u32,
    stride: u32,
    format: u32,
    c: CursorCapture,
    rgba: Vec<u8>,
    x: int,
    y: int,
)
    requires
        screencopy::rows_lie_within(
            width as int,
            height as int,
            stride as int,
            screencopy::layout_of(format).bytes as int,
            data@.len() as int,
        ),
        call_ensures(CursorState::captured, (s, data, width, height, stride, format), c),
        call_ensures(
            read_shm_to_rgba_preserving_alpha,
            (data, width, height, stride, format),
            rgba,
        ),
        0 <= x < width,
        0 <= y < height,
    ensures
        c.visible,
        c.x == s.x && c.y == s.y,
        c.hotspot_x == s.hotspot_x && c.hotspot_y == s.hotspot_y,
        c.width == width && c.height == height,
        c.rgba@.len() == 4 * (width * height),
        ({
            let to = 4 * (y * width + x);
            let bytes: int = if format == screencopy::RGB888 || format == screencopy::BGR888 {
                3
            } else {
                4
            };
            let from = y * stride + x * bytes;
            let blue_last = format == screencopy::ABGR8888 || format == screencopy::XBGR8888
                || format == screencopy::BGR888;
            &&& c.rgba@[to + 1] == data@[from + 1]
            &&& blue_last ==> c.rgba@[to] == data@[from] && c.rgba@[to + 2] == data@[from + 2]
            &&& !blue_last ==> c.rgba@[to] == data@[from + 2] && c.rgba@[to + 2] == data@[from]
            &&& format == screencopy::SHM_ARGB8888 || format == screencopy::ARGB8888 || format
                == screencopy::ABGR8888 ==> c.rgba@[to + 3] == data@[from + 3]
            &&& format == screencopy::SHM_XRGB8888 || format == screencopy::XRGB8888 || format
                == screencopy::XBGR8888 || bytes == 3 ==> c.rgba@[to + 3] == 255
            &&& rgba@[to] == c.rgba@[to] && rgba@[to + 1] == c.rgba@[to + 1] && rgba@[to + 2]
                == c.rgba@[to + 2] && rgba@[to + 3] == c.rgba@[to + 3]
        }),
{
    let p = screencopy::rgba_pixel(c.rgba@, width as int, x, y);
    let q = screencopy::rgba_pixel(rgba@, width as int, x, y);
    let l = screencopy::layout_of(format);
    assert(p == screencopy::source_pixel(data@, y * stride + x * l.bytes, l, true));
    assert(q == screencopy::source_pixel(data@, y * stride + x * l.bytes, l, true));
}

/// What a session of pointers needs is found by its name, once, and no newer
/// than it is known; the first that is missing is told.
pub proof fn pointers_need_all_of_their_globals(
    interface: &str,
    version: u32,
    have_output: bool,
    have_seat: bool,
    g: Option<(CursorGlobal, u32)>,
    shm: bool,
    output: bool,
    seat: bool,
    source: bool,
    capture: bool,
    r: Result<(), CursorCaptureError>,
    e: &CaptureError,
    f: CursorCaptureError,
)
    requires
        call_ensures(cursor_global, (interface, version, have_output, have_seat), g),
        call_ensures(check_cursor_globals, (shm, output, seat, source, capture), r),
        call_ensures(CursorCaptureError::from_capture, (e,), f),
    ensures
        g matches Some(x) ==> {
            &&& x.1 <= version
            &&& x.0 is Shm ==> interface@ == "wl_shm"@ && x.1 <= 1
            &&& x.0 is Output ==> interface@ == "wl_output"@ && !have_output && x.1 <= 4
            &&& x.0 is Seat ==> interface@ == "wl_seat"@ && !have_seat && x.1 <= 8
            &&& x.0 is SourceManager ==> interface@
                == "ext_output_image_capture_source_manager_v1"@ && x.1 <= 1
            &&& x.0 is CaptureManager ==> interface@ == "ext_image_copy_capture_manager_v1"@ && x.1
                <= 1
        },
        interface@ == "wl_shm"@ ==> g is Some,
        interface@ == "wl_output"@ && !have_output ==> g is Some,
        interface@ == "wl_seat"@ && !have_seat ==> g is Some,
        interface@ == "ext_output_image_capture_source_manager_v1"@ ==> g is Some,
        interface@ == "ext_image_copy_capture_manager_v1"@ ==> g is Some,
        r is Ok <==> shm && output && seat && source && capture,
        r matches Err(x) ==> (x is NoShm ==> !shm) && (x is NoOutput ==> !output) && (x is NoSeat
            ==> !seat) && (x is NoSourceManager ==> !source) && (x is NoCaptureManager ==> !capture)
            && (x is NoShm || x is NoOutput || x is NoSeat || x is NoSourceManager
            || x is NoCaptureManager),
        !shm ==> (r matches Err(x) && x is NoShm),
        f is ShmError,
{
    reveal_strlit("wl_shm");
    reveal_strlit("wl_output");
    reveal_strlit("wl_seat");
    reveal_strlit("ext_output_image_capture_source_manager_v1");
    reveal_strlit("ext_image_copy_capture_manager_v1");
    assert("wl_shm"@.len() == 6 && "wl_output"@.len() == 9 && "wl_seat"@.len() == 7);
    assert("ext_output_image_capture_source_manager_v1"@.len() == 42);
    assert("ext_image_copy_capture_manager_v1"@.len() == 33);
}

/// An error that has a reason says it at its end, and none is silent.
pub proof fn cursor_errors_say_why(e: &CursorCaptureError, s: String)
    requires
        call_ensures(CursorCaptureError::message, (e,), s),
    ensures
        e matches CursorCaptureError::Connect(x) ==> text::has_suffix(s@, x@),
        e matches CursorCaptureError::Failed(x) ==> text::has_suffix(s@, x@),
        e matches CursorCaptureError::ShmError(x) ==> text::has_suffix(s@, x@),
        s@.len() > 0,
{
    reveal_strlit("wayland connect: ");
    reveal_strlit("capture failed: ");
    reveal_strlit("shm error: ");
    reveal_strlit("no wl_shm global");
    reveal_strlit("no wl_output global");
    reveal_strlit("no wl_seat global");
    reveal_strlit("no ext_output_image_capture_source_manager_v1 global (compositor lacks staging cursor-capture support)");
    reveal_strlit("no ext_image_copy_capture_manager_v1 global (compositor lacks staging cursor-capture support)");
    reveal_strlit("compositor never sent buffer constraints for the cursor session");
    reveal_strlit("cursor capture session stopped by the compositor");
    match *e {
        CursorCaptureError::Connect(x) => {
            assert(s@.skip(s@.len() - x@.len()) =~= x@);
        },
        CursorCaptureError::Failed(x) => {
            assert(s@.skip(s@.len() - x@.len()) =~= x@);
        },
        CursorCaptureError::ShmError(x) => {
            assert(s@.skip(s@.len() - x@.len()) =~= x@);
        },
        _ => {},
    }
}

} // verus!
