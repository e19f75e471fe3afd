//! Changing the size of a session's output while it runs, so that its programs
//! see an ordinary change and live on.
use vstd::prelude::*;
use crate::compositor::screencopy;
use crate::compositor::screencopy::{after, min_version};
use crate::text;

verus! {

/// Why the size could not be changed.
#[derive(Debug, Clone)]
pub enum ResizeError {
    Connect(String),
    NoManager,
    NoHead,
    ApplyFailed(String),
    Timeout,
}

impl ResizeError {
    /// What the error says.
    pub open spec fn text(self) -> Seq<char> {
        match self {
            ResizeError::Connect(e) => "wayland connect: "@ + e@,
            ResizeError::NoManager => "no output manager global"@,
            ResizeError::NoHead => "no head found"@,
            ResizeError::ApplyFailed(e) => "apply failed: "@ + e@,
            ResizeError::Timeout => "timed out waiting for manager/head discovery"@,
        }
    }

    /// Writes what the error says.
    pub fn message(&self) -> (s: String)
        ensures
            s@ == self.text(),
    {
        match self {
            ResizeError::Connect(e) => after("wayland connect: ", e),
            ResizeError::NoManager => String::from_str("no output manager global"),
            ResizeError::NoHead => String::from_str("no head found"),
            ResizeError::ApplyFailed(e) => after("apply failed: ", e),
            ResizeError::Timeout => String::from_str(
                "timed out waiting for manager/head discovery",
            ),
        }
    }
}

/// What the compositor answered to a configuration.
#[derive(Debug, Clone, Copy, PartialEq, Eq, Structural)]
pub enum ApplyResult {
    Succeeded,
    Failed,
    Cancelled,
}

/// What the compositor says of its outputs.
#[derive(Debug, Clone, Copy, PartialEq, Eq, Structural)]
pub enum OutputEvent {
    /// There is an output, under this number.
    Head(u32),
    /// The outputs are announced, as of this serial.
    Done(u32),
    Answer(ApplyResult),
}

/// What is known of the outputs.
#[derive(Debug, Clone, Copy, PartialEq, Eq, Structural)]
pub struct OutputState {
    pub manager: bool,
    /// The output to change: the first, as there is only one.
    pub head: Option<u32>,
    /// The serial that a configuration is made with.
    pub serial: Option<u32>,
    pub last_apply_result: Option<ApplyResult>,
}

/// How long to wait for the outputs, in milliseconds.
pub const DISCOVERY_MS: u64 = 2000;

/// How long to wait for an answer, in milliseconds.
pub const APPLY_MS: u64 = 3000;

/// What to do while waiting.
#[derive(Debug, Clone)]
pub enum ResizeStep {
    Wait,
    Done,
    Fail(ResizeError),
}

/// A configuration to apply: the output, its serial, and the mode, with the
/// refresh rate in thousandths of a hertz.
#[derive(Debug, Clone, Copy, PartialEq, Eq, Structural)]
pub struct Configuration {
    pub serial: u32,
    pub head: u32,
    pub width: i32,
    pub height: i32,
    pub refresh: i32,
}

impl OutputState {
    /// Before anything is known.
    pub fn new() -> (s: OutputState)
        ensures
            s == (OutputState {
                manager: false,
                head: None,
                serial: None,
                last_apply_result: None,
            }),
    {
        OutputState { manager: false, head: None, serial: None, last_apply_result: None }
    }

    /// The version at which to bind an announced interface, where it is the
    /// manager of the outputs.
    pub fn global(interface: &str, version: u32) -> (v: Option<u32>)
        ensures
            v == (if interface@ == "zwlr_output_manager_v1"@ {
                Some(screencopy::lower(version, 4))
            } else {
                None
            }),
    {
        if text::same_text(interface, "zwlr_output_manager_v1") {
            Some(min_version(version, 4))
        } else {
            None
        }
    }

    /// Takes an event.
    pub fn event(&mut self, event: OutputEvent)
        ensures
            *final(self) == (match event {
                OutputEvent::Head(h) => OutputState {
                    head: if old(self).head is None {
                        Some(h)
                    } else {
                        old(self).head
                    },
                    ..*old(self)
                },
                OutputEvent::Done(serial) => OutputState { serial: Some(serial), ..*old(self) },
                OutputEvent::Answer(a) => OutputState { last_apply_result: Some(a), ..*old(self) },
            }),
    {
        match event {
            OutputEvent::Head(h) => {
                if self.head.is_none() {
                    self.head = Some(h);
                }
            },
            OutputEvent::Done(serial) => {
                self.serial = Some(serial);
            },
            OutputEvent::Answer(a) => {
                self.last_apply_result = Some(a);
            },
        }
    }

    /// What to do while the outputs are announced. An output without a serial
    /// will do once the time is up.
    pub fn discovery_step(&self, elapsed_ms: u64) -> (s: ResizeStep)
        ensures
            if !self.manager {
                s == ResizeStep::Fail(ResizeError::NoManager)
            } else if (self.head is None || self.serial is None) && elapsed_ms < DISCOVERY_MS {
                s is Wait
            } else if self.head is None {
                s == ResizeStep::Fail(ResizeError::NoHead)
            } else {
                s is Done
            },
    {
        if !self.manager {
            ResizeStep::Fail(ResizeError::NoManager)
        } else if (self.head.is_none() || self.serial.is_none()) && elapsed_ms < DISCOVERY_MS {
            ResizeStep::Wait
        } else if self.head.is_none() {
            ResizeStep::Fail(ResizeError::NoHead)
        } else {
            ResizeStep::Done
        }
    }

    /// The configuration that changes the size. An answer to an earlier one no
    /// longer counts.
    pub fn resize(&mut self, width: u32, height: u32) -> (r: Result<Configuration, ResizeError>)
        ensures
            if !old(self).manager {
                r == Err::<Configuration, ResizeError>(ResizeError::NoManager) && *final(self)
                    == *old(self)
            } else if old(self).head is None {
                r == Err::<Configuration, ResizeError>(ResizeError::NoHead) && *final(self)
                    == *old(self)
            } else if old(self).serial is None {
                r == Err::<Configuration, ResizeError>(ResizeError::NoManager) && *final(self)
                    == *old(self)
            } else {
                &&& r == Ok::<Configuration, ResizeError>(
                    Configuration {
                        serial: old(self).serial->0,
                        head: old(self).head->0,
                        width: width as i32,
                        height: height as i32,
                        refresh: 60_000,
                    },
                )
                &&& *final(self) == (OutputState { last_apply_result: None, ..*old(self) })
            },
    {
        if !self.manager {
            return Err(ResizeError::NoManager);
        }
        match self.head {
            None => Err(ResizeError::NoHead),
            Some(head) => match self.serial {
                None => Err(ResizeError::NoManager),
                Some(serial) => {
                    self.last_apply_result = None;
                    Ok(
                        Configuration {
                            serial,
                            head,
                            width: width as i32,
                            height: height as i32,
                            refresh: 60_000,
                        },
                    )
                },
            },
        }
    }

    /// What to do while the answer is awaited.
    pub fn apply_step(&self, elapsed_ms: u64) -> (s: ResizeStep)
        ensures
            match self.last_apply_result {
                None => if elapsed_ms < APPLY_MS {
                    s is Wait
                } else {
                    s == ResizeStep::Fail(ResizeError::Timeout)
                },
                Some(ApplyResult::Succeeded) => s is Done,
                Some(ApplyResult::Failed) => s matches ResizeStep::Fail(
                    ResizeError::ApplyFailed(e),
                ) && e@ == "compositor reported Failed"@,
                Some(ApplyResult::Cancelled) => s matches ResizeStep::Fail(
                    ResizeError::ApplyFailed(e),
                ) && e@ == "compositor reported Cancelled"@,
            },
    {
        match self.last_apply_result {
            None => if elapsed_ms < APPLY_MS {
                ResizeStep::Wait
            } else {
                ResizeStep::Fail(ResizeError::Timeout)
            },
            Some(ApplyResult::Succeeded) => ResizeStep::Done,
            Some(ApplyResult::Failed) => ResizeStep::Fail(
                ResizeError::ApplyFailed(String::from_str("compositor reported Failed")),
            ),
            Some(ApplyResult::Cancelled) => ResizeStep::Fail(
                ResizeError::ApplyFailed(String::from_str("compositor reported Cancelled")),
            ),
        }
    }
}

/// The first screen that appears is the one that is resized, under the newest
/// serial, to the size that was asked for; an old answer does not count for a
/// new request.
pub proof fn the_screen_gets_the_size_asked_for()
    ensures
        forall|s: &mut OutputState, w: u32, h: u32, r: Result<Configuration, ResizeError>| #[trigger]
            call_ensures(OutputState::resize, (s, w, h), r) ==> {
                &&& r is Ok <==> s.manager && s.head is Some && s.serial is Some
                &&& r matches Ok(c) ==> {
                    &&& Some(c.head) == s.head && Some(c.serial) == s.serial
                    &&& w <= i32::MAX ==> c.width == w
                    &&& h <= i32::MAX ==> c.height == h
                    &&& c.refresh == 60_000
                    &&& final(s).last_apply_result is None
                }
                &&& r matches Err(e) ==> *final(s) == *s
                &&& r matches Err(e) ==> (e is NoHead <==> s.manager && s.head is None)
                &&& r matches Err(e) ==> (e is NoManager <==> !s.manager || s.head is Some)
                &&& final(s).manager == s.manager && final(s).head == s.head && final(s).serial
                    == s.serial
            },
        forall|s: &mut OutputState, event: OutputEvent| #[trigger]
            call_ensures(OutputState::event, (s, event), ()) ==> {
                &&& event matches OutputEvent::Head(h) ==> (s.head is None ==> final(s).head
                    == Some(h)) && final(s).serial == s.serial && final(s).last_apply_result
                    == s.last_apply_result
                &&& s.head is Some ==> final(s).head == s.head
                &&& event matches OutputEvent::Done(n) ==> final(s).serial == Some(n)
                    && final(s).head == s.head && final(s).last_apply_result == s.last_apply_result
                &&& event matches OutputEvent::Answer(a) ==> final(s).last_apply_result == Some(a)
                    && final(s).head == s.head && final(s).serial == s.serial
                &&& final(s).manager == s.manager
            },
        forall|s: OutputState| #[trigger]
            call_ensures(OutputState::new, (), s) ==> !s.manager && s.head is None
                && s.serial is None && s.last_apply_result is None,
{
}

/// Screens are waited for two seconds and an answer for three; a manager that is
/// missing is waited for never, and an answer that came never longer.
pub proof fn waits_end(
    s: &OutputState,
    elapsed_ms: u64,
    d: ResizeStep,
    a: ResizeStep,
    interface: &str,
    version: u32,
    v: Option<u32>,
)
    requires
        call_ensures(OutputState::discovery_step, (s, elapsed_ms), d),
        call_ensures(OutputState::apply_step, (s, elapsed_ms), a),
        call_ensures(OutputState::global, (interface, version), v),
    ensures
        d is Wait <==> s.manager && (s.head is None || s.serial is None) && elapsed_ms < 2000,
        d is Done <==> s.manager && s.head is Some && (s.serial is Some || elapsed_ms >= 2000),
        d matches ResizeStep::Fail(e) ==> (e is NoManager <==> !s.manager) && (e is NoHead
            <==> s.manager && s.head is None),
        a is Wait <==> s.last_apply_result is None && elapsed_ms < 3000,
        a is Done <==> s.last_apply_result == Some(ApplyResult::Succeeded),
        a matches ResizeStep::Fail(e) ==> (e is Timeout <==> s.last_apply_result is None) && (
        e is ApplyFailed <==> s.last_apply_result is Some),
        v is Some <==> interface@ == "zwlr_output_manager_v1"@,
        v matches Some(n) ==> n <= version && n <= 4 && (n == version || n == 4),
{
}

/// An error that has a reason says it at its end, and none is silent.
pub proof fn resize_errors_say_why(e: &ResizeError, s: String)
    requires
        call_ensures(ResizeError::message, (e,), s),
    ensures
        e matches ResizeError::Connect(x) ==> text::has_suffix(s@, x@),
        e matches ResizeError::ApplyFailed(x) ==> text::has_suffix(s@, x@),
        s@.len() > 0,
{
    reveal_strlit("wayland connect: ");
    reveal_strlit("apply failed: ");
    reveal_strlit("no output manager global");
    reveal_strlit("no head found");
    reveal_strlit("timed out waiting for manager/head discovery");
    match *e {
        ResizeError::Connect(x) => {
            assert(s@.skip(s@.len() - x@.len()) =~= x@);
        },
        ResizeError::ApplyFailed(x) => {
            assert(s@.skip(s@.len() - x@.len()) =~= x@);
        },
        _ => {},
    }
}

} // verus!
