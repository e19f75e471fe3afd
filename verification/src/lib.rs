//! Termland: the verified parts of a Wayland remote desktop.
//!
//! [`protocol`] holds what goes over the wire, [`codec`] the choice and tuning
//! of video and audio codecs, [`client`] the desktop client and its session
//! manager, [`compositor`] the server's side of a session, and [`mobile`] the
//! core of the mobile client. Reading, writing, waiting and drawing on a screen
//! are left to the programs around the library: these modules decide what is
//! read, written, awaited and drawn.
pub mod client;
pub mod codec;
pub mod compositor;
pub mod mobile;
pub mod paths;
pub mod pixels;
pub mod protocol;
pub mod text;
