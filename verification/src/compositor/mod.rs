//! The compositor side of a session: launching it, capturing its frames and
//! pointer, injecting input, and listing its windows.
pub mod backend;
pub mod cursor_capture;
pub mod input;
pub mod output_resize;
pub mod screencopy;
pub mod session;
pub mod toplevels;
