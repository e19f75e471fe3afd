//! The wire protocol: messages, framing, media headers and clipboard files.
pub mod clipboard_files;
pub mod frame;
pub mod input;
pub mod little_endian;
pub mod messages;
pub mod q2;
