//! Video and audio codecs: backend choice, tuning and frame handling.
pub mod audio;
pub mod decoder;
pub mod encoder;
