//! The client: connecting, displaying, and managing sessions.
pub mod args;
pub mod connection;
pub mod desktop;
pub mod display;
pub mod manager;
pub mod overlay;
pub mod profile;
pub mod single_instance;
pub mod tray;
