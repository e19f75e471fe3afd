//! The core of the mobile client: reaching a server, opening a session, and
//! handing its packets on to the platform, which decodes and shows them.
pub mod client;
pub mod error;
pub mod session;
pub mod transport;
pub mod types;
