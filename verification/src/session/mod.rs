//! Sessions: live handles to endpoints, and the bookkeeping that shares them.

pub mod builder;
pub mod manager;
pub mod pty_guard;
pub mod session_allocate;
pub mod session_guard;
pub mod state;
pub mod sharing;
pub mod socks;
pub mod ssh;
pub mod telnet;
