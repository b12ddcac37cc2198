//! Forwarding of local connections through a session.

pub mod http_proxy;
