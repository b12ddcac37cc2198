//! The remote-shell protocol.

pub mod profile;
pub mod ssh_tunnel_stream;

pub use profile::{Profile, ProfileView};

use vstd::prelude::*;

verus! {

/// The request for a terminal on a new shell channel.
#[derive(Debug, PartialEq, Eq)]
pub struct PtyRequest {
    /// The name of the terminal type.
    pub term: String,
    pub columns: u32,
    pub rows: u32,
    pub pixel_width: u32,
    pub pixel_height: u32,
}

/// The terminal that every new shell channel asks for: a 256-colour xterm
/// of 80 columns and 20 rows, which the first resize puts right.
pub fn pty_request() -> (r: PtyRequest)
    ensures
        r.term@ == "xterm-256color"@,
        r.columns == 80,
        r.rows == 20,
        r.pixel_width == 0,
        r.pixel_height == 0,
{
    PtyRequest {
        term: String::from_str("xterm-256color"),
        columns: 80,
        rows: 20,
        pixel_width: 0,
        pixel_height: 0,
    }
}

/// The sender that a tunnel names to the server: the local host, on the
/// protocol's own port.
pub fn tunnel_origin() -> (r: (String, u32))
    ensures
        r.0@ == "127.0.0.1"@,
        r.1 == 22,
{
    (String::from_str("127.0.0.1"), 22)
}

/// The size of a window as the protocol carries it: in 32 bits each way,
/// of which a larger number keeps the lower ones.
pub fn window_size(width: usize, height: usize) -> (r: (u32, u32))
    ensures
        r.0 == width as u32,
        r.1 == height as u32,
        width <= u32::MAX ==> r.0 == width,
        height <= u32::MAX ==> r.1 == height,
{
    (#[verifier::truncate] (width as u32), #[verifier::truncate] (height as u32))
}

} // verus!
