//! The local HTTP proxy: what becomes of each request.
//!
//! The proxy listens on a local address and is backed by one session. A
//! `CONNECT` request is answered at once, and its connection is then
//! spliced with a tunnel of the session to the host it names. Any other
//! request is passed on as an ordinary request, over a tunnel to the host
//! of its URI.

use vstd::prelude::*;
use crate::errors::{Error, ErrorView};
use crate::text::{copy_string, opt_view};

verus! {

/// The port of a `CONNECT` request, and of an `https` URI, that names none.
pub const HTTPS_PORT: u16 = 443;

/// The port of any other URI that names none.
pub const HTTP_PORT: u16 = 80;

/// A request URI: as it was written, and the parts that were read from it.
#[derive(Debug, PartialEq, Eq)]
pub struct Uri {
    pub text: String,
    pub scheme: Option<String>,
    pub host: Option<String>,
    pub port: Option<u16>,
}

/// The far end of a tunnel.
#[derive(Debug, PartialEq, Eq)]
pub struct Target {
    pub host: String,
    pub port: u16,
}

/// What becomes of a request.
#[derive(Debug, PartialEq, Eq)]
pub enum Forward {
    /// Answer with an empty success; then splice the connection of the
    /// request with one tunnel to this target.
    Tunnel(Target),
    /// Answer with an empty success; there is nothing to splice, for the
    /// request names no host.
    Nothing,
    /// Pass the request on as it is.
    Request,
}

/// The port that a request for `port` goes to, where `fallback` is the port
/// of requests that name none.
pub open spec fn port_or(port: Option<u16>, fallback: u16) -> u16 {
    match port {
        Some(p) => p,
        None => fallback,
    }
}

/// The port of a URI with this scheme that names none.
pub open spec fn default_port(scheme: Option<Seq<char>>) -> u16 {
    if scheme == Some("https"@) {
        HTTPS_PORT
    } else {
        HTTP_PORT
    }
}

/// What becomes of a request, where `closed` says whether the backing
/// session has lost its connection, and `connect` whether the method of
/// the request is `CONNECT`.
///
/// Behind a lost session every request fails with
/// `HttpProxyConnectionLost`. A `CONNECT` request is tunnelled to the host
/// of its URI, on the port it names or else on 443.
pub fn forward(closed: bool, connect: bool, uri: &Uri) -> (r: Result<Forward, Error>)
    ensures
        if closed {
            r matches Err(e) && e@ == ErrorView::HttpProxyConnectionLost
        } else if !connect {
            r == Ok::<Forward, Error>(Forward::Request)
        } else {
            match uri.host {
                Some(host) => r matches Ok(Forward::Tunnel(t)) && t.host@ == host@ && t.port
                    == port_or(uri.port, HTTPS_PORT),
                None => r == Ok::<Forward, Error>(Forward::Nothing),
            }
        },
{
    if closed {
        return Err(Error::HttpProxyConnectionLost);
    }
    if !connect {
        return Ok(Forward::Request);
    }
    match &uri.host {
        None => Ok(Forward::Nothing),
        Some(host) => {
            let port = match uri.port {
                Some(p) => p,
                None => HTTPS_PORT,
            };
            Ok(Forward::Tunnel(Target { host: copy_string(host), port }))
        },
    }
}

/// The target of the tunnel that carries an ordinary request for `uri`: the
/// host of the URI, on the port it names, or else on 443 for `https` and on
/// 80 for anything else. A URI without host fails with `UrlParseError` and
/// the URI as it was written.
pub fn connect_target(uri: &Uri) -> (r: Result<Target, Error>)
    ensures
        match uri.host {
            Some(host) => r matches Ok(t) && t.host@ == host@ && t.port == port_or(
                uri.port,
                default_port(opt_view(uri.scheme)),
            ),
            None => r matches Err(e) && e@ == ErrorView::UrlParseError(uri.text@),
        },
{
    match &uri.host {
        None => Err(Error::UrlParseError(copy_string(&uri.text))),
        Some(host) => {
            let port = match uri.port {
                Some(p) => p,
                None => {
                    let https = match &uri.scheme {
                        Some(s) => *s == String::from_str("https"),
                        None => false,
                    };
                    if https {
                        HTTPS_PORT
                    } else {
                        HTTP_PORT
                    }
                },
            };
            Ok(Target { host: copy_string(host), port })
        },
    }
}

} // verus!
