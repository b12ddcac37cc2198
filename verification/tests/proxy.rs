use pangpang::errors::Error;
use pangpang::forward::http_proxy::{connect_target, forward, Forward, Target, Uri};

fn uri(text: &str, scheme: Option<&str>, host: Option<&str>, port: Option<u16>) -> Uri {
    Uri {
        text: text.to_string(),
        scheme: scheme.map(|s| s.to_string()),
        host: host.map(|s| s.to_string()),
        port,
    }
}

fn target(host: &str, port: u16) -> Target {
    Target { host: host.to_string(), port }
}

#[test]
fn connect_acquires_one_tunnel_to_the_named_host() {
    let u = uri("example.com:443", None, Some("example.com"), Some(443));
    assert_eq!(forward(false, true, &u), Ok(Forward::Tunnel(target("example.com", 443))));
}

#[test]
fn connect_without_port_goes_to_443() {
    let u = uri("example.com", None, Some("example.com"), None);
    assert_eq!(forward(false, true, &u), Ok(Forward::Tunnel(target("example.com", 443))));
    let u = uri("example.com:8443", None, Some("example.com"), Some(8443));
    assert_eq!(forward(false, true, &u), Ok(Forward::Tunnel(target("example.com", 8443))));
}

#[test]
fn connect_without_host_is_answered_and_dropped() {
    let u = uri("/", None, None, None);
    assert_eq!(forward(false, true, &u), Ok(Forward::Nothing));
}

#[test]
fn lost_session_fails_every_request() {
    let u = uri("example.com:443", None, Some("example.com"), Some(443));
    assert_eq!(forward(true, true, &u), Err(Error::HttpProxyConnectionLost));
    assert_eq!(forward(true, false, &u), Err(Error::HttpProxyConnectionLost));
}

#[test]
fn other_requests_are_passed_on() {
    let u = uri("http://example.com/index.html", Some("http"), Some("example.com"), None);
    assert_eq!(forward(false, false, &u), Ok(Forward::Request));
}

#[test]
fn connector_takes_the_port_of_the_scheme() {
    let u = uri("http://example.com/", Some("http"), Some("example.com"), None);
    assert_eq!(connect_target(&u), Ok(target("example.com", 80)));
    let u = uri("https://example.com/", Some("https"), Some("example.com"), None);
    assert_eq!(connect_target(&u), Ok(target("example.com", 443)));
    let u = uri("ftp://example.com/", Some("ftp"), Some("example.com"), None);
    assert_eq!(connect_target(&u), Ok(target("example.com", 80)));
    let u = uri("//example.com/", None, Some("example.com"), None);
    assert_eq!(connect_target(&u), Ok(target("example.com", 80)));
    let u = uri("https://example.com:8443/", Some("https"), Some("example.com"), Some(8443));
    assert_eq!(connect_target(&u), Ok(target("example.com", 8443)));
}

#[test]
fn connector_refuses_a_uri_without_host() {
    let u = uri("/index.html", None, None, Some(80));
    assert_eq!(connect_target(&u), Err(Error::UrlParseError("/index.html".to_string())));
}
