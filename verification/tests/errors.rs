use pangpang::errors::{Error, ErrorClass};

#[test]
fn every_error_has_its_family() {
    let s = || "x".to_string();
    assert_eq!(Error::ProfileNotFound(s()).class(), ErrorClass::Configuration);
    assert_eq!(Error::CyclicTransport(s()).class(), ErrorClass::Configuration);
    assert_eq!(Error::SshError(s()).class(), ErrorClass::Protocol);
    assert_eq!(Error::NotSupported(s()).class(), ErrorClass::Protocol);
    assert_eq!(Error::StdIoError(s()).class(), ErrorClass::Io);
    assert_eq!(Error::PpStreamError(s()).class(), ErrorClass::Io);
    assert_eq!(Error::WritePtyError(s()).class(), ErrorClass::Io);
    assert_eq!(Error::ReadPtyError(s()).class(), ErrorClass::Io);
    assert_eq!(Error::UrlParseError(s()).class(), ErrorClass::Proxy);
    assert_eq!(Error::HttpProxyConnectionLost.class(), ErrorClass::Proxy);
    assert_eq!(Error::HttpProxyServerError(s()).class(), ErrorClass::Proxy);
    assert_eq!(Error::HttpProxyRequestError(s()).class(), ErrorClass::Proxy);
}

#[test]
fn clone_of_an_error_is_the_error() {
    for e in [
        Error::StdIoError("a".to_string()),
        Error::SshError("b".to_string()),
        Error::PpStreamError("c".to_string()),
        Error::WritePtyError("d".to_string()),
        Error::ReadPtyError("e".to_string()),
        Error::ProfileNotFound("f".to_string()),
        Error::CyclicTransport("g".to_string()),
        Error::NotSupported("h".to_string()),
        Error::UrlParseError("i".to_string()),
        Error::HttpProxyConnectionLost,
        Error::HttpProxyServerError("j".to_string()),
        Error::HttpProxyRequestError("k".to_string()),
    ] {
        assert_eq!(e.clone(), e);
    }
}
