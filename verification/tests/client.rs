use pangpang::errors::Error;
use pangpang::session::manager::{OpenStep, Released};
use pangpang::session::session_guard::{ChannelHandle, SessionHandle};
use pangpang::session::ssh::ssh_tunnel_stream::{AfterMessage, ChannelMsg, ReadStep, SshTunnelStream};
use pangpang::storage::MockStorage;
use pangpang::terminal::msg::PpTerminalMessage;
use pangpang::terminal::{handle_input, Action, SelectionProbe};
use pangpang::PangPang;

#[test]
fn terminal_session_comes_and_goes_with_its_guard() {
    let mut pp = PangPang::new(MockStorage::default());
    let id = "ssh://root@localhost:22".to_string();

    // The terminal is asked for: the endpoint is connected, and a terminal
    // channel is opened on the session.
    let ticket = match pp.open_terminal(&id) {
        Ok(OpenStep::Connect(t)) => t,
        other => panic!("unexpected answer {:?}", other),
    };
    let guard = pp.sessions().finish_open(ticket, Ok(SessionHandle(1))).result.unwrap();
    let pty = pp.sessions().attach_pty(guard, Ok(ChannelHandle(1))).unwrap();
    assert_eq!(pp.sessions().refcount(&id), 1);

    // The user types a command.
    let none = SelectionProbe { selected: false, ranged: false, hit: false, text: false };
    let typed = handle_input(PpTerminalMessage::Input(b"ls\n".to_vec()), none);
    assert_eq!(typed[0], Action::WritePty(b"ls\n".to_vec()));

    // The other side answers, and the answer is read up to the prompt.
    let mut stream = SshTunnelStream::new();
    assert_eq!(stream.poll_read(1500), ReadStep::Wait);
    let answer = b"file.txt\r\nroot@localhost:~# ".to_vec();
    assert_eq!(stream.on_message(Some(ChannelMsg::Data(answer.clone()))), AfterMessage::Again);
    let mut read = Vec::new();
    while !read.ends_with(b"# ") {
        match stream.poll_read(8) {
            ReadStep::Ready(bytes) => read.extend(bytes),
            ReadStep::Wait => panic!("the answer was cut short"),
        }
    }
    assert_eq!(read, answer);

    // The window is resized.
    assert_eq!(
        handle_input(PpTerminalMessage::ReSize(100, 40), none),
        vec![Action::ResizeTerm(100, 40), Action::ResizePty(100, 40)]
    );

    // The terminal is dropped: the session leaves the cache.
    assert_eq!(pp.sessions().release_pty(pty), (ChannelHandle(1), Released::Close(SessionHandle(1))));
    assert_eq!(pp.sessions().refcount(&id), 0);
    assert_eq!(pp.sessions().session(&id), None);
    assert_eq!(pp.sessions().len(), 0);
}

#[test]
fn proxy_session_is_shared_with_terminals() {
    let mut pp = PangPang::new(MockStorage::default());
    let id = "ssh://root@localhost:22".to_string();
    let ticket = match pp.local_http_proxy(&id) {
        Ok(OpenStep::Connect(t)) => t,
        other => panic!("unexpected answer {:?}", other),
    };
    assert!(matches!(pp.open_terminal(&id), Ok(OpenStep::Wait)));
    let proxy = pp.sessions().finish_open(ticket, Ok(SessionHandle(5))).result.unwrap();
    let term = match pp.open_terminal(&id) {
        Ok(OpenStep::Ready(g)) => g,
        other => panic!("unexpected answer {:?}", other),
    };
    assert_eq!(term.session(), SessionHandle(5));
    assert_eq!(pp.sessions().release(proxy), Released::StillShared);
    assert_eq!(pp.sessions().release(term), Released::Close(SessionHandle(5)));
}

#[test]
fn unknown_profile_has_no_terminal() {
    let mut pp = PangPang::new(MockStorage::default());
    let id = "ssh://root@elsewhere:22".to_string();
    assert_eq!(pp.open_terminal(&id).unwrap_err(), Error::ProfileNotFound(id.clone()));
    assert_eq!(pp.local_http_proxy(&id).unwrap_err(), Error::ProfileNotFound(id.clone()));
}
