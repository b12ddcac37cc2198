use pangpang::errors::Error;
use pangpang::profile::{Profile, Protocol};
use pangpang::session::manager::{OpenStep, PpSessionManager, Released, Ticket};
use pangpang::session::session_guard::{ChannelHandle, PpSessionGuard, SessionHandle};
use pangpang::session::{socks, ssh, telnet};
use pangpang::storage::{MockStorage, Storage};

fn ssh(user: &str, host: &str, port: u16, transport: Option<&str>) -> Profile {
    Profile {
        transport: transport.map(|t| t.to_string()),
        protocol: Protocol::Ssh(ssh::Profile {
            address: host.to_string(),
            username: user.to_string(),
            password: "pw".to_string(),
            port,
        }),
    }
}

fn store(profiles: Vec<Profile>) -> MockStorage {
    let mut s = MockStorage::new();
    for p in profiles {
        s.put(p).unwrap();
    }
    s
}

fn ticket(step: Result<OpenStep, Error>) -> Ticket {
    match step {
        Ok(OpenStep::Connect(t)) => t,
        other => panic!("expected a ticket, got {:?}", other),
    }
}

fn guard(step: Result<OpenStep, Error>) -> PpSessionGuard {
    match step {
        Ok(OpenStep::Ready(g)) => g,
        other => panic!("expected a guard, got {:?}", other),
    }
}

const ROOT: &str = "ssh://root@localhost:22";

#[test]
fn first_request_connects_and_later_ones_share() {
    let mut m = PpSessionManager::new(MockStorage::default());
    let id = ROOT.to_string();
    let t = ticket(m.open_session(&id));
    assert!(t.cached());
    assert_eq!(t.id(), ROOT);
    assert!(m.is_connecting(&id));
    assert_eq!(m.refcount(&id), 0);

    let done = m.finish_open(t, Ok(SessionHandle(7)));
    assert!(done.wake_waiters);
    let g1 = done.result.unwrap();
    assert_eq!(g1.session(), SessionHandle(7));
    assert_eq!(g1.id(), &Some(id.clone()));
    assert!(!m.is_connecting(&id));
    assert_eq!(m.refcount(&id), 1);

    let g2 = guard(m.open_session(&id));
    let g3 = guard(m.open_session(&id));
    assert_eq!(g2.session(), SessionHandle(7));
    assert_eq!(g3.session(), SessionHandle(7));
    assert_eq!(m.refcount(&id), 3);
    assert_eq!(m.len(), 1);

    assert_eq!(m.release(g1), Released::StillShared);
    assert_eq!(m.release(g3), Released::StillShared);
    assert_eq!(m.refcount(&id), 1);
    assert_eq!(m.release(g2), Released::Close(SessionHandle(7)));
    assert_eq!(m.refcount(&id), 0);
    assert_eq!(m.session(&id), None);
    assert_eq!(m.len(), 0);
}

#[test]
fn concurrent_requests_make_one_connection() {
    let mut m = PpSessionManager::new(MockStorage::default());
    let id = ROOT.to_string();
    let n = 5;
    let mut tickets = Vec::new();
    let mut waiting = 0;
    for _ in 0..n {
        match m.open_session(&id) {
            Ok(OpenStep::Connect(t)) => tickets.push(t),
            Ok(OpenStep::Wait) => waiting += 1,
            other => panic!("unexpected answer {:?}", other),
        }
    }
    assert_eq!(tickets.len(), 1);
    assert_eq!(waiting, n - 1);

    let done = m.finish_open(tickets.pop().unwrap(), Ok(SessionHandle(1)));
    assert!(done.wake_waiters);
    let mut guards = vec![done.result.unwrap()];
    for _ in 0..waiting {
        guards.push(guard(m.open_session(&id)));
    }
    assert_eq!(guards.len(), n);
    assert!(guards.iter().all(|g| g.session() == SessionHandle(1)));
    assert_eq!(m.refcount(&id), n);

    let mut closed = 0;
    for g in guards {
        if let Released::Close(s) = m.release(g) {
            assert_eq!(s, SessionHandle(1));
            closed += 1;
        }
    }
    assert_eq!(closed, 1);
    assert_eq!(m.refcount(&id), 0);
    assert_eq!(m.len(), 0);
}

#[test]
fn failed_connection_frees_the_waiters() {
    let mut m = PpSessionManager::new(MockStorage::default());
    let id = ROOT.to_string();
    let t = ticket(m.open_session(&id));
    assert!(matches!(m.open_session(&id), Ok(OpenStep::Wait)));

    let done = m.finish_open(t, Err(Error::SshError("auth failed".to_string())));
    assert!(done.wake_waiters);
    assert_eq!(done.result.unwrap_err(), Error::SshError("auth failed".to_string()));
    assert!(!m.is_connecting(&id));
    assert_eq!(m.len(), 0);

    // The waiter asks again and is now the one that connects.
    let t = ticket(m.open_session(&id));
    assert!(m.is_connecting(&id));
    let g = m.finish_open(t, Ok(SessionHandle(2))).result.unwrap();
    assert_eq!(m.release(g), Released::Close(SessionHandle(2)));
}

#[test]
fn unknown_profile_is_not_found() {
    let mut m = PpSessionManager::new(MockStorage::default());
    let id = "ssh://nobody@nowhere:22".to_string();
    assert_eq!(m.open_session(&id).unwrap_err(), Error::ProfileNotFound(id.clone()));
    assert!(!m.is_connecting(&id));
}

#[test]
fn unshared_profile_is_connected_for_every_request() {
    let socks = Profile {
        transport: None,
        protocol: Protocol::Socks(socks::Profile { address: "proxy".to_string(), port: 1080 }),
    };
    let id = socks.id();
    let mut m = PpSessionManager::new(store(vec![socks]));
    let t1 = ticket(m.open_session(&id));
    let t2 = ticket(m.open_session(&id));
    assert!(!t1.cached());
    assert!(!t2.cached());
    assert!(!m.is_connecting(&id));

    let d1 = m.finish_open(t1, Ok(SessionHandle(1)));
    assert!(!d1.wake_waiters);
    let g1 = d1.result.unwrap();
    let g2 = m.finish_open(t2, Ok(SessionHandle(2))).result.unwrap();
    assert_eq!(g1.id(), &None);
    assert!(!g1.is_cached());
    assert_eq!(m.len(), 0);
    assert_eq!(m.release(g1), Released::Close(SessionHandle(1)));
    assert_eq!(m.release(g2), Released::Close(SessionHandle(2)));
    assert_eq!(m.len(), 0);
}

#[test]
fn profile_whose_transport_is_itself_is_refused() {
    let mut p = ssh("root", "loop", 22, None);
    let id = p.id();
    p.transport = Some(id.clone());
    let mut m = PpSessionManager::new(store(vec![p]));
    assert_eq!(m.open_session(&id).unwrap_err(), Error::CyclicTransport(id.clone()));
    assert!(!m.is_connecting(&id));
    assert_eq!(m.len(), 0);
}

#[test]
fn chain_keeps_the_transports_alive() {
    let a = ssh("u", "a", 22, None);
    let b = ssh("u", "b", 22, Some(&a.id()));
    let c = ssh("u", "c", 22, Some(&b.id()));
    let (ia, ib, ic) = (a.id(), b.id(), c.id());
    let mut m = PpSessionManager::new(store(vec![a, b, c]));

    // C is asked for: its ticket names the chain A, B, C.
    let tc = ticket(m.open_session(&ic));
    let hops: Vec<String> = tc.plan().iter().map(|h| h.id.clone()).collect();
    assert_eq!(hops, vec![ia.clone(), ib.clone(), ic.clone()]);

    // The caller connects B for it, which needs A.
    let tb = ticket(m.open_tunnel(&ib));
    let ta = ticket(m.open_tunnel(&ia));
    let ga = m.finish_open(ta, Ok(SessionHandle(1))).result.unwrap();
    let tunnel_ab = m.attach_tunnel(ga, Ok(ChannelHandle(10))).unwrap();
    let gb = m.finish_open(tb, Ok(SessionHandle(2))).result.unwrap();
    let tunnel_bc = m.attach_tunnel(gb, Ok(ChannelHandle(20))).unwrap();
    let gc = m.finish_open(tc, Ok(SessionHandle(3))).result.unwrap();
    assert_eq!((m.refcount(&ia), m.refcount(&ib), m.refcount(&ic)), (1, 1, 1));

    // Somebody else uses B directly.
    let other_b = guard(m.open_session(&ib));
    assert_eq!(m.refcount(&ib), 2);

    // C's guard goes: C is closed, A and B are untouched.
    assert_eq!(m.release(gc), Released::Close(SessionHandle(3)));
    assert_eq!((m.refcount(&ia), m.refcount(&ib), m.refcount(&ic)), (1, 2, 0));

    // Session C falls, and with it the tunnel through B that carried it.
    assert_eq!(m.release_tunnel(tunnel_bc), (ChannelHandle(20), Released::StillShared));
    assert_eq!(m.session(&ib), Some(SessionHandle(2)));
    assert_eq!(m.release(other_b), Released::Close(SessionHandle(2)));
    assert_eq!(m.release_tunnel(tunnel_ab), (ChannelHandle(10), Released::Close(SessionHandle(1))));
    assert_eq!(m.len(), 0);
}

#[test]
fn terminal_needs_a_profile_that_allows_it() {
    let socks = Profile {
        transport: None,
        protocol: Protocol::Socks(socks::Profile { address: "proxy".to_string(), port: 1080 }),
    };
    let telnet = Profile {
        transport: None,
        protocol: Protocol::Telnet(telnet::Profile { address: "router".to_string(), port: 23 }),
    };
    let (is, it) = (socks.id(), telnet.id());
    let mut m = PpSessionManager::new(store(vec![socks, telnet]));
    assert_eq!(m.open_pty(&is).unwrap_err(), Error::NotSupported(is.clone()));
    assert_eq!(m.open_tunnel(&it).unwrap_err(), Error::NotSupported(it.clone()));
    assert!(!ticket(m.open_pty(&it)).cached());
    assert!(!ticket(m.open_tunnel(&is)).cached());
    let missing = "telnet://nowhere:23".to_string();
    assert_eq!(m.open_pty(&missing).unwrap_err(), Error::ProfileNotFound(missing.clone()));
}

#[test]
fn pty_session_leaves_the_cache_with_its_guard() {
    let mut m = PpSessionManager::new(MockStorage::default());
    let id = ROOT.to_string();
    let t = ticket(m.open_pty(&id));
    let g = m.finish_open(t, Ok(SessionHandle(9))).result.unwrap();
    let pty = m.attach_pty(g, Ok(ChannelHandle(1))).unwrap();
    assert_eq!(pty.channel(), ChannelHandle(1));
    assert_eq!(pty.session().session(), SessionHandle(9));
    assert_eq!(m.refcount(&id), 1);
    assert_eq!(m.release_pty(pty), (ChannelHandle(1), Released::Close(SessionHandle(9))));
    assert_eq!(m.session(&id), None);
    assert_eq!(m.len(), 0);
}

#[test]
fn channel_that_fails_to_open_gives_the_guard_back() {
    let mut m = PpSessionManager::new(MockStorage::default());
    let id = ROOT.to_string();
    let t = ticket(m.open_session(&id));
    let g1 = m.finish_open(t, Ok(SessionHandle(4))).result.unwrap();
    let g2 = guard(m.open_pty(&id));
    let failed = m.attach_pty(g2, Err(Error::SshError("no more channels".to_string()))).unwrap_err();
    assert_eq!(failed.error, Error::SshError("no more channels".to_string()));
    assert_eq!(failed.released, Released::StillShared);
    assert_eq!(m.refcount(&id), 1);
    let failed = m.attach_tunnel(g1, Err(Error::SshError("refused".to_string()))).unwrap_err();
    assert_eq!(failed.released, Released::Close(SessionHandle(4)));
    assert_eq!(m.len(), 0);
}
