use pangpang::profile::{Capacity, Profile, ProfileId, Protocol};
use pangpang::session::{socks, ssh, telnet};

fn ssh_profile(user: &str, host: &str, port: u16, transport: Option<String>) -> Profile {
    Profile {
        transport,
        protocol: Protocol::Ssh(ssh::Profile {
            address: host.to_string(),
            username: user.to_string(),
            password: "secret".to_string(),
            port,
        }),
    }
}

#[test]
fn ssh_id_has_scheme_user_host_port() {
    let p = ssh_profile("root", "localhost", 22, None);
    assert_eq!(p.id(), "ssh://root@localhost:22");
}

#[test]
fn socks_id_has_no_user() {
    let p = Profile {
        transport: None,
        protocol: Protocol::Socks(socks::Profile { address: "10.0.0.1".to_string(), port: 1080 }),
    };
    assert_eq!(p.id(), "socks://10.0.0.1:1080");
}

#[test]
fn telnet_id_has_no_user() {
    let p = Profile {
        transport: None,
        protocol: Protocol::Telnet(telnet::Profile { address: "router".to_string(), port: 23 }),
    };
    assert_eq!(p.id(), "telnet://router:23");
}

#[test]
fn port_is_written_without_leading_zeros() {
    for (port, text) in [(0u16, "0"), (7, "7"), (10, "10"), (99, "99"), (100, "100"), (8022, "8022"), (10000, "10000"), (65535, "65535")] {
        let p = ssh_profile("u", "h", port, None);
        assert_eq!(p.id(), format!("ssh://u@h:{}", text));
    }
}

#[test]
fn ssh_allows_everything() {
    let c = ssh_profile("root", "localhost", 22, None).capacity();
    assert_eq!(c.bits(), 0b1111);
    assert!(c.contains(Capacity::session_cache()));
    assert!(c.contains(Capacity::terminal()));
    assert!(c.contains(Capacity::local_tunnel()));
    assert!(c.contains(Capacity::remote_tunnel()));
    assert!(c.cacheable());
}

#[test]
fn protocol_profiles_name_their_endpoint() {
    let p = ssh::Profile::default();
    assert_eq!(p.address, "localhost");
    assert_eq!(p.username, "root");
    assert_eq!(p.password, "123456");
    assert_eq!(p.port, 22);
    assert_eq!(ProfileId::id(&p), "root@localhost:22");
    let s = socks::Profile { address: "proxy".to_string(), port: 1080 };
    assert_eq!(ProfileId::id(&s), "proxy:1080");
    let t = telnet::Profile { address: "router".to_string(), port: 23 };
    assert_eq!(ProfileId::id(&t), "router:23");
    let whole = Profile { transport: None, protocol: Protocol::Ssh(p) };
    assert_eq!(ProfileId::id(&whole), "ssh://root@localhost:22");
}

#[test]
fn socks_and_telnet_allow_one_operation_each() {
    let s = Profile {
        transport: None,
        protocol: Protocol::Socks(socks::Profile { address: "proxy".to_string(), port: 1080 }),
    };
    assert_eq!(s.capacity(), Capacity::local_tunnel());
    assert_eq!(s.capacity().bits(), 0b0100);
    assert!(!s.capacity().cacheable());
    let t = Profile {
        transport: None,
        protocol: Protocol::Telnet(telnet::Profile { address: "router".to_string(), port: 23 }),
    };
    assert_eq!(t.capacity(), Capacity::terminal());
    assert_eq!(t.capacity().bits(), 0b0010);
    assert!(!t.capacity().cacheable());
}

#[test]
fn clone_keeps_every_field() {
    let p = ssh_profile("root", "localhost", 22, Some("ssh://jump@gate:22".to_string()));
    let q = p.clone();
    assert_eq!(p, q);
    assert_eq!(q.transport, Some("ssh://jump@gate:22".to_string()));
    assert_eq!(q.address(), "localhost");
    assert_eq!(q.port(), 22);
}
