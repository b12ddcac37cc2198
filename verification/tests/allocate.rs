use pangpang::profile::{Profile, Protocol};
use pangpang::session::builder::Builder;
use pangpang::session::session_allocate::{Allocator, Route};
use pangpang::session::ssh;
use pangpang::storage::{MockStorage, Storage};

fn ssh(host: &str, port: u16, transport: Option<String>) -> Profile {
    Profile {
        transport,
        protocol: Protocol::Ssh(ssh::Profile {
            address: host.to_string(),
            username: "u".to_string(),
            password: "pw".to_string(),
            port,
        }),
    }
}

#[test]
fn endpoint_without_transport_is_reached_directly() {
    let r = Allocator.ssh_alloc(&"host".to_string(), 22, None);
    assert_eq!(r, Route::Direct { address: "host".to_string(), port: 22 });
}

#[test]
fn endpoint_with_transport_is_reached_through_a_tunnel_to_itself() {
    let r = Allocator.ssh_alloc(&"inner".to_string(), 2222, Some("ssh://u@outer:22".to_string()));
    assert_eq!(
        r,
        Route::Tunnel {
            transport: "ssh://u@outer:22".to_string(),
            address: "inner".to_string(),
            port: 2222
        }
    );
    let p = ssh("inner", 2222, Some("ssh://u@outer:22".to_string()));
    assert_eq!(Allocator.route(&p), r);
}

#[test]
fn chain_is_established_one_through_the_other() {
    let a = ssh("a", 22, None);
    let b = ssh("b", 2022, Some(a.id()));
    let c = ssh("c", 3022, Some(b.id()));
    let (ia, ib, ic) = (a.id(), b.id(), c.id());
    let mut s = MockStorage::new();
    for p in [c, b, a] {
        s.put(p).unwrap();
    }
    let plan = Builder::new(s).resolve(&ic).unwrap();
    assert_eq!(
        Allocator.routes(&plan),
        vec![
            Route::Direct { address: "a".to_string(), port: 22 },
            Route::Tunnel { transport: ia, address: "b".to_string(), port: 2022 },
            Route::Tunnel { transport: ib, address: "c".to_string(), port: 3022 },
        ]
    );
}
