use pangpang::errors::Error;
use pangpang::profile::{Profile, Protocol};
use pangpang::session::ssh;
use pangpang::storage::{MockStorage, ProfileMap, Storage, YamlStorage};

fn ssh(user: &str, host: &str, port: u16, password: &str) -> Profile {
    Profile {
        transport: None,
        protocol: Protocol::Ssh(ssh::Profile {
            address: host.to_string(),
            username: user.to_string(),
            password: password.to_string(),
            port,
        }),
    }
}

#[test]
fn mock_storage_starts_with_two_chained_profiles() {
    let s = MockStorage::default();
    assert_eq!(s.len(), 2);
    let first = s.get(&"ssh://root@localhost:22".to_string()).unwrap();
    assert_eq!(first.transport, None);
    assert_eq!(first, ssh("root", "localhost", 22, "123456"));
    let second = s.get(&"ssh://root@localhost:8022".to_string()).unwrap();
    assert_eq!(second.transport, Some("ssh://root@localhost:22".to_string()));
    assert_eq!(second.port(), 8022);
    assert_eq!(second.address(), "localhost");
}

#[test]
fn get_of_unknown_identity_is_not_found() {
    let s = MockStorage::default();
    let id = "ssh://root@elsewhere:22".to_string();
    assert_eq!(s.get(&id).unwrap_err(), Error::ProfileNotFound(id.clone()));
}

#[test]
fn put_replaces_in_place_and_appends() {
    let mut s = MockStorage::new();
    assert_eq!(s.len(), 0);
    s.put(ssh("a", "h", 1, "x")).unwrap();
    s.put(ssh("b", "h", 2, "x")).unwrap();
    s.put(ssh("a", "h", 1, "y")).unwrap();
    assert_eq!(s.len(), 2);
    assert_eq!(s.iter(), vec![ssh("a", "h", 1, "y"), ssh("b", "h", 2, "x")]);
    assert_eq!(s.get(&"ssh://a@h:1".to_string()).unwrap(), ssh("a", "h", 1, "y"));
}

#[test]
fn remove_returns_the_profile_once() {
    let mut s = MockStorage::default();
    let id = "ssh://root@localhost:22".to_string();
    let p = s.remove(&id).unwrap();
    assert_eq!(p.id(), id);
    assert_eq!(s.len(), 1);
    assert_eq!(s.remove(&id).unwrap_err(), Error::ProfileNotFound(id.clone()));
    assert_eq!(s.get(&id).unwrap_err(), Error::ProfileNotFound(id.clone()));
    assert_eq!(s.len(), 1);
}

#[test]
fn yaml_storage_keeps_the_later_of_two_profiles_with_one_identity() {
    let s = YamlStorage::from_profiles(vec![
        ssh("a", "h", 1, "first"),
        ssh("b", "h", 2, "x"),
        ssh("a", "h", 1, "second"),
    ]);
    assert_eq!(s.len(), 2);
    assert_eq!(s.get(&"ssh://a@h:1".to_string()).unwrap(), ssh("a", "h", 1, "second"));
    assert_eq!(s.iter(), vec![ssh("a", "h", 1, "second"), ssh("b", "h", 2, "x")]);
}

#[test]
fn yaml_storage_lists_what_was_put_and_not_removed() {
    let mut s = YamlStorage::from_profiles(Vec::new());
    s.put(ssh("a", "h", 1, "x")).unwrap();
    s.put(ssh("b", "h", 2, "x")).unwrap();
    s.put(ssh("c", "h", 3, "x")).unwrap();
    s.remove(&"ssh://b@h:2".to_string()).unwrap();
    assert_eq!(s.iter(), vec![ssh("a", "h", 1, "x"), ssh("c", "h", 3, "x")]);
}

#[test]
fn profile_map_finds_by_identity() {
    let mut m = ProfileMap::new();
    m.insert(ssh("a", "h", 1, "x"));
    assert_eq!(m.get(&"ssh://a@h:1".to_string()), Some(ssh("a", "h", 1, "x")));
    assert_eq!(m.get(&"ssh://a@h:2".to_string()), None);
    assert_eq!(ProfileMap::remove(&mut m, &"ssh://a@h:1".to_string()), Some(ssh("a", "h", 1, "x")));
    assert_eq!(ProfileMap::len(&m), 0);
}
