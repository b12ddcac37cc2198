//! The profile of a remote-shell server.

use vstd::prelude::*;
use crate::profile::ProfileId;
use crate::text::{copy_string, decimal, port_to_string};

verus! {

/// What is needed to reach and log in to one remote-shell server.
#[derive(Debug, PartialEq, Eq)]
pub struct Profile {
    pub address: String,
    pub username: String,
    pub password: String,
    pub port: u16,
}

/// The mathematical content of a remote-shell profile.
pub struct ProfileView {
    pub address: Seq<char>,
    pub username: Seq<char>,
    pub password: Seq<char>,
    pub port: u16,
}

impl View for Profile {
    type V = ProfileView;

    open spec fn view(&self) -> ProfileView {
        ProfileView {
            address: self.address@,
            username: self.username@,
            password: self.password@,
            port: self.port,
        }
    }
}

impl ProfileView {
    /// The endpoint as `user@host:port`.
    pub open spec fn id(self) -> Seq<char> {
        self.username + "@"@ + self.address + ":"@ + decimal(self.port as nat)
    }
}

impl ProfileId for Profile {
    open spec fn spec_id(&self) -> Seq<char> {
        self@.id()
    }

    fn id(&self) -> (r: String) {
        let mut s = copy_string(&self.username);
        s.append("@");
        s.append(self.address.as_str());
        s.append(":");
        s.append(port_to_string(self.port).as_str());
        s
    }
}

impl Clone for Profile {
    fn clone(&self) -> (r: Self)
        ensures
            r@ == self@,
    {
        Profile {
            address: copy_string(&self.address),
            username: copy_string(&self.username),
            password: copy_string(&self.password),
            port: self.port,
        }
    }
}

impl Default for Profile {
    /// The local server, as root, on the standard port.
    fn default() -> (r: Self)
        ensures
            r@.address == "localhost"@,
            r@.username == "root"@,
            r@.password == "123456"@,
            r@.port == 22,
    {
        Profile {
            address: String::from_str("localhost"),
            username: String::from_str("root"),
            password: String::from_str("123456"),
            port: 22,
        }
    }
}

} // verus!
