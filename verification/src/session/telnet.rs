//! The Telnet protocol.

use vstd::prelude::*;
use crate::profile::ProfileId;
use crate::text::{copy_string, decimal, port_to_string};

verus! {

/// The address of one Telnet server.
#[derive(Debug, PartialEq, Eq)]
pub struct Profile {
    pub address: String,
    pub port: u16,
}

/// The mathematical content of a Telnet profile.
pub struct ProfileView {
    pub address: Seq<char>,
    pub port: u16,
}

impl View for Profile {
    type V = ProfileView;

    open spec fn view(&self) -> ProfileView {
        ProfileView { address: self.address@, port: self.port }
    }
}

impl ProfileView {
    /// The endpoint as `host:port`.
    pub open spec fn id(self) -> Seq<char> {
        self.address + ":"@ + decimal(self.port as nat)
    }
}

impl ProfileId for Profile {
    open spec fn spec_id(&self) -> Seq<char> {
        self@.id()
    }

    fn id(&self) -> (r: String) {
        let mut s = copy_string(&self.address);
        s.append(":");
        s.append(port_to_string(self.port).as_str());
        s
    }
}

impl Clone for Profile {
    fn clone(&self) -> (r: Self)
        ensures
            r@ == self@,
    {
        Profile { address: copy_string(&self.address), port: self.port }
    }
}

} // verus!
