//! Profiles: immutable descriptions of reachable endpoints.
//!
//! A profile names one endpoint by protocol, address and port, and may name
//! another profile as its transport: the session to the endpoint is then
//! carried inside a tunnel of the transport's session.

use vstd::prelude::*;
use crate::session::{socks, ssh, telnet};
use crate::text::{copy_opt_string, opt_view};

verus! {

/// Bit of [`Capacity`]: sessions of the profile are shared through the cache.
pub const SESSION_CACHE: u32 = 0b0001;

/// Bit of [`Capacity`]: an interactive terminal may be opened.
pub const TERMINAL: u32 = 0b0010;

/// Bit of [`Capacity`]: outbound tunnels may be opened.
pub const LOCAL_TUNNEL: u32 = 0b0100;

/// Bit of [`Capacity`]: forwarded inbound tunnels may be accepted.
pub const REMOTE_TUNNEL: u32 = 0b1000;

/// Every bit that has a meaning.
pub const ALL: u32 = 0b1111;

/// The set of operations a profile allows, as a bit set.
#[derive(Clone, Copy, Debug, PartialEq, Eq, Structural)]
pub struct Capacity {
    bits: u32,
}

impl Capacity {
    /// The raw bits of this set.
    pub closed spec fn spec_bits(self) -> u32 {
        self.bits
    }

    /// Whether every flag of `other` is in this set.
    pub open spec fn spec_contains(self, other: Capacity) -> bool {
        self.spec_bits() & other.spec_bits() == other.spec_bits()
    }

    /// The set with exactly the meaningful bits of `bits`.
    pub fn from_bits_truncate(bits: u32) -> (r: Capacity)
        ensures
            r.spec_bits() == bits & ALL,
    {
        Capacity { bits: bits & ALL }
    }

    /// The set of all flags.
    pub fn all() -> (r: Capacity)
        ensures
            r.spec_bits() == ALL,
    {
        Capacity { bits: ALL }
    }

    /// The empty set.
    pub fn empty() -> (r: Capacity)
        ensures
            r.spec_bits() == 0,
    {
        Capacity { bits: 0 }
    }

    /// The flag of sessions that are shared through the cache.
    pub fn session_cache() -> (r: Capacity)
        ensures
            r.spec_bits() == SESSION_CACHE,
    {
        Capacity { bits: SESSION_CACHE }
    }

    /// The flag of interactive terminals.
    pub fn terminal() -> (r: Capacity)
        ensures
            r.spec_bits() == TERMINAL,
    {
        Capacity { bits: TERMINAL }
    }

    /// The flag of outbound tunnels.
    pub fn local_tunnel() -> (r: Capacity)
        ensures
            r.spec_bits() == LOCAL_TUNNEL,
    {
        Capacity { bits: LOCAL_TUNNEL }
    }

    /// The flag of forwarded inbound tunnels.
    pub fn remote_tunnel() -> (r: Capacity)
        ensures
            r.spec_bits() == REMOTE_TUNNEL,
    {
        Capacity { bits: REMOTE_TUNNEL }
    }

    /// The raw bits of this set.
    #[verifier::when_used_as_spec(spec_bits)]
    pub fn bits(self) -> (r: u32)
        ensures
            r == self.spec_bits(),
    {
        self.bits
    }

    /// Whether every flag of `other` is in this set.
    #[verifier::when_used_as_spec(spec_contains)]
    pub fn contains(self, other: Capacity) -> (r: bool)
        ensures
            r == self.spec_contains(other),
    {
        self.bits & other.bits == other.bits
    }

    /// Whether sessions of the profile are shared through the cache.
    pub open spec fn spec_cacheable(self) -> bool {
        self.spec_bits() & SESSION_CACHE == SESSION_CACHE
    }

    /// Whether sessions of the profile are shared through the cache.
    #[verifier::when_used_as_spec(spec_cacheable)]
    pub fn cacheable(self) -> (r: bool)
        ensures
            r == self.spec_cacheable(),
    {
        self.bits & SESSION_CACHE == SESSION_CACHE
    }
}

/// What has an identity string.
pub trait ProfileId {
    /// The identity string.
    spec fn spec_id(&self) -> Seq<char>;

    /// The identity string.
    fn id(&self) -> (r: String)
        ensures
            r@ == self.spec_id(),
    ;
}

/// The parameters of an endpoint, by protocol.
#[derive(Debug, PartialEq, Eq)]
pub enum Protocol {
    Ssh(ssh::Profile),
    Socks(socks::Profile),
    Telnet(telnet::Profile),
}

/// The mathematical content of a [`Protocol`].
pub enum ProtocolView {
    Ssh(ssh::ProfileView),
    Socks(socks::ProfileView),
    Telnet(telnet::ProfileView),
}

impl View for Protocol {
    type V = ProtocolView;

    open spec fn view(&self) -> ProtocolView {
        match self {
            Protocol::Ssh(p) => ProtocolView::Ssh(p@),
            Protocol::Socks(p) => ProtocolView::Socks(p@),
            Protocol::Telnet(p) => ProtocolView::Telnet(p@),
        }
    }
}

impl Clone for Protocol {
    fn clone(&self) -> (r: Self)
        ensures
            r@ == self@,
    {
        match self {
            Protocol::Ssh(p) => Protocol::Ssh(p.clone()),
            Protocol::Socks(p) => Protocol::Socks(p.clone()),
            Protocol::Telnet(p) => Protocol::Telnet(p.clone()),
        }
    }
}

impl ProtocolView {
    /// The address of the endpoint.
    pub open spec fn address(self) -> Seq<char> {
        match self {
            ProtocolView::Ssh(p) => p.address,
            ProtocolView::Socks(p) => p.address,
            ProtocolView::Telnet(p) => p.address,
        }
    }

    /// The port of the endpoint.
    pub open spec fn port(self) -> u16 {
        match self {
            ProtocolView::Ssh(p) => p.port,
            ProtocolView::Socks(p) => p.port,
            ProtocolView::Telnet(p) => p.port,
        }
    }

    /// The identity string: `scheme://[user@]host:port`.
    pub open spec fn id(self) -> Seq<char> {
        match self {
            ProtocolView::Ssh(p) => "ssh://"@ + p.id(),
            ProtocolView::Socks(p) => "socks://"@ + p.id(),
            ProtocolView::Telnet(p) => "telnet://"@ + p.id(),
        }
    }

    /// The bits of the operations that the protocol supports.
    pub open spec fn capacity_bits(self) -> u32 {
        match self {
            ProtocolView::Ssh(_) => ALL,
            ProtocolView::Socks(_) => LOCAL_TUNNEL,
            ProtocolView::Telnet(_) => TERMINAL,
        }
    }
}

/// One reachable endpoint, and the profile it is reached through, if any.
#[derive(Debug, PartialEq, Eq)]
pub struct Profile {
    /// The identity of the profile whose session carries this one.
    pub transport: Option<String>,
    pub protocol: Protocol,
}

/// The mathematical content of a [`Profile`].
pub struct ProfileView {
    pub transport: Option<Seq<char>>,
    pub protocol: ProtocolView,
}

impl View for Profile {
    type V = ProfileView;

    open spec fn view(&self) -> ProfileView {
        ProfileView { transport: opt_view(self.transport), protocol: self.protocol@ }
    }
}

impl Clone for Profile {
    fn clone(&self) -> (r: Self)
        ensures
            r@ == self@,
    {
        Profile { transport: copy_opt_string(&self.transport), protocol: self.protocol.clone() }
    }
}

impl ProfileView {
    /// The identity string of the profile.
    pub open spec fn id(self) -> Seq<char> {
        self.protocol.id()
    }

    /// Whether sessions of the profile are shared through the cache.
    pub open spec fn cacheable(self) -> bool {
        self.protocol.capacity_bits() & SESSION_CACHE == SESSION_CACHE
    }

    /// Whether the profile allows every operation of `bits`.
    pub open spec fn allows(self, bits: u32) -> bool {
        self.protocol.capacity_bits() & bits == bits
    }
}

impl ProfileId for Profile {
    open spec fn spec_id(&self) -> Seq<char> {
        self@.id()
    }

    fn id(&self) -> (r: String) {
        Profile::id(self)
    }
}

impl Profile {
    /// The identity string `scheme://[user@]host:port`, the key under which
    /// the profile is stored and its session is shared.
    pub fn id(&self) -> (r: String)
        ensures
            r@ == self@.id(),
    {
        match &self.protocol {
            Protocol::Ssh(p) => {
                let mut s = String::from_str("ssh://");
                s.append(ProfileId::id(p).as_str());
                s
            },
            Protocol::Socks(p) => {
                let mut s = String::from_str("socks://");
                s.append(ProfileId::id(p).as_str());
                s
            },
            Protocol::Telnet(p) => {
                let mut s = String::from_str("telnet://");
                s.append(ProfileId::id(p).as_str());
                s
            },
        }
    }

    /// The operations that the profile allows.
    pub fn capacity(&self) -> (r: Capacity)
        ensures
            r.spec_bits() == self@.protocol.capacity_bits(),
    {
        match self.protocol {
            Protocol::Ssh(_) => Capacity::all(),
            Protocol::Socks(_) => Capacity::local_tunnel(),
            Protocol::Telnet(_) => Capacity::terminal(),
        }
    }

    /// The address of the endpoint.
    pub fn address(&self) -> (r: &String)
        ensures
            r@ == self@.protocol.address(),
    {
        match &self.protocol {
            Protocol::Ssh(p) => &p.address,
            Protocol::Socks(p) => &p.address,
            Protocol::Telnet(p) => &p.address,
        }
    }

    /// The port of the endpoint.
    pub fn port(&self) -> (r: u16)
        ensures
            r == self@.protocol.port(),
    {
        match &self.protocol {
            Protocol::Ssh(p) => p.port,
            Protocol::Socks(p) => p.port,
            Protocol::Telnet(p) => p.port,
        }
    }
}

} // verus!
