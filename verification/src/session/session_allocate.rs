//! How each session of a chain is reached.

use vstd::prelude::*;
use crate::profile::{Profile, ProfileView};
use crate::session::builder::Hop;
use crate::text::{copy_string, opt_view};

verus! {

/// The way to an endpoint.
#[derive(Debug, PartialEq, Eq)]
pub enum Route {
    /// Over a new connection of the network.
    Direct { address: String, port: u16 },
    /// Over a tunnel that the session of `transport` opens to the endpoint.
    Tunnel { transport: String, address: String, port: u16 },
}

/// The mathematical content of a [`Route`].
pub enum RouteView {
    Direct { address: Seq<char>, port: u16 },
    Tunnel { transport: Seq<char>, address: Seq<char>, port: u16 },
}

impl View for Route {
    type V = RouteView;

    open spec fn view(&self) -> RouteView {
        match self {
            Route::Direct { address, port } => RouteView::Direct { address: address@, port: *port },
            Route::Tunnel { transport, address, port } => RouteView::Tunnel {
                transport: transport@,
                address: address@,
                port: *port,
            },
        }
    }
}

/// The way to the endpoint at `address` and `port`: through the session of
/// `transport` where there is one, and always to the endpoint's own address
/// and port.
pub open spec fn route_to(address: Seq<char>, port: u16, transport: Option<Seq<char>>) -> RouteView {
    match transport {
        Some(t) => RouteView::Tunnel { transport: t, address, port },
        None => RouteView::Direct { address, port },
    }
}

/// The way to the endpoint of `profile`.
pub open spec fn route_of(profile: ProfileView) -> RouteView {
    route_to(profile.protocol.address(), profile.protocol.port(), profile.transport)
}

/// Decides over which transport a session is built.
pub struct Allocator;

impl Allocator {
    /// The way to the remote-shell server at `addr` and `port`.
    pub fn ssh_alloc(&self, addr: &String, port: u16, transport: Option<String>) -> (r: Route)
        ensures
            r@ == route_to(addr@, port, opt_view(transport)),
    {
        match transport {
            Some(id) => Route::Tunnel { transport: id, address: copy_string(addr), port },
            None => Route::Direct { address: copy_string(addr), port },
        }
    }

    /// The way to the endpoint of `profile`.
    pub fn route(&self, profile: &Profile) -> (r: Route)
        ensures
            r@ == route_of(profile@),
    {
        match &profile.transport {
            Some(id) => Route::Tunnel {
                transport: copy_string(id),
                address: copy_string(profile.address()),
                port: profile.port(),
            },
            None => Route::Direct { address: copy_string(profile.address()), port: profile.port() },
        }
    }

    /// The ways to the endpoints of a chain, in the order in which their
    /// sessions are established.
    pub fn routes(&self, plan: &Vec<Hop>) -> (r: Vec<Route>)
        ensures
            r@.len() == plan@.len(),
            forall|i: int| 0 <= i < r@.len() ==> (#[trigger] r@[i])@ == route_of(plan@[i].profile@),
    {
        let mut out: Vec<Route> = Vec::new();
        let mut i: usize = 0;
        while i < plan.len()
            invariant
                i <= plan.len(),
                out@.len() == i,
                forall|j: int| 0 <= j < i ==> (#[trigger] out@[j])@ == route_of(plan@[j].profile@),
            decreases plan.len() - i,
        {
            out.push(self.route(&plan[i].profile));
            i += 1;
        }
        out
    }
}

/// The sessions of a chain are established one through the other: the
/// first over the network, each later one over a tunnel that the session
/// before it opens to the later one's own address and port.
pub proof fn law_chain_order(
    profiles: crate::session::builder::Profiles,
    id: Seq<char>,
    plan: Seq<Hop>,
    i: int,
)
    requires
        crate::session::builder::is_plan(profiles, id, plan),
        0 <= i < plan.len(),
    ensures
        i == 0 ==> route_of(plan[i].profile@) == (RouteView::Direct {
            address: plan[i].profile@.protocol.address(),
            port: plan[i].profile@.protocol.port(),
        }),
        i > 0 ==> route_of(plan[i].profile@) == (RouteView::Tunnel {
            transport: plan[i - 1].id@,
            address: plan[i].profile@.protocol.address(),
            port: plan[i].profile@.protocol.port(),
        }),
        i == plan.len() - 1 ==> plan[i].id@ == id,
{
}

} // verus!
