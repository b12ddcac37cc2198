//! Session management core of a multi-protocol remote-session client.
//!
//! The crate holds the decisions of the client: how a profile names an
//! endpoint, how a chain of transports is resolved, how live sessions are
//! shared and released, and how a non-blocking protocol engine is driven.
//! Sockets, timers and the protocol engines themselves live with the caller,
//! which performs the actions these functions return and reports back what
//! happened.

pub mod async_ssh2;
pub mod errors;
pub mod forward;
pub mod text;
pub mod profile;
pub mod session;
pub mod storage;
pub mod terminal;

use vstd::prelude::*;
use crate::errors::Error;
use crate::profile::TERMINAL;
use crate::session::manager::{opened, opened_for, OpenStep, PpSessionManager};
use crate::storage::Storage;

verus! {

/// The client: a session manager over a profile store, and what its users
/// ask of it.
pub struct PangPang<S: Storage> {
    mgr: PpSessionManager<S>,
}

impl<S: Storage> PangPang<S> {
    /// The session manager of the client.
    pub closed spec fn manager(&self) -> PpSessionManager<S> {
        self.mgr
    }

    /// A client over the profiles of `cfg`, without sessions.
    pub fn new(cfg: S) -> (r: Self)
        ensures
            r.manager().storage() == cfg,
            r.manager()@.cache == Map::<Seq<char>, crate::session::manager::CacheEntry>::empty(),
            r.manager()@.connecting == Set::<Seq<char>>::empty(),
    {
        PangPang { mgr: PpSessionManager::new(cfg) }
    }

    /// The session manager of the client, to report to it and to hand
    /// guards back.
    pub fn sessions(&mut self) -> (r: &mut PpSessionManager<S>)
        ensures
            *r == old(self).manager(),
            *final(r) == final(self).manager(),
    {
        &mut self.mgr
    }

    /// Asks for the session of the profile stored under `id`, to open a
    /// terminal on it: as [`PpSessionManager::open_pty`].
    pub fn open_terminal(&mut self, id: &String) -> (r: Result<OpenStep, Error>)
        requires
            old(self).manager()@.refcount(id@) < usize::MAX,
        ensures
            final(self).manager().storage() == old(self).manager().storage(),
            opened_for(
                old(self).manager().profiles(),
                old(self).manager()@,
                id@,
                TERMINAL,
                r,
                final(self).manager()@,
            ),
    {
        self.mgr.open_pty(id)
    }

    /// Asks for the session of the profile stored under `id`, to back a
    /// local HTTP proxy with it: as [`PpSessionManager::open_session`].
    pub fn local_http_proxy(&mut self, id: &String) -> (r: Result<OpenStep, Error>)
        requires
            old(self).manager()@.refcount(id@) < usize::MAX,
        ensures
            final(self).manager().storage() == old(self).manager().storage(),
            opened(
                old(self).manager().profiles(),
                old(self).manager()@,
                id@,
                r,
                final(self).manager()@,
            ),
    {
        self.mgr.open_session(id)
    }
}

} // verus!
