//! The session manager: one shared session per endpoint.
//!
//! The manager keeps, by profile identity, the live sessions with the number
//! of guards that share each, and the identities that are being connected
//! right now. It decides; the caller acts. A request is answered with a
//! guard of the live session, with the advice to wait for the request that
//! is connecting the endpoint, or with a ticket to connect it. The caller
//! reports the outcome of a ticket, and hands back every guard it is done
//! with.

use vstd::prelude::*;
use vstd::hash_map::StringHashMap;
use vstd::hash_set::StringHashSet;
use crate::errors::{Error, ErrorView};
use crate::profile::{Capacity, LOCAL_TUNNEL, TERMINAL};
use crate::session::builder::{
    broken_at, cyclic_at, is_plan, lemma_plan_is_trail, lemma_resolution_is_unique, resolvable,
    Builder, Hop, Profiles,
};
use crate::session::pty_guard::{ChannelGuardView, PpPtyGuard, PpTunnelGuard};
use crate::session::session_guard::{ChannelHandle, GuardView, PpSessionGuard, SessionHandle};
use crate::storage::Storage;
use crate::text::copy_string;

verus! {

/// One live session and the number of guards that share it.
#[derive(Clone, Copy, Debug, PartialEq, Eq, Structural)]
pub struct CacheEntry {
    pub refcount: usize,
    pub session: SessionHandle,
}

/// The state of a manager: the live sessions by identity, and the
/// identities that a request is connecting.
#[verifier::ext_equal]
pub struct ManagerView {
    pub cache: Map<Seq<char>, CacheEntry>,
    pub connecting: Set<Seq<char>>,
}

impl ManagerView {
    /// Every entry is shared by a guard at least, and no identity is live
    /// and being connected at once.
    pub open spec fn wf(self) -> bool {
        &&& forall|k: Seq<char>| self.cache.contains_key(k) ==> (#[trigger] self.cache[k]).refcount > 0
        &&& forall|k: Seq<char>| #[trigger] self.cache.contains_key(k) ==> !self.connecting.contains(k)
    }

    /// The number of guards that share the session of `id`: zero where
    /// there is no entry.
    pub open spec fn refcount(self, id: Seq<char>) -> nat {
        if self.cache.contains_key(id) {
            self.cache[id].refcount as nat
        } else {
            0
        }
    }

    /// The state after one more guard of the entry of `id` was handed out.
    pub open spec fn shared(self, id: Seq<char>) -> ManagerView {
        ManagerView {
            cache: self.cache.insert(
                id,
                CacheEntry {
                    refcount: (self.cache[id].refcount + 1) as usize,
                    session: self.cache[id].session,
                },
            ),
            connecting: self.connecting,
        }
    }

    /// The state after a request has started to connect `id`.
    pub open spec fn begun(self, id: Seq<char>) -> ManagerView {
        ManagerView { cache: self.cache, connecting: self.connecting.insert(id) }
    }

    /// The state after the request that was connecting `id` has come back:
    /// with a session, which is entered with one guard, or without.
    pub open spec fn finished(self, id: Seq<char>, session: Option<SessionHandle>) -> ManagerView {
        ManagerView {
            cache: match session {
                Some(s) => self.cache.insert(id, CacheEntry { refcount: 1, session: s }),
                None => self.cache,
            },
            connecting: self.connecting.remove(id),
        }
    }

    /// The state after a guard of the entry of `id` was handed back: the
    /// last guard takes the entry with it.
    pub open spec fn released(self, id: Seq<char>) -> ManagerView {
        ManagerView {
            cache: if self.cache[id].refcount <= 1 {
                self.cache.remove(id)
            } else {
                self.cache.insert(
                    id,
                    CacheEntry {
                        refcount: (self.cache[id].refcount - 1) as usize,
                        session: self.cache[id].session,
                    },
                )
            },
            connecting: self.connecting,
        }
    }
}

/// What a request for a session meets.
#[derive(Clone, Copy, Debug, PartialEq, Eq, Structural)]
pub enum Step {
    /// Nothing is stored under the identity.
    NotFound,
    /// The session is live and shared.
    Ready,
    /// Another request is connecting the endpoint.
    Wait,
    /// The endpoint is to be connected by this request.
    Connect,
    /// The transport chain of the profile leaves the store or comes back
    /// to itself.
    Refused,
}

/// What a request for the session of `id` meets in state `m`.
pub open spec fn next_step(profiles: Profiles, m: ManagerView, id: Seq<char>) -> Step {
    if !profiles.contains_key(id) {
        Step::NotFound
    } else if profiles[id].cacheable() && m.cache.contains_key(id) {
        Step::Ready
    } else if profiles[id].cacheable() && m.connecting.contains(id) {
        Step::Wait
    } else if resolvable(profiles, id) {
        Step::Connect
    } else {
        Step::Refused
    }
}

/// The leave to connect one endpoint. Whoever holds it reports the outcome
/// to [`PpSessionManager::finish_open`].
#[derive(Debug)]
pub struct Ticket {
    id: String,
    cached: bool,
    plan: Vec<Hop>,
}

/// The mathematical content of a [`Ticket`].
pub struct TicketView {
    pub id: Seq<char>,
    pub cached: bool,
    pub plan: Seq<Hop>,
}

impl View for Ticket {
    type V = TicketView;

    closed spec fn view(&self) -> TicketView {
        TicketView { id: self.id@, cached: self.cached, plan: self.plan@ }
    }
}

impl Ticket {
    /// The identity to connect.
    pub fn id(&self) -> (r: &String)
        ensures
            r@ == self@.id,
    {
        &self.id
    }

    /// Whether the session will be shared through the cache.
    pub fn cached(&self) -> (r: bool)
        ensures
            r == self@.cached,
    {
        self.cached
    }

    /// The transport chain: the profile without transport first, the
    /// profile to connect last.
    pub fn plan(&self) -> (r: &Vec<Hop>)
        ensures
            r@ == self@.plan,
    {
        &self.plan
    }
}

/// The answer to a request for a session.
#[derive(Debug)]
pub enum OpenStep {
    /// A guard of the live session.
    Ready(PpSessionGuard),
    /// Another request is connecting the endpoint: wait until it has come
    /// back, then ask again.
    Wait,
    /// Connect the endpoint, then report the outcome.
    Connect(Ticket),
}

/// The answer to the report of a ticket.
#[derive(Debug)]
pub struct Finished {
    /// The guard of the new session, or the error of the attempt.
    pub result: Result<PpSessionGuard, Error>,
    /// Whether the requests that wait for this identity are to be woken.
    pub wake_waiters: bool,
}

/// What is to be done with a session after a guard was handed back.
#[derive(Clone, Copy, Debug, PartialEq, Eq, Structural)]
pub enum Released {
    /// Other guards still share the session.
    StillShared,
    /// The last guard is gone: the session is to be closed.
    Close(SessionHandle),
}

/// The error of a channel that could not be opened, and what became of the
/// session guard that was held for it.
#[derive(Debug)]
pub struct ChannelFailed {
    pub error: Error,
    pub released: Released,
}

/// The state after guard `g` was handed back in state `m`.
pub open spec fn release_state(m: ManagerView, g: GuardView) -> ManagerView {
    match g.id {
        Some(id) => m.released(id),
        None => m,
    }
}

/// What is to be done with the session of guard `g` after it was handed
/// back in state `m`.
pub open spec fn release_answer(m: ManagerView, g: GuardView) -> Released {
    match g.id {
        Some(id) => if m.cache[id].refcount <= 1 {
            Released::Close(m.cache[id].session)
        } else {
            Released::StillShared
        },
        None => Released::Close(g.session),
    }
}

/// What `r` and the state `after` are where a request for the session of
/// `id` meets the state `before`.
pub open spec fn opened(
    profiles: Profiles,
    before: ManagerView,
    id: Seq<char>,
    r: Result<OpenStep, Error>,
    after: ManagerView,
) -> bool {
    match next_step(profiles, before, id) {
        Step::NotFound => {
            &&& r matches Err(e)
            &&& e@ == ErrorView::ProfileNotFound(id)
            &&& after == before
        },
        Step::Ready => {
            &&& r matches Ok(OpenStep::Ready(g))
            &&& g@ == (GuardView { session: before.cache[id].session, id: Some(id) })
            &&& after == before.shared(id)
        },
        Step::Wait => {
            &&& r matches Ok(OpenStep::Wait)
            &&& after == before
        },
        Step::Connect => {
            &&& r matches Ok(OpenStep::Connect(t))
            &&& t@.id == id
            &&& t@.cached == profiles[id].cacheable()
            &&& is_plan(profiles, id, t@.plan)
            &&& after == if t@.cached {
                before.begun(id)
            } else {
                before
            }
        },
        Step::Refused => {
            &&& r matches Err(e)
            &&& after == before
            &&& {
                ||| exists|x: Seq<char>|
                    e@ == ErrorView::ProfileNotFound(x) && #[trigger] broken_at(profiles, id, x)
                ||| exists|x: Seq<char>|
                    e@ == ErrorView::CyclicTransport(x) && #[trigger] cyclic_at(profiles, id, x)
            }
        },
    }
}

/// The session manager over the store `S`.
pub struct PpSessionManager<S: Storage> {
    builder: Builder<S>,
    cache: StringHashMap<CacheEntry>,
    connecting: StringHashSet,
}

impl<S: Storage> View for PpSessionManager<S> {
    type V = ManagerView;

    closed spec fn view(&self) -> ManagerView {
        ManagerView { cache: self.cache@, connecting: self.connecting@ }
    }
}

impl<S: Storage> PpSessionManager<S> {
    #[verifier::type_invariant]
    closed spec fn inv(&self) -> bool {
        &&& forall|k: Seq<char>|
            self.cache@.contains_key(k) ==> (#[trigger] self.cache@[k]).refcount > 0
        &&& forall|k: Seq<char>| #[trigger]
            self.cache@.contains_key(k) ==> !self.connecting@.contains(k)
    }

    /// The profile store.
    pub closed spec fn storage(&self) -> S {
        self.builder.storage()
    }

    /// The stored profiles by identity.
    pub open spec fn profiles(&self) -> Profiles {
        self.storage().profiles()
    }

    /// A manager over `storage`, without sessions.
    pub fn new(storage: S) -> (r: Self)
        ensures
            r.storage() == storage,
            r@.cache == Map::<Seq<char>, CacheEntry>::empty(),
            r@.connecting == Set::<Seq<char>>::empty(),
    {
        PpSessionManager {
            builder: Builder::new(storage),
            cache: StringHashMap::new(),
            connecting: StringHashSet::new(),
        }
    }

    /// The profile store.
    pub fn store(&self) -> (r: &S)
        ensures
            *r == self.storage(),
    {
        self.builder.store()
    }

    /// The number of guards that share the session of `id`.
    pub fn refcount(&self, id: &String) -> (r: usize)
        ensures
            r == self@.refcount(id@),
    {
        match self.cache.get(id.as_str()) {
            Some(entry) => entry.refcount,
            None => 0,
        }
    }

    /// The live session of `id`, if there is one.
    pub fn session(&self, id: &String) -> (r: Option<SessionHandle>)
        ensures
            match r {
                Some(s) => self@.cache.contains_key(id@) && s == self@.cache[id@].session,
                None => !self@.cache.contains_key(id@),
            },
    {
        match self.cache.get(id.as_str()) {
            Some(entry) => Some(entry.session),
            None => None,
        }
    }

    /// Whether a request is connecting `id`.
    pub fn is_connecting(&self, id: &String) -> (r: bool)
        ensures
            r == self@.connecting.contains(id@),
    {
        self.connecting.contains(id.as_str())
    }

    /// The number of live sessions. The state of a manager is well formed
    /// whatever was done with it.
    pub fn len(&self) -> (r: usize)
        ensures
            r == self@.cache.len(),
            self@.wf(),
    {
        proof {
            use_type_invariant(self);
        }
        self.cache.len()
    }

    /// Enters `entry` under `id`.
    fn set_entry(&mut self, id: &String, entry: CacheEntry)
        requires
            entry.refcount > 0,
            !old(self)@.connecting.contains(id@),
        ensures
            final(self)@.cache == old(self)@.cache.insert(id@, entry),
            final(self)@.connecting == old(self)@.connecting,
            final(self).storage() == old(self).storage(),
    {
        proof {
            use_type_invariant(&*self);
        }
        // The table is taken out while it changes, so that the manager is
        // well formed at every call.
        let mut cache: StringHashMap<CacheEntry> = StringHashMap::new();
        core::mem::swap(&mut self.cache, &mut cache);
        cache.insert(copy_string(id), entry);
        self.cache = cache;
    }

    /// Takes the entry of `id` out.
    fn drop_entry(&mut self, id: &String)
        ensures
            final(self)@.cache == old(self)@.cache.remove(id@),
            final(self)@.connecting == old(self)@.connecting,
            final(self).storage() == old(self).storage(),
    {
        proof {
            use_type_invariant(&*self);
        }
        let mut cache: StringHashMap<CacheEntry> = StringHashMap::new();
        core::mem::swap(&mut self.cache, &mut cache);
        cache.remove(id.as_str());
        self.cache = cache;
    }

    /// Marks `id` as being connected, or no longer so.
    fn set_connecting(&mut self, id: &String, on: bool)
        requires
            on ==> !old(self)@.cache.contains_key(id@),
        ensures
            final(self)@.cache == old(self)@.cache,
            final(self)@.connecting == if on {
                old(self)@.connecting.insert(id@)
            } else {
                old(self)@.connecting.remove(id@)
            },
            final(self).storage() == old(self).storage(),
    {
        proof {
            use_type_invariant(&*self);
        }
        let mut connecting = StringHashSet::new();
        core::mem::swap(&mut self.connecting, &mut connecting);
        if on {
            connecting.insert(copy_string(id));
        } else {
            connecting.remove(id.as_str());
        }
        self.connecting = connecting;
    }

    /// Asks for the session of the profile stored under `id`.
    ///
    /// A profile that is not shared through the cache is connected anew for
    /// every request. For the others a live session is shared, one more
    /// guard counted; while a request is connecting the endpoint all others
    /// wait; else this request is the one that connects it. Before a ticket
    /// is given the transport chain is followed to its end.
    ///
    /// The count of guards is a machine number: one more guard must fit.
    pub fn open_session(&mut self, id: &String) -> (r: Result<OpenStep, Error>)
        requires
            old(self)@.refcount(id@) < usize::MAX,
        ensures
            final(self).storage() == old(self).storage(),
            opened(old(self).profiles(), old(self)@, id@, r, final(self)@),
    {
        proof {
            use_type_invariant(&*self);
        }
        let ghost profiles = self.profiles();
        let ghost before = self@;
        let profile = match self.builder.store().get(id) {
            Ok(p) => p,
            Err(e) => {
                return Err(e);
            },
        };
        let cacheable = profile.capacity().cacheable();
        if cacheable {
            match self.session(id) {
                Some(session) => {
                    let refcount = self.refcount(id);
                    self.set_entry(id, CacheEntry { refcount: refcount + 1, session });
                    assert(self@ =~= before.shared(id@));
                    return Ok(OpenStep::Ready(PpSessionGuard::new(session, Some(copy_string(id)))));
                },
                None => {},
            }
            if self.is_connecting(id) {
                return Ok(OpenStep::Wait);
            }
        }
        match self.builder.resolve(id) {
            Err(e) => {
                proof {
                    if resolvable(profiles, id@) {
                        if exists|x: Seq<char>|
                            e@ == ErrorView::ProfileNotFound(x) && #[trigger] broken_at(
                                profiles,
                                id@,
                                x,
                            ) {
                            let x = choose|x: Seq<char>|
                                e@ == ErrorView::ProfileNotFound(x) && #[trigger] broken_at(
                                    profiles,
                                    id@,
                                    x,
                                );
                            lemma_resolution_is_unique(profiles, id@, x, x);
                        } else {
                            let x = choose|x: Seq<char>|
                                e@ == ErrorView::CyclicTransport(x) && #[trigger] cyclic_at(
                                    profiles,
                                    id@,
                                    x,
                                );
                            lemma_resolution_is_unique(profiles, id@, x, x);
                        }
                    }
                }
                Err(e)
            },
            Ok(plan) => {
                proof {
                    lemma_plan_is_trail(profiles, id@, plan@);
                }
                if cacheable {
                    self.set_connecting(id, true);
                    assert(self@ =~= before.begun(id@));
                }
                Ok(OpenStep::Connect(Ticket { id: copy_string(id), cached: cacheable, plan }))
            },
        }
    }

    /// Takes the report of a ticket.
    ///
    /// A session of a shared profile is entered in the cache with one guard,
    /// which is returned. An error is returned as it came. Either way the
    /// identity is no longer being connected, and the requests that wait
    /// for it are to be woken. For a profile that is not shared the
    /// manager's state stays as it is.
    ///
    /// The ticket of a shared profile is reported to the manager that gave
    /// it, which has the identity marked as being connected since then.
    pub fn finish_open(&mut self, ticket: Ticket, outcome: Result<SessionHandle, Error>) -> (r:
        Finished)
        requires
            ticket@.cached ==> old(self)@.connecting.contains(ticket@.id),
        ensures
            final(self).storage() == old(self).storage(),
            final(self)@ == if ticket@.cached {
                old(self)@.finished(
                    ticket@.id,
                    match outcome {
                        Ok(s) => Some(s),
                        Err(_) => None,
                    },
                )
            } else {
                old(self)@
            },
            r.wake_waiters == ticket@.cached,
            match outcome {
                Ok(s) => r.result matches Ok(g) && g@ == (GuardView {
                    session: s,
                    id: if ticket@.cached {
                        Some(ticket@.id)
                    } else {
                        None
                    },
                }),
                Err(e) => r.result matches Err(e2) && e2@ == e@,
            },
    {
        proof {
            use_type_invariant(&*self);
        }
        let ghost before = self@;
        let Ticket { id, cached, plan: _ } = ticket;
        if !cached {
            return Finished {
                result: match outcome {
                    Ok(session) => Ok(PpSessionGuard::new(session, None)),
                    Err(e) => Err(e),
                },
                wake_waiters: false,
            };
        }
        self.set_connecting(&id, false);
        match outcome {
            Ok(session) => {
                self.set_entry(&id, CacheEntry { refcount: 1, session });
                assert(self@ =~= before.finished(id@, Some(session)));
                Finished { result: Ok(PpSessionGuard::new(session, Some(id))), wake_waiters: true }
            },
            Err(e) => {
                assert(self@ =~= before.finished(id@, None));
                Finished { result: Err(e), wake_waiters: true }
            },
        }
    }

    /// Takes a guard back.
    ///
    /// A guard that is counted under an identity is taken off the count of
    /// that entry, and the last guard takes the entry out of the cache: its
    /// session is then to be closed. No other entry changes. A guard that
    /// is not counted owns its session alone, which is to be closed.
    ///
    /// A guard that is counted is handed back to the manager that counts
    /// it: its session must be cached.
    pub fn release(&mut self, guard: PpSessionGuard) -> (r: Released)
        requires
            guard@.id matches Some(id) ==> old(self)@.cache.contains_key(id),
        ensures
            final(self).storage() == old(self).storage(),
            final(self)@ == release_state(old(self)@, guard@),
            r == release_answer(old(self)@, guard@),
    {
        proof {
            use_type_invariant(&*self);
        }
        let ghost before = self@;
        let (session, id) = guard.into_parts();
        match id {
            None => Released::Close(session),
            Some(id) => {
                let refcount = self.refcount(&id);
                let cached = self.session(&id).unwrap();
                if refcount <= 1 {
                    self.drop_entry(&id);
                    assert(self@ =~= before.released(id@));
                    Released::Close(cached)
                } else {
                    self.set_entry(&id, CacheEntry { refcount: refcount - 1, session: cached });
                    assert(self@ =~= before.released(id@));
                    Released::StillShared
                }
            },
        }
    }

    /// Asks for the session of `id` for an operation that needs `bits`.
    fn open_for(&mut self, id: &String, needed: Capacity) -> (r: Result<OpenStep, Error>)
        requires
            old(self)@.refcount(id@) < usize::MAX,
        ensures
            final(self).storage() == old(self).storage(),
            opened_for(old(self).profiles(), old(self)@, id@, needed.spec_bits(), r, final(self)@),
    {
        match self.builder.store().get(id) {
            Ok(profile) => {
                if !profile.capacity().contains(needed) {
                    return Err(Error::NotSupported(copy_string(id)));
                }
            },
            Err(_) => {},
        }
        self.open_session(id)
    }

    /// Asks for the session of `id` to open an interactive terminal on it.
    /// A profile that does not allow terminals is refused with
    /// `NotSupported`; else the answer is that of
    /// [`PpSessionManager::open_session`].
    pub fn open_pty(&mut self, id: &String) -> (r: Result<OpenStep, Error>)
        requires
            old(self)@.refcount(id@) < usize::MAX,
        ensures
            final(self).storage() == old(self).storage(),
            opened_for(old(self).profiles(), old(self)@, id@, TERMINAL, r, final(self)@),
    {
        self.open_for(id, Capacity::terminal())
    }

    /// Asks for the session of `id` to open an outbound tunnel on it. A
    /// profile that does not allow outbound tunnels is refused with
    /// `NotSupported`; else the answer is that of
    /// [`PpSessionManager::open_session`].
    pub fn open_tunnel(&mut self, id: &String) -> (r: Result<OpenStep, Error>)
        requires
            old(self)@.refcount(id@) < usize::MAX,
        ensures
            final(self).storage() == old(self).storage(),
            opened_for(old(self).profiles(), old(self)@, id@, LOCAL_TUNNEL, r, final(self)@),
    {
        self.open_for(id, Capacity::local_tunnel())
    }

    /// Joins a session guard and the terminal that was opened on its
    /// session. Where the terminal could not be opened, the guard is handed
    /// back at once.
    pub fn attach_pty(&mut self, guard: PpSessionGuard, channel: Result<ChannelHandle, Error>) -> (r:
        Result<PpPtyGuard, ChannelFailed>)
        requires
            guard@.id matches Some(id) ==> old(self)@.cache.contains_key(id),
        ensures
            final(self).storage() == old(self).storage(),
            match channel {
                Ok(c) => {
                    &&& r matches Ok(g)
                    &&& g@ == (ChannelGuardView { channel: c, session: guard@ })
                    &&& final(self)@ == old(self)@
                },
                Err(e) => {
                    &&& r matches Err(f)
                    &&& f.error@ == e@
                    &&& f.released == release_answer(old(self)@, guard@)
                    &&& final(self)@ == release_state(old(self)@, guard@)
                },
            },
    {
        match channel {
            Ok(c) => Ok(PpPtyGuard::new(c, guard)),
            Err(error) => {
                let released = self.release(guard);
                Err(ChannelFailed { error, released })
            },
        }
    }

    /// Joins a session guard and the tunnel that was opened on its session.
    /// Where the tunnel could not be opened, the guard is handed back at
    /// once.
    pub fn attach_tunnel(
        &mut self,
        guard: PpSessionGuard,
        channel: Result<ChannelHandle, Error>,
    ) -> (r: Result<PpTunnelGuard, ChannelFailed>)
        requires
            guard@.id matches Some(id) ==> old(self)@.cache.contains_key(id),
        ensures
            final(self).storage() == old(self).storage(),
            match channel {
                Ok(c) => {
                    &&& r matches Ok(g)
                    &&& g@ == (ChannelGuardView { channel: c, session: guard@ })
                    &&& final(self)@ == old(self)@
                },
                Err(e) => {
                    &&& r matches Err(f)
                    &&& f.error@ == e@
                    &&& f.released == release_answer(old(self)@, guard@)
                    &&& final(self)@ == release_state(old(self)@, guard@)
                },
            },
    {
        match channel {
            Ok(c) => Ok(PpTunnelGuard::new(c, guard)),
            Err(error) => {
                let released = self.release(guard);
                Err(ChannelFailed { error, released })
            },
        }
    }

    /// Takes a terminal back: its channel is to be closed, and its session
    /// guard is handed back.
    pub fn release_pty(&mut self, guard: PpPtyGuard) -> (r: (ChannelHandle, Released))
        requires
            guard@.session.id matches Some(id) ==> old(self)@.cache.contains_key(id),
        ensures
            final(self).storage() == old(self).storage(),
            r.0 == guard@.channel,
            r.1 == release_answer(old(self)@, guard@.session),
            final(self)@ == release_state(old(self)@, guard@.session),
    {
        let (channel, session) = guard.into_parts();
        (channel, self.release(session))
    }

    /// Takes a tunnel back: its channel is to be closed, and its session
    /// guard is handed back.
    pub fn release_tunnel(&mut self, guard: PpTunnelGuard) -> (r: (ChannelHandle, Released))
        requires
            guard@.session.id matches Some(id) ==> old(self)@.cache.contains_key(id),
        ensures
            final(self).storage() == old(self).storage(),
            r.0 == guard@.channel,
            r.1 == release_answer(old(self)@, guard@.session),
            final(self)@ == release_state(old(self)@, guard@.session),
    {
        let (channel, session) = guard.into_parts();
        (channel, self.release(session))
    }
}

/// What `r` and the state `after` are where a request for the session of
/// `id`, for an operation that needs the capacity `bits`, meets the state
/// `before`.
pub open spec fn opened_for(
    profiles: Profiles,
    before: ManagerView,
    id: Seq<char>,
    bits: u32,
    r: Result<OpenStep, Error>,
    after: ManagerView,
) -> bool {
    if profiles.contains_key(id) && !profiles[id].allows(bits) {
        &&& r matches Err(e)
        &&& e@ == ErrorView::NotSupported(id)
        &&& after == before
    } else {
        opened(profiles, before, id, r, after)
    }
}

} // verus!
