//! Guards: the handles that keep a session alive.

use vstd::prelude::*;
use crate::text::opt_view;

verus! {

/// The name of one live session. The sessions themselves, with their
/// sockets, are kept by the caller under these names.
#[derive(Clone, Copy, Debug, PartialEq, Eq, Hash, Structural)]
pub struct SessionHandle(pub u64);

/// The name of one open channel of a session.
#[derive(Clone, Copy, Debug, PartialEq, Eq, Hash, Structural)]
pub struct ChannelHandle(pub u64);

/// A share in a session. A guard of a cached session counts in the
/// session's entry under `id`; a guard without `id` is the only owner of its
/// session.
#[derive(Debug)]
pub struct PpSessionGuard {
    inner: SessionHandle,
    id: Option<String>,
}

/// The mathematical content of a [`PpSessionGuard`].
pub struct GuardView {
    pub session: SessionHandle,
    pub id: Option<Seq<char>>,
}

impl View for PpSessionGuard {
    type V = GuardView;

    closed spec fn view(&self) -> GuardView {
        GuardView { session: self.inner, id: opt_view(self.id) }
    }
}

impl PpSessionGuard {
    /// A guard of session `inner`, counted under `id` if there is one.
    pub fn new(inner: SessionHandle, id: Option<String>) -> (r: Self)
        ensures
            r@ == (GuardView { session: inner, id: opt_view(id) }),
    {
        PpSessionGuard { inner, id }
    }

    /// The session that the guard keeps alive.
    pub fn session(&self) -> (r: SessionHandle)
        ensures
            r == self@.session,
    {
        self.inner
    }

    /// The identity under which the guard is counted, if it is.
    pub fn id(&self) -> (r: &Option<String>)
        ensures
            opt_view(*r) == self@.id,
    {
        &self.id
    }

    /// Whether the guard counts in a cache entry.
    pub fn is_cached(&self) -> (r: bool)
        ensures
            r == self@.id is Some,
    {
        self.id.is_some()
    }

    /// The parts of the guard.
    pub fn into_parts(self) -> (r: (SessionHandle, Option<String>))
        ensures
            r.0 == self@.session,
            opt_view(r.1) == self@.id,
    {
        (self.inner, self.id)
    }
}

} // verus!
