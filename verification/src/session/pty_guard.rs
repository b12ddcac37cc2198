//! Guards of channels: a channel together with its share in the session
//! that carries it.

use vstd::prelude::*;
use crate::session::session_guard::{ChannelHandle, GuardView, PpSessionGuard};

verus! {

/// An interactive terminal channel and the guard of its session. As long as
/// the terminal is in use, the session counts as shared.
#[derive(Debug)]
pub struct PpPtyGuard {
    inner: ChannelHandle,
    _session: PpSessionGuard,
}

/// A tunnel channel and the guard of its session. A session that is
/// carried by the tunnel keeps, through it, the carrying session alive.
#[derive(Debug)]
pub struct PpTunnelGuard {
    inner: ChannelHandle,
    _session: PpSessionGuard,
}

/// The mathematical content of a guard of a channel.
pub struct ChannelGuardView {
    pub channel: ChannelHandle,
    pub session: GuardView,
}

impl View for PpPtyGuard {
    type V = ChannelGuardView;

    closed spec fn view(&self) -> ChannelGuardView {
        ChannelGuardView { channel: self.inner, session: self._session@ }
    }
}

impl View for PpTunnelGuard {
    type V = ChannelGuardView;

    closed spec fn view(&self) -> ChannelGuardView {
        ChannelGuardView { channel: self.inner, session: self._session@ }
    }
}

impl PpPtyGuard {
    /// The guard of terminal `inner`, opened on the session of `s`.
    pub fn new(inner: ChannelHandle, s: PpSessionGuard) -> (r: Self)
        ensures
            r@ == (ChannelGuardView { channel: inner, session: s@ }),
    {
        PpPtyGuard { inner, _session: s }
    }

    /// The terminal channel.
    pub fn channel(&self) -> (r: ChannelHandle)
        ensures
            r == self@.channel,
    {
        self.inner
    }

    /// The guard of the session.
    pub fn session(&self) -> (r: &PpSessionGuard)
        ensures
            r@ == self@.session,
    {
        &self._session
    }

    /// Gives up the terminal: the channel to close, and the session guard to
    /// release.
    pub fn into_parts(self) -> (r: (ChannelHandle, PpSessionGuard))
        ensures
            r.0 == self@.channel,
            r.1@ == self@.session,
    {
        (self.inner, self._session)
    }
}

impl PpTunnelGuard {
    /// The guard of tunnel `inner`, opened on the session of `s`.
    pub fn new(inner: ChannelHandle, s: PpSessionGuard) -> (r: Self)
        ensures
            r@ == (ChannelGuardView { channel: inner, session: s@ }),
    {
        PpTunnelGuard { inner, _session: s }
    }

    /// The tunnel channel.
    pub fn channel(&self) -> (r: ChannelHandle)
        ensures
            r == self@.channel,
    {
        self.inner
    }

    /// The guard of the session.
    pub fn session(&self) -> (r: &PpSessionGuard)
        ensures
            r@ == self@.session,
    {
        &self._session
    }

    /// Gives up the tunnel: the channel to close, and the session guard to
    /// release.
    pub fn into_parts(self) -> (r: (ChannelHandle, PpSessionGuard))
        ensures
            r.0 == self@.channel,
            r.1@ == self@.session,
    {
        (self.inner, self._session)
    }
}

} // verus!
