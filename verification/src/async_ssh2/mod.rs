//! The readiness adapter: how a protocol engine that never blocks is driven
//! by a scheduler that suspends tasks until a socket is ready.
//!
//! The engine is called; where it says that it would block, it is asked in
//! which direction, the task is suspended until the socket is ready in that
//! direction, and the engine is called again. The functions here decide
//! each step from what the engine and the socket have said. The caller makes
//! the calls and suspends.

pub mod error;

use vstd::prelude::*;
use crate::async_ssh2::error::{Error, ErrorView, IoErrorKind, IoFailure, Ssh2Failure};

verus! {

/// The directions in which the engine is blocked, as it reports them.
#[derive(Clone, Copy, Debug, PartialEq, Eq, Structural)]
pub enum BlockDirections {
    Neither,
    Inbound,
    Outbound,
    Both,
}

/// What a task waits for on a socket.
#[derive(Clone, Copy, Debug, PartialEq, Eq, Structural)]
pub enum Interest {
    Readable,
    Writable,
    Both,
}

/// The readiness to wait for where the engine is blocked in `directions`:
/// none where it names no direction.
pub open spec fn interest_of(directions: BlockDirections) -> Option<Interest> {
    match directions {
        BlockDirections::Neither => None,
        BlockDirections::Inbound => Some(Interest::Readable),
        BlockDirections::Outbound => Some(Interest::Writable),
        BlockDirections::Both => Some(Interest::Both),
    }
}

/// The readiness to wait for where the engine is blocked in `directions`.
pub fn interest(directions: BlockDirections) -> (r: Option<Interest>)
    ensures
        r == interest_of(directions),
{
    match directions {
        BlockDirections::Neither => None,
        BlockDirections::Inbound => Some(Interest::Readable),
        BlockDirections::Outbound => Some(Interest::Writable),
        BlockDirections::Both => Some(Interest::Both),
    }
}

/// What follows a call of the engine.
#[derive(Debug, PartialEq, Eq)]
pub enum Next<R, E> {
    /// The operation is through, with this result.
    Done(Result<R, E>),
    /// Suspend until the socket is ready in this way, then call again.
    Await(Interest),
    /// The engine says that it would block, and names no direction: it
    /// contradicts itself, and nothing sensible can follow.
    Inconsistent,
}

/// What follows a call of the engine that ended with `attempt`, while the
/// engine reports `directions`.
///
/// A result is passed on. So is an error, but for the one that says that
/// the call would block: then the task waits for exactly the readiness that
/// the engine names, and the call is made again only after that.
pub fn poll_ssh2_fn<R>(attempt: Result<R, Ssh2Failure>, directions: BlockDirections) -> (r: Next<
    R,
    Error,
>)
    ensures
        match attempt {
            Ok(v) => r == Next::<R, Error>::Done(Ok(v)),
            Err(e) => if !(e.code == error::ErrorCode::Session(error::EAGAIN)) {
                r matches Next::Done(Err(f)) && f@ == (ErrorView::SSH2 {
                    code: e.code,
                    message: e.message@,
                })
            } else {
                match interest_of(directions) {
                    Some(i) => r == Next::<R, Error>::Await(i),
                    None => r == Next::<R, Error>::Inconsistent,
                }
            },
        },
{
    match attempt {
        Ok(v) => Next::Done(Ok(v)),
        Err(e) => {
            if e.would_block() {
                match interest(directions) {
                    Some(i) => Next::Await(i),
                    None => Next::Inconsistent,
                }
            } else {
                Next::Done(Err(Error::SSH2(e)))
            }
        },
    }
}

/// What follows a call of a stream of the engine that ended with
/// `attempt`, while the engine reports `directions`.
///
/// As [`poll_ssh2_fn`], for calls that report their errors as those of a
/// socket.
pub fn poll_ssh2_io_fn<R>(attempt: Result<R, IoFailure>, directions: BlockDirections) -> (r: Next<
    R,
    IoFailure,
>)
    ensures
        match attempt {
            Ok(v) => r == Next::<R, IoFailure>::Done(Ok(v)),
            Err(e) => if !(e.kind == IoErrorKind::WouldBlock) {
                r == Next::<R, IoFailure>::Done(Err(e))
            } else {
                match interest_of(directions) {
                    Some(i) => r == Next::<R, IoFailure>::Await(i),
                    None => r == Next::<R, IoFailure>::Inconsistent,
                }
            },
        },
{
    match attempt {
        Ok(v) => Next::Done(Ok(v)),
        Err(e) => {
            match e.kind {
                IoErrorKind::WouldBlock => match interest(directions) {
                    Some(i) => Next::Await(i),
                    None => Next::Inconsistent,
                },
                _ => Next::Done(Err(e)),
            }
        },
    }
}

/// What a look at the readiness of a socket has found.
#[derive(Debug, PartialEq, Eq)]
pub enum Probe {
    /// The socket is not ready: the task will be woken when it is.
    Pending,
    /// The socket is ready, or has failed.
    Ready(Result<(), IoFailure>),
}

/// What follows a look at the readiness of a socket.
#[derive(Debug, PartialEq, Eq)]
pub enum AfterProbe {
    /// The task stays suspended.
    Pending,
    /// The operation fails with this error of the socket.
    Fail(IoFailure),
    /// The socket can be read: look whether it can be written, too.
    ProbeWritable,
    /// The engine is called again.
    Retry,
}

/// What follows the first look at the socket of a task that waits for
/// `interest`: for reading where it waits for reading or for both, for
/// writing where it waits for writing.
///
/// A task that waits for both looks at writing only once reading is ready,
/// and what it finds then is followed as the look of a task that waits for
/// writing.
pub fn after_probe(interest: Interest, probe: Probe) -> (r: AfterProbe)
    ensures
        r == match probe {
            Probe::Pending => AfterProbe::Pending,
            Probe::Ready(Err(e)) => AfterProbe::Fail(e),
            Probe::Ready(Ok(())) => if interest == Interest::Both {
                AfterProbe::ProbeWritable
            } else {
                AfterProbe::Retry
            },
        },
{
    match probe {
        Probe::Pending => AfterProbe::Pending,
        Probe::Ready(Err(e)) => AfterProbe::Fail(e),
        Probe::Ready(Ok(())) => match interest {
            Interest::Both => AfterProbe::ProbeWritable,
            _ => AfterProbe::Retry,
        },
    }
}

/// What follows the wait of a task for `interest`, where the wait for
/// reading ended with `readable` and the wait for writing with `writable`;
/// a wait that was not made counts as one that went well.
///
/// An error of the socket ends the operation, that of reading before that
/// of writing. Else the engine is called again.
pub fn after_wait(
    interest: Interest,
    readable: Result<(), IoFailure>,
    writable: Result<(), IoFailure>,
) -> (r: Result<(), Error>)
    ensures
        match r {
            Ok(()) => waited_for(interest, readable, writable) is None,
            Err(e) => waited_for(interest, readable, writable) matches Some(f) && e@ == (
            ErrorView::IO { kind: f.kind, message: f.message@ }),
        },
{
    let read_matters = match interest {
        Interest::Writable => false,
        _ => true,
    };
    let write_matters = match interest {
        Interest::Readable => false,
        _ => true,
    };
    if read_matters {
        match readable {
            Err(e) => {
                return Err(Error::IO(e));
            },
            Ok(()) => {},
        }
    }
    if write_matters {
        match writable {
            Err(e) => {
                return Err(Error::IO(e));
            },
            Ok(()) => {},
        }
    }
    Ok(())
}

/// The error that ends the wait of a task for `interest`, if one does.
pub open spec fn waited_for(
    interest: Interest,
    readable: Result<(), IoFailure>,
    writable: Result<(), IoFailure>,
) -> Option<IoFailure> {
    if interest != Interest::Writable && readable is Err {
        Some(readable->Err_0)
    } else if interest != Interest::Readable && writable is Err {
        Some(writable->Err_0)
    } else {
        None
    }
}

} // verus!
