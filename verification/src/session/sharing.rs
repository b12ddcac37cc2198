//! Laws of sharing: what holds of a session manager whatever the order in
//! which concurrent requesters act.
//!
//! Requesters of one shared endpoint are modelled by what each of them is
//! doing. A requester acts by asking the manager, by reporting the outcome
//! of the connection it was told to make, or by handing its guard back. The
//! manager changes as the contracts of
//! [`PpSessionManager`](crate::session::manager::PpSessionManager) say. A
//! schedule picks who acts next, and how a connection attempt ends.

use vstd::prelude::*;
use vstd::multiset::Multiset;
use crate::session::builder::{resolvable, Profiles};
use crate::session::manager::{next_step, ManagerView, Step};
use crate::session::session_guard::SessionHandle;

verus! {

/// What one requester is doing.
pub enum Requester {
    /// It has no answer yet, or was told to wait.
    Asking,
    /// It was given the ticket and is connecting the endpoint.
    Connecting,
    /// It holds a guard of this session.
    Holding(SessionHandle),
    /// It has handed its guard back.
    Done,
    /// Its request has failed.
    Failed,
}

/// The states of a requester, without what they carry.
pub enum Kind {
    Asking,
    Connecting,
    Holding,
    Done,
    Failed,
}

/// The state of a requester, without what it carries.
pub open spec fn kind_of(r: Requester) -> Kind {
    match r {
        Requester::Asking => Kind::Asking,
        Requester::Connecting => Kind::Connecting,
        Requester::Holding(_) => Kind::Holding,
        Requester::Done => Kind::Done,
        Requester::Failed => Kind::Failed,
    }
}

/// The number of requesters in state `k`.
pub open spec fn tally(rs: Seq<Requester>, k: Kind) -> nat
    decreases rs.len(),
{
    if rs.len() == 0 {
        0
    } else {
        tally(rs.drop_last(), k) + if kind_of(rs.last()) == k {
            1nat
        } else {
            0nat
        }
    }
}

/// A manager, the requesters of one identity, and what has happened so far.
pub struct World {
    pub profiles: Profiles,
    pub manager: ManagerView,
    pub requesters: Seq<Requester>,
    /// The number of tickets given out.
    pub attempts: nat,
    /// The number of times the entry was taken out of the cache.
    pub evictions: nat,
}

/// The world after requester `i` has acted. Where it was connecting,
/// `outcome` is the session of the attempt, or nothing if the attempt
/// failed.
pub open spec fn step(w: World, id: Seq<char>, i: int, outcome: Option<SessionHandle>) -> World {
    if !(0 <= i < w.requesters.len()) {
        w
    } else {
        match w.requesters[i] {
            Requester::Asking => match next_step(w.profiles, w.manager, id) {
                Step::Ready => World {
                    manager: w.manager.shared(id),
                    requesters: w.requesters.update(
                        i,
                        Requester::Holding(w.manager.cache[id].session),
                    ),
                    ..w
                },
                Step::Wait => w,
                Step::Connect => World {
                    manager: w.manager.begun(id),
                    requesters: w.requesters.update(i, Requester::Connecting),
                    attempts: w.attempts + 1,
                    ..w
                },
                Step::NotFound | Step::Refused => World {
                    requesters: w.requesters.update(i, Requester::Failed),
                    ..w
                },
            },
            Requester::Connecting => World {
                manager: w.manager.finished(id, outcome),
                requesters: w.requesters.update(
                    i,
                    match outcome {
                        Some(s) => Requester::Holding(s),
                        None => Requester::Failed,
                    },
                ),
                ..w
            },
            Requester::Holding(_) => World {
                manager: w.manager.released(id),
                requesters: w.requesters.update(i, Requester::Done),
                evictions: w.evictions + if w.manager.cache[id].refcount <= 1 {
                    1nat
                } else {
                    0nat
                },
                ..w
            },
            Requester::Done | Requester::Failed => w,
        }
    }
}

/// The world after the requesters have acted as `schedule` says, one entry
/// after the other.
pub open spec fn run(w: World, id: Seq<char>, schedule: Seq<(int, Option<SessionHandle>)>) -> World
    decreases schedule.len(),
{
    if schedule.len() == 0 {
        w
    } else {
        step(run(w, id, schedule.drop_last()), id, schedule.last().0, schedule.last().1)
    }
}

/// `n` requesters that have not asked yet, before a manager in which the
/// identity is neither live nor being connected.
pub open spec fn start(profiles: Profiles, manager: ManagerView, n: nat) -> World {
    World {
        profiles,
        manager,
        requesters: Seq::new(n, |i: int| Requester::Asking),
        attempts: 0,
        evictions: 0,
    }
}

/// What requesters and manager have to do with each other: the requester
/// that connects is the one the manager has marked, the guards held are the
/// guards counted, all of them are of the session in the cache, and every
/// ticket is accounted for.
pub open spec fn sharing(w: World, id: Seq<char>) -> bool {
    &&& w.manager.wf()
    &&& w.profiles.contains_key(id)
    &&& w.profiles[id].cacheable()
    &&& resolvable(w.profiles, id)
    &&& w.requesters.len() <= usize::MAX
    &&& tally(w.requesters, Kind::Connecting) == if w.manager.connecting.contains(id) {
        1nat
    } else {
        0nat
    }
    &&& tally(w.requesters, Kind::Holding) == w.manager.refcount(id)
    &&& forall|i: int|
        0 <= i < w.requesters.len() ==> ((#[trigger] w.requesters[i]) matches Requester::Holding(s)
            ==> w.manager.cache.contains_key(id) && w.manager.cache[id].session == s)
    &&& w.attempts == tally(w.requesters, Kind::Connecting) + tally(w.requesters, Kind::Failed)
        + w.evictions + if w.manager.cache.contains_key(id) {
        1nat
    } else {
        0nat
    }
    &&& w.evictions <= tally(w.requesters, Kind::Done)
}

/// A change of one requester moves one unit of the tally from its old state
/// to its new one.
pub proof fn lemma_tally_update(rs: Seq<Requester>, i: int, r: Requester, k: Kind)
    requires
        0 <= i < rs.len(),
    ensures
        tally(rs.update(i, r), k) + (if kind_of(rs[i]) == k {
            1nat
        } else {
            0nat
        }) == tally(rs, k) + (if kind_of(r) == k {
            1nat
        } else {
            0nat
        }),
    decreases rs.len(),
{
    let u = rs.update(i, r);
    if i == rs.len() - 1 {
        assert(u.drop_last() =~= rs.drop_last());
    } else {
        lemma_tally_update(rs.drop_last(), i, r, k);
        assert(u.drop_last() =~= rs.drop_last().update(i, r));
    }
}

/// No state is tallied more often than there are requesters, and no state
/// holds all of them while one is in another.
pub proof fn lemma_tally_bound(rs: Seq<Requester>, k: Kind)
    ensures
        tally(rs, k) <= rs.len(),
        (exists|i: int| 0 <= i < rs.len() && kind_of(#[trigger] rs[i]) != k) ==> tally(rs, k)
            < rs.len(),
    decreases rs.len(),
{
    if rs.len() > 0 {
        let t = rs.drop_last();
        lemma_tally_bound(t, k);
        if exists|i: int| 0 <= i < rs.len() && kind_of(#[trigger] rs[i]) != k {
            let i = choose|i: int| 0 <= i < rs.len() && kind_of(#[trigger] rs[i]) != k;
            if i < t.len() {
                assert(kind_of(t[i]) != k);
            }
        }
    }
}

/// Where a state is tallied, a requester is in it.
pub proof fn lemma_tally_witness(rs: Seq<Requester>, k: Kind)
    requires
        tally(rs, k) > 0,
    ensures
        exists|i: int| 0 <= i < rs.len() && kind_of(#[trigger] rs[i]) == k,
    decreases rs.len(),
{
    if kind_of(rs.last()) == k {
        assert(kind_of(rs[rs.len() - 1]) == k);
    } else {
        lemma_tally_witness(rs.drop_last(), k);
        let i = choose|i: int| 0 <= i < rs.len() - 1 && kind_of(#[trigger] rs.drop_last()[i]) == k;
        assert(kind_of(rs[i]) == k);
    }
}

/// Where all requesters are in one state, it is tallied as often as there
/// are requesters, and no other state is tallied.
pub proof fn lemma_tally_all(rs: Seq<Requester>, k: Kind, other: Kind)
    requires
        forall|i: int| 0 <= i < rs.len() ==> kind_of(#[trigger] rs[i]) == k,
        other != k,
    ensures
        tally(rs, k) == rs.len(),
        tally(rs, other) == 0,
    decreases rs.len(),
{
    if rs.len() > 0 {
        let t = rs.drop_last();
        assert forall|i: int| 0 <= i < t.len() implies kind_of(#[trigger] t[i]) == k by {
            assert(kind_of(rs[i]) == k);
        }
        lemma_tally_all(t, k, other);
        assert(kind_of(rs[rs.len() - 1]) == k);
    }
}

/// Whoever acts, and however a connection attempt ends, requesters and
/// manager stay in step.
pub proof fn lemma_step_keeps_sharing(
    w: World,
    id: Seq<char>,
    i: int,
    outcome: Option<SessionHandle>,
)
    requires
        sharing(w, id),
    ensures
        sharing(step(w, id, i, outcome), id),
{
    let v = step(w, id, i, outcome);
    if 0 <= i < w.requesters.len() {
        let rs = w.requesters;
        let r = v.requesters[i];
        lemma_tally_update(rs, i, r, Kind::Asking);
        lemma_tally_update(rs, i, r, Kind::Connecting);
        lemma_tally_update(rs, i, r, Kind::Holding);
        lemma_tally_update(rs, i, r, Kind::Done);
        lemma_tally_update(rs, i, r, Kind::Failed);
        lemma_tally_bound(rs, Kind::Holding);
        match rs[i] {
            Requester::Asking => {
                assert(kind_of(rs[i]) != Kind::Holding);
                if w.manager.connecting.contains(id) {
                    lemma_tally_witness(rs, Kind::Connecting);
                }
            },
            Requester::Connecting => {
                assert(w.manager.connecting.contains(id)) by {
                    lemma_tally_bound(rs, Kind::Connecting);
                    if !w.manager.connecting.contains(id) {
                        assert(tally(rs, Kind::Connecting) == 0);
                        assert(v.requesters =~= rs.update(i, r));
                    }
                }
            },
            Requester::Holding(_) => {},
            Requester::Done | Requester::Failed => {},
        }
        assert forall|j: int| 0 <= j < v.requesters.len() implies ((
        #[trigger] v.requesters[j]) matches Requester::Holding(s) ==> v.manager.cache.contains_key(
            id,
        ) && v.manager.cache[id].session == s) by {
            if j != i && v.requesters[j] is Holding {
                assert(v.requesters[j] == rs[j]);
                assert(kind_of(rs[j]) == Kind::Holding);
                if rs[i] is Holding {
                    // Two guards are out: the one handed back is not the last.
                    lemma_two_holders(rs, i, j);
                }
                // While a guard is out nobody is connecting: the entry is
                // there, so the identity is not marked.
                assert(!(rs[i] is Connecting));
            }
        }
    }
}

/// Two requesters that hold a guard are tallied as two at least.
proof fn lemma_two_holders(rs: Seq<Requester>, i: int, j: int)
    requires
        0 <= i < rs.len(),
        0 <= j < rs.len(),
        i != j,
        kind_of(rs[i]) == Kind::Holding,
        kind_of(rs[j]) == Kind::Holding,
    ensures
        tally(rs, Kind::Holding) >= 2,
{
    let a = rs.update(i, Requester::Done);
    let b = a.update(j, Requester::Done);
    lemma_tally_update(rs, i, Requester::Done, Kind::Holding);
    lemma_tally_update(a, j, Requester::Done, Kind::Holding);
}

/// From a start in which the identity is neither live nor being connected,
/// every schedule keeps requesters and manager in step.
pub proof fn lemma_run_keeps_sharing(
    profiles: Profiles,
    manager: ManagerView,
    id: Seq<char>,
    n: nat,
    schedule: Seq<(int, Option<SessionHandle>)>,
)
    requires
        manager.wf(),
        !manager.cache.contains_key(id),
        !manager.connecting.contains(id),
        profiles.contains_key(id),
        profiles[id].cacheable(),
        resolvable(profiles, id),
        n <= usize::MAX,
    ensures
        sharing(run(start(profiles, manager, n), id, schedule), id),
        run(start(profiles, manager, n), id, schedule).requesters.len() == n,
    decreases schedule.len(),
{
    let w = start(profiles, manager, n);
    if schedule.len() == 0 {
        lemma_tally_all(w.requesters, Kind::Asking, Kind::Connecting);
        lemma_tally_all(w.requesters, Kind::Asking, Kind::Holding);
        lemma_tally_all(w.requesters, Kind::Asking, Kind::Failed);
        lemma_tally_all(w.requesters, Kind::Asking, Kind::Done);
    } else {
        lemma_run_keeps_sharing(profiles, manager, id, n, schedule.drop_last());
        lemma_step_keeps_sharing(
            run(w, id, schedule.drop_last()),
            id,
            schedule.last().0,
            schedule.last().1,
        );
    }
}

/// However `n` concurrent requests for one shared endpoint are scheduled,
/// at most one of them is connecting it at any time.
pub proof fn law_single_flight(
    profiles: Profiles,
    manager: ManagerView,
    id: Seq<char>,
    n: nat,
    schedule: Seq<(int, Option<SessionHandle>)>,
)
    requires
        manager.wf(),
        !manager.cache.contains_key(id),
        !manager.connecting.contains(id),
        profiles.contains_key(id),
        profiles[id].cacheable(),
        resolvable(profiles, id),
        n <= usize::MAX,
    ensures
        tally(run(start(profiles, manager, n), id, schedule).requesters, Kind::Connecting) <= 1,
{
    lemma_run_keeps_sharing(profiles, manager, id, n, schedule);
}

/// Once all of `n` concurrent requests for one shared endpoint hold their
/// guard, the endpoint was connected exactly once, all guards are of the one
/// session in the cache, and that session counts `n` guards.
pub proof fn law_one_session_for_all(
    profiles: Profiles,
    manager: ManagerView,
    id: Seq<char>,
    n: nat,
    schedule: Seq<(int, Option<SessionHandle>)>,
)
    requires
        manager.wf(),
        !manager.cache.contains_key(id),
        !manager.connecting.contains(id),
        profiles.contains_key(id),
        profiles[id].cacheable(),
        resolvable(profiles, id),
        0 < n <= usize::MAX,
        forall|i: int|
            0 <= i < n ==> (#[trigger] run(
                start(profiles, manager, n),
                id,
                schedule,
            ).requesters[i]) is Holding,
    ensures
        ({
            let w = run(start(profiles, manager, n), id, schedule);
            &&& w.attempts == 1
            &&& w.manager.cache.contains_key(id)
            &&& w.manager.cache[id].refcount == n
            &&& !w.manager.connecting.contains(id)
            &&& forall|i: int|
                0 <= i < n ==> (#[trigger] w.requesters[i]) == Requester::Holding(
                    w.manager.cache[id].session,
                )
        }),
{
    let w = run(start(profiles, manager, n), id, schedule);
    lemma_run_keeps_sharing(profiles, manager, id, n, schedule);
    assert forall|i: int| 0 <= i < w.requesters.len() implies kind_of(#[trigger] w.requesters[i])
        == Kind::Holding by {
        assert(w.requesters[i] is Holding);
    }
    lemma_tally_all(w.requesters, Kind::Holding, Kind::Connecting);
    lemma_tally_all(w.requesters, Kind::Holding, Kind::Failed);
    lemma_tally_all(w.requesters, Kind::Holding, Kind::Done);
    assert(w.requesters[0] is Holding);
}

/// Once each of `n` concurrent requesters of one shared endpoint has
/// handed its guard back or has failed, the cache has no entry for the
/// endpoint, and nobody is connecting it.
pub proof fn law_all_released(
    profiles: Profiles,
    manager: ManagerView,
    id: Seq<char>,
    n: nat,
    schedule: Seq<(int, Option<SessionHandle>)>,
)
    requires
        manager.wf(),
        !manager.cache.contains_key(id),
        !manager.connecting.contains(id),
        profiles.contains_key(id),
        profiles[id].cacheable(),
        resolvable(profiles, id),
        n <= usize::MAX,
        forall|i: int|
            0 <= i < n ==> ({
                let r = #[trigger] run(start(profiles, manager, n), id, schedule).requesters[i];
                r is Done || r is Failed
            }),
    ensures
        !run(start(profiles, manager, n), id, schedule).manager.cache.contains_key(id),
        !run(start(profiles, manager, n), id, schedule).manager.connecting.contains(id),
        run(start(profiles, manager, n), id, schedule).manager.refcount(id) == 0,
{
    let w = run(start(profiles, manager, n), id, schedule);
    lemma_run_keeps_sharing(profiles, manager, id, n, schedule);
    if tally(w.requesters, Kind::Holding) > 0 {
        lemma_tally_witness(w.requesters, Kind::Holding);
        let i = choose|i: int| 0 <= i < w.requesters.len() && kind_of(#[trigger] w.requesters[i])
            == Kind::Holding;
        assert(w.requesters[i] is Done || w.requesters[i] is Failed);
    }
    if tally(w.requesters, Kind::Connecting) > 0 {
        lemma_tally_witness(w.requesters, Kind::Connecting);
        let i = choose|i: int| 0 <= i < w.requesters.len() && kind_of(#[trigger] w.requesters[i])
            == Kind::Connecting;
        assert(w.requesters[i] is Done || w.requesters[i] is Failed);
    }
}

/// The count of an entry is the number of guards that are out, at every
/// moment of every schedule: it is never less than nothing, and the entry
/// is there if and only if a guard is out.
pub proof fn law_refcount(
    profiles: Profiles,
    manager: ManagerView,
    id: Seq<char>,
    n: nat,
    schedule: Seq<(int, Option<SessionHandle>)>,
)
    requires
        manager.wf(),
        !manager.cache.contains_key(id),
        !manager.connecting.contains(id),
        profiles.contains_key(id),
        profiles[id].cacheable(),
        resolvable(profiles, id),
        n <= usize::MAX,
    ensures
        ({
            let w = run(start(profiles, manager, n), id, schedule);
            &&& w.manager.refcount(id) == tally(w.requesters, Kind::Holding)
            &&& w.manager.cache.contains_key(id) <==> tally(w.requesters, Kind::Holding) > 0
        }),
{
    lemma_run_keeps_sharing(profiles, manager, id, n, schedule);
}

/// Every guard that is out is counted: for each identity the cache counts
/// as many guards as `held` has of it. `held` has the identity of each
/// guard of a shared session that was handed out and not yet handed back,
/// whoever holds it: a requester, a terminal, or a tunnel that carries
/// another session.
pub open spec fn accounted(m: ManagerView, held: Multiset<Seq<char>>) -> bool {
    &&& m.wf()
    &&& forall|k: Seq<char>| m.refcount(k) == #[trigger] held.count(k)
}

/// Handing out a guard, and entering a new session with its first guard,
/// keep every guard counted.
pub proof fn law_handing_out_counts(m: ManagerView, held: Multiset<Seq<char>>, id: Seq<char>, s:
    SessionHandle)
    requires
        accounted(m, held),
    ensures
        m.cache.contains_key(id) && m.cache[id].refcount < usize::MAX ==> accounted(
            m.shared(id),
            held.insert(id),
        ),
        m.connecting.contains(id) ==> accounted(m.finished(id, Some(s)), held.insert(id)),
        m.connecting.contains(id) ==> accounted(m.finished(id, None), held),
        !m.cache.contains_key(id) ==> accounted(m.begun(id), held),
{
    if m.cache.contains_key(id) && m.cache[id].refcount < usize::MAX {
        let v = m.shared(id);
        assert forall|k: Seq<char>| v.refcount(k) == #[trigger] held.insert(id).count(k) by {
            assert(m.refcount(k) == held.count(k));
        }
    }
    if m.connecting.contains(id) {
        let v = m.finished(id, Some(s));
        assert(!m.cache.contains_key(id));
        assert forall|k: Seq<char>| v.refcount(k) == #[trigger] held.insert(id).count(k) by {
            assert(m.refcount(k) == held.count(k));
        }
        let u = m.finished(id, None);
        assert forall|k: Seq<char>| u.refcount(k) == #[trigger] held.count(k) by {}
    }
    if !m.cache.contains_key(id) {
        let v = m.begun(id);
        assert forall|k: Seq<char>| v.refcount(k) == #[trigger] held.count(k) by {}
    }
}

/// Handing back a guard that is out keeps every other guard counted, and
/// touches no session but the guard's own: whoever holds a guard of
/// another identity finds its session in the cache as before. So a session
/// stays alive as long as a guard of it is held, and the transport of a
/// chained session, which the chained session holds by a tunnel, outlives
/// every guard of the chained session.
pub proof fn law_guard_keeps_session(
    m: ManagerView,
    held: Multiset<Seq<char>>,
    id: Seq<char>,
    other: Seq<char>,
)
    requires
        accounted(m, held),
        held.count(id) > 0,
    ensures
        m.cache.contains_key(id),
        accounted(m.released(id), held.remove(id)),
        held.remove(id).count(id) > 0 ==> m.released(id).cache.contains_key(id)
            && m.released(id).cache[id].session == m.cache[id].session,
        other != id ==> m.released(id).cache.contains_key(other) == m.cache.contains_key(other),
        other != id && m.cache.contains_key(other) ==> m.released(id).cache[other]
            == m.cache[other],
        other != id && held.count(other) > 0 ==> m.released(id).cache.contains_key(other),
{
    assert(m.refcount(id) == held.count(id));
    assert(m.refcount(other) == held.count(other));
    let v = m.released(id);
    assert forall|k: Seq<char>| v.refcount(k) == #[trigger] held.remove(id).count(k) by {
        assert(m.refcount(k) == held.count(k));
    }
}

/// Where no guard of an identity is out, the cache has no entry for it.
pub proof fn law_no_guard_no_entry(m: ManagerView, held: Multiset<Seq<char>>, id: Seq<char>)
    requires
        accounted(m, held),
    ensures
        m.cache.contains_key(id) <==> held.count(id) > 0,
{
    assert(m.refcount(id) == held.count(id));
}

} // verus!
