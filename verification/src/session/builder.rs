//! Resolution of transport chains.
//!
//! A profile may name another profile as its transport, which may name a
//! third, and so on. Before anything is connected the chain is followed from
//! the target to the profile that needs no transport. A chain that leaves
//! the store or comes back to itself is refused.

use vstd::prelude::*;
use crate::errors::{Error, ErrorView};
use crate::profile::{Profile, ProfileView};
use crate::storage::Storage;
use crate::text::{copy_opt_string, copy_string};

verus! {

/// The stored profiles by identity.
pub type Profiles = Map<Seq<char>, ProfileView>;

/// `t` follows transports: every identity of `t` but the last is stored, and
/// names the next one as its transport.
pub open spec fn is_trail(profiles: Profiles, t: Seq<Seq<char>>) -> bool {
    &&& t.len() > 0
    &&& forall|i: int|
        0 <= i < t.len() - 1 ==> profiles.contains_key(#[trigger] t[i]) && profiles[t[i]].transport
            == Some(t[i + 1])
}

/// `t` ends at a stored profile that needs no transport.
pub open spec fn reaches_root(profiles: Profiles, t: Seq<Seq<char>>) -> bool {
    &&& is_trail(profiles, t)
    &&& profiles.contains_key(t.last())
    &&& profiles[t.last()].transport is None
}

/// `t` ends at an identity under which nothing is stored.
pub open spec fn reaches_missing(profiles: Profiles, t: Seq<Seq<char>>) -> bool {
    &&& is_trail(profiles, t)
    &&& !profiles.contains_key(t.last())
}

/// `t` ends at an identity that it has passed before.
pub open spec fn reaches_again(profiles: Profiles, t: Seq<Seq<char>>) -> bool {
    &&& is_trail(profiles, t)
    &&& exists|j: int| 0 <= j < t.len() - 1 && #[trigger] t[j] == t.last()
}

/// The chain from `id` ends at a profile that needs no transport.
pub open spec fn resolvable(profiles: Profiles, id: Seq<char>) -> bool {
    exists|t: Seq<Seq<char>>| #[trigger] reaches_root(profiles, t) && t[0] == id
}

/// The chain from `id` leaves the store at `missing`.
pub open spec fn broken_at(profiles: Profiles, id: Seq<char>, missing: Seq<char>) -> bool {
    exists|t: Seq<Seq<char>>| #[trigger]
        reaches_missing(profiles, t) && t[0] == id && t.last() == missing
}

/// The chain from `id` comes back to `again`, and to no identity before it.
pub open spec fn cyclic_at(profiles: Profiles, id: Seq<char>, again: Seq<char>) -> bool {
    exists|t: Seq<Seq<char>>| #[trigger]
        reaches_again(profiles, t) && t[0] == id && t.last() == again && t.drop_last().no_duplicates()
}

/// Two trails from one identity agree as far as both go.
pub proof fn lemma_trails_agree(profiles: Profiles, a: Seq<Seq<char>>, b: Seq<Seq<char>>, i: int)
    requires
        is_trail(profiles, a),
        is_trail(profiles, b),
        a[0] == b[0],
        0 <= i < a.len(),
        i < b.len(),
    ensures
        a[i] == b[i],
    decreases i,
{
    if i > 0 {
        lemma_trails_agree(profiles, a, b, i - 1);
        assert(profiles[a[i - 1]].transport == Some(a[i]));
        assert(profiles[b[i - 1]].transport == Some(b[i]));
    }
}

/// The rest of a trail is a trail.
pub proof fn lemma_trail_rest(profiles: Profiles, t: Seq<Seq<char>>, from: int)
    requires
        is_trail(profiles, t),
        0 <= from < t.len(),
    ensures
        is_trail(profiles, t.subrange(from, t.len() as int)),
{
    let r = t.subrange(from, t.len() as int);
    assert forall|i: int| 0 <= i < r.len() - 1 implies profiles.contains_key(#[trigger] r[i])
        && profiles[r[i]].transport == Some(r[i + 1]) by {
        assert(r[i] == t[from + i]);
        assert(r[i + 1] == t[from + i + 1]);
    }
}

/// A trail that passes an identity twice, then goes on as long again, passes
/// through stored profiles with a transport only: its last identity is one.
proof fn lemma_repeat_goes_on(profiles: Profiles, t: Seq<Seq<char>>, j: int, k: int)
    requires
        is_trail(profiles, t),
        0 <= j < k < t.len(),
        t[j] == t[k],
    ensures
        profiles.contains_key(t.last()),
        profiles[t.last()].transport is Some,
{
    let n = t.len() as int;
    let a = t.subrange(j, n);
    let b = t.subrange(k, n);
    lemma_trail_rest(profiles, t, j);
    lemma_trail_rest(profiles, t, k);
    lemma_trails_agree(profiles, b, a, n - 1 - k);
    assert(b[n - 1 - k] == t[n - 1]);
    assert(a[n - 1 - k] == t[j + n - 1 - k]);
    assert(profiles.contains_key(t[j + n - 1 - k]));
}

/// The chain from an identity ends in one way only: at a root, at a missing
/// profile, or at an identity it has passed before; and it ends at one
/// place only.
pub proof fn lemma_resolution_is_unique(
    profiles: Profiles,
    id: Seq<char>,
    x: Seq<char>,
    y: Seq<char>,
)
    ensures
        !(resolvable(profiles, id) && broken_at(profiles, id, x)),
        !(resolvable(profiles, id) && cyclic_at(profiles, id, x)),
        !(broken_at(profiles, id, x) && cyclic_at(profiles, id, y)),
        broken_at(profiles, id, x) && broken_at(profiles, id, y) ==> x == y,
        cyclic_at(profiles, id, x) && cyclic_at(profiles, id, y) ==> x == y,
{
    if resolvable(profiles, id) && broken_at(profiles, id, x) {
        let a = choose|t: Seq<Seq<char>>| #[trigger] reaches_root(profiles, t) && t[0] == id;
        let b = choose|t: Seq<Seq<char>>| #[trigger]
            reaches_missing(profiles, t) && t[0] == id && t.last() == x;
        lemma_ends_differ(profiles, a, b);
    }
    if resolvable(profiles, id) && cyclic_at(profiles, id, x) {
        let a = choose|t: Seq<Seq<char>>| #[trigger] reaches_root(profiles, t) && t[0] == id;
        let b = choose|t: Seq<Seq<char>>| #[trigger]
            reaches_again(profiles, t) && t[0] == id && t.last() == x
                && t.drop_last().no_duplicates();
        lemma_no_end_after_repeat(profiles, a, b);
    }
    if broken_at(profiles, id, x) && cyclic_at(profiles, id, y) {
        let a = choose|t: Seq<Seq<char>>| #[trigger]
            reaches_missing(profiles, t) && t[0] == id && t.last() == x;
        let b = choose|t: Seq<Seq<char>>| #[trigger]
            reaches_again(profiles, t) && t[0] == id && t.last() == y
                && t.drop_last().no_duplicates();
        lemma_no_end_after_repeat(profiles, a, b);
    }
    if broken_at(profiles, id, x) && broken_at(profiles, id, y) {
        let a = choose|t: Seq<Seq<char>>| #[trigger]
            reaches_missing(profiles, t) && t[0] == id && t.last() == x;
        let b = choose|t: Seq<Seq<char>>| #[trigger]
            reaches_missing(profiles, t) && t[0] == id && t.last() == y;
        if a.len() <= b.len() {
            lemma_trails_agree(profiles, a, b, a.len() - 1);
        } else {
            lemma_trails_agree(profiles, a, b, b.len() - 1);
        }
    }
    if cyclic_at(profiles, id, x) && cyclic_at(profiles, id, y) {
        let a = choose|t: Seq<Seq<char>>| #[trigger]
            reaches_again(profiles, t) && t[0] == id && t.last() == x
                && t.drop_last().no_duplicates();
        let b = choose|t: Seq<Seq<char>>| #[trigger]
            reaches_again(profiles, t) && t[0] == id && t.last() == y
                && t.drop_last().no_duplicates();
        lemma_first_repeat(profiles, a, b);
        lemma_first_repeat(profiles, b, a);
        lemma_trails_agree(profiles, a, b, a.len() - 1);
    }
}

/// A trail to a root and a trail to a missing profile do not start at one
/// identity.
proof fn lemma_ends_differ(profiles: Profiles, a: Seq<Seq<char>>, b: Seq<Seq<char>>)
    requires
        reaches_root(profiles, a),
        reaches_missing(profiles, b),
    ensures
        a[0] != b[0],
{
    if a[0] == b[0] {
        if a.len() <= b.len() {
            lemma_trails_agree(profiles, a, b, a.len() - 1);
            if a.len() < b.len() {
                assert(profiles[b[a.len() - 1]].transport == Some(b[a.len() as int]));
            }
        } else {
            lemma_trails_agree(profiles, a, b, b.len() - 1);
            assert(profiles.contains_key(a[b.len() - 1]));
        }
    }
}

/// A trail that ends, at a root or at a missing profile, and a trail that
/// comes back to itself do not start at one identity.
proof fn lemma_no_end_after_repeat(profiles: Profiles, a: Seq<Seq<char>>, b: Seq<Seq<char>>)
    requires
        reaches_root(profiles, a) || reaches_missing(profiles, a),
        reaches_again(profiles, b),
    ensures
        a[0] != b[0],
{
    if a[0] == b[0] {
        let j = choose|j: int| 0 <= j < b.len() - 1 && #[trigger] b[j] == b.last();
        if a.len() < b.len() {
            lemma_trails_agree(profiles, a, b, a.len() - 1);
            assert(profiles.contains_key(b[a.len() - 1]));
            assert(profiles[b[a.len() - 1]].transport == Some(b[a.len() as int]));
        } else {
            lemma_trails_agree(profiles, a, b, j);
            lemma_trails_agree(profiles, a, b, b.len() - 1);
            lemma_repeat_goes_on(profiles, a, j, b.len() - 1);
        }
    }
}

/// Of two trails from one identity that come back to themselves, the one
/// that has passed no identity twice before is not the longer one.
proof fn lemma_first_repeat(profiles: Profiles, a: Seq<Seq<char>>, b: Seq<Seq<char>>)
    requires
        reaches_again(profiles, a),
        reaches_again(profiles, b),
        a[0] == b[0],
        a.drop_last().no_duplicates(),
    ensures
        a.len() <= b.len(),
{
    if a.len() > b.len() {
        let j = choose|j: int| 0 <= j < b.len() - 1 && #[trigger] b[j] == b.last();
        lemma_trails_agree(profiles, a, b, j);
        lemma_trails_agree(profiles, a, b, b.len() - 1);
        let d = a.drop_last();
        assert(d[j] == a[j]);
        assert(d[b.len() - 1] == a[b.len() - 1]);
    }
}

/// One profile of a chain, with the identity it is stored under.
#[derive(Debug, PartialEq, Eq)]
pub struct Hop {
    pub id: String,
    pub profile: Profile,
}

/// The mathematical content of a [`Hop`].
pub struct HopView {
    pub id: Seq<char>,
    pub profile: ProfileView,
}

impl View for Hop {
    type V = HopView;

    open spec fn view(&self) -> HopView {
        HopView { id: self.id@, profile: self.profile@ }
    }
}

/// The identities of `plan`, last hop first.
pub open spec fn trail_of(plan: Seq<Hop>) -> Seq<Seq<char>> {
    Seq::new(plan.len(), |i: int| plan[plan.len() - 1 - i].id@)
}

/// `plan` is the chain of `id`, the profile without transport first and the
/// profile stored under `id` last, each hop as it is stored.
pub open spec fn is_plan(profiles: Profiles, id: Seq<char>, plan: Seq<Hop>) -> bool {
    &&& plan.len() > 0
    &&& plan.last().id@ == id
    &&& plan[0].profile@.transport is None
    &&& forall|i: int|
        0 <= i < plan.len() ==> profiles.contains_key((#[trigger] plan[i]).id@) && profiles[plan[i].id@]
            == plan[i].profile@
    &&& forall|i: int|
        0 < i < plan.len() ==> (#[trigger] plan[i]).profile@.transport == Some(plan[i - 1].id@)
}

/// A plan is a trail to a root, read backwards.
pub proof fn lemma_plan_is_trail(profiles: Profiles, id: Seq<char>, plan: Seq<Hop>)
    requires
        is_plan(profiles, id, plan),
    ensures
        reaches_root(profiles, trail_of(plan)),
        trail_of(plan)[0] == id,
        resolvable(profiles, id),
{
    let t = trail_of(plan);
    let n = plan.len() as int;
    assert forall|i: int| 0 <= i < t.len() - 1 implies profiles.contains_key(#[trigger] t[i])
        && profiles[t[i]].transport == Some(t[i + 1]) by {
        assert(t[i] == plan[n - 1 - i].id@);
        assert(plan[n - 1 - i].profile@.transport == Some(plan[n - 1 - i - 1].id@));
    }
    assert(t.last() == plan[0].id@);
    assert(reaches_root(profiles, t));
}

/// The chain of an identity is one chain: two plans for it have the same
/// hops in the same order.
pub proof fn law_plan_is_unique(profiles: Profiles, id: Seq<char>, p: Seq<Hop>, q: Seq<Hop>)
    requires
        is_plan(profiles, id, p),
        is_plan(profiles, id, q),
    ensures
        p.len() == q.len(),
        forall|i: int| 0 <= i < p.len() ==> (#[trigger] p[i])@ == q[i]@,
{
    let a = trail_of(p);
    let b = trail_of(q);
    lemma_plan_is_trail(profiles, id, p);
    lemma_plan_is_trail(profiles, id, q);
    if a.len() < b.len() {
        lemma_trails_agree(profiles, a, b, a.len() - 1);
        assert(profiles[b[a.len() - 1]].transport == Some(b[a.len() as int]));
    } else if b.len() < a.len() {
        lemma_trails_agree(profiles, b, a, b.len() - 1);
        assert(profiles[a[b.len() - 1]].transport == Some(a[b.len() as int]));
    }
    assert forall|i: int| 0 <= i < p.len() implies (#[trigger] p[i])@ == q[i]@ by {
        let n = p.len() as int;
        lemma_trails_agree(profiles, a, b, n - 1 - i);
        assert(a[n - 1 - i] == p[i].id@);
        assert(b[n - 1 - i] == q[i].id@);
    }
}

/// A profile that names itself as its transport has no chain: its chain
/// comes back to itself at once, and neither ends nor leaves the store.
pub proof fn law_own_transport_is_cyclic(profiles: Profiles, id: Seq<char>)
    requires
        profiles.contains_key(id),
        profiles[id].transport == Some(id),
    ensures
        cyclic_at(profiles, id, id),
        !resolvable(profiles, id),
        forall|x: Seq<char>| !broken_at(profiles, id, x),
{
    let t = seq![id, id];
    assert(is_trail(profiles, t));
    assert(t[0] == t.last());
    assert(reaches_again(profiles, t));
    assert(t.drop_last() =~= seq![id]);
    assert(cyclic_at(profiles, id, id));
    assert forall|x: Seq<char>| !broken_at(profiles, id, x) by {
        lemma_resolution_is_unique(profiles, id, x, id);
    }
    lemma_resolution_is_unique(profiles, id, id, id);
}

/// Follows transport chains in a profile store.
pub struct Builder<S: Storage> {
    storage: S,
}

impl<S: Storage> Builder<S> {
    /// A builder over `storage`.
    pub fn new(storage: S) -> (r: Self)
        ensures
            r.storage() == storage,
    {
        Builder { storage }
    }

    /// The profile store.
    pub closed spec fn storage(&self) -> S {
        self.storage
    }

    /// The stored profiles by identity.
    pub open spec fn profiles(&self) -> Profiles {
        self.storage().profiles()
    }

    /// The profile store.
    pub fn store(&self) -> (r: &S)
        ensures
            *r == self.storage(),
    {
        &self.storage
    }

    /// The profile store, to change it.
    pub fn store_mut(&mut self) -> (r: &mut S)
        ensures
            *r == old(self).storage(),
            *final(r) == final(self).storage(),
    {
        &mut self.storage
    }

    /// The chain of `id`: the profile that needs no transport first, then
    /// each profile that is carried by the one before it, the profile of
    /// `id` last.
    ///
    /// Fails with `ProfileNotFound` and the missing identity where the chain
    /// leaves the store, and with `CyclicTransport` and the first identity
    /// that comes twice where the chain comes back to itself.
    pub fn resolve(&self, id: &String) -> (r: Result<Vec<Hop>, Error>)
        ensures
            match r {
                Ok(plan) => is_plan(self.profiles(), id@, plan@),
                Err(e) => {
                    ||| exists|x: Seq<char>|
                        e@ == ErrorView::ProfileNotFound(x) && #[trigger] broken_at(
                            self.profiles(),
                            id@,
                            x,
                        )
                    ||| exists|x: Seq<char>|
                        e@ == ErrorView::CyclicTransport(x) && #[trigger] cyclic_at(
                            self.profiles(),
                            id@,
                            x,
                        )
                },
            },
    {
        let n = self.storage.len();
        let ghost profiles = self.profiles();
        // The hops passed so far, the one of `id` first.
        let mut passed: Vec<Hop> = Vec::new();
        let mut current = copy_string(id);
        loop
            invariant
                profiles == self.profiles(),
                profiles.dom().finite(),
                n == profiles.dom().len(),
                is_trail(profiles, ids(passed@).push(current@)),
                ids(passed@).push(current@)[0] == id@,
                ids(passed@).no_duplicates(),
                forall|i: int|
                    0 <= i < passed.len() ==> profiles.contains_key((#[trigger] passed[i]).id@)
                        && profiles[passed[i].id@] == passed[i].profile@,
                passed.len() <= n,
            decreases n - passed.len(),
        {
            let ghost trail = ids(passed@).push(current@);
            if Self::has_passed(&passed, &current) {
                proof {
                    assert(trail.drop_last() =~= ids(passed@));
                    let j = choose|j: int| 0 <= j < passed.len() && passed[j].id@ == current@;
                    assert(trail[j] == trail.last());
                    assert(reaches_again(profiles, trail));
                    assert(cyclic_at(profiles, id@, current@));
                }
                return Err(Error::CyclicTransport(current));
            }
            match self.storage.get(&current) {
                Err(e) => {
                    proof {
                        assert(reaches_missing(profiles, trail));
                        assert(broken_at(profiles, id@, current@));
                    }
                    return Err(e);
                },
                Ok(profile) => {
                    let next = copy_opt_string(&profile.transport);
                    proof {
                        lemma_fits(profiles, trail);
                    }
                    passed.push(Hop { id: current, profile });
                    assert(ids(passed@) =~= trail);
                    match next {
                        None => {
                            return Ok(Self::reversed(passed, Ghost(profiles), Ghost(id@)));
                        },
                        Some(t) => {
                            current = t;
                            proof {
                                let longer = ids(passed@).push(current@);
                                assert forall|i: int| 0 <= i < longer.len() - 1 implies profiles.contains_key(
                                    #[trigger] longer[i],
                                ) && profiles[longer[i]].transport == Some(longer[i + 1]) by {
                                    if i < trail.len() - 1 {
                                        assert(longer[i] == trail[i]);
                                        assert(longer[i + 1] == trail[i + 1]);
                                    }
                                }
                            }
                        },
                    }
                },
            }
        }
    }

    /// Whether one of `passed` is stored under `id`.
    fn has_passed(passed: &Vec<Hop>, id: &String) -> (r: bool)
        ensures
            r == exists|j: int| 0 <= j < passed.len() && (#[trigger] passed[j]).id@ == id@,
    {
        let mut i: usize = 0;
        while i < passed.len()
            invariant
                i <= passed.len(),
                forall|j: int| 0 <= j < i ==> (#[trigger] passed[j]).id@ != id@,
            decreases passed.len() - i,
        {
            if passed[i].id == *id {
                return true;
            }
            i += 1;
        }
        false
    }

    /// The hops of `passed` in the opposite order.
    fn reversed(
        passed: Vec<Hop>,
        Ghost(profiles): Ghost<Profiles>,
        Ghost(id): Ghost<Seq<char>>,
    ) -> (r: Vec<Hop>)
        requires
            reaches_root(profiles, ids(passed@)),
            ids(passed@)[0] == id,
            forall|i: int|
                0 <= i < passed.len() ==> profiles.contains_key((#[trigger] passed[i]).id@)
                    && profiles[passed[i].id@] == passed[i].profile@,
        ensures
            is_plan(profiles, id, r@),
    {
        let ghost all = passed@;
        let ghost n = all.len() as int;
        let mut rest = passed;
        let mut plan: Vec<Hop> = Vec::new();
        while rest.len() > 0
            invariant
                n == all.len(),
                rest.len() + plan.len() == n,
                rest@ =~= all.take(rest.len() as int),
                forall|i: int| 0 <= i < plan.len() ==> (#[trigger] plan[i]) == all[n - 1 - i],
            decreases rest.len(),
        {
            let hop = rest.pop().unwrap();
            plan.push(hop);
        }
        proof {
            let t = ids(all);
            assert forall|i: int| 0 <= i < plan.len() implies profiles.contains_key(
                (#[trigger] plan[i]).id@,
            ) && profiles[plan[i].id@] == plan[i].profile@ by {
                assert(plan[i] == all[n - 1 - i]);
            }
            assert forall|i: int| 0 < i < plan.len() implies (#[trigger] plan[i]).profile@.transport
                == Some(plan[i - 1].id@) by {
                assert(plan[i] == all[n - 1 - i]);
                assert(plan[i - 1] == all[n - i]);
                assert(t[n - 1 - i] == all[n - 1 - i].id@);
                assert(profiles[t[n - 1 - i]].transport == Some(t[n - 1 - i + 1]));
            }
            assert(plan[0] == all[n - 1]);
            assert(t.last() == all[n - 1].id@);
            assert(plan[n - 1] == all[0]);
            assert(t[0] == all[0].id@);
        }
        plan
    }
}

/// The identities of `hops`, in their order.
pub open spec fn ids(hops: Seq<Hop>) -> Seq<Seq<char>> {
    Seq::new(hops.len(), |i: int| hops[i].id@)
}

/// A trail without repetition is no longer than the store is large.
proof fn lemma_fits(profiles: Profiles, t: Seq<Seq<char>>)
    requires
        profiles.dom().finite(),
        t.no_duplicates(),
        forall|i: int| 0 <= i < t.len() ==> profiles.contains_key(#[trigger] t[i]),
    ensures
        t.len() <= profiles.dom().len(),
{
    t.unique_seq_to_set();
    assert(t.to_set().subset_of(profiles.dom())) by {
        assert forall|k: Seq<char>| t.to_set().contains(k) implies profiles.dom().contains(k) by {
            let i = choose|i: int| 0 <= i < t.len() && t[i] == k;
            assert(profiles.contains_key(t[i]));
        }
    }
    vstd::set_lib::lemma_len_subset(t.to_set(), profiles.dom());
}

} // verus!
