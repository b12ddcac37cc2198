//! Profile stores: where profiles are looked up by identity.

use vstd::prelude::*;
use crate::errors::{Error, ErrorView};
use crate::profile::{Profile, ProfileView, Protocol};
use crate::session::ssh;
use crate::text::{copy_string, decimal};

verus! {

/// The map that results from storing the profiles of `s` one after the other,
/// each under its own identity: a later profile replaces an earlier one of the
/// same identity.
pub open spec fn stored(s: Seq<ProfileView>) -> Map<Seq<char>, ProfileView>
    decreases s.len(),
{
    if s.len() == 0 {
        Map::empty()
    } else {
        stored(s.drop_last()).insert(s.last().id(), s.last())
    }
}

/// No two profiles of `s` have the same identity.
pub open spec fn distinct_ids(s: Seq<ProfileView>) -> bool {
    forall|i: int, j: int| 0 <= i < j < s.len() ==> (#[trigger] s[i]).id() != (#[trigger] s[j]).id()
}

/// `stored(s)` has exactly the identities that occur in `s`.
pub proof fn lemma_stored_keys(s: Seq<ProfileView>, k: Seq<char>)
    ensures
        stored(s).contains_key(k) <==> exists|i: int| 0 <= i < s.len() && (#[trigger] s[i]).id() == k,
        stored(s).dom().finite(),
    decreases s.len(),
{
    if s.len() > 0 {
        let t = s.drop_last();
        lemma_stored_keys(t, k);
        if stored(s).contains_key(k) {
            if s.last().id() == k {
                assert(s[s.len() - 1].id() == k);
            } else {
                let i = choose|i: int| 0 <= i < t.len() && (#[trigger] t[i]).id() == k;
                assert(s[i].id() == k);
            }
        }
        if exists|i: int| 0 <= i < s.len() && (#[trigger] s[i]).id() == k {
            let i = choose|i: int| 0 <= i < s.len() && (#[trigger] s[i]).id() == k;
            if i < t.len() {
                assert(t[i].id() == k);
            }
        }
    }
}

/// Where identities are distinct, each profile of `s` is found under its own
/// identity, and the map has as many entries as `s`.
pub proof fn lemma_stored_at(s: Seq<ProfileView>, i: int)
    requires
        distinct_ids(s),
        0 <= i < s.len(),
    ensures
        stored(s).contains_key(s[i].id()),
        stored(s)[s[i].id()] == s[i],
    decreases s.len(),
{
    let t = s.drop_last();
    if i < s.len() - 1 {
        assert(distinct_ids(t)) by {
            assert forall|a: int, b: int| 0 <= a < b < t.len() implies (#[trigger] t[a]).id() != (
            #[trigger] t[b]).id() by {
                assert(s[a].id() != s[b].id());
            }
        }
        lemma_stored_at(t, i);
        assert(t[i] == s[i]);
        assert(s[i].id() != s[s.len() - 1].id());
    }
}

/// Where identities are distinct, the map has as many entries as `s`.
pub proof fn lemma_stored_len(s: Seq<ProfileView>)
    requires
        distinct_ids(s),
    ensures
        stored(s).dom().finite(),
        stored(s).dom().len() == s.len(),
    decreases s.len(),
{
    if s.len() > 0 {
        let t = s.drop_last();
        assert(distinct_ids(t)) by {
            assert forall|a: int, b: int| 0 <= a < b < t.len() implies (#[trigger] t[a]).id() != (
            #[trigger] t[b]).id() by {
                assert(s[a].id() != s[b].id());
            }
        }
        lemma_stored_len(t);
        lemma_stored_keys(t, s.last().id());
        if stored(t).contains_key(s.last().id()) {
            let i = choose|i: int| 0 <= i < t.len() && (#[trigger] t[i]).id() == s.last().id();
            assert(s[i].id() != s[s.len() - 1].id());
        }
        assert(stored(s).dom() =~= stored(t).dom().insert(s.last().id()));
    } else {
        assert(stored(s).dom() =~= Set::empty());
    }
}

/// Replacing a profile by one of the same identity replaces it in the map.
pub proof fn lemma_stored_update(s: Seq<ProfileView>, i: int, p: ProfileView)
    requires
        distinct_ids(s),
        0 <= i < s.len(),
        p.id() == s[i].id(),
    ensures
        distinct_ids(s.update(i, p)),
        stored(s.update(i, p)) =~= stored(s).insert(p.id(), p),
    decreases s.len(),
{
    let u = s.update(i, p);
    assert(distinct_ids(u)) by {
        assert forall|a: int, b: int| 0 <= a < b < u.len() implies (#[trigger] u[a]).id() != (
        #[trigger] u[b]).id() by {
            assert(s[a].id() != s[b].id());
        }
    }
    let t = s.drop_last();
    if i == s.len() - 1 {
        assert(u.drop_last() =~= t);
    } else {
        assert(distinct_ids(t)) by {
            assert forall|a: int, b: int| 0 <= a < b < t.len() implies (#[trigger] t[a]).id() != (
            #[trigger] t[b]).id() by {
                assert(s[a].id() != s[b].id());
            }
        }
        lemma_stored_update(t, i, p);
        assert(u.drop_last() =~= t.update(i, p));
        assert(s[i].id() != s[s.len() - 1].id());
    }
}

/// Taking a profile out of `s` takes its identity out of the map.
pub proof fn lemma_stored_remove(s: Seq<ProfileView>, i: int)
    requires
        distinct_ids(s),
        0 <= i < s.len(),
    ensures
        distinct_ids(s.remove(i)),
        stored(s.remove(i)) =~= stored(s).remove(s[i].id()),
    decreases s.len(),
{
    let r = s.remove(i);
    assert(distinct_ids(r)) by {
        assert forall|a: int, b: int| 0 <= a < b < r.len() implies (#[trigger] r[a]).id() != (
        #[trigger] r[b]).id() by {
            let a2 = if a < i { a } else { a + 1 };
            let b2 = if b < i { b } else { b + 1 };
            assert(s[a2].id() != s[b2].id());
        }
    }
    let t = s.drop_last();
    assert(distinct_ids(t)) by {
        assert forall|a: int, b: int| 0 <= a < b < t.len() implies (#[trigger] t[a]).id() != (
        #[trigger] t[b]).id() by {
            assert(s[a].id() != s[b].id());
        }
    }
    if i == s.len() - 1 {
        assert(r =~= t);
        lemma_stored_keys(t, s[i].id());
        if stored(t).contains_key(s[i].id()) {
            let j = choose|j: int| 0 <= j < t.len() && (#[trigger] t[j]).id() == s[i].id();
            assert(s[j].id() != s[i].id());
        }
    } else {
        lemma_stored_remove(t, i);
        assert(r.drop_last() =~= t.remove(i));
        assert(r.last() == s.last());
        assert(s[i].id() != s[s.len() - 1].id());
    }
}

/// One stored profile with the identity it is stored under.
struct Slot {
    id: String,
    profile: Profile,
}

/// A table of profiles by identity that keeps the order in which the
/// identities first came in.
pub struct ProfileMap {
    slots: Vec<Slot>,
}

impl ProfileMap {
    /// The profiles in the order of the table.
    pub closed spec fn seq(&self) -> Seq<ProfileView> {
        Seq::new(self.slots.len() as nat, |i: int| self.slots[i].profile@)
    }

    #[verifier::type_invariant]
    closed spec fn inv(&self) -> bool {
        &&& distinct_ids(self.seq())
        &&& forall|i: int| 0 <= i < self.slots.len() ==> (#[trigger] self.slots[i]).id@ == self.slots[i].profile@.id()
    }

    /// An empty table.
    pub fn new() -> (r: Self)
        ensures
            r@ == Map::<Seq<char>, ProfileView>::empty(),
            r.seq() == Seq::<ProfileView>::empty(),
    {
        let r = ProfileMap { slots: Vec::new() };
        assert(r.seq() =~= Seq::<ProfileView>::empty());
        r
    }

    /// The place of `id` in the table.
    fn position(&self, id: &String) -> (r: Option<usize>)
        ensures
            match r {
                Some(i) => i < self.seq().len() && self.seq()[i as int].id() == id@,
                None => forall|i: int| 0 <= i < self.seq().len() ==> (#[trigger] self.seq()[i]).id() != id@,
            },
    {
        proof {
            use_type_invariant(self);
        }
        let mut i: usize = 0;
        while i < self.slots.len()
            invariant
                i <= self.slots.len(),
                self.seq().len() == self.slots.len(),
                forall|j: int| 0 <= j < self.slots.len() ==> (#[trigger] self.slots[j]).id@ == self.seq()[j].id(),
                forall|j: int| 0 <= j < i ==> (#[trigger] self.seq()[j]).id() != id@,
            decreases self.slots.len() - i,
        {
            if self.slots[i].id == *id {
                return Some(i);
            }
            i += 1;
        }
        None
    }

    /// The number of stored profiles. They have an identity each, under
    /// which the table holds them.
    pub fn len(&self) -> (r: usize)
        ensures
            self@.dom().finite(),
            r == self@.dom().len(),
            r == self.seq().len(),
            distinct_ids(self.seq()),
            self@ == stored(self.seq()),
    {
        proof {
            use_type_invariant(self);
            lemma_stored_len(self.seq());
        }
        self.slots.len()
    }

    /// The profile stored under `id`.
    pub fn get(&self, id: &String) -> (r: Option<Profile>)
        ensures
            match r {
                Some(p) => self@.contains_key(id@) && p@ == self@[id@],
                None => !self@.contains_key(id@),
            },
    {
        proof {
            use_type_invariant(self);
            lemma_stored_keys(self.seq(), id@);
        }
        match self.position(id) {
            Some(i) => {
                proof {
                    lemma_stored_at(self.seq(), i as int);
                }
                Some(self.slots[i].profile.clone())
            },
            None => None,
        }
    }

    /// Stores `profile` under its own identity, in the place of the profile
    /// that had that identity, or else behind all others.
    pub fn insert(&mut self, profile: Profile)
        ensures
            final(self)@ == old(self)@.insert(profile@.id(), profile@),
            final(self).seq() == put_into(old(self).seq(), profile@),
    {
        proof {
            use_type_invariant(&*self);
            lemma_stored_keys(self.seq(), profile@.id());
        }
        let id = profile.id();
        let ghost before = self.seq();
        match self.position(&id) {
            Some(i) => {
                proof {
                    lemma_stored_update(before, i as int, profile@);
                    lemma_index_of(before, profile@.id(), i as int);
                }
                // The slots are taken out while they change, so that the
                // table is well formed at every call.
                let mut slots: Vec<Slot> = Vec::new();
                core::mem::swap(&mut self.slots, &mut slots);
                slots.set(i, Slot { id, profile });
                proof {
                    let after = Seq::new(slots.len() as nat, |i: int| slots[i].profile@);
                    assert(after =~= before.update(i as int, profile@));
                }
                self.slots = slots;
                assert(self.seq() =~= before.update(i as int, profile@));
            },
            None => {
                proof {
                    lemma_index_of_none(before, profile@.id());
                }
                let mut slots: Vec<Slot> = Vec::new();
                core::mem::swap(&mut self.slots, &mut slots);
                slots.push(Slot { id, profile });
                proof {
                    let after = Seq::new(slots.len() as nat, |i: int| slots[i].profile@);
                    assert(after =~= before.push(profile@));
                    assert forall|a: int, b: int| 0 <= a < b < after.len() implies (
                    #[trigger] after[a]).id() != (#[trigger] after[b]).id() by {
                        if b < before.len() {
                            assert(before[a].id() != before[b].id());
                        } else {
                            assert(before[a].id() != profile@.id());
                        }
                    }
                }
                self.slots = slots;
                assert(self.seq() =~= before.push(profile@));
                assert(self.seq().drop_last() =~= before);
            },
        }
    }

    /// Takes the profile stored under `id` out of the table.
    pub fn remove(&mut self, id: &String) -> (r: Option<Profile>)
        ensures
            match r {
                Some(p) => old(self)@.contains_key(id@) && p@ == old(self)@[id@],
                None => !old(self)@.contains_key(id@),
            },
            final(self)@ == old(self)@.remove(id@),
            final(self).seq() == taken_from(old(self).seq(), id@),
    {
        proof {
            use_type_invariant(&*self);
            lemma_stored_keys(self.seq(), id@);
        }
        let ghost before = self.seq();
        match self.position(id) {
            Some(i) => {
                proof {
                    lemma_stored_at(before, i as int);
                    lemma_stored_remove(before, i as int);
                    lemma_index_of(before, id@, i as int);
                }
                let mut slots: Vec<Slot> = Vec::new();
                core::mem::swap(&mut self.slots, &mut slots);
                let slot = slots.remove(i);
                proof {
                    let after = Seq::new(slots.len() as nat, |i: int| slots[i].profile@);
                    assert(after =~= before.remove(i as int));
                }
                self.slots = slots;
                assert(self.seq() =~= before.remove(i as int));
                Some(slot.profile)
            },
            None => {
                proof {
                    lemma_index_of_none(before, id@);
                }
                assert(self@ =~= old(self)@.remove(id@));
                None
            },
        }
    }

    /// Copies of all stored profiles, in the order of the table.
    pub fn values(&self) -> (r: Vec<Profile>)
        ensures
            r@.len() == self.seq().len(),
            forall|i: int| 0 <= i < r@.len() ==> (#[trigger] r@[i])@ == self.seq()[i],
    {
        let mut out: Vec<Profile> = Vec::new();
        let mut i: usize = 0;
        while i < self.slots.len()
            invariant
                i <= self.slots.len(),
                out@.len() == i,
                self.seq().len() == self.slots.len(),
                forall|j: int| 0 <= j < i ==> (#[trigger] out@[j])@ == self.seq()[j],
            decreases self.slots.len() - i,
        {
            out.push(self.slots[i].profile.clone());
            i += 1;
        }
        out
    }

}

impl View for ProfileMap {
    type V = Map<Seq<char>, ProfileView>;

    closed spec fn view(&self) -> Map<Seq<char>, ProfileView> {
        stored(self.seq())
    }
}

/// A store of profiles, looked up by identity.
pub trait Storage {
    /// The stored profiles by the identity they are stored under.
    spec fn profiles(&self) -> Map<Seq<char>, ProfileView>;

    /// The number of stored profiles.
    fn len(&self) -> (r: usize)
        ensures
            self.profiles().dom().finite(),
            r == self.profiles().dom().len(),
    ;

    /// The profile stored under `id`, or `ProfileNotFound` with `id`.
    fn get(&self, id: &String) -> (r: Result<Profile, Error>)
        ensures
            match r {
                Ok(p) => self.profiles().contains_key(id@) && p@ == self.profiles()[id@],
                Err(e) => !self.profiles().contains_key(id@) && e@ == ErrorView::ProfileNotFound(
                    id@,
                ),
            },
    ;

    /// Stores `profile` under its own identity. On an error nothing changes.
    fn put(&mut self, profile: Profile) -> (r: Result<(), Error>)
        ensures
            r is Ok ==> final(self).profiles() == old(self).profiles().insert(
                profile@.id(),
                profile@,
            ),
            r is Err ==> final(self).profiles() == old(self).profiles(),
    ;

    /// Takes the profile stored under `id` out of the store and returns it, or
    /// fails with `ProfileNotFound` and `id`.
    fn remove(&mut self, id: &String) -> (r: Result<Profile, Error>)
        ensures
            match r {
                Ok(p) => {
                    &&& old(self).profiles().contains_key(id@)
                    &&& p@ == old(self).profiles()[id@]
                    &&& final(self).profiles() == old(self).profiles().remove(id@)
                },
                Err(e) => {
                    &&& !old(self).profiles().contains_key(id@)
                    &&& e@ == ErrorView::ProfileNotFound(id@)
                    &&& final(self).profiles() == old(self).profiles()
                },
            },
    ;

    /// Copies of all stored profiles, each once.
    fn iter(&self) -> (r: Vec<Profile>)
        ensures
            lists(r@, self.profiles()),
    ;
}

/// `list` holds the values of `map`, one for each key and no others.
pub open spec fn lists(list: Seq<Profile>, map: Map<Seq<char>, ProfileView>) -> bool {
    &&& map.dom().finite()
    &&& list.len() == map.dom().len()
    &&& forall|k: Seq<char>| map.contains_key(k) ==> exists|i: int| 0 <= i < list.len() && (#[trigger] list[i])@ == map[k]
    &&& forall|i: int| 0 <= i < list.len() ==> holds(map, (#[trigger] list[i])@)
}

/// `map` holds `value` under some key.
pub open spec fn holds(map: Map<Seq<char>, ProfileView>, value: ProfileView) -> bool {
    exists|k: Seq<char>| #[trigger] map.contains_key(k) && map[k] == value
}

impl Storage for ProfileMap {
    open spec fn profiles(&self) -> Map<Seq<char>, ProfileView> {
        self@
    }

    fn len(&self) -> (r: usize) {
        ProfileMap::len(self)
    }

    fn get(&self, id: &String) -> (r: Result<Profile, Error>) {
        match ProfileMap::get(self, id) {
            Some(p) => Ok(p),
            None => Err(Error::ProfileNotFound(copy_string(id))),
        }
    }

    fn put(&mut self, profile: Profile) -> (r: Result<(), Error>)
        ensures
            r is Ok,
    {
        self.insert(profile);
        Ok(())
    }

    fn remove(&mut self, id: &String) -> (r: Result<Profile, Error>) {
        match ProfileMap::remove(self, id) {
            Some(p) => Ok(p),
            None => {
                assert(self@ =~= old(self)@);
                Err(Error::ProfileNotFound(copy_string(id)))
            },
        }
    }

    fn iter(&self) -> (r: Vec<Profile>)
        ensures
            r@.len() == self.seq().len(),
            forall|i: int| 0 <= i < r@.len() ==> (#[trigger] r@[i])@ == self.seq()[i],
    {
        let r = self.values();
        proof {
            use_type_invariant(self);
            let s = self.seq();
            lemma_stored_len(s);
            assert forall|k: Seq<char>| self@.contains_key(k) implies exists|i: int|
                0 <= i < r@.len() && (#[trigger] r@[i])@ == self@[k] by {
                lemma_stored_keys(s, k);
                let i = choose|i: int| 0 <= i < s.len() && (#[trigger] s[i]).id() == k;
                lemma_stored_at(s, i);
                assert(r@[i]@ == self@[k]);
            }
            assert forall|i: int| 0 <= i < r@.len() implies holds(self@, (#[trigger] r@[i])@) by {
                lemma_stored_at(s, i);
                assert(self@.contains_key(s[i].id()));
            }
        }
        r
    }
}

/// The views of a list of profiles.
pub open spec fn views(list: Seq<Profile>) -> Seq<ProfileView> {
    Seq::new(list.len(), |i: int| list[i]@)
}

/// The remote-shell profile of root at the local host on `port`.
pub open spec fn local_root(port: u16, transport: Option<Seq<char>>) -> ProfileView {
    ProfileView {
        transport,
        protocol: crate::profile::ProtocolView::Ssh(
            ssh::ProfileView {
                address: "localhost"@,
                username: "root"@,
                password: "123456"@,
                port,
            },
        ),
    }
}

/// The two profiles of a fresh [`MockStorage`]: the local server on port 22,
/// and the local server on port 8022 reached through the first.
pub open spec fn mock_profiles() -> Seq<ProfileView> {
    seq![local_root(22, None), local_root(8022, Some(local_root(22, None).id()))]
}

/// The two profiles of a fresh [`MockStorage`] have two identities.
pub proof fn lemma_mock_ids_differ()
    ensures
        mock_profiles()[0].id() != mock_profiles()[1].id(),
{
    reveal_with_fuel(decimal, 5);
    let a = mock_profiles()[0].id();
    let b = mock_profiles()[1].id();
    assert(decimal(22).len() == 2);
    assert(decimal(8022).len() == 4);
    assert(a.len() + 2 == b.len());
}

/// A store in memory, for trying things out.
pub struct MockStorage {
    map: ProfileMap,
}

impl MockStorage {
    /// The stored profiles, in the order in which their identities came in.
    pub closed spec fn seq(&self) -> Seq<ProfileView> {
        self.map.seq()
    }

    /// A store without profiles.
    pub fn new() -> (r: Self)
        ensures
            r.profiles() == Map::<Seq<char>, ProfileView>::empty(),
            r.seq() == Seq::<ProfileView>::empty(),
    {
        MockStorage { map: ProfileMap::new() }
    }
}

impl Default for MockStorage {
    /// A store with the two profiles of [`mock_profiles`].
    fn default() -> (r: Self)
        ensures
            r.profiles() == stored(mock_profiles()),
            r.seq() == mock_profiles(),
    {
        let mut map = ProfileMap::new();
        let profile_1 = Profile {
            transport: None,
            protocol: Protocol::Ssh(
                ssh::Profile {
                    address: String::from_str("localhost"),
                    username: String::from_str("root"),
                    password: String::from_str("123456"),
                    port: 22,
                },
            ),
        };
        let profile_2 = Profile {
            transport: Some(profile_1.id()),
            protocol: Protocol::Ssh(
                ssh::Profile {
                    address: String::from_str("localhost"),
                    username: String::from_str("root"),
                    password: String::from_str("123456"),
                    port: 8022,
                },
            ),
        };
        assert(profile_1@ == mock_profiles()[0]);
        assert(profile_2@ == mock_profiles()[1]);
        map.insert(profile_1);
        assert(map.seq() =~= seq![mock_profiles()[0]]);
        map.insert(profile_2);
        proof {
            let s = mock_profiles();
            assert(s.drop_last() =~= seq![s[0]]);
            assert(s.drop_last().drop_last() =~= Seq::<ProfileView>::empty());
            reveal_with_fuel(stored, 3);
            assert(map@ =~= stored(s));
            lemma_mock_ids_differ();
            assert(map.seq() =~= s);
        }
        MockStorage { map }
    }
}

impl Storage for MockStorage {
    closed spec fn profiles(&self) -> Map<Seq<char>, ProfileView> {
        self.map@
    }

    fn len(&self) -> (r: usize)
        ensures
            r == self.seq().len(),
            distinct_ids(self.seq()),
            self.profiles() == stored(self.seq()),
    {
        self.map.len()
    }

    fn get(&self, id: &String) -> (r: Result<Profile, Error>) {
        Storage::get(&self.map, id)
    }

    fn put(&mut self, profile: Profile) -> (r: Result<(), Error>)
        ensures
            r is Ok,
            final(self).seq() == put_into(old(self).seq(), profile@),
    {
        self.map.insert(profile);
        Ok(())
    }

    fn remove(&mut self, id: &String) -> (r: Result<Profile, Error>)
        ensures
            final(self).seq() == taken_from(old(self).seq(), id@),
    {
        match self.map.remove(id) {
            Some(p) => Ok(p),
            None => Err(Error::ProfileNotFound(copy_string(id))),
        }
    }

    fn iter(&self) -> (r: Vec<Profile>)
        ensures
            views(r@) == self.seq(),
    {
        let r = Storage::iter(&self.map);
        assert(views(r@) =~= self.seq());
        r
    }
}

/// The profiles of a configuration file, held in memory.
///
/// The file itself is read and written by the caller: it hands the profiles
/// it has read to [`YamlStorage::from_profiles`], and writes what
/// [`Storage::iter`] returns after each change.
pub struct YamlStorage {
    map: ProfileMap,
}

impl YamlStorage {
    /// The stored profiles, in the order in which their identities came in.
    pub closed spec fn seq(&self) -> Seq<ProfileView> {
        self.map.seq()
    }

    /// The store that holds the profiles of `list`, each under its own
    /// identity: of two profiles with one identity the later one stays, in
    /// the place of the earlier one.
    pub fn from_profiles(list: Vec<Profile>) -> (r: Self)
        ensures
            r.profiles() == stored(views(list@)),
            r.seq() == put_all(views(list@)),
    {
        let mut map = ProfileMap::new();
        let mut i: usize = 0;
        while i < list.len()
            invariant
                i <= list.len(),
                map@ == stored(views(list@).take(i as int)),
                map.seq() == put_all(views(list@).take(i as int)),
            decreases list.len() - i,
        {
            let ghost done = views(list@).take(i as int);
            map.insert(list[i].clone());
            proof {
                let next = views(list@).take(i + 1);
                assert(next.drop_last() =~= done);
                assert(next.last() == list@[i as int]@);
            }
            i += 1;
        }
        assert(views(list@).take(i as int) =~= views(list@));
        YamlStorage { map }
    }
}

impl Storage for YamlStorage {
    closed spec fn profiles(&self) -> Map<Seq<char>, ProfileView> {
        self.map@
    }

    fn len(&self) -> (r: usize)
        ensures
            r == self.seq().len(),
            distinct_ids(self.seq()),
            self.profiles() == stored(self.seq()),
    {
        self.map.len()
    }

    fn get(&self, id: &String) -> (r: Result<Profile, Error>) {
        Storage::get(&self.map, id)
    }

    fn put(&mut self, profile: Profile) -> (r: Result<(), Error>)
        ensures
            r is Ok,
            final(self).seq() == put_into(old(self).seq(), profile@),
    {
        self.map.insert(profile);
        Ok(())
    }

    fn remove(&mut self, id: &String) -> (r: Result<Profile, Error>)
        ensures
            final(self).seq() == taken_from(old(self).seq(), id@),
    {
        match self.map.remove(id) {
            Some(p) => Ok(p),
            None => Err(Error::ProfileNotFound(copy_string(id))),
        }
    }

    fn iter(&self) -> (r: Vec<Profile>)
        ensures
            views(r@) == self.seq(),
    {
        let r = Storage::iter(&self.map);
        assert(views(r@) =~= self.seq());
        r
    }
}

/// The first place in `s` of a profile with identity `id`.
pub open spec fn index_of(s: Seq<ProfileView>, id: Seq<char>) -> Option<int> {
    if exists|i: int| 0 <= i < s.len() && (#[trigger] s[i]).id() == id {
        Some(choose|i: int| 0 <= i < s.len() && (#[trigger] s[i]).id() == id)
    } else {
        None
    }
}

/// The profiles of `s` after `p` was stored: in the place of the profile
/// that has its identity, or else behind all others.
pub open spec fn put_into(s: Seq<ProfileView>, p: ProfileView) -> Seq<ProfileView> {
    match index_of(s, p.id()) {
        Some(i) => s.update(i, p),
        None => s.push(p),
    }
}

/// The profiles of `s` without the one of identity `id`.
pub open spec fn taken_from(s: Seq<ProfileView>, id: Seq<char>) -> Seq<ProfileView> {
    match index_of(s, id) {
        Some(i) => s.remove(i),
        None => s,
    }
}

/// The profiles that are kept of `list` where each is stored after the
/// other, in the order in which they are kept.
pub open spec fn put_all(list: Seq<ProfileView>) -> Seq<ProfileView>
    decreases list.len(),
{
    if list.len() == 0 {
        Seq::empty()
    } else {
        put_into(put_all(list.drop_last()), list.last())
    }
}

proof fn lemma_index_of(s: Seq<ProfileView>, id: Seq<char>, i: int)
    requires
        distinct_ids(s),
        0 <= i < s.len(),
        s[i].id() == id,
    ensures
        index_of(s, id) == Some(i),
{
    let j = choose|j: int| 0 <= j < s.len() && (#[trigger] s[j]).id() == id;
    if j < i {
        assert(s[j].id() != s[i].id());
    } else if i < j {
        assert(s[i].id() != s[j].id());
    }
}

proof fn lemma_index_of_none(s: Seq<ProfileView>, id: Seq<char>)
    requires
        forall|i: int| 0 <= i < s.len() ==> (#[trigger] s[i]).id() != id,
    ensures
        index_of(s, id) is None,
{
}

} // verus!
