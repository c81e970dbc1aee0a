//! The registry of personality profiles.

use vstd::prelude::*;
use dashmap::DashMap;
use crate::error::{SwarmError, SwarmResult};
use crate::identity::{uuid_hyphenated, PersonalityId};
use crate::personality::profile::{same_profile, PersonalityProfile};
use crate::text::owned;

verus! {

/// The concurrent table of profiles, keyed by personality identifier value.
pub type ProfileTable = DashMap<u128, PersonalityProfile>;

/// The entries of a profile table, keyed by the identifier's value.
pub uninterp spec fn profile_table(m: ProfileTable) -> Map<u128, PersonalityProfile>;

/// `DashMap::new`: an empty table.
#[verifier::external_body]
fn profiles_new() -> (r: ProfileTable)
    ensures
        profile_table(r).dom() == Set::<u128>::empty(),
{
    DashMap::new()
}

/// `DashMap::contains_key`: whether the key has an entry.
#[verifier::external_body]
fn profiles_contains(m: &ProfileTable, key: u128) -> (r: bool)
    ensures
        r == profile_table(*m).dom().contains(key),
{
    m.contains_key(&key)
}

/// `DashMap::insert`: the entry for `key` becomes `value`, all others stay.
#[verifier::external_body]
fn profiles_insert(m: &mut ProfileTable, key: u128, value: PersonalityProfile)
    ensures
        profile_table(*final(m)) == profile_table(*old(m)).insert(key, value),
{
    m.insert(key, value);
}

/// `DashMap::remove`: the entry for `key` leaves the table; all others stay.
/// Whether there was one is handed back.
#[verifier::external_body]
fn profiles_remove(m: &mut ProfileTable, key: u128) -> (r: bool)
    ensures
        profile_table(*final(m)) == profile_table(*old(m)).remove(key),
        r == profile_table(*old(m)).dom().contains(key),
{
    m.remove(&key).is_some()
}

/// `DashMap::get`: a copy of the entry for `key`, if there is one.
#[verifier::external_body]
fn profiles_get(m: &ProfileTable, key: u128) -> (r: Option<PersonalityProfile>)
    ensures
        profile_table(*m).dom().contains(key) <==> r is Some,
        r matches Some(p) ==> same_profile(p, profile_table(*m)[key]),
{
    m.get(&key).map(|e| e.value().duplicate())
}

/// `DashMap::len`: the number of entries.
#[verifier::external_body]
fn profiles_len(m: &ProfileTable) -> (r: usize)
    ensures
        r == profile_table(*m).dom().len(),
{
    m.len()
}

/// Whether every profile is filed under its own identifier, and the table is
/// finite.
pub open spec fn profiles_keyed_by_id(t: Map<u128, PersonalityProfile>) -> bool {
    &&& t.dom().finite()
    &&& forall|k: u128| #[trigger] t.dom().contains(k) ==> t[k].id@ == k
}

/// `DashMap::iter`: the identifier, name and version of every entry, each
/// entry once, in the map's own order (which the contract leaves open). On a
/// table whose every profile is filed under its own identifier, the
/// identifier listed is also the entry's key.
#[verifier::external_body]
fn profiles_summaries(m: &ProfileTable) -> (r: Vec<(PersonalityId, String, String)>)
    requires
        profiles_keyed_by_id(profile_table(*m)),
    ensures
        r@.len() == profile_table(*m).dom().len(),
        forall|i: int| 0 <= i < r@.len() ==> #[trigger] profile_table(*m).dom().contains(r@[i].0@) && profile_table(
            *m,
        )[r@[i].0@].id == r@[i].0 && profile_table(*m)[r@[i].0@].name@ == r@[i].1@ && profile_table(
            *m,
        )[r@[i].0@].version@ == r@[i].2@,
        forall|k: u128| profile_table(*m).dom().contains(k) ==> exists|i: int|
            0 <= i < r@.len() && #[trigger] r@[i].0@ == k,
        forall|i: int, j: int| 0 <= i < j < r@.len() ==> r@[i].0 != r@[j].0,
{
    m.iter().map(|e| (e.value().id, e.value().name.clone(), e.value().version.clone())).collect()
}

/// Thread-safe registry of personality profiles, keyed by identifier.
pub struct PersonalityRegistry {
    profiles: ProfileTable,
}

/// The reason given for registering a profile whose identifier is taken.
pub open spec fn duplicate_reason(name: Seq<char>, id: u128) -> Seq<char> {
    "Personality '"@ + name + "' ("@ + uuid_hyphenated(id) + ") is already registered"@
}

/// The reason given for removing a profile that is not registered.
pub open spec fn missing_reason(id: u128) -> Seq<char> {
    "Personality "@ + uuid_hyphenated(id) + " not found"@
}

impl PersonalityRegistry {
    /// The registered profiles, keyed by the identifier's value.
    pub closed spec fn profiles(&self) -> Map<u128, PersonalityProfile> {
        profile_table(self.profiles)
    }

    #[verifier::type_invariant]
    closed spec fn wf(&self) -> bool {
        profiles_keyed_by_id(profile_table(self.profiles))
    }

    /// An empty registry.
    pub fn new() -> (r: Self)
        ensures
            r.profiles() == Map::<u128, PersonalityProfile>::empty(),
    {
        let profiles = profiles_new();
        proof {
            assert(profile_table(profiles) =~= Map::<u128, PersonalityProfile>::empty());
        }
        PersonalityRegistry { profiles }
    }

    /// Register a profile under its identifier; an identifier already
    /// registered is refused with `Internal` and nothing changes.
    pub fn register(&mut self, profile: PersonalityProfile) -> (r: SwarmResult<()>)
        ensures
            old(self).profiles().dom().contains(profile.id@) ==> (r matches Err(SwarmError::Internal { reason })
                && reason@ == duplicate_reason(profile.name@, profile.id@)) && final(self).profiles() == old(
                self,
            ).profiles(),
            !old(self).profiles().dom().contains(profile.id@) ==> r is Ok && final(self).profiles() == old(
                self,
            ).profiles().insert(profile.id@, profile),
    {
        proof {
            use_type_invariant(&*self);
        }
        let id = profile.id;
        if profiles_contains(&self.profiles, id.as_uuid()) {
            let mut reason = owned("Personality '");
            reason.append(profile.name.as_str());
            reason.append("' (");
            reason.append(id.to_text().as_str());
            reason.append(") is already registered");
            proof {
                reveal_strlit("Personality '");
                reveal_strlit("' (");
                reveal_strlit(") is already registered");
            }
            return Err(SwarmError::Internal { reason });
        }
        let mut profiles = profiles_new();
        core::mem::swap(&mut profiles, &mut self.profiles);
        profiles_insert(&mut profiles, id.as_uuid(), profile);
        *self = PersonalityRegistry { profiles };
        Ok(())
    }

    /// A copy of the profile with the given identifier, if it is registered.
    pub fn get(&self, id: &PersonalityId) -> (r: Option<PersonalityProfile>)
        ensures
            self.profiles().dom().contains(id@) <==> r is Some,
            r matches Some(p) ==> same_profile(p, self.profiles()[id@]),
    {
        profiles_get(&self.profiles, id.as_uuid())
    }

    /// Remove a profile; an unknown identifier is `Internal` and nothing
    /// changes.
    pub fn deregister(&mut self, id: &PersonalityId) -> (r: SwarmResult<()>)
        ensures
            !old(self).profiles().dom().contains(id@) ==> (r matches Err(SwarmError::Internal { reason })
                && reason@ == missing_reason(id@)) && final(self).profiles() == old(self).profiles(),
            old(self).profiles().dom().contains(id@) ==> r is Ok && final(self).profiles() == old(
                self,
            ).profiles().remove(id@),
    {
        proof {
            use_type_invariant(&*self);
        }
        let mut profiles = profiles_new();
        core::mem::swap(&mut profiles, &mut self.profiles);
        let ghost before = profile_table(profiles);
        let found = profiles_remove(&mut profiles, id.as_uuid());
        proof {
            if !found {
                assert(profile_table(profiles) =~= before);
            }
        }
        *self = PersonalityRegistry { profiles };
        if found {
            Ok(())
        } else {
            let mut reason = owned("Personality ");
            reason.append(id.to_text().as_str());
            reason.append(" not found");
            proof {
                reveal_strlit("Personality ");
                reveal_strlit(" not found");
            }
            Err(SwarmError::Internal { reason })
        }
    }

    /// The identifier, name and version of every registered profile, each
    /// once, in no particular order.
    pub fn list(&self) -> (r: Vec<(PersonalityId, String, String)>)
        ensures
            r@.len() == self.profiles().dom().len(),
            forall|i: int| 0 <= i < r@.len() ==> #[trigger] self.profiles().dom().contains(r@[i].0@)
                && self.profiles()[r@[i].0@].name@ == r@[i].1@ && self.profiles()[r@[i].0@].version@
                == r@[i].2@,
            forall|k: u128| #[trigger] self.profiles().dom().contains(k) ==> exists|i: int|
                0 <= i < r@.len() && r@[i].0@ == k,
            forall|i: int, j: int| 0 <= i < j < r@.len() ==> r@[i].0 != r@[j].0,
    {
        proof {
            use_type_invariant(self);
        }
        let r = profiles_summaries(&self.profiles);
        proof {
            assert forall|k: u128| #[trigger] self.profiles().dom().contains(k) implies exists|i: int|
                0 <= i < r@.len() && r@[i].0@ == k by {
                assert(profile_table(self.profiles).dom().contains(k));
            }
        }
        r
    }

    /// The number of registered profiles.
    pub fn len(&self) -> (r: usize)
        ensures
            r == self.profiles().dom().len(),
    {
        profiles_len(&self.profiles)
    }

    /// Whether no profile is registered.
    pub fn is_empty(&self) -> (r: bool)
        ensures
            r == (self.profiles().dom().len() == 0),
    {
        profiles_len(&self.profiles) == 0
    }
}

impl Default for PersonalityRegistry {
    /// An empty registry.
    fn default() -> (r: Self)
        ensures
            r.profiles() == Map::<u128, PersonalityProfile>::empty(),
    {
        PersonalityRegistry::new()
    }
}

} // verus!
