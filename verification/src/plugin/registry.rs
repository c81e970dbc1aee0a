//! The plugin registry: every known plugin's manifest and lifecycle state.

use vstd::prelude::*;
use dashmap::DashMap;
use crate::error::{SwarmError, SwarmResult};
use crate::identity::PluginId;
use crate::plugin::lifecycle::{state_label, PluginState};
use crate::plugin::manifest::{same_manifest, PluginManifest};
use crate::text::owned;

verus! {

/// A registered plugin: its manifest and current lifecycle state.
#[derive(Debug)]
pub struct PluginRecord {
    /// The plugin's manifest.
    pub manifest: PluginManifest,
    /// The current lifecycle state.
    pub state: PluginState,
}

/// Whether two records hold the same values.
pub open spec fn same_plugin_record(a: PluginRecord, b: PluginRecord) -> bool {
    &&& same_manifest(a.manifest, b.manifest)
    &&& state_label(a.state) == state_label(b.state)
    &&& (a.state is Failed ==> b.state is Failed && a.state->Failed_reason@ == b.state->Failed_reason@
        && a.state->Failed_failed_at == b.state->Failed_failed_at)
    &&& (!(a.state is Failed) ==> a.state == b.state)
}

impl PluginRecord {
    /// A copy of this record.
    pub fn duplicate(&self) -> (r: PluginRecord)
        ensures
            same_plugin_record(r, *self),
    {
        PluginRecord { manifest: self.manifest.duplicate(), state: self.state.duplicate() }
    }
}

/// The concurrent table of plugin records, keyed by plugin identifier value.
pub type PluginTable = DashMap<u128, PluginRecord>;

/// The entries of a plugin table, keyed by the plugin identifier's value.
pub uninterp spec fn plugin_table(m: PluginTable) -> Map<u128, PluginRecord>;

/// `DashMap::new`: an empty table.
#[verifier::external_body]
fn plugins_new() -> (r: PluginTable)
    ensures
        plugin_table(r).dom() == Set::<u128>::empty(),
{
    DashMap::new()
}

/// `DashMap::insert`: the entry for `key` becomes `value`, all others stay.
#[verifier::external_body]
fn plugins_insert(m: &mut PluginTable, key: u128, value: PluginRecord)
    ensures
        plugin_table(*final(m)) == plugin_table(*old(m)).insert(key, value),
{
    m.insert(key, value);
}

/// `DashMap::remove`: the entry for `key` leaves the table and its value is
/// handed back; all other entries stay.
#[verifier::external_body]
fn plugins_remove(m: &mut PluginTable, key: u128) -> (r: Option<PluginRecord>)
    ensures
        plugin_table(*final(m)) == plugin_table(*old(m)).remove(key),
        plugin_table(*old(m)).dom().contains(key) ==> r == Some(plugin_table(*old(m))[key]),
        !plugin_table(*old(m)).dom().contains(key) ==> r.is_none(),
{
    m.remove(&key).map(|(_, v)| v)
}

/// `DashMap::get`: a copy of the entry for `key`, if there is one.
#[verifier::external_body]
fn plugins_get(m: &PluginTable, key: u128) -> (r: Option<PluginRecord>)
    ensures
        plugin_table(*m).dom().contains(key) <==> r.is_some(),
        r matches Some(x) ==> same_plugin_record(x, plugin_table(*m)[key]),
{
    m.get(&key).map(|e| e.value().duplicate())
}

/// Whether every record is filed under its own plugin's identifier, and the
/// table is finite.
pub open spec fn plugins_keyed_by_id(t: Map<u128, PluginRecord>) -> bool {
    &&& t.dom().finite()
    &&& forall|k: u128| #[trigger] t.dom().contains(k) ==> t[k].manifest.id@ == k
}

/// `DashMap::iter`: a copy of every entry's value, each entry once, in the
/// map's own order (which the contract leaves open). On a table whose every
/// value is filed under its own identifier, the values listed are thus told
/// apart, and found again, by that identifier.
#[verifier::external_body]
fn plugins_values(m: &PluginTable) -> (r: Vec<PluginRecord>)
    requires
        plugins_keyed_by_id(plugin_table(*m)),
    ensures
        r@.len() == plugin_table(*m).dom().len(),
        forall|i: int| 0 <= i < r@.len() ==> #[trigger] plugin_table(*m).dom().contains(r@[i].manifest.id@)
            && same_plugin_record(r@[i], plugin_table(*m)[r@[i].manifest.id@]),
        forall|k: u128| plugin_table(*m).dom().contains(k) ==> exists|i: int|
            0 <= i < r@.len() && #[trigger] r@[i].manifest.id@ == k,
        forall|i: int, j: int| 0 <= i < j < r@.len() ==> r@[i].manifest.id != r@[j].manifest.id,
{
    m.iter().map(|e| e.value().duplicate()).collect()
}

/// Every known plugin's manifest and state, keyed by plugin identifier.
pub struct PluginRegistry {
    plugins: PluginTable,
}

impl PluginRegistry {
    /// The records, keyed by the plugin identifier's value.
    pub closed spec fn records(&self) -> Map<u128, PluginRecord> {
        plugin_table(self.plugins)
    }

    #[verifier::type_invariant]
    closed spec fn wf(&self) -> bool {
        plugins_keyed_by_id(plugin_table(self.plugins))
    }

    /// An empty registry.
    pub fn new() -> (r: Self)
        ensures
            r.records().dom() == Set::<u128>::empty(),
    {
        let plugins = plugins_new();
        proof {
            assert(plugin_table(plugins) =~= Map::<u128, PluginRecord>::empty());
        }
        PluginRegistry { plugins }
    }

    /// Register a manifest as `Discovered`; an identifier already registered
    /// is refused (`Internal`) and nothing changes.
    pub fn register(&mut self, manifest: PluginManifest) -> (r: SwarmResult<PluginId>)
        ensures
            old(self).records().dom().contains(manifest.id@) ==> (r matches Err(SwarmError::Internal { .. }))
                && final(self).records() == old(self).records(),
            !old(self).records().dom().contains(manifest.id@) ==> r == Ok::<PluginId, SwarmError>(manifest.id)
                && final(self).records() == old(self).records().insert(
                manifest.id@,
                PluginRecord { manifest, state: PluginState::Discovered },
            ),
    {
        proof {
            use_type_invariant(&*self);
        }
        let id = manifest.id;
        let mut plugins = plugins_new();
        core::mem::swap(&mut plugins, &mut self.plugins);
        let ghost before = plugin_table(plugins);
        match plugins_remove(&mut plugins, id.as_uuid()) {
            Some(existing) => {
                plugins_insert(&mut plugins, id.as_uuid(), existing);
                proof {
                    assert(plugin_table(plugins) =~= before);
                }
                *self = PluginRegistry { plugins };
                Err(SwarmError::Internal { reason: owned("plugin is already registered") })
            },
            None => {
                proof {
                    assert(plugin_table(plugins) =~= before);
                }
                plugins_insert(
                    &mut plugins,
                    id.as_uuid(),
                    PluginRecord { manifest, state: PluginState::Discovered },
                );
                *self = PluginRegistry { plugins };
                Ok(id)
            },
        }
    }

    /// Set a plugin's lifecycle state; an unknown plugin is `Internal` and
    /// nothing changes.
    pub fn update_state(&mut self, id: &PluginId, state: PluginState) -> (r: SwarmResult<()>)
        ensures
            !old(self).records().dom().contains(id@) ==> (r matches Err(SwarmError::Internal { .. }))
                && final(self).records() == old(self).records(),
            old(self).records().dom().contains(id@) ==> r is Ok && final(self).records() == old(self).records().insert(id@, PluginRecord { state, ..old(self).records()[id@] }),
    {
        proof {
            use_type_invariant(&*self);
        }
        let mut plugins = plugins_new();
        core::mem::swap(&mut plugins, &mut self.plugins);
        let ghost before = plugin_table(plugins);
        match plugins_remove(&mut plugins, id.as_uuid()) {
            Some(mut rec) => {
                rec.state = state;
                plugins_insert(&mut plugins, id.as_uuid(), rec);
                proof {
                    assert(plugin_table(plugins) =~= before.insert(id@, rec));
                }
                *self = PluginRegistry { plugins };
                Ok(())
            },
            None => {
                proof {
                    assert(plugin_table(plugins) =~= before);
                }
                *self = PluginRegistry { plugins };
                Err(SwarmError::Internal { reason: owned("plugin not found in registry") })
            },
        }
    }

    /// A copy of a plugin's record, if it is registered.
    pub fn get(&self, id: &PluginId) -> (r: Option<PluginRecord>)
        ensures
            self.records().dom().contains(id@) <==> r is Some,
            r matches Some(x) ==> same_plugin_record(x, self.records()[id@]),
    {
        plugins_get(&self.plugins, id.as_uuid())
    }

    /// Copies of all records, each plugin once, in the table's own order.
    pub fn all(&self) -> (r: Vec<PluginRecord>)
        ensures
            r@.len() == self.records().dom().len(),
            forall|i: int| 0 <= i < r@.len() ==> #[trigger] self.records().dom().contains(r@[i].manifest.id@)
                && same_plugin_record(r@[i], self.records()[r@[i].manifest.id@]),
            forall|k: u128| self.records().dom().contains(k) ==> exists|i: int|
                0 <= i < r@.len() && #[trigger] r@[i].manifest.id@ == k,
    {
        proof {
            use_type_invariant(self);
        }
        plugins_values(&self.plugins)
    }

    /// Copies of the records of all active plugins.
    pub fn active_plugins(&self) -> (r: Vec<PluginRecord>)
        ensures
            forall|i: int| 0 <= i < r@.len() ==> #[trigger] self.records().dom().contains(r@[i].manifest.id@)
                && r@[i].state is Active && same_plugin_record(r@[i], self.records()[r@[i].manifest.id@]),
            forall|k: u128| #[trigger] self.records().dom().contains(k) && self.records()[k].state is Active
                ==> exists|i: int| 0 <= i < r@.len() && r@[i].manifest.id@ == k,
    {
        proof {
            use_type_invariant(self);
        }
        let all = plugins_values(&self.plugins);
        let ghost t = plugin_table(self.plugins);
        proof {
            assert forall|i: int| 0 <= i < all@.len() implies #[trigger] t.dom().contains(all@[i].manifest.id@)
                && same_plugin_record(all@[i], t[all@[i].manifest.id@]) by {
                assert(plugin_table(self.plugins).dom().contains(all@[i].manifest.id@));
            }
        }
        let mut out: Vec<PluginRecord> = Vec::new();
        let mut rest = all;
        let ghost orig = rest@;
        let n = rest.len();
        let mut k: usize = 0;
        while k < n
            invariant
                k <= n == orig.len(),
                t == plugin_table(self.plugins),
                rest@ == orig.skip(k as int),
                forall|i: int| 0 <= i < orig.len() ==> #[trigger] t.dom().contains(orig[i].manifest.id@)
                    && same_plugin_record(orig[i], t[orig[i].manifest.id@]),
                forall|q: u128| t.dom().contains(q) ==> exists|i: int|
                    0 <= i < orig.len() && #[trigger] orig[i].manifest.id@ == q,
                forall|i: int| 0 <= i < out@.len() ==> #[trigger] t.dom().contains(out@[i].manifest.id@)
                    && out@[i].state is Active && same_plugin_record(out@[i], t[out@[i].manifest.id@]),
                forall|j: int| 0 <= j < k && orig[j].state is Active ==> exists|i: int|
                    0 <= i < out@.len() && #[trigger] out@[i].manifest.id@ == orig[j].manifest.id@,
            decreases n - k,
        {
            let rec = rest.remove(0);
            proof {
                assert(orig.skip(k as int)[0] == orig[k as int]);
                assert(rest@ =~= orig.skip(k + 1));
            }
            if rec.state.is_active() {
                let ghost before = out@;
                out.push(rec);
                proof {
                    assert(t.dom().contains(orig[k as int].manifest.id@));
                    assert forall|j: int| 0 <= j < k + 1 && orig[j].state is Active implies exists|i: int|
                        0 <= i < out@.len() && #[trigger] out@[i].manifest.id@ == orig[j].manifest.id@ by {
                        if j < k {
                            let i = choose|i: int| 0 <= i < before.len() && #[trigger] before[i].manifest.id@ == orig[j].manifest.id@;
                            assert(out@[i] == before[i]);
                        } else {
                            assert(out@[before.len() as int] == orig[k as int]);
                        }
                    }
                }
            }
            k = k + 1;
        }
        proof {
            assert forall|q: u128| #[trigger] t.dom().contains(q) && t[q].state is Active implies exists|i: int|
                0 <= i < out@.len() && out@[i].manifest.id@ == q by {
                let j = choose|j: int| 0 <= j < orig.len() && #[trigger] orig[j].manifest.id@ == q;
                assert(t.dom().contains(orig[j].manifest.id@));
            }
        }
        out
    }

    /// Remove a plugin's record; an unknown plugin is `Internal` and nothing
    /// changes.
    pub fn deregister(&mut self, id: &PluginId) -> (r: SwarmResult<()>)
        ensures
            !old(self).records().dom().contains(id@) ==> (r matches Err(SwarmError::Internal { .. }))
                && final(self).records() == old(self).records(),
            old(self).records().dom().contains(id@) ==> r is Ok && final(self).records() == old(self).records().remove(id@),
    {
        proof {
            use_type_invariant(&*self);
        }
        let mut plugins = plugins_new();
        core::mem::swap(&mut plugins, &mut self.plugins);
        let removed = plugins_remove(&mut plugins, id.as_uuid());
        *self = PluginRegistry { plugins };
        match removed {
            Some(_) => Ok(()),
            None => Err(SwarmError::Internal { reason: owned("plugin not found") }),
        }
    }
}

} // verus!
