//! Plugin lifecycle states and events.

use vstd::prelude::*;
use crate::identity::PluginId;
use crate::types::Timestamp;

verus! {

/// The lifecycle state of a plugin instance.
#[derive(Debug, Clone, PartialEq, Eq)]
pub enum PluginState {
    /// Registered but not yet initialized.
    Discovered,
    /// `on_load` is in progress.
    Loading,
    /// Loaded and accepting invocations.
    Active,
    /// `on_unload` is in progress.
    Unloading,
    /// Fully unloaded.
    Unloaded,
    /// Loading failed.
    Failed {
        /// Why loading failed.
        reason: String,
        /// When the failure happened.
        failed_at: Timestamp,
    },
}

/// The stable label of each lifecycle state.
pub open spec fn state_label(s: PluginState) -> Seq<char> {
    match s {
        PluginState::Discovered => "discovered"@,
        PluginState::Loading => "loading"@,
        PluginState::Active => "active"@,
        PluginState::Unloading => "unloading"@,
        PluginState::Unloaded => "unloaded"@,
        PluginState::Failed { .. } => "failed"@,
    }
}

impl PluginState {
    /// Returns `true` if the plugin accepts invocations.
    pub fn is_active(&self) -> (r: bool)
        ensures
            r == (*self is Active),
    {
        matches!(self, PluginState::Active)
    }

    /// The stable label of this state.
    pub fn label(&self) -> (r: &'static str)
        ensures
            r@ == state_label(*self),
    {
        proof {
            reveal_strlit("discovered");
            reveal_strlit("loading");
            reveal_strlit("active");
            reveal_strlit("unloading");
            reveal_strlit("unloaded");
            reveal_strlit("failed");
        }
        match self {
            PluginState::Discovered => "discovered",
            PluginState::Loading => "loading",
            PluginState::Active => "active",
            PluginState::Unloading => "unloading",
            PluginState::Unloaded => "unloaded",
            PluginState::Failed { .. } => "failed",
        }
    }

    /// A copy of this state.
    pub fn duplicate(&self) -> (r: PluginState)
        ensures
            state_label(r) == state_label(*self),
            r is Failed ==> self is Failed && r->Failed_reason@ == self->Failed_reason@
                && r->Failed_failed_at == self->Failed_failed_at,
            !(r is Failed) ==> r == *self,
    {
        match self {
            PluginState::Discovered => PluginState::Discovered,
            PluginState::Loading => PluginState::Loading,
            PluginState::Active => PluginState::Active,
            PluginState::Unloading => PluginState::Unloading,
            PluginState::Unloaded => PluginState::Unloaded,
            PluginState::Failed { reason, failed_at } => PluginState::Failed {
                reason: reason.clone(),
                failed_at: *failed_at,
            },
        }
    }
}

/// A lifecycle event emitted by the plugin host.
#[derive(Debug, Clone)]
pub enum PluginLifecycleEvent {
    /// A plugin started loading.
    Loading { plugin_id: PluginId },
    /// A plugin became active.
    Activated { plugin_id: PluginId },
    /// A plugin failed.
    Failed { plugin_id: PluginId, reason: String },
    /// A plugin was unloaded.
    Unloaded { plugin_id: PluginId },
}

} // verus!
