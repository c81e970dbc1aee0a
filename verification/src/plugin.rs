//! The plugin system: manifests, host-side permission and invocation
//! policies, the plugin registry and lifecycle, and the WASM manifest and
//! guest-memory rules.

pub mod manifest;
pub mod lifecycle;
pub mod registry;
pub mod host;
pub mod wasm;
