//! Agent personalities: profiles, the overlays that refine them, the
//! boundaries that constrain them, and the registry that holds them.

pub mod boundary;
pub mod profile;
pub mod registry;
