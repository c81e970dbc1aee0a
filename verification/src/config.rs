//! Framework configuration: the settings model with its defaults, the
//! environment-variable overrides, and secret lookup names.

pub mod loader;
pub mod model;
pub mod secrets;
