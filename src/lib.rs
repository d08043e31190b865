//! Named `.npmrc` profiles kept in a config root and switched by a symbolic
//! link in the home directory.
//!
//! The library decides; its caller observes the filesystem and carries out
//! what was decided. Each operation takes what was observed (whether a
//! profile's file exists, whether something stands at the link path, what the
//! link points at) and returns either a refusal or the list of actions to
//! perform. `model` states what those actions do to a filesystem, and `laws`
//! proves how the operations behave over it.
pub mod command;
pub mod laws;
pub mod listing;
pub mod model;
pub mod paths;
pub mod store;
