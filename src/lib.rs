//! A remote-control protocol for a live entity/component state store:
//! verb registry, dispatch, built-in verbs, response envelopes, and the
//! client-side connection and synchronisation state machines.
pub mod client;
pub mod error;
pub mod json;
pub mod keyed;
pub mod protocol;
pub mod registry;
pub mod reply;
pub mod store;
