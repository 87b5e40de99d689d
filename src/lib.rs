//! Content-addressed note corpus builder: fingerprints, a path-keyed
//! document store, metadata extraction, an identifier index, link
//! resolution and the incremental revision logic.

pub mod text;
pub mod fingerprint;
pub mod strmap;
pub mod tree;
pub mod meta;
pub mod index;
pub mod resolve;
pub mod store;
pub mod pipeline;
pub mod paths;
pub mod ignore_rules;
pub mod watch;
