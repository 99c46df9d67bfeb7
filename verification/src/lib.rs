//! Core of a content-addressed blob store for a container-image registry:
//! upload sessions are tracked in a registry, staged content is verified
//! against a claimed digest, and verified content is published into a
//! digest-keyed permanent store.

pub mod backend;
pub mod cmap;
pub mod crypto;
pub mod errors;
pub mod hex;
pub mod idseq;
pub mod laws;
pub mod model;
pub mod paths;
pub mod registry;
pub mod response;
pub mod types;
