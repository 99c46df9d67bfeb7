//! Caller-side value types carried across the request boundary.

use vstd::prelude::*;

verus! {

/// A caller's reference to a layer blob: pass-through context naming the
/// image, its repository, and the blob's digest. The store itself keys
/// everything by the digest alone.
#[derive(Debug, Clone)]
pub struct Layer {
    pub digest: String,
    pub name: String,
    pub repo: String,
}

impl Layer {
    /// Bundles the three parts of a layer reference.
    pub fn new(name: String, repo: String, digest: String) -> (r: Layer)
        ensures
            r.name@ == name@,
            r.repo@ == repo@,
            r.digest@ == digest@,
    {
        Layer { digest, name, repo }
    }

    /// The digest the reference points at.
    pub fn digest(&self) -> (r: String)
        ensures
            r@ == self.digest@,
    {
        self.digest.clone()
    }
}

/// The digest query of a monolithic upload request: whether the query
/// string carried one, and its text.
#[derive(Debug)]
pub struct DigestStruct {
    pub query: bool,
    pub digest: String,
}

} // verus!
