//! The stable filesystem layout of the store: staging files keyed by
//! session identifier, permanent blobs keyed by digest. Pure path
//! rendering; whoever owns the disk does the touching.

use vstd::prelude::*;
use vstd::string::StringExecFns;

verus! {

/// The staging location of a session: `scratch/<session_id>`.
pub fn scratch_path(uuid: &String) -> (r: String)
    ensures
        r@ == "scratch/"@ + uuid@,
{
    let mut s = String::new();
    s.append("scratch/");
    s.append(uuid.as_str());
    proof {
        assert(s@ =~= "scratch/"@ + uuid@);
    }
    s
}

/// The permanent location of a published blob: `layers/<digest>`.
pub fn layer_path(digest: &String) -> (r: String)
    ensures
        r@ == "layers/"@ + digest@,
{
    let mut s = String::new();
    s.append("layers/");
    s.append(digest.as_str());
    proof {
        assert(s@ =~= "layers/"@ + digest@);
    }
    s
}

} // verus!
