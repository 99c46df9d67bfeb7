//! Digest computation for staged content: SHA-256 through `ring`, streamed
//! in fixed-size chunks, and the canonical `"sha256:<hex>"` rendering.

use vstd::prelude::*;
use vstd::slice::slice_subrange;
use vstd::string::StringExecFns;

use crate::hex::{hex_of, hex_string_of};

verus! {

/// Largest byte count the SHA-256 implementation accepts: its message length
/// is carried as a count of bits in a 64-bit word.
pub const MAX_BLOB_LEN: u64 = 0x1FFF_FFFF_FFFF_FFFF;

/// The SHA-256 digest bytes of a byte string; a fixed value of the bytes
/// alone, left undefined here and computed by `ring`.
pub uninterp spec fn sha256_of(data: Seq<u8>) -> Seq<u8>;

/// What a hashing context has absorbed so far.
pub uninterp spec fn absorbed(c: ring::digest::Context) -> Seq<u8>;

#[verifier::external_type_specification]
#[verifier::external_body]
pub struct ExDigestContext(ring::digest::Context);

/// Relies on `ring::digest::Context::new`: a fresh SHA-256 context has
/// absorbed nothing.
#[verifier::external_body]
fn sha256_new() -> (c: ring::digest::Context)
    ensures
        absorbed(c) == Seq::<u8>::empty(),
{
    ring::digest::Context::new(&ring::digest::SHA256)
}

/// Relies on `ring::digest::Context::update`: absorbs the chunk after
/// everything absorbed before, and never fails.
#[verifier::external_body]
fn sha256_update(c: &mut ring::digest::Context, chunk: &[u8])
    ensures
        absorbed(*final(c)) == absorbed(*old(c)) + chunk@,
{
    c.update(chunk)
}

/// Relies on `ring::digest::Context::finish`: the SHA-256 digest of all
/// absorbed bytes, 32 bytes long. `finish` panics past `MAX_BLOB_LEN`
/// absorbed bytes, so that much is required here.
#[verifier::external_body]
fn sha256_finish(c: ring::digest::Context) -> (r: Vec<u8>)
    requires
        absorbed(c).len() <= MAX_BLOB_LEN,
    ensures
        r@ == sha256_of(absorbed(c)),
        r@.len() == 32,
{
    c.finish().as_ref().to_vec()
}

/// Bytes fed to the digest context at a time.
pub const DIGEST_CHUNK: usize = 4096;

/// Computes the SHA-256 digest of `data`, feeding it to the hash in
/// fixed-size chunks.
fn compute_sha256(data: &Vec<u8>) -> (r: Vec<u8>)
    requires
        data@.len() <= MAX_BLOB_LEN,
    ensures
        r@ == sha256_of(data@),
        r@.len() == 32,
{
    let mut ctx = sha256_new();
    let mut i: usize = 0;
    while i < data.len()
        invariant
            i <= data@.len(),
            data@.len() <= MAX_BLOB_LEN,
            absorbed(ctx) == data@.take(i as int),
        decreases data@.len() - i,
    {
        let end = if data.len() - i < DIGEST_CHUNK {
            data.len()
        } else {
            i + DIGEST_CHUNK
        };
        let chunk = slice_subrange(data.as_slice(), i, end);
        sha256_update(&mut ctx, chunk);
        proof {
            assert(data@.take(i as int) + data@.subrange(i as int, end as int) =~= data@.take(
                end as int,
            ));
        }
        i = end;
    }
    proof {
        assert(data@.take(data@.len() as int) =~= data@);
    }
    sha256_finish(ctx)
}

/// The canonical textual form of the digest of `content`:
/// the algorithm tag, a colon, and the lower-case hexadecimal hash.
pub open spec fn digest_str_of(content: Seq<u8>) -> Seq<char> {
    "sha256:"@ + hex_of(sha256_of(content))
}

/// Computes the canonical `"sha256:<hex>"` digest string of `data`.
pub fn digest_string(data: &Vec<u8>) -> (r: String)
    requires
        data@.len() <= MAX_BLOB_LEN,
    ensures
        r@ == digest_str_of(data@),
{
    let raw = compute_sha256(data);
    let hexpart = hex_string_of(&raw);
    let mut s = String::new();
    s.append("sha256:");
    s.append(hexpart.as_str());
    proof {
        assert(s@ =~= digest_str_of(data@));
    }
    s
}

} // verus!
