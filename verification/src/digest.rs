//! SHA-1 over a stream of chunks, computed by the `sha1` crate.

use vstd::prelude::*;

verus! {

/// A running SHA-1 computation: the hasher of the `sha1` crate.
#[verifier::external_body]
pub struct Sha1Stream {
    hasher: sha1::Sha1,
}

/// The SHA-1 digest of a message: 20 bytes.
pub uninterp spec fn sha1_digest(message: Seq<u8>) -> Seq<u8>;

/// The bytes that a stream has been fed so far, in order.
pub uninterp spec fn absorbed(stream: Sha1Stream) -> Seq<u8>;

/// Calls `Sha1::new` (`digest::Digest::new`).
///
/// Trusted: a new hasher has been fed nothing.
#[verifier::external_body]
pub(crate) fn sha1_new() -> (stream: Sha1Stream)
    ensures
        absorbed(stream) == Seq::<u8>::empty(),
{
    Sha1Stream { hasher: <sha1::Sha1 as sha1::Digest>::new() }
}

/// Calls `Sha1::update` (`digest::Digest::update`).
///
/// Trusted: feeding a chunk appends it to what the hasher has been fed.
#[verifier::external_body]
pub(crate) fn sha1_update(stream: &mut Sha1Stream, chunk: &[u8])
    ensures
        absorbed(*final(stream)) == absorbed(*old(stream)) + chunk@,
{
    sha1::Digest::update(&mut stream.hasher, chunk)
}

/// Calls `Sha1::finalize` (`digest::Digest::finalize`).
///
/// Trusted: the result is the digest of everything the hasher was fed, and
/// a SHA-1 digest is 20 bytes long.
#[verifier::external_body]
pub(crate) fn sha1_finalize(stream: Sha1Stream) -> (r: Vec<u8>)
    ensures
        r@ == sha1_digest(absorbed(stream)),
        r@.len() == 20,
{
    sha1::Digest::finalize(stream.hasher).to_vec()
}

} // verus!
