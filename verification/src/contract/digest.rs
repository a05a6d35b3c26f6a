//! Domain-separated SHA-256 framing of the values the contract digests.
use vstd::prelude::*;

verus! {

/// The SHA-256 digest of a message, as computed by the `sha2` crate.
pub uninterp spec fn sha256(message: Seq<u8>) -> Seq<u8>;

/// Computes the SHA-256 digest of `message` with `sha2::Sha256`.
///
/// Trusted: the result is the digest of exactly these bytes; a digest is a function of the
/// message alone, named `sha256`.
#[verifier::external_body]
pub(crate) fn sha256_digest(message: &[u8]) -> (r: [u8; 32])
    ensures
        r@ == sha256(message@),
{
    <sha2::Sha256 as sha2::Digest>::digest(message).into()
}

/// The big-endian encoding of a 64-bit integer.
pub open spec fn be64(x: u64) -> Seq<u8> {
    seq![
        (x >> 56u64) as u8,
        (x >> 48u64) as u8,
        (x >> 40u64) as u8,
        (x >> 32u64) as u8,
        (x >> 24u64) as u8,
        (x >> 16u64) as u8,
        (x >> 8u64) as u8,
        x as u8,
    ]
}

/// A byte string preceded by its big-endian 64-bit length.
pub open spec fn framed(b: Seq<u8>) -> Seq<u8> {
    be64(b.len() as u64) + b
}

/// Appends the big-endian encoding of `x`.
pub(crate) fn push_be64(out: &mut Vec<u8>, x: u64)
    ensures
        final(out)@ == old(out)@ + be64(x),
{
    out.push((x >> 56u64) as u8);
    out.push((x >> 48u64) as u8);
    out.push((x >> 40u64) as u8);
    out.push((x >> 32u64) as u8);
    out.push((x >> 24u64) as u8);
    out.push((x >> 16u64) as u8);
    out.push((x >> 8u64) as u8);
    out.push(x as u8);
    assert(final(out)@ =~= old(out)@ + be64(x));
}

/// Appends `b`.
pub(crate) fn push_bytes(out: &mut Vec<u8>, b: &[u8])
    ensures
        final(out)@ == old(out)@ + b@,
{
    let ghost start = out@;
    let mut i: usize = 0;
    while i < b.len()
        invariant
            0 <= i <= b@.len(),
            out@ == start + b@.take(i as int),
        decreases b@.len() - i,
    {
        out.push(b[i]);
        i += 1;
        proof {
            assert(out@ =~= start + b@.take(i as int));
        }
    }
    assert(b@.take(b@.len() as int) =~= b@);
}

/// Appends `b` preceded by its length.
pub(crate) fn push_framed(out: &mut Vec<u8>, b: &[u8])
    ensures
        final(out)@ == old(out)@ + framed(b@),
{
    push_be64(out, b.len() as u64);
    push_bytes(out, b);
    assert(final(out)@ =~= old(out)@ + framed(b@));
}

} // verus!
