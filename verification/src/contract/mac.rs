//! Domain-separated digests and MACs over the signed wires.
use vstd::prelude::*;
use vstd::string::StringSliceAdditionalSpecFns;

use crate::contract::digest::{framed, push_bytes, push_framed, sha256, sha256_digest};
use crate::contract::error::IngressReject;
use crate::contract::ids::AuthorizationBundleDigest;

verus! {

/// The HMAC-SHA-256 tag of `message` under `key`, as computed by the `hmac` crate.
pub uninterp spec fn hmac_sha256(key: Seq<u8>, message: Seq<u8>) -> Seq<u8>;

/// Checks a tag with `hmac::Hmac<sha2::Sha256>`: `new_from_slice`, one `update` with the
/// whole message, then `verify_slice`.
///
/// Trusted: `new_from_slice` accepts a key of any length, and `verify_slice` succeeds
/// exactly when the tag equals the HMAC of the message, named `hmac_sha256`.
#[verifier::external_body]
fn hmac_sha256_matches(key: &[u8], message: &[u8], tag: &[u8; 32]) -> (r: Option<bool>)
    ensures
        r is Some,
        r matches Some(ok) ==> ok == (tag@ == hmac_sha256(key@, message@)),
{
    let mut mac = <hmac::Hmac<sha2::Sha256> as hmac::Mac>::new_from_slice(key).ok()?;
    hmac::Mac::update(&mut mac, message);
    Some(hmac::Mac::verify_slice(mac, tag).is_ok())
}

/// The domain of the authorization bundle digest.
pub open spec fn bundle_digest_domain() -> Seq<u8> {
    "bianma.ingress.authorization-bundle-digest.v1\0".spec_bytes()
}

/// The domain of the context attestation MAC.
pub open spec fn attestation_mac_domain() -> Seq<u8> {
    "bianma.ingress.context-attestation-mac.v1\0".spec_bytes()
}

/// The domain of the capability authorization MAC.
pub open spec fn capability_mac_domain() -> Seq<u8> {
    "bianma.ingress.capability-authorization-mac.v1\0".spec_bytes()
}

/// The message a MAC covers: the domain, the length-framed claims wire and, where one is
/// bound, a digest.
pub open spec fn mac_message(domain: Seq<u8>, claims_wire: Seq<u8>, bound_digest: Option<Seq<u8>>) -> Seq<u8> {
    domain + framed(claims_wire) + match bound_digest {
        Some(d) => d,
        None => Seq::empty(),
    }
}

/// The digest of a whole authorization bundle wire, domain-separated and length-framed.
pub open spec fn bundle_digest_of(wire: Seq<u8>) -> Seq<u8> {
    sha256(bundle_digest_domain() + framed(wire))
}

/// Digests an authorization bundle wire.
pub fn authorization_bundle_digest(wire: &[u8]) -> (r: AuthorizationBundleDigest)
    ensures
        r.bytes() == bundle_digest_of(wire@),
{
    let mut message: Vec<u8> = Vec::new();
    push_bytes(&mut message, "bianma.ingress.authorization-bundle-digest.v1\0".as_bytes());
    push_framed(&mut message, wire);
    AuthorizationBundleDigest::from_bytes(sha256_digest(message.as_slice()))
}

/// Checks the MAC of a claims wire under `key` in `domain`, binding `bound_digest` where
/// one is given.
pub fn verify_hmac(key: &[u8], domain: &[u8], claims_wire: &[u8], bound_digest: Option<&[u8; 32]>, tag: &[u8; 32]) -> (r:
    Result<(), IngressReject>)
    ensures
        r is Ok <==> tag@ == hmac_sha256(
            key@,
            mac_message(
                domain@,
                claims_wire@,
                match bound_digest {
                    Some(d) => Some(d@),
                    None => None,
                },
            ),
        ),
        r is Err ==> r == Err::<(), IngressReject>(IngressReject::MacInvalid),
{
    let mut message: Vec<u8> = Vec::new();
    push_bytes(&mut message, domain);
    push_framed(&mut message, claims_wire);
    match bound_digest {
        Some(d) => push_bytes(&mut message, d.as_slice()),
        None => {},
    }
    proof {
        let bound = match bound_digest {
            Some(d) => Some(d@),
            None => None,
        };
        assert(message@ =~= mac_message(domain@, claims_wire@, bound));
    }
    match hmac_sha256_matches(key, message.as_slice(), tag) {
        Some(true) => Ok(()),
        Some(false) => Err(IngressReject::MacInvalid),
        None => Err(IngressReject::InternalFailClosed),
    }
}

} // verus!
