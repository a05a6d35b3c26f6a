use hmac::Mac;
use sha2::Digest;
use routing_core::contract::decode::{
    decode_activation_key, decode_attestation, decode_attestation_claims, decode_authorization_bundle,
    decode_capability_authorization, decode_capability_requirements, decode_target, decode_target_list,
};
use routing_core::contract::error::IngressReject;
use routing_core::contract::mac::{authorization_bundle_digest, verify_hmac};
use routing_core::contract::signed::{CanonicalOrigin, EncodedCapabilityAuthorization, SignedIngressRequest};
use routing_core::contract::request::{HttpMethod, RawIngressRequest};

const BUNDLE_PREFIX: &[u8] = b"BIANMA/AUTHORIZATION-BUNDLE/1\0";
const PERMIT_PREFIX: &[u8] = b"BIANMA/EGRESS-PERMIT/1\0";
const REQUIREMENTS_PREFIX: &[u8] = b"BIANMA/CAPABILITY-REQUIREMENTS/1\0";
const ACTIVATION_PREFIX: &[u8] = b"BIANMA/ACTIVATION-KEY/1\0";
const CLAIMS_PREFIX: &[u8] = b"BIANMA/ATTESTATION-CLAIMS/1\0";
const ATTESTATION_PREFIX: &[u8] = b"BIANMA/ATTESTATION/1\0";
const CAPABILITY_CLAIMS_PREFIX: &[u8] = b"BIANMA/CAPABILITY-CLAIMS/1\0";
const CAPABILITY_PREFIX: &[u8] = b"BIANMA/CAPABILITY-AUTHORIZATION/1\0";
const TARGET_PREFIX: &[u8] = b"BIANMA/EGRESS-TARGET/1\0";

trait ResultTestExt<T, E> {
    fn expect_error(self, message: &str) -> E;
}

impl<T, E> ResultTestExt<T, E> for Result<T, E> {
    fn expect_error(self, message: &str) -> E {
        match self {
            Ok(_) => panic!("{message}"),
            Err(error) => error,
        }
    }
}

struct Encoder {
    bytes: Vec<u8>,
}

impl Encoder {
    fn with_prefix(prefix: &[u8]) -> Self {
        Encoder { bytes: prefix.to_vec() }
    }

    fn field(&mut self, tag: u16, value: &[u8]) {
        self.bytes.extend_from_slice(&tag.to_be_bytes());
        self.bytes.extend_from_slice(&(value.len() as u32).to_be_bytes());
        self.bytes.extend_from_slice(value);
    }

    fn field_u8(&mut self, tag: u16, value: u8) {
        self.field(tag, &[value]);
    }

    fn field_u16(&mut self, tag: u16, value: u16) {
        self.field(tag, &value.to_be_bytes());
    }

    fn field_u64(&mut self, tag: u16, value: u64) {
        self.field(tag, &value.to_be_bytes());
    }

    fn into_bytes(self) -> Vec<u8> {
        self.bytes
    }
}

fn target_wire(site: u64, deployment: u64, origin: &[u8], trust_tier: u8) -> Vec<u8> {
    let mut encoder = Encoder::with_prefix(TARGET_PREFIX);
    encoder.field_u64(1, site);
    encoder.field_u64(2, deployment);
    encoder.field(3, origin);
    encoder.field_u8(4, trust_tier);
    encoder.into_bytes()
}

fn target_list(targets: &[Vec<u8>]) -> Vec<u8> {
    let mut bytes = Vec::new();
    bytes.extend_from_slice(&(targets.len() as u16).to_be_bytes());
    for target in targets {
        bytes.extend_from_slice(&(target.len() as u32).to_be_bytes());
        bytes.extend_from_slice(target);
    }
    bytes
}

fn permit_wire(targets: &[u8], nonce: u8) -> Vec<u8> {
    let mut permit = Encoder::with_prefix(PERMIT_PREFIX);
    permit.field_u64(1, 7);
    permit.field(2, &[2; 32]);
    permit.field(3, &[3; 32]);
    permit.field(4, &[4; 32]);
    permit.field(5, &[nonce; 16]);
    permit.field_u8(6, 1);
    permit.field_u8(7, 2);
    permit.field_u64(8, 4096);
    permit.field(9, targets);
    permit.field_u8(10, 1);
    permit.field_u64(11, 11);
    permit.field_u64(12, 12);
    permit.field_u64(13, 1_800_000_060_000);
    permit.into_bytes()
}

fn requirements_wire() -> Vec<u8> {
    let mut requirements = Encoder::with_prefix(REQUIREMENTS_PREFIX);
    for tag in 1..=7u16 {
        requirements.field_u64(tag, u64::from(tag) + 20);
    }
    requirements.field_u8(8, 1);
    requirements.field_u8(9, 0);
    requirements.into_bytes()
}

fn activation_wire() -> Vec<u8> {
    let mut activation = Encoder::with_prefix(ACTIVATION_PREFIX);
    for tag in 1..=7u16 {
        activation.field_u64(tag, u64::from(tag) + 30);
    }
    activation.into_bytes()
}

fn bundle_wire(targets: &[Vec<u8>]) -> Vec<u8> {
    let mut outer = Encoder::with_prefix(BUNDLE_PREFIX);
    outer.field(1, &permit_wire(&target_list(targets), 10));
    outer.field(2, &requirements_wire());
    outer.field(3, &activation_wire());
    outer.into_bytes()
}

fn default_targets() -> Vec<Vec<u8>> {
    vec![target_wire(1, 1, b"https://api.example.test", 1), target_wire(1, 2, b"https://api.example.test", 1)]
}

fn claims_wire(nonce: u8) -> Vec<u8> {
    let mut encoder = Encoder::with_prefix(CLAIMS_PREFIX);
    encoder.field_u16(1, 1);
    for tag in 2..=8u16 {
        encoder.field_u64(tag, u64::from(tag));
    }
    encoder.field_u8(9, 1);
    encoder.field(10, &[10; 32]);
    encoder.field_u8(11, 2);
    encoder.field(12, b"/v1/chat/completions");
    encoder.field(13, &[13; 32]);
    encoder.field(14, &[14; 32]);
    encoder.field_u64(15, 128);
    encoder.field(16, &[16; 32]);
    encoder.field(17, &[17; 32]);
    encoder.field(18, &[18; 32]);
    encoder.field(19, &[nonce; 16]);
    encoder.field_u64(20, 20);
    encoder.field_u64(21, 21);
    encoder.field_u64(22, 22);
    encoder.into_bytes()
}

fn attestation_wire(claims: &[u8], tag: &[u8; 32]) -> Vec<u8> {
    let mut encoder = Encoder::with_prefix(ATTESTATION_PREFIX);
    encoder.field(1, claims);
    encoder.field(2, tag);
    encoder.into_bytes()
}

fn capability_claims_wire(fallback_byte: u8, trust_tier: u8) -> Vec<u8> {
    let mut encoder = Encoder::with_prefix(CAPABILITY_CLAIMS_PREFIX);
    encoder.field_u16(1, 1);
    for tag in 2..=8u16 {
        encoder.field_u64(tag, u64::from(tag));
    }
    encoder.field_u8(9, 3);
    encoder.field(10, &[10; 32]);
    encoder.field_u64(11, 11);
    encoder.field_u64(12, 12);
    encoder.field(13, b"https://api.example.test");
    for tag in 14..=18u16 {
        encoder.field_u64(tag, u64::from(tag));
    }
    encoder.field(19, &[19; 32]);
    encoder.field(20, &[20; 16]);
    encoder.field_u8(21, fallback_byte);
    encoder.field_u64(22, 22);
    encoder.field_u8(23, trust_tier);
    encoder.into_bytes()
}

fn tlv_offsets(wire: &[u8], prefix_len: usize) -> Vec<usize> {
    let mut offsets = Vec::new();
    let mut offset = prefix_len;
    while offset < wire.len() {
        offsets.push(offset);
        let length = u32::from_be_bytes([wire[offset + 2], wire[offset + 3], wire[offset + 4], wire[offset + 5]]) as usize;
        offset += 6 + length;
    }
    offsets
}

#[test]
fn canonical_wire_rejects_unknown_duplicate_out_of_order_and_trailing_fields() {
    let bundle_wire = bundle_wire(&default_targets());
    let attestation_wire = attestation_wire(&claims_wire(10), &[9; 32]);
    assert!(decode_authorization_bundle(&bundle_wire).is_ok());
    assert!(decode_attestation(&attestation_wire).is_ok());

    let offsets = tlv_offsets(&bundle_wire, BUNDLE_PREFIX.len());
    assert_eq!(offsets.len(), 3);

    let mut unknown = bundle_wire.clone();
    unknown[offsets[0]..offsets[0] + 2].copy_from_slice(&u16::MAX.to_be_bytes());
    assert_eq!(
        decode_authorization_bundle(&unknown).expect_error("an unknown field must be refused"),
        IngressReject::AuthorizationBundleMalformed
    );

    let mut duplicate = bundle_wire.clone();
    duplicate[offsets[1]..offsets[1] + 2].copy_from_slice(&1u16.to_be_bytes());
    assert_eq!(
        decode_authorization_bundle(&duplicate).expect_error("a duplicate field must be refused"),
        IngressReject::AuthorizationBundleMalformed
    );

    let mut out_of_order = bundle_wire.clone();
    out_of_order[offsets[0]..offsets[0] + 2].copy_from_slice(&2u16.to_be_bytes());
    assert_eq!(
        decode_authorization_bundle(&out_of_order).expect_error("an out-of-order field must be refused"),
        IngressReject::AuthorizationBundleMalformed
    );

    let mut trailing = attestation_wire.clone();
    trailing.push(0);
    assert_eq!(
        decode_attestation(&trailing).expect_error("trailing bytes must be refused"),
        IngressReject::ProofMalformed
    );

    let mut bad_prefix = attestation_wire;
    bad_prefix[ATTESTATION_PREFIX.len() - 2] ^= 1;
    assert_eq!(
        decode_attestation(&bad_prefix).expect_error("a wrong domain or version must be refused"),
        IngressReject::ProofMalformed
    );
}

#[test]
fn authorization_target_list_must_be_sorted_and_unique() {
    let mut reversed = default_targets();
    reversed.reverse();
    assert_eq!(
        decode_authorization_bundle(&bundle_wire(&reversed)).expect_error("unsorted targets must be refused"),
        IngressReject::AuthorizationBundleMalformed
    );

    let first = default_targets()[0].clone();
    assert_eq!(
        decode_authorization_bundle(&bundle_wire(&[first.clone(), first.clone()]))
            .expect_error("duplicate targets must be refused"),
        IngressReject::AuthorizationBundleMalformed
    );

    let same_target_other_tier = target_wire(1, 1, b"https://api.example.test", 2);
    assert_eq!(
        decode_authorization_bundle(&bundle_wire(&[first, same_target_other_tier]))
            .expect_error("one logical target must not be granted twice with different trust tiers"),
        IngressReject::AuthorizationBundleMalformed
    );
}

#[test]
fn canonical_origin_rejects_credentials_noncanonical_ports_and_non_loopback_http() {
    for invalid in [
        b"https://user@example.test".as_slice(),
        b"https://example.test:443".as_slice(),
        b"https://example.test:0443".as_slice(),
        b"https://example.test:bad".as_slice(),
        b"https://Example.test".as_slice(),
        b"http://example.test".as_slice(),
        b"https://example.test/path".as_slice(),
        b"https://example.test.".as_slice(),
        b"https://127.0.0.01".as_slice(),
        b"https://0177.0.0.1".as_slice(),
        b"https://0x7f.0.0.1".as_slice(),
        b"https://2130706433".as_slice(),
        b"https://127.1".as_slice(),
        b"https://0x".as_slice(),
        b"https://1.2.3.4.5".as_slice(),
        b"https://example.127".as_slice(),
        b"https://[::ffff:127.0.0.1]".as_slice(),
    ] {
        assert!(
            CanonicalOrigin::try_new(invalid).is_err(),
            "a non-canonical origin was accepted: {}",
            String::from_utf8_lossy(invalid)
        );
    }
    assert!(CanonicalOrigin::try_new(b"https://example.test:8443").is_ok());
    assert!(CanonicalOrigin::try_new(b"http://127.0.0.1:8080").is_ok());
    assert!(CanonicalOrigin::try_new(b"http://[::1]:8080").is_ok());
}

#[test]
fn canonical_origin_keeps_exact_bytes_and_refuses_with_constraint_mismatch() {
    let origin = CanonicalOrigin::try_new(b"http://localhost:3000").expect("a loopback origin is canonical");
    assert_eq!(origin.as_bytes(), b"http://localhost:3000");
    assert_eq!(CanonicalOrigin::try_new(b"").expect_error("empty"), IngressReject::CapabilityConstraintMismatch);
    assert_eq!(
        CanonicalOrigin::try_new(b"https://example.test ").expect_error("a space"),
        IngressReject::CapabilityConstraintMismatch
    );
    assert_eq!(
        CanonicalOrigin::try_new(b"https://example.test/?q=1").expect_error("a query"),
        IngressReject::CapabilityConstraintMismatch
    );
}

#[test]
fn decoded_claims_carry_the_wire_values() {
    let key = decode_activation_key(&activation_wire()).expect("a canonical activation key decodes");
    assert_eq!(key.client_family.get(), 31);
    assert_eq!(key.transform_owner_version.get(), 37);
    let requirements = decode_capability_requirements(&requirements_wire()).expect("canonical requirements decode");
    assert_eq!(requirements.handle_earliest_expiry_millis, 26);
    assert!(!requirements.local_handle_required);
    let claims = decode_attestation_claims(&claims_wire(10)).expect("canonical claims decode");
    assert_eq!(claims.schema_version, 1);
    assert_eq!(claims.body_length, 128);
    assert_eq!(claims.target, b"/v1/chat/completions".to_vec());
    assert_eq!(claims.method, HttpMethod::Post);
    let bundle = decode_authorization_bundle(&bundle_wire(&default_targets())).expect("a canonical bundle decodes");
    assert_eq!(bundle.permit.allowed_targets.len(), 2);
    assert_eq!(bundle.permit.max_outbound_bytes, 4096);
    assert!(bundle.permit.fallback_allowed);
}

#[test]
fn decoders_refuse_invalid_codes_zero_nonces_and_bad_trust_tiers() {
    assert_eq!(
        decode_attestation_claims(&claims_wire(0)).expect_error("an all-zero nonce"),
        IngressReject::ProofMalformed
    );
    let mut outer = Encoder::with_prefix(BUNDLE_PREFIX);
    outer.field(1, &permit_wire(&target_list(&default_targets()), 0));
    outer.field(2, &requirements_wire());
    outer.field(3, &activation_wire());
    assert_eq!(
        decode_authorization_bundle(&outer.into_bytes()).expect_error("an all-zero permit nonce"),
        IngressReject::AuthorizationBundleMalformed
    );
    assert_eq!(
        decode_target(&target_wire(1, 1, b"https://api.example.test", 3)).expect_error("trust tier 3"),
        IngressReject::AuthorizationBundleMalformed
    );
    assert_eq!(
        decode_target_list(&target_list(&[])).expect_error("an empty list"),
        IngressReject::AuthorizationBundleMalformed
    );
    let capability = |fallback: u8, tier: u8| {
        let claims = capability_claims_wire(fallback, tier);
        let mut encoder = Encoder::with_prefix(CAPABILITY_PREFIX);
        encoder.field(1, &claims);
        encoder.field(2, &[1; 32]);
        encoder.into_bytes()
    };
    assert!(decode_capability_authorization(&capability(0, 2)).is_ok());
    assert_eq!(
        decode_capability_authorization(&capability(1, 2)).expect_error("fallback allowed"),
        IngressReject::CapabilityAuthorizationMalformed
    );
    assert_eq!(
        decode_capability_authorization(&capability(0, 3)).expect_error("trust tier 3"),
        IngressReject::CapabilityAuthorizationMalformed
    );
}

#[test]
fn bundle_digest_is_domain_separated_and_length_framed() {
    let wire = bundle_wire(&default_targets());
    let mut hasher = sha2::Sha256::new();
    hasher.update(b"bianma.ingress.authorization-bundle-digest.v1\0");
    hasher.update((wire.len() as u64).to_be_bytes());
    hasher.update(&wire);
    let expected: [u8; 32] = hasher.finalize().into();
    assert_eq!(authorization_bundle_digest(&wire).as_bytes(), &expected);
    assert_ne!(authorization_bundle_digest(&wire).as_bytes(), authorization_bundle_digest(b"").as_bytes());
}

#[test]
fn hmac_check_binds_domain_claims_and_digest() {
    let key = [7u8; 32];
    let claims = claims_wire(10);
    let digest = [5u8; 32];
    let mut mac = hmac::Hmac::<sha2::Sha256>::new_from_slice(&key).expect("any key length");
    mac.update(b"bianma.ingress.context-attestation-mac.v1\0");
    mac.update(&(claims.len() as u64).to_be_bytes());
    mac.update(&claims);
    mac.update(&digest);
    let tag: [u8; 32] = mac.finalize().into_bytes().into();
    let domain = b"bianma.ingress.context-attestation-mac.v1\0";
    assert!(verify_hmac(&key, domain, &claims, Some(&digest), &tag).is_ok());
    assert_eq!(verify_hmac(&key, domain, &claims, None, &tag).expect_error("no digest"), IngressReject::MacInvalid);
    assert_eq!(
        verify_hmac(&[8u8; 32], domain, &claims, Some(&digest), &tag).expect_error("another key"),
        IngressReject::MacInvalid
    );
    let signed = attestation_wire(&claims, &tag);
    let decoded = decode_attestation(&signed).expect("a canonical attestation decodes");
    assert_eq!(decoded.tag, tag);
    assert_eq!(decoded.claims_wire, claims);
}

#[test]
fn wire_containers_are_bounded() {
    let request = || {
        RawIngressRequest::try_new(HttpMethod::Post, b"/v1/chat/completions", Vec::new(), b"{}".to_vec())
            .expect("a plain request is valid")
    };
    assert!(SignedIngressRequest::try_new(request(), vec![1], vec![1]).is_ok());
    assert_eq!(
        SignedIngressRequest::try_new(request(), Vec::new(), vec![1]).expect_error("an empty attestation"),
        IngressReject::RequestTooLarge
    );
    assert_eq!(
        SignedIngressRequest::try_new(request(), vec![1], vec![0; 65537]).expect_error("an oversized bundle"),
        IngressReject::RequestTooLarge
    );
    assert!(EncodedCapabilityAuthorization::try_new(vec![1; 16384]).is_ok());
    assert_eq!(
        EncodedCapabilityAuthorization::try_new(vec![1; 16385]).expect_error("an oversized authorization"),
        IngressReject::RequestTooLarge
    );
}
