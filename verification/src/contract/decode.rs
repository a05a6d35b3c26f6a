//! The strict canonical decoders of the signed wires.
//!
//! Each wire is a domain-separated prefix and the fields of one claim set in one fixed
//! order. A decoder accepts exactly the canonical wires of valid claims, and gives back the
//! claims that the wire carries.
use vstd::prelude::*;
use vstd::string::StringSliceAdditionalSpecFns;

use crate::contract::canonical::{
    be64_bytes, canonical_wire, decode_fields, shapes_bounded, slice_values, u64_from_be, values_fit,
};
use crate::contract::bytes::bytes_eq;
use crate::contract::canonical::lemma_be32_roundtrip;
use crate::contract::canonical::{
    be16, be32, fixed16, fixed32, lemma_be64_injective, lemma_canonical_wire_injective, tlvs, u16_from_be, u32_from_be,
};
use crate::contract::limits::{MAX_ALLOWED_EGRESS_TARGETS, MAX_AUTHORIZATION_BUNDLE_BYTES};
use crate::contract::operation::{lemma_lex_irreflexive, lex_less, lex_lt};
use crate::contract::claims::{
    continuation_code, purpose_code, sensitivity_code, AllowedEgressTarget, AttestationClaims, AuthorizationBundle,
    ContextEgressPermit, EgressPurpose, SensitivityClass, CapabilityClaims, ContextActivationKey, ContextCapabilityRequirements,
    ContinuationConstraint, SignedAttestation, SignedCapabilityAuthorization,
};
use crate::contract::error::IngressReject;
use crate::contract::ids::{
    AccountId, AccountSelectorId, AdapterContractRevision, AdapterVersion, AudienceId, AuthorizationBundleDigest,
    BodyDigest, CapabilityManagementScopeId, ClientFamilyId, ClientVersion, ConsentRevision, ContextPolicyVersion, CredentialId,
    EndpointId, EnvelopeDigest, HandleEpoch, IngressSchemaVersion, IngressTokenScopeId, IssuerEpoch, ListenerId,
    ModelDeploymentId, OneShotNonce, OperationId, ProtocolFrameRevision, RegistryDigest, RequestDigest,
    RetrievalSchemaRevision, RoutePolicyRevision, SemanticHeadersDigest, SiteId, ToolSchemaRevision, TransformOwnerId,
    TransformOwnerVersion,
};
use crate::contract::limits::{
    MAX_ATTESTATION_BYTES, MAX_CANONICAL_ORIGIN_BYTES, MAX_CAPABILITY_AUTHORIZATION_BYTES, MAX_REQUEST_TARGET_BYTES,
};
use crate::contract::operation::{domain_code, RequestDispatchDomain};
use crate::contract::request::{method_code, HttpMethod};
use crate::contract::signed::{canonical_origin_ok, CanonicalOrigin};

verus! {

/// The prefix of an activation key wire.
pub open spec fn activation_key_prefix() -> Seq<u8> {
    "BIANMA/ACTIVATION-KEY/1\0".spec_bytes()
}

/// The fields of an activation key wire: seven 64-bit integers.
pub open spec fn activation_key_shapes() -> Seq<(u16, usize)> {
    seq![(1u16, 8usize), (2u16, 8usize), (3u16, 8usize), (4u16, 8usize), (5u16, 8usize), (6u16, 8usize), (7u16, 8usize)]
}

/// The field values of an activation key.
pub open spec fn activation_key_values(k: ContextActivationKey) -> Seq<Seq<u8>> {
    seq![
        be64_bytes(k.client_family.value()),
        be64_bytes(k.client_version.value()),
        be64_bytes(k.adapter_version.value()),
        be64_bytes(k.ingress_schema_version.value()),
        be64_bytes(k.context_policy_version.value()),
        be64_bytes(k.transform_owner.value()),
        be64_bytes(k.transform_owner_version.value()),
    ]
}

/// The canonical wire of an activation key.
#[verifier::opaque]
pub open spec fn activation_key_wire(k: ContextActivationKey) -> Seq<u8> {
    canonical_wire(activation_key_prefix(), activation_key_shapes(), activation_key_values(k))
}

proof fn lemma_activation_key_fits(k: ContextActivationKey)
    ensures
        shapes_bounded(activation_key_shapes()),
        values_fit(activation_key_shapes(), activation_key_values(k)),
{
    let v = activation_key_values(k);
    let s = activation_key_shapes();
    assert forall|i: int| 0 <= i < v.len() implies (#[trigger] v[i]).len() <= s[i].1 by {
        if i == 0 {
        } else if i == 1 {
        } else if i == 2 {
        } else if i == 3 {
        } else if i == 4 {
        } else if i == 5 {
        } else {
        }
    }
}

/// Decodes an activation key wire.
pub fn decode_activation_key(wire: &[u8]) -> (r: Result<ContextActivationKey, IngressReject>)
    ensures
        r matches Ok(k) ==> wire@ == activation_key_wire(k),
        r is Err ==> r == Err::<ContextActivationKey, IngressReject>(IngressReject::AuthorizationBundleMalformed),
        r is Err ==> forall|k: ContextActivationKey| wire@ != #[trigger] activation_key_wire(k),
{
    reveal(activation_key_wire);
    let error = IngressReject::AuthorizationBundleMalformed;
    let shapes = vec![(1u16, 8usize), (2u16, 8usize), (3u16, 8usize), (4u16, 8usize), (5u16, 8usize), (6u16, 8usize), (7u16, 8usize)];
    proof {
        assert(shapes@ =~= activation_key_shapes());
        lemma_activation_key_fits(arbitrary());
    }
    let vals = match decode_fields(wire, "BIANMA/ACTIVATION-KEY/1\0".as_bytes(), shapes.as_slice(), error) {
        Ok(v) => v,
        Err(e) => {
            proof {
                assert forall|k: ContextActivationKey| wire@ != #[trigger] activation_key_wire(k) by {
                    lemma_activation_key_fits(k);
                }
            }
            return Err(e);
        },
    };
    let ghost v = slice_values(vals@);
    if vals[0].len() != 8 || vals[1].len() != 8 || vals[2].len() != 8 || vals[3].len() != 8 || vals[4].len() != 8
        || vals[5].len() != 8 || vals[6].len() != 8 {
        proof {
            assert forall|k: ContextActivationKey| wire@ != #[trigger] activation_key_wire(k) by {
                if wire@ == activation_key_wire(k) {
                    lemma_activation_key_fits(k);
                    assert(activation_key_values(k) == v);
                }
            }
        }
        return Err(error);
    }
    let k = ContextActivationKey {
        client_family: ClientFamilyId::new(u64_from_be(vals[0])),
        client_version: ClientVersion::new(u64_from_be(vals[1])),
        adapter_version: AdapterVersion::new(u64_from_be(vals[2])),
        ingress_schema_version: IngressSchemaVersion::new(u64_from_be(vals[3])),
        context_policy_version: ContextPolicyVersion::new(u64_from_be(vals[4])),
        transform_owner: TransformOwnerId::new(u64_from_be(vals[5])),
        transform_owner_version: TransformOwnerVersion::new(u64_from_be(vals[6])),
    };
    proof {
        assert(activation_key_values(k) =~= v);
    }
    Ok(k)
}

/// The wire byte of a boolean.
pub open spec fn bool_byte(b: bool) -> u8 {
    if b {
        1
    } else {
        0
    }
}

/// Whether a nonce is not all zero.
pub open spec fn nonce_nonzero(n: OneShotNonce) -> bool {
    exists|i: int| 0 <= i < 16 && n.bytes()[i] != 0
}

/// The prefix of a capability requirements wire.
pub open spec fn requirements_prefix() -> Seq<u8> {
    "BIANMA/CAPABILITY-REQUIREMENTS/1\0".spec_bytes()
}

/// The fields of a capability requirements wire.
pub open spec fn requirements_shapes() -> Seq<(u16, usize)> {
    seq![
        (1u16, 8usize),
        (2u16, 8usize),
        (3u16, 8usize),
        (4u16, 8usize),
        (5u16, 8usize),
        (6u16, 8usize),
        (7u16, 8usize),
        (8u16, 1usize),
        (9u16, 1usize),
    ]
}

/// The field values of capability requirements.
pub open spec fn requirements_values(q: ContextCapabilityRequirements) -> Seq<Seq<u8>> {
    seq![
        be64_bytes(q.tool_schema_revision.value()),
        be64_bytes(q.retrieval_schema_revision.value()),
        be64_bytes(q.client_adapter_version.value()),
        be64_bytes(q.upstream_adapter_revision.value()),
        be64_bytes(q.handle_epoch.value()),
        be64_bytes(q.handle_earliest_expiry_millis),
        be64_bytes(q.protocol_frame_revision.value()),
        seq![continuation_code(q.continuation)],
        seq![bool_byte(q.local_handle_required)],
    ]
}

/// The canonical wire of capability requirements.
#[verifier::opaque]
pub open spec fn requirements_wire(q: ContextCapabilityRequirements) -> Seq<u8> {
    canonical_wire(requirements_prefix(), requirements_shapes(), requirements_values(q))
}

proof fn lemma_requirements_fit(q: ContextCapabilityRequirements)
    ensures
        shapes_bounded(requirements_shapes()),
        values_fit(requirements_shapes(), requirements_values(q)),
{
    let v = requirements_values(q);
    let s = requirements_shapes();
    assert forall|i: int| 0 <= i < v.len() implies (#[trigger] v[i]).len() <= s[i].1 by {
        if i < 7 {
        } else if i == 7 {
        } else {
        }
    }
}

/// Decodes a capability requirements wire.
pub fn decode_capability_requirements(wire: &[u8]) -> (r: Result<ContextCapabilityRequirements, IngressReject>)
    ensures
        r matches Ok(q) ==> wire@ == requirements_wire(q),
        r is Err ==> r == Err::<ContextCapabilityRequirements, IngressReject>(
            IngressReject::AuthorizationBundleMalformed,
        ),
        r is Err ==> forall|q: ContextCapabilityRequirements| wire@ != #[trigger] requirements_wire(q),
{
    reveal(requirements_wire);
    let error = IngressReject::AuthorizationBundleMalformed;
    let shapes = vec![
        (1u16, 8usize),
        (2u16, 8usize),
        (3u16, 8usize),
        (4u16, 8usize),
        (5u16, 8usize),
        (6u16, 8usize),
        (7u16, 8usize),
        (8u16, 1usize),
        (9u16, 1usize),
    ];
    proof {
        assert(shapes@ =~= requirements_shapes());
        lemma_requirements_fit(arbitrary());
    }
    let vals = match decode_fields(wire, "BIANMA/CAPABILITY-REQUIREMENTS/1\0".as_bytes(), shapes.as_slice(), error) {
        Ok(v) => v,
        Err(e) => {
            proof {
                assert forall|q: ContextCapabilityRequirements| wire@ != #[trigger] requirements_wire(q) by {
                    lemma_requirements_fit(q);
                }
            }
            return Err(e);
        },
    };
    let ghost v = slice_values(vals@);
    if vals[0].len() != 8 || vals[1].len() != 8 || vals[2].len() != 8 || vals[3].len() != 8 || vals[4].len() != 8
        || vals[5].len() != 8 || vals[6].len() != 8 || vals[7].len() != 1 || vals[8].len() != 1 || vals[8][0] > 1 {
        proof {
            assert forall|q: ContextCapabilityRequirements| wire@ != #[trigger] requirements_wire(q) by {
                if wire@ == requirements_wire(q) {
                    lemma_requirements_fit(q);
                    assert(requirements_values(q) == v);
                }
            }
        }
        return Err(error);
    }
    let continuation = match ContinuationConstraint::from_code(vals[7][0]) {
        Ok(c) => c,
        Err(e) => {
            proof {
                assert forall|q: ContextCapabilityRequirements| wire@ != #[trigger] requirements_wire(q) by {
                    if wire@ == requirements_wire(q) {
                        lemma_requirements_fit(q);
                        assert(requirements_values(q) == v);
                        assert(v[7] == seq![continuation_code(q.continuation)]);
                    }
                }
            }
            return Err(e);
        },
    };
    let local_handle_required = vals[8][0] == 1;
    let q = ContextCapabilityRequirements {
        tool_schema_revision: ToolSchemaRevision::new(u64_from_be(vals[0])),
        retrieval_schema_revision: RetrievalSchemaRevision::new(u64_from_be(vals[1])),
        client_adapter_version: AdapterVersion::new(u64_from_be(vals[2])),
        upstream_adapter_revision: AdapterContractRevision::new(u64_from_be(vals[3])),
        handle_epoch: HandleEpoch::new(u64_from_be(vals[4])),
        handle_earliest_expiry_millis: u64_from_be(vals[5]),
        protocol_frame_revision: ProtocolFrameRevision::new(u64_from_be(vals[6])),
        continuation,
        local_handle_required,
    };
    proof {
        assert(v[7] =~= seq![continuation_code(continuation)]);
        assert(v[8] =~= seq![bool_byte(local_handle_required)]);
        assert(requirements_values(q) =~= v);
    }
    Ok(q)
}

fn bytes32(v: &[u8]) -> (r: [u8; 32])
    requires
        v@.len() == 32,
    ensures
        r@ == v@,
{
    match fixed32(v, IngressReject::InternalFailClosed) {
        Ok(a) => a,
        Err(_) => {
            proof {
                assert(false);
            }
            [0u8; 32]
        },
    }
}

fn bytes16(v: &[u8]) -> (r: [u8; 16])
    requires
        v@.len() == 16,
    ensures
        r@ == v@,
{
    match fixed16(v, IngressReject::InternalFailClosed) {
        Ok(a) => a,
        Err(_) => {
            proof {
                assert(false);
            }
            [0u8; 16]
        },
    }
}

/// The prefix of an attestation claims wire.
pub open spec fn attestation_claims_prefix() -> Seq<u8> {
    "BIANMA/ATTESTATION-CLAIMS/1\0".spec_bytes()
}

/// The fields of an attestation claims wire.
pub open spec fn attestation_claims_shapes() -> Seq<(u16, usize)> {
    seq![
        (1u16, 2usize),
        (2u16, 8usize),
        (3u16, 8usize),
        (4u16, 8usize),
        (5u16, 8usize),
        (6u16, 8usize),
        (7u16, 8usize),
        (8u16, 8usize),
        (9u16, 1usize),
        (10u16, 32usize),
        (11u16, 1usize),
        (12u16, MAX_REQUEST_TARGET_BYTES),
        (13u16, 32usize),
        (14u16, 32usize),
        (15u16, 8usize),
        (16u16, 32usize),
        (17u16, 32usize),
        (18u16, 32usize),
        (19u16, 16usize),
        (20u16, 8usize),
        (21u16, 8usize),
        (22u16, 8usize),
    ]
}

/// The field values of attestation claims.
pub open spec fn attestation_claims_values(c: AttestationClaims) -> Seq<Seq<u8>> {
    seq![
        be16(c.schema_version),
        be64_bytes(c.audience.value()),
        be64_bytes(c.issuer_epoch.value()),
        be64_bytes(c.issued_at_millis),
        be64_bytes(c.expires_at_millis),
        be64_bytes(c.listener.value()),
        be64_bytes(c.token_scope.value()),
        be64_bytes(c.operation.value()),
        seq![domain_code(c.dispatch_domain)],
        c.registry_digest.bytes(),
        seq![method_code(c.method)],
        c.target@,
        c.semantic_headers_digest.bytes(),
        c.body_digest.bytes(),
        be64_bytes(c.body_length),
        c.request_digest.bytes(),
        c.envelope_digest.bytes(),
        c.authorization_bundle_digest.bytes(),
        c.nonce.bytes(),
        be64_bytes(c.policy_revision.value()),
        be64_bytes(c.adapter_version.value()),
        be64_bytes(c.transform_owner_version.value()),
    ]
}

/// Whether attestation claims can be carried: a nonzero nonce and a bounded target.
pub open spec fn attestation_claims_valid(c: AttestationClaims) -> bool {
    nonce_nonzero(c.nonce) && c.target@.len() <= MAX_REQUEST_TARGET_BYTES
}

/// The canonical wire of attestation claims.
pub open spec fn attestation_claims_wire(c: AttestationClaims) -> Seq<u8> {
    canonical_wire(attestation_claims_prefix(), attestation_claims_shapes(), attestation_claims_values(c))
}

proof fn lemma_attestation_claims_fit(c: AttestationClaims)
    requires
        attestation_claims_valid(c),
    ensures
        shapes_bounded(attestation_claims_shapes()),
        values_fit(attestation_claims_shapes(), attestation_claims_values(c)),
{
    let v = attestation_claims_values(c);
    let s = attestation_claims_shapes();
    c.registry_digest.lemma_bytes_len();
    c.semantic_headers_digest.lemma_bytes_len();
    c.body_digest.lemma_bytes_len();
    c.request_digest.lemma_bytes_len();
    c.envelope_digest.lemma_bytes_len();
    c.authorization_bundle_digest.lemma_bytes_len();
    c.nonce.lemma_bytes_len();
    assert forall|i: int| 0 <= i < v.len() implies (#[trigger] v[i]).len() <= s[i].1 by {
        if i < 8 {
        } else if i < 16 {
        } else {
        }
    }
}

proof fn lemma_attestation_claims_shape(c: AttestationClaims)
    ensures
        shapes_bounded(attestation_claims_shapes()),
{
    let s = attestation_claims_shapes();
    assert forall|i: int| 0 <= i < s.len() implies (#[trigger] s[i]).1 <= u32::MAX by {
        if i < 11 {
        } else {
        }
    }
}

/// Decodes an attestation claims wire.
#[verifier::spinoff_prover]
#[verifier::rlimit(40)]
pub fn decode_attestation_claims(wire: &[u8]) -> (r: Result<AttestationClaims, IngressReject>)
    ensures
        r matches Ok(c) ==> attestation_claims_valid(c) && wire@ == attestation_claims_wire(c),
        r is Err ==> r == Err::<AttestationClaims, IngressReject>(IngressReject::ProofMalformed),
        r is Err ==> forall|c: AttestationClaims|
            attestation_claims_valid(c) ==> wire@ != #[trigger] attestation_claims_wire(c),
{
    let error = IngressReject::ProofMalformed;
    let shapes = vec![
        (1u16, 2usize),
        (2u16, 8usize),
        (3u16, 8usize),
        (4u16, 8usize),
        (5u16, 8usize),
        (6u16, 8usize),
        (7u16, 8usize),
        (8u16, 8usize),
        (9u16, 1usize),
        (10u16, 32usize),
        (11u16, 1usize),
        (12u16, MAX_REQUEST_TARGET_BYTES),
        (13u16, 32usize),
        (14u16, 32usize),
        (15u16, 8usize),
        (16u16, 32usize),
        (17u16, 32usize),
        (18u16, 32usize),
        (19u16, 16usize),
        (20u16, 8usize),
        (21u16, 8usize),
        (22u16, 8usize),
    ];
    proof {
        assert(shapes@ =~= attestation_claims_shapes());
        lemma_attestation_claims_shape(arbitrary());
    }
    let vals = match decode_fields(wire, "BIANMA/ATTESTATION-CLAIMS/1\0".as_bytes(), shapes.as_slice(), error) {
        Ok(v) => v,
        Err(e) => {
            proof {
                assert forall|c: AttestationClaims|
                    attestation_claims_valid(c) implies wire@ != #[trigger] attestation_claims_wire(c) by {
                    lemma_attestation_claims_fit(c);
                }
            }
            return Err(e);
        },
    };
    let ghost v = slice_values(vals@);
    if vals[0].len() != 2 || vals[1].len() != 8 || vals[2].len() != 8 || vals[3].len() != 8 || vals[4].len() != 8
        || vals[5].len() != 8 || vals[6].len() != 8 || vals[7].len() != 8 || vals[8].len() != 1 || vals[9].len()
        != 32 || vals[10].len() != 1 || vals[12].len() != 32 || vals[13].len() != 32 || vals[14].len() != 8
        || vals[15].len() != 32 || vals[16].len() != 32 || vals[17].len() != 32 || vals[18].len() != 16
        || vals[19].len() != 8 || vals[20].len() != 8 || vals[21].len() != 8 {
        proof {
            assert forall|c: AttestationClaims|
                attestation_claims_valid(c) implies wire@ != #[trigger] attestation_claims_wire(c) by {
                if wire@ == attestation_claims_wire(c) {
                    lemma_attestation_claims_fit(c);
                    assert(attestation_claims_values(c) == v);
                    c.registry_digest.lemma_bytes_len();
                    c.semantic_headers_digest.lemma_bytes_len();
                    c.body_digest.lemma_bytes_len();
                    c.request_digest.lemma_bytes_len();
                    c.envelope_digest.lemma_bytes_len();
                    c.authorization_bundle_digest.lemma_bytes_len();
                    c.nonce.lemma_bytes_len();
                }
            }
        }
        return Err(error);
    }
    let dispatch_domain = match RequestDispatchDomain::from_code(vals[8][0]) {
        Ok(d) => d,
        Err(e) => {
            proof {
                assert forall|c: AttestationClaims|
                    attestation_claims_valid(c) implies wire@ != #[trigger] attestation_claims_wire(c) by {
                    if wire@ == attestation_claims_wire(c) {
                        lemma_attestation_claims_fit(c);
                        assert(attestation_claims_values(c) == v);
                        assert(v[8] == seq![domain_code(c.dispatch_domain)]);
                    }
                }
            }
            return Err(e);
        },
    };
    let method = match HttpMethod::from_code(vals[10][0]) {
        Ok(m) => m,
        Err(e) => {
            proof {
                assert forall|c: AttestationClaims|
                    attestation_claims_valid(c) implies wire@ != #[trigger] attestation_claims_wire(c) by {
                    if wire@ == attestation_claims_wire(c) {
                        lemma_attestation_claims_fit(c);
                        assert(attestation_claims_values(c) == v);
                        assert(v[10] == seq![method_code(c.method)]);
                    }
                }
            }
            return Err(e);
        },
    };
    let nonce = match OneShotNonce::from_bytes(bytes16(vals[18])) {
        Ok(n) => n,
        Err(_) => {
            proof {
                assert forall|c: AttestationClaims|
                    attestation_claims_valid(c) implies wire@ != #[trigger] attestation_claims_wire(c) by {
                    if wire@ == attestation_claims_wire(c) {
                        lemma_attestation_claims_fit(c);
                        assert(attestation_claims_values(c) == v);
                        assert(v[18] == c.nonce.bytes());
                    }
                }
            }
            return Err(error);
        },
    };
    let c = AttestationClaims {
        schema_version: u16_from_be(vals[0]),
        audience: AudienceId::new(u64_from_be(vals[1])),
        issuer_epoch: IssuerEpoch::new(u64_from_be(vals[2])),
        issued_at_millis: u64_from_be(vals[3]),
        expires_at_millis: u64_from_be(vals[4]),
        listener: ListenerId::new(u64_from_be(vals[5])),
        token_scope: IngressTokenScopeId::new(u64_from_be(vals[6])),
        operation: OperationId::new(u64_from_be(vals[7])),
        dispatch_domain,
        registry_digest: RegistryDigest::from_bytes(bytes32(vals[9])),
        method,
        target: vstd::slice::slice_to_vec(vals[11]),
        semantic_headers_digest: SemanticHeadersDigest::from_bytes(bytes32(vals[12])),
        body_digest: BodyDigest::from_bytes(bytes32(vals[13])),
        body_length: u64_from_be(vals[14]),
        request_digest: RequestDigest::from_bytes(bytes32(vals[15])),
        envelope_digest: EnvelopeDigest::from_bytes(bytes32(vals[16])),
        authorization_bundle_digest: AuthorizationBundleDigest::from_bytes(bytes32(vals[17])),
        nonce,
        policy_revision: RoutePolicyRevision::new(u64_from_be(vals[19])),
        adapter_version: AdapterVersion::new(u64_from_be(vals[20])),
        transform_owner_version: TransformOwnerVersion::new(u64_from_be(vals[21])),
    };
    proof {
        assert(v[8] =~= seq![domain_code(dispatch_domain)]);
        assert(v[10] =~= seq![method_code(method)]);
        assert(attestation_claims_values(c) =~= v);
        assert(values_fit(attestation_claims_shapes(), v));
        assert(v[11].len() <= MAX_REQUEST_TARGET_BYTES);
        assert(nonce_nonzero(nonce)) by {
            nonce.lemma_bytes_len();
            if !nonce_nonzero(nonce) {
                assert(forall|i: int| 0 <= i < 16 ==> nonce.bytes()[i] == 0);
            }
        }
    }
    Ok(c)
}

/// The prefix of a capability claims wire.
pub open spec fn capability_claims_prefix() -> Seq<u8> {
    "BIANMA/CAPABILITY-CLAIMS/1\0".spec_bytes()
}

/// The fields of a capability claims wire.
pub open spec fn capability_claims_shapes() -> Seq<(u16, usize)> {
    seq![
        (1u16, 2usize),
        (2u16, 8usize),
        (3u16, 8usize),
        (4u16, 8usize),
        (5u16, 8usize),
        (6u16, 8usize),
        (7u16, 8usize),
        (8u16, 8usize),
        (9u16, 1usize),
        (10u16, 32usize),
        (11u16, 8usize),
        (12u16, 8usize),
        (13u16, MAX_CANONICAL_ORIGIN_BYTES),
        (14u16, 8usize),
        (15u16, 8usize),
        (16u16, 8usize),
        (17u16, 8usize),
        (18u16, 8usize),
        (19u16, 32usize),
        (20u16, 16usize),
        (21u16, 1usize),
        (22u16, 8usize),
        (23u16, 1usize),
    ]
}

/// The field values of capability claims.
pub open spec fn capability_claims_values(c: CapabilityClaims) -> Seq<Seq<u8>> {
    seq![
        be16(c.schema_version),
        be64_bytes(c.audience.value()),
        be64_bytes(c.issuer_epoch.value()),
        be64_bytes(c.issued_at_millis),
        be64_bytes(c.deadline_millis),
        be64_bytes(c.listener.value()),
        be64_bytes(c.token_scope.value()),
        be64_bytes(c.operation.value()),
        seq![domain_code(c.dispatch_domain)],
        c.registry_digest.bytes(),
        be64_bytes(c.deployment.value()),
        be64_bytes(c.endpoint.value()),
        c.origin.bytes(),
        be64_bytes(c.account_selector.value()),
        be64_bytes(c.account.value()),
        be64_bytes(c.credential.value()),
        be64_bytes(c.adapter_contract_revision.value()),
        be64_bytes(c.management_scope.value()),
        c.request_digest.bytes(),
        c.nonce.bytes(),
        seq![if c.fallback_forbidden { 0u8 } else { 1u8 }],
        be64_bytes(c.site.value()),
        seq![c.trust_tier],
    ]
}

/// Whether capability claims can be carried: a nonzero nonce, a canonical origin, a trust
/// tier of at most 2 and fallback forbidden.
pub open spec fn capability_claims_valid(c: CapabilityClaims) -> bool {
    &&& nonce_nonzero(c.nonce)
    &&& canonical_origin_ok(c.origin.bytes())
    &&& c.trust_tier <= 2
    &&& c.fallback_forbidden
}

/// The canonical wire of capability claims.
pub open spec fn capability_claims_wire(c: CapabilityClaims) -> Seq<u8> {
    canonical_wire(capability_claims_prefix(), capability_claims_shapes(), capability_claims_values(c))
}

proof fn lemma_capability_claims_fit(c: CapabilityClaims)
    requires
        capability_claims_valid(c),
    ensures
        shapes_bounded(capability_claims_shapes()),
        values_fit(capability_claims_shapes(), capability_claims_values(c)),
        c.registry_digest.bytes().len() == 32,
        c.request_digest.bytes().len() == 32,
        c.nonce.bytes().len() == 16,
{
    let v = capability_claims_values(c);
    let s = capability_claims_shapes();
    c.registry_digest.lemma_bytes_len();
    c.request_digest.lemma_bytes_len();
    c.nonce.lemma_bytes_len();
    assert forall|i: int| 0 <= i < v.len() implies (#[trigger] v[i]).len() <= s[i].1 by {
        if i < 8 {
        } else if i < 16 {
        } else {
        }
    }
    assert forall|i: int| 0 <= i < s.len() implies (#[trigger] s[i]).1 <= u32::MAX by {
        if i < 12 {
        } else {
        }
    }
}

/// Decodes a capability claims wire.
#[verifier::spinoff_prover]
#[verifier::rlimit(40)]
pub fn decode_capability_claims(wire: &[u8]) -> (r: Result<CapabilityClaims, IngressReject>)
    ensures
        r matches Ok(c) ==> capability_claims_valid(c) && wire@ == capability_claims_wire(c),
        r is Err ==> r == Err::<CapabilityClaims, IngressReject>(IngressReject::CapabilityAuthorizationMalformed),
        r is Err ==> forall|c: CapabilityClaims|
            capability_claims_valid(c) ==> wire@ != #[trigger] capability_claims_wire(c),
{
    let error = IngressReject::CapabilityAuthorizationMalformed;
    let shapes = vec![
        (1u16, 2usize),
        (2u16, 8usize),
        (3u16, 8usize),
        (4u16, 8usize),
        (5u16, 8usize),
        (6u16, 8usize),
        (7u16, 8usize),
        (8u16, 8usize),
        (9u16, 1usize),
        (10u16, 32usize),
        (11u16, 8usize),
        (12u16, 8usize),
        (13u16, MAX_CANONICAL_ORIGIN_BYTES),
        (14u16, 8usize),
        (15u16, 8usize),
        (16u16, 8usize),
        (17u16, 8usize),
        (18u16, 8usize),
        (19u16, 32usize),
        (20u16, 16usize),
        (21u16, 1usize),
        (22u16, 8usize),
        (23u16, 1usize),
    ];
    proof {
        assert(shapes@ =~= capability_claims_shapes());
        let s = capability_claims_shapes();
        assert forall|i: int| 0 <= i < s.len() implies (#[trigger] s[i]).1 <= u32::MAX by {
            if i < 12 {
            } else {
            }
        }
    }
    let vals = match decode_fields(wire, "BIANMA/CAPABILITY-CLAIMS/1\0".as_bytes(), shapes.as_slice(), error) {
        Ok(v) => v,
        Err(e) => {
            proof {
                assert forall|c: CapabilityClaims|
                    capability_claims_valid(c) implies wire@ != #[trigger] capability_claims_wire(c) by {
                    lemma_capability_claims_fit(c);
                }
            }
            return Err(e);
        },
    };
    let ghost v = slice_values(vals@);
    if vals[0].len() != 2 || vals[1].len() != 8 || vals[2].len() != 8 || vals[3].len() != 8 || vals[4].len() != 8
        || vals[5].len() != 8 || vals[6].len() != 8 || vals[7].len() != 8 || vals[8].len() != 1 || vals[9].len()
        != 32 || vals[10].len() != 8 || vals[11].len() != 8 || vals[13].len() != 8 || vals[14].len() != 8
        || vals[15].len() != 8 || vals[16].len() != 8 || vals[17].len() != 8 || vals[18].len() != 32
        || vals[19].len() != 16 || vals[20].len() != 1 || vals[20][0] != 0 || vals[21].len() != 8 || vals[22].len()
        != 1 || vals[22][0] > 2 {
        proof {
            assert forall|c: CapabilityClaims|
                capability_claims_valid(c) implies wire@ != #[trigger] capability_claims_wire(c) by {
                if wire@ == capability_claims_wire(c) {
                    lemma_capability_claims_fit(c);
                    assert(capability_claims_values(c) == v);
                }
            }
        }
        return Err(error);
    }
    let dispatch_domain = match RequestDispatchDomain::from_code(vals[8][0]) {
        Ok(d) => d,
        Err(_) => {
            proof {
                assert forall|c: CapabilityClaims|
                    capability_claims_valid(c) implies wire@ != #[trigger] capability_claims_wire(c) by {
                    if wire@ == capability_claims_wire(c) {
                        lemma_capability_claims_fit(c);
                        assert(capability_claims_values(c) == v);
                        assert(v[8] == seq![domain_code(c.dispatch_domain)]);
                    }
                }
            }
            return Err(error);
        },
    };
    let origin = match CanonicalOrigin::try_new(vals[12]) {
        Ok(o) => o,
        Err(_) => {
            proof {
                assert forall|c: CapabilityClaims|
                    capability_claims_valid(c) implies wire@ != #[trigger] capability_claims_wire(c) by {
                    if wire@ == capability_claims_wire(c) {
                        lemma_capability_claims_fit(c);
                        assert(capability_claims_values(c) == v);
                        assert(v[12] == c.origin.bytes());
                    }
                }
            }
            return Err(error);
        },
    };
    let nonce = match OneShotNonce::from_bytes(bytes16(vals[19])) {
        Ok(n) => n,
        Err(_) => {
            proof {
                assert forall|c: CapabilityClaims|
                    capability_claims_valid(c) implies wire@ != #[trigger] capability_claims_wire(c) by {
                    if wire@ == capability_claims_wire(c) {
                        lemma_capability_claims_fit(c);
                        assert(capability_claims_values(c) == v);
                        assert(v[19] == c.nonce.bytes());
                    }
                }
            }
            return Err(error);
        },
    };
    let c = CapabilityClaims {
        schema_version: u16_from_be(vals[0]),
        audience: AudienceId::new(u64_from_be(vals[1])),
        issuer_epoch: IssuerEpoch::new(u64_from_be(vals[2])),
        issued_at_millis: u64_from_be(vals[3]),
        deadline_millis: u64_from_be(vals[4]),
        listener: ListenerId::new(u64_from_be(vals[5])),
        token_scope: IngressTokenScopeId::new(u64_from_be(vals[6])),
        operation: OperationId::new(u64_from_be(vals[7])),
        dispatch_domain,
        registry_digest: RegistryDigest::from_bytes(bytes32(vals[9])),
        site: SiteId::new(u64_from_be(vals[21])),
        deployment: ModelDeploymentId::new(u64_from_be(vals[10])),
        endpoint: EndpointId::new(u64_from_be(vals[11])),
        origin,
        account_selector: AccountSelectorId::new(u64_from_be(vals[13])),
        account: AccountId::new(u64_from_be(vals[14])),
        credential: CredentialId::new(u64_from_be(vals[15])),
        adapter_contract_revision: AdapterContractRevision::new(u64_from_be(vals[16])),
        trust_tier: vals[22][0],
        management_scope: CapabilityManagementScopeId::new(u64_from_be(vals[17])),
        request_digest: RequestDigest::from_bytes(bytes32(vals[18])),
        nonce,
        fallback_forbidden: true,
    };
    proof {
        assert(v[8] =~= seq![domain_code(dispatch_domain)]);
        assert(v[20] =~= seq![0u8]);
        assert(v[22] =~= seq![vals[22][0]]);
        assert(capability_claims_values(c) =~= v);
        assert(nonce_nonzero(nonce)) by {
            nonce.lemma_bytes_len();
            if !nonce_nonzero(nonce) {
                assert(forall|i: int| 0 <= i < 16 ==> nonce.bytes()[i] == 0);
            }
        }
    }
    Ok(c)
}

/// The prefix of an attestation wire.
pub open spec fn attestation_prefix() -> Seq<u8> {
    "BIANMA/ATTESTATION/1\0".spec_bytes()
}

/// The fields of an attestation wire: the claims wire and a 32-byte MAC tag.
pub open spec fn attestation_shapes() -> Seq<(u16, usize)> {
    seq![(1u16, MAX_ATTESTATION_BYTES), (2u16, 32usize)]
}

/// The canonical wire of an attestation that carries `claims_wire` and `tag`.
pub open spec fn attestation_wire(claims_wire: Seq<u8>, tag: Seq<u8>) -> Seq<u8> {
    canonical_wire(attestation_prefix(), attestation_shapes(), seq![claims_wire, tag])
}

/// Decodes an attestation wire and its claims.
#[verifier::spinoff_prover]
#[verifier::rlimit(40)]
pub fn decode_attestation(wire: &[u8]) -> (r: Result<SignedAttestation, IngressReject>)
    ensures
        r matches Ok(s) ==> attestation_claims_valid(s.claims) && s.claims_wire@ == attestation_claims_wire(s.claims) && s.tag@.len() == 32
            && wire@ == attestation_wire(s.claims_wire@, s.tag@),
        r is Err ==> r == Err::<SignedAttestation, IngressReject>(IngressReject::ProofMalformed),
        r is Err ==> forall|c: AttestationClaims, tag: Seq<u8>|
            attestation_claims_valid(c) && tag.len() == 32 && attestation_claims_wire(c).len() <= MAX_ATTESTATION_BYTES ==> wire@ != #[trigger] attestation_wire(
                attestation_claims_wire(c),
                tag,
            ),
{
    let error = IngressReject::ProofMalformed;
    let shapes = vec![(1u16, MAX_ATTESTATION_BYTES), (2u16, 32usize)];
    proof {
        assert(shapes@ =~= attestation_shapes());
    }
    let vals = match decode_fields(wire, "BIANMA/ATTESTATION/1\0".as_bytes(), shapes.as_slice(), error) {
        Ok(v) => v,
        Err(e) => {
            proof {
                assert forall|c: AttestationClaims, tag: Seq<u8>|
                    attestation_claims_valid(c) && tag.len() == 32 && attestation_claims_wire(c).len() <= MAX_ATTESTATION_BYTES implies wire@
                    != #[trigger] attestation_wire(attestation_claims_wire(c), tag) by {
                    assert(values_fit(attestation_shapes(), seq![attestation_claims_wire(c), tag]));
                }
            }
            return Err(e);
        },
    };
    let ghost v = slice_values(vals@);
    if vals[1].len() != 32 {
        proof {
            assert forall|c: AttestationClaims, tag: Seq<u8>|
                attestation_claims_valid(c) && tag.len() == 32 && attestation_claims_wire(c).len() <= MAX_ATTESTATION_BYTES implies wire@
                != #[trigger] attestation_wire(attestation_claims_wire(c), tag) by {
                if wire@ == attestation_wire(attestation_claims_wire(c), tag) {
                    assert(values_fit(attestation_shapes(), seq![attestation_claims_wire(c), tag]));
                    assert(seq![attestation_claims_wire(c), tag] == v);
                }
            }
        }
        return Err(error);
    }
    let claims_wire = vstd::slice::slice_to_vec(vals[0]);
    let tag = bytes32(vals[1]);
    let claims = match decode_attestation_claims(claims_wire.as_slice()) {
        Ok(c) => c,
        Err(e) => {
            proof {
                assert forall|c: AttestationClaims, t: Seq<u8>|
                    attestation_claims_valid(c) && t.len() == 32 && attestation_claims_wire(c).len() <= MAX_ATTESTATION_BYTES implies wire@
                    != #[trigger] attestation_wire(attestation_claims_wire(c), t) by {
                    if wire@ == attestation_wire(attestation_claims_wire(c), t) {
                        assert(values_fit(attestation_shapes(), seq![attestation_claims_wire(c), t]));
                        assert(seq![attestation_claims_wire(c), t] == v);
                    }
                }
            }
            return Err(e);
        },
    };
    proof {
        assert(seq![claims_wire@, tag@] =~= v);
    }
    Ok(SignedAttestation { claims, claims_wire, tag })
}

/// The prefix of a capability authorization wire.
pub open spec fn capability_authorization_prefix() -> Seq<u8> {
    "BIANMA/CAPABILITY-AUTHORIZATION/1\0".spec_bytes()
}

/// The fields of a capability authorization wire: the claims wire and a 32-byte MAC tag.
pub open spec fn capability_authorization_shapes() -> Seq<(u16, usize)> {
    seq![(1u16, MAX_CAPABILITY_AUTHORIZATION_BYTES), (2u16, 32usize)]
}

/// The canonical wire of a capability authorization that carries `claims_wire` and `tag`.
pub open spec fn capability_authorization_wire(claims_wire: Seq<u8>, tag: Seq<u8>) -> Seq<u8> {
    canonical_wire(capability_authorization_prefix(), capability_authorization_shapes(), seq![claims_wire, tag])
}

/// Decodes a capability authorization wire and its claims.
#[verifier::spinoff_prover]
#[verifier::rlimit(40)]
pub fn decode_capability_authorization(wire: &[u8]) -> (r: Result<SignedCapabilityAuthorization, IngressReject>)
    ensures
        r matches Ok(s) ==> capability_claims_valid(s.claims) && s.claims_wire@ == capability_claims_wire(s.claims) && s.tag@.len() == 32
            && wire@ == capability_authorization_wire(s.claims_wire@, s.tag@),
        r is Err ==> r == Err::<SignedCapabilityAuthorization, IngressReject>(IngressReject::CapabilityAuthorizationMalformed),
        r is Err ==> forall|c: CapabilityClaims, tag: Seq<u8>|
            capability_claims_valid(c) && tag.len() == 32 && capability_claims_wire(c).len() <= MAX_CAPABILITY_AUTHORIZATION_BYTES ==> wire@ != #[trigger] capability_authorization_wire(
                capability_claims_wire(c),
                tag,
            ),
{
    let error = IngressReject::CapabilityAuthorizationMalformed;
    let shapes = vec![(1u16, MAX_CAPABILITY_AUTHORIZATION_BYTES), (2u16, 32usize)];
    proof {
        assert(shapes@ =~= capability_authorization_shapes());
    }
    let vals = match decode_fields(wire, "BIANMA/CAPABILITY-AUTHORIZATION/1\0".as_bytes(), shapes.as_slice(), error) {
        Ok(v) => v,
        Err(e) => {
            proof {
                assert forall|c: CapabilityClaims, tag: Seq<u8>|
                    capability_claims_valid(c) && tag.len() == 32 && capability_claims_wire(c).len() <= MAX_CAPABILITY_AUTHORIZATION_BYTES implies wire@
                    != #[trigger] capability_authorization_wire(capability_claims_wire(c), tag) by {
                    assert(values_fit(capability_authorization_shapes(), seq![capability_claims_wire(c), tag]));
                }
            }
            return Err(e);
        },
    };
    let ghost v = slice_values(vals@);
    if vals[1].len() != 32 {
        proof {
            assert forall|c: CapabilityClaims, tag: Seq<u8>|
                capability_claims_valid(c) && tag.len() == 32 && capability_claims_wire(c).len() <= MAX_CAPABILITY_AUTHORIZATION_BYTES implies wire@
                != #[trigger] capability_authorization_wire(capability_claims_wire(c), tag) by {
                if wire@ == capability_authorization_wire(capability_claims_wire(c), tag) {
                    assert(values_fit(capability_authorization_shapes(), seq![capability_claims_wire(c), tag]));
                    assert(seq![capability_claims_wire(c), tag] == v);
                }
            }
        }
        return Err(error);
    }
    let claims_wire = vstd::slice::slice_to_vec(vals[0]);
    let tag = bytes32(vals[1]);
    let claims = match decode_capability_claims(claims_wire.as_slice()) {
        Ok(c) => c,
        Err(e) => {
            proof {
                assert forall|c: CapabilityClaims, t: Seq<u8>|
                    capability_claims_valid(c) && t.len() == 32 && capability_claims_wire(c).len() <= MAX_CAPABILITY_AUTHORIZATION_BYTES implies wire@
                    != #[trigger] capability_authorization_wire(capability_claims_wire(c), t) by {
                    if wire@ == capability_authorization_wire(capability_claims_wire(c), t) {
                        assert(values_fit(capability_authorization_shapes(), seq![capability_claims_wire(c), t]));
                        assert(seq![capability_claims_wire(c), t] == v);
                    }
                }
            }
            return Err(e);
        },
    };
    proof {
        assert(seq![claims_wire@, tag@] =~= v);
    }
    Ok(SignedCapabilityAuthorization { claims, claims_wire, tag })
}

/// What an allowed target holds, by value: site, deployment, origin bytes and trust tier.
pub open spec fn target_key(t: AllowedEgressTarget) -> (u64, u64, Seq<u8>, u8) {
    (t.site.value(), t.deployment.value(), t.origin.bytes(), t.trust_tier)
}

/// The prefix of an egress target wire.
pub open spec fn target_prefix() -> Seq<u8> {
    "BIANMA/EGRESS-TARGET/1\0".spec_bytes()
}

/// The fields of an egress target wire.
pub open spec fn target_shapes() -> Seq<(u16, usize)> {
    seq![(1u16, 8usize), (2u16, 8usize), (3u16, MAX_CANONICAL_ORIGIN_BYTES), (4u16, 1usize)]
}

/// The field values of an allowed target.
pub open spec fn target_values(t: AllowedEgressTarget) -> Seq<Seq<u8>> {
    seq![be64_bytes(t.site.value()), be64_bytes(t.deployment.value()), t.origin.bytes(), seq![t.trust_tier]]
}

/// Whether a target can be allowed: a canonical origin and a trust tier of at most 2.
pub open spec fn target_valid(t: AllowedEgressTarget) -> bool {
    canonical_origin_ok(t.origin.bytes()) && t.trust_tier <= 2
}

/// The canonical wire of an allowed target.
pub open spec fn target_wire(t: AllowedEgressTarget) -> Seq<u8> {
    canonical_wire(target_prefix(), target_shapes(), target_values(t))
}

proof fn lemma_target_fit(t: AllowedEgressTarget)
    requires
        target_valid(t),
    ensures
        shapes_bounded(target_shapes()),
        values_fit(target_shapes(), target_values(t)),
        target_wire(t).len() <= MAX_CANONICAL_ORIGIN_BYTES + 128,
{
    let v = target_values(t);
    let s = target_shapes();
    assert forall|i: int| 0 <= i < v.len() implies (#[trigger] v[i]).len() <= s[i].1 by {
        if i < 2 {
        } else {
        }
    }
    reveal_strlit("BIANMA/EGRESS-TARGET/1\0");
    assert(vstd::string::is_ascii("BIANMA/EGRESS-TARGET/1\0"));
    vstd::string::is_ascii_spec_bytes("BIANMA/EGRESS-TARGET/1\0");
    reveal_with_fuel(tlvs, 5);
    assert(target_prefix().len() == 23);
    assert(v.drop_first().drop_first().drop_first().drop_first().len() == 0);
}

proof fn lemma_target_wire_determines_key(a: AllowedEgressTarget, b: AllowedEgressTarget)
    requires
        target_valid(a),
        target_valid(b),
        target_wire(a) == target_wire(b),
    ensures
        target_key(a) == target_key(b),
{
    lemma_target_fit(a);
    lemma_target_fit(b);
    crate::contract::canonical::lemma_canonical_wire_injective(target_prefix(), target_shapes(), target_values(a), target_values(b));
    assert(target_values(a)[0] == target_values(b)[0]);
    assert(target_values(a)[1] == target_values(b)[1]);
    assert(target_values(a)[3] == target_values(b)[3]);
    assert(target_values(a)[3][0] == target_values(b)[3][0]);
    lemma_be64_injective(a.site.value(), b.site.value());
    lemma_be64_injective(a.deployment.value(), b.deployment.value());
}

/// Decodes an egress target wire.
pub fn decode_target(wire: &[u8]) -> (r: Result<AllowedEgressTarget, IngressReject>)
    ensures
        r matches Ok(t) ==> target_valid(t) && wire@ == target_wire(t),
        r is Err ==> r == Err::<AllowedEgressTarget, IngressReject>(IngressReject::AuthorizationBundleMalformed),
        r is Err ==> forall|t: AllowedEgressTarget| target_valid(t) ==> wire@ != #[trigger] target_wire(t),
{
    let error = IngressReject::AuthorizationBundleMalformed;
    let shapes = vec![(1u16, 8usize), (2u16, 8usize), (3u16, MAX_CANONICAL_ORIGIN_BYTES), (4u16, 1usize)];
    proof {
        assert(shapes@ =~= target_shapes());
        let s = target_shapes();
        assert forall|i: int| 0 <= i < s.len() implies (#[trigger] s[i]).1 <= u32::MAX by {
            if i < 2 {
            } else {
            }
        }
    }
    let vals = match decode_fields(wire, "BIANMA/EGRESS-TARGET/1\0".as_bytes(), shapes.as_slice(), error) {
        Ok(v) => v,
        Err(e) => {
            proof {
                assert forall|t: AllowedEgressTarget| target_valid(t) implies wire@ != #[trigger] target_wire(t) by {
                    lemma_target_fit(t);
                }
            }
            return Err(e);
        },
    };
    let ghost v = slice_values(vals@);
    if vals[0].len() != 8 || vals[1].len() != 8 || vals[3].len() != 1 || vals[3][0] > 2 {
        proof {
            assert forall|t: AllowedEgressTarget| target_valid(t) implies wire@ != #[trigger] target_wire(t) by {
                if wire@ == target_wire(t) {
                    lemma_target_fit(t);
                    assert(target_values(t) == v);
                }
            }
        }
        return Err(error);
    }
    let origin = match CanonicalOrigin::try_new(vals[2]) {
        Ok(o) => o,
        Err(_) => {
            proof {
                assert forall|t: AllowedEgressTarget| target_valid(t) implies wire@ != #[trigger] target_wire(t) by {
                    if wire@ == target_wire(t) {
                        lemma_target_fit(t);
                        assert(target_values(t) == v);
                        assert(v[2] == t.origin.bytes());
                    }
                }
            }
            return Err(error);
        },
    };
    let t = AllowedEgressTarget {
        site: SiteId::new(u64_from_be(vals[0])),
        deployment: ModelDeploymentId::new(u64_from_be(vals[1])),
        origin,
        trust_tier: vals[3][0],
    };
    proof {
        assert(v[3] =~= seq![vals[3][0]]);
        assert(target_values(t) =~= v);
    }
    Ok(t)
}

/// One entry of a target list: the target wire preceded by its 32-bit length.
pub open spec fn target_entry(t: AllowedEgressTarget) -> Seq<u8> {
    be32(target_wire(t).len() as u32) + target_wire(t)
}

/// The entries of a target list, in order.
pub open spec fn target_entries(ts: Seq<AllowedEgressTarget>) -> Seq<u8>
    decreases ts.len(),
{
    if ts.len() == 0 {
        Seq::empty()
    } else {
        target_entries(ts.drop_last()) + target_entry(ts.last())
    }
}

/// The canonical wire of a target list: the 16-bit count, then the entries.
pub open spec fn target_list_wire(ts: Seq<AllowedEgressTarget>) -> Seq<u8> {
    be16(ts.len() as u16) + target_entries(ts)
}

/// The canonical order of targets: by site, deployment, origin bytes, then trust tier.
pub open spec fn target_lt(a: AllowedEgressTarget, b: AllowedEgressTarget) -> bool {
    let (s1, d1, o1, t1) = target_key(a);
    let (s2, d2, o2, t2) = target_key(b);
    ||| s1 < s2
    ||| s1 == s2 && d1 < d2
    ||| s1 == s2 && d1 == d2 && lex_lt(o1, o2)
    ||| s1 == s2 && d1 == d2 && o1 == o2 && t1 < t2
}

/// Whether two targets name one logical target: the same site, deployment and origin.
pub open spec fn same_logical_target(a: AllowedEgressTarget, b: AllowedEgressTarget) -> bool {
    let (s1, d1, o1, _) = target_key(a);
    let (s2, d2, o2, _) = target_key(b);
    s1 == s2 && d1 == d2 && o1 == o2
}

/// Whether a target list can be carried: one to the maximum number of valid targets, in
/// strictly increasing canonical order, no two neighbours naming one logical target.
pub open spec fn target_list_valid(ts: Seq<AllowedEgressTarget>) -> bool {
    &&& 1 <= ts.len() <= MAX_ALLOWED_EGRESS_TARGETS
    &&& forall|i: int| 0 <= i < ts.len() ==> target_valid(#[trigger] ts[i])
    &&& forall|i: int, j: int|
        0 <= i && j == i + 1 && j < ts.len() ==> target_lt(#[trigger] ts[i], #[trigger] ts[j])
            && !same_logical_target(ts[i], ts[j])
}

proof fn lemma_entries_extend(ts: Seq<AllowedEgressTarget>, k: int, j: int)
    requires
        0 <= k <= j <= ts.len(),
    ensures
        target_entries(ts.take(k)).len() <= target_entries(ts.take(j)).len(),
        target_entries(ts.take(j)).subrange(0, target_entries(ts.take(k)).len() as int) == target_entries(ts.take(k)),
    decreases j - k,
{
    if k == j {
        assert(target_entries(ts.take(j)).subrange(0, target_entries(ts.take(j)).len() as int) =~= target_entries(
            ts.take(j),
        ));
    } else {
        lemma_entries_extend(ts, k, j - 1);
        assert(ts.take(j).drop_last() =~= ts.take(j - 1));
        let a = target_entries(ts.take(j - 1));
        let b = target_entries(ts.take(k));
        assert(target_entries(ts.take(j)) == a + target_entry(ts.take(j).last()));
        assert(target_entries(ts.take(j)).subrange(0, b.len() as int) =~= a.subrange(0, b.len() as int));
    }
}

proof fn lemma_entries_step(ts: Seq<AllowedEgressTarget>, k: int)
    requires
        0 <= k < ts.len(),
    ensures
        target_entries(ts.take(k + 1)) == target_entries(ts.take(k)) + target_entry(ts[k]),
{
    assert(ts.take(k + 1).drop_last() =~= ts.take(k));
}

proof fn lemma_be16_injective(x: u16, y: u16)
    requires
        be16(x) == be16(y),
    ensures
        x == y,
{
    assert(be16(x)[0] == be16(y)[0] && be16(x)[1] == be16(y)[1]);
    assert(x == y) by (bit_vector)
        requires
            (x >> 8u16) as u8 == (y >> 8u16) as u8,
            x as u8 == y as u8,
    ;
}

fn target_less(a: &AllowedEgressTarget, b: &AllowedEgressTarget) -> (r: bool)
    ensures
        r == target_lt(*a, *b),
{
    let s1 = a.site.get();
    let s2 = b.site.get();
    let d1 = a.deployment.get();
    let d2 = b.deployment.get();
    if s1 != s2 {
        return s1 < s2;
    }
    if d1 != d2 {
        return d1 < d2;
    }
    let o1 = a.origin.as_bytes();
    let o2 = b.origin.as_bytes();
    if !bytes_eq(o1, o2) {
        return lex_less(o1, o2);
    }
    proof {
        lemma_lex_irreflexive(o1@);
    }
    a.trust_tier < b.trust_tier
}

fn same_logical(a: &AllowedEgressTarget, b: &AllowedEgressTarget) -> (r: bool)
    ensures
        r == same_logical_target(*a, *b),
{
    a.site.get() == b.site.get() && a.deployment.get() == b.deployment.get() && bytes_eq(
        a.origin.as_bytes(),
        b.origin.as_bytes(),
    )
}

proof fn lemma_entries_same_keys(a: Seq<AllowedEgressTarget>, b: Seq<AllowedEgressTarget>)
    requires
        a.len() == b.len(),
        forall|k: int| 0 <= k < a.len() ==> target_key(#[trigger] a[k]) == target_key(b[k]),
    ensures
        target_entries(a) == target_entries(b),
    decreases a.len(),
{
    if a.len() > 0 {
        lemma_entries_same_keys(a.drop_last(), b.drop_last());
        assert(target_key(a.last()) == target_key(b.last()));
        assert(target_values(a.last()) =~= target_values(b.last()));
    }
}

/// Where a valid list's wire is `wire`, what the decoder has read so far matches the list.
spec fn list_read_so_far(
    wire: Seq<u8>,
    count: usize,
    targets: Seq<AllowedEgressTarget>,
) -> bool {
    forall|ts: Seq<AllowedEgressTarget>|
        target_list_valid(ts) && wire == #[trigger] target_list_wire(ts) ==> ts.len() == count && targets.len()
            <= ts.len() && (forall|k: int| 0 <= k < targets.len() ==> target_key(#[trigger] targets[k]) == target_key(ts[k]))
}

proof fn lemma_list_entry_at(wire: Seq<u8>, ts: Seq<AllowedEgressTarget>, step: int, offset: int)
    requires
        target_list_valid(ts),
        wire == target_list_wire(ts),
        0 <= step < ts.len(),
        offset == 2 + target_entries(ts.take(step)).len(),
    ensures
        offset + 4 + target_wire(ts[step]).len() <= wire.len(),
        wire.subrange(offset, offset + 4) == be32(target_wire(ts[step]).len() as u32),
        wire.subrange(offset + 4, offset + 4 + target_wire(ts[step]).len()) == target_wire(ts[step]),
        target_entries(ts.take(step + 1)).len() == target_entries(ts.take(step)).len() + 4 + target_wire(
            ts[step],
        ).len(),
{
    lemma_entries_step(ts, step);
    lemma_entries_extend(ts, step + 1, ts.len() as int);
    assert(ts.take(ts.len() as int) =~= ts);
    let e = target_entries(ts);
    let a = target_entries(ts.take(step));
    let tw = target_wire(ts[step]);
    let en = target_entry(ts[step]);
    let al = a.len() as int;
    let el = en.len() as int;
    assert(e.subrange(0, al + el) == a + en);
    assert(wire =~= be16(ts.len() as u16) + e);
    assert(wire.subrange(offset, offset + 4) =~= (a + en).subrange(al, al + 4));
    assert((a + en).subrange(al, al + 4) =~= en.subrange(0, 4));
    assert(en.subrange(0, 4) =~= be32(tw.len() as u32));
    assert(wire.subrange(offset + 4, offset + 4 + tw.len()) =~= (a + en).subrange(al + 4, al + el));
    assert((a + en).subrange(al + 4, al + el) =~= tw);
}

/// Decodes a target list wire.
#[verifier::spinoff_prover]
#[verifier::rlimit(60)]
pub fn decode_target_list(wire: &[u8]) -> (r: Result<Vec<AllowedEgressTarget>, IngressReject>)
    ensures
        r matches Ok(ts) ==> target_list_valid(ts@) && wire@ == target_list_wire(ts@),
        r is Err ==> r == Err::<Vec<AllowedEgressTarget>, IngressReject>(IngressReject::AuthorizationBundleMalformed),
        r is Err ==> forall|ts: Seq<AllowedEgressTarget>|
            target_list_valid(ts) ==> wire@ != #[trigger] target_list_wire(ts),
{
    let error = IngressReject::AuthorizationBundleMalformed;
    if wire.len() < 2 {
        proof {
            assert forall|ts: Seq<AllowedEgressTarget>| target_list_valid(ts) implies wire@
                != #[trigger] target_list_wire(ts) by {
                assert(target_list_wire(ts).len() >= 2);
            }
        }
        return Err(error);
    }
    let count16 = u16_from_be(vstd::slice::slice_subrange(wire, 0, 2));
    let count = count16 as usize;
    proof {
        assert forall|ts: Seq<AllowedEgressTarget>| target_list_valid(ts) && wire@ == #[trigger] target_list_wire(ts) implies ts.len() == count by {
            assert(wire@.subrange(0, 2) =~= be16(ts.len() as u16));
            lemma_be16_injective(count16, ts.len() as u16);
        }
    }
    if count == 0 || count > MAX_ALLOWED_EGRESS_TARGETS {
        return Err(error);
    }
    let mut offset: usize = 2;
    let mut targets: Vec<AllowedEgressTarget> = Vec::new();
    let mut step: usize = 0;
    proof {
        assert(wire@.subrange(0, 2) =~= be16(count16) + target_entries(targets@));
    }
    while step < count
        invariant
            error == IngressReject::AuthorizationBundleMalformed,
            2 <= offset <= wire@.len(),
            step <= count,
            count == count16 as usize,
            1 <= count <= MAX_ALLOWED_EGRESS_TARGETS,
            targets@.len() == step,
            wire@.subrange(0, offset as int) == be16(count16) + target_entries(targets@),
            forall|k: int| 0 <= k < step ==> target_valid(#[trigger] targets@[k]),
            list_read_so_far(wire@, count, targets@),
        decreases count - step,
    {
        let ghost before = targets@;
        proof {
            assert forall|ts: Seq<AllowedEgressTarget>| target_list_valid(ts) && wire@ == #[trigger] target_list_wire(ts)
                implies offset == 2 + target_entries(ts.take(step as int)).len() by {
                lemma_entries_same_keys(before, ts.take(step as int));
                assert(wire@.subrange(0, offset as int).len() == offset);
            }
        }
        if wire.len() - offset < 4 {
            proof {
                assert forall|ts: Seq<AllowedEgressTarget>| target_list_valid(ts) implies wire@ != #[trigger] target_list_wire(ts) by {
                    if wire@ == target_list_wire(ts) {
                        lemma_list_entry_at(wire@, ts, step as int, offset as int);
                    }
                }
            }
            return Err(error);
        }
        let length_bytes = vstd::slice::slice_subrange(wire, offset, offset + 4);
        let length32 = u32_from_be(length_bytes);
        let length = length32 as usize;
        proof {
            assert forall|ts: Seq<AllowedEgressTarget>| target_list_valid(ts) && wire@ == #[trigger] target_list_wire(ts)
                implies length == target_wire(ts[step as int]).len() by {
                lemma_list_entry_at(wire@, ts, step as int, offset as int);
                assert(ts[step as int] == ts[step as int]);
                assert(target_valid(ts[step as int]));
                lemma_target_fit(ts[step as int]);
                lemma_be32_roundtrip(target_wire(ts[step as int]).len() as u32);
            }
        }
        if length > MAX_CANONICAL_ORIGIN_BYTES + 128 || wire.len() - (offset + 4) < length {
            proof {
                assert forall|ts: Seq<AllowedEgressTarget>| target_list_valid(ts) implies wire@ != #[trigger] target_list_wire(ts) by {
                    if wire@ == target_list_wire(ts) {
                        lemma_list_entry_at(wire@, ts, step as int, offset as int);
                        assert(target_valid(ts[step as int]));
                        lemma_target_fit(ts[step as int]);
                    }
                }
            }
            return Err(error);
        }
        let target_end = offset + 4 + length;
        let target_bytes = vstd::slice::slice_subrange(wire, offset + 4, target_end);
        let target = match decode_target(target_bytes) {
            Ok(t) => t,
            Err(e) => {
                proof {
                    assert forall|ts: Seq<AllowedEgressTarget>| target_list_valid(ts) implies wire@ != #[trigger] target_list_wire(ts) by {
                        if wire@ == target_list_wire(ts) {
                            lemma_list_entry_at(wire@, ts, step as int, offset as int);
                            assert(target_valid(ts[step as int]));
                        }
                    }
                }
                return Err(e);
            },
        };
        proof {
            assert forall|ts: Seq<AllowedEgressTarget>| target_list_valid(ts) && wire@ == #[trigger] target_list_wire(ts)
                implies target_key(target) == target_key(ts[step as int]) by {
                lemma_list_entry_at(wire@, ts, step as int, offset as int);
                assert(target_valid(ts[step as int]));
                lemma_target_wire_determines_key(target, ts[step as int]);
            }
        }
        targets.push(target);
        proof {
            assert(targets@.drop_last() =~= before);
            assert(length_bytes@ == be32(length32));
            assert(target_bytes@ == target_wire(target));
            assert(wire@.subrange(0, target_end as int) =~= wire@.subrange(0, offset as int) + length_bytes@ + target_bytes@);
            assert(wire@.subrange(0, target_end as int) =~= be16(count16) + target_entries(targets@));
            assert forall|ts: Seq<AllowedEgressTarget>| target_list_valid(ts) && wire@ == #[trigger] target_list_wire(ts)
                implies ts.len() == count && targets@.len() <= ts.len() && (forall|k: int| 0 <= k < targets@.len() ==> target_key(#[trigger] targets@[k]) == target_key(ts[k])) by {
                assert forall|k: int| 0 <= k < targets@.len() implies target_key(#[trigger] targets@[k]) == target_key(ts[k]) by {
                    if k < step {
                        assert(targets@[k] == before[k]);
                    }
                }
            }
        }
        offset = target_end;
        step += 1;
    }
    proof {
        assert forall|ts: Seq<AllowedEgressTarget>| target_list_valid(ts) && wire@ == #[trigger] target_list_wire(ts)
            implies offset == wire@.len() by {
            assert(ts.take(ts.len() as int) =~= ts);
            lemma_entries_same_keys(targets@, ts);
            assert(wire@.subrange(0, offset as int).len() == offset);
        }
    }
    if offset != wire.len() {
        return Err(error);
    }
    let mut i: usize = 1;
    while i < count
        invariant
            error == IngressReject::AuthorizationBundleMalformed,
            1 <= i <= count,
            count == targets@.len(),
            list_read_so_far(wire@, count, targets@),
            forall|a: int, b: int|
                0 <= a && b == a + 1 && b < i ==> target_lt(#[trigger] targets@[a], #[trigger] targets@[b])
                    && !same_logical_target(targets@[a], targets@[b]),
        decreases count - i,
    {
        if !target_less(&targets[i - 1], &targets[i]) || same_logical(&targets[i - 1], &targets[i]) {
            proof {
                assert forall|ts: Seq<AllowedEgressTarget>| target_list_valid(ts) implies wire@ != #[trigger] target_list_wire(ts) by {
                    if wire@ == target_list_wire(ts) {
                        let a = i - 1;
                        let b = i as int;
                        assert(target_key(targets@[a]) == target_key(ts[a]));
                        assert(target_key(targets@[b]) == target_key(ts[b]));
                        assert(target_lt(ts[a], ts[b]) && !same_logical_target(ts[a], ts[b]));
                    }
                }
            }
            return Err(error);
        }
        i += 1;
    }
    proof {
        assert(wire@.subrange(0, offset as int) =~= wire@);
    }
    Ok(targets)
}

/// The prefix of an egress permit wire.
pub open spec fn permit_prefix() -> Seq<u8> {
    "BIANMA/EGRESS-PERMIT/1\0".spec_bytes()
}

/// The fields of an egress permit wire.
pub open spec fn permit_shapes() -> Seq<(u16, usize)> {
    seq![
        (1u16, 8usize),
        (2u16, 32usize),
        (3u16, 32usize),
        (4u16, 32usize),
        (5u16, 16usize),
        (6u16, 1usize),
        (7u16, 1usize),
        (8u16, 8usize),
        (9u16, MAX_AUTHORIZATION_BUNDLE_BYTES),
        (10u16, 1usize),
        (11u16, 8usize),
        (12u16, 8usize),
        (13u16, 8usize),
    ]
}

/// The field values of an egress permit.
pub open spec fn permit_values(p: ContextEgressPermit) -> Seq<Seq<u8>> {
    seq![
        be64_bytes(p.operation.value()),
        p.request_digest.bytes(),
        p.body_digest.bytes(),
        p.envelope_digest.bytes(),
        p.nonce.bytes(),
        seq![purpose_code(p.purpose)],
        seq![sensitivity_code(p.sensitivity)],
        be64_bytes(p.max_outbound_bytes),
        target_list_wire(p.allowed_targets@),
        seq![bool_byte(p.fallback_allowed)],
        be64_bytes(p.policy_revision.value()),
        be64_bytes(p.consent_revision.value()),
        be64_bytes(p.expires_at_millis),
    ]
}

/// Whether an egress permit can be carried: a nonzero nonce, a nonzero outbound budget and a
/// valid target list that fits the bundle limit.
pub open spec fn permit_valid(p: ContextEgressPermit) -> bool {
    &&& nonce_nonzero(p.nonce)
    &&& p.max_outbound_bytes != 0
    &&& target_list_valid(p.allowed_targets@)
    &&& target_list_wire(p.allowed_targets@).len() <= MAX_AUTHORIZATION_BUNDLE_BYTES
}

/// The canonical wire of an egress permit.
#[verifier::opaque]
pub open spec fn permit_wire(p: ContextEgressPermit) -> Seq<u8> {
    canonical_wire(permit_prefix(), permit_shapes(), permit_values(p))
}

proof fn lemma_permit_fit(p: ContextEgressPermit)
    requires
        permit_valid(p),
    ensures
        shapes_bounded(permit_shapes()),
        values_fit(permit_shapes(), permit_values(p)),
        p.request_digest.bytes().len() == 32,
        p.body_digest.bytes().len() == 32,
        p.envelope_digest.bytes().len() == 32,
        p.nonce.bytes().len() == 16,
{
    let v = permit_values(p);
    let s = permit_shapes();
    p.request_digest.lemma_bytes_len();
    p.body_digest.lemma_bytes_len();
    p.envelope_digest.lemma_bytes_len();
    p.nonce.lemma_bytes_len();
    assert forall|i: int| 0 <= i < v.len() implies (#[trigger] v[i]).len() <= s[i].1 by {
        if i < 5 {
        } else if i < 9 {
        } else {
        }
    }
    assert forall|i: int| 0 <= i < s.len() implies (#[trigger] s[i]).1 <= u32::MAX by {
        if i < 8 {
        } else {
        }
    }
}

/// Decodes an egress permit wire.
#[verifier::spinoff_prover]
#[verifier::rlimit(40)]
pub fn decode_egress_permit(wire: &[u8]) -> (r: Result<ContextEgressPermit, IngressReject>)
    ensures
        r matches Ok(p) ==> permit_valid(p) && wire@ == permit_wire(p),
        r is Err ==> r == Err::<ContextEgressPermit, IngressReject>(IngressReject::AuthorizationBundleMalformed),
        r is Err ==> forall|p: ContextEgressPermit| permit_valid(p) ==> wire@ != #[trigger] permit_wire(p),
{
    reveal(permit_wire);
    let error = IngressReject::AuthorizationBundleMalformed;
    let shapes = vec![
        (1u16, 8usize),
        (2u16, 32usize),
        (3u16, 32usize),
        (4u16, 32usize),
        (5u16, 16usize),
        (6u16, 1usize),
        (7u16, 1usize),
        (8u16, 8usize),
        (9u16, MAX_AUTHORIZATION_BUNDLE_BYTES),
        (10u16, 1usize),
        (11u16, 8usize),
        (12u16, 8usize),
        (13u16, 8usize),
    ];
    proof {
        assert(shapes@ =~= permit_shapes());
        let s = permit_shapes();
        assert forall|i: int| 0 <= i < s.len() implies (#[trigger] s[i]).1 <= u32::MAX by {
            if i < 8 {
            } else {
            }
        }
    }
    let vals = match decode_fields(wire, "BIANMA/EGRESS-PERMIT/1\0".as_bytes(), shapes.as_slice(), error) {
        Ok(v) => v,
        Err(e) => {
            proof {
                assert forall|p: ContextEgressPermit| permit_valid(p) implies wire@ != #[trigger] permit_wire(p) by {
                    lemma_permit_fit(p);
                }
            }
            return Err(e);
        },
    };
    let ghost v = slice_values(vals@);
    if vals[0].len() != 8 || vals[1].len() != 32 || vals[2].len() != 32 || vals[3].len() != 32 || vals[4].len() != 16
        || vals[5].len() != 1 || vals[6].len() != 1 || vals[7].len() != 8 || vals[9].len() != 1 || vals[9][0] > 1
        || vals[10].len() != 8 || vals[11].len() != 8 || vals[12].len() != 8 {
        proof {
            assert forall|p: ContextEgressPermit| permit_valid(p) implies wire@ != #[trigger] permit_wire(p) by {
                if wire@ == permit_wire(p) {
                    lemma_permit_fit(p);
                    assert(permit_values(p) == v);
                }
            }
        }
        return Err(error);
    }
    let nonce = match OneShotNonce::from_bytes(bytes16(vals[4])) {
        Ok(n) => n,
        Err(_) => {
            proof {
                assert forall|p: ContextEgressPermit| permit_valid(p) implies wire@ != #[trigger] permit_wire(p) by {
                    if wire@ == permit_wire(p) {
                        lemma_permit_fit(p);
                        assert(permit_values(p) == v);
                        assert(v[4] == p.nonce.bytes());
                    }
                }
            }
            return Err(error);
        },
    };
    let purpose = match EgressPurpose::from_code(vals[5][0]) {
        Ok(x) => x,
        Err(e) => {
            proof {
                assert forall|p: ContextEgressPermit| permit_valid(p) implies wire@ != #[trigger] permit_wire(p) by {
                    if wire@ == permit_wire(p) {
                        lemma_permit_fit(p);
                        assert(permit_values(p) == v);
                        assert(v[5] == seq![purpose_code(p.purpose)]);
                    }
                }
            }
            return Err(e);
        },
    };
    let sensitivity = match SensitivityClass::from_code(vals[6][0]) {
        Ok(x) => x,
        Err(e) => {
            proof {
                assert forall|p: ContextEgressPermit| permit_valid(p) implies wire@ != #[trigger] permit_wire(p) by {
                    if wire@ == permit_wire(p) {
                        lemma_permit_fit(p);
                        assert(permit_values(p) == v);
                        assert(v[6] == seq![sensitivity_code(p.sensitivity)]);
                    }
                }
            }
            return Err(e);
        },
    };
    let max_outbound_bytes = u64_from_be(vals[7]);
    let allowed_targets = match decode_target_list(vals[8]) {
        Ok(t) => t,
        Err(e) => {
            proof {
                assert forall|p: ContextEgressPermit| permit_valid(p) implies wire@ != #[trigger] permit_wire(p) by {
                    if wire@ == permit_wire(p) {
                        lemma_permit_fit(p);
                        assert(permit_values(p) == v);
                        assert(v[8] == target_list_wire(p.allowed_targets@));
                    }
                }
            }
            return Err(e);
        },
    };
    if max_outbound_bytes == 0 {
        proof {
            assert forall|p: ContextEgressPermit| permit_valid(p) implies wire@ != #[trigger] permit_wire(p) by {
                if wire@ == permit_wire(p) {
                    lemma_permit_fit(p);
                    assert(permit_values(p) == v);
                    assert(v[7] == be64_bytes(p.max_outbound_bytes));
                    lemma_be64_injective(max_outbound_bytes, p.max_outbound_bytes);
                }
            }
        }
        return Err(error);
    }
    let fallback_allowed = vals[9][0] == 1;
    let p = ContextEgressPermit {
        operation: OperationId::new(u64_from_be(vals[0])),
        request_digest: RequestDigest::from_bytes(bytes32(vals[1])),
        body_digest: BodyDigest::from_bytes(bytes32(vals[2])),
        envelope_digest: EnvelopeDigest::from_bytes(bytes32(vals[3])),
        nonce,
        purpose,
        sensitivity,
        max_outbound_bytes,
        allowed_targets,
        fallback_allowed,
        policy_revision: RoutePolicyRevision::new(u64_from_be(vals[10])),
        consent_revision: ConsentRevision::new(u64_from_be(vals[11])),
        expires_at_millis: u64_from_be(vals[12]),
    };
    proof {
        assert(v[5] =~= seq![purpose_code(purpose)]);
        assert(v[6] =~= seq![sensitivity_code(sensitivity)]);
        assert(v[9] =~= seq![bool_byte(fallback_allowed)]);
        assert(permit_values(p) =~= v);
        assert(values_fit(permit_shapes(), v));
        assert(v[8].len() <= MAX_AUTHORIZATION_BUNDLE_BYTES);
        assert(nonce_nonzero(nonce)) by {
            nonce.lemma_bytes_len();
            if !nonce_nonzero(nonce) {
                assert(forall|i: int| 0 <= i < 16 ==> nonce.bytes()[i] == 0);
            }
        }
    }
    Ok(p)
}

/// The prefix of an authorization bundle wire.
pub open spec fn bundle_prefix() -> Seq<u8> {
    "BIANMA/AUTHORIZATION-BUNDLE/1\0".spec_bytes()
}

/// The fields of an authorization bundle wire: the permit, requirements and activation key
/// wires.
pub open spec fn bundle_shapes() -> Seq<(u16, usize)> {
    seq![(1u16, MAX_AUTHORIZATION_BUNDLE_BYTES), (2u16, MAX_AUTHORIZATION_BUNDLE_BYTES), (3u16, MAX_AUTHORIZATION_BUNDLE_BYTES)]
}

/// The field values of an authorization bundle.
pub open spec fn bundle_values(b: AuthorizationBundle) -> Seq<Seq<u8>> {
    seq![permit_wire(b.permit), requirements_wire(b.requirements), activation_key_wire(b.activation_key)]
}

/// Whether an authorization bundle can be carried: a valid permit, and three parts that each
/// fit the bundle limit.
pub open spec fn bundle_valid(b: AuthorizationBundle) -> bool {
    &&& permit_valid(b.permit)
    &&& permit_wire(b.permit).len() <= MAX_AUTHORIZATION_BUNDLE_BYTES
    &&& requirements_wire(b.requirements).len() <= MAX_AUTHORIZATION_BUNDLE_BYTES
    &&& activation_key_wire(b.activation_key).len() <= MAX_AUTHORIZATION_BUNDLE_BYTES
}

/// The canonical wire of an authorization bundle.
pub open spec fn bundle_wire(b: AuthorizationBundle) -> Seq<u8> {
    canonical_wire(bundle_prefix(), bundle_shapes(), bundle_values(b))
}

/// Decodes an authorization bundle wire and its three parts.
pub fn decode_authorization_bundle(wire: &[u8]) -> (r: Result<AuthorizationBundle, IngressReject>)
    ensures
        r matches Ok(b) ==> bundle_valid(b) && wire@ == bundle_wire(b),
        r is Err ==> r == Err::<AuthorizationBundle, IngressReject>(IngressReject::AuthorizationBundleMalformed),
        r is Err ==> forall|b: AuthorizationBundle| bundle_valid(b) ==> wire@ != #[trigger] bundle_wire(b),
{
    let error = IngressReject::AuthorizationBundleMalformed;
    let shapes = vec![
        (1u16, MAX_AUTHORIZATION_BUNDLE_BYTES),
        (2u16, MAX_AUTHORIZATION_BUNDLE_BYTES),
        (3u16, MAX_AUTHORIZATION_BUNDLE_BYTES),
    ];
    proof {
        assert(shapes@ =~= bundle_shapes());
    }
    let vals = match decode_fields(wire, "BIANMA/AUTHORIZATION-BUNDLE/1\0".as_bytes(), shapes.as_slice(), error) {
        Ok(v) => v,
        Err(e) => {
            proof {
                assert forall|b: AuthorizationBundle| bundle_valid(b) implies wire@ != #[trigger] bundle_wire(b) by {
                    assert(values_fit(bundle_shapes(), bundle_values(b)));
                }
            }
            return Err(e);
        },
    };
    let ghost v = slice_values(vals@);
    let permit = match decode_egress_permit(vals[0]) {
        Ok(p) => p,
        Err(e) => {
            proof {
                assert forall|b: AuthorizationBundle| bundle_valid(b) implies wire@ != #[trigger] bundle_wire(b) by {
                    if wire@ == bundle_wire(b) {
                        assert(values_fit(bundle_shapes(), bundle_values(b)));
                        assert(bundle_values(b) == v);
                        assert(v[0] == permit_wire(b.permit));
                    }
                }
            }
            return Err(e);
        },
    };
    let requirements = match decode_capability_requirements(vals[1]) {
        Ok(q) => q,
        Err(e) => {
            proof {
                assert forall|b: AuthorizationBundle| bundle_valid(b) implies wire@ != #[trigger] bundle_wire(b) by {
                    if wire@ == bundle_wire(b) {
                        assert(values_fit(bundle_shapes(), bundle_values(b)));
                        assert(bundle_values(b) == v);
                        assert(v[1] == requirements_wire(b.requirements));
                    }
                }
            }
            return Err(e);
        },
    };
    let activation_key = match decode_activation_key(vals[2]) {
        Ok(k) => k,
        Err(e) => {
            proof {
                assert forall|b: AuthorizationBundle| bundle_valid(b) implies wire@ != #[trigger] bundle_wire(b) by {
                    if wire@ == bundle_wire(b) {
                        assert(values_fit(bundle_shapes(), bundle_values(b)));
                        assert(bundle_values(b) == v);
                        assert(v[2] == activation_key_wire(b.activation_key));
                    }
                }
            }
            return Err(e);
        },
    };
    let b = AuthorizationBundle { permit, requirements, activation_key };
    proof {
        assert(bundle_values(b) =~= v);
        assert(values_fit(bundle_shapes(), v));
        assert(v[0].len() <= MAX_AUTHORIZATION_BUNDLE_BYTES);
        assert(v[1].len() <= MAX_AUTHORIZATION_BUNDLE_BYTES);
        assert(v[2].len() <= MAX_AUTHORIZATION_BUNDLE_BYTES);
    }
    Ok(b)
}


/// A capability claims wire determines every claim it carries: two valid claims with one
/// wire have the same field encodings, and so the same times, digests, nonce, origin, trust
/// tier and dispatch domain code.
pub proof fn lemma_capability_claims_wire_injective(c1: CapabilityClaims, c2: CapabilityClaims)
    requires
        capability_claims_valid(c1),
        capability_claims_valid(c2),
        capability_claims_wire(c1) == capability_claims_wire(c2),
    ensures
        capability_claims_values(c1) == capability_claims_values(c2),
        c1.issued_at_millis == c2.issued_at_millis,
        c1.deadline_millis == c2.deadline_millis,
        c1.registry_digest.bytes() == c2.registry_digest.bytes(),
        c1.request_digest.bytes() == c2.request_digest.bytes(),
        c1.nonce.bytes() == c2.nonce.bytes(),
        c1.origin.bytes() == c2.origin.bytes(),
        c1.trust_tier == c2.trust_tier,
        domain_code(c1.dispatch_domain) == domain_code(c2.dispatch_domain),
{
    lemma_capability_claims_fit(c1);
    lemma_capability_claims_fit(c2);
    let v1 = capability_claims_values(c1);
    let v2 = capability_claims_values(c2);
    crate::contract::canonical::lemma_canonical_wire_injective(capability_claims_prefix(), capability_claims_shapes(), v1, v2);
    assert(v1[3] == v2[3] && v1[4] == v2[4]);
    crate::contract::canonical::lemma_be64_injective(c1.issued_at_millis, c2.issued_at_millis);
    crate::contract::canonical::lemma_be64_injective(c1.deadline_millis, c2.deadline_millis);
    assert(v1[9] == v2[9] && v1[18] == v2[18] && v1[19] == v2[19] && v1[12] == v2[12]);
    assert(v1[22] == v2[22] && v1[8] == v2[8]);
    assert(v1[22][0] == c1.trust_tier && v2[22][0] == c2.trust_tier);
    assert(v1[8][0] == domain_code(c1.dispatch_domain));
}

/// An attestation claims wire determines the encoding of every claim it carries.
pub proof fn lemma_attestation_claims_wire_injective(c1: AttestationClaims, c2: AttestationClaims)
    requires
        attestation_claims_valid(c1),
        attestation_claims_valid(c2),
        attestation_claims_wire(c1) == attestation_claims_wire(c2),
    ensures
        attestation_claims_values(c1) == attestation_claims_values(c2),
{
    lemma_attestation_claims_fit(c1);
    lemma_attestation_claims_fit(c2);
    crate::contract::canonical::lemma_canonical_wire_injective(
        attestation_claims_prefix(),
        attestation_claims_shapes(),
        attestation_claims_values(c1),
        attestation_claims_values(c2),
    );
}

/// An authorization bundle wire determines the wires of its permit, requirements and
/// activation key.
pub proof fn lemma_bundle_wire_injective(b1: AuthorizationBundle, b2: AuthorizationBundle)
    requires
        bundle_valid(b1),
        bundle_valid(b2),
        bundle_wire(b1) == bundle_wire(b2),
    ensures
        bundle_values(b1) == bundle_values(b2),
{
    assert(values_fit(bundle_shapes(), bundle_values(b1)));
    assert(values_fit(bundle_shapes(), bundle_values(b2)));
    crate::contract::canonical::lemma_canonical_wire_injective(bundle_prefix(), bundle_shapes(), bundle_values(b1), bundle_values(b2));
}

} // verus!
