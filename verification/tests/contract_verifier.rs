use std::cell::Cell;
use std::rc::Rc;

use hmac::Mac;
use routing_core::contract::entry::{
    CapabilityVerificationKey, CapabilityVerificationKeyRing, FixedClock, IngressVerifier, ManagedVerificationKey,
    ManagedVerificationKeyRing, VerifierClock,
};
use routing_core::contract::error::{IngressReject, NonceReject};
use routing_core::contract::gates::{
    CapabilityListenerContext, ContextActivationBinding, GatewayConsentAuthority, ListenerBindingAuthority,
    ManagedActivationAuthority, ManagedActivationBinding, ManagedListenerContext,
};
use routing_core::contract::ids::{
    AccountId, AccountSelectorId, AdapterVersion, AudienceId, CapabilityManagementScopeId, ClientFamilyId,
    ClientVersion, ConsentRevision, ContextPolicyVersion, CredentialId, EndpointId, IngressSchemaVersion,
    IngressTokenScopeId, IssuerEpoch, ListenerId, ModelDeploymentId, OneShotNonce, OperationId, RoutePolicyRevision,
    TransformOwnerId, TransformOwnerVersion,
};
use routing_core::contract::mac::authorization_bundle_digest;
use routing_core::contract::operation::{
    BodyPolicy, LocalOperationAuthScope, QueryPolicy, RequestDispatchDomain, RequestKind, RouteSpec,
    RouteSpecRegistry,
};
use routing_core::contract::replay::{MemoryNonceStore, NonceNamespace, OneShotNonceStore};
use routing_core::contract::request::{HttpMethod, RawHeader, RawIngressRequest};
use routing_core::contract::signed::{EncodedCapabilityAuthorization, SignedIngressRequest};
use routing_core::error::{ProtocolNormalizeError, RouteReject};
use routing_core::selection_input::{SelectionSession, SessionAffinityAlias};
use routing_core::contract::verified::{
    VerifiedAuthorizationKind, VerifiedIngressReceiver, VerifiedProofKind,
};

const NOW: u64 = 1_800_000_000_000;
const EXPIRES: u64 = NOW + 60_000;
const MANAGED_KEY: [u8; 32] = [0x11; 32];
const MANAGED_KEY_2: [u8; 32] = [0x12; 32];
const CAPABILITY_KEY: [u8; 32] = [0x21; 32];

const BUNDLE_PREFIX: &[u8] = b"BIANMA/AUTHORIZATION-BUNDLE/1\0";
const PERMIT_PREFIX: &[u8] = b"BIANMA/EGRESS-PERMIT/1\0";
const REQUIREMENTS_PREFIX: &[u8] = b"BIANMA/CAPABILITY-REQUIREMENTS/1\0";
const ACTIVATION_PREFIX: &[u8] = b"BIANMA/ACTIVATION-KEY/1\0";
const CLAIMS_PREFIX: &[u8] = b"BIANMA/ATTESTATION-CLAIMS/1\0";
const ATTESTATION_PREFIX: &[u8] = b"BIANMA/ATTESTATION/1\0";
const CAPABILITY_CLAIMS_PREFIX: &[u8] = b"BIANMA/CAPABILITY-CLAIMS/1\0";
const CAPABILITY_PREFIX: &[u8] = b"BIANMA/CAPABILITY-AUTHORIZATION/1\0";
const TARGET_PREFIX: &[u8] = b"BIANMA/EGRESS-TARGET/1\0";
const ATTESTATION_MAC_DOMAIN: &[u8] = b"bianma.ingress.context-attestation-mac.v1\0";
const CAPABILITY_MAC_DOMAIN: &[u8] = b"bianma.ingress.capability-authorization-mac.v1\0";

trait ResultTestExt<T, E> {
    fn expect_error(self, message: &str) -> E;
}

impl<T, E> ResultTestExt<T, E> for Result<T, E> {
    fn expect_error(self, message: &str) -> E {
        match self {
            Ok(_) => panic!("{message}"),
            Err(error) => error,
        }
    }
}

struct Encoder {
    bytes: Vec<u8>,
}

impl Encoder {
    fn with_prefix(prefix: &[u8]) -> Self {
        Encoder { bytes: prefix.to_vec() }
    }

    fn field(&mut self, tag: u16, value: &[u8]) {
        self.bytes.extend_from_slice(&tag.to_be_bytes());
        self.bytes.extend_from_slice(&(value.len() as u32).to_be_bytes());
        self.bytes.extend_from_slice(value);
    }

    fn field_u8(&mut self, tag: u16, value: u8) {
        self.field(tag, &[value]);
    }

    fn field_u64(&mut self, tag: u16, value: u64) {
        self.field(tag, &value.to_be_bytes());
    }

    fn into_bytes(self) -> Vec<u8> {
        self.bytes
    }
}

fn mac(key: &[u8; 32], domain: &[u8], claims_wire: &[u8], bound_digest: Option<&[u8; 32]>) -> [u8; 32] {
    let mut mac = <hmac::Hmac<sha2::Sha256> as Mac>::new_from_slice(key).expect("any key length is accepted");
    mac.update(domain);
    mac.update(&(claims_wire.len() as u64).to_be_bytes());
    mac.update(claims_wire);
    if let Some(digest) = bound_digest {
        mac.update(digest);
    }
    mac.finalize().into_bytes().into()
}


struct TestRuntime<C: VerifierClock, S: OneShotNonceStore> {
    verifier: IngressVerifier<C, S>,
    listener_authority: ListenerBindingAuthority,
    gateway_consent_authority: GatewayConsentAuthority,
    managed_activation_authority: ManagedActivationAuthority,
    receiver: VerifiedIngressReceiver,
}

fn operation(value: u64) -> OperationId {
    OperationId::new(value)
}

fn json_body_policy(max_bytes: usize) -> BodyPolicy {
    BodyPolicy::bounded(max_bytes, Some(b"application/json".as_slice())).expect("test body policy is valid")
}

#[allow(clippy::too_many_arguments)]
fn route(
    op: u64,
    method: HttpMethod,
    path: &[u8],
    query: QueryPolicy,
    body: BodyPolicy,
    kind: RequestKind,
    domain: RequestDispatchDomain,
    semantic: Vec<Vec<u8>>,
    scope: Option<LocalOperationAuthScope>,
) -> RouteSpec {
    RouteSpec::try_new(operation(op), method, path, query, body, kind, domain, semantic, scope)
        .expect("test route spec is valid")
}

fn build_registry() -> RouteSpecRegistry {
    RouteSpecRegistry::compile(vec![
        route(
            1,
            HttpMethod::Post,
            b"/v1/messages",
            QueryPolicy::Forbidden,
            json_body_policy(32 * 1024),
            RequestKind::ModelInference,
            RequestDispatchDomain::RoutedPolicy,
            vec![b"x-client-version".to_vec()],
            None,
        ),
        route(
            2,
            HttpMethod::Get,
            b"/health",
            QueryPolicy::Forbidden,
            BodyPolicy::Forbidden,
            RequestKind::Liveness,
            RequestDispatchDomain::Local,
            vec![],
            Some(LocalOperationAuthScope::PublicLiveness),
        ),
        route(
            3,
            HttpMethod::Get,
            b"/status",
            QueryPolicy::Forbidden,
            BodyPolicy::Forbidden,
            RequestKind::LocalAdmin,
            RequestDispatchDomain::Local,
            vec![],
            Some(LocalOperationAuthScope::LocalAdmin),
        ),
        route(
            4,
            HttpMethod::Get,
            b"/oauth/callback",
            QueryPolicy::Allowed,
            BodyPolicy::Forbidden,
            RequestKind::AuthFlow,
            RequestDispatchDomain::Local,
            vec![],
            Some(LocalOperationAuthScope::AuthFlow),
        ),
        route(
            5,
            HttpMethod::Get,
            b"/v1/models",
            QueryPolicy::Forbidden,
            BodyPolicy::Forbidden,
            RequestKind::UnifiedModelCatalog,
            RequestDispatchDomain::Local,
            vec![],
            Some(LocalOperationAuthScope::LocalData),
        ),
        route(
            6,
            HttpMethod::Post,
            b"/management/models/probe",
            QueryPolicy::Forbidden,
            BodyPolicy::Forbidden,
            RequestKind::DeploymentModelProbe,
            RequestDispatchDomain::BoundDeployment,
            vec![],
            None,
        ),
        route(
            7,
            HttpMethod::Post,
            b"/v1/messages/count_tokens",
            QueryPolicy::Forbidden,
            json_body_policy(32 * 1024),
            RequestKind::ExactUpstreamTokenCount,
            RequestDispatchDomain::BoundDeployment,
            vec![b"x-client-version".to_vec()],
            None,
        ),
        route(
            8,
            HttpMethod::Post,
            b"/v1/context/compact",
            QueryPolicy::Forbidden,
            json_body_policy(32 * 1024),
            RequestKind::AuxiliaryInference,
            RequestDispatchDomain::RoutedPolicy,
            vec![b"x-client-version".to_vec()],
            None,
        ),
    ])
    .expect("test registry is valid")
}

fn header(name: &[u8], value: &[u8]) -> RawHeader {
    RawHeader::try_new(name, value).expect("test header is valid")
}

fn model_request_with(body: &[u8], target: &[u8], client_version: &[u8]) -> RawIngressRequest {
    RawIngressRequest::try_new(
        HttpMethod::Post,
        target,
        vec![
            header(b"content-type", b"application/json; charset=utf-8"),
            header(b"x-client-version", client_version),
            header(b"authorization", b"Bearer LOCAL_INGRESS_TOKEN_CANARY"),
            header(b"cookie", b"SESSION_COOKIE_CANARY"),
            header(b"x-unbound-canary", b"UNSIGNED_HEADER_MUST_BE_STRIPPED"),
            header(b"content-length", body.len().to_string().as_bytes()),
        ],
        body.to_vec(),
    )
    .expect("test model request is valid")
}

fn model_request() -> RawIngressRequest {
    model_request_with(br#"{"messages":[{"role":"user","content":"hello"}]}"#, b"/v1/messages", b"1")
}

fn token_count_request() -> RawIngressRequest {
    model_request_with(br#"{"messages":[{"role":"user","content":"count"}]}"#, b"/v1/messages/count_tokens", b"1")
}

fn probe_request() -> RawIngressRequest {
    RawIngressRequest::try_new(
        HttpMethod::Post,
        b"/management/models/probe",
        vec![header(b"authorization", b"Bearer MANAGEMENT_TOKEN")],
        vec![],
    )
    .expect("test probe request is valid")
}

fn local_request(path: &[u8]) -> RawIngressRequest {
    RawIngressRequest::try_new(HttpMethod::Get, path, vec![], vec![]).expect("test local request is valid")
}

fn method_code(method: HttpMethod) -> u8 {
    match method {
        HttpMethod::Get => 1,
        HttpMethod::Post => 2,
        HttpMethod::Put => 3,
        HttpMethod::Patch => 4,
        HttpMethod::Delete => 5,
        HttpMethod::Head => 6,
        HttpMethod::Options => 7,
    }
}

fn domain_code(domain: RequestDispatchDomain) -> u8 {
    match domain {
        RequestDispatchDomain::Local => 1,
        RequestDispatchDomain::BoundDeployment => 2,
        RequestDispatchDomain::RoutedPolicy => 3,
    }
}

#[derive(Clone)]
struct Target {
    site: u64,
    deployment: u64,
    origin: Vec<u8>,
    trust_tier: u8,
}

fn allowed_targets(bound: bool) -> Vec<Target> {
    let mut targets = vec![Target { site: 100, deployment: 200, origin: b"https://api.example.test".to_vec(), trust_tier: 1 }];
    if !bound {
        targets.push(Target {
            site: 101,
            deployment: 201,
            origin: b"https://fallback.example.test".to_vec(),
            trust_tier: 2,
        });
    }
    targets
}

/// The values a managed attestation and its authorization bundle carry.
#[derive(Clone)]
struct ManagedMaterial {
    operation: u64,
    dispatch_domain: RequestDispatchDomain,
    purpose: u8,
    registry_digest: [u8; 32],
    method: u8,
    target: Vec<u8>,
    semantic_headers_digest: [u8; 32],
    body_digest: [u8; 32],
    body_length: u64,
    request_digest: [u8; 32],
    permit_request_digest: [u8; 32],
    nonce: u8,
    issuer_epoch: u64,
    targets: Vec<Target>,
    fallback_allowed: bool,
    handle_earliest_expiry_millis: u64,
    local_handle_required: bool,
}

fn managed_material(
    registry: &RouteSpecRegistry,
    request: &RawIngressRequest,
    nonce: u8,
    issuer_epoch: u64,
) -> ManagedMaterial {
    let binding = registry.bind_request(request).expect("test request matches the registry");
    let spec = &binding.operation.spec;
    let bound = spec.dispatch_domain() == RequestDispatchDomain::BoundDeployment;
    let purpose = match spec.kind() {
        RequestKind::ModelInference => 1,
        RequestKind::AuxiliaryInference => 2,
        RequestKind::ExactUpstreamTokenCount => 3,
        _ => panic!("managed material is only for remote data operations"),
    };
    ManagedMaterial {
        operation: spec.operation().get(),
        dispatch_domain: spec.dispatch_domain(),
        purpose,
        registry_digest: *registry.digest().as_bytes(),
        method: method_code(request.method()),
        target: request.target().to_vec(),
        semantic_headers_digest: *binding.semantic_headers_digest.as_bytes(),
        body_digest: *binding.body_digest.as_bytes(),
        body_length: binding.body_length,
        request_digest: *binding.request_digest.as_bytes(),
        permit_request_digest: *binding.request_digest.as_bytes(),
        nonce,
        issuer_epoch,
        targets: allowed_targets(bound),
        fallback_allowed: !bound,
        handle_earliest_expiry_millis: EXPIRES + 60_000,
        local_handle_required: true,
    }
}

fn target_wire(target: &Target) -> Vec<u8> {
    let mut encoder = Encoder::with_prefix(TARGET_PREFIX);
    encoder.field_u64(1, target.site);
    encoder.field_u64(2, target.deployment);
    encoder.field(3, &target.origin);
    encoder.field_u8(4, target.trust_tier);
    encoder.into_bytes()
}

fn encode_bundle(m: &ManagedMaterial) -> Vec<u8> {
    let mut list = Vec::new();
    list.extend_from_slice(&(m.targets.len() as u16).to_be_bytes());
    for target in &m.targets {
        let wire = target_wire(target);
        list.extend_from_slice(&(wire.len() as u32).to_be_bytes());
        list.extend_from_slice(&wire);
    }
    let mut permit = Encoder::with_prefix(PERMIT_PREFIX);
    permit.field_u64(1, m.operation);
    permit.field(2, &m.permit_request_digest);
    permit.field(3, &m.body_digest);
    permit.field(4, &[0x33; 32]);
    permit.field(5, &[m.nonce; 16]);
    permit.field_u8(6, m.purpose);
    permit.field_u8(7, 3);
    permit.field_u64(8, 128 * 1024);
    permit.field(9, &list);
    permit.field_u8(10, u8::from(m.fallback_allowed));
    permit.field_u64(11, 70);
    permit.field_u64(12, 80);
    permit.field_u64(13, EXPIRES);
    let mut requirements = Encoder::with_prefix(REQUIREMENTS_PREFIX);
    requirements.field_u64(1, 1);
    requirements.field_u64(2, 2);
    requirements.field_u64(3, 30);
    requirements.field_u64(4, 3);
    requirements.field_u64(5, 4);
    requirements.field_u64(6, m.handle_earliest_expiry_millis);
    requirements.field_u64(7, 5);
    requirements.field_u8(8, 1);
    requirements.field_u8(9, u8::from(m.local_handle_required));
    let mut activation = Encoder::with_prefix(ACTIVATION_PREFIX);
    for (tag, value) in [(1u16, 10u64), (2, 20), (3, 30), (4, 1), (5, 40), (6, 50), (7, 60)] {
        activation.field_u64(tag, value);
    }
    let mut bundle = Encoder::with_prefix(BUNDLE_PREFIX);
    bundle.field(1, &permit.into_bytes());
    bundle.field(2, &requirements.into_bytes());
    bundle.field(3, &activation.into_bytes());
    bundle.into_bytes()
}

fn encode_claims(m: &ManagedMaterial, bundle_digest: &[u8; 32]) -> Vec<u8> {
    let mut claims = Encoder::with_prefix(CLAIMS_PREFIX);
    claims.field(1, &1u16.to_be_bytes());
    claims.field_u64(2, 90);
    claims.field_u64(3, m.issuer_epoch);
    claims.field_u64(4, NOW - 1_000);
    claims.field_u64(5, EXPIRES);
    claims.field_u64(6, 91);
    claims.field_u64(7, 92);
    claims.field_u64(8, m.operation);
    claims.field_u8(9, domain_code(m.dispatch_domain));
    claims.field(10, &m.registry_digest);
    claims.field_u8(11, m.method);
    claims.field(12, &m.target);
    claims.field(13, &m.semantic_headers_digest);
    claims.field(14, &m.body_digest);
    claims.field_u64(15, m.body_length);
    claims.field(16, &m.request_digest);
    claims.field(17, &[0x33; 32]);
    claims.field(18, bundle_digest);
    claims.field(19, &[m.nonce; 16]);
    claims.field_u64(20, 70);
    claims.field_u64(21, 30);
    claims.field_u64(22, 60);
    claims.into_bytes()
}

/// Encodes the bundle, binds its digest in the claims and signs the attestation.
fn encode_managed(m: &ManagedMaterial, key: &[u8; 32]) -> (Vec<u8>, Vec<u8>) {
    let bundle_wire = encode_bundle(m);
    let bundle_digest = *authorization_bundle_digest(&bundle_wire).as_bytes();
    let claims_wire = encode_claims(m, &bundle_digest);
    let tag = mac(key, ATTESTATION_MAC_DOMAIN, &claims_wire, Some(&bundle_digest));
    let mut attestation = Encoder::with_prefix(ATTESTATION_PREFIX);
    attestation.field(1, &claims_wire);
    attestation.field(2, &tag);
    (attestation.into_bytes(), bundle_wire)
}

fn signed_from_wires(request: RawIngressRequest, attestation_wire: &[u8], bundle_wire: &[u8]) -> SignedIngressRequest {
    SignedIngressRequest::try_new(request, attestation_wire.to_vec(), bundle_wire.to_vec())
        .expect("test signed wires are bounded")
}

fn runtime_with<C: VerifierClock, S: OneShotNonceStore>(
    managed_keys: Vec<(u64, [u8; 32])>,
    clock: C,
    store: S,
) -> TestRuntime<C, S> {
    let managed = managed_keys
        .into_iter()
        .map(|(epoch, key)| ManagedVerificationKey::try_new(IssuerEpoch::new(epoch), key).expect("managed key is valid"))
        .collect();
    let runtime = IngressVerifier::initialize(
        build_registry(),
        ManagedVerificationKeyRing::try_new(managed).expect("managed key ring is valid"),
        CapabilityVerificationKeyRing::try_new(vec![CapabilityVerificationKey::try_new(
            IssuerEpoch::new(1),
            CAPABILITY_KEY,
        )
        .expect("capability key is valid")])
        .expect("capability key ring is valid"),
        clock,
        store,
    );
    let (verifier, listener_authority, gateway_consent_authority, managed_activation_authority, receiver) =
        runtime.into_parts();
    TestRuntime { verifier, listener_authority, gateway_consent_authority, managed_activation_authority, receiver }
}

fn fresh_store() -> MemoryNonceStore {
    MemoryNonceStore::new(4_096).expect("nonce store is valid")
}

fn default_runtime() -> TestRuntime<FixedClock, MemoryNonceStore> {
    runtime_with(vec![(1, MANAGED_KEY)], FixedClock::new(NOW), fresh_store())
}

fn activation_binding() -> ContextActivationBinding {
    ContextActivationBinding::new(
        ClientFamilyId::new(10),
        ClientVersion::new(20),
        AdapterVersion::new(30),
        IngressSchemaVersion::new(1),
        ContextPolicyVersion::new(40),
        TransformOwnerId::new(50),
        TransformOwnerVersion::new(60),
    )
}

fn managed_connection<C: VerifierClock, S: OneShotNonceStore>(
    runtime: &TestRuntime<C, S>,
    epoch: u64,
) -> ManagedListenerContext {
    runtime.listener_authority.managed(
        ListenerId::new(91),
        IngressTokenScopeId::new(92),
        AudienceId::new(90),
        IssuerEpoch::new(epoch),
    )
}

fn managed_active<C: VerifierClock, S: OneShotNonceStore>(
    runtime: &TestRuntime<C, S>,
    epoch: u64,
) -> ManagedActivationBinding {
    runtime.managed_activation_authority.issue_binding(
        ListenerId::new(91),
        IngressTokenScopeId::new(92),
        AudienceId::new(90),
        IssuerEpoch::new(epoch),
        RoutePolicyRevision::new(70),
        ConsentRevision::new(80),
        activation_binding(),
        EXPIRES + 60_000,
    )
}

fn verify_managed<C: VerifierClock, S: OneShotNonceStore>(
    runtime: &mut TestRuntime<C, S>,
    request: RawIngressRequest,
    attestation_wire: &[u8],
    bundle_wire: &[u8],
    epoch: u64,
) -> Result<routing_core::contract::verified::VerifiedIngressRequest, IngressReject> {
    let connection = managed_connection(runtime, epoch);
    let active = managed_active(runtime, epoch);
    runtime.verifier.verify_managed(signed_from_wires(request, attestation_wire, bundle_wire), &connection, &active)
}

fn header_names(verified: &routing_core::contract::verified::VerifiedIngressRequest) -> Vec<Vec<u8>> {
    verified.headers().iter().map(|header| header.name().to_vec()).collect()
}

#[test]
fn managed_success_strips_ingress_secrets_and_preserves_verified_contract() {
    let registry = build_registry();
    let request = model_request();
    let material = managed_material(&registry, &request, 1, 1);
    let (attestation_wire, bundle_wire) = encode_managed(&material, &MANAGED_KEY);
    let mut runtime = default_runtime();
    let verified = verify_managed(&mut runtime, request, &attestation_wire, &bundle_wire, 1)
        .expect("a valid managed request passes");

    assert_eq!(verified.proof_kind(), VerifiedProofKind::Managed);
    assert_eq!(verified.authorization_kind(), VerifiedAuthorizationKind::ManagedEgress);
    assert_eq!(verified.operation(), operation(1));
    assert_eq!(verified.dispatch_domain(), RequestDispatchDomain::RoutedPolicy);
    assert_eq!(verified.managed().map(|view| view.egress_permit().target_count()), Some(2));
    assert!(verified.local_handle_allowed());
    assert!(verified.proof_binding_is_nonzero());
    let names = header_names(&verified);
    assert!(names.contains(&b"content-type".to_vec()));
    assert!(names.contains(&b"x-client-version".to_vec()));
    assert!(!names.contains(&b"authorization".to_vec()));
    assert!(!names.contains(&b"cookie".to_vec()));
    assert!(!names.contains(&b"x-unbound-canary".to_vec()));
    assert!(!names.contains(&b"content-length".to_vec()));
}

#[test]
fn verification_runtime_seal_rejects_cross_instance_contexts_and_requests() {
    let mut runtime_a = default_runtime();
    let runtime_b = default_runtime();
    let registry = build_registry();
    let request = model_request();
    let material = managed_material(&registry, &request, 40, 1);
    let (attestation_wire, bundle_wire) = encode_managed(&material, &MANAGED_KEY);

    let foreign_connection = managed_connection(&runtime_b, 1);
    let active = managed_active(&runtime_a, 1);
    assert_eq!(
        runtime_a
            .verifier
            .verify_managed(signed_from_wires(model_request(), &attestation_wire, &bundle_wire), &foreign_connection, &active)
            .expect_error("a listener context of another runtime is refused"),
        IngressReject::VerificationDomainMismatch
    );

    let verified = verify_managed(&mut runtime_a, request, &attestation_wire, &bundle_wire, 1)
        .expect("a context of the same runtime passes");
    assert_eq!(
        runtime_b.receiver.accept(verified).expect_error("the receiver of another runtime refuses"),
        IngressReject::VerificationDomainMismatch
    );

    let request = model_request();
    let material = managed_material(&registry, &request, 41, 1);
    let (attestation_wire, bundle_wire) = encode_managed(&material, &MANAGED_KEY);
    let verified = verify_managed(&mut runtime_a, request, &attestation_wire, &bundle_wire, 1)
        .expect("a second request of the same domain passes the verifier");
    runtime_a.receiver.accept(verified).expect("the receiver of the same domain accepts");
}

#[test]
fn managed_every_attestation_and_bundle_byte_is_authenticated() {
    let registry = build_registry();
    let request = model_request();
    let material = managed_material(&registry, &request, 2, 1);
    let (attestation_wire, bundle_wire) = encode_managed(&material, &MANAGED_KEY);

    for index in 0..attestation_wire.len() {
        let mut tampered = attestation_wire.clone();
        tampered[index] ^= 1;
        let mut runtime = default_runtime();
        let result = verify_managed(&mut runtime, model_request(), &tampered, &bundle_wire, 1);
        assert!(result.is_err(), "attestation byte {index} is not protected");
    }

    for index in 0..bundle_wire.len() {
        let mut tampered = bundle_wire.clone();
        tampered[index] ^= 1;
        let mut runtime = default_runtime();
        let result = verify_managed(&mut runtime, model_request(), &attestation_wire, &tampered, 1);
        assert!(result.is_err(), "authorization bundle byte {index} is not protected");
    }
}

#[test]
fn managed_raw_body_target_and_semantic_header_changes_fail_before_nonce_consumption() {
    let registry = build_registry();
    let request = model_request();
    let material = managed_material(&registry, &request, 3, 1);
    let (attestation_wire, bundle_wire) = encode_managed(&material, &MANAGED_KEY);
    let mut runtime = default_runtime();

    let changed_body =
        model_request_with(br#"{"messages": [{"content":"hello","role":"user"}]}"#, b"/v1/messages", b"1");
    assert_eq!(
        verify_managed(&mut runtime, changed_body, &attestation_wire, &bundle_wire, 1)
            .expect_error("reordered JSON changes the raw body binding"),
        IngressReject::RequestBindingMismatch
    );

    let changed_header =
        model_request_with(br#"{"messages":[{"role":"user","content":"hello"}]}"#, b"/v1/messages", b"2");
    assert_eq!(
        verify_managed(&mut runtime, changed_header, &attestation_wire, &bundle_wire, 1)
            .expect_error("a changed semantic header is refused"),
        IngressReject::RequestBindingMismatch
    );

    let verified = verify_managed(&mut runtime, model_request(), &attestation_wire, &bundle_wire, 1)
        .expect("earlier binding failures must not burn the valid nonce");
    assert_eq!(verified.proof_kind(), VerifiedProofKind::Managed);
}

#[test]
fn managed_scope_and_authorization_mismatches_do_not_consume_nonce() {
    let registry = build_registry();
    let request = model_request();
    let material = managed_material(&registry, &request, 4, 1);
    let (attestation_wire, bundle_wire) = encode_managed(&material, &MANAGED_KEY);
    let mut runtime = default_runtime();
    let wrong_connection = runtime.listener_authority.managed(
        ListenerId::new(999),
        IngressTokenScopeId::new(92),
        AudienceId::new(90),
        IssuerEpoch::new(1),
    );
    let active = managed_active(&runtime, 1);
    assert_eq!(
        runtime
            .verifier
            .verify_managed(signed_from_wires(model_request(), &attestation_wire, &bundle_wire), &wrong_connection, &active)
            .expect_error("a wrong listener is refused"),
        IngressReject::ScopeMismatch
    );

    let mut mismatched = material.clone();
    mismatched.permit_request_digest = [0x88; 32];
    let (mismatched_attestation, mismatched_bundle_wire) = encode_managed(&mismatched, &MANAGED_KEY);
    assert_eq!(
        verify_managed(&mut runtime, model_request(), &mismatched_attestation, &mismatched_bundle_wire, 1)
            .expect_error("a valid MAC cannot hide a bundle and request mismatch"),
        IngressReject::AuthorizationBindingMismatch
    );

    verify_managed(&mut runtime, model_request(), &attestation_wire, &bundle_wire, 1)
        .expect("scope and bundle mismatches must not burn the nonce");
}

#[test]
fn managed_handle_requirement_requires_expiry_binding() {
    let registry = build_registry();
    let request = model_request();
    let material = managed_material(&registry, &request, 42, 1);
    let mut runtime = default_runtime();

    let mut missing_expiry = material.clone();
    missing_expiry.handle_earliest_expiry_millis = 0;
    let (missing_attestation, missing_bundle_wire) = encode_managed(&missing_expiry, &MANAGED_KEY);
    assert_eq!(
        verify_managed(&mut runtime, model_request(), &missing_attestation, &missing_bundle_wire, 1)
            .expect_error("a required local handle without an expiry binding is refused"),
        IngressReject::AuthorizationBindingMismatch
    );

    let mut optional_handle = material;
    optional_handle.local_handle_required = false;
    optional_handle.handle_earliest_expiry_millis = 0;
    let (optional_attestation, optional_bundle_wire) = encode_managed(&optional_handle, &MANAGED_KEY);
    let verified = verify_managed(&mut runtime, model_request(), &optional_attestation, &optional_bundle_wire, 1)
        .expect("an optional local handle without an expiry binding passes");
    assert!(!verified.local_handle_allowed());
}

#[test]
fn managed_bound_token_count_forbids_fallback_and_multiple_targets() {
    let registry = build_registry();
    let request = token_count_request();
    let material = managed_material(&registry, &request, 5, 1);
    let (attestation_wire, bundle_wire) = encode_managed(&material, &MANAGED_KEY);
    let mut runtime = default_runtime();
    let verified = verify_managed(&mut runtime, request, &attestation_wire, &bundle_wire, 1)
        .expect("a single target without fallback passes the context gate");
    assert_eq!(verified.dispatch_domain(), RequestDispatchDomain::BoundDeployment);
    assert_eq!(verified.managed().map(|view| view.egress_permit().target_count()), Some(1));

    let request = token_count_request();
    let mut bad = managed_material(&registry, &request, 6, 1);
    bad.fallback_allowed = true;
    bad.targets = allowed_targets(false);
    let (bad_attestation, bad_bundle_wire) = encode_managed(&bad, &MANAGED_KEY);
    let mut runtime = default_runtime();
    assert_eq!(
        verify_managed(&mut runtime, request, &bad_attestation, &bad_bundle_wire, 1)
            .expect_error("a bound deployment may not carry fallback or a second target"),
        IngressReject::CapabilityConstraintMismatch
    );
}

#[test]
fn managed_replayed_attestation_is_refused_after_first_use() {
    let registry = build_registry();
    let request = model_request();
    let material = managed_material(&registry, &request, 7, 1);
    let (attestation_wire, bundle_wire) = encode_managed(&material, &MANAGED_KEY);
    let mut runtime = default_runtime();
    verify_managed(&mut runtime, request, &attestation_wire, &bundle_wire, 1).expect("the first use passes");
    assert_eq!(
        verify_managed(&mut runtime, model_request(), &attestation_wire, &bundle_wire, 1)
            .expect_error("a replay is refused"),
        IngressReject::NonceRejected
    );
}

#[test]
fn managed_key_rotation_accepts_bound_epoch_and_rejects_unknown_epoch() {
    let registry = build_registry();
    let request = model_request();
    let material = managed_material(&registry, &request, 8, 2);
    let (attestation_wire, bundle_wire) = encode_managed(&material, &MANAGED_KEY_2);
    let mut runtime = runtime_with(vec![(1, MANAGED_KEY), (2, MANAGED_KEY_2)], FixedClock::new(NOW), fresh_store());
    verify_managed(&mut runtime, request, &attestation_wire, &bundle_wire, 2)
        .expect("the right epoch inside the rotation window passes");

    let request = model_request();
    let material = managed_material(&registry, &request, 9, 3);
    let (attestation_wire, bundle_wire) = encode_managed(&material, &[0x13; 32]);
    let mut runtime = default_runtime();
    assert_eq!(
        verify_managed(&mut runtime, request, &attestation_wire, &bundle_wire, 3)
            .expect_error("an unknown key epoch is refused"),
        IngressReject::IssuerEpochUnknown
    );
}

#[test]
fn key_rings_refuse_empty_oversized_and_duplicate_windows() {
    let key = |epoch: u64| ManagedVerificationKey::try_new(IssuerEpoch::new(epoch), MANAGED_KEY).expect("valid key");
    assert!(matches!(ManagedVerificationKeyRing::try_new(vec![]), Err(IngressReject::InternalFailClosed)));
    assert!(matches!(
        ManagedVerificationKeyRing::try_new((1..=9).map(key).collect()),
        Err(IngressReject::InternalFailClosed)
    ));
    assert!(matches!(ManagedVerificationKeyRing::try_new(vec![key(4), key(4)]), Err(IngressReject::InternalFailClosed)));
    assert!(ManagedVerificationKeyRing::try_new((1..=8).map(key).collect()).is_ok());
    assert!(matches!(
        ManagedVerificationKey::try_new(IssuerEpoch::new(0), MANAGED_KEY),
        Err(IngressReject::InternalFailClosed)
    ));
    assert!(matches!(
        CapabilityVerificationKey::try_new(IssuerEpoch::new(1), [0; 32]),
        Err(IngressReject::InternalFailClosed)
    ));
}

#[test]
fn gateway_only_is_typed_scoped_and_never_grants_local_handles() {
    let mut runtime = default_runtime();
    let connection = runtime.listener_authority.gateway_only(
        ListenerId::new(200),
        IngressTokenScopeId::new(201),
        AudienceId::new(202),
    );
    let consent = runtime
        .gateway_consent_authority
        .issue_snapshot(
            ListenerId::new(200),
            IngressTokenScopeId::new(201),
            AudienceId::new(202),
            RoutePolicyRevision::new(203),
            ConsentRevision::new(204),
            2,
            NOW - 1_000,
            NOW + 60_000,
        )
        .expect("gateway consent is valid");
    let verified = runtime
        .verifier
        .verify_gateway_only(model_request(), &connection, &consent)
        .expect("a valid gateway-only request passes");
    assert_eq!(verified.proof_kind(), VerifiedProofKind::GatewayOnlyScopedConsent);
    assert_eq!(verified.authorization_kind(), VerifiedAuthorizationKind::GatewayOnlyExplicit);
    assert!(!verified.local_handle_allowed());
    let view = verified.gateway_only().expect("a gateway-only proof has a view");
    assert_eq!(view.maximum_trust_tier(), 2);
    assert_eq!(
        (view.consent_revision().get(), view.route_policy_revision().get(), view.maximum_trust_tier()),
        (204, 203, 2)
    );
    assert!(verified.proof_binding_is_nonzero());
}

#[test]
fn gateway_only_rejects_wrong_scope_expired_consent_and_local_routes() {
    let mut runtime = default_runtime();
    let connection = runtime.listener_authority.gateway_only(
        ListenerId::new(200),
        IngressTokenScopeId::new(201),
        AudienceId::new(202),
    );
    let wrong_scope = runtime
        .gateway_consent_authority
        .issue_snapshot(
            ListenerId::new(999),
            IngressTokenScopeId::new(201),
            AudienceId::new(202),
            RoutePolicyRevision::new(203),
            ConsentRevision::new(204),
            1,
            NOW - 1_000,
            NOW + 60_000,
        )
        .expect("test consent can be built");
    assert_eq!(
        runtime
            .verifier
            .verify_gateway_only(model_request(), &connection, &wrong_scope)
            .expect_error("a wrong listener scope is refused"),
        IngressReject::ScopeMismatch
    );

    let expired = runtime
        .gateway_consent_authority
        .issue_snapshot(
            ListenerId::new(200),
            IngressTokenScopeId::new(201),
            AudienceId::new(202),
            RoutePolicyRevision::new(203),
            ConsentRevision::new(204),
            1,
            NOW - 10_000,
            NOW - 1,
        )
        .expect("the verifier judges expiry");
    assert_eq!(
        runtime
            .verifier
            .verify_gateway_only(model_request(), &connection, &expired)
            .expect_error("an expired consent is refused"),
        IngressReject::GatewayConsentInvalid
    );

    let valid = runtime
        .gateway_consent_authority
        .issue_snapshot(
            ListenerId::new(200),
            IngressTokenScopeId::new(201),
            AudienceId::new(202),
            RoutePolicyRevision::new(203),
            ConsentRevision::new(204),
            1,
            NOW - 1_000,
            NOW + 60_000,
        )
        .expect("test consent is valid");
    assert_eq!(
        runtime
            .verifier
            .verify_gateway_only(local_request(b"/health"), &connection, &valid)
            .expect_error("gateway-only cannot reach a local disposition"),
        IngressReject::ProofModeConflict
    );
}

#[test]
fn local_operation_scope_is_closed_and_has_no_egress_authority() {
    let runtime = default_runtime();
    let public = runtime.listener_authority.local(
        ListenerId::new(300),
        IngressTokenScopeId::new(301),
        LocalOperationAuthScope::PublicLiveness,
    );
    let verified = runtime
        .verifier
        .verify_local_operation(local_request(b"/health"), &public)
        .expect("public liveness passes");
    assert_eq!(verified.proof_kind(), VerifiedProofKind::LocalOperationScoped);
    assert_eq!(verified.authorization_kind(), VerifiedAuthorizationKind::NoEgress);
    assert_eq!(verified.local_auth_scope(), Some(LocalOperationAuthScope::PublicLiveness));

    let local_admin = runtime.listener_authority.local(
        ListenerId::new(300),
        IngressTokenScopeId::new(301),
        LocalOperationAuthScope::LocalAdmin,
    );
    assert_eq!(
        runtime
            .verifier
            .verify_local_operation(local_request(b"/health"), &local_admin)
            .expect_error("a local admin scope cannot pose as public liveness"),
        IngressReject::LocalScopeMismatch
    );
    assert_eq!(
        runtime
            .verifier
            .verify_local_operation(model_request(), &public)
            .expect_error("a local proof cannot enter a routed policy"),
        IngressReject::DispatchDomainMismatch
    );
}

/// The values capability claims carry.
#[derive(Clone)]
struct CapabilityMaterial {
    issued_at_millis: u64,
    deadline_millis: u64,
    operation: u64,
    registry_digest: [u8; 32],
    request_digest: [u8; 32],
    nonce: u8,
    fallback_forbidden: bool,
}

fn capability_material(registry: &RouteSpecRegistry, request: &RawIngressRequest, nonce: u8) -> CapabilityMaterial {
    let binding = registry.bind_request(request).expect("probe request matches the registry");
    CapabilityMaterial {
        issued_at_millis: NOW - 1_000,
        deadline_millis: NOW + 60_000,
        operation: 6,
        registry_digest: *registry.digest().as_bytes(),
        request_digest: *binding.request_digest.as_bytes(),
        nonce,
        fallback_forbidden: true,
    }
}

fn sign_capability(m: &CapabilityMaterial, key: &[u8; 32]) -> Vec<u8> {
    let mut claims = Encoder::with_prefix(CAPABILITY_CLAIMS_PREFIX);
    claims.field(1, &1u16.to_be_bytes());
    claims.field_u64(2, 402);
    claims.field_u64(3, 1);
    claims.field_u64(4, m.issued_at_millis);
    claims.field_u64(5, m.deadline_millis);
    claims.field_u64(6, 400);
    claims.field_u64(7, 401);
    claims.field_u64(8, m.operation);
    claims.field_u8(9, 2);
    claims.field(10, &m.registry_digest);
    claims.field_u64(11, 410);
    claims.field_u64(12, 411);
    claims.field(13, b"https://probe.example.test:8443");
    claims.field_u64(14, 412);
    claims.field_u64(15, 413);
    claims.field_u64(16, 414);
    claims.field_u64(17, 415);
    claims.field_u64(18, 416);
    claims.field(19, &m.request_digest);
    claims.field(20, &[m.nonce; 16]);
    claims.field_u8(21, if m.fallback_forbidden { 0 } else { 1 });
    claims.field_u64(22, 409);
    claims.field_u8(23, 1);
    let claims_wire = claims.into_bytes();
    let tag = mac(key, CAPABILITY_MAC_DOMAIN, &claims_wire, None);
    let mut wire = Encoder::with_prefix(CAPABILITY_PREFIX);
    wire.field(1, &claims_wire);
    wire.field(2, &tag);
    wire.into_bytes()
}

fn capability_connection<C: VerifierClock, S: OneShotNonceStore>(runtime: &TestRuntime<C, S>) -> CapabilityListenerContext {
    runtime.listener_authority.capability(
        ListenerId::new(400),
        IngressTokenScopeId::new(401),
        AudienceId::new(402),
        IssuerEpoch::new(1),
        CapabilityManagementScopeId::new(416),
    )
}

fn encoded(wire: Vec<u8>) -> EncodedCapabilityAuthorization {
    EncodedCapabilityAuthorization::try_new(wire).expect("capability wire is bounded")
}

#[test]
fn capability_scoped_binds_exact_target_account_credential_and_forbids_fallback() {
    let registry = build_registry();
    let request = probe_request();
    let wire = sign_capability(&capability_material(&registry, &request, 20), &CAPABILITY_KEY);
    let mut runtime = default_runtime();
    let connection = capability_connection(&runtime);
    let verified = runtime
        .verifier
        .verify_capability_probe(request, &connection, encoded(wire))
        .expect("a valid capability-scoped probe passes");
    assert_eq!(verified.proof_kind(), VerifiedProofKind::CapabilityScoped);
    assert_eq!(verified.authorization_kind(), VerifiedAuthorizationKind::CapabilityBound);
    let binding = verified.capability_binding().expect("a capability proof has a binding view");
    assert_eq!(binding.deployment(), ModelDeploymentId::new(410));
    assert_eq!(binding.endpoint(), EndpointId::new(411));
    assert_eq!(binding.account_selector(), AccountSelectorId::new(412));
    assert_eq!(binding.account(), AccountId::new(413));
    assert_eq!(binding.credential(), CredentialId::new(414));
    assert_eq!(binding.origin().as_bytes(), b"https://probe.example.test:8443");
    assert!(binding.fallback_forbidden());
}

#[test]
fn capability_every_wire_byte_is_authenticated_and_replay_is_rejected() {
    let registry = build_registry();
    let request = probe_request();
    let wire = sign_capability(&capability_material(&registry, &request, 21), &CAPABILITY_KEY);
    assert!(routing_core::contract::decode::decode_capability_authorization(&wire).is_ok());

    for index in 0..wire.len() {
        let mut tampered = wire.clone();
        tampered[index] ^= 1;
        let mut runtime = default_runtime();
        let connection = capability_connection(&runtime);
        let result = runtime.verifier.verify_capability_probe(probe_request(), &connection, encoded(tampered));
        assert!(result.is_err(), "capability wire byte {index} is not protected");
    }

    let mut runtime = default_runtime();
    let connection = capability_connection(&runtime);
    runtime
        .verifier
        .verify_capability_probe(probe_request(), &connection, encoded(wire.clone()))
        .expect("the first capability passes");
    assert_eq!(
        runtime
            .verifier
            .verify_capability_probe(probe_request(), &connection, encoded(wire))
            .expect_error("a replayed capability is refused"),
        IngressReject::NonceRejected
    );
}

#[test]
fn capability_rejects_wrong_scope_expiry_fallback_and_non_probe_operations() {
    let registry = build_registry();
    let wire = sign_capability(&capability_material(&registry, &probe_request(), 22), &CAPABILITY_KEY);
    let mut runtime = default_runtime();
    let wrong_scope = runtime.listener_authority.capability(
        ListenerId::new(400),
        IngressTokenScopeId::new(401),
        AudienceId::new(402),
        IssuerEpoch::new(1),
        CapabilityManagementScopeId::new(999),
    );
    assert_eq!(
        runtime
            .verifier
            .verify_capability_probe(probe_request(), &wrong_scope, encoded(wire))
            .expect_error("a wrong management scope is refused"),
        IngressReject::CapabilityConstraintMismatch
    );

    let mut expired = capability_material(&registry, &probe_request(), 23);
    expired.issued_at_millis = NOW - 2_000;
    expired.deadline_millis = NOW - 1;
    let wire = sign_capability(&expired, &CAPABILITY_KEY);
    let mut runtime = default_runtime();
    let connection = capability_connection(&runtime);
    assert_eq!(
        runtime
            .verifier
            .verify_capability_probe(probe_request(), &connection, encoded(wire))
            .expect_error("an expired capability is refused"),
        IngressReject::TimeWindowInvalid
    );

    let mut fallback = capability_material(&registry, &probe_request(), 24);
    fallback.fallback_forbidden = false;
    let wire = sign_capability(&fallback, &CAPABILITY_KEY);
    let mut runtime = default_runtime();
    let connection = capability_connection(&runtime);
    assert_eq!(
        runtime
            .verifier
            .verify_capability_probe(probe_request(), &connection, encoded(wire))
            .expect_error("a capability that allows fallback is refused"),
        IngressReject::CapabilityAuthorizationMalformed
    );

    let request = token_count_request();
    let binding = registry.bind_request(&request).expect("the count request matches");
    let mut wrong_operation = capability_material(&registry, &probe_request(), 25);
    wrong_operation.operation = 7;
    wrong_operation.request_digest = *binding.request_digest.as_bytes();
    let wire = sign_capability(&wrong_operation, &CAPABILITY_KEY);
    let mut runtime = default_runtime();
    let connection = capability_connection(&runtime);
    assert_eq!(
        runtime
            .verifier
            .verify_capability_probe(request, &connection, encoded(wire))
            .expect_error("a bodied exact count cannot pose as a bodiless capability probe"),
        IngressReject::CapabilityConstraintMismatch
    );
}

/// A clock whose reading the test moves from outside the verifier.
struct SharedClock(Rc<Cell<u64>>);

impl VerifierClock for SharedClock {
    fn now_millis(&self) -> Result<u64, IngressReject> {
        Ok(self.0.get())
    }
}

#[test]
fn verifier_clock_high_water_keeps_expired_proofs_expired_after_rollback() {
    let reading = Rc::new(Cell::new(NOW));
    let mut runtime = runtime_with(vec![(1, MANAGED_KEY)], SharedClock(Rc::clone(&reading)), fresh_store());
    let registry = build_registry();
    let request = model_request();
    let material = managed_material(&registry, &request, 35, 1);
    let (attestation_wire, bundle_wire) = encode_managed(&material, &MANAGED_KEY);

    reading.set(EXPIRES + 1);
    assert_eq!(
        verify_managed(&mut runtime, model_request(), &attestation_wire, &bundle_wire, 1)
            .expect_error("an expired proof is refused"),
        IngressReject::TimeWindowInvalid
    );
    reading.set(NOW);
    assert_eq!(
        verify_managed(&mut runtime, request, &attestation_wire, &bundle_wire, 1)
            .expect_error("a clock that goes back cannot revive an expired proof"),
        IngressReject::TimeWindowInvalid
    );
}

#[test]
fn fixed_clock_shows_what_it_was_set_to() {
    let mut clock = FixedClock::new(NOW);
    assert_eq!(clock.now_millis(), Ok(NOW));
    clock.set(NOW + 5);
    assert_eq!(clock.now_millis(), Ok(NOW + 5));
}

struct FailingNonceStore;

impl OneShotNonceStore for FailingNonceStore {
    fn consume(
        &mut self,
        _namespace: NonceNamespace,
        _issuer_epoch: IssuerEpoch,
        _nonce: OneShotNonce,
        _expires_at_millis: u64,
        _now_millis: u64,
    ) -> Result<(), NonceReject> {
        Err(NonceReject::StoreUnavailable)
    }
}

struct FailingClock;

impl VerifierClock for FailingClock {
    fn now_millis(&self) -> Result<u64, IngressReject> {
        Err(IngressReject::InternalFailClosed)
    }
}

#[test]
fn nonce_store_failure_never_produces_verified_ingress() {
    let registry = build_registry();
    let request = model_request();
    let material = managed_material(&registry, &request, 32, 1);
    let (attestation_wire, bundle_wire) = encode_managed(&material, &MANAGED_KEY);
    let mut runtime = runtime_with(vec![(1, MANAGED_KEY)], FixedClock::new(NOW), FailingNonceStore);
    assert_eq!(
        verify_managed(&mut runtime, request, &attestation_wire, &bundle_wire, 1)
            .expect_error("a nonce store failure fails closed"),
        IngressReject::NonceRejected
    );
}

#[test]
fn clock_failure_fails_closed_as_clock_unavailable() {
    let registry = build_registry();
    let request = model_request();
    let material = managed_material(&registry, &request, 33, 1);
    let (attestation_wire, bundle_wire) = encode_managed(&material, &MANAGED_KEY);
    let mut runtime = runtime_with(vec![(1, MANAGED_KEY)], FailingClock, fresh_store());
    assert_eq!(
        verify_managed(&mut runtime, request, &attestation_wire, &bundle_wire, 1)
            .expect_error("a failing clock fails closed"),
        IngressReject::ClockUnavailable
    );
}

#[test]
fn route_registry_is_closed_and_preflight_is_exact() {
    assert_eq!(
        build_registry().bind_request(&local_request(b"/unknown")).expect_error("an unknown path is refused"),
        IngressReject::RouteNotFound
    );
    let wrong_method =
        RawIngressRequest::try_new(HttpMethod::Get, b"/v1/messages", vec![], vec![]).expect("request syntax is valid");
    assert_eq!(
        build_registry().bind_request(&wrong_method).expect_error("a wrong method is refused"),
        IngressReject::MethodNotAllowed
    );
    let query = model_request_with(br#"{"messages":[]}"#, b"/v1/messages?x=1", b"1");
    assert_eq!(
        build_registry().bind_request(&query).expect_error("a query on an operation that forbids it is refused"),
        IngressReject::QueryNotAllowed
    );
    let wrong_type = RawIngressRequest::try_new(
        HttpMethod::Post,
        b"/v1/messages",
        vec![header(b"content-type", b"text/plain")],
        b"hello".to_vec(),
    )
    .expect("request syntax is valid");
    assert_eq!(
        build_registry().bind_request(&wrong_type).expect_error("a wrong content type is refused"),
        IngressReject::ContentTypeNotAllowed
    );

    let duplicate = route(
        1,
        HttpMethod::Get,
        b"/another",
        QueryPolicy::Forbidden,
        BodyPolicy::Forbidden,
        RequestKind::UnifiedModelCatalog,
        RequestDispatchDomain::Local,
        vec![],
        Some(LocalOperationAuthScope::LocalData),
    );
    let existing = route(
        1,
        HttpMethod::Get,
        b"/models-2",
        QueryPolicy::Forbidden,
        BodyPolicy::Forbidden,
        RequestKind::UnifiedModelCatalog,
        RequestDispatchDomain::Local,
        vec![],
        Some(LocalOperationAuthScope::LocalData),
    );
    assert!(matches!(
        RouteSpecRegistry::compile(vec![duplicate, existing]),
        Err(IngressReject::RegistryInvalid)
    ));
}

#[test]
fn bound_request_digests_cover_body_headers_and_target() {
    let registry = build_registry();
    let first = registry.bind_request(&model_request()).expect("binds");
    let again = registry.bind_request(&model_request()).expect("binds");
    assert_eq!(first.request_digest.as_bytes(), again.request_digest.as_bytes());
    assert_eq!(first.body_length, br#"{"messages":[{"role":"user","content":"hello"}]}"#.len() as u64);
    let other_header = registry
        .bind_request(&model_request_with(br#"{"messages":[{"role":"user","content":"hello"}]}"#, b"/v1/messages", b"2"))
        .expect("binds");
    assert_eq!(first.body_digest.as_bytes(), other_header.body_digest.as_bytes());
    assert_ne!(first.semantic_headers_digest.as_bytes(), other_header.semantic_headers_digest.as_bytes());
    assert_ne!(first.request_digest.as_bytes(), other_header.request_digest.as_bytes());
    let unbound_header_only = RawIngressRequest::try_new(
        HttpMethod::Post,
        b"/v1/messages",
        vec![
            header(b"content-type", b"application/json; charset=utf-8"),
            header(b"x-client-version", b"1"),
            header(b"x-other", b"ignored"),
        ],
        br#"{"messages":[{"role":"user","content":"hello"}]}"#.to_vec(),
    )
    .expect("valid");
    let same = registry.bind_request(&unbound_header_only).expect("binds");
    assert_eq!(first.semantic_headers_digest.as_bytes(), same.semantic_headers_digest.as_bytes());
}

#[test]
fn errors_are_stable_and_do_not_echo_canaries() {
    let request = RawIngressRequest::try_new(
        HttpMethod::Post,
        b"/CANARY_SECRET_PATH",
        vec![header(b"x-canary", b"CANARY_SECRET_HEADER")],
        b"CANARY_SECRET_BODY".to_vec(),
    )
    .expect("the canary request is syntactically valid");
    let error = build_registry().bind_request(&request).expect_error("an unregistered canary path is refused");
    let display = error.code().to_string();
    let debug = format!("{error:?}");
    for canary in ["CANARY_SECRET_PATH", "CANARY_SECRET_HEADER", "CANARY_SECRET_BODY"] {
        assert!(!display.contains(canary));
        assert!(!debug.contains(canary));
    }
    assert_eq!(display, error.code());
}

#[test]
fn route_rejections_wrap_ingress_and_normalizer_failures() {
    assert!(matches!(
        RouteReject::from(IngressReject::RegistryMismatch),
        RouteReject::Ingress(IngressReject::RegistryMismatch)
    ));
    assert!(matches!(
        RouteReject::from(ProtocolNormalizeError::UnsupportedFeature),
        RouteReject::Normalize(ProtocolNormalizeError::UnsupportedFeature)
    ));
}

#[test]
fn selection_session_is_stable_only_with_an_alias() {
    assert!(SelectionSession::Stable(SessionAffinityAlias::from_host_hmac([7; 16])).is_stable());
    assert!(!SelectionSession::Absent.is_stable());
    assert!(SessionAffinityAlias::from_host_hmac([7; 16]) == SessionAffinityAlias::from_host_hmac([7; 16]));
    assert!(SessionAffinityAlias::from_host_hmac([7; 16]) != SessionAffinityAlias::from_host_hmac([8; 16]));
}
