use std::cell::Cell;
use std::rc::Rc;

use routing_core::classifier::{ClassifierRuntime, ClosedRequestClassifier};
use routing_core::clock::ClassifierClock;
use routing_core::contract::entry::{
    CapabilityVerificationKey, CapabilityVerificationKeyRing, FixedClock, IngressVerifier, ManagedVerificationKey,
    ManagedVerificationKeyRing,
};
use routing_core::contract::error::IngressReject;
use routing_core::contract::gates::ListenerBindingAuthority;
use routing_core::contract::ids::{
    AdapterVersion, AudienceId, AuthorizationBundleDigest, ClientFamilyId, ClientVersion, ConsentRevision,
    ContextPolicyVersion, IngressSchemaVersion, IngressTokenScopeId, IssuerEpoch, ListenerId, OperationId,
    RegistryDigest, RoutePolicyRevision, TransformOwnerId, TransformOwnerVersion,
};
use routing_core::contract::operation::{
    BodyPolicy, LocalOperationAuthScope, QueryPolicy, RequestDispatchDomain, RequestKind, RouteSpec,
    RouteSpecRegistry,
};
use routing_core::contract::replay::MemoryNonceStore;
use routing_core::contract::request::{HttpMethod, RawIngressRequest};
use routing_core::contract::verified::{VerifiedIngressReceiver, VerifiedIngressRequest};
use routing_core::disposition::VerifiedIngressDisposition;
use routing_core::error::{ProtocolNormalizeError, RouteReject};
use routing_core::normalizer::{
    ClientProtocolNormalizer, NormalizedRequestSemantic, NormalizerInput, ProtocolNormalizedRequest,
};
use routing_core::snapshot::{
    ClassifierIngressBinding, ClassifierManagedActivation, ClassifierManagedContext, ClassifierRequestBinding,
    ClassifierSnapshotAuthority, LocalSnapshot, SnapshotMode,
};

const NOW: u64 = 1_800_000_000_000;

/// What the test normalizer answers.
#[derive(Clone, Copy)]
enum Answer {
    Faithful,
    WrongSemantic,
    Refuse,
}

struct TestNormalizer {
    calls: Rc<Cell<usize>>,
    answer: Answer,
}

fn semantic_for(kind: RequestKind) -> NormalizedRequestSemantic {
    match kind {
        RequestKind::DeploymentModelProbe => NormalizedRequestSemantic::DeploymentModelProbe,
        RequestKind::ExactUpstreamTokenCount => NormalizedRequestSemantic::ExactUpstreamTokenCount,
        RequestKind::ModelInference => NormalizedRequestSemantic::ModelInference,
        RequestKind::AuxiliaryInference => NormalizedRequestSemantic::AuxiliaryInference,
        _ => NormalizedRequestSemantic::LocalOperation,
    }
}

impl ClientProtocolNormalizer for TestNormalizer {
    fn normalize(&self, input: NormalizerInput<'_>) -> Result<ProtocolNormalizedRequest, ProtocolNormalizeError> {
        self.calls.set(self.calls.get() + 1);
        match self.answer {
            Answer::Faithful => Ok(ProtocolNormalizedRequest::accept(&input, semantic_for(input.request_kind()))),
            Answer::WrongSemantic => Ok(ProtocolNormalizedRequest::accept(&input, NormalizedRequestSemantic::ModelInference)),
            Answer::Refuse => Err(ProtocolNormalizeError::UnsupportedFeature),
        }
    }
}

struct TestClock {
    now: Option<u64>,
}

impl ClassifierClock for TestClock {
    fn now_millis(&self) -> Result<u64, RouteReject> {
        self.now.ok_or(RouteReject::ClockUnavailable)
    }
}

fn route(op: u64, path: &[u8], kind: RequestKind, scope: LocalOperationAuthScope) -> RouteSpec {
    RouteSpec::try_new(
        OperationId::new(op),
        HttpMethod::Get,
        path,
        QueryPolicy::Forbidden,
        BodyPolicy::Forbidden,
        kind,
        RequestDispatchDomain::Local,
        vec![],
        Some(scope),
    )
    .expect("test route spec is valid")
}

fn registry() -> RouteSpecRegistry {
    RouteSpecRegistry::compile(vec![
        route(2, b"/health", RequestKind::Liveness, LocalOperationAuthScope::PublicLiveness),
        route(3, b"/status", RequestKind::LocalAdmin, LocalOperationAuthScope::LocalAdmin),
    ])
    .expect("test registry is valid")
}

struct Verification {
    verifier: IngressVerifier<FixedClock, MemoryNonceStore>,
    listeners: ListenerBindingAuthority,
    receiver: VerifiedIngressReceiver,
}

fn verification() -> Verification {
    let runtime = IngressVerifier::initialize(
        registry(),
        ManagedVerificationKeyRing::try_new(vec![
            ManagedVerificationKey::try_new(IssuerEpoch::new(1), [0x11; 32]).expect("managed key is valid"),
        ])
        .expect("managed key ring is valid"),
        CapabilityVerificationKeyRing::try_new(vec![
            CapabilityVerificationKey::try_new(IssuerEpoch::new(1), [0x21; 32]).expect("capability key is valid"),
        ])
        .expect("capability key ring is valid"),
        FixedClock::new(NOW),
        MemoryNonceStore::new(64).expect("nonce store is valid"),
    );
    let (verifier, listeners, _gateway, _managed, receiver) = runtime.into_parts();
    Verification { verifier, listeners, receiver }
}

fn local_request(path: &[u8]) -> RawIngressRequest {
    RawIngressRequest::try_new(HttpMethod::Get, path, vec![], vec![]).expect("test local request is valid")
}

fn verified_local(v: &Verification, path: &[u8], scope: LocalOperationAuthScope) -> VerifiedIngressRequest {
    let context = v.listeners.local(ListenerId::new(300), IngressTokenScopeId::new(301), scope);
    v.verifier.verify_local_operation(local_request(path), &context).expect("the local request verifies")
}

fn local_snapshot(request: &VerifiedIngressRequest, scope: LocalOperationAuthScope) -> SnapshotMode {
    SnapshotMode::Local(LocalSnapshot {
        request: ClassifierRequestBinding::of(request),
        auth_scope: scope,
        listener: ListenerId::new(300),
        token_scope: IngressTokenScopeId::new(301),
    })
}

type Classifier = ClosedRequestClassifier<TestNormalizer, TestClock>;

fn classifier_with(
    receiver: VerifiedIngressReceiver,
    digest: RegistryDigest,
    answer: Answer,
    now: Option<u64>,
) -> (Classifier, ClassifierSnapshotAuthority, Rc<Cell<usize>>) {
    let calls = Rc::new(Cell::new(0));
    let runtime = ClassifierRuntime::initialize(
        receiver,
        digest,
        TestNormalizer { calls: calls.clone(), answer },
        TestClock { now },
    )
    .unwrap_or_else(|_| panic!("the classifier runtime initializes"));
    let (classifier, authority) = runtime.into_parts();
    (classifier, authority, calls)
}

fn reject(result: Result<VerifiedIngressDisposition, RouteReject>) -> RouteReject {
    match result {
        Ok(_) => panic!("the classifier must refuse"),
        Err(e) => e,
    }
}

#[test]
fn classifier_local_liveness_reaches_the_local_handler_only() {
    let v = verification();
    let digest = v.verifier.registry_digest();
    let request = verified_local(&v, b"/health", LocalOperationAuthScope::PublicLiveness);
    let mode = local_snapshot(&request, LocalOperationAuthScope::PublicLiveness);
    let (classifier, authority, calls) = classifier_with(v.receiver, digest, Answer::Faithful, Some(NOW));
    let snapshot = authority.issue(mode);
    match classifier.classify(request, &snapshot) {
        Ok(VerifiedIngressDisposition::Local(local)) => {
            assert_eq!(local.auth_scope(), LocalOperationAuthScope::PublicLiveness);
            assert_eq!(local.operation(), OperationId::new(2));
            assert_eq!(local.request_kind(), RequestKind::Liveness);
            assert_eq!(local.dispatch_domain(), RequestDispatchDomain::Local);
            assert_eq!(local.target(), b"/health");
        }
        _ => panic!("a public liveness request is a local dispatch"),
    }
    assert_eq!(calls.get(), 1);
}

#[test]
fn classifier_registry_drift_fails_before_the_normalizer() {
    let v = verification();
    let request = verified_local(&v, b"/health", LocalOperationAuthScope::PublicLiveness);
    let mode = local_snapshot(&request, LocalOperationAuthScope::PublicLiveness);
    let (classifier, authority, calls) =
        classifier_with(v.receiver, RegistryDigest::from_bytes([7; 32]), Answer::Faithful, Some(NOW));
    let snapshot = authority.issue(mode);
    assert!(matches!(reject(classifier.classify(request, &snapshot)), RouteReject::RegistryMismatch));
    assert_eq!(calls.get(), 0);
}

#[test]
fn classifier_refuses_a_snapshot_of_another_runtime() {
    let v = verification();
    let digest = v.verifier.registry_digest();
    let request = verified_local(&v, b"/health", LocalOperationAuthScope::PublicLiveness);
    let other = verification();
    let (classifier, _authority, calls) = classifier_with(v.receiver, digest, Answer::Faithful, Some(NOW));
    let (_other_classifier, other_authority, _) = classifier_with(other.receiver, digest, Answer::Faithful, Some(NOW));
    let snapshot = other_authority.issue(local_snapshot(&request, LocalOperationAuthScope::PublicLiveness));
    assert!(matches!(reject(classifier.classify(request, &snapshot)), RouteReject::SnapshotDomainMismatch));
    assert_eq!(calls.get(), 0);
}

#[test]
fn classifier_refuses_a_snapshot_taken_for_another_request() {
    let v = verification();
    let digest = v.verifier.registry_digest();
    let health = verified_local(&v, b"/health", LocalOperationAuthScope::PublicLiveness);
    let status = verified_local(&v, b"/status", LocalOperationAuthScope::LocalAdmin);
    let (classifier, authority, calls) = classifier_with(v.receiver, digest, Answer::Faithful, Some(NOW));
    let snapshot = authority.issue(local_snapshot(&status, LocalOperationAuthScope::LocalAdmin));
    assert!(matches!(reject(classifier.classify(health, &snapshot)), RouteReject::SnapshotBindingMismatch));
    assert_eq!(calls.get(), 0);
}

#[test]
fn classifier_refuses_a_request_of_another_verifier() {
    let v = verification();
    let other = verification();
    let digest = v.verifier.registry_digest();
    let foreign = verified_local(&other, b"/health", LocalOperationAuthScope::PublicLiveness);
    let (classifier, authority, calls) = classifier_with(v.receiver, digest, Answer::Faithful, Some(NOW));
    let snapshot = authority.issue(local_snapshot(&foreign, LocalOperationAuthScope::PublicLiveness));
    assert!(matches!(
        reject(classifier.classify(foreign, &snapshot)),
        RouteReject::Ingress(IngressReject::VerificationDomainMismatch)
    ));
    assert_eq!(calls.get(), 0);
}

#[test]
fn classifier_reports_normalizer_refusal_and_binding_drift() {
    let v = verification();
    let digest = v.verifier.registry_digest();
    let request = verified_local(&v, b"/health", LocalOperationAuthScope::PublicLiveness);
    let mode = local_snapshot(&request, LocalOperationAuthScope::PublicLiveness);
    let (classifier, authority, _) = classifier_with(v.receiver, digest, Answer::Refuse, Some(NOW));
    let snapshot = authority.issue(mode);
    assert!(matches!(
        reject(classifier.classify(request, &snapshot)),
        RouteReject::Normalize(ProtocolNormalizeError::UnsupportedFeature)
    ));

    let w = verification();
    let digest = w.verifier.registry_digest();
    let request = verified_local(&w, b"/health", LocalOperationAuthScope::PublicLiveness);
    let mode = local_snapshot(&request, LocalOperationAuthScope::PublicLiveness);
    let (classifier, authority, _) = classifier_with(w.receiver, digest, Answer::WrongSemantic, Some(NOW));
    let snapshot = authority.issue(mode);
    assert!(matches!(reject(classifier.classify(request, &snapshot)), RouteReject::NormalizedBindingMismatch));
}

#[test]
fn classifier_fails_closed_without_a_clock() {
    let v = verification();
    let digest = v.verifier.registry_digest();
    let request = verified_local(&v, b"/health", LocalOperationAuthScope::PublicLiveness);
    let mode = local_snapshot(&request, LocalOperationAuthScope::PublicLiveness);
    let (classifier, authority, _) = classifier_with(v.receiver, digest, Answer::Faithful, None);
    let snapshot = authority.issue(mode);
    assert!(matches!(reject(classifier.classify(request, &snapshot)), RouteReject::ClockUnavailable));
}

#[test]
fn classifier_local_gate_refuses_a_foreign_scope() {
    let v = verification();
    let digest = v.verifier.registry_digest();
    let request = verified_local(&v, b"/health", LocalOperationAuthScope::PublicLiveness);
    let mode = local_snapshot(&request, LocalOperationAuthScope::LocalAdmin);
    let (classifier, authority, _) = classifier_with(v.receiver, digest, Answer::Faithful, Some(NOW));
    let snapshot = authority.issue(mode);
    assert!(matches!(reject(classifier.classify(request, &snapshot)), RouteReject::LocalScopeMismatch));
}

#[test]
fn classifier_refuses_a_mode_the_request_kind_does_not_allow() {
    let v = verification();
    let digest = v.verifier.registry_digest();
    let request = verified_local(&v, b"/health", LocalOperationAuthScope::PublicLiveness);
    let mode = SnapshotMode::ManagedRouted(ClassifierManagedContext {
        request: ClassifierRequestBinding::of(&request),
        ingress: ClassifierIngressBinding {
            listener: ListenerId::new(300),
            token_scope: IngressTokenScopeId::new(301),
            audience: AudienceId::new(1),
        },
        issuer_epoch: IssuerEpoch::new(1),
        authorization_bundle_digest: AuthorizationBundleDigest::from_bytes([1; 32]),
        route_policy_revision: RoutePolicyRevision::new(1),
        consent_revision: ConsentRevision::new(1),
        activation: ClassifierManagedActivation {
            client_family: ClientFamilyId::new(1),
            client_version: ClientVersion::new(1),
            adapter_version: AdapterVersion::new(1),
            ingress_schema_version: IngressSchemaVersion::new(1),
            context_policy_version: ContextPolicyVersion::new(1),
            transform_owner: TransformOwnerId::new(1),
            transform_owner_version: TransformOwnerVersion::new(1),
        },
    });
    let (classifier, authority, _) = classifier_with(v.receiver, digest, Answer::Faithful, Some(NOW));
    let snapshot = authority.issue(mode);
    assert!(matches!(reject(classifier.classify(request, &snapshot)), RouteReject::DispositionNotAllowed));
}

#[test]
fn classifier_runtime_refuses_an_all_zero_registry_digest() {
    let v = verification();
    let result = ClassifierRuntime::initialize(
        v.receiver,
        RegistryDigest::from_bytes([0; 32]),
        TestNormalizer { calls: Rc::new(Cell::new(0)), answer: Answer::Faithful },
        TestClock { now: Some(NOW) },
    );
    assert!(matches!(result, Err(RouteReject::InvalidSnapshot)));
}
