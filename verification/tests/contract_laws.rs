use std::collections::HashSet;

use routing_core::contract::error::{IngressReject, NonceReject};
use routing_core::contract::ids::{IssuerEpoch, OneShotNonce, OperationId};
use routing_core::contract::operation::{
    BodyPolicy, LocalOperationAuthScope, QueryPolicy, RequestDispatchDomain, RequestKind, RouteSpec,
    RouteSpecRegistry,
};
use routing_core::contract::replay::{MemoryNonceStore, NonceNamespace};
use routing_core::contract::request::{HttpMethod, RawIngressRequest};

fn local_route(op: u64, path: &[u8], kind: RequestKind, scope: LocalOperationAuthScope) -> RouteSpec {
    RouteSpec::try_new(
        OperationId::new(op),
        HttpMethod::Get,
        path,
        QueryPolicy::Forbidden,
        BodyPolicy::Forbidden,
        kind,
        RequestDispatchDomain::Local,
        vec![],
        Some(scope),
    )
    .expect("test route spec is valid")
}

fn specs() -> Vec<RouteSpec> {
    vec![
        local_route(9, b"/status", RequestKind::LocalAdmin, LocalOperationAuthScope::LocalAdmin),
        local_route(2, b"/health", RequestKind::Liveness, LocalOperationAuthScope::PublicLiveness),
        local_route(5, b"/v1/models", RequestKind::UnifiedModelCatalog, LocalOperationAuthScope::LocalData),
    ]
}

#[test]
fn registry_digest_does_not_depend_on_input_order() {
    let forward = RouteSpecRegistry::compile(specs()).expect("the registry compiles");
    let mut reversed_specs = specs();
    reversed_specs.reverse();
    let reversed = RouteSpecRegistry::compile(reversed_specs).expect("the reversed registry compiles");
    assert_eq!(forward.digest().as_bytes(), reversed.digest().as_bytes());
    assert_eq!(forward.digest().as_bytes(), forward.digest().as_bytes());
    let other = RouteSpecRegistry::compile(vec![local_route(
        2,
        b"/health",
        RequestKind::Liveness,
        LocalOperationAuthScope::PublicLiveness,
    )])
    .expect("a one-route registry compiles");
    assert_ne!(forward.digest().as_bytes(), other.digest().as_bytes());
}

#[test]
fn declared_media_type_normalizes_to_a_fixed_point() {
    let first = BodyPolicy::bounded(1024, Some(b"Application/JSON".as_slice())).expect("a media type is accepted");
    let normalized = match first {
        BodyPolicy::Bounded { required_content_type: Some(ct), .. } => ct,
        _ => panic!("a bounded policy keeps its media type"),
    };
    assert_eq!(normalized, b"application/json".to_vec());
    let again = BodyPolicy::bounded(1024, Some(normalized.as_slice())).expect("the normalized type is accepted");
    match again {
        BodyPolicy::Bounded { required_content_type: Some(ct), .. } => assert_eq!(ct, normalized),
        _ => panic!("a bounded policy keeps its media type"),
    }
    assert!(matches!(BodyPolicy::bounded(1024, Some(b"json".as_slice())), Err(IngressReject::RouteSpecInvalid)));
}

#[test]
fn rejection_codes_are_pairwise_distinct() {
    let all = [
        IngressReject::RequestMalformed,
        IngressReject::RequestTooLarge,
        IngressReject::HeaderMalformed,
        IngressReject::ConflictingInboundAuthentication,
        IngressReject::ReservedProofHeader,
        IngressReject::RouteNotFound,
        IngressReject::MethodNotAllowed,
        IngressReject::QueryNotAllowed,
        IngressReject::ContentTypeNotAllowed,
        IngressReject::BodyNotAllowed,
        IngressReject::BodyLimitExceeded,
        IngressReject::RouteSpecInvalid,
        IngressReject::RegistryInvalid,
        IngressReject::ProofMalformed,
        IngressReject::AuthorizationBundleMalformed,
        IngressReject::CapabilityAuthorizationMalformed,
        IngressReject::MacInvalid,
        IngressReject::IssuerEpochUnknown,
        IngressReject::ScopeMismatch,
        IngressReject::AudienceMismatch,
        IngressReject::RegistryMismatch,
        IngressReject::OperationMismatch,
        IngressReject::DispatchDomainMismatch,
        IngressReject::RequestBindingMismatch,
        IngressReject::AuthorizationBindingMismatch,
        IngressReject::ActivationBindingMismatch,
        IngressReject::TimeWindowInvalid,
        IngressReject::InvalidNonce,
        IngressReject::NonceRejected,
        IngressReject::GatewayConsentInvalid,
        IngressReject::LocalScopeMismatch,
        IngressReject::CapabilityConstraintMismatch,
        IngressReject::ProofModeConflict,
        IngressReject::VerificationDomainMismatch,
        IngressReject::ClockUnavailable,
        IngressReject::InternalFailClosed,
    ];
    let codes: HashSet<&'static str> = all.iter().map(|e| e.code()).collect();
    assert_eq!(codes.len(), all.len());
}

#[test]
fn raw_request_path_is_the_absolute_target_before_the_query() {
    let request =
        RawIngressRequest::try_new(HttpMethod::Get, b"/v1/models?x=1", vec![], vec![]).expect("the request is valid");
    assert_eq!(request.target(), b"/v1/models?x=1");
    assert!(matches!(
        RawIngressRequest::try_new(HttpMethod::Get, b"v1/models", vec![], vec![]),
        Err(IngressReject::RequestMalformed)
    ));
    assert!(matches!(
        RawIngressRequest::try_new(HttpMethod::Get, b"", vec![], vec![]),
        Err(IngressReject::RequestMalformed)
    ));
}

#[test]
fn nonce_store_never_holds_a_key_twice() {
    let mut store = MemoryNonceStore::new(8).expect("the store is valid");
    let nonce = OneShotNonce::from_bytes([3; 16]).expect("the nonce is non-zero");
    assert!(store.consume(NonceNamespace::ManagedAttestation, IssuerEpoch::new(1), nonce, 2_000, 1_000).is_ok());
    assert!(matches!(
        store.consume(NonceNamespace::ManagedAttestation, IssuerEpoch::new(1), nonce, 2_000, 1_000),
        Err(NonceReject::Replayed)
    ));
    assert_eq!(store.len(), 1);
    assert!(store.consume(NonceNamespace::CapabilityAuthorization, IssuerEpoch::new(1), nonce, 2_000, 1_000).is_ok());
    assert_eq!(store.len(), 2);
}
