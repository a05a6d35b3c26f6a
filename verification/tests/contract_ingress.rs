use routing_core::contract::error::{IngressReject, NonceReject};
use routing_core::contract::ids::{IssuerEpoch, OneShotNonce, OperationId};
use routing_core::contract::operation::{
    BodyPolicy, LocalOperationAuthScope, QueryPolicy, RequestDispatchDomain, RequestKind, RouteSpec,
    RouteSpecRegistry,
};
use routing_core::contract::replay::{MemoryNonceStore, NonceNamespace};
use routing_core::contract::request::{HttpMethod, RawHeader, RawIngressRequest};

const NOW: u64 = 1_800_000_000_000;

trait ResultTestExt<T, E> {
    fn expect_error(self, message: &str) -> E;
}

impl<T, E> ResultTestExt<T, E> for Result<T, E> {
    fn expect_error(self, message: &str) -> E {
        match self {
            Ok(_) => panic!("{message}"),
            Err(error) => error,
        }
    }
}

fn operation(value: u64) -> OperationId {
    OperationId::new(value)
}

fn json_body_policy(max_bytes: usize) -> BodyPolicy {
    BodyPolicy::bounded(max_bytes, Some("application/json".as_bytes()))
        .expect("test body policy is valid")
}

fn header(name: &[u8], value: &[u8]) -> RawHeader {
    RawHeader::try_new(name, value).expect("test header is valid")
}

fn nonce(value: u8) -> OneShotNonce {
    OneShotNonce::from_bytes([value; 16]).expect("test nonce is non-zero")
}

fn spec(op: u64, method: HttpMethod, path: &[u8]) -> RouteSpec {
    RouteSpec::try_new(
        operation(op),
        method,
        path,
        QueryPolicy::Forbidden,
        BodyPolicy::Forbidden,
        RequestKind::UnifiedModelCatalog,
        RequestDispatchDomain::Local,
        vec![],
        Some(LocalOperationAuthScope::LocalData),
    )
    .expect("single route spec is valid")
}

#[test]
fn nonce_store_is_bounded_namespaced_and_fail_closed() {
    let mut store = MemoryNonceStore::new(1).expect("capacity one is valid");
    store
        .consume(NonceNamespace::ManagedAttestation, IssuerEpoch::new(1), nonce(30), NOW + 1_000, NOW)
        .expect("the first consumption passes");
    assert_eq!(store.len(), 1);
    assert_eq!(
        store
            .consume(NonceNamespace::ManagedAttestation, IssuerEpoch::new(1), nonce(30), NOW + 1_000, NOW)
            .expect_error("the same namespace, epoch and nonce must be a replay"),
        NonceReject::Replayed
    );
    assert_eq!(
        store
            .consume(
                NonceNamespace::CapabilityAuthorization,
                IssuerEpoch::new(1),
                nonce(30),
                NOW + 1_000,
                NOW,
            )
            .expect_error("a live entry is not evicted for another namespace"),
        NonceReject::CapacityExhausted
    );
    store
        .consume(
            NonceNamespace::CapabilityAuthorization,
            IssuerEpoch::new(1),
            nonce(31),
            NOW + 3_000,
            NOW + 2_000,
        )
        .expect("once the expired entry is dropped the new namespace passes");
}

#[test]
fn nonce_store_high_water_prevents_clock_rollback_replay() {
    let mut store = MemoryNonceStore::new(4).expect("capacity is valid");
    let replayed_nonce = nonce(33);
    store
        .consume(NonceNamespace::ManagedAttestation, IssuerEpoch::new(1), replayed_nonce, 200, 100)
        .expect("the first nonce passes");
    store
        .consume(NonceNamespace::ManagedAttestation, IssuerEpoch::new(1), nonce(34), 300, 201)
        .expect("raises the high-water mark and drops expired entries");
    assert_eq!(
        store
            .consume(NonceNamespace::ManagedAttestation, IssuerEpoch::new(1), replayed_nonce, 200, 150)
            .expect_error("a wall-clock rollback must not revive an expired nonce"),
        NonceReject::Expired
    );
}

#[test]
fn raw_request_and_route_spec_reject_smuggling_and_ambiguous_inputs() {
    assert_eq!(
        RawHeader::try_new("x-test".as_bytes(), b"ok\x01bad").expect_error("a C0 control byte is refused"),
        IngressReject::HeaderMalformed
    );
    assert_eq!(
        RawIngressRequest::try_new(
            HttpMethod::Post,
            b"/v1/messages",
            vec![header(b"authorization", b"a"), header(b"x-api-key", b"b")],
            vec![],
        )
        .expect_error("conflicting authentication input is refused"),
        IngressReject::ConflictingInboundAuthentication
    );
    assert_eq!(
        RawIngressRequest::try_new(
            HttpMethod::Post,
            b"/v1/messages",
            vec![header(b"x-bianma-ingress-mode", b"managed")],
            vec![],
        )
        .expect_error("a request cannot declare its own ingress mode"),
        IngressReject::ReservedProofHeader
    );
    assert_eq!(
        RawIngressRequest::try_new(HttpMethod::Post, b"/v1/%252fmessages", vec![], vec![])
            .expect_error("a doubly encoded path is refused"),
        IngressReject::RequestMalformed
    );
    assert_eq!(
        RawIngressRequest::try_new(
            HttpMethod::Post,
            b"/v1/messages",
            vec![header(b"content-length", b"1")],
            vec![],
        )
        .expect_error("a forged content length is refused"),
        IngressReject::RequestMalformed
    );
    assert_eq!(
        RouteSpec::try_new(
            operation(100),
            HttpMethod::Post,
            b"/unsafe",
            QueryPolicy::Forbidden,
            json_body_policy(100),
            RequestKind::ModelInference,
            RequestDispatchDomain::RoutedPolicy,
            vec![b"authorization".to_vec()],
            None,
        )
        .expect_error("an authentication header cannot become semantic input"),
        IngressReject::RouteSpecInvalid
    );
    assert_eq!(
        RouteSpec::try_new(
            operation(101),
            HttpMethod::Get,
            b"/unsafe-models",
            QueryPolicy::Forbidden,
            BodyPolicy::Forbidden,
            RequestKind::UnifiedModelCatalog,
            RequestDispatchDomain::Local,
            vec![],
            Some(LocalOperationAuthScope::PublicLiveness),
        )
        .expect_error("the model catalog cannot borrow the public liveness scope"),
        IngressReject::RouteSpecInvalid
    );
}

#[test]
fn raw_request_accepts_well_formed_input_and_keeps_it_unchanged() {
    let request = RawIngressRequest::try_new(
        HttpMethod::Post,
        b"/v1/messages?x=1",
        vec![header(b"Content-Type", b"application/json"), header(b"content-length", b"2")],
        b"{}".to_vec(),
    )
    .expect("request is well formed");
    assert_eq!(request.method(), HttpMethod::Post);
    assert_eq!(request.target(), b"/v1/messages?x=1");
    assert_eq!(request.body(), b"{}");
    assert_eq!(header(b"X-Client-Version", b" 1 ").name(), b"x-client-version");
    assert_eq!(header(b"X-Client-Version", b" 1 ").value(), b" 1 ");
    for bad in [
        b"relative".as_slice(),
        b"/a/./b",
        b"/a/../b",
        b"/a/..",
        b"/%2E%2E/x",
        b"/a#b",
        b"/a\\b",
        b"/a b",
    ] {
        assert_eq!(
            RawIngressRequest::try_new(HttpMethod::Get, bad, vec![], vec![]).expect_error("unsafe target"),
            IngressReject::RequestMalformed
        );
    }
    assert!(RawIngressRequest::try_new(HttpMethod::Get, b"/a?x=/./", vec![], vec![]).is_ok());
    assert_eq!(
        RawIngressRequest::try_new(
            HttpMethod::Post,
            b"/v1",
            vec![header(b"content-length", b"0"), header(b"content-length", b"0")],
            vec![],
        )
        .expect_error("duplicate content length"),
        IngressReject::HeaderMalformed
    );
    assert_eq!(
        RawIngressRequest::try_new(HttpMethod::Post, b"/v1", vec![header(b"upgrade", b"h2c")], vec![])
            .expect_error("hop-by-hop header"),
        IngressReject::HeaderMalformed
    );
    assert_eq!(
        RawIngressRequest::try_new(
            HttpMethod::Post,
            b"/v1",
            vec![header(b"content-type", b"a/b"), header(b"content-type", b"a/b")],
            vec![],
        )
        .expect_error("two content types"),
        IngressReject::HeaderMalformed
    );
    assert_eq!(IngressReject::HeaderMalformed.code(), "header_malformed");
    assert_eq!(NonceReject::Replayed.code(), "nonce_replayed");
    assert_eq!(OneShotNonce::from_bytes([0; 16]).err(), Some(IngressReject::InvalidNonce));
    assert_eq!(nonce(7).as_bytes(), &[7u8; 16]);
}

#[test]
fn registry_refuses_duplicates_and_digests_in_operation_order() {
    assert_eq!(
        RouteSpecRegistry::compile(vec![spec(1, HttpMethod::Get, b"/another"), spec(1, HttpMethod::Get, b"/models-2")])
            .expect_error("a duplicate operation id is refused"),
        IngressReject::RegistryInvalid
    );
    assert_eq!(
        RouteSpecRegistry::compile(vec![spec(1, HttpMethod::Get, b"/same"), spec(2, HttpMethod::Get, b"/same")])
            .expect_error("a duplicate route is refused"),
        IngressReject::RegistryInvalid
    );
    assert_eq!(RouteSpecRegistry::compile(vec![]).expect_error("empty"), IngressReject::RegistryInvalid);
    let forward = RouteSpecRegistry::compile(vec![spec(1, HttpMethod::Get, b"/a"), spec(2, HttpMethod::Get, b"/b")])
        .expect("registry is valid");
    let backward = RouteSpecRegistry::compile(vec![spec(2, HttpMethod::Get, b"/b"), spec(1, HttpMethod::Get, b"/a")])
        .expect("registry is valid");
    assert!(forward.digest() == backward.digest());
    let other = RouteSpecRegistry::compile(vec![spec(1, HttpMethod::Get, b"/a"), spec(3, HttpMethod::Get, b"/b")])
        .expect("registry is valid");
    assert!(forward.digest() != other.digest());
    let headers = RouteSpec::try_new(
        operation(9),
        HttpMethod::Post,
        b"/v1/messages",
        QueryPolicy::Forbidden,
        json_body_policy(10),
        RequestKind::ModelInference,
        RequestDispatchDomain::RoutedPolicy,
        vec![b"X-B".to_vec(), b"x-a".to_vec(), b"x-b".to_vec()],
        None,
    )
    .expect("semantic headers are valid");
    assert_eq!(headers.operation(), operation(9));
    assert_eq!(headers.kind(), RequestKind::ModelInference);
    assert_eq!(headers.dispatch_domain(), RequestDispatchDomain::RoutedPolicy);
    assert_eq!(BodyPolicy::bounded(0, None).err(), Some(IngressReject::RouteSpecInvalid));
    assert_eq!(
        BodyPolicy::bounded(10, Some(b"json".as_slice())).err(),
        Some(IngressReject::RouteSpecInvalid)
    );
}
