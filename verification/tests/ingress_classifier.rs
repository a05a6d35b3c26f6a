use routing_core::{
    ClassifyError, IngressClassifier, IngressRequest, ModelDeploymentId, OperationId,
    RequestDispatchDomain, RequestKind, RouteSpec, SnapshotVersion, VerifiedIngressDisposition,
    MAX_ROUTE_SPECS,
};

fn snapshot() -> SnapshotVersion {
    SnapshotVersion::new(1).expect("test snapshot is non-zero")
}

fn deployment() -> ModelDeploymentId {
    ModelDeploymentId::new(2).expect("test deployment is non-zero")
}

#[test]
fn builtin_specs_are_closed_and_explicit() {
    let spec = RouteSpec::lookup(OperationId::conversation()).expect("conversation is registered");
    assert_eq!(spec.kind(), RequestKind::ModelInference);
    assert_eq!(spec.domain(), RequestDispatchDomain::RoutedPolicy);
    let exact = RouteSpec::lookup(OperationId::exact_upstream_token_count())
        .expect("remote exact count is registered");
    assert_eq!(exact.kind(), RequestKind::ExactUpstreamTokenCount);
    assert_eq!(exact.domain(), RequestDispatchDomain::BoundDeployment);
    assert_eq!(MAX_ROUTE_SPECS, 10);
    assert!(RouteSpec::lookup(OperationId::new(99)).is_none());
}

#[test]
fn local_operation_cannot_carry_route_binding() {
    let classifier = IngressClassifier::new();
    assert!(matches!(
        classifier.classify(IngressRequest::new(OperationId::status())),
        Ok(VerifiedIngressDisposition::Local(_))
    ));
    assert!(matches!(
        classifier.classify(IngressRequest::routed(OperationId::status(), snapshot())),
        Err(ClassifyError::UnexpectedSnapshot)
    ));
}

#[test]
fn routed_operation_requires_snapshot_and_rejects_deployment_binding() {
    let classifier = IngressClassifier::new();
    assert!(matches!(
        classifier.classify(IngressRequest::new(OperationId::conversation())),
        Err(ClassifyError::MissingSnapshot)
    ));
    assert!(matches!(
        classifier.classify(IngressRequest::bound_deployment(
            OperationId::conversation(),
            deployment()
        )),
        Err(ClassifyError::UnexpectedDeployment)
    ));
    assert!(matches!(
        classifier.classify(IngressRequest::routed(OperationId::conversation(), snapshot())),
        Ok(VerifiedIngressDisposition::Routed(_))
    ));
}

#[test]
fn bound_deployment_operation_requires_exact_binding() {
    let classifier = IngressClassifier::new();
    assert!(matches!(
        classifier.classify(IngressRequest::new(OperationId::deployment_model_probe())),
        Err(ClassifyError::MissingDeployment)
    ));
    assert!(matches!(
        classifier.classify(IngressRequest::bound_deployment(
            OperationId::deployment_model_probe(),
            deployment()
        )),
        Ok(VerifiedIngressDisposition::BoundDeployment(_))
    ));
    assert!(matches!(
        classifier.classify(IngressRequest::bound_deployment(
            OperationId::exact_upstream_token_count(),
            deployment()
        )),
        Ok(VerifiedIngressDisposition::BoundDeployment(_))
    ));
}

#[test]
fn unknown_operation_is_default_denied() {
    let classifier = IngressClassifier::new();
    assert!(matches!(
        classifier.classify(IngressRequest::new(OperationId::new(255))),
        Err(ClassifyError::UnknownOperation)
    ));
    assert!(RouteSpec::lookup(OperationId::new(11)).is_none());
}

#[test]
fn dispositions_carry_the_verified_binding() {
    let classifier = IngressClassifier::default();
    match classifier.classify(IngressRequest::routed(OperationId::auxiliary_inference(), snapshot())) {
        Ok(VerifiedIngressDisposition::Routed(dispatch)) => {
            assert_eq!(dispatch.operation().get(), 10);
            assert_eq!(dispatch.snapshot(), snapshot());
        }
        _ => panic!("auxiliary inference is routed"),
    }
    match classifier.classify(IngressRequest::bound_deployment(
        OperationId::exact_upstream_token_count(),
        deployment(),
    )) {
        Ok(VerifiedIngressDisposition::BoundDeployment(dispatch)) => {
            assert_eq!(dispatch.operation(), OperationId::exact_upstream_token_count());
            assert_eq!(dispatch.deployment(), deployment());
        }
        _ => panic!("exact upstream count is bound to a deployment"),
    }
    match classifier.classify(IngressRequest::new(OperationId::liveness())) {
        Ok(VerifiedIngressDisposition::Local(dispatch)) => {
            assert_eq!(dispatch.operation(), OperationId::liveness());
            assert_eq!(dispatch.kind(), RequestKind::TransportControl);
        }
        _ => panic!("liveness is local"),
    }
    assert!(matches!(
        classifier.classify(IngressRequest::bound_deployment(OperationId::status(), deployment())),
        Err(ClassifyError::UnexpectedDeployment)
    ));
    assert!(matches!(
        classifier.classify(IngressRequest::routed(OperationId::deployment_model_probe(), snapshot())),
        Err(ClassifyError::UnexpectedSnapshot)
    ));
    for raw in 1..=10u8 {
        let spec = RouteSpec::lookup(OperationId::new(raw)).expect("table entry exists");
        assert_eq!(spec.operation().get(), raw);
    }
    assert!(RouteSpec::lookup(OperationId::new(0)).is_none());
    assert_eq!(IngressRequest::new(OperationId::status()).operation(), OperationId::status());
    assert_eq!(OperationId::unified_model_catalog().get(), 3);
    assert_eq!(OperationId::exact_local_token_count().get(), 4);
    assert_eq!(OperationId::estimated_local_token_count().get(), 5);
    assert_eq!(OperationId::local_context_compact().get(), 6);
}
