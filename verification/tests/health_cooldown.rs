use routing_core::{
    AccountSelectorId, EndpointId, HealthRegistry, HealthTick, IngressClassifier,
    IngressRequest, ModelDeploymentId, OperationId, PlanError, RateLimitScope, RouteCandidate,
    RoutePlanner, RouteStageId, RouteTarget, RouteTargetId, RoutingSnapshot, RoutingStrategy,
    SiteId, SnapshotVersion, VerifiedIngressDisposition, VerifiedRouteDispatch,
    MAX_HEALTH_DEPLOYMENTS,
};

fn site(value: u64) -> SiteId {
    SiteId::new(value).expect("test site id is non-zero")
}

fn deployment(value: u64) -> ModelDeploymentId {
    ModelDeploymentId::new(value).expect("test deployment id is non-zero")
}

fn target(value: u64, site_value: u64, deployment_value: u64) -> RouteTarget {
    RouteTarget::new(
        RouteTargetId::new(value).expect("test target id is non-zero"),
        site(site_value),
        deployment(deployment_value),
        EndpointId::new(value).expect("test endpoint id is non-zero"),
        AccountSelectorId::new(1).expect("test selector id is non-zero"),
    )
}

fn candidate(stage: u64, target_value: u64, site_value: u64, deployment_value: u64) -> RouteCandidate {
    RouteCandidate::ready(
        RouteStageId::new(stage).expect("test stage id is non-zero"),
        target(target_value, site_value, deployment_value),
        0,
    )
}

fn snapshot(candidates: &[RouteCandidate]) -> RoutingSnapshot<'_> {
    RoutingSnapshot::new(
        SnapshotVersion::new(1).expect("test snapshot version is non-zero"),
        candidates,
        RoutingStrategy::Priority,
        candidates.len() as u8,
    )
    .expect("test snapshot is valid")
}

fn routed(snapshot: &RoutingSnapshot<'_>) -> VerifiedRouteDispatch {
    let disposition = IngressClassifier::new()
        .classify(IngressRequest::routed(OperationId::conversation(), snapshot.version()))
        .expect("test routed request is valid");
    let VerifiedIngressDisposition::Routed(request) = disposition else {
        panic!("conversation must produce a routed dispatch");
    };
    request
}

fn record_test_rate_limit(
    registry: &mut HealthRegistry,
    target: RouteTarget,
    scope: RateLimitScope,
    deadline: HealthTick,
    now: HealthTick,
) {
    registry.record_rate_limit(target, scope, deadline, now);
}

#[test]
fn deployment_cooldown_only_blocks_matching_deployment() {
    let candidates = [candidate(1, 1, 1, 1), candidate(1, 2, 1, 2)];
    let snapshot = snapshot(&candidates);
    let mut registry = HealthRegistry::new();
    record_test_rate_limit(
        &mut registry,
        target(1, 1, 1),
        RateLimitScope::Deployment,
        HealthTick::new(10),
        HealthTick::new(1),
    );

    let eligibility = registry.eligibility_for(&snapshot, HealthTick::new(1));
    assert!(!eligibility.allows_index(0));
    assert!(eligibility.allows_index(1));
}

#[test]
fn site_and_unknown_cooldown_block_entire_site() {
    for scope in [RateLimitScope::Site, RateLimitScope::Unknown] {
        let candidates = [candidate(1, 1, 1, 1), candidate(1, 2, 1, 2), candidate(2, 3, 2, 3)];
        let snapshot = snapshot(&candidates);
        let mut registry = HealthRegistry::new();
        record_test_rate_limit(
            &mut registry,
            target(1, 1, 1),
            scope,
            HealthTick::new(10),
            HealthTick::new(1),
        );

        let eligibility = registry.eligibility_for(&snapshot, HealthTick::new(1));
        assert!(!eligibility.allows_index(0));
        assert!(!eligibility.allows_index(1));
        assert!(eligibility.allows_index(2));
    }
}

#[test]
fn rate_limit_observation_applies_across_snapshots_with_same_deployment() {
    let first_candidates = [candidate(1, 1, 1, 1)];
    let second_candidates = [candidate(1, 2, 1, 1)];
    let first_snapshot = snapshot(&first_candidates);
    let second_snapshot = snapshot(&second_candidates);
    let mut registry = HealthRegistry::new();

    record_test_rate_limit(
        &mut registry,
        target(1, 1, 1),
        RateLimitScope::Deployment,
        HealthTick::new(10),
        HealthTick::new(1),
    );

    assert!(!registry.eligibility_for(&first_snapshot, HealthTick::new(1)).allows_index(0));
    assert!(!registry.eligibility_for(&second_snapshot, HealthTick::new(1)).allows_index(0));
}

#[test]
fn cooldown_uses_maximum_exact_expiry_and_clamped_time() {
    let candidates = [candidate(1, 1, 1, 1)];
    let snapshot = snapshot(&candidates);
    let mut registry = HealthRegistry::new();
    record_test_rate_limit(
        &mut registry,
        target(1, 1, 1),
        RateLimitScope::Deployment,
        HealthTick::new(20),
        HealthTick::new(10),
    );
    record_test_rate_limit(
        &mut registry,
        target(1, 1, 1),
        RateLimitScope::Deployment,
        HealthTick::new(15),
        HealthTick::new(10),
    );
    assert!(!registry.eligibility_for(&snapshot, HealthTick::new(15)).allows_index(0));
    assert!(!registry.eligibility_for(&snapshot, HealthTick::new(12)).allows_index(0));
    assert!(registry.eligibility_for(&snapshot, HealthTick::new(20)).allows_index(0));
}

#[test]
fn expired_deadline_does_not_create_or_extend_cooldown() {
    let candidates = [candidate(1, 1, 1, 1)];
    let snapshot = snapshot(&candidates);
    let mut registry = HealthRegistry::new();
    let target = target(1, 1, 1);

    record_test_rate_limit(
        &mut registry,
        target,
        RateLimitScope::Deployment,
        HealthTick::new(10),
        HealthTick::new(10),
    );
    assert!(registry.eligibility_for(&snapshot, HealthTick::new(10)).allows_index(0));

    record_test_rate_limit(
        &mut registry,
        target,
        RateLimitScope::Deployment,
        HealthTick::new(20),
        HealthTick::new(10),
    );
    record_test_rate_limit(
        &mut registry,
        target,
        RateLimitScope::Deployment,
        HealthTick::new(10),
        HealthTick::new(10),
    );
    assert!(!registry.eligibility_for(&snapshot, HealthTick::new(10)).allows_index(0));
}

#[test]
fn full_registry_uses_global_overflow_cooldown() {
    let candidates = [candidate(1, 1, 1, 1)];
    let snapshot = snapshot(&candidates);
    let mut registry = HealthRegistry::new();
    for value in 2..=MAX_HEALTH_DEPLOYMENTS as u64 + 1 {
        record_test_rate_limit(
            &mut registry,
            target(value, value, value),
            RateLimitScope::Deployment,
            HealthTick::new(20),
            HealthTick::new(1),
        );
    }
    record_test_rate_limit(
        &mut registry,
        target(18, 18, 18),
        RateLimitScope::Deployment,
        HealthTick::new(30),
        HealthTick::new(1),
    );

    assert!(!registry.eligibility_for(&snapshot, HealthTick::new(1)).allows_index(0));
    assert!(registry.eligibility_for(&snapshot, HealthTick::new(30)).allows_index(0));
}

#[test]
fn planner_skips_site_cooled_stage_without_promoting_static_unavailable_target() {
    let first_stage = [candidate(1, 1, 1, 1), candidate(1, 2, 1, 2), candidate(2, 3, 2, 3)];
    let first_snapshot = snapshot(&first_stage);
    let mut registry = HealthRegistry::new();
    record_test_rate_limit(
        &mut registry,
        target(1, 1, 1),
        RateLimitScope::Site,
        HealthTick::new(10),
        HealthTick::new(1),
    );
    let eligibility = registry.eligibility_for(&first_snapshot, HealthTick::new(1));
    let plan = RoutePlanner::plan_with_eligibility(
        &routed(&first_snapshot),
        &first_snapshot,
        &eligibility,
        3,
    )
    .expect("the later site can still be planned");
    assert_eq!(plan.len(), 1);
    assert_eq!(
        plan.target_id(0),
        Ok(Some(RouteTargetId::new(3).expect("test target id is non-zero")))
    );

    let static_unavailable = [
        RouteCandidate::cooling_down(
            RouteStageId::new(1).expect("test stage id is non-zero"),
            target(1, 1, 1),
        ),
        candidate(1, 2, 1, 2),
    ];
    let static_snapshot = snapshot(&static_unavailable);
    let static_eligibility =
        HealthRegistry::new().eligibility_for(&static_snapshot, HealthTick::new(1));
    let static_plan = RoutePlanner::plan_with_eligibility(
        &routed(&static_snapshot),
        &static_snapshot,
        &static_eligibility,
        0,
    )
    .expect("the statically available target can still be planned");
    assert_eq!(
        static_plan.target_id(0),
        Ok(Some(RouteTargetId::new(2).expect("test target id is non-zero")))
    );
}

#[test]
fn planner_rejects_eligibility_from_same_version_other_candidate_identity() {
    let first_candidates = [candidate(1, 1, 1, 1)];
    let second_candidates = [candidate(1, 2, 1, 2)];
    let first = snapshot(&first_candidates);
    let second = snapshot(&second_candidates);
    let eligibility = HealthRegistry::new().eligibility_for(&first, HealthTick::new(1));

    assert!(matches!(
        RoutePlanner::plan_with_eligibility(&routed(&second), &second, &eligibility, 0),
        Err(PlanError::EligibilitySnapshotMismatch)
    ));
}

#[test]
fn planner_refuses_a_dispatch_bound_to_another_version_and_an_all_blocked_snapshot() {
    let candidates = [candidate(1, 1, 1, 1)];
    let first = snapshot(&candidates);
    let other_version = RoutingSnapshot::new(
        SnapshotVersion::new(2).expect("test snapshot version is non-zero"),
        &candidates,
        RoutingStrategy::Priority,
        1,
    )
    .expect("test snapshot is valid");
    let eligibility = HealthRegistry::new().eligibility_for(&first, HealthTick::new(1));
    assert!(matches!(
        RoutePlanner::plan_with_eligibility(&routed(&other_version), &first, &eligibility, 0),
        Err(PlanError::StaleSnapshot)
    ));

    let mut registry = HealthRegistry::default();
    registry.record_rate_limit(
        target(1, 1, 1),
        RateLimitScope::Unknown,
        HealthTick::new(50),
        HealthTick::new(40),
    );
    // A clock rollback is clamped to the largest tick seen, so the cooldown still holds.
    let blocked = registry.eligibility_for(&first, HealthTick::new(5));
    assert!(!blocked.allows_index(0));
    assert!(!blocked.allows_index(1));
    assert!(matches!(
        RoutePlanner::plan_with_eligibility(&routed(&first), &first, &blocked, 0),
        Err(PlanError::NoEligibleTargets)
    ));
    assert_eq!(HealthTick::new(7).get(), 7);
}
