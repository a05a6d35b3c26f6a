use routing_core::{
    AccountSelectorId, EndpointId, ModelDeploymentId, PlanError, RouteCandidate, RoutePlanner,
    RouteStageId, RouteTarget, RouteTargetId, RoutingSnapshot, RoutingStrategy, SiteId,
    SnapshotVersion, MAX_ROUTE_TARGETS,
};

fn id<T>(value: u64, make: fn(u64) -> Option<T>) -> T {
    make(value).expect("test ids are non-zero")
}

fn target(value: u64, deployment: u64) -> RouteTarget {
    RouteTarget::new(
        id(value, RouteTargetId::new),
        id(value, SiteId::new),
        id(deployment, ModelDeploymentId::new),
        id(value, EndpointId::new),
        id(value, AccountSelectorId::new),
    )
}

fn candidate(stage: u64, value: u64, deployment: u64) -> RouteCandidate {
    RouteCandidate::ready(id(stage, RouteStageId::new), target(value, deployment), 0)
}

fn snapshot<'c>(
    candidates: &'c [RouteCandidate],
    strategy: RoutingStrategy,
    max: u8,
) -> RoutingSnapshot<'c> {
    RoutingSnapshot::new(id(1, SnapshotVersion::new), candidates, strategy, max)
        .expect("snapshot is valid")
}

#[test]
fn rejects_zero_identifiers_and_invalid_shape() {
    assert_eq!(RouteTargetId::new(0), None);
    assert_eq!(
        RoutingSnapshot::new(id(1, SnapshotVersion::new), &[], RoutingStrategy::Priority, 1).err(),
        Some(PlanError::NoCandidates)
    );
    assert_eq!(
        RoutingSnapshot::new(
            id(1, SnapshotVersion::new),
            &[candidate(1, 1, 1), candidate(1, 1, 2)],
            RoutingStrategy::Priority,
            2
        )
        .err(),
        Some(PlanError::DuplicateTarget)
    );
    assert_eq!(
        RoutingSnapshot::new(
            id(1, SnapshotVersion::new),
            &[candidate(1, 1, 1), candidate(2, 2, 1)],
            RoutingStrategy::Priority,
            2
        )
        .err(),
        Some(PlanError::DuplicateDeployment)
    );
    assert_eq!(
        RoutingSnapshot::new(
            id(1, SnapshotVersion::new),
            &[candidate(1, 1, 1), candidate(2, 2, 2), candidate(1, 3, 3)],
            RoutingStrategy::Priority,
            3
        )
        .err(),
        Some(PlanError::NonContiguousStage)
    );
}

#[test]
fn rejects_invalid_capacity_budget_and_empty_eligibility() {
    let one = [candidate(1, 1, 1)];
    assert_eq!(
        RoutingSnapshot::new(id(1, SnapshotVersion::new), &one, RoutingStrategy::Priority, 0).err(),
        Some(PlanError::InvalidMaxAttempts)
    );
    assert_eq!(
        RoutingSnapshot::new(id(1, SnapshotVersion::new), &one, RoutingStrategy::Priority, 17).err(),
        Some(PlanError::InvalidMaxAttempts)
    );
    let first = candidate(1, 1, 1);
    let too_many = [first; MAX_ROUTE_TARGETS + 1];
    assert_eq!(
        RoutingSnapshot::new(id(1, SnapshotVersion::new), &too_many, RoutingStrategy::Priority, 16)
            .err(),
        Some(PlanError::TooManyCandidates)
    );
    let two_stages = [candidate(1, 1, 1), candidate(2, 2, 2)];
    assert_eq!(
        RoutingSnapshot::new(id(1, SnapshotVersion::new), &two_stages, RoutingStrategy::Priority, 1)
            .err(),
        Some(PlanError::InsufficientMaxAttemptsForStages)
    );
    let unavailable = [RouteCandidate::disabled(id(1, RouteStageId::new), target(1, 1))];
    let snapshot = snapshot(&unavailable, RoutingStrategy::Priority, 1);
    assert_eq!(
        RoutePlanner::plan(&snapshot, 0).err(),
        Some(PlanError::NoEligibleTargets)
    );
}

#[test]
fn priority_and_fallback_are_stage_first() {
    let candidates = [
        RouteCandidate::cooling_down(id(1, RouteStageId::new), target(1, 1)),
        candidate(1, 2, 2),
        candidate(2, 3, 3),
    ];
    let snapshot = snapshot(&candidates, RoutingStrategy::Priority, 2);
    let plan = RoutePlanner::plan(&snapshot, 0).expect("plan is valid");
    assert_eq!(plan.len(), 2);
    assert_eq!(plan.stage_id(0).unwrap(), Some(id(1, RouteStageId::new)));
    assert_eq!(plan.target_id(0).unwrap(), Some(id(2, RouteTargetId::new)));
    assert_eq!(plan.target_id(1).unwrap(), Some(id(3, RouteTargetId::new)));
}

#[test]
fn round_robin_never_crosses_stage_boundary() {
    let candidates = [candidate(1, 1, 1), candidate(1, 2, 2), candidate(2, 3, 3)];
    let snapshot = snapshot(&candidates, RoutingStrategy::RoundRobin, 2);
    let plan = RoutePlanner::plan(&snapshot, 1).expect("plan is valid");
    assert_eq!(plan.target_id(0).unwrap(), Some(id(2, RouteTargetId::new)));
    assert_eq!(plan.target_id(1).unwrap(), Some(id(3, RouteTargetId::new)));
}

#[test]
fn least_penalty_is_local_to_stage() {
    let candidates = [
        RouteCandidate::ready(id(1, RouteStageId::new), target(1, 1), 9),
        RouteCandidate::ready(id(1, RouteStageId::new), target(2, 2), 2),
        candidate(2, 3, 3),
    ];
    let snapshot = snapshot(&candidates, RoutingStrategy::LeastPenalty, 2);
    let plan = RoutePlanner::plan(&snapshot, 0).expect("plan is valid");
    assert_eq!(plan.target_id(0).unwrap(), Some(id(2, RouteTargetId::new)));
    assert_eq!(plan.target_id(1).unwrap(), Some(id(3, RouteTargetId::new)));
    assert_eq!(plan.resolve(2).unwrap(), None);
}

#[test]
fn plan_stays_small_and_borrows_original_snapshot() {
    let candidates = [candidate(1, 1, 1)];
    let snapshot = snapshot(&candidates, RoutingStrategy::Priority, 1);
    let plan = RoutePlanner::plan(&snapshot, 0).expect("plan is valid");
    assert!(core::mem::size_of_val(&plan) <= 32);
    assert_eq!(plan.snapshot_version(), snapshot.version());
}

#[test]
fn identifiers_round_trip_their_value() {
    assert_eq!(SiteId::new(7).map(SiteId::get), Some(7));
    assert_eq!(ModelDeploymentId::new(0), None);
    let t = target(4, 9);
    assert_eq!(t.deployment().get(), 9);
    assert_eq!(t.site().get(), 4);
    assert_eq!(t.endpoint().get(), 4);
    assert_eq!(t.account_selector().get(), 4);
}

#[test]
fn least_penalty_ties_keep_declared_order_and_plan_is_bounded_by_budget() {
    let candidates = [
        RouteCandidate::ready(id(1, RouteStageId::new), target(1, 1), 3),
        RouteCandidate::ready(id(1, RouteStageId::new), target(2, 2), 3),
        candidate(2, 3, 3),
        candidate(3, 4, 4),
    ];
    let snapshot = snapshot(&candidates, RoutingStrategy::LeastPenalty, 3);
    let plan = RoutePlanner::plan(&snapshot, 0).expect("plan is valid");
    assert_eq!(plan.len(), 3);
    assert_eq!(plan.target_id(0).unwrap(), Some(id(1, RouteTargetId::new)));
    assert_eq!(plan.target_id(2).unwrap(), Some(id(4, RouteTargetId::new)));
    assert!(!plan.is_empty());
}
