use routing_core::{
    AccountSelectorId, AttemptFailure, CoordinatorStep, CoordinatorStopReason, EndpointId,
    ModelDeploymentId, ReplayStopReason, RouteCandidate, RoutePlan, RoutePlanner, RouteStageId,
    RouteTarget, RouteTargetId, RoutingSnapshot, RoutingStrategy, SiteId, SnapshotVersion,
    TrustedPreExecutionRejection,
};

fn id<T>(value: u64, make: fn(u64) -> Option<T>) -> T {
    make(value).unwrap()
}

fn target(value: u64) -> RouteTarget {
    RouteTarget::new(
        id(value, RouteTargetId::new),
        id(value, SiteId::new),
        id(value, ModelDeploymentId::new),
        id(value, EndpointId::new),
        id(value, AccountSelectorId::new),
    )
}

fn plan<'s, 'c>(snapshot: &'s RoutingSnapshot<'c>) -> RoutePlan<'s, 'c> {
    RoutePlanner::plan(snapshot, 0).unwrap()
}

#[test]
fn safe_completions_advance_a_to_b_to_c_then_stop() {
    let candidates = [
        RouteCandidate::ready(id(1, RouteStageId::new), target(1), 0),
        RouteCandidate::ready(id(2, RouteStageId::new), target(2), 0),
        RouteCandidate::ready(id(3, RouteStageId::new), target(3), 0),
    ];
    let snapshot = RoutingSnapshot::new(
        id(1, SnapshotVersion::new),
        &candidates,
        RoutingStrategy::Priority,
        3,
    )
    .unwrap();
    let mut tracker = plan(&snapshot).start_attempts().unwrap().begin();
    assert_eq!(tracker.position().index(), 0);
    tracker.zero_bytes_proven().unwrap();
    let step = tracker.finish(AttemptFailure::Transport, None).advance();
    tracker = match step {
        CoordinatorStep::Next(p) => p.begin(),
        _ => panic!(),
    };
    assert_eq!(tracker.position().index(), 1);
    tracker.zero_bytes_proven().unwrap();
    let step = tracker.finish(AttemptFailure::Transport, None).advance();
    tracker = match step {
        CoordinatorStep::Next(p) => p.begin(),
        _ => panic!(),
    };
    assert_eq!(tracker.position().index(), 2);
    tracker.zero_bytes_proven().unwrap();
    match tracker.finish(AttemptFailure::Transport, None).advance() {
        CoordinatorStep::Stop(CoordinatorStopReason::PlanExhausted) => {}
        _ => panic!(),
    }
}

#[test]
fn delivery_unknown_stops_without_exposing_next_permit() {
    let candidates = [
        RouteCandidate::ready(id(1, RouteStageId::new), target(1), 0),
        RouteCandidate::ready(id(2, RouteStageId::new), target(2), 0),
    ];
    let snapshot = RoutingSnapshot::new(
        id(1, SnapshotVersion::new),
        &candidates,
        RoutingStrategy::Priority,
        2,
    )
    .unwrap();
    let mut tracker = plan(&snapshot).start_attempts().unwrap().begin();
    tracker.request_write_started().unwrap();
    match tracker.finish(AttemptFailure::RateLimited, None).advance() {
        CoordinatorStep::Stop(CoordinatorStopReason::ReplayDenied(
            ReplayStopReason::DeliveryUnknown,
        )) => {}
        _ => panic!(),
    }
}

#[test]
fn plan_identity_is_preserved_in_each_position() {
    let candidates = [RouteCandidate::ready(id(7, RouteStageId::new), target(9), 0)];
    let snapshot = RoutingSnapshot::new(
        id(5, SnapshotVersion::new),
        &candidates,
        RoutingStrategy::Priority,
        1,
    )
    .unwrap();
    let tracker = plan(&snapshot).start_attempts().unwrap().begin();
    assert_eq!(tracker.position().stage(), id(7, RouteStageId::new));
    assert_eq!(tracker.position().target().id(), id(9, RouteTargetId::new));
}

#[test]
fn trusted_pre_execution_rejection_advances_exactly_once() {
    let candidates = [
        RouteCandidate::ready(id(1, RouteStageId::new), target(1), 0),
        RouteCandidate::ready(id(2, RouteStageId::new), target(2), 0),
    ];
    let snapshot = RoutingSnapshot::new(
        id(1, SnapshotVersion::new),
        &candidates,
        RoutingStrategy::Priority,
        2,
    )
    .unwrap();
    let mut tracker = plan(&snapshot).start_attempts().unwrap().begin();
    tracker.request_write_started().unwrap();
    tracker.upstream_response_observed().unwrap();
    let step = tracker
        .finish(
            AttemptFailure::RateLimited,
            Some(TrustedPreExecutionRejection::issue_from_adapter_contract()),
        )
        .advance();
    let tracker = match step {
        CoordinatorStep::Next(permit) => permit.begin(),
        CoordinatorStep::Stop(_) => panic!(),
    };
    assert_eq!(tracker.position().index(), 1);
    assert_eq!(tracker.position().stage(), id(2, RouteStageId::new));
}

#[test]
fn semantic_event_then_cancel_stops_without_next_permit() {
    let candidates = [
        RouteCandidate::ready(id(1, RouteStageId::new), target(1), 0),
        RouteCandidate::ready(id(2, RouteStageId::new), target(2), 0),
    ];
    let snapshot = RoutingSnapshot::new(
        id(1, SnapshotVersion::new),
        &candidates,
        RoutingStrategy::Priority,
        2,
    )
    .unwrap();
    let mut tracker = plan(&snapshot).start_attempts().unwrap().begin();
    tracker.request_write_started().unwrap();
    tracker.upstream_response_observed().unwrap();
    tracker.first_semantic_event_observed().unwrap();
    tracker.cancel().unwrap();
    match tracker.finish(AttemptFailure::Cancelled, None).advance() {
        CoordinatorStep::Stop(CoordinatorStopReason::ReplayDenied(ReplayStopReason::Cancelled)) => {}
        _ => panic!(),
    }
}

#[test]
fn ownership_chain_state_stays_small() {
    assert!(core::mem::size_of::<RoutePlan<'_, '_>>() <= 32);
    assert!(core::mem::size_of::<routing_core::AttemptPermit<'_, '_>>() <= 88);
    assert!(core::mem::size_of::<routing_core::AttemptCompletion<'_, '_>>() <= 96);
}
