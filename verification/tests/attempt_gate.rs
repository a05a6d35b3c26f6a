use routing_core::{
    AccountSelectorId, AttemptFailure, AttemptOutcome, AttemptTracker, AttemptTransitionError,
    ChargeState, DeliveryState, EndpointId, ModelDeploymentId, ReplayDecision, ReplayPermitReason,
    ReplayStopReason, RouteCandidate, RoutePlanner, RouteStageId, RouteTarget, RouteTargetId,
    RoutingSnapshot, RoutingStrategy, SendPhase, SiteId, SnapshotVersion,
    TrustedPreExecutionRejection, UpstreamWriteState,
};

/// A tracker for the single position of a one-candidate plan.
fn tracker() -> AttemptTracker<'static, 'static> {
    let target = RouteTarget::new(
        RouteTargetId::new(1).unwrap(),
        SiteId::new(1).unwrap(),
        ModelDeploymentId::new(1).unwrap(),
        EndpointId::new(1).unwrap(),
        AccountSelectorId::new(1).unwrap(),
    );
    let candidates: &'static [RouteCandidate] =
        Box::leak(Box::new([RouteCandidate::ready(RouteStageId::new(1).unwrap(), target, 0)]));
    let snapshot: &'static RoutingSnapshot<'static> = Box::leak(Box::new(
        RoutingSnapshot::new(
            SnapshotVersion::new(1).unwrap(),
            candidates,
            RoutingStrategy::Priority,
            1,
        )
        .unwrap(),
    ));
    RoutePlanner::plan(snapshot, 0)
        .unwrap()
        .start_attempts()
        .unwrap()
        .begin()
}

fn outcome(tracker: AttemptTracker<'static, 'static>, failure: AttemptFailure, trusted: bool) -> AttemptOutcome {
    let rejection = if trusted {
        Some(TrustedPreExecutionRejection::issue_from_adapter_contract())
    } else {
        None
    };
    tracker.finish(failure, rejection).into_outcome()
}

#[test]
fn ordinary_429_or_503_never_self_authorizes_replay_after_write() {
    for failure in [AttemptFailure::RateLimited, AttemptFailure::Overloaded] {
        let mut tracker = tracker();
        tracker.request_write_started().unwrap();
        tracker.upstream_response_observed().unwrap();
        let outcome = outcome(tracker, failure, false);
        assert_eq!(outcome.delivery(), DeliveryState::DeliveryUnknown);
        assert_eq!(
            outcome.replay_decision(),
            ReplayDecision::Stop(ReplayStopReason::DeliveryUnknown)
        );
        assert_eq!(outcome.charge_state(), ChargeState::Unknown);
    }
}

#[test]
fn unproven_initial_write_state_fails_closed() {
    let outcome = outcome(tracker(), AttemptFailure::Transport, false);
    assert_eq!(outcome.write_state(), UpstreamWriteState::Unknown);
    assert_eq!(outcome.delivery(), DeliveryState::DeliveryUnknown);
    assert_eq!(outcome.charge_state(), ChargeState::Unknown);
    assert_eq!(
        outcome.replay_decision(),
        ReplayDecision::Stop(ReplayStopReason::DeliveryUnknown)
    );
}

#[test]
fn zero_write_proof_permits_a_new_independent_attempt() {
    let mut tracker = tracker();
    tracker.zero_bytes_proven().unwrap();
    let outcome = outcome(tracker, AttemptFailure::Transport, false);
    assert_eq!(outcome.delivery(), DeliveryState::NotSent);
    assert_eq!(
        outcome.replay_decision(),
        ReplayDecision::Permit(ReplayPermitReason::NotSent)
    );
    assert_eq!(outcome.charge_state(), ChargeState::NotCharged);
}

#[test]
fn trusted_pre_execution_rejection_is_the_only_written_request_exception() {
    let mut tracker = tracker();
    tracker.request_write_started().unwrap();
    tracker.upstream_response_observed().unwrap();
    let outcome = outcome(tracker, AttemptFailure::RateLimited, true);
    assert_eq!(outcome.delivery(), DeliveryState::PreExecutionRejected);
    assert_eq!(
        outcome.replay_decision(),
        ReplayDecision::Permit(ReplayPermitReason::PreExecutionRejected)
    );
}

#[test]
fn semantic_event_or_downstream_commit_always_stops() {
    let mut semantic = tracker();
    semantic.request_write_started().unwrap();
    semantic.upstream_response_observed().unwrap();
    semantic.first_semantic_event_observed().unwrap();
    let result = outcome(semantic, AttemptFailure::Protocol, true);
    assert_eq!(
        result.replay_decision(),
        ReplayDecision::Stop(ReplayStopReason::SemanticEventObserved)
    );

    let mut committed_after_cancel = tracker();
    committed_after_cancel.request_write_started().unwrap();
    committed_after_cancel.upstream_response_observed().unwrap();
    committed_after_cancel.first_semantic_event_observed().unwrap();
    committed_after_cancel.cancel().unwrap();
    committed_after_cancel.downstream_committed().unwrap();
    let result = outcome(committed_after_cancel, AttemptFailure::Cancelled, false);
    assert_eq!(
        result.replay_decision(),
        ReplayDecision::Stop(ReplayStopReason::DownstreamCommitted)
    );

    let mut committed = tracker();
    committed.request_write_started().unwrap();
    committed.upstream_response_observed().unwrap();
    committed.downstream_committed().unwrap();
    let result = outcome(committed, AttemptFailure::Unknown, false);
    assert_eq!(
        result.replay_decision(),
        ReplayDecision::Stop(ReplayStopReason::DownstreamCommitted)
    );
}

#[test]
fn zero_write_proof_takes_precedence_over_trusted_rejection() {
    let mut tracker = tracker();
    tracker.zero_bytes_proven().unwrap();
    let outcome = outcome(tracker, AttemptFailure::RateLimited, true);
    assert_eq!(outcome.delivery(), DeliveryState::NotSent);
    assert_eq!(outcome.charge_state(), ChargeState::NotCharged);
    assert_eq!(
        outcome.replay_decision(),
        ReplayDecision::Permit(ReplayPermitReason::NotSent)
    );
}

#[test]
fn unknown_write_state_and_cancel_fail_closed() {
    let mut unknown = tracker();
    unknown.write_state_unknown().unwrap();
    let result = outcome(unknown, AttemptFailure::Timeout, true);
    assert_eq!(
        result.replay_decision(),
        ReplayDecision::Stop(ReplayStopReason::DeliveryUnknown)
    );

    let mut cancelled = tracker();
    cancelled.cancel().unwrap();
    let result = outcome(cancelled, AttemptFailure::Cancelled, false);
    assert_eq!(
        result.replay_decision(),
        ReplayDecision::Stop(ReplayStopReason::Cancelled)
    );
}

#[test]
fn cancellation_never_erases_observed_semantics() {
    let mut tracker = tracker();
    tracker.request_write_started().unwrap();
    tracker.upstream_response_observed().unwrap();
    tracker.first_semantic_event_observed().unwrap();
    tracker.cancel().unwrap();
    let outcome = outcome(tracker, AttemptFailure::Cancelled, false);
    assert_eq!(outcome.phase(), SendPhase::FirstSemanticEventObserved);
    assert_eq!(outcome.delivery(), DeliveryState::DeliveryUnknown);
    assert_eq!(outcome.charge_state(), ChargeState::Unknown);
    assert_eq!(
        outcome.replay_decision(),
        ReplayDecision::Stop(ReplayStopReason::Cancelled)
    );
}

#[test]
fn transitions_and_runtime_state_stay_small() {
    let mut tracker = tracker();
    assert_eq!(
        tracker.first_semantic_event_observed(),
        Err(AttemptTransitionError::InvalidPhase)
    );
    tracker.request_write_started().unwrap();
    assert_eq!(
        tracker.request_write_started(),
        Err(AttemptTransitionError::InvalidPhase)
    );
    assert!(core::mem::size_of::<AttemptTracker<'_, '_>>() <= 96);
    assert!(core::mem::size_of::<AttemptOutcome>() <= 8);
}

#[test]
fn outcome_reports_failure_and_downstream_state() {
    let mut tracker = tracker();
    tracker.request_write_started().unwrap();
    tracker.upstream_response_observed().unwrap();
    assert_eq!(tracker.zero_bytes_proven(), Err(AttemptTransitionError::InvalidPhase));
    tracker.downstream_committed().unwrap();
    assert_eq!(tracker.cancel(), Err(AttemptTransitionError::InvalidPhase));
    assert_eq!(tracker.write_state_unknown(), Err(AttemptTransitionError::InvalidPhase));
    let outcome = outcome(tracker, AttemptFailure::Authentication, false);
    assert_eq!(outcome.failure(), AttemptFailure::Authentication);
    assert_eq!(
        outcome.downstream_state(),
        routing_core::DownstreamCommitState::Committed
    );
    assert_eq!(outcome.phase(), SendPhase::DownstreamCommitted);
}
