//! A linear, bounded attempt coordinator over a `RoutePlan`.
//!
//! The chain uses ownership instead of global ids or locks: the plan issues the first
//! permit, the tracker consumes the permit, and the completion consumes the coordinator
//! state. At most one attempt is active at any time. This module performs no send, wait,
//! health update, credential change or same-stage reselection.
use vstd::prelude::*;

use crate::attempt::{decision_for, AttemptOutcome, AttemptTracker, ReplayDecision, ReplayStopReason};
use crate::ids::RouteStageId;
use crate::route::{PlanError, RoutePlan, RouteTarget};

verus! {

/// A stable reason why the coordinator stops advancing automatically.
#[derive(Clone, Copy, Debug, PartialEq, Eq, Structural)]
pub enum CoordinatorStopReason {
    /// The replay gate refused another send.
    ReplayDenied(ReplayStopReason),
    /// Every plan position was visited.
    PlanExhausted,
    /// The plan cannot resolve the next position and fails closed.
    InvalidPlan(PlanError),
}

/// The only step allowed after an attempt completes.
pub enum CoordinatorStep<'s, 'c> {
    /// A non-copyable permit for the next plan position.
    Next(AttemptPermit<'s, 'c>),
    /// The current request stops advancing automatically.
    Stop(CoordinatorStopReason),
}

/// A read-only description of one plan position.
#[derive(Clone, Copy, Debug, PartialEq, Eq, Structural)]
pub struct AttemptPosition {
    index: u8,
    stage: RouteStageId,
    target: RouteTarget,
}

impl AttemptPosition {
    /// The zero-based plan position.
    pub closed spec fn spec_index(self) -> u8 {
        self.index
    }

    /// The stage bound to the position.
    pub closed spec fn spec_stage(self) -> RouteStageId {
        self.stage
    }

    /// The concrete target bound to the position.
    pub closed spec fn spec_target(self) -> RouteTarget {
        self.target
    }

    /// Returns the zero-based plan position.
    pub fn index(self) -> (r: u8)
        ensures
            r == self.spec_index(),
    {
        self.index
    }

    /// Returns the stage bound to this attempt.
    pub fn stage(self) -> (r: RouteStageId)
        ensures
            r == self.spec_stage(),
    {
        self.stage
    }

    /// Returns the concrete target bound to this attempt.
    pub fn target(self) -> (r: RouteTarget)
        ensures
            r == self.spec_target(),
    {
        self.target
    }
}

/// The position that plan position `index` describes.
pub open spec fn describes_position(plan: RoutePlan, index: int, position: AttemptPosition) -> bool {
    let candidate = plan.spec_snapshot().spec_candidates()[plan.spec_positions()[index]];
    &&& position.spec_index() as int == index
    &&& position.spec_stage() == candidate.spec_stage()
    &&& position.spec_target() == candidate.spec_target()
}

/// A permit for one attempt, issued by the coordinator and consumable only once.
pub struct AttemptPermit<'s, 'c> {
    state: CoordinatorState<'s, 'c>,
    position: AttemptPosition,
}

impl<'s, 'c> AttemptPermit<'s, 'c> {
    #[verifier::type_invariant]
    closed spec fn inv(&self) -> bool {
        &&& (self.position.index as int) < self.state.plan.spec_positions().len()
        &&& self.state.plan.spec_positions().len() <= crate::MAX_ROUTE_TARGETS
    }

    /// The plan the permit belongs to.
    pub closed spec fn spec_plan(&self) -> RoutePlan<'s, 'c> {
        self.state.plan
    }

    /// The plan position the permit authorizes.
    pub closed spec fn spec_position(&self) -> AttemptPosition {
        self.position
    }

    /// Returns the authorized plan position.
    pub fn position(&self) -> (r: AttemptPosition)
        ensures
            r == self.spec_position(),
    {
        self.position
    }

    /// Consumes the permit and starts recording the attempt.
    pub fn begin(self) -> (t: AttemptTracker<'s, 'c>)
        ensures
            t.spec_permit() == self,
            t.spec_phase() == crate::attempt::SendPhase::Pending,
            t.spec_write() == crate::attempt::UpstreamWriteState::Unknown,
            t.spec_downstream() == crate::attempt::DownstreamCommitState::NotCommitted,
            !t.spec_cancelled(),
    {
        AttemptTracker::from_permit(self)
    }
}

/// Binds a permit to its unforgeable outcome.
pub struct AttemptCompletion<'s, 'c> {
    permit: AttemptPermit<'s, 'c>,
    outcome: AttemptOutcome,
}

impl<'s, 'c> AttemptCompletion<'s, 'c> {
    /// The permit of the completed attempt.
    pub closed spec fn spec_permit(&self) -> AttemptPermit<'s, 'c> {
        self.permit
    }

    /// The outcome of the completed attempt.
    pub closed spec fn spec_outcome(&self) -> AttemptOutcome {
        self.outcome
    }

    /// Binds a permit to an outcome.
    pub(crate) fn new(permit: AttemptPermit<'s, 'c>, outcome: AttemptOutcome) -> (r: Self)
        ensures
            r.spec_permit() == permit,
            r.spec_outcome() == outcome,
    {
        AttemptCompletion { permit, outcome }
    }

    /// Moves to the next plan position when the replay gate permits, or stops.
    pub fn advance(self) -> (r: CoordinatorStep<'s, 'c>)
        ensures
            ({
                let o = self.spec_outcome();
                let d = decision_for(
                    o.spec_failure(),
                    o.spec_phase(),
                    o.spec_downstream(),
                    o.spec_delivery(),
                    o.spec_cancelled(),
                );
                let plan = self.spec_permit().spec_plan();
                let next = self.spec_permit().spec_position().spec_index() + 1;
                &&& d matches ReplayDecision::Stop(reason) ==> r == CoordinatorStep::<'s, 'c>::Stop(
                    CoordinatorStopReason::ReplayDenied(reason),
                )
                &&& d is Permit && next >= plan.spec_positions().len() ==> r
                    == CoordinatorStep::<'s, 'c>::Stop(CoordinatorStopReason::PlanExhausted)
                &&& d is Permit && next < plan.spec_positions().len() ==> (r matches CoordinatorStep::Next(p)
                    && p.spec_plan() == plan && describes_position(plan, next, p.spec_position()))
            }),
    {
        proof {
            use_type_invariant(&self.permit);
        }
        match self.outcome.replay_decision() {
            ReplayDecision::Stop(reason) => CoordinatorStep::Stop(
                CoordinatorStopReason::ReplayDenied(reason),
            ),
            ReplayDecision::Permit(_) => match self.permit.position.index.checked_add(1) {
                Some(next_index) => self.permit.state.issue(next_index),
                None => CoordinatorStep::Stop(CoordinatorStopReason::InvalidPlan(PlanError::UnknownTarget)),
            },
        }
    }

    /// Returns the outcome of the attempt, consuming the completion.
    pub fn into_outcome(self) -> (r: AttemptOutcome)
        ensures
            r == self.spec_outcome(),
    {
        self.outcome
    }
}

/// The private state that consumes a plan and advances positions linearly.
struct CoordinatorState<'s, 'c> {
    plan: RoutePlan<'s, 'c>,
}

impl<'s, 'c> CoordinatorState<'s, 'c> {
    fn start(self) -> (r: Result<AttemptPermit<'s, 'c>, CoordinatorStopReason>)
        ensures
            self.plan.spec_positions().len() > 0 ==> (r matches Ok(p) && p.spec_plan() == self.plan
                && describes_position(self.plan, 0, p.spec_position())),
            self.plan.spec_positions().len() == 0 ==> r == Err::<AttemptPermit<'s, 'c>, CoordinatorStopReason>(
                CoordinatorStopReason::PlanExhausted,
            ),
    {
        match self.issue(0) {
            CoordinatorStep::Next(permit) => Ok(permit),
            CoordinatorStep::Stop(reason) => Err(reason),
        }
    }

    fn issue(self, index: u8) -> (r: CoordinatorStep<'s, 'c>)
        ensures
            (index as int) < self.plan.spec_positions().len() ==> (r matches CoordinatorStep::Next(p)
                && p.spec_plan() == self.plan && describes_position(self.plan, index as int, p.spec_position())),
            (index as int) >= self.plan.spec_positions().len() ==> r == CoordinatorStep::<'s, 'c>::Stop(
                CoordinatorStopReason::PlanExhausted,
            ),
    {
        let _ = self.plan.len();
        let stage = match self.plan.stage_id(index) {
            Ok(Some(stage)) => stage,
            Ok(None) => return CoordinatorStep::Stop(CoordinatorStopReason::PlanExhausted),
            Err(error) => return CoordinatorStep::Stop(CoordinatorStopReason::InvalidPlan(error)),
        };
        let target = match self.plan.resolve(index) {
            Ok(Some(target)) => target,
            Ok(None) => return CoordinatorStep::Stop(CoordinatorStopReason::PlanExhausted),
            Err(error) => return CoordinatorStep::Stop(CoordinatorStopReason::InvalidPlan(error)),
        };
        CoordinatorStep::Next(AttemptPermit { state: self, position: AttemptPosition { index, stage, target } })
    }
}

impl<'s, 'c> RoutePlan<'s, 'c> {
    /// Consumes the plan and issues the first linear attempt permit.
    pub fn start_attempts(self) -> (r: Result<AttemptPermit<'s, 'c>, CoordinatorStopReason>)
        ensures
            self.spec_positions().len() > 0 ==> (r matches Ok(p) && p.spec_plan() == self && describes_position(
                self,
                0,
                p.spec_position(),
            )),
            self.spec_positions().len() == 0 ==> r == Err::<AttemptPermit<'s, 'c>, CoordinatorStopReason>(
                CoordinatorStopReason::PlanExhausted,
            ),
    {
        CoordinatorState { plan: self }.start()
    }
}

} // verus!
