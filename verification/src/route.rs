//! Route targets, candidates, validated snapshots and the stage-first planner.
use vstd::prelude::*;

use crate::ids::{
    AccountSelectorId, EndpointId, ModelDeploymentId, RouteStageId, RouteTargetId, SiteId,
    SnapshotVersion,
};
use crate::health::RouteEligibility;
use crate::ingress::VerifiedRouteDispatch;
use crate::MAX_ROUTE_TARGETS;

verus! {

/// A target bound to a site, a concrete model deployment, an endpoint and an account
/// selection contract.
#[derive(Clone, Copy, Debug, PartialEq, Eq, Structural)]
pub struct RouteTarget {
    id: RouteTargetId,
    site: SiteId,
    deployment: ModelDeploymentId,
    endpoint: EndpointId,
    account_selector: AccountSelectorId,
}

impl RouteTarget {
    /// The target identifier.
    pub closed spec fn spec_id(self) -> RouteTargetId {
        self.id
    }

    /// The site of the target.
    pub closed spec fn spec_site(self) -> SiteId {
        self.site
    }

    /// The model deployment of the target.
    pub closed spec fn spec_deployment(self) -> ModelDeploymentId {
        self.deployment
    }

    /// The endpoint of the target.
    pub closed spec fn spec_endpoint(self) -> EndpointId {
        self.endpoint
    }

    /// The account selection contract of the target.
    pub closed spec fn spec_account_selector(self) -> AccountSelectorId {
        self.account_selector
    }

    /// Builds a target that an upper-layer compiler has already bound.
    pub fn new(
        id: RouteTargetId,
        site: SiteId,
        deployment: ModelDeploymentId,
        endpoint: EndpointId,
        account_selector: AccountSelectorId,
    ) -> (t: Self)
        ensures
            t.spec_id() == id,
            t.spec_site() == site,
            t.spec_deployment() == deployment,
            t.spec_endpoint() == endpoint,
            t.spec_account_selector() == account_selector,
    {
        RouteTarget { id, site, deployment, endpoint, account_selector }
    }

    /// Returns the target identifier.
    pub fn id(self) -> (r: RouteTargetId)
        ensures
            r == self.spec_id(),
    {
        self.id
    }

    /// Returns the site identifier.
    pub fn site(self) -> (r: SiteId)
        ensures
            r == self.spec_site(),
    {
        self.site
    }

    /// Returns the model deployment identifier.
    pub fn deployment(self) -> (r: ModelDeploymentId)
        ensures
            r == self.spec_deployment(),
    {
        self.deployment
    }

    /// Returns the endpoint identifier.
    pub fn endpoint(self) -> (r: EndpointId)
        ensures
            r == self.spec_endpoint(),
    {
        self.endpoint
    }

    /// Returns the account selection contract identifier.
    pub fn account_selector(self) -> (r: AccountSelectorId)
        ensures
            r == self.spec_account_selector(),
    {
        self.account_selector
    }
}

/// Selection state of a target inside the current snapshot.
#[derive(Clone, Copy, Debug, PartialEq, Eq, Structural)]
pub enum TargetState {
    /// Selectable; a smaller penalty is preferred.
    Ready {
        /// Bounded penalty computed by the upper-layer snapshot compiler.
        penalty: u16,
    },
    /// Temporarily not selectable.
    CoolingDown,
    /// Explicitly disabled by the user or configuration.
    Disabled,
}

/// A snapshot candidate bound to a stage.
#[derive(Clone, Copy, Debug, PartialEq, Eq, Structural)]
pub struct RouteCandidate {
    stage: RouteStageId,
    target: RouteTarget,
    state: TargetState,
}

impl RouteCandidate {
    /// The stage of the candidate.
    pub closed spec fn spec_stage(self) -> RouteStageId {
        self.stage
    }

    /// The target of the candidate.
    pub closed spec fn spec_target(self) -> RouteTarget {
        self.target
    }

    /// The selection state of the candidate.
    pub closed spec fn spec_state(self) -> TargetState {
        self.state
    }

    /// Builds a selectable candidate.
    pub fn ready(stage: RouteStageId, target: RouteTarget, penalty: u16) -> (c: Self)
        ensures
            c.spec_stage() == stage,
            c.spec_target() == target,
            c.spec_state() == (TargetState::Ready { penalty }),
    {
        RouteCandidate { stage, target, state: TargetState::Ready { penalty } }
    }

    /// Builds a cooling-down candidate.
    pub fn cooling_down(stage: RouteStageId, target: RouteTarget) -> (c: Self)
        ensures
            c.spec_stage() == stage,
            c.spec_target() == target,
            c.spec_state() == TargetState::CoolingDown,
    {
        RouteCandidate { stage, target, state: TargetState::CoolingDown }
    }

    /// Builds a disabled candidate.
    pub fn disabled(stage: RouteStageId, target: RouteTarget) -> (c: Self)
        ensures
            c.spec_stage() == stage,
            c.spec_target() == target,
            c.spec_state() == TargetState::Disabled,
    {
        RouteCandidate { stage, target, state: TargetState::Disabled }
    }

    /// Returns the stage identifier.
    pub fn stage(self) -> (r: RouteStageId)
        ensures
            r == self.spec_stage(),
    {
        self.stage
    }

    /// Returns the target.
    pub fn target(self) -> (r: RouteTarget)
        ensures
            r == self.spec_target(),
    {
        self.target
    }

    /// Returns the selection state.
    pub fn state(self) -> (r: TargetState)
        ensures
            r == self.spec_state(),
    {
        self.state
    }
}

/// Candidate selection strategy inside one stage.
#[derive(Clone, Copy, Debug, PartialEq, Eq, Structural)]
pub enum RoutingStrategy {
    /// Keeps the declared order of stages and candidates.
    Priority,
    /// Rotates only among the selectable candidates of the current stage.
    RoundRobin,
    /// Chooses inside the current stage by penalty, then declared order.
    LeastPenalty,
}

/// Why a snapshot or plan shape is refused.
#[derive(Clone, Copy, Debug, PartialEq, Eq, Structural)]
pub enum PlanError {
    /// The snapshot has no candidate.
    NoCandidates,
    /// The candidates exceed the fixed capacity.
    TooManyCandidates,
    /// The attempt budget is zero or exceeds the fixed capacity.
    InvalidMaxAttempts,
    /// The budget cannot cover every configured stage.
    InsufficientMaxAttemptsForStages,
    /// A target identifier occurs twice.
    DuplicateTarget,
    /// A model deployment identifier occurs twice.
    DuplicateDeployment,
    /// One stage occurs as several non-contiguous runs.
    NonContiguousStage,
    /// No target is selectable.
    NoEligibleTargets,
    /// A plan position cannot be resolved to a target.
    UnknownTarget,
    /// A target references a model deployment missing from the catalog.
    UnknownModelDeployment,
    /// A target's site differs from its deployment's site.
    TargetDeploymentSiteMismatch,
    /// A target's endpoint differs from its deployment's endpoint.
    TargetDeploymentEndpointMismatch,
    /// A target references an account selector missing from the catalog.
    UnknownAccountSelector,
    /// A selector member references an account missing from the catalog.
    UnknownAccount,
    /// A selector member references a credential missing from the catalog.
    UnknownCredential,
    /// A selector member's credential belongs to another account.
    CredentialAccountMismatch,
    /// A selector member's account belongs to another site than the deployment.
    AccountDeploymentSiteMismatch,
    /// The plan was produced from another snapshot instance.
    StaleSnapshot,
    /// The dynamic eligibility was produced for another snapshot instance.
    EligibilitySnapshotMismatch,
}

/// Whether candidate `i` starts a new run of stages.
pub open spec fn starts_stage(c: Seq<RouteCandidate>, i: int) -> bool {
    i == 0 || c[i - 1].spec_stage() != c[i].spec_stage()
}

/// The shape violation, if any, that candidate `i` shows against the candidates before it.
pub open spec fn violation_at(c: Seq<RouteCandidate>, i: int) -> Option<PlanError> {
    if exists|j: int| 0 <= j < i && #[trigger] c[j].spec_target().spec_id() == c[i].spec_target().spec_id() {
        Some(PlanError::DuplicateTarget)
    } else if exists|j: int|
        0 <= j < i && #[trigger] c[j].spec_target().spec_deployment() == c[i].spec_target().spec_deployment() {
        Some(PlanError::DuplicateDeployment)
    } else if starts_stage(c, i) && exists|j: int|
        0 <= j < i && #[trigger] c[j].spec_stage() == c[i].spec_stage() {
        Some(PlanError::NonContiguousStage)
    } else {
        None
    }
}

/// The first shape violation among the first `n` candidates, scanning in order.
pub open spec fn prefix_violation(c: Seq<RouteCandidate>, n: int) -> Option<PlanError>
    decreases n,
{
    if n <= 0 {
        None
    } else {
        match prefix_violation(c, n - 1) {
            Some(e) => Some(e),
            None => violation_at(c, n - 1),
        }
    }
}

/// Number of stage runs among the first `n` candidates.
pub open spec fn stage_count(c: Seq<RouteCandidate>, n: int) -> nat
    decreases n,
{
    if n <= 0 {
        0
    } else if starts_stage(c, n - 1) {
        stage_count(c, n - 1) + 1
    } else {
        stage_count(c, n - 1)
    }
}

/// The verdict of snapshot validation on candidates `c` with attempt budget `max_attempts`.
pub open spec fn snapshot_check(c: Seq<RouteCandidate>, max_attempts: u8) -> Result<(), PlanError> {
    if c.len() == 0 {
        Err(PlanError::NoCandidates)
    } else if c.len() > MAX_ROUTE_TARGETS {
        Err(PlanError::TooManyCandidates)
    } else if max_attempts == 0 || max_attempts > MAX_ROUTE_TARGETS {
        Err(PlanError::InvalidMaxAttempts)
    } else {
        match prefix_violation(c, c.len() as int) {
            Some(e) => Err(e),
            None => if (max_attempts as nat) < stage_count(c, c.len() as int) {
                Err(PlanError::InsufficientMaxAttemptsForStages)
            } else {
                Ok(())
            },
        }
    }
}

/// Candidates with pairwise distinct targets and deployments, each stage forming one run.
pub open spec fn well_shaped(c: Seq<RouteCandidate>) -> bool {
    &&& forall|i: int, j: int|
        0 <= i < j < c.len() ==> c[i].spec_target().spec_id() != c[j].spec_target().spec_id()
    &&& forall|i: int, j: int|
        0 <= i < j < c.len() ==> c[i].spec_target().spec_deployment()
            != c[j].spec_target().spec_deployment()
    &&& forall|i: int, j: int, k: int|
        0 <= i < j < k < c.len() && c[i].spec_stage() == c[k].spec_stage() ==> c[j].spec_stage()
            == c[i].spec_stage()
}

proof fn lemma_prefix_violation_sticks(c: Seq<RouteCandidate>, m: int, n: int)
    requires
        0 <= m <= n,
        prefix_violation(c, m) is Some,
    ensures
        prefix_violation(c, n) == prefix_violation(c, m),
    decreases n - m,
{
    if n > m {
        lemma_prefix_violation_sticks(c, m, n - 1);
    }
}

proof fn lemma_no_violation_prefix(c: Seq<RouteCandidate>, n: int, i: int)
    requires
        0 <= i < n,
        prefix_violation(c, n) is None,
    ensures
        violation_at(c, i) is None,
        prefix_violation(c, i) is None,
    decreases n - i,
{
    if i < n - 1 {
        lemma_no_violation_prefix(c, n - 1, i);
    }
}

/// Law: every snapshot that validation accepts has distinct targets, distinct deployments and
/// contiguous stages.
pub proof fn lemma_accepted_snapshot_is_well_shaped(c: Seq<RouteCandidate>, max_attempts: u8)
    requires
        snapshot_check(c, max_attempts) is Ok,
    ensures
        well_shaped(c),
{
    let n = c.len() as int;
    assert forall|i: int, j: int| 0 <= i < j < n implies c[i].spec_target().spec_id()
        != c[j].spec_target().spec_id() by {
        lemma_no_violation_prefix(c, n, j);
    }
    assert forall|i: int, j: int| 0 <= i < j < n implies c[i].spec_target().spec_deployment()
        != c[j].spec_target().spec_deployment() by {
        lemma_no_violation_prefix(c, n, j);
    }
    assert forall|i: int, j: int, k: int|
        0 <= i < j < k < n && c[i].spec_stage() == c[k].spec_stage() implies c[j].spec_stage()
        == c[i].spec_stage() by {
        if c[j].spec_stage() != c[i].spec_stage() {
            // Find the first index after i with another stage and the next index back in i's stage.
            lemma_stage_run_breaks(c, i, k, n);
        }
    }
}

proof fn lemma_stage_run_breaks(c: Seq<RouteCandidate>, i: int, k: int, n: int)
    requires
        0 <= i < k < n,
        n <= c.len(),
        prefix_violation(c, n) is None,
        c[i].spec_stage() == c[k].spec_stage(),
    ensures
        forall|j: int| i < j < k ==> c[j].spec_stage() == c[i].spec_stage(),
    decreases k - i,
{
    if k == i + 1 {
    } else {
        lemma_no_violation_prefix(c, n, k);
        if c[k - 1].spec_stage() != c[k].spec_stage() {
            // k starts a stage run but i holds the same stage before it.
            assert(starts_stage(c, k));
            assert(c[i].spec_stage() == c[k].spec_stage());
            assert(violation_at(c, k) is Some);
        }
        lemma_stage_run_breaks(c, i, k - 1, n);
    }
}

/// An immutable routing snapshot borrowing the caller's candidate array.
pub struct RoutingSnapshot<'c> {
    version: SnapshotVersion,
    candidates: &'c [RouteCandidate],
    strategy: RoutingStrategy,
    max_attempts: u8,
}

impl<'c> RoutingSnapshot<'c> {
    /// The snapshot version.
    pub closed spec fn spec_version(&self) -> SnapshotVersion {
        self.version
    }

    /// The candidates of the snapshot, in declared order.
    pub closed spec fn spec_candidates(&self) -> Seq<RouteCandidate> {
        self.candidates@
    }

    /// The selection strategy.
    pub closed spec fn spec_strategy(&self) -> RoutingStrategy {
        self.strategy
    }

    /// The maximum attempt budget.
    pub closed spec fn spec_max_attempts(&self) -> u8 {
        self.max_attempts
    }

    /// Every snapshot value satisfies the validation it was built under.
    #[verifier::type_invariant]
    closed spec fn inv(&self) -> bool {
        snapshot_check(self.candidates@, self.max_attempts) is Ok
    }

    /// Validates and builds a snapshot; the hot path only borrows the caller's memory.
    pub fn new(
        version: SnapshotVersion,
        candidates: &'c [RouteCandidate],
        strategy: RoutingStrategy,
        max_attempts: u8,
    ) -> (r: Result<Self, PlanError>)
        ensures
            snapshot_check(candidates@, max_attempts) is Ok <==> r is Ok,
            snapshot_check(candidates@, max_attempts) matches Err(e) ==> r == Err::<Self, PlanError>(e),
            r matches Ok(s) ==> {
                &&& s.spec_version() == version
                &&& s.spec_candidates() == candidates@
                &&& s.spec_strategy() == strategy
                &&& s.spec_max_attempts() == max_attempts
            },
    {
        let ghost c = candidates@;
        if candidates.len() == 0 {
            return Err(PlanError::NoCandidates);
        }
        if candidates.len() > MAX_ROUTE_TARGETS {
            return Err(PlanError::TooManyCandidates);
        }
        if max_attempts == 0 || max_attempts as usize > MAX_ROUTE_TARGETS {
            return Err(PlanError::InvalidMaxAttempts);
        }
        let n = candidates.len();
        let mut stages: usize = 0;
        let mut index: usize = 0;
        while index < n
            invariant
                n == c.len(),
                c == candidates@,
                n <= MAX_ROUTE_TARGETS,
                0 <= index <= n,
                prefix_violation(c, index as int) is None,
                1 <= max_attempts <= MAX_ROUTE_TARGETS,
                stages == stage_count(c, index as int),
                stages <= index,
            decreases n - index,
        {
            let candidate = candidates[index];
            let mut j: usize = 0;
            while j < index
                invariant
                    0 <= j <= index,
                    index < n,
                    n == c.len(),
                    c == candidates@,
                    candidate == c[index as int],
                    prefix_violation(c, index as int) is None,
                    n <= MAX_ROUTE_TARGETS,
                    1 <= max_attempts <= MAX_ROUTE_TARGETS,
                    forall|k: int|
                        0 <= k < j ==> c[k].spec_target().spec_id() != candidate.spec_target().spec_id(),
                decreases index - j,
            {
                if candidates[j].target.id == candidate.target.id {
                    proof {
                        assert(c[j as int].spec_target().spec_id() == c[index as int].spec_target().spec_id());
                        assert(violation_at(c, index as int) == Some(PlanError::DuplicateTarget));
                        assert(prefix_violation(c, index as int + 1) == Some(PlanError::DuplicateTarget));
                        lemma_prefix_violation_sticks(c, index as int + 1, n as int);
                        assert(snapshot_check(c, max_attempts) is Err);
                    }
                    return Err(PlanError::DuplicateTarget);
                }
                j += 1;
            }
            let mut j: usize = 0;
            while j < index
                invariant
                    0 <= j <= index,
                    index < n,
                    n == c.len(),
                    c == candidates@,
                    candidate == c[index as int],
                    prefix_violation(c, index as int) is None,
                    n <= MAX_ROUTE_TARGETS,
                    1 <= max_attempts <= MAX_ROUTE_TARGETS,
                    forall|k: int|
                        0 <= k < index ==> c[k].spec_target().spec_id() != candidate.spec_target().spec_id(),
                    forall|k: int|
                        0 <= k < j ==> c[k].spec_target().spec_deployment()
                            != candidate.spec_target().spec_deployment(),
                decreases index - j,
            {
                if candidates[j].target.deployment == candidate.target.deployment {
                    proof {
                        assert(c[j as int].spec_target().spec_deployment()
                            == c[index as int].spec_target().spec_deployment());
                        assert(violation_at(c, index as int) == Some(PlanError::DuplicateDeployment));
                        assert(prefix_violation(c, index as int + 1) == Some(PlanError::DuplicateDeployment));
                        lemma_prefix_violation_sticks(c, index as int + 1, n as int);
                        assert(snapshot_check(c, max_attempts) is Err);
                    }
                    return Err(PlanError::DuplicateDeployment);
                }
                j += 1;
            }
            if index == 0 || candidates[index - 1].stage != candidate.stage {
                let mut j: usize = 0;
                while j < index
                    invariant
                        0 <= j <= index,
                        index < n,
                        n == c.len(),
                        c == candidates@,
                        candidate == c[index as int],
                    prefix_violation(c, index as int) is None,
                    n <= MAX_ROUTE_TARGETS,
                    1 <= max_attempts <= MAX_ROUTE_TARGETS,
                        starts_stage(c, index as int),
                        forall|k: int|
                            0 <= k < index ==> c[k].spec_target().spec_id()
                                != candidate.spec_target().spec_id(),
                        forall|k: int|
                            0 <= k < index ==> c[k].spec_target().spec_deployment()
                                != candidate.spec_target().spec_deployment(),
                        forall|k: int| 0 <= k < j ==> c[k].spec_stage() != candidate.spec_stage(),
                    decreases index - j,
                {
                    if candidates[j].stage == candidate.stage {
                        proof {
                            assert(c[j as int].spec_stage() == c[index as int].spec_stage());
                            assert(violation_at(c, index as int) == Some(PlanError::NonContiguousStage));
                        assert(prefix_violation(c, index as int + 1) == Some(PlanError::NonContiguousStage));
                            lemma_prefix_violation_sticks(c, index as int + 1, n as int);
                        assert(snapshot_check(c, max_attempts) is Err);
                        }
                        return Err(PlanError::NonContiguousStage);
                    }
                    j += 1;
                }
                stages += 1;
            }
            assert(violation_at(c, index as int) is None);
            index += 1;
        }
        if (max_attempts as usize) < stages {
            return Err(PlanError::InsufficientMaxAttemptsForStages);
        }
        let s = RoutingSnapshot { version, candidates, strategy, max_attempts };
        Ok(s)
    }

    /// Returns the snapshot version.
    pub fn version(&self) -> (r: SnapshotVersion)
        ensures
            r == self.spec_version(),
    {
        self.version
    }

    /// Returns the strategy.
    pub fn strategy(&self) -> (r: RoutingStrategy)
        ensures
            r == self.spec_strategy(),
    {
        self.strategy
    }

    /// Returns the maximum attempt budget.
    pub fn max_attempts(&self) -> (r: u8)
        ensures
            r == self.spec_max_attempts(),
    {
        self.max_attempts
    }

    /// Returns the candidates in declared order.
    pub fn candidates(&self) -> (r: &'c [RouteCandidate])
        ensures
            r@ == self.spec_candidates(),
            snapshot_check(r@, self.spec_max_attempts()) is Ok,
            well_shaped(r@),
    {
        proof {
            use_type_invariant(self);
            lemma_accepted_snapshot_is_well_shaped(self.candidates@, self.max_attempts);
        }
        self.candidates
    }

    /// Returns the candidate at `index`, if any.
    pub fn candidate(&self, index: u8) -> (r: Option<RouteCandidate>)
        ensures
            r == (if (index as int) < self.spec_candidates().len() {
                Some(self.spec_candidates()[index as int])
            } else {
                None
            }),
    {
        if (index as usize) < self.candidates.len() {
            Some(self.candidates[index as usize])
        } else {
            None
        }
    }

    /// The index of the candidate that carries `target`, if any; target identifiers are
    /// unique within a snapshot.
    fn index_of(&self, target: RouteTargetId) -> (r: Option<usize>)
        ensures
            r is None <==> forall|i: int|
                0 <= i < self.spec_candidates().len() ==> #[trigger] self.spec_candidates()[i].spec_target().spec_id()
                    != target,
            r matches Some(k) ==> k < self.spec_candidates().len() && self.spec_candidates()[k as int].spec_target().spec_id()
                == target && forall|i: int|
                0 <= i < self.spec_candidates().len() && #[trigger] self.spec_candidates()[i].spec_target().spec_id()
                    == target ==> i == k,
    {
        proof {
            use_type_invariant(self);
            lemma_accepted_snapshot_is_well_shaped(self.candidates@, self.max_attempts);
        }
        let mut i: usize = 0;
        while i < self.candidates.len()
            invariant
                0 <= i <= self.candidates@.len(),
                well_shaped(self.candidates@),
                forall|k: int| 0 <= k < i ==> #[trigger] self.candidates@[k].spec_target().spec_id() != target,
            decreases self.candidates@.len() - i,
        {
            if self.candidates[i].target.id == target {
                assert(self.spec_candidates()[i as int].spec_target().spec_id() == target);
                return Some(i);
            }
            i += 1;
        }
        None
    }

    /// The stage of the candidate that carries `target`, if any.
    pub(crate) fn stage_for(&self, target: RouteTargetId) -> (r: Option<RouteStageId>)
        ensures
            r is None <==> forall|i: int|
                0 <= i < self.spec_candidates().len() ==> #[trigger] self.spec_candidates()[i].spec_target().spec_id()
                    != target,
            r matches Some(s) ==> forall|i: int|
                0 <= i < self.spec_candidates().len() && #[trigger] self.spec_candidates()[i].spec_target().spec_id()
                    == target ==> self.spec_candidates()[i].spec_stage() == s,
    {
        match self.index_of(target) {
            Some(k) => Some(self.candidates[k].stage),
            None => None,
        }
    }

    /// The target of the candidate that carries `target`, if any.
    pub(crate) fn resolve_target(&self, target: RouteTargetId) -> (r: Option<RouteTarget>)
        ensures
            r is None <==> forall|i: int|
                0 <= i < self.spec_candidates().len() ==> #[trigger] self.spec_candidates()[i].spec_target().spec_id()
                    != target,
            r matches Some(t) ==> forall|i: int|
                0 <= i < self.spec_candidates().len() && #[trigger] self.spec_candidates()[i].spec_target().spec_id()
                    == target ==> self.spec_candidates()[i].spec_target() == t,
    {
        match self.index_of(target) {
            Some(k) => Some(self.candidates[k].target),
            None => None,
        }
    }
}


/// The end (exclusive) of the run of `stage` that continues at index `e`.
pub open spec fn segment_end(c: Seq<RouteCandidate>, stage: RouteStageId, e: int) -> int
    decreases c.len() - e,
{
    if e < 0 || e >= c.len() || c[e].spec_stage() != stage {
        e
    } else {
        segment_end(c, stage, e + 1)
    }
}

/// Whether a candidate state is selectable.
pub open spec fn is_ready(state: TargetState) -> bool {
    state is Ready
}

/// The penalty of a selectable state (zero for the others).
pub open spec fn penalty_of(state: TargetState) -> u16 {
    match state {
        TargetState::Ready { penalty } => penalty,
        _ => 0,
    }
}

/// Whether bit `i` of an eligibility mask lets candidate `i` through.
pub open spec fn allowed(mask: u16, i: int) -> bool {
    0 <= i < 16 && (mask & (1u16 << (i as u16))) != 0
}

/// The eligibility mask that lets every candidate through.
pub open spec fn all_allowed() -> u16 {
    0xffffu16
}

/// Whether candidate `i` is selectable: statically ready and dynamically allowed.
pub open spec fn selectable(c: Seq<RouteCandidate>, mask: u16, i: int) -> bool {
    is_ready(c[i].spec_state()) && allowed(mask, i)
}

/// Indices in `[s, e)` of selectable candidates, in declared order.
pub open spec fn ready_in(c: Seq<RouteCandidate>, mask: u16, s: int, e: int) -> Seq<int>
    decreases e - s,
{
    if e <= s {
        Seq::empty()
    } else if selectable(c, mask, e - 1) {
        ready_in(c, mask, s, e - 1).push(e - 1)
    } else {
        ready_in(c, mask, s, e - 1)
    }
}

/// Position in `eligible` of the first candidate with the least penalty.
pub open spec fn least_pick(c: Seq<RouteCandidate>, eligible: Seq<int>) -> int
    decreases eligible.len(),
{
    if eligible.len() <= 1 {
        0
    } else {
        let k = least_pick(c, eligible.drop_last());
        if penalty_of(c[eligible.last()].spec_state()) < penalty_of(c[eligible[k]].spec_state()) {
            eligible.len() - 1
        } else {
            k
        }
    }
}

/// Position in the non-empty `eligible` that `strategy` chooses for `cursor`.
pub open spec fn pick(
    c: Seq<RouteCandidate>,
    eligible: Seq<int>,
    strategy: RoutingStrategy,
    cursor: u64,
) -> int {
    match strategy {
        RoutingStrategy::Priority => 0,
        RoutingStrategy::RoundRobin => (cursor as usize) as int % (eligible.len() as int),
        RoutingStrategy::LeastPenalty => least_pick(c, eligible),
    }
}

/// Plan positions produced from the stage run starting at `start`, appended to `acc`.
pub open spec fn plan_from(
    c: Seq<RouteCandidate>,
    mask: u16,
    strategy: RoutingStrategy,
    cursor: u64,
    max_attempts: int,
    start: int,
    acc: Seq<int>,
) -> Seq<int>
    decreases c.len() - start,
{
    if start < 0 || start >= c.len() || acc.len() >= max_attempts {
        acc
    } else {
        let e = segment_end(c, c[start].spec_stage(), start);
        let eligible = ready_in(c, mask, start, e);
        let next = if eligible.len() > 0 {
            acc.push(eligible[pick(c, eligible, strategy, cursor)])
        } else {
            acc
        };
        if e <= start || e > c.len() {
            next
        } else {
            plan_from(c, mask, strategy, cursor, max_attempts, e, next)
        }
    }
}

/// The candidate indices that a plan over `snapshot` with `cursor` visits, in order.
pub open spec fn planned_positions(snapshot: RoutingSnapshot, cursor: u64) -> Seq<int> {
    planned_within(snapshot, all_allowed(), cursor)
}

/// The candidate indices that a plan over `snapshot`, restricted to `mask`, visits in order.
pub open spec fn planned_within(snapshot: RoutingSnapshot, mask: u16, cursor: u64) -> Seq<int> {
    plan_from(
        snapshot.spec_candidates(),
        mask,
        snapshot.spec_strategy(),
        cursor,
        snapshot.spec_max_attempts() as int,
        0,
        Seq::empty(),
    )
}

proof fn lemma_segment_end_bounds(c: Seq<RouteCandidate>, stage: RouteStageId, e: int)
    requires
        0 <= e <= c.len(),
    ensures
        e <= segment_end(c, stage, e) <= c.len(),
        segment_end(c, stage, e) == c.len() || c[segment_end(c, stage, e)].spec_stage() != stage,
        forall|k: int| e <= k < segment_end(c, stage, e) ==> c[k].spec_stage() == stage,
    decreases c.len() - e,
{
    if e < c.len() && c[e].spec_stage() == stage {
        lemma_segment_end_bounds(c, stage, e + 1);
    }
}

proof fn lemma_ready_in_bounds(c: Seq<RouteCandidate>, mask: u16, s: int, e: int)
    requires
        0 <= s <= e <= c.len(),
    ensures
        ready_in(c, mask, s, e).len() <= e - s,
        forall|k: int| 0 <= k < ready_in(c, mask, s, e).len() ==> s <= #[trigger] ready_in(c, mask, s, e)[k] < e
            && selectable(c, mask, ready_in(c, mask, s, e)[k]),
        forall|k1: int, k2: int|
            0 <= k1 < k2 < ready_in(c, mask, s, e).len() ==> ready_in(c, mask, s, e)[k1] < ready_in(c, mask, s, e)[k2],
    decreases e - s,
{
    if e > s {
        lemma_ready_in_bounds(c, mask, s, e - 1);
    }
}

proof fn lemma_least_pick_bounds(c: Seq<RouteCandidate>, eligible: Seq<int>)
    ensures
        eligible.len() > 0 ==> 0 <= least_pick(c, eligible) < eligible.len(),
    decreases eligible.len(),
{
    if eligible.len() > 1 {
        lemma_least_pick_bounds(c, eligible.drop_last());
    }
}

#[derive(Clone, Copy)]
struct CandidateOrder {
    index: u8,
    penalty: u16,
}

/// A stateless, fixed-capacity, I/O-free stage-first planner.
pub struct RoutePlanner;

impl RoutePlanner {
    /// Issues at most one plan position for each stage that has a selectable target.
    pub fn plan<'s, 'c>(snapshot: &'s RoutingSnapshot<'c>, request_cursor: u64) -> (r: Result<
        RoutePlan<'s, 'c>,
        PlanError,
    >)
        ensures
            planned_positions(*snapshot, request_cursor).len() == 0 <==> r is Err,
            r is Err ==> r == Err::<RoutePlan<'s, 'c>, PlanError>(PlanError::NoEligibleTargets),
            r matches Ok(p) ==> {
                &&& p.spec_snapshot() == *snapshot
                &&& p.spec_positions() == planned_positions(*snapshot, request_cursor)
            },
    {
        Self::plan_within(snapshot, 0xffffu16, request_cursor)
    }

    /// Plans like `plan`, restricted to the candidates that dynamic eligibility still allows.
    ///
    /// The dispatch must name the snapshot's version and the eligibility must have been
    /// produced for this very snapshot; otherwise planning fails closed.
    pub fn plan_with_eligibility<'s, 'c>(
        dispatch: &VerifiedRouteDispatch,
        snapshot: &'s RoutingSnapshot<'c>,
        eligibility: &RouteEligibility<'_, 'c>,
        request_cursor: u64,
    ) -> (r: Result<RoutePlan<'s, 'c>, PlanError>)
        ensures
            dispatch.spec_snapshot() != snapshot.spec_version() ==> r == Err::<RoutePlan<'s, 'c>, PlanError>(
                PlanError::StaleSnapshot,
            ),
            dispatch.spec_snapshot() == snapshot.spec_version() && eligibility.spec_snapshot() != *snapshot
                ==> r == Err::<RoutePlan<'s, 'c>, PlanError>(PlanError::EligibilitySnapshotMismatch),
            r is Ok ==> dispatch.spec_snapshot() == snapshot.spec_version() && eligibility.spec_snapshot()
                == *snapshot,
            dispatch.spec_snapshot() == snapshot.spec_version() && eligibility.spec_snapshot() == *snapshot ==> (r
                == Err::<RoutePlan<'s, 'c>, PlanError>(PlanError::EligibilitySnapshotMismatch) || (r is Err
                <==> planned_within(*snapshot, eligibility.spec_mask(), request_cursor).len() == 0)),
            r matches Err(e) ==> e == PlanError::StaleSnapshot || e == PlanError::EligibilitySnapshotMismatch || e
                == PlanError::NoEligibleTargets,
            r matches Ok(p) ==> {
                &&& p.spec_snapshot() == *snapshot
                &&& p.spec_positions() == planned_within(*snapshot, eligibility.spec_mask(), request_cursor)
            },
    {
        if dispatch.snapshot() != snapshot.version {
            return Err(PlanError::StaleSnapshot);
        }
        if !eligibility.matches_snapshot(snapshot) {
            return Err(PlanError::EligibilitySnapshotMismatch);
        }
        Self::plan_within(snapshot, eligibility.mask(), request_cursor)
    }

    fn plan_within<'s, 'c>(snapshot: &'s RoutingSnapshot<'c>, mask: u16, request_cursor: u64) -> (r: Result<
        RoutePlan<'s, 'c>,
        PlanError,
    >)
        ensures
            planned_within(*snapshot, mask, request_cursor).len() == 0 <==> r is Err,
            r is Err ==> r == Err::<RoutePlan<'s, 'c>, PlanError>(PlanError::NoEligibleTargets),
            r matches Ok(p) ==> {
                &&& p.spec_snapshot() == *snapshot
                &&& p.spec_positions() == planned_within(*snapshot, mask, request_cursor)
            },
    {
        proof {
            use_type_invariant(snapshot);
        }
        let candidates = snapshot.candidates;
        let ghost c = candidates@;
        let ghost strategy = snapshot.strategy;
        let ghost max = snapshot.max_attempts as int;
        let n = candidates.len();
        let max_attempts = snapshot.max_attempts as usize;
        let mut target_indices: [u8; MAX_ROUTE_TARGETS] = [u8::MAX; MAX_ROUTE_TARGETS];
        let mut len: usize = 0;
        let mut stage_start: usize = 0;
        proof {
            assert(target_indices@.take(0).map_values(|x: u8| x as int) =~= Seq::<int>::empty());
        }
        while stage_start < n && len < max_attempts
            invariant
                c == candidates@,
                n == c.len(),
                1 <= n <= MAX_ROUTE_TARGETS,
                max == max_attempts,
                max_attempts <= MAX_ROUTE_TARGETS,
                strategy == snapshot.spec_strategy(),
                c == snapshot.spec_candidates(),
                max == snapshot.spec_max_attempts(),
                0 <= stage_start <= n,
                len <= max_attempts,
                forall|k: int| 0 <= k < len ==> (target_indices@[k] as int) < n,
                planned_within(*snapshot, mask, request_cursor) == plan_from(
                    c,
                    mask,
                    strategy,
                    request_cursor,
                    max,
                    stage_start as int,
                    target_indices@.take(len as int).map_values(|x: u8| x as int),
                ),
            decreases n - stage_start,
        {
            let stage = candidates[stage_start].stage;
            let mut stage_end: usize = stage_start;
            let mut orders: Vec<CandidateOrder> = Vec::new();
            proof {
                lemma_segment_end_bounds(c, stage, stage_start as int);
            }
            while stage_end < n && candidates[stage_end].stage == stage
                invariant
                    c == candidates@,
                    n == c.len(),
                    n <= MAX_ROUTE_TARGETS,
                    stage_start < n,
                    stage == c[stage_start as int].spec_stage(),
                    stage_start <= stage_end <= n,
                    segment_end(c, stage, stage_start as int) == segment_end(c, stage, stage_end as int),
                    orders.len() == ready_in(c, mask, stage_start as int, stage_end as int).len(),
                    forall|k: int|
                        0 <= k < orders.len() ==> (#[trigger] orders@[k]).index as int == ready_in(
                            c,
                            mask,
                            stage_start as int,
                            stage_end as int,
                        )[k] && orders@[k].penalty == penalty_of(c[orders@[k].index as int].spec_state()),
                decreases n - stage_end,
            {
                proof {
                    lemma_ready_in_bounds(c, mask, stage_start as int, stage_end as int);
                }
                if let TargetState::Ready { penalty } = candidates[stage_end].state {
                    if mask & (1u16 << (stage_end as u16)) != 0 {
                        orders.push(CandidateOrder { index: stage_end as u8, penalty });
                    }
                }
                stage_end += 1;
            }
            proof {
                lemma_segment_end_bounds(c, stage, stage_end as int);
                lemma_segment_end_bounds(c, stage, stage_start as int);
                lemma_ready_in_bounds(c, mask, stage_start as int, stage_end as int);
            }
            let ghost eligible_spec = ready_in(c, mask, stage_start as int, stage_end as int);
            let ghost acc = target_indices@.take(len as int).map_values(|x: u8| x as int);
            let eligible = orders.len();
            if eligible > 0 {
                let chosen: usize = match snapshot.strategy {
                    RoutingStrategy::Priority => 0,
                    RoutingStrategy::RoundRobin => (request_cursor as usize) % eligible,
                    RoutingStrategy::LeastPenalty => {
                        let mut best: usize = 0;
                        let mut k: usize = 1;
                        while k < eligible
                            invariant
                                1 <= k <= eligible,
                                eligible == orders.len(),
                                eligible == eligible_spec.len(),
                                best < k,
                                best == least_pick(c, eligible_spec.take(k as int)),
                                forall|q: int|
                                    0 <= q < orders.len() ==> (#[trigger] orders@[q]).index as int
                                        == eligible_spec[q] && orders@[q].penalty == penalty_of(
                                        c[orders@[q].index as int].spec_state(),
                                    ),
                            decreases eligible - k,
                        {
                            proof {
                                assert(eligible_spec.take(k as int + 1).drop_last() =~= eligible_spec.take(
                                    k as int,
                                ));
                            }
                            if orders[k].penalty < orders[best].penalty {
                                best = k;
                            }
                            k += 1;
                        }
                        proof {
                            assert(eligible_spec.take(eligible as int) =~= eligible_spec);
                        }
                        best
                    },
                };
                proof {
                    lemma_least_pick_bounds(c, eligible_spec);
                    assert(chosen == pick(c, eligible_spec, strategy, request_cursor));
                }
                let index = orders[chosen].index;
                target_indices[len] = index;
                len += 1;
                proof {
                    assert(target_indices@.take(len as int).map_values(|x: u8| x as int) =~= acc.push(
                        eligible_spec[chosen as int],
                    ));
                }
            }
            stage_start = stage_end;
        }
        if len == 0 {
            proof {
                assert(target_indices@.take(len as int).map_values(|x: u8| x as int) =~= Seq::<int>::empty());
            }
            return Err(PlanError::NoEligibleTargets);
        }
        proof {
            assert(plan_from(
                c,
                mask,
                strategy,
                request_cursor,
                max,
                stage_start as int,
                target_indices@.take(len as int).map_values(|x: u8| x as int),
            ) == target_indices@.take(len as int).map_values(|x: u8| x as int));
        }
        Ok(RoutePlan { snapshot, target_indices, len: len as u8 })
    }
}

/// Whether two snapshot references denote one instance, by `core::ptr::eq`.
///
/// Trusted: one address holds one value, so a `true` answer implies equal snapshots. Two
/// distinct instances may hold equal values and still compare unequal; nothing is stated of
/// `false`.
#[verifier::external_body]
pub(crate) fn same_snapshot<'c>(a: &RoutingSnapshot<'c>, b: &RoutingSnapshot<'c>) -> (r: bool)
    ensures
        r ==> *a == *b,
{
    core::ptr::eq(a, b)
}

/// A fixed-capacity plan bound to the snapshot that produced it.
pub struct RoutePlan<'s, 'c> {
    snapshot: &'s RoutingSnapshot<'c>,
    target_indices: [u8; MAX_ROUTE_TARGETS],
    len: u8,
}

impl<'s, 'c> RoutePlan<'s, 'c> {
    /// The snapshot the plan was produced from.
    pub closed spec fn spec_snapshot(&self) -> RoutingSnapshot<'c> {
        *self.snapshot
    }

    /// Candidate indices of the plan positions, in attempt order.
    pub closed spec fn spec_positions(&self) -> Seq<int> {
        self.target_indices@.take(self.len as int).map_values(|x: u8| x as int)
    }

    #[verifier::type_invariant]
    closed spec fn inv(&self) -> bool {
        &&& 1 <= self.len as int <= MAX_ROUTE_TARGETS
        &&& self.snapshot.candidates@.len() <= MAX_ROUTE_TARGETS
        &&& forall|k: int|
            0 <= k < self.len ==> (#[trigger] self.target_indices@[k] as int)
                < self.snapshot.candidates@.len()
    }

    /// The snapshot instance the plan is bound to.
    pub(crate) fn snapshot_ref(&self) -> (r: &'s RoutingSnapshot<'c>)
        ensures
            *r == self.spec_snapshot(),
    {
        self.snapshot
    }

    /// Returns the snapshot version.
    pub fn snapshot_version(&self) -> (r: SnapshotVersion)
        ensures
            r == self.spec_snapshot().spec_version(),
    {
        self.snapshot.version
    }

    /// Returns the number of plan positions.
    pub fn len(&self) -> (r: u8)
        ensures
            r as int == self.spec_positions().len(),
            1 <= r <= MAX_ROUTE_TARGETS,
    {
        proof {
            use_type_invariant(self);
        }
        self.len
    }

    /// Whether the plan has no position; a plan from `RoutePlanner::plan` never has none.
    pub fn is_empty(&self) -> (r: bool)
        ensures
            r == (self.spec_positions().len() == 0),
            !r,
    {
        proof {
            use_type_invariant(self);
        }
        self.len == 0
    }

    fn target_index(&self, attempt_index: u8) -> (r: Result<Option<u8>, PlanError>)
        ensures
            r == (if (attempt_index as int) < self.spec_positions().len() {
                Ok::<Option<u8>, PlanError>(Some(self.spec_positions()[attempt_index as int] as u8))
            } else {
                Ok(None)
            }),
            r matches Ok(Some(i)) ==> (i as int) < self.spec_snapshot().spec_candidates().len(),
    {
        proof {
            use_type_invariant(self);
        }
        if attempt_index >= self.len {
            return Ok(None);
        }
        let index = self.target_indices[attempt_index as usize];
        if index == u8::MAX {
            return Err(PlanError::UnknownTarget);
        }
        Ok(Some(index))
    }

    /// Returns the stage of the given attempt, or `None` past the end of the plan.
    pub fn stage_id(&self, attempt_index: u8) -> (r: Result<Option<RouteStageId>, PlanError>)
        ensures
            r == (if (attempt_index as int) < self.spec_positions().len() {
                Ok::<Option<RouteStageId>, PlanError>(Some(
                    self.spec_snapshot().spec_candidates()[self.spec_positions()[attempt_index as int]].spec_stage(),
                ))
            } else {
                Ok(None)
            }),
    {
        let index = match self.target_index(attempt_index) {
            Ok(Some(index)) => index,
            Ok(None) => return Ok(None),
            Err(e) => return Err(e),
        };
        match self.snapshot.candidate(index) {
            Some(candidate) => Ok(Some(candidate.stage)),
            None => Err(PlanError::UnknownTarget),
        }
    }

    /// Returns the target of the given attempt, or `None` past the end of the plan.
    pub fn resolve(&self, attempt_index: u8) -> (r: Result<Option<RouteTarget>, PlanError>)
        ensures
            (attempt_index as int) < self.spec_positions().len() ==> 0 <= self.spec_positions()[attempt_index as int]
                < self.spec_snapshot().spec_candidates().len(),
            r == (if (attempt_index as int) < self.spec_positions().len() {
                Ok::<Option<RouteTarget>, PlanError>(Some(
                    self.spec_snapshot().spec_candidates()[self.spec_positions()[attempt_index as int]].spec_target(),
                ))
            } else {
                Ok(None)
            }),
    {
        let index = match self.target_index(attempt_index) {
            Ok(Some(index)) => index,
            Ok(None) => return Ok(None),
            Err(e) => return Err(e),
        };
        match self.snapshot.candidate(index) {
            Some(candidate) => Ok(Some(candidate.target)),
            None => Err(PlanError::UnknownTarget),
        }
    }

    /// Returns the target identifier of the given attempt, or `None` past the end of the plan.
    pub fn target_id(&self, attempt_index: u8) -> (r: Result<Option<RouteTargetId>, PlanError>)
        ensures
            r == (if (attempt_index as int) < self.spec_positions().len() {
                Ok::<Option<RouteTargetId>, PlanError>(Some(
                    self.spec_snapshot().spec_candidates()[self.spec_positions()[attempt_index as int]].spec_target().spec_id(),
                ))
            } else {
                Ok(None)
            }),
    {
        match self.resolve(attempt_index) {
            Ok(Some(target)) => Ok(Some(target.id)),
            Ok(None) => Ok(None),
            Err(e) => Err(e),
        }
    }
}


/// Plan positions that are in bounds, selectable, strictly increasing and from distinct stages.
pub open spec fn positions_ok(c: Seq<RouteCandidate>, mask: u16, p: Seq<int>, bound: int) -> bool {
    &&& forall|k: int| 0 <= k < p.len() ==> 0 <= #[trigger] p[k] < bound && selectable(c, mask, p[k])
    &&& forall|k1: int, k2: int|
        0 <= k1 < k2 < p.len() ==> p[k1] < p[k2] && c[p[k1]].spec_stage() != c[p[k2]].spec_stage()
}

proof fn lemma_ready_in_empty(c: Seq<RouteCandidate>, mask: u16, s: int, e: int)
    requires
        0 <= s <= e <= c.len(),
    ensures
        ready_in(c, mask, s, e).len() == 0 <==> forall|k: int| s <= k < e ==> !#[trigger] selectable(c, mask, k),
    decreases e - s,
{
    if e > s {
        lemma_ready_in_empty(c, mask, s, e - 1);
        lemma_ready_in_bounds(c, mask, s, e - 1);
    }
}

proof fn lemma_boundary_separates(c: Seq<RouteCandidate>, start: int, a: int, x: int)
    requires
        well_shaped(c),
        0 <= a < start <= x < c.len(),
        starts_stage(c, start),
    ensures
        c[a].spec_stage() != c[x].spec_stage(),
{
    if c[a].spec_stage() == c[x].spec_stage() {
        if a < start - 1 {
            assert(c[start - 1].spec_stage() == c[a].spec_stage());
        }
        if start < x {
            assert(c[start].spec_stage() == c[a].spec_stage());
        }
    }
}

proof fn lemma_plan_from_shape(
    c: Seq<RouteCandidate>,
    mask: u16,
    strategy: RoutingStrategy,
    cursor: u64,
    max_attempts: int,
    start: int,
    acc: Seq<int>,
)
    requires
        well_shaped(c),
        0 <= start <= c.len(),
        start < c.len() ==> starts_stage(c, start),
        positions_ok(c, mask, acc, start),
        acc.len() <= max_attempts,
    ensures
        positions_ok(c, mask, plan_from(c, mask, strategy, cursor, max_attempts, start, acc), c.len() as int),
        plan_from(c, mask, strategy, cursor, max_attempts, start, acc).len() <= max_attempts,
        acc.len() <= plan_from(c, mask, strategy, cursor, max_attempts, start, acc).len(),
        acc.len() == 0 && max_attempts >= 1 ==> (plan_from(c, mask, strategy, cursor, max_attempts, start, acc).len()
            == 0 <==> forall|k: int| start <= k < c.len() ==> !#[trigger] selectable(c, mask, k)),
    decreases c.len() - start,
{
    if start >= c.len() || acc.len() >= max_attempts {
    } else {
        let stage = c[start].spec_stage();
        let e = segment_end(c, stage, start);
        lemma_segment_end_bounds(c, stage, start);
        lemma_ready_in_bounds(c, mask, start, e);
        lemma_ready_in_empty(c, mask, start, e);
        let eligible = ready_in(c, mask, start, e);
        let next = if eligible.len() > 0 {
            acc.push(eligible[pick(c, eligible, strategy, cursor)])
        } else {
            acc
        };
        if eligible.len() > 0 {
            lemma_least_pick_bounds(c, eligible);
            let q = pick(c, eligible, strategy, cursor);
            assert(0 <= q < eligible.len());
            let x = eligible[q];
            assert forall|k: int| 0 <= k < acc.len() implies c[acc[k]].spec_stage() != c[x].spec_stage() by {
                lemma_boundary_separates(c, start, acc[k], x);
            }
            assert(positions_ok(c, mask, next, e));
        }
        lemma_plan_from_shape(c, mask, strategy, cursor, max_attempts, e, next);
        if acc.len() == 0 && max_attempts >= 1 {
            assert((forall|k: int| start <= k < c.len() ==> !#[trigger] selectable(c, mask, k)) <==> (
            eligible.len() == 0 && forall|k: int| e <= k < c.len() ==> !#[trigger] selectable(c, mask, k)));
        }
    }
}

/// Every candidate slot of a snapshot is let through by the full mask.
proof fn lemma_all_allowed(i: int)
    requires
        0 <= i < 16,
    ensures
        allowed(all_allowed(), i),
{
    let b = i as u16;
    assert(b < 16);
    assert(0xffffu16 & (1u16 << b) != 0) by (bit_vector)
        requires
            b < 16,
    ;
}

/// Law: a plan restricted to an eligibility mask visits stages in declared order, takes at
/// most one selectable candidate from each stage, never takes a candidate that the mask or the
/// static state excludes, never exceeds the attempt budget, and is empty exactly when no
/// candidate of the snapshot is selectable.
pub proof fn lemma_eligible_plan_is_stage_first(
    c: Seq<RouteCandidate>,
    mask: u16,
    strategy: RoutingStrategy,
    cursor: u64,
    max_attempts: u8,
)
    requires
        snapshot_check(c, max_attempts) is Ok,
    ensures
        positions_ok(c, mask, plan_from(c, mask, strategy, cursor, max_attempts as int, 0, Seq::empty()), c.len() as int),
        plan_from(c, mask, strategy, cursor, max_attempts as int, 0, Seq::empty()).len() <= max_attempts,
        plan_from(c, mask, strategy, cursor, max_attempts as int, 0, Seq::empty()).len() == 0 <==> forall|k: int|
            0 <= k < c.len() ==> !#[trigger] selectable(c, mask, k),
{
    lemma_accepted_snapshot_is_well_shaped(c, max_attempts);
    lemma_plan_from_shape(c, mask, strategy, cursor, max_attempts as int, 0, Seq::empty());
}

/// Law: a plan visits stages in declared order, takes at most one selectable candidate from
/// each stage, never exceeds the attempt budget, and is empty exactly when no candidate of the
/// snapshot is selectable.
pub proof fn lemma_plan_is_stage_first(c: Seq<RouteCandidate>, strategy: RoutingStrategy, cursor: u64, max_attempts: u8)
    requires
        snapshot_check(c, max_attempts) is Ok,
    ensures
        positions_ok(c, all_allowed(), plan_from(c, all_allowed(), strategy, cursor, max_attempts as int, 0, Seq::empty()), c.len() as int),
        plan_from(c, all_allowed(), strategy, cursor, max_attempts as int, 0, Seq::empty()).len() <= max_attempts,
        plan_from(c, all_allowed(), strategy, cursor, max_attempts as int, 0, Seq::empty()).len() == 0 <==> forall|k: int|
            0 <= k < c.len() ==> !is_ready(#[trigger] c[k].spec_state()),
{
    lemma_eligible_plan_is_stage_first(c, all_allowed(), strategy, cursor, max_attempts);
    lemma_accepted_snapshot_is_well_shaped(c, max_attempts);
    assert forall|k: int| 0 <= k < c.len() implies (selectable(c, all_allowed(), k) <==> is_ready(
        #[trigger] c[k].spec_state(),
    )) by {
        lemma_all_allowed(k);
    }
}


/// A plan continued from a stage keeps the positions already planned.
proof fn lemma_plan_from_extends(
    c: Seq<RouteCandidate>,
    mask: u16,
    strategy: RoutingStrategy,
    cursor: u64,
    max_attempts: int,
    start: int,
    acc: Seq<int>,
)
    ensures
        acc.len() <= plan_from(c, mask, strategy, cursor, max_attempts, start, acc).len(),
        forall|k: int| 0 <= k < acc.len() ==> #[trigger] plan_from(c, mask, strategy, cursor, max_attempts, start, acc)[k]
            == acc[k],
    decreases c.len() - start,
{
    if !(start < 0 || start >= c.len() || acc.len() >= max_attempts) {
        let e = segment_end(c, c[start].spec_stage(), start);
        let eligible = ready_in(c, mask, start, e);
        let next = if eligible.len() > 0 {
            acc.push(eligible[pick(c, eligible, strategy, cursor)])
        } else {
            acc
        };
        if !(e <= start || e > c.len()) {
            lemma_plan_from_extends(c, mask, strategy, cursor, max_attempts, e, next);
            assert forall|k: int| 0 <= k < acc.len() implies #[trigger] plan_from(
                c,
                mask,
                strategy,
                cursor,
                max_attempts,
                start,
                acc,
            )[k] == acc[k] by {
                assert(next[k] == acc[k]);
            }
        }
    }
}

/// The first candidate with the least penalty: no selectable candidate has a smaller
/// penalty, and every earlier one has a larger penalty.
proof fn lemma_least_pick_is_least(c: Seq<RouteCandidate>, eligible: Seq<int>)
    requires
        eligible.len() > 0,
    ensures
        0 <= least_pick(c, eligible) < eligible.len(),
        forall|i: int| 0 <= i < eligible.len() ==> penalty_of(c[eligible[least_pick(c, eligible)]].spec_state())
            <= penalty_of(#[trigger] c[eligible[i]].spec_state()),
        forall|i: int| 0 <= i < least_pick(c, eligible) ==> penalty_of(c[eligible[least_pick(c, eligible)]].spec_state())
            < penalty_of(#[trigger] c[eligible[i]].spec_state()),
    decreases eligible.len(),
{
    if eligible.len() > 1 {
        let d = eligible.drop_last();
        lemma_least_pick_is_least(c, d);
        let k = least_pick(c, d);
        let m = least_pick(c, eligible);
        let pk = penalty_of(c[eligible[k]].spec_state());
        let last = eligible.len() - 1;
        assert(d[k] == eligible[k]);
        assert forall|i: int| 0 <= i < eligible.len() implies penalty_of(c[eligible[m]].spec_state()) <= penalty_of(
            #[trigger] c[eligible[i]].spec_state(),
        ) by {
            if i < last {
                assert(d[i] == eligible[i]);
                assert(pk <= penalty_of(c[d[i]].spec_state()));
            }
        }
        assert forall|i: int| 0 <= i < m implies penalty_of(c[eligible[m]].spec_state()) < penalty_of(
            #[trigger] c[eligible[i]].spec_state(),
        ) by {
            assert(d[i] == eligible[i]);
            if m == last {
                assert(pk <= penalty_of(c[d[i]].spec_state()));
            } else {
                assert(penalty_of(c[d[k]].spec_state()) < penalty_of(c[d[i]].spec_state()));
            }
        }
    }
}

/// Law: in every stage a plan reaches with attempts left, the plan keeps what it planned before
/// and adds one candidate chosen among the stage's selectable candidates `eligible` (in
/// declared order): `Priority` takes the first, `RoundRobin` the one at the request cursor
/// modulo their number, so that successive cursors rotate through them, and `LeastPenalty` the
/// first with the least penalty.
pub proof fn lemma_stage_choice(
    c: Seq<RouteCandidate>,
    mask: u16,
    strategy: RoutingStrategy,
    cursor: u64,
    max_attempts: int,
    start: int,
    acc: Seq<int>,
)
    requires
        0 <= start < c.len(),
        acc.len() < max_attempts,
        ready_in(c, mask, start, segment_end(c, c[start].spec_stage(), start)).len() > 0,
    ensures
        acc.len() < plan_from(c, mask, strategy, cursor, max_attempts, start, acc).len(),
        forall|k: int| 0 <= k < acc.len() ==> #[trigger] plan_from(c, mask, strategy, cursor, max_attempts, start, acc)[k]
            == acc[k],
        strategy == RoutingStrategy::Priority ==> plan_from(c, mask, strategy, cursor, max_attempts, start, acc)[acc.len() as int]
            == ready_in(c, mask, start, segment_end(c, c[start].spec_stage(), start))[0],
        strategy == RoutingStrategy::RoundRobin ==> plan_from(c, mask, strategy, cursor, max_attempts, start, acc)[acc.len() as int]
            == ready_in(c, mask, start, segment_end(c, c[start].spec_stage(), start))[(cursor as usize) as int
            % ready_in(c, mask, start, segment_end(c, c[start].spec_stage(), start)).len() as int],
        strategy == RoutingStrategy::LeastPenalty ==> exists|j: int|
            0 <= j < ready_in(c, mask, start, segment_end(c, c[start].spec_stage(), start)).len() && plan_from(
                c,
                mask,
                strategy,
                cursor,
                max_attempts,
                start,
                acc,
            )[acc.len() as int] == ready_in(c, mask, start, segment_end(c, c[start].spec_stage(), start))[j] && (
            forall|i: int|
                0 <= i < ready_in(c, mask, start, segment_end(c, c[start].spec_stage(), start)).len()
                    ==> penalty_of(c[ready_in(c, mask, start, segment_end(c, c[start].spec_stage(), start))[j]].spec_state())
                    <= penalty_of(
                    #[trigger] c[ready_in(c, mask, start, segment_end(c, c[start].spec_stage(), start))[i]].spec_state(),
                )) && (forall|i: int|
                0 <= i < j ==> penalty_of(
                    c[ready_in(c, mask, start, segment_end(c, c[start].spec_stage(), start))[j]].spec_state(),
                ) < penalty_of(
                    #[trigger] c[ready_in(c, mask, start, segment_end(c, c[start].spec_stage(), start))[i]].spec_state(),
                )),
{
    let e = segment_end(c, c[start].spec_stage(), start);
    let eligible = ready_in(c, mask, start, e);
    lemma_least_pick_is_least(c, eligible);
    let q = pick(c, eligible, strategy, cursor);
    assert(0 <= q < eligible.len());
    let next = acc.push(eligible[q]);
    if !(e <= start || e > c.len()) {
        lemma_plan_from_extends(c, mask, strategy, cursor, max_attempts, e, next);
        assert(plan_from(c, mask, strategy, cursor, max_attempts, e, next)[acc.len() as int] == next[acc.len() as int]);
        assert forall|k: int| 0 <= k < acc.len() implies #[trigger] plan_from(
            c,
            mask,
            strategy,
            cursor,
            max_attempts,
            start,
            acc,
        )[k] == acc[k] by {
            assert(plan_from(c, mask, strategy, cursor, max_attempts, e, next)[k] == next[k]);
        }
    }
    if strategy == RoutingStrategy::LeastPenalty {
        assert(q == least_pick(c, eligible));
        assert(plan_from(c, mask, strategy, cursor, max_attempts, start, acc)[acc.len() as int] == eligible[q]);
    }
}

} // verus!
