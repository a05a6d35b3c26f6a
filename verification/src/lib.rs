//! Stage-first route planning core.
//!
//! The crate builds bounded `A -> B -> C` plans from immutable in-memory snapshots and
//! gates replay after a single send. It performs no HTTP, waiting, health probing,
//! credential resolution, database access or context governance.
use vstd::prelude::*;

pub mod account_credential;
pub mod account_selector;
pub mod attempt;
pub mod classifier;
pub mod clock;
pub mod compiled_snapshot;
pub mod contract;
pub mod coordinator;
pub mod credential_authorization;
pub mod disposition;
pub mod error;
pub mod health;
pub mod ids;
pub mod ingress;
pub mod model_deployment;
pub mod normalizer;
pub mod route;
pub mod selection_cooldown;
pub mod selection_input;
pub mod snapshot;

pub use account_credential::{
    AccountCatalog, AccountCatalogError, AccountCredentialDefinitions, AccountDefinition, CredentialCatalog,
    CredentialCatalogError, CredentialDefinition, MAX_ACCOUNTS, MAX_CREDENTIALS,
};
pub use account_selector::{
    AccountSelectorCatalog, AccountSelectorCatalogError, AccountSelectorDefinition, AccountSelectorError,
    AccountSelectorMember, CredentialSelectionPolicy, QuotaSelectionUnit, QuotaTopologySource,
    MAX_ACCOUNT_SELECTORS, MAX_ACCOUNT_SELECTOR_MEMBERS, MAX_QUOTA_GROUPS_PER_UNIT, MAX_QUOTA_SELECTION_UNITS,
};
pub use attempt::{
    AttemptFailure, AttemptOutcome, AttemptTracker, AttemptTransitionError, ChargeState, DeliveryState,
    DownstreamCommitState, ReplayDecision, ReplayPermitReason, ReplayStopReason, SendPhase,
    TrustedPreExecutionRejection, UpstreamWriteState,
};
pub use compiled_snapshot::{CompiledRoutingSnapshot, CompiledRoutingSnapshotError, ResolvedRouteTarget};
pub use coordinator::{
    AttemptCompletion, AttemptPermit, AttemptPosition, CoordinatorStep, CoordinatorStopReason,
};
pub use health::{HealthRegistry, HealthTick, RateLimitScope, RouteEligibility, MAX_HEALTH_DEPLOYMENTS, MAX_HEALTH_SITES};
pub use ids::{
    AccountId, AccountSelectorId, CredentialId, EndpointId, ModelDeploymentId, QuotaGroupId,
    QuotaSelectionUnitId, RouteStageId, RouteTargetId, SiteId, SnapshotVersion,
};
pub use ingress::{
    ClassifyError, IngressClassifier, IngressRequest, OperationId, RequestDispatchDomain, RequestKind, RouteSpec,
    VerifiedBoundDeploymentDispatch, VerifiedIngressDisposition, VerifiedLocalDispatch, VerifiedRouteDispatch,
    MAX_ROUTE_SPECS,
};
pub use model_deployment::{
    ModelDeploymentCatalog, ModelDeploymentCatalogError, ModelDeploymentDefinition, MAX_MODEL_DEPLOYMENTS,
};
pub use route::{
    PlanError, RouteCandidate, RoutePlan, RoutePlanner, RouteTarget, RoutingSnapshot,
    RoutingStrategy, TargetState,
};

verus! {

/// Maximum number of candidates one activated plan may hold.
pub const MAX_ROUTE_TARGETS: usize = 16;

} // verus!
