//! The closed set of built-in inbound operations and the default-deny classifier.
//!
//! The module only looks up the fixed route specification of a built-in `OperationId`; it
//! reads no body, accepts no outside normalizer and handles no network, authentication or
//! context pipeline.
use vstd::prelude::*;

use crate::ids::{ModelDeploymentId, SnapshotVersion};

verus! {

/// Fixed upper bound of built-in operation specifications.
pub const MAX_ROUTE_SPECS: usize = 10;

/// A stable inbound operation identifier.
#[derive(Clone, Copy, Debug, PartialEq, Eq, Structural, Hash, PartialOrd, Ord)]
pub struct OperationId(u8);

impl OperationId {
    /// Local liveness probe.
    pub fn liveness() -> (r: Self)
        ensures
            r.value() == 1,
    {
        OperationId(1)
    }

    /// Local administrative status query.
    pub fn status() -> (r: Self)
        ensures
            r.value() == 2,
    {
        OperationId(2)
    }

    /// Local unified model catalog query.
    pub fn unified_model_catalog() -> (r: Self)
        ensures
            r.value() == 3,
    {
        OperationId(3)
    }

    /// Exact local tokenizer count.
    pub fn exact_local_token_count() -> (r: Self)
        ensures
            r.value() == 4,
    {
        OperationId(4)
    }

    /// Estimated local token count.
    pub fn estimated_local_token_count() -> (r: Self)
        ensures
            r.value() == 5,
    {
        OperationId(5)
    }

    /// Purely local context compaction handler.
    pub fn local_context_compact() -> (r: Self)
        ensures
            r.value() == 6,
    {
        OperationId(6)
    }

    /// Model capability probe of one named deployment.
    pub fn deployment_model_probe() -> (r: Self)
        ensures
            r.value() == 7,
    {
        OperationId(7)
    }

    /// Exact remote count on the same deployment as the real request, without fallback.
    pub fn exact_upstream_token_count() -> (r: Self)
        ensures
            r.value() == 8,
    {
        OperationId(8)
    }

    /// Ordinary model conversation.
    pub fn conversation() -> (r: Self)
        ensures
            r.value() == 9,
    {
        OperationId(9)
    }

    /// Auxiliary inference under its own route policy.
    pub fn auxiliary_inference() -> (r: Self)
        ensures
            r.value() == 10,
    {
        OperationId(10)
    }


    /// Builds an operation identifier from a raw value; unknown values are refused later.
    pub fn new(value: u8) -> (r: Self)
        ensures
            r.value() == value,
    {
        OperationId(value)
    }

    /// Returns the raw operation identifier.
    pub fn get(self) -> (r: u8)
        ensures
            r == self.value(),
    {
        self.0
    }

    /// The raw value of the identifier.
    pub closed spec fn value(self) -> u8 {
        self.0
    }
}

/// The semantic class of a request, fixed by the built-in specification.
#[derive(Clone, Copy, Debug, PartialEq, Eq, Structural)]
pub enum RequestKind {
    /// Transport-level liveness probe.
    TransportControl,
    /// Local administrative operation.
    LocalAdmin,
    /// Unified model catalog built from the local snapshot.
    UnifiedModelCatalog,
    /// Exact local tokenizer count.
    ExactLocalTokenCount,
    /// Estimated local count.
    EstimatedLocalTokenCount,
    /// Purely local context compaction.
    LocalContextCompact,
    /// Bodiless management probe of one fixed deployment.
    DeploymentModelProbe,
    /// Exact remote count on the same deployment as the real request.
    ExactUpstreamTokenCount,
    /// Ordinary model inference.
    ModelInference,
    /// Auxiliary inference under its own route policy.
    AuxiliaryInference,
}

/// The execution domain of a request, fixed by the built-in specification.
#[derive(Clone, Copy, Debug, PartialEq, Eq, Structural)]
pub enum RequestDispatchDomain {
    /// Only a local handler.
    Local,
    /// One bound model deployment, with no fallback.
    BoundDeployment,
    /// An explicit routing snapshot and route plan.
    RoutedPolicy,
}

/// A fixed, bodiless route specification.
#[derive(Clone, Copy, Debug, PartialEq, Eq, Structural)]
pub struct RouteSpec {
    operation: OperationId,
    kind: RequestKind,
    domain: RequestDispatchDomain,
}

/// The built-in table: the kind and domain registered for raw operation `op`, if any.
pub open spec fn builtin_spec(op: u8) -> Option<(RequestKind, RequestDispatchDomain)> {
    if op == 1 {
        Some((RequestKind::TransportControl, RequestDispatchDomain::Local))
    } else if op == 2 {
        Some((RequestKind::LocalAdmin, RequestDispatchDomain::Local))
    } else if op == 3 {
        Some((RequestKind::UnifiedModelCatalog, RequestDispatchDomain::Local))
    } else if op == 4 {
        Some((RequestKind::ExactLocalTokenCount, RequestDispatchDomain::Local))
    } else if op == 5 {
        Some((RequestKind::EstimatedLocalTokenCount, RequestDispatchDomain::Local))
    } else if op == 6 {
        Some((RequestKind::LocalContextCompact, RequestDispatchDomain::Local))
    } else if op == 7 {
        Some((RequestKind::DeploymentModelProbe, RequestDispatchDomain::BoundDeployment))
    } else if op == 8 {
        Some((RequestKind::ExactUpstreamTokenCount, RequestDispatchDomain::BoundDeployment))
    } else if op == 9 {
        Some((RequestKind::ModelInference, RequestDispatchDomain::RoutedPolicy))
    } else if op == 10 {
        Some((RequestKind::AuxiliaryInference, RequestDispatchDomain::RoutedPolicy))
    } else {
        None
    }
}

impl RouteSpec {
    /// The operation of the specification.
    pub closed spec fn spec_operation(self) -> OperationId {
        self.operation
    }

    /// The request class of the specification.
    pub closed spec fn spec_kind(self) -> RequestKind {
        self.kind
    }

    /// The execution domain of the specification.
    pub closed spec fn spec_domain(self) -> RequestDispatchDomain {
        self.domain
    }

    /// Returns the operation identifier.
    pub fn operation(self) -> (r: OperationId)
        ensures
            r == self.spec_operation(),
    {
        self.operation
    }

    /// Returns the request class fixed by the specification.
    pub fn kind(self) -> (r: RequestKind)
        ensures
            r == self.spec_kind(),
    {
        self.kind
    }

    /// Returns the execution domain fixed by the specification.
    pub fn domain(self) -> (r: RequestDispatchDomain)
        ensures
            r == self.spec_domain(),
    {
        self.domain
    }

    /// Looks up the built-in specification; an unknown operation gives `None`.
    pub fn lookup(operation: OperationId) -> (r: Option<Self>)
        ensures
            builtin_spec(operation.value()) is None <==> r is None,
            r matches Some(s) ==> {
                &&& s.spec_operation() == operation
                &&& builtin_spec(operation.value()) == Some((s.spec_kind(), s.spec_domain()))
            },
    {
        let (kind, domain) = match operation.0 {
            1 => (RequestKind::TransportControl, RequestDispatchDomain::Local),
            2 => (RequestKind::LocalAdmin, RequestDispatchDomain::Local),
            3 => (RequestKind::UnifiedModelCatalog, RequestDispatchDomain::Local),
            4 => (RequestKind::ExactLocalTokenCount, RequestDispatchDomain::Local),
            5 => (RequestKind::EstimatedLocalTokenCount, RequestDispatchDomain::Local),
            6 => (RequestKind::LocalContextCompact, RequestDispatchDomain::Local),
            7 => (RequestKind::DeploymentModelProbe, RequestDispatchDomain::BoundDeployment),
            8 => (RequestKind::ExactUpstreamTokenCount, RequestDispatchDomain::BoundDeployment),
            9 => (RequestKind::ModelInference, RequestDispatchDomain::RoutedPolicy),
            10 => (RequestKind::AuxiliaryInference, RequestDispatchDomain::RoutedPolicy),
            _ => {
                return None;
            },
        };
        Some(RouteSpec { operation, kind, domain })
    }
}

/// The smallest description of an inbound request: no body and no authentication material.
#[derive(Clone, Copy, Debug, PartialEq, Eq, Structural)]
pub struct IngressRequest {
    operation: OperationId,
    snapshot: Option<SnapshotVersion>,
    deployment: Option<ModelDeploymentId>,
}

impl IngressRequest {
    /// The requested operation.
    pub closed spec fn spec_operation(self) -> OperationId {
        self.operation
    }

    /// The routing snapshot version the request carries, if any.
    pub closed spec fn spec_snapshot(self) -> Option<SnapshotVersion> {
        self.snapshot
    }

    /// The model deployment the request names, if any.
    pub closed spec fn spec_deployment(self) -> Option<ModelDeploymentId> {
        self.deployment
    }

    /// A raw request with no binding context.
    pub fn new(operation: OperationId) -> (r: Self)
        ensures
            r.spec_operation() == operation,
            r.spec_snapshot() is None,
            r.spec_deployment() is None,
    {
        IngressRequest { operation, snapshot: None, deployment: None }
    }

    /// A raw request bound to a routing snapshot version.
    pub fn routed(operation: OperationId, snapshot: SnapshotVersion) -> (r: Self)
        ensures
            r.spec_operation() == operation,
            r.spec_snapshot() == Some(snapshot),
            r.spec_deployment() is None,
    {
        IngressRequest { operation, snapshot: Some(snapshot), deployment: None }
    }

    /// A raw request naming one model deployment.
    pub fn bound_deployment(operation: OperationId, deployment: ModelDeploymentId) -> (r: Self)
        ensures
            r.spec_operation() == operation,
            r.spec_snapshot() is None,
            r.spec_deployment() == Some(deployment),
    {
        IngressRequest { operation, snapshot: None, deployment: Some(deployment) }
    }

    /// Returns the raw operation identifier.
    pub fn operation(self) -> (r: OperationId)
        ensures
            r == self.spec_operation(),
    {
        self.operation
    }
}

/// Why inbound classification fails.
#[derive(Clone, Copy, Debug, PartialEq, Eq, Structural)]
pub enum ClassifyError {
    /// The operation is not registered in the built-in closed set.
    UnknownOperation,
    /// A routed operation lacks a snapshot version.
    MissingSnapshot,
    /// A non-routed operation carries a snapshot version.
    UnexpectedSnapshot,
    /// A bound-deployment operation lacks a deployment.
    MissingDeployment,
    /// An operation that is not bound to a deployment names one.
    UnexpectedDeployment,
}

/// A verified local dispatch; outside code cannot build one.
pub struct VerifiedLocalDispatch {
    operation: OperationId,
    kind: RequestKind,
}

impl VerifiedLocalDispatch {
    /// The verified operation.
    pub closed spec fn spec_operation(&self) -> OperationId {
        self.operation
    }

    /// The verified request class.
    pub closed spec fn spec_kind(&self) -> RequestKind {
        self.kind
    }

    /// Returns the verified operation.
    pub fn operation(&self) -> (r: OperationId)
        ensures
            r == self.spec_operation(),
    {
        self.operation
    }

    /// Returns the verified request class.
    pub fn kind(&self) -> (r: RequestKind)
        ensures
            r == self.spec_kind(),
    {
        self.kind
    }
}

/// A verified single-deployment dispatch; outside code cannot build one.
pub struct VerifiedBoundDeploymentDispatch {
    operation: OperationId,
    deployment: ModelDeploymentId,
}

impl VerifiedBoundDeploymentDispatch {
    /// The verified operation.
    pub closed spec fn spec_operation(&self) -> OperationId {
        self.operation
    }

    /// The verified model deployment.
    pub closed spec fn spec_deployment(&self) -> ModelDeploymentId {
        self.deployment
    }

    /// Returns the verified operation.
    pub fn operation(&self) -> (r: OperationId)
        ensures
            r == self.spec_operation(),
    {
        self.operation
    }

    /// Returns the verified model deployment.
    pub fn deployment(&self) -> (r: ModelDeploymentId)
        ensures
            r == self.spec_deployment(),
    {
        self.deployment
    }
}

/// A verified ordinary routed dispatch; outside code cannot build one.
pub struct VerifiedRouteDispatch {
    operation: OperationId,
    snapshot: SnapshotVersion,
}

impl VerifiedRouteDispatch {
    /// The verified operation.
    pub closed spec fn spec_operation(&self) -> OperationId {
        self.operation
    }

    /// The verified snapshot version.
    pub closed spec fn spec_snapshot(&self) -> SnapshotVersion {
        self.snapshot
    }

    /// Returns the verified operation.
    pub fn operation(&self) -> (r: OperationId)
        ensures
            r == self.spec_operation(),
    {
        self.operation
    }

    /// Returns the verified snapshot version.
    pub fn snapshot(&self) -> (r: SnapshotVersion)
        ensures
            r == self.spec_snapshot(),
    {
        self.snapshot
    }
}

/// The only successful result of the default-deny classifier.
///
/// It proves only that the request passed the closed route specification and the binding
/// shape check, not that inbound authentication or secret authorization took place.
pub enum VerifiedIngressDisposition {
    /// Local handler dispatch.
    Local(VerifiedLocalDispatch),
    /// Named model deployment dispatch.
    BoundDeployment(VerifiedBoundDeploymentDispatch),
    /// Ordinary route plan dispatch.
    Routed(VerifiedRouteDispatch),
}

/// What classifying `request` yields: the error, or the dispatch domain that was granted.
pub open spec fn classify_outcome(request: IngressRequest) -> Result<RequestDispatchDomain, ClassifyError> {
    match builtin_spec(request.spec_operation().value()) {
        None => Err(ClassifyError::UnknownOperation),
        Some((_, domain)) => match domain {
            RequestDispatchDomain::Local => if request.spec_snapshot() is Some {
                Err(ClassifyError::UnexpectedSnapshot)
            } else if request.spec_deployment() is Some {
                Err(ClassifyError::UnexpectedDeployment)
            } else {
                Ok(domain)
            },
            RequestDispatchDomain::BoundDeployment => if request.spec_snapshot() is Some {
                Err(ClassifyError::UnexpectedSnapshot)
            } else if request.spec_deployment() is None {
                Err(ClassifyError::MissingDeployment)
            } else {
                Ok(domain)
            },
            RequestDispatchDomain::RoutedPolicy => if request.spec_deployment() is Some {
                Err(ClassifyError::UnexpectedDeployment)
            } else if request.spec_snapshot() is None {
                Err(ClassifyError::MissingSnapshot)
            } else {
                Ok(domain)
            },
        },
    }
}

/// Whether disposition `d` carries exactly what the request and its specification grant.
pub open spec fn disposition_matches(request: IngressRequest, d: VerifiedIngressDisposition) -> bool {
    match d {
        VerifiedIngressDisposition::Local(l) => {
            &&& builtin_spec(request.spec_operation().value()) matches Some((kind, dom))
            &&& dom == RequestDispatchDomain::Local
            &&& l.spec_operation() == request.spec_operation()
            &&& l.spec_kind() == kind
        },
        VerifiedIngressDisposition::BoundDeployment(b) => {
            &&& builtin_spec(request.spec_operation().value()) matches Some((_, dom))
            &&& dom == RequestDispatchDomain::BoundDeployment
            &&& b.spec_operation() == request.spec_operation()
            &&& request.spec_deployment() == Some(b.spec_deployment())
        },
        VerifiedIngressDisposition::Routed(r) => {
            &&& builtin_spec(request.spec_operation().value()) matches Some((_, dom))
            &&& dom == RequestDispatchDomain::RoutedPolicy
            &&& r.spec_operation() == request.spec_operation()
            &&& request.spec_snapshot() == Some(r.spec_snapshot())
        },
    }
}

/// A stateless, closed, default-deny inbound classifier.
pub struct IngressClassifier;

impl IngressClassifier {
    /// Builds the classifier.
    pub fn new() -> (r: Self) {
        IngressClassifier
    }

    /// Classifies a request by the built-in specifications; unknown operations and wrong
    /// bindings are refused.
    pub fn classify(&self, request: IngressRequest) -> (r: Result<VerifiedIngressDisposition, ClassifyError>)
        ensures
            classify_outcome(request) matches Err(e) ==> r == Err::<VerifiedIngressDisposition, ClassifyError>(
                e,
            ),
            classify_outcome(request) is Ok ==> (r matches Ok(d) && disposition_matches(request, d)),
    {
        let spec = match RouteSpec::lookup(request.operation) {
            Some(spec) => spec,
            None => {
                return Err(ClassifyError::UnknownOperation);
            },
        };
        match spec.domain {
            RequestDispatchDomain::Local => {
                if request.snapshot.is_some() {
                    return Err(ClassifyError::UnexpectedSnapshot);
                }
                if request.deployment.is_some() {
                    return Err(ClassifyError::UnexpectedDeployment);
                }
                Ok(VerifiedIngressDisposition::Local(VerifiedLocalDispatch { operation: request.operation, kind: spec.kind }))
            },
            RequestDispatchDomain::BoundDeployment => {
                if request.snapshot.is_some() {
                    return Err(ClassifyError::UnexpectedSnapshot);
                }
                match request.deployment {
                    Some(deployment) => Ok(
                        VerifiedIngressDisposition::BoundDeployment(
                            VerifiedBoundDeploymentDispatch { operation: request.operation, deployment },
                        ),
                    ),
                    None => Err(ClassifyError::MissingDeployment),
                }
            },
            RequestDispatchDomain::RoutedPolicy => {
                if request.deployment.is_some() {
                    return Err(ClassifyError::UnexpectedDeployment);
                }
                match request.snapshot {
                    Some(snapshot) => Ok(
                        VerifiedIngressDisposition::Routed(VerifiedRouteDispatch { operation: request.operation, snapshot }),
                    ),
                    None => Err(ClassifyError::MissingSnapshot),
                }
            },
        }
    }
}

impl Default for IngressClassifier {
    fn default() -> (r: Self) {
        IngressClassifier
    }
}

/// Law: the classifier is default-deny. Any operation outside the built-in table is refused,
/// and every accepted request is granted exactly the domain that the table fixes for it.
pub proof fn lemma_classifier_is_default_deny(request: IngressRequest)
    ensures
        builtin_spec(request.spec_operation().value()) is None ==> classify_outcome(request) == Err::<
            RequestDispatchDomain,
            ClassifyError,
        >(ClassifyError::UnknownOperation),
        request.spec_operation().value() == 0 || request.spec_operation().value() > MAX_ROUTE_SPECS
            ==> classify_outcome(request) is Err,
        classify_outcome(request) matches Ok(dom) ==> builtin_spec(request.spec_operation().value()) matches Some(
            (_, d),
        ) && d == dom,
{
}


/// Law: the built-in table gives each of its ten operations its own request kind, and every
/// kind is served by exactly one operation: two operations of the table with one kind are the
/// same operation, and no kind is left without an operation.
pub proof fn lemma_builtin_kinds_are_a_bijection(o1: u8, o2: u8, kind: RequestKind)
    ensures
        builtin_spec(o1) is Some && builtin_spec(o2) is Some && builtin_spec(o1)->Some_0.0 == builtin_spec(o2)->Some_0.0
            ==> o1 == o2,
        exists|o: u8| 1 <= o <= 10 && #[trigger] builtin_spec(o) is Some && builtin_spec(o)->Some_0.0 == kind,
{
    match kind {
        RequestKind::TransportControl => assert(builtin_spec(1u8) is Some),
        RequestKind::LocalAdmin => assert(builtin_spec(2u8) is Some),
        RequestKind::UnifiedModelCatalog => assert(builtin_spec(3u8) is Some),
        RequestKind::ExactLocalTokenCount => assert(builtin_spec(4u8) is Some),
        RequestKind::EstimatedLocalTokenCount => assert(builtin_spec(5u8) is Some),
        RequestKind::LocalContextCompact => assert(builtin_spec(6u8) is Some),
        RequestKind::DeploymentModelProbe => assert(builtin_spec(7u8) is Some),
        RequestKind::ExactUpstreamTokenCount => assert(builtin_spec(8u8) is Some),
        RequestKind::ModelInference => assert(builtin_spec(9u8) is Some),
        RequestKind::AuxiliaryInference => assert(builtin_spec(10u8) is Some),
    }
}

/// Law: the table's domain follows from the kind alone: the transport, administrative,
/// catalog, token-count and compaction kinds stay local, the deployment probe and the exact
/// upstream count go to one bound deployment, and inference goes through a route policy.
pub proof fn lemma_builtin_domain_follows_kind(op: u8)
    ensures
        builtin_spec(op) matches Some((kind, domain)) ==> {
            &&& (kind == RequestKind::TransportControl || kind == RequestKind::LocalAdmin || kind
                == RequestKind::UnifiedModelCatalog || kind == RequestKind::ExactLocalTokenCount || kind
                == RequestKind::EstimatedLocalTokenCount || kind == RequestKind::LocalContextCompact) <==> domain
                == RequestDispatchDomain::Local
            &&& (kind == RequestKind::DeploymentModelProbe || kind == RequestKind::ExactUpstreamTokenCount) <==> domain
                == RequestDispatchDomain::BoundDeployment
            &&& (kind == RequestKind::ModelInference || kind == RequestKind::AuxiliaryInference) <==> domain
                == RequestDispatchDomain::RoutedPolicy
        },
{
}

/// Law: each named operation is classified as the kind its name says: liveness (1) is a
/// transport control, status (2) local administration, the unified model catalog (3), the
/// exact (4) and estimated (5) local token counts, local context compaction (6), the
/// deployment model probe (7), the exact upstream token count (8), conversation (9) as model
/// inference and auxiliary inference (10).
pub proof fn lemma_named_operations_have_their_kinds()
    ensures
        builtin_spec(1) is Some && builtin_spec(1)->Some_0.0 == RequestKind::TransportControl,
        builtin_spec(2) is Some && builtin_spec(2)->Some_0.0 == RequestKind::LocalAdmin,
        builtin_spec(3) is Some && builtin_spec(3)->Some_0.0 == RequestKind::UnifiedModelCatalog,
        builtin_spec(4) is Some && builtin_spec(4)->Some_0.0 == RequestKind::ExactLocalTokenCount,
        builtin_spec(5) is Some && builtin_spec(5)->Some_0.0 == RequestKind::EstimatedLocalTokenCount,
        builtin_spec(6) is Some && builtin_spec(6)->Some_0.0 == RequestKind::LocalContextCompact,
        builtin_spec(7) is Some && builtin_spec(7)->Some_0.0 == RequestKind::DeploymentModelProbe,
        builtin_spec(8) is Some && builtin_spec(8)->Some_0.0 == RequestKind::ExactUpstreamTokenCount,
        builtin_spec(9) is Some && builtin_spec(9)->Some_0.0 == RequestKind::ModelInference,
        builtin_spec(10) is Some && builtin_spec(10)->Some_0.0 == RequestKind::AuxiliaryInference,
{
}

} // verus!
