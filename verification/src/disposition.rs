//! The three classified dispositions, which cannot stand in for one another.
use vstd::prelude::*;

use crate::contract::ids::{
    AccountId, AccountSelectorId, AdapterContractRevision, CapabilityManagementScopeId, ConsentRevision,
    CredentialId, EndpointId, ModelDeploymentId, OperationId, RegistryDigest, RequestDigest, RoutePolicyRevision,
    SiteId,
};
use crate::contract::operation::{LocalOperationAuthScope, RequestDispatchDomain, RequestKind};
use crate::contract::request::HttpMethod;
use crate::contract::signed::CanonicalOrigin;
use crate::contract::verified::{ReceiverAcceptedIngressRequest, VerifiedIngressRequest};
use crate::error::RouteReject;
use crate::normalizer::ProtocolNormalizedRequest;
use crate::snapshot::ClassifierBoundTarget;

verus! {

/// The operation a verified request was matched to.
pub open spec fn operation_of(v: VerifiedIngressRequest) -> OperationId {
    v.spec_operation().spec.spec_operation()
}

/// The request kind a verified request's specification fixes.
pub open spec fn kind_of(v: VerifiedIngressRequest) -> RequestKind {
    v.spec_operation().spec.spec_kind()
}

/// The dispatch domain a verified request's specification fixes.
pub open spec fn domain_of(v: VerifiedIngressRequest) -> RequestDispatchDomain {
    v.spec_operation().spec.spec_dispatch_domain()
}

/// The context mode that passed the per-request gate.
#[derive(Clone, Copy, Debug, PartialEq, Eq, Structural)]
pub enum ContextExecutionMode {
    /// Bound by a managed attestation and its whole authorization bundle.
    Managed,
    /// Bound by the gateway-only listener and consent the user enabled.
    GatewayOnly,
}

/// The fixed failure policy of a bound deployment.
#[derive(Clone, Copy, Debug, PartialEq, Eq, Structural)]
pub enum BoundFallbackPolicy {
    /// One fixed target, one attempt, no retry and no fallback.
    Forbidden,
}

/// The binding of a grant to one accepted request.
#[derive(Clone, Copy)]
pub struct GrantBinding {
    pub(crate) operation: OperationId,
    pub(crate) request_digest: RequestDigest,
    pub(crate) registry_digest: RegistryDigest,
}

impl GrantBinding {
    /// The bound operation.
    pub closed spec fn spec_operation(&self) -> OperationId {
        self.operation
    }

    /// The bound raw request digest.
    pub closed spec fn spec_request_digest(&self) -> RequestDigest {
        self.request_digest
    }

    /// The bound registry digest.
    pub closed spec fn spec_registry_digest(&self) -> RegistryDigest {
        self.registry_digest
    }

    /// Whether the binding names exactly this verified request.
    pub open spec fn binds(&self, v: VerifiedIngressRequest) -> bool {
        &&& self.spec_operation() == operation_of(v)
        &&& self.spec_request_digest() == v.spec_request_digest()
        &&& self.spec_registry_digest() == v.spec_registry_digest()
    }

    pub(crate) fn from_request(request: &ClassifiedRequest) -> (r: Self)
        ensures
            r.binds(request.spec_verified()),
    {
        GrantBinding {
            operation: request.operation(),
            request_digest: request.request_digest(),
            registry_digest: request.registry_digest(),
        }
    }

    pub(crate) fn matches(&self, request: &ClassifiedRequest) -> (r: bool)
        ensures
            r == self.binds(request.spec_verified()),
    {
        self.operation == request.operation() && self.request_digest.same(&request.request_digest())
            && self.registry_digest.same(&request.registry_digest())
    }
}

/// What a context gate granted.
#[derive(Clone, Copy)]
pub enum ContextExecutionGrant {
    Managed {
        binding: GrantBinding,
        route_policy_revision: RoutePolicyRevision,
        consent_revision: ConsentRevision,
        expires_at_millis: u64,
    },
    GatewayOnly {
        binding: GrantBinding,
        route_policy_revision: RoutePolicyRevision,
        consent_revision: ConsentRevision,
        maximum_trust_tier: u8,
        expires_at_millis: u64,
    },
}

/// The binding of a context grant.
pub open spec fn grant_binding(g: ContextExecutionGrant) -> GrantBinding {
    match g {
        ContextExecutionGrant::Managed { binding, .. } => binding,
        ContextExecutionGrant::GatewayOnly { binding, .. } => binding,
    }
}

/// When a context grant expires.
pub open spec fn grant_expiry(g: ContextExecutionGrant) -> u64 {
    match g {
        ContextExecutionGrant::Managed { expires_at_millis, .. } => expires_at_millis,
        ContextExecutionGrant::GatewayOnly { expires_at_millis, .. } => expires_at_millis,
    }
}

/// The mode of a context grant.
pub open spec fn grant_mode(g: ContextExecutionGrant) -> ContextExecutionMode {
    match g {
        ContextExecutionGrant::Managed { .. } => ContextExecutionMode::Managed,
        ContextExecutionGrant::GatewayOnly { .. } => ContextExecutionMode::GatewayOnly,
    }
}

impl ContextExecutionGrant {
    pub(crate) fn binding(&self) -> (r: &GrantBinding)
        ensures
            *r == grant_binding(*self),
    {
        match self {
            ContextExecutionGrant::Managed { binding, .. } => binding,
            ContextExecutionGrant::GatewayOnly { binding, .. } => binding,
        }
    }

    pub(crate) fn expires_at_millis(&self) -> (r: u64)
        ensures
            r == grant_expiry(*self),
    {
        match self {
            ContextExecutionGrant::Managed { expires_at_millis, .. } => *expires_at_millis,
            ContextExecutionGrant::GatewayOnly { expires_at_millis, .. } => *expires_at_millis,
        }
    }
}

/// The one deployment a bound grant locks.
pub struct BoundTarget {
    pub(crate) site: SiteId,
    pub(crate) deployment: ModelDeploymentId,
    pub(crate) endpoint: EndpointId,
    pub(crate) origin: CanonicalOrigin,
    pub(crate) account_selector: AccountSelectorId,
    pub(crate) account: AccountId,
    pub(crate) credential: CredentialId,
    pub(crate) adapter_contract_revision: AdapterContractRevision,
    pub(crate) trust_tier: u8,
}

impl BoundTarget {
    /// Whether the target locks exactly the snapshot's target.
    pub closed spec fn locks(&self, t: ClassifierBoundTarget) -> bool {
        &&& self.site == t.site
        &&& self.deployment == t.deployment
        &&& self.endpoint == t.endpoint
        &&& self.origin.bytes() == t.origin.bytes()
        &&& self.account_selector == t.account_selector
        &&& self.account == t.account
        &&& self.credential == t.credential
        &&& self.adapter_contract_revision == t.adapter_contract_revision
        &&& self.trust_tier == t.trust_tier
    }

    pub closed spec fn spec_site(&self) -> SiteId {
        self.site
    }

    pub closed spec fn spec_deployment(&self) -> ModelDeploymentId {
        self.deployment
    }

    pub closed spec fn spec_endpoint(&self) -> EndpointId {
        self.endpoint
    }

    pub closed spec fn spec_origin(&self) -> Seq<u8> {
        self.origin.bytes()
    }

    pub closed spec fn spec_account_selector(&self) -> AccountSelectorId {
        self.account_selector
    }

    pub closed spec fn spec_account(&self) -> AccountId {
        self.account
    }

    pub closed spec fn spec_credential(&self) -> CredentialId {
        self.credential
    }

    pub closed spec fn spec_adapter_contract_revision(&self) -> AdapterContractRevision {
        self.adapter_contract_revision
    }

    pub closed spec fn spec_trust_tier(&self) -> u8 {
        self.trust_tier
    }

    /// The accessors agree with what the target locks.
    pub proof fn lemma_locks(&self, t: ClassifierBoundTarget)
        requires
            self.locks(t),
        ensures
            self.spec_site() == t.site,
            self.spec_deployment() == t.deployment,
            self.spec_endpoint() == t.endpoint,
            self.spec_origin() == t.origin.bytes(),
            self.spec_account_selector() == t.account_selector,
            self.spec_account() == t.account,
            self.spec_credential() == t.credential,
            self.spec_adapter_contract_revision() == t.adapter_contract_revision,
            self.spec_trust_tier() == t.trust_tier,
    {
    }

    pub(crate) fn from_snapshot(target: &ClassifierBoundTarget) -> (r: Self)
        ensures
            r.locks(*target),
    {
        BoundTarget {
            site: target.site,
            deployment: target.deployment,
            endpoint: target.endpoint,
            origin: target.origin.clone(),
            account_selector: target.account_selector,
            account: target.account,
            credential: target.credential,
            adapter_contract_revision: target.adapter_contract_revision,
            trust_tier: target.trust_tier,
        }
    }
}

/// What a bound gate granted.
pub struct BoundDeploymentGrant {
    pub(crate) binding: GrantBinding,
    pub(crate) target: BoundTarget,
    pub(crate) context: Option<ContextExecutionGrant>,
    pub(crate) management_scope: Option<CapabilityManagementScopeId>,
    pub(crate) deadline_millis: u64,
}

impl BoundDeploymentGrant {
    /// Whether the grant is bound to `v`, locks `target` and carries exactly the given
    /// context grant, management scope and deadline.
    pub closed spec fn grants(
        &self,
        v: VerifiedIngressRequest,
        target: ClassifierBoundTarget,
        context: Option<ContextExecutionGrant>,
        management_scope: Option<CapabilityManagementScopeId>,
        deadline_millis: u64,
    ) -> bool {
        &&& self.binding.binds(v)
        &&& self.target.locks(target)
        &&& self.context == context
        &&& self.management_scope == management_scope
        &&& self.deadline_millis == deadline_millis
    }

    pub closed spec fn spec_binding(&self) -> GrantBinding {
        self.binding
    }

    pub closed spec fn spec_target(&self) -> BoundTarget {
        self.target
    }

    pub closed spec fn spec_context(&self) -> Option<ContextExecutionGrant> {
        self.context
    }

    pub closed spec fn spec_management_scope(&self) -> Option<CapabilityManagementScopeId> {
        self.management_scope
    }

    pub closed spec fn spec_deadline_millis(&self) -> u64 {
        self.deadline_millis
    }

    /// The accessors agree with what the grant grants.
    pub proof fn lemma_grants(
        &self,
        v: VerifiedIngressRequest,
        target: ClassifierBoundTarget,
        context: Option<ContextExecutionGrant>,
        management_scope: Option<CapabilityManagementScopeId>,
        deadline_millis: u64,
    )
        requires
            self.grants(v, target, context, management_scope, deadline_millis),
        ensures
            self.spec_binding().binds(v),
            self.spec_target().locks(target),
            self.spec_context() == context,
            self.spec_management_scope() == management_scope,
            self.spec_deadline_millis() == deadline_millis,
    {
    }

    pub(crate) fn new(
        binding: GrantBinding,
        target: BoundTarget,
        context: Option<ContextExecutionGrant>,
        management_scope: Option<CapabilityManagementScopeId>,
        deadline_millis: u64,
    ) -> (r: Self)
        ensures
            r.binding == binding,
            r.target == target,
            r.context == context,
            r.management_scope == management_scope,
            r.deadline_millis == deadline_millis,
            forall|v: VerifiedIngressRequest, t: ClassifierBoundTarget|
                binding.binds(v) && target.locks(t) ==> #[trigger] r.grants(
                    v,
                    t,
                    context,
                    management_scope,
                    deadline_millis,
                ),
    {
        BoundDeploymentGrant { binding, target, context, management_scope, deadline_millis }
    }
}

/// The private intermediate state of the classifier: an accepted request and what the
/// normalizer confirmed of it.
pub struct ClassifiedRequest {
    pub(crate) accepted: ReceiverAcceptedIngressRequest,
    pub(crate) normalized: ProtocolNormalizedRequest,
}

impl ClassifiedRequest {
    /// The verified request it carries.
    pub closed spec fn spec_verified(&self) -> VerifiedIngressRequest {
        self.accepted.spec_verified()
    }

    pub(crate) fn new(accepted: ReceiverAcceptedIngressRequest, normalized: ProtocolNormalizedRequest) -> (r: Self)
        ensures
            r.spec_verified() == accepted.spec_verified(),
    {
        ClassifiedRequest { accepted, normalized }
    }

    pub(crate) fn verified(&self) -> (r: &VerifiedIngressRequest)
        ensures
            *r == self.spec_verified(),
    {
        self.accepted.verified()
    }

    pub(crate) fn operation(&self) -> (r: OperationId)
        ensures
            r == operation_of(self.spec_verified()),
    {
        self.accepted.operation()
    }

    pub(crate) fn request_kind(&self) -> (r: RequestKind)
        ensures
            r == kind_of(self.spec_verified()),
    {
        self.accepted.request_kind()
    }

    pub(crate) fn dispatch_domain(&self) -> (r: RequestDispatchDomain)
        ensures
            r == domain_of(self.spec_verified()),
    {
        self.accepted.dispatch_domain()
    }

    pub(crate) fn request_digest(&self) -> (r: RequestDigest)
        ensures
            r == self.spec_verified().spec_request_digest(),
    {
        self.accepted.request_digest()
    }

    pub(crate) fn registry_digest(&self) -> (r: RegistryDigest)
        ensures
            r == self.spec_verified().spec_registry_digest(),
    {
        self.accepted.registry_digest()
    }
}

/// The only three verified dispositions the classifier produces; each goes only to the port
/// of its own domain.
pub enum VerifiedIngressDisposition {
    /// Only for the matching local handler.
    Local(VerifiedLocalDispatch),
    /// Only for the fixed single-deployment planner.
    BoundDeployment(VerifiedBoundDeploymentRequest),
    /// Only for the explicit route policy planner.
    Routed(VerifiedRouteRequest),
}

/// A local request that passed the local operation scope gate.
pub struct VerifiedLocalDispatch {
    request: ClassifiedRequest,
    auth_scope: LocalOperationAuthScope,
}

impl VerifiedLocalDispatch {
    /// The verified request it carries.
    pub closed spec fn spec_verified(&self) -> VerifiedIngressRequest {
        self.request.spec_verified()
    }

    /// The local authorization scope that passed.
    pub closed spec fn spec_auth_scope(&self) -> LocalOperationAuthScope {
        self.auth_scope
    }

    pub(crate) fn construct(request: ClassifiedRequest, auth_scope: LocalOperationAuthScope) -> (r: Self)
        ensures
            r.spec_verified() == request.spec_verified(),
            r.spec_auth_scope() == auth_scope,
    {
        VerifiedLocalDispatch { request, auth_scope }
    }

    /// Returns the operation.
    pub fn operation(&self) -> (r: OperationId)
        ensures
            r == operation_of(self.spec_verified()),
    {
        self.request.operation()
    }

    /// Returns the request semantics.
    pub fn request_kind(&self) -> (r: RequestKind)
        ensures
            r == kind_of(self.spec_verified()),
    {
        self.request.request_kind()
    }

    /// Returns the dispatch domain (always local).
    pub fn dispatch_domain(&self) -> (r: RequestDispatchDomain)
        ensures
            r == domain_of(self.spec_verified()),
    {
        self.request.dispatch_domain()
    }

    /// Returns the raw request digest.
    pub fn request_digest(&self) -> (r: RequestDigest)
        ensures
            r == self.spec_verified().spec_request_digest(),
    {
        self.request.request_digest()
    }

    /// Returns the registry digest the receiver checked again.
    pub fn registry_digest(&self) -> (r: RegistryDigest)
        ensures
            r == self.spec_verified().spec_registry_digest(),
    {
        self.request.registry_digest()
    }

    /// Returns the local authorization scope.
    pub fn auth_scope(&self) -> (r: LocalOperationAuthScope)
        ensures
            r == self.spec_auth_scope(),
    {
        self.auth_scope
    }

    /// Returns the sanitized method.
    pub fn method(&self) -> (r: HttpMethod)
        ensures
            r == self.spec_verified().spec_request().spec_method(),
    {
        self.request.accepted.method()
    }

    /// Returns the verified target.
    pub fn target(&self) -> (r: &[u8])
        ensures
            r@ == self.spec_verified().spec_request().spec_target(),
    {
        self.request.accepted.target()
    }
}

/// An ordinary routed request that passed the context gate.
pub struct VerifiedRouteRequest {
    request: ClassifiedRequest,
    context: ContextExecutionGrant,
}

impl VerifiedRouteRequest {
    /// The verified request it carries.
    pub closed spec fn spec_verified(&self) -> VerifiedIngressRequest {
        self.request.spec_verified()
    }

    /// The context grant that passed.
    pub closed spec fn spec_context(&self) -> ContextExecutionGrant {
        self.context
    }

    pub(crate) fn construct(request: ClassifiedRequest, context: ContextExecutionGrant) -> (r: Result<
        Self,
        RouteReject,
    >)
        ensures
            grant_binding(context).binds(request.spec_verified()) <==> r is Ok,
            r is Err ==> r matches Err(RouteReject::SnapshotBindingMismatch),
            r matches Ok(d) ==> d.spec_verified() == request.spec_verified() && d.spec_context() == context,
    {
        if !context.binding().matches(&request) {
            return Err(RouteReject::SnapshotBindingMismatch);
        }
        Ok(VerifiedRouteRequest { request, context })
    }

    /// Returns the operation.
    pub fn operation(&self) -> (r: OperationId)
        ensures
            r == operation_of(self.spec_verified()),
    {
        self.request.operation()
    }

    /// Returns the request semantics.
    pub fn request_kind(&self) -> (r: RequestKind)
        ensures
            r == kind_of(self.spec_verified()),
    {
        self.request.request_kind()
    }

    /// Returns the dispatch domain (always the route policy).
    pub fn dispatch_domain(&self) -> (r: RequestDispatchDomain)
        ensures
            r == domain_of(self.spec_verified()),
    {
        self.request.dispatch_domain()
    }

    /// Returns the raw request digest.
    pub fn request_digest(&self) -> (r: RequestDigest)
        ensures
            r == self.spec_verified().spec_request_digest(),
    {
        self.request.request_digest()
    }

    /// Returns the registry digest the receiver checked again.
    pub fn registry_digest(&self) -> (r: RegistryDigest)
        ensures
            r == self.spec_verified().spec_registry_digest(),
    {
        self.request.registry_digest()
    }

    /// Returns the context mode that passed.
    pub fn context_mode(&self) -> (r: ContextExecutionMode)
        ensures
            r == grant_mode(self.spec_context()),
    {
        match self.context {
            ContextExecutionGrant::Managed { .. } => ContextExecutionMode::Managed,
            ContextExecutionGrant::GatewayOnly { .. } => ContextExecutionMode::GatewayOnly,
        }
    }

    /// Returns the current route policy revision.
    pub fn route_policy_revision(&self) -> (r: RoutePolicyRevision)
        ensures
            r == match self.spec_context() {
                ContextExecutionGrant::Managed { route_policy_revision, .. } => route_policy_revision,
                ContextExecutionGrant::GatewayOnly { route_policy_revision, .. } => route_policy_revision,
            },
    {
        match self.context {
            ContextExecutionGrant::Managed { route_policy_revision, .. } => route_policy_revision,
            ContextExecutionGrant::GatewayOnly { route_policy_revision, .. } => route_policy_revision,
        }
    }

    /// Returns the current consent revision.
    pub fn consent_revision(&self) -> (r: ConsentRevision)
        ensures
            r == match self.spec_context() {
                ContextExecutionGrant::Managed { consent_revision, .. } => consent_revision,
                ContextExecutionGrant::GatewayOnly { consent_revision, .. } => consent_revision,
            },
    {
        match self.context {
            ContextExecutionGrant::Managed { consent_revision, .. } => consent_revision,
            ContextExecutionGrant::GatewayOnly { consent_revision, .. } => consent_revision,
        }
    }

    /// Returns the highest trust tier a gateway-only context allows.
    pub fn maximum_trust_tier(&self) -> (r: Option<u8>)
        ensures
            r == match self.spec_context() {
                ContextExecutionGrant::Managed { .. } => None,
                ContextExecutionGrant::GatewayOnly { maximum_trust_tier, .. } => Some(maximum_trust_tier),
            },
    {
        match self.context {
            ContextExecutionGrant::Managed { .. } => None,
            ContextExecutionGrant::GatewayOnly { maximum_trust_tier, .. } => Some(maximum_trust_tier),
        }
    }

    /// Returns when the context grant expires (Unix milliseconds).
    pub fn expires_at_millis(&self) -> (r: u64)
        ensures
            r == grant_expiry(self.spec_context()),
    {
        self.context.expires_at_millis()
    }

    /// Returns the sanitized method.
    pub fn method(&self) -> (r: HttpMethod)
        ensures
            r == self.spec_verified().spec_request().spec_method(),
    {
        self.request.accepted.method()
    }

    /// Returns the verified target.
    pub fn target(&self) -> (r: &[u8])
        ensures
            r@ == self.spec_verified().spec_request().spec_target(),
    {
        self.request.accepted.target()
    }
}

/// A request that passed the fixed single-deployment gate.
pub struct VerifiedBoundDeploymentRequest {
    request: ClassifiedRequest,
    grant: BoundDeploymentGrant,
}

impl VerifiedBoundDeploymentRequest {
    /// The verified request it carries.
    pub closed spec fn spec_verified(&self) -> VerifiedIngressRequest {
        self.request.spec_verified()
    }

    /// The bound grant that passed.
    pub closed spec fn spec_grant(&self) -> BoundDeploymentGrant {
        self.grant
    }

    pub(crate) fn construct(request: ClassifiedRequest, grant: BoundDeploymentGrant) -> (r: Result<
        Self,
        RouteReject,
    >)
        ensures
            grant.spec_binding().binds(request.spec_verified()) <==> r is Ok,
            r is Err ==> r matches Err(RouteReject::SnapshotBindingMismatch),
            r matches Ok(d) ==> d.spec_verified() == request.spec_verified() && d.spec_grant() == grant,
    {
        if !grant.binding.matches(&request) {
            return Err(RouteReject::SnapshotBindingMismatch);
        }
        Ok(VerifiedBoundDeploymentRequest { request, grant })
    }

    /// Returns the operation.
    pub fn operation(&self) -> (r: OperationId)
        ensures
            r == operation_of(self.spec_verified()),
    {
        self.request.operation()
    }

    /// Returns the request semantics.
    pub fn request_kind(&self) -> (r: RequestKind)
        ensures
            r == kind_of(self.spec_verified()),
    {
        self.request.request_kind()
    }

    /// Returns the dispatch domain (always a bound deployment).
    pub fn dispatch_domain(&self) -> (r: RequestDispatchDomain)
        ensures
            r == domain_of(self.spec_verified()),
    {
        self.request.dispatch_domain()
    }

    /// Returns the raw request digest.
    pub fn request_digest(&self) -> (r: RequestDigest)
        ensures
            r == self.spec_verified().spec_request_digest(),
    {
        self.request.request_digest()
    }

    /// Returns the registry digest the receiver checked again.
    pub fn registry_digest(&self) -> (r: RegistryDigest)
        ensures
            r == self.spec_verified().spec_registry_digest(),
    {
        self.request.registry_digest()
    }

    /// Returns the locked site.
    pub fn site(&self) -> (r: SiteId)
        ensures
            r == self.spec_grant().spec_target().spec_site(),
    {
        self.grant.target.site
    }

    /// Returns the locked model deployment.
    pub fn deployment(&self) -> (r: ModelDeploymentId)
        ensures
            r == self.spec_grant().spec_target().spec_deployment(),
    {
        self.grant.target.deployment
    }

    /// Returns the locked endpoint.
    pub fn endpoint(&self) -> (r: EndpointId)
        ensures
            r == self.spec_grant().spec_target().spec_endpoint(),
    {
        self.grant.target.endpoint
    }

    /// Returns the locked exact origin.
    pub fn origin(&self) -> (r: &CanonicalOrigin)
        ensures
            r.bytes() == self.spec_grant().spec_target().spec_origin(),
    {
        &self.grant.target.origin
    }

    /// Returns the locked account selector.
    pub fn account_selector(&self) -> (r: AccountSelectorId)
        ensures
            r == self.spec_grant().spec_target().spec_account_selector(),
    {
        self.grant.target.account_selector
    }

    /// Returns the locked account.
    pub fn account(&self) -> (r: AccountId)
        ensures
            r == self.spec_grant().spec_target().spec_account(),
    {
        self.grant.target.account
    }

    /// Returns the locked logical credential.
    pub fn credential(&self) -> (r: CredentialId)
        ensures
            r == self.spec_grant().spec_target().spec_credential(),
    {
        self.grant.target.credential
    }

    /// Returns the locked upstream adapter contract revision.
    pub fn adapter_contract_revision(&self) -> (r: AdapterContractRevision)
        ensures
            r == self.spec_grant().spec_target().spec_adapter_contract_revision(),
    {
        self.grant.target.adapter_contract_revision
    }

    /// Returns the locked trust tier.
    pub fn trust_tier(&self) -> (r: u8)
        ensures
            r == self.spec_grant().spec_target().spec_trust_tier(),
    {
        self.grant.target.trust_tier
    }

    /// A bound deployment runs exactly one attempt.
    pub fn max_attempts(&self) -> (r: u8)
        ensures
            r == 1,
    {
        1
    }

    /// A bound deployment never falls back.
    pub fn fallback_policy(&self) -> (r: BoundFallbackPolicy)
        ensures
            r == BoundFallbackPolicy::Forbidden,
    {
        BoundFallbackPolicy::Forbidden
    }

    /// Returns the management scope a capability probe locked.
    pub fn management_scope(&self) -> (r: Option<CapabilityManagementScopeId>)
        ensures
            r == self.spec_grant().spec_management_scope(),
    {
        self.grant.management_scope
    }

    /// Returns the absolute deadline of the grant (Unix milliseconds).
    pub fn deadline_millis(&self) -> (r: u64)
        ensures
            r == self.spec_grant().spec_deadline_millis(),
    {
        self.grant.deadline_millis
    }

    /// Returns the context mode consumed with it; an exact upstream count always has one.
    pub fn context_mode(&self) -> (r: Option<ContextExecutionMode>)
        ensures
            r == match self.spec_grant().spec_context() {
                None => None,
                Some(g) => Some(grant_mode(g)),
            },
    {
        match &self.grant.context {
            None => None,
            Some(ContextExecutionGrant::Managed { .. }) => Some(ContextExecutionMode::Managed),
            Some(ContextExecutionGrant::GatewayOnly { .. }) => Some(ContextExecutionMode::GatewayOnly),
        }
    }

    /// Returns the sanitized method.
    pub fn method(&self) -> (r: HttpMethod)
        ensures
            r == self.spec_verified().spec_request().spec_method(),
    {
        self.request.accepted.method()
    }

    /// Returns the verified target.
    pub fn target(&self) -> (r: &[u8])
        ensures
            r@ == self.spec_verified().spec_request().spec_target(),
    {
        self.request.accepted.target()
    }
}

} // verus!
