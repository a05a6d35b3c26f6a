//! The per-request snapshots the closed classifier gates a request against.
use std::sync::Arc;
use vstd::prelude::*;

use crate::contract::ids::{
    AccountId, AccountSelectorId, AdapterContractRevision, AdapterVersion, AudienceId, AuthorizationBundleDigest,
    CapabilityManagementScopeId, ClientFamilyId, ClientVersion, ConsentRevision, ContextPolicyVersion,
    CredentialId, EndpointId, IngressSchemaVersion, IngressTokenScopeId, IssuerEpoch, ListenerId, ModelDeploymentId,
    OperationId, RegistryDigest, RequestDigest, RoutePolicyRevision, SiteId, TransformOwnerId,
    TransformOwnerVersion,
};
use crate::contract::operation::LocalOperationAuthScope;
use crate::contract::signed::CanonicalOrigin;
use crate::contract::verified::VerifiedIngressRequest;
use crate::error::RouteReject;

verus! {

/// The seal of one classifier runtime: snapshots of another runtime are refused.
pub struct SnapshotDomainSeal {
    _private: (),
}

impl SnapshotDomainSeal {
    pub(crate) fn new() -> Self {
        SnapshotDomainSeal { _private: () }
    }
}

/// The request a snapshot was taken for.
#[derive(Clone, Copy)]
pub struct ClassifierRequestBinding {
    pub operation: OperationId,
    pub request_digest: RequestDigest,
}

impl ClassifierRequestBinding {
    /// The binding of a verified request: its operation and raw request digest.
    pub fn of(request: &VerifiedIngressRequest) -> (r: Self)
        ensures
            r.operation == request.spec_operation().spec.spec_operation(),
            r.request_digest == request.spec_request_digest(),
    {
        ClassifierRequestBinding { operation: request.operation(), request_digest: request.request_digest() }
    }
}

/// The inbound listener, token scope and audience a snapshot expects.
#[derive(Clone, Copy, PartialEq, Eq, Structural)]
pub struct ClassifierIngressBinding {
    pub listener: ListenerId,
    pub token_scope: IngressTokenScopeId,
    pub audience: AudienceId,
}

/// The managed activation a snapshot expects.
#[derive(Clone, Copy, PartialEq, Eq, Structural)]
pub struct ClassifierManagedActivation {
    pub client_family: ClientFamilyId,
    pub client_version: ClientVersion,
    pub adapter_version: AdapterVersion,
    pub ingress_schema_version: IngressSchemaVersion,
    pub context_policy_version: ContextPolicyVersion,
    pub transform_owner: TransformOwnerId,
    pub transform_owner_version: TransformOwnerVersion,
}

/// The snapshot of a local operation.
#[derive(Clone, Copy)]
pub struct LocalSnapshot {
    pub request: ClassifierRequestBinding,
    pub auth_scope: LocalOperationAuthScope,
    pub listener: ListenerId,
    pub token_scope: IngressTokenScopeId,
}

/// The snapshot of a managed context.
#[derive(Clone, Copy)]
pub struct ClassifierManagedContext {
    pub request: ClassifierRequestBinding,
    pub ingress: ClassifierIngressBinding,
    pub issuer_epoch: IssuerEpoch,
    pub authorization_bundle_digest: AuthorizationBundleDigest,
    pub route_policy_revision: RoutePolicyRevision,
    pub consent_revision: ConsentRevision,
    pub activation: ClassifierManagedActivation,
}

/// The snapshot of a gateway-only context.
#[derive(Clone, Copy)]
pub struct ClassifierGatewayContext {
    pub request: ClassifierRequestBinding,
    pub ingress: ClassifierIngressBinding,
    pub route_policy_revision: RoutePolicyRevision,
    pub consent_revision: ConsentRevision,
    pub maximum_trust_tier: u8,
}

/// The one deployment a bound snapshot locks.
pub struct ClassifierBoundTarget {
    pub site: SiteId,
    pub deployment: ModelDeploymentId,
    pub endpoint: EndpointId,
    pub origin: CanonicalOrigin,
    pub account_selector: AccountSelectorId,
    pub account: AccountId,
    pub credential: CredentialId,
    pub adapter_contract_revision: AdapterContractRevision,
    pub trust_tier: u8,
}

/// The snapshot of a capability-bound management probe.
pub struct ClassifierCapabilityBound {
    pub request: ClassifierRequestBinding,
    pub ingress: ClassifierIngressBinding,
    pub issuer_epoch: IssuerEpoch,
    pub target: ClassifierBoundTarget,
    pub management_scope: CapabilityManagementScopeId,
    pub deadline_millis: u64,
}

/// The bound half of an exact upstream token count.
pub struct ExactUpstreamBoundSnapshot {
    pub request: ClassifierRequestBinding,
    pub target: ClassifierBoundTarget,
}

/// What a snapshot allows: exactly one disposition shape.
pub enum SnapshotMode {
    Local(LocalSnapshot),
    ManagedRouted(ClassifierManagedContext),
    GatewayRouted(ClassifierGatewayContext),
    CapabilityBound(ClassifierCapabilityBound),
    ManagedExact { context: ClassifierManagedContext, bound: ExactUpstreamBoundSnapshot },
    GatewayExact { context: ClassifierGatewayContext, bound: ExactUpstreamBoundSnapshot },
}

/// The request binding a snapshot mode was taken for.
pub open spec fn mode_request(mode: SnapshotMode) -> ClassifierRequestBinding {
    match mode {
        SnapshotMode::Local(s) => s.request,
        SnapshotMode::ManagedRouted(s) => s.request,
        SnapshotMode::GatewayRouted(s) => s.request,
        SnapshotMode::CapabilityBound(s) => s.request,
        SnapshotMode::ManagedExact { context, .. } => context.request,
        SnapshotMode::GatewayExact { context, .. } => context.request,
    }
}

/// A per-request snapshot issued by one classifier runtime's authority.
pub struct ClassifierSnapshot {
    pub(crate) seal: Arc<SnapshotDomainSeal>,
    pub(crate) registry_digest: RegistryDigest,
    pub(crate) mode: SnapshotMode,
}

impl ClassifierSnapshot {
    /// The registry digest the snapshot was issued for.
    pub closed spec fn spec_registry_digest(&self) -> RegistryDigest {
        self.registry_digest
    }

    /// What the snapshot allows.
    pub closed spec fn spec_mode(&self) -> SnapshotMode {
        self.mode
    }

    pub(crate) fn mode(&self) -> (r: &SnapshotMode)
        ensures
            *r == self.spec_mode(),
    {
        &self.mode
    }

    pub(crate) fn registry_digest(&self) -> (r: RegistryDigest)
        ensures
            r == self.spec_registry_digest(),
    {
        self.registry_digest
    }

    /// The request binding the snapshot was taken for.
    pub fn request(&self) -> (r: ClassifierRequestBinding)
        ensures
            r == mode_request(self.spec_mode()),
    {
        match &self.mode {
            SnapshotMode::Local(s) => s.request,
            SnapshotMode::ManagedRouted(s) => s.request,
            SnapshotMode::GatewayRouted(s) => s.request,
            SnapshotMode::CapabilityBound(s) => s.request,
            SnapshotMode::ManagedExact { context, .. } => context.request,
            SnapshotMode::GatewayExact { context, .. } => context.request,
        }
    }
}

/// Whether a registry digest can bind a classifier: an all-zero digest cannot.
pub open spec fn registry_digest_usable(d: RegistryDigest) -> bool {
    exists|i: int| 0 <= i < 32 && #[trigger] d.bytes()[i] != 0
}

/// Refuses an all-zero registry digest.
pub fn validate_registry_digest(d: RegistryDigest) -> (r: Result<(), RouteReject>)
    ensures
        r is Ok <==> registry_digest_usable(d),
        r is Err ==> r == Err::<(), RouteReject>(RouteReject::InvalidSnapshot),
{
    let bytes = d.as_bytes();
    let mut i: usize = 0;
    while i < 32
        invariant
            0 <= i <= 32,
            bytes@ == d.bytes(),
            d.bytes().len() == 32,
            forall|k: int| 0 <= k < i ==> d.bytes()[k] == 0,
        decreases 32 - i,
    {
        if bytes[i] != 0 {
            return Ok(());
        }
        i += 1;
    }
    Err(RouteReject::InvalidSnapshot)
}

/// The authority that issues snapshots for one classifier runtime.
pub struct ClassifierSnapshotAuthority {
    seal: Arc<SnapshotDomainSeal>,
    registry_digest: RegistryDigest,
}

impl ClassifierSnapshotAuthority {
    /// The seal it issues under.
    pub closed spec fn spec_seal(&self) -> Arc<SnapshotDomainSeal> {
        self.seal
    }

    /// The registry digest it issues for.
    pub closed spec fn spec_registry_digest(&self) -> RegistryDigest {
        self.registry_digest
    }

    pub(crate) fn new(seal: Arc<SnapshotDomainSeal>, registry_digest: RegistryDigest) -> (r: Self)
        ensures
            r.spec_seal() == seal,
            r.spec_registry_digest() == registry_digest,
    {
        ClassifierSnapshotAuthority { seal, registry_digest }
    }

    /// Issues a snapshot of this runtime for its registry.
    pub fn issue(&self, mode: SnapshotMode) -> (r: ClassifierSnapshot)
        ensures
            r.spec_registry_digest() == self.spec_registry_digest(),
            r.spec_mode() == mode,
    {
        ClassifierSnapshot { seal: self.seal.clone(), registry_digest: self.registry_digest, mode }
    }
}

} // verus!
