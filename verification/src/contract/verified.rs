//! Verified inbound requests: private fields, built only by the verifier, read through
//! borrowed views that never expose a MAC, a nonce or a raw bundle wire.
use std::sync::Arc;
use vstd::prelude::*;

use crate::contract::claims::{
    AllowedEgressTarget, AttestationClaims, AuthorizationBundle, CapabilityClaims, ContextActivationKey,
    ContextCapabilityRequirements, ContextEgressPermit, ContinuationConstraint, EgressPurpose, SensitivityClass,
};
use crate::contract::error::IngressReject;
use crate::contract::ids::{
    AccountId, AccountSelectorId, AdapterContractRevision, AdapterVersion, AudienceId, AuthorizationBundleDigest,
    BodyDigest, CapabilityManagementScopeId, ClientFamilyId, ClientVersion, ConsentRevision, ContextPolicyVersion,
    CredentialId, EndpointId, EnvelopeDigest, HandleEpoch, IngressSchemaVersion, IngressTokenScopeId, IssuerEpoch,
    ListenerId, ModelDeploymentId, OperationId, ProtocolFrameRevision, RegistryDigest, RequestDigest,
    RetrievalSchemaRevision, RoutePolicyRevision, SiteId, ToolSchemaRevision, TransformOwnerId, TransformOwnerVersion,
};
use crate::contract::operation::{LocalOperationAuthScope, MatchedOperation, RequestDispatchDomain, RequestKind};
use crate::contract::request::{HttpMethod, SanitizedRequest};
use crate::contract::signed::CanonicalOrigin;

verus! {

/// The seal of one verification domain: requests verified in one domain are refused by the
/// receiver of any other.
pub struct VerificationDomainSeal {
    _private: (),
}

impl VerificationDomainSeal {
    /// Makes a fresh seal.
    pub(crate) fn new() -> Self {
        VerificationDomainSeal { _private: () }
    }
}

/// Whether two handles share one allocation, with `std::sync::Arc::ptr_eq`.
///
/// Trusted: where it holds, the two handles point at one seal. Which allocation a handle
/// points at is not a value that contracts can state; nothing more is claimed.
#[verifier::external_body]
pub(crate) fn same_seal<T>(a: &Arc<T>, b: &Arc<T>) -> (r: bool)
    ensures
        r ==> **a == **b,
{
    Arc::ptr_eq(a, b)
}

/// The receiver bound to one verification domain, which the production classifier holds.
///
/// It accepts only verified requests of the runtime that made it; a request of another
/// verifier instance is refused even where it is cryptographically consistent.
pub struct VerifiedIngressReceiver {
    domain_seal: Arc<VerificationDomainSeal>,
    registry_digest: RegistryDigest,
}

impl VerifiedIngressReceiver {
    /// The registry digest the receiver is bound to.
    pub closed spec fn spec_registry_digest(&self) -> RegistryDigest {
        self.registry_digest
    }

    /// The verification domain the receiver belongs to.
    pub closed spec fn spec_seal(&self) -> Arc<VerificationDomainSeal> {
        self.domain_seal
    }

    pub(crate) fn new(domain_seal: Arc<VerificationDomainSeal>, registry_digest: RegistryDigest) -> (r: Self)
        ensures
            r.spec_registry_digest() == registry_digest,
            r.spec_seal() == domain_seal,
    {
        VerifiedIngressReceiver { domain_seal, registry_digest }
    }

    /// Accepts a request once the seal check has given `same_domain`: a request of another
    /// domain is refused, and one of this domain is accepted exactly where it names the
    /// receiver's registry.
    pub(crate) fn accept_checked(&self, same_domain: bool, request: VerifiedIngressRequest) -> (r: Result<
        ReceiverAcceptedIngressRequest,
        IngressReject,
    >)
        ensures
            !same_domain ==> r == Err::<ReceiverAcceptedIngressRequest, IngressReject>(
                IngressReject::VerificationDomainMismatch,
            ),
            same_domain ==> (r is Ok <==> request.spec_registry_digest() == self.spec_registry_digest()),
            same_domain && request.spec_registry_digest() != self.spec_registry_digest() ==> r == Err::<
                ReceiverAcceptedIngressRequest,
                IngressReject,
            >(IngressReject::RegistryMismatch),
            r matches Ok(a) ==> a.spec_verified() == request,
    {
        if !same_domain {
            return Err(IngressReject::VerificationDomainMismatch);
        }
        if !request.registry_digest().same(&self.registry_digest) {
            return Err(IngressReject::RegistryMismatch);
        }
        Ok(ReceiverAcceptedIngressRequest { verified: request })
    }

    /// Consumes a request and checks that it belongs to this verification domain and to its
    /// fixed registry.
    pub fn accept(&self, request: VerifiedIngressRequest) -> (r: Result<
        ReceiverAcceptedIngressRequest,
        IngressReject,
    >)
        ensures
            r is Ok ==> request.spec_registry_digest() == self.spec_registry_digest(),
            r matches Ok(a) ==> a.spec_verified() == request,
            r matches Err(e) ==> e == IngressReject::VerificationDomainMismatch || (e
                == IngressReject::RegistryMismatch && request.spec_registry_digest() != self.spec_registry_digest()),
    {
        let same_domain = same_seal(&self.domain_seal, &request.domain_seal);
        self.accept_checked(same_domain, request)
    }
}

/// Which proof a verified request carries; it cannot build a verified request.
#[derive(Clone, Copy, Debug, PartialEq, Eq, Structural)]
pub enum VerifiedProofKind {
    /// A full attestation and authorization bundle.
    Managed,
    /// A gateway-only request bound to its listener, token and consent.
    GatewayOnlyScopedConsent,
    /// A local operation scope.
    LocalOperationScoped,
    /// A management capability bound to one deployment, account and credential.
    CapabilityScoped,
}

/// Which authorization constraint a verified request carries.
#[derive(Clone, Copy, Debug, PartialEq, Eq, Structural)]
pub enum VerifiedAuthorizationKind {
    /// No outbound authority at all.
    NoEgress,
    /// A verified managed egress bundle.
    ManagedEgress,
    /// The limited gateway-only authority the user enabled explicitly.
    GatewayOnlyExplicit,
    /// One deployment, fallback forbidden.
    CapabilityBound,
}

/// A read-only view of a sanitized header.
///
/// The value may hold user input: the type has no `Debug`.
pub struct VerifiedHeaderRef<'a> {
    name: &'a [u8],
    value: &'a [u8],
}

impl<'a> VerifiedHeaderRef<'a> {
    /// The header name.
    pub closed spec fn spec_name(&self) -> Seq<u8> {
        self.name@
    }

    /// The header value.
    pub closed spec fn spec_value(&self) -> Seq<u8> {
        self.value@
    }

    /// Returns the normalized name.
    pub fn name(&self) -> (r: &'a [u8])
        ensures
            r@ == self.spec_name(),
    {
        self.name
    }

    /// Returns the raw value.
    pub fn value(&self) -> (r: &'a [u8])
        ensures
            r@ == self.spec_value(),
    {
        self.value
    }
}

/// The closed set of purposes of a verified managed egress.
#[derive(Clone, Copy, Debug, PartialEq, Eq, Structural)]
pub enum VerifiedEgressPurpose {
    /// Ordinary model inference.
    ModelInference,
    /// Auxiliary inference under its own policy.
    AuxiliaryInference,
    /// An exact remote token count bound to the real request.
    ExactUpstreamTokenCount,
}

/// The closed set of sensitivities of a verified managed request.
#[derive(Clone, Copy, Debug, PartialEq, Eq, Structural)]
pub enum VerifiedSensitivityClass {
    /// Public content.
    Public,
    /// Internal content.
    Internal,
    /// Private code or content as sensitive.
    PrivateCode,
}

/// The closed set of verified context continuation constraints.
#[derive(Clone, Copy, Debug, PartialEq, Eq, Structural)]
pub enum VerifiedContinuationConstraint {
    /// No continuation.
    NoContinuation,
    /// The full history may move across targets.
    FullHistoryPortable,
    /// The continuation state is bound to one provider.
    ProviderStateful,
}

/// The verified purpose a wire purpose stands for.
pub open spec fn verified_purpose(p: EgressPurpose) -> VerifiedEgressPurpose {
    match p {
        EgressPurpose::ModelInference => VerifiedEgressPurpose::ModelInference,
        EgressPurpose::AuxiliaryInference => VerifiedEgressPurpose::AuxiliaryInference,
        EgressPurpose::ExactUpstreamTokenCount => VerifiedEgressPurpose::ExactUpstreamTokenCount,
    }
}

/// The verified sensitivity a wire sensitivity stands for.
pub open spec fn verified_sensitivity(s: SensitivityClass) -> VerifiedSensitivityClass {
    match s {
        SensitivityClass::Public => VerifiedSensitivityClass::Public,
        SensitivityClass::Internal => VerifiedSensitivityClass::Internal,
        SensitivityClass::PrivateCode => VerifiedSensitivityClass::PrivateCode,
    }
}

/// The verified continuation a wire continuation stands for.
pub open spec fn verified_continuation(c: ContinuationConstraint) -> VerifiedContinuationConstraint {
    match c {
        ContinuationConstraint::NoContinuation => VerifiedContinuationConstraint::NoContinuation,
        ContinuationConstraint::FullHistoryPortable => VerifiedContinuationConstraint::FullHistoryPortable,
        ContinuationConstraint::ProviderStateful => VerifiedContinuationConstraint::ProviderStateful,
    }
}

/// A borrowed read-only view of a managed activation key.
pub struct VerifiedManagedActivationKeyView<'a> {
    key: &'a ContextActivationKey,
}

impl<'a> VerifiedManagedActivationKeyView<'a> {
    /// The activation key.
    pub closed spec fn spec_key(&self) -> ContextActivationKey {
        *self.key
    }

    /// Returns the client family.
    pub fn client_family(&self) -> (r: ClientFamilyId)
        ensures
            r == self.spec_key().client_family,
    {
        self.key.client_family
    }

    /// Returns the client version.
    pub fn client_version(&self) -> (r: ClientVersion)
        ensures
            r == self.spec_key().client_version,
    {
        self.key.client_version
    }

    /// Returns the client adapter version.
    pub fn adapter_version(&self) -> (r: AdapterVersion)
        ensures
            r == self.spec_key().adapter_version,
    {
        self.key.adapter_version
    }

    /// Returns the inbound schema version.
    pub fn ingress_schema_version(&self) -> (r: IngressSchemaVersion)
        ensures
            r == self.spec_key().ingress_schema_version,
    {
        self.key.ingress_schema_version
    }

    /// Returns the context policy version.
    pub fn context_policy_version(&self) -> (r: ContextPolicyVersion)
        ensures
            r == self.spec_key().context_policy_version,
    {
        self.key.context_policy_version
    }

    /// Returns the one owner of lossy transforms.
    pub fn transform_owner(&self) -> (r: TransformOwnerId)
        ensures
            r == self.spec_key().transform_owner,
    {
        self.key.transform_owner
    }

    /// Returns the version of the lossy transform owner.
    pub fn transform_owner_version(&self) -> (r: TransformOwnerVersion)
        ensures
            r == self.spec_key().transform_owner_version,
    {
        self.key.transform_owner_version
    }
}

/// A borrowed read-only view of one target that a managed egress permit allows.
pub struct VerifiedManagedEgressTargetView<'a> {
    target: &'a AllowedEgressTarget,
}

impl<'a> VerifiedManagedEgressTargetView<'a> {
    /// The target.
    pub closed spec fn spec_target(&self) -> AllowedEgressTarget {
        *self.target
    }

    /// Returns the logical site.
    pub fn site(&self) -> (r: SiteId)
        ensures
            r == self.spec_target().site,
    {
        self.target.site
    }

    /// Returns the logical model deployment.
    pub fn deployment(&self) -> (r: ModelDeploymentId)
        ensures
            r == self.spec_target().deployment,
    {
        self.target.deployment
    }

    /// Returns the trust tier of the target.
    pub fn trust_tier(&self) -> (r: u8)
        ensures
            r == self.spec_target().trust_tier,
    {
        self.target.trust_tier
    }

    /// Returns the canonical, verified origin.
    pub fn origin(&self) -> (r: &'a CanonicalOrigin)
        ensures
            *r == self.spec_target().origin,
    {
        &self.target.origin
    }
}

/// A borrowed read-only view of a managed egress permit.
///
/// The view never exposes the permit nonce, the raw authorization bundle or a MAC.
pub struct VerifiedManagedEgressPermitView<'a> {
    permit: &'a ContextEgressPermit,
}

impl<'a> VerifiedManagedEgressPermitView<'a> {
    /// The permit.
    pub closed spec fn spec_permit(&self) -> ContextEgressPermit {
        *self.permit
    }

    /// Returns the bound operation.
    pub fn operation(&self) -> (r: OperationId)
        ensures
            r == self.spec_permit().operation,
    {
        self.permit.operation
    }

    /// Returns the bound raw request digest; it must not go to an ordinary log.
    pub fn request_digest(&self) -> (r: RequestDigest)
        ensures
            r == self.spec_permit().request_digest,
    {
        self.permit.request_digest
    }

    /// Returns the bound raw body digest; it must not go to an ordinary log.
    pub fn body_digest(&self) -> (r: BodyDigest)
        ensures
            r == self.spec_permit().body_digest,
    {
        self.permit.body_digest
    }

    /// Returns the bound context envelope digest; it must not go to an ordinary log.
    pub fn envelope_digest(&self) -> (r: EnvelopeDigest)
        ensures
            r == self.spec_permit().envelope_digest,
    {
        self.permit.envelope_digest
    }

    /// Returns the largest number of outbound bytes allowed.
    pub fn max_outbound_bytes(&self) -> (r: u64)
        ensures
            r == self.spec_permit().max_outbound_bytes,
    {
        self.permit.max_outbound_bytes
    }

    /// Returns whether fallback in permit order is allowed.
    pub fn fallback_allowed(&self) -> (r: bool)
        ensures
            r == self.spec_permit().fallback_allowed,
    {
        self.permit.fallback_allowed
    }

    /// Returns the route policy revision.
    pub fn route_policy_revision(&self) -> (r: RoutePolicyRevision)
        ensures
            r == self.spec_permit().policy_revision,
    {
        self.permit.policy_revision
    }

    /// Returns the user consent revision.
    pub fn consent_revision(&self) -> (r: ConsentRevision)
        ensures
            r == self.spec_permit().consent_revision,
    {
        self.permit.consent_revision
    }

    /// Returns when the permit expires (Unix milliseconds).
    pub fn expires_at_millis(&self) -> (r: u64)
        ensures
            r == self.spec_permit().expires_at_millis,
    {
        self.permit.expires_at_millis
    }

    /// Returns the egress purpose.
    pub fn purpose(&self) -> (r: VerifiedEgressPurpose)
        ensures
            r == verified_purpose(self.spec_permit().purpose),
    {
        match self.permit.purpose {
            EgressPurpose::ModelInference => VerifiedEgressPurpose::ModelInference,
            EgressPurpose::AuxiliaryInference => VerifiedEgressPurpose::AuxiliaryInference,
            EgressPurpose::ExactUpstreamTokenCount => VerifiedEgressPurpose::ExactUpstreamTokenCount,
        }
    }

    /// Returns the data sensitivity.
    pub fn sensitivity(&self) -> (r: VerifiedSensitivityClass)
        ensures
            r == verified_sensitivity(self.spec_permit().sensitivity),
    {
        match self.permit.sensitivity {
            SensitivityClass::Public => VerifiedSensitivityClass::Public,
            SensitivityClass::Internal => VerifiedSensitivityClass::Internal,
            SensitivityClass::PrivateCode => VerifiedSensitivityClass::PrivateCode,
        }
    }

    /// Returns how many targets are allowed.
    pub fn target_count(&self) -> (r: usize)
        ensures
            r == self.spec_permit().allowed_targets@.len(),
    {
        self.permit.allowed_targets.len()
    }

    /// Returns the exactly allowed targets in canonical order.
    pub fn targets(&self) -> (r: Vec<VerifiedManagedEgressTargetView<'a>>)
        ensures
            r@.len() == self.spec_permit().allowed_targets@.len(),
            forall|i: int|
                0 <= i < r@.len() ==> #[trigger] r@[i].spec_target() == self.spec_permit().allowed_targets@[i],
    {
        let targets = &self.permit.allowed_targets;
        let mut out: Vec<VerifiedManagedEgressTargetView<'a>> = Vec::new();
        let mut i: usize = 0;
        while i < targets.len()
            invariant
                0 <= i <= targets@.len(),
                targets@ == self.spec_permit().allowed_targets@,
                out@.len() == i,
                forall|k: int| 0 <= k < i ==> #[trigger] out@[k].spec_target() == targets@[k],
            decreases targets@.len() - i,
        {
            out.push(VerifiedManagedEgressTargetView { target: &targets[i] });
            i += 1;
        }
        out
    }
}

/// A borrowed read-only view of managed capability requirements.
pub struct VerifiedManagedCapabilityRequirementsView<'a> {
    requirements: &'a ContextCapabilityRequirements,
}

impl<'a> VerifiedManagedCapabilityRequirementsView<'a> {
    /// The requirements.
    pub closed spec fn spec_requirements(&self) -> ContextCapabilityRequirements {
        *self.requirements
    }

    /// Returns the tool schema revision.
    pub fn tool_schema_revision(&self) -> (r: ToolSchemaRevision)
        ensures
            r == self.spec_requirements().tool_schema_revision,
    {
        self.requirements.tool_schema_revision
    }

    /// Returns the retrieval schema revision.
    pub fn retrieval_schema_revision(&self) -> (r: RetrievalSchemaRevision)
        ensures
            r == self.spec_requirements().retrieval_schema_revision,
    {
        self.requirements.retrieval_schema_revision
    }

    /// Returns the client adapter version.
    pub fn client_adapter_version(&self) -> (r: AdapterVersion)
        ensures
            r == self.spec_requirements().client_adapter_version,
    {
        self.requirements.client_adapter_version
    }

    /// Returns the upstream adapter contract revision.
    pub fn upstream_adapter_revision(&self) -> (r: AdapterContractRevision)
        ensures
            r == self.spec_requirements().upstream_adapter_revision,
    {
        self.requirements.upstream_adapter_revision
    }

    /// Returns the local handle epoch.
    pub fn handle_epoch(&self) -> (r: HandleEpoch)
        ensures
            r == self.spec_requirements().handle_epoch,
    {
        self.requirements.handle_epoch
    }

    /// Returns the earliest expiry of all handles; zero means that no handle is carried.
    pub fn handle_earliest_expiry_millis(&self) -> (r: u64)
        ensures
            r == self.spec_requirements().handle_earliest_expiry_millis,
    {
        self.requirements.handle_earliest_expiry_millis
    }

    /// Returns the protocol frame schema revision.
    pub fn protocol_frame_revision(&self) -> (r: ProtocolFrameRevision)
        ensures
            r == self.spec_requirements().protocol_frame_revision,
    {
        self.requirements.protocol_frame_revision
    }

    /// Returns whether the execution must hold a local retrieval handle.
    pub fn local_handle_required(&self) -> (r: bool)
        ensures
            r == self.spec_requirements().local_handle_required,
    {
        self.requirements.local_handle_required
    }

    /// Returns the context continuation constraint.
    pub fn continuation(&self) -> (r: VerifiedContinuationConstraint)
        ensures
            r == verified_continuation(self.spec_requirements().continuation),
    {
        match self.requirements.continuation {
            ContinuationConstraint::NoContinuation => VerifiedContinuationConstraint::NoContinuation,
            ContinuationConstraint::FullHistoryPortable => VerifiedContinuationConstraint::FullHistoryPortable,
            ContinuationConstraint::ProviderStateful => VerifiedContinuationConstraint::ProviderStateful,
        }
    }
}

/// What a managed proof binds.
pub struct VerifiedManagedProofBinding {
    pub listener: ListenerId,
    pub token_scope: IngressTokenScopeId,
    pub audience: AudienceId,
    pub issuer_epoch: IssuerEpoch,
    pub issued_at_millis: u64,
    pub expires_at_millis: u64,
    pub registry_digest: RegistryDigest,
    pub authorization_bundle_digest: AuthorizationBundleDigest,
    pub policy_revision: RoutePolicyRevision,
    pub adapter_version: AdapterVersion,
    pub transform_owner_version: TransformOwnerVersion,
}

/// What a gateway-only consent binds.
pub struct VerifiedGatewayOnlyProofBinding {
    pub listener: ListenerId,
    pub token_scope: IngressTokenScopeId,
    pub audience: AudienceId,
    pub issued_at_millis: u64,
    pub expires_at_millis: u64,
    pub consent_revision: ConsentRevision,
    pub route_policy_revision: RoutePolicyRevision,
    pub registry_digest: RegistryDigest,
    pub request_digest: RequestDigest,
}

/// What a local operation proof binds.
pub struct VerifiedLocalProofBinding {
    pub listener: ListenerId,
    pub token_scope: IngressTokenScopeId,
    pub auth_scope: LocalOperationAuthScope,
    pub registry_digest: RegistryDigest,
    pub request_digest: RequestDigest,
}

/// A borrowed read-only view of a managed proof and its authorization bundle.
///
/// The view exposes only the digest of the whole bundle, never a MAC, a nonce or the raw
/// bundle wire.
pub struct VerifiedManagedRequestView<'a> {
    binding: &'a VerifiedManagedProofBinding,
    bundle: &'a AuthorizationBundle,
}

impl<'a> VerifiedManagedRequestView<'a> {
    /// The proof binding.
    pub closed spec fn spec_proof(&self) -> VerifiedManagedProofBinding {
        *self.binding
    }

    /// The authorization bundle.
    pub closed spec fn spec_bundle(&self) -> AuthorizationBundle {
        *self.bundle
    }

    /// Returns the bound listener.
    pub fn listener(&self) -> (r: ListenerId)
        ensures
            r == self.spec_proof().listener,
    {
        self.binding.listener
    }

    /// Returns the bound inbound token scope.
    pub fn token_scope(&self) -> (r: IngressTokenScopeId)
        ensures
            r == self.spec_proof().token_scope,
    {
        self.binding.token_scope
    }

    /// Returns the proof audience.
    pub fn audience(&self) -> (r: AudienceId)
        ensures
            r == self.spec_proof().audience,
    {
        self.binding.audience
    }

    /// Returns the signing key epoch.
    pub fn issuer_epoch(&self) -> (r: IssuerEpoch)
        ensures
            r == self.spec_proof().issuer_epoch,
    {
        self.binding.issuer_epoch
    }

    /// Returns when the proof was issued (Unix milliseconds).
    pub fn issued_at_millis(&self) -> (r: u64)
        ensures
            r == self.spec_proof().issued_at_millis,
    {
        self.binding.issued_at_millis
    }

    /// Returns when the proof expires (Unix milliseconds).
    pub fn expires_at_millis(&self) -> (r: u64)
        ensures
            r == self.spec_proof().expires_at_millis,
    {
        self.binding.expires_at_millis
    }

    /// Returns the registry digest that the proof binds.
    pub fn registry_digest(&self) -> (r: RegistryDigest)
        ensures
            r == self.spec_proof().registry_digest,
    {
        self.binding.registry_digest
    }

    /// Returns the verified digest of the whole authorization bundle; it must not go to an ordinary log.
    pub fn authorization_bundle_digest(&self) -> (r: AuthorizationBundleDigest)
        ensures
            r == self.spec_proof().authorization_bundle_digest,
    {
        self.binding.authorization_bundle_digest
    }

    /// Returns the route policy revision.
    pub fn route_policy_revision(&self) -> (r: RoutePolicyRevision)
        ensures
            r == self.spec_proof().policy_revision,
    {
        self.binding.policy_revision
    }

    /// Returns the client adapter version that the attestation binds.
    pub fn adapter_version(&self) -> (r: AdapterVersion)
        ensures
            r == self.spec_proof().adapter_version,
    {
        self.binding.adapter_version
    }

    /// Returns the lossy transform owner version that the attestation binds.
    pub fn transform_owner_version(&self) -> (r: TransformOwnerVersion)
        ensures
            r == self.spec_proof().transform_owner_version,
    {
        self.binding.transform_owner_version
    }

    /// Returns the user consent revision.
    pub fn consent_revision(&self) -> (r: ConsentRevision)
        ensures
            r == self.spec_bundle().permit.consent_revision,
    {
        self.bundle.permit.consent_revision
    }

    /// Returns the one owner of lossy transforms.
    pub fn transform_owner(&self) -> (r: TransformOwnerId)
        ensures
            r == self.spec_bundle().activation_key.transform_owner,
    {
        self.bundle.activation_key.transform_owner
    }

    /// Returns a borrowed read-only view of the whole activation key.
    pub fn activation_key(&self) -> (r: VerifiedManagedActivationKeyView<'a>)
        ensures
            r.spec_key() == self.spec_bundle().activation_key,
    {
        VerifiedManagedActivationKeyView { key: &self.bundle.activation_key }
    }

    /// Returns a borrowed read-only view of the egress permit.
    pub fn egress_permit(&self) -> (r: VerifiedManagedEgressPermitView<'a>)
        ensures
            r.spec_permit() == self.spec_bundle().permit,
    {
        VerifiedManagedEgressPermitView { permit: &self.bundle.permit }
    }

    /// Returns a borrowed read-only view of the capability requirements.
    pub fn capability_requirements(&self) -> (r: VerifiedManagedCapabilityRequirementsView<'a>)
        ensures
            r.spec_requirements() == self.spec_bundle().requirements,
    {
        VerifiedManagedCapabilityRequirementsView { requirements: &self.bundle.requirements }
    }
}

/// A borrowed read-only view of the local consent of a gateway-only request.
pub struct VerifiedGatewayOnlyView<'a> {
    binding: &'a VerifiedGatewayOnlyProofBinding,
    maximum_trust_tier: u8,
    local_handle_allowed: bool,
}

impl<'a> VerifiedGatewayOnlyView<'a> {
    /// The consent binding.
    pub closed spec fn spec_proof(&self) -> VerifiedGatewayOnlyProofBinding {
        *self.binding
    }

    /// The highest trust tier the consent allows.
    pub closed spec fn spec_maximum_trust_tier(&self) -> u8 {
        self.maximum_trust_tier
    }

    /// Whether a local handle is allowed.
    pub closed spec fn spec_local_handle_allowed(&self) -> bool {
        self.local_handle_allowed
    }

    /// Returns the bound listener.
    pub fn listener(&self) -> (r: ListenerId)
        ensures
            r == self.spec_proof().listener,
    {
        self.binding.listener
    }

    /// Returns the bound inbound token scope.
    pub fn token_scope(&self) -> (r: IngressTokenScopeId)
        ensures
            r == self.spec_proof().token_scope,
    {
        self.binding.token_scope
    }

    /// Returns the consent audience.
    pub fn audience(&self) -> (r: AudienceId)
        ensures
            r == self.spec_proof().audience,
    {
        self.binding.audience
    }

    /// Returns when the consent was issued (Unix milliseconds).
    pub fn issued_at_millis(&self) -> (r: u64)
        ensures
            r == self.spec_proof().issued_at_millis,
    {
        self.binding.issued_at_millis
    }

    /// Returns when the consent expires (Unix milliseconds).
    pub fn expires_at_millis(&self) -> (r: u64)
        ensures
            r == self.spec_proof().expires_at_millis,
    {
        self.binding.expires_at_millis
    }

    /// Returns the consent revision.
    pub fn consent_revision(&self) -> (r: ConsentRevision)
        ensures
            r == self.spec_proof().consent_revision,
    {
        self.binding.consent_revision
    }

    /// Returns the route policy revision.
    pub fn route_policy_revision(&self) -> (r: RoutePolicyRevision)
        ensures
            r == self.spec_proof().route_policy_revision,
    {
        self.binding.route_policy_revision
    }

    /// Returns the bound registry digest.
    pub fn registry_digest(&self) -> (r: RegistryDigest)
        ensures
            r == self.spec_proof().registry_digest,
    {
        self.binding.registry_digest
    }

    /// Returns the bound raw request digest; it must not go to an ordinary log.
    pub fn request_digest(&self) -> (r: RequestDigest)
        ensures
            r == self.spec_proof().request_digest,
    {
        self.binding.request_digest
    }

    /// Returns the highest trust tier the consent allows.
    pub fn maximum_trust_tier(&self) -> (r: u8)
        ensures
            r == self.spec_maximum_trust_tier(),
    {
        self.maximum_trust_tier
    }

    /// Gateway-only authority never grants a local handle or retrieval authority.
    pub fn local_handle_allowed(&self) -> (r: bool)
        ensures
            r == self.spec_local_handle_allowed(),
    {
        self.local_handle_allowed
    }
}

/// A read-only view of an exact capability-scoped binding.
///
/// It is borrowed from the crate-private state that the receiver accepted; nothing can be
/// built or raised from it.
pub struct VerifiedCapabilityBindingView<'a> {
    claims: &'a CapabilityClaims,
}

impl<'a> VerifiedCapabilityBindingView<'a> {
    /// The claims.
    pub closed spec fn spec_claims(&self) -> CapabilityClaims {
        *self.claims
    }

    /// Returns the bound listener.
    pub fn listener(&self) -> (r: ListenerId)
        ensures
            r == self.spec_claims().listener,
    {
        self.claims.listener
    }

    /// Returns the bound inbound token scope.
    pub fn token_scope(&self) -> (r: IngressTokenScopeId)
        ensures
            r == self.spec_claims().token_scope,
    {
        self.claims.token_scope
    }

    /// Returns the authorization audience.
    pub fn audience(&self) -> (r: AudienceId)
        ensures
            r == self.spec_claims().audience,
    {
        self.claims.audience
    }

    /// Returns the signing key epoch.
    pub fn issuer_epoch(&self) -> (r: IssuerEpoch)
        ensures
            r == self.spec_claims().issuer_epoch,
    {
        self.claims.issuer_epoch
    }

    /// Returns when it was issued (Unix milliseconds).
    pub fn issued_at_millis(&self) -> (r: u64)
        ensures
            r == self.spec_claims().issued_at_millis,
    {
        self.claims.issued_at_millis
    }

    /// Returns the bound registry digest.
    pub fn registry_digest(&self) -> (r: RegistryDigest)
        ensures
            r == self.spec_claims().registry_digest,
    {
        self.claims.registry_digest
    }

    /// Returns the bound raw request digest; it must not go to an ordinary log.
    pub fn request_digest(&self) -> (r: RequestDigest)
        ensures
            r == self.spec_claims().request_digest,
    {
        self.claims.request_digest
    }

    /// Returns the one site.
    pub fn site(&self) -> (r: SiteId)
        ensures
            r == self.spec_claims().site,
    {
        self.claims.site
    }

    /// Returns the one model deployment.
    pub fn deployment(&self) -> (r: ModelDeploymentId)
        ensures
            r == self.spec_claims().deployment,
    {
        self.claims.deployment
    }

    /// Returns the one endpoint.
    pub fn endpoint(&self) -> (r: EndpointId)
        ensures
            r == self.spec_claims().endpoint,
    {
        self.claims.endpoint
    }

    /// Returns the one account selector.
    pub fn account_selector(&self) -> (r: AccountSelectorId)
        ensures
            r == self.spec_claims().account_selector,
    {
        self.claims.account_selector
    }

    /// Returns the one account.
    pub fn account(&self) -> (r: AccountId)
        ensures
            r == self.spec_claims().account,
    {
        self.claims.account
    }

    /// Returns the one logical credential.
    pub fn credential(&self) -> (r: CredentialId)
        ensures
            r == self.spec_claims().credential,
    {
        self.claims.credential
    }

    /// Returns the locked adapter contract revision.
    pub fn adapter_contract_revision(&self) -> (r: AdapterContractRevision)
        ensures
            r == self.spec_claims().adapter_contract_revision,
    {
        self.claims.adapter_contract_revision
    }

    /// Returns the trust tier that the signature binds.
    pub fn trust_tier(&self) -> (r: u8)
        ensures
            r == self.spec_claims().trust_tier,
    {
        self.claims.trust_tier
    }

    /// Returns the management scope.
    pub fn management_scope(&self) -> (r: CapabilityManagementScopeId)
        ensures
            r == self.spec_claims().management_scope,
    {
        self.claims.management_scope
    }

    /// Returns the absolute deadline (Unix milliseconds).
    pub fn deadline_millis(&self) -> (r: u64)
        ensures
            r == self.spec_claims().deadline_millis,
    {
        self.claims.deadline_millis
    }

    /// Capability-scoped requests never fall back.
    pub fn fallback_forbidden(&self) -> (r: bool)
        ensures
            r == self.spec_claims().fallback_forbidden,
    {
        self.claims.fallback_forbidden
    }

    /// Returns the exact canonical origin.
    pub fn origin(&self) -> (r: &'a CanonicalOrigin)
        ensures
            *r == self.spec_claims().origin,
    {
        &self.claims.origin
    }
}

/// What a managed proof keeps of attestation claims.
pub open spec fn managed_proof_of(claims: AttestationClaims) -> VerifiedManagedProofBinding {
    VerifiedManagedProofBinding {
        listener: claims.listener,
        token_scope: claims.token_scope,
        audience: claims.audience,
        issuer_epoch: claims.issuer_epoch,
        issued_at_millis: claims.issued_at_millis,
        expires_at_millis: claims.expires_at_millis,
        registry_digest: claims.registry_digest,
        authorization_bundle_digest: claims.authorization_bundle_digest,
        policy_revision: claims.policy_revision,
        adapter_version: claims.adapter_version,
        transform_owner_version: claims.transform_owner_version,
    }
}

/// Whether every byte is zero.
pub open spec fn zero_bytes(b: Seq<u8>) -> bool {
    forall|i: int| 0 <= i < b.len() ==> b[i] == 0
}

/// Whether the identifiers and digests a proof binds are all set: no zero identifier and no
/// all-zero digest or nonce.
pub open spec fn proof_nonzero(evidence: VerifiedProof) -> bool {
    match evidence {
        VerifiedProof::Managed(p) => p.issuer_epoch.value() != 0 && !zero_bytes(p.authorization_bundle_digest.bytes())
            && !zero_bytes(p.registry_digest.bytes()),
        VerifiedProof::GatewayOnlyScopedConsent(p) => p.listener.value() != 0 && p.token_scope.value() != 0
            && p.consent_revision.value() != 0 && p.route_policy_revision.value() != 0 && !zero_bytes(
            p.registry_digest.bytes(),
        ) && !zero_bytes(p.request_digest.bytes()),
        VerifiedProof::LocalOperationScoped(p) => p.listener.value() != 0 && p.token_scope.value() != 0 && !zero_bytes(
            p.registry_digest.bytes(),
        ) && !zero_bytes(p.request_digest.bytes()),
        VerifiedProof::CapabilityScoped(c) => !zero_bytes(c.nonce.bytes()) && !zero_bytes(c.registry_digest.bytes())
            && !zero_bytes(c.request_digest.bytes()),
    }
}

fn all_zero(b: &[u8]) -> (r: bool)
    ensures
        r == zero_bytes(b@),
{
    let mut i: usize = 0;
    while i < b.len()
        invariant
            0 <= i <= b@.len(),
            forall|k: int| 0 <= k < i ==> b@[k] == 0,
        decreases b@.len() - i,
    {
        if b[i] != 0 {
            return false;
        }
        i += 1;
    }
    true
}

/// The proof a verified request carries.
pub enum VerifiedProof {
    Managed(VerifiedManagedProofBinding),
    GatewayOnlyScopedConsent(VerifiedGatewayOnlyProofBinding),
    LocalOperationScoped(VerifiedLocalProofBinding),
    CapabilityScoped(CapabilityClaims),
}

/// The authorization a verified request carries.
pub enum VerifiedAuthorization {
    NoEgress,
    Managed(Box<AuthorizationBundle>),
    GatewayOnlyExplicit { maximum_trust_tier: u8, local_handle_allowed: bool },
    CapabilityBound,
}

/// The registry digest a proof binds.
pub open spec fn proof_registry_digest(evidence: VerifiedProof) -> RegistryDigest {
    match evidence {
        VerifiedProof::Managed(p) => p.registry_digest,
        VerifiedProof::GatewayOnlyScopedConsent(p) => p.registry_digest,
        VerifiedProof::LocalOperationScoped(p) => p.registry_digest,
        VerifiedProof::CapabilityScoped(c) => c.registry_digest,
    }
}

/// The kind of a proof.
pub open spec fn proof_kind_of(evidence: VerifiedProof) -> VerifiedProofKind {
    match evidence {
        VerifiedProof::Managed(_) => VerifiedProofKind::Managed,
        VerifiedProof::GatewayOnlyScopedConsent(_) => VerifiedProofKind::GatewayOnlyScopedConsent,
        VerifiedProof::LocalOperationScoped(_) => VerifiedProofKind::LocalOperationScoped,
        VerifiedProof::CapabilityScoped(_) => VerifiedProofKind::CapabilityScoped,
    }
}

/// The kind of an authorization.
pub open spec fn authorization_kind_of(a: VerifiedAuthorization) -> VerifiedAuthorizationKind {
    match a {
        VerifiedAuthorization::NoEgress => VerifiedAuthorizationKind::NoEgress,
        VerifiedAuthorization::Managed(_) => VerifiedAuthorizationKind::ManagedEgress,
        VerifiedAuthorization::GatewayOnlyExplicit { .. } => VerifiedAuthorizationKind::GatewayOnlyExplicit,
        VerifiedAuthorization::CapabilityBound => VerifiedAuthorizationKind::CapabilityBound,
    }
}

/// The listener and token scope a proof binds.
pub open spec fn proof_listener_scope(evidence: VerifiedProof) -> (ListenerId, IngressTokenScopeId) {
    match evidence {
        VerifiedProof::Managed(p) => (p.listener, p.token_scope),
        VerifiedProof::GatewayOnlyScopedConsent(p) => (p.listener, p.token_scope),
        VerifiedProof::LocalOperationScoped(p) => (p.listener, p.token_scope),
        VerifiedProof::CapabilityScoped(c) => (c.listener, c.token_scope),
    }
}

/// An opaque inbound request that the verifier made and no production receiver has accepted
/// yet.
///
/// Its fields are private; it has no `Clone`, `Copy`, `Debug` or `Default`.
pub struct VerifiedIngressRequest {
    domain_seal: Arc<VerificationDomainSeal>,
    operation: MatchedOperation,
    request: SanitizedRequest,
    evidence: VerifiedProof,
    authorization: VerifiedAuthorization,
}

impl VerifiedIngressRequest {
    #[verifier::type_invariant]
    closed spec fn inv(self) -> bool {
        (self.evidence is Managed) == (self.authorization is Managed)
    }

    /// The verification domain the request was verified in.
    pub closed spec fn spec_seal(&self) -> Arc<VerificationDomainSeal> {
        self.domain_seal
    }

    /// The proof.
    pub closed spec fn spec_proof(&self) -> VerifiedProof {
        self.evidence
    }

    /// The authorization.
    pub closed spec fn spec_authorization(&self) -> VerifiedAuthorization {
        self.authorization
    }

    /// The matched operation.
    pub closed spec fn spec_operation(&self) -> MatchedOperation {
        self.operation
    }

    /// The sanitized request.
    pub closed spec fn spec_request(&self) -> SanitizedRequest {
        self.request
    }

    /// The registry digest the proof binds.
    pub open spec fn spec_registry_digest(&self) -> RegistryDigest {
        proof_registry_digest(self.spec_proof())
    }

    /// The raw request digest the proof (or, for a managed proof, the permit) binds.
    pub open spec fn spec_request_digest(&self) -> RequestDigest {
        match self.spec_proof() {
            VerifiedProof::Managed(_) => match self.spec_authorization() {
                VerifiedAuthorization::Managed(b) => b.permit.request_digest,
                _ => arbitrary(),
            },
            VerifiedProof::GatewayOnlyScopedConsent(p) => p.request_digest,
            VerifiedProof::LocalOperationScoped(p) => p.request_digest,
            VerifiedProof::CapabilityScoped(c) => c.request_digest,
        }
    }

    pub(crate) fn from_managed(
        domain_seal: Arc<VerificationDomainSeal>,
        operation: MatchedOperation,
        request: SanitizedRequest,
        claims: AttestationClaims,
        authorization_bundle: AuthorizationBundle,
    ) -> (r: Self)
        ensures
            r.spec_seal() == domain_seal,
            r.spec_operation() == operation,
            r.spec_request() == request,
            r.spec_proof() == VerifiedProof::Managed(managed_proof_of(claims)),
            r.spec_authorization() == VerifiedAuthorization::Managed(Box::new(authorization_bundle)),
    {
        VerifiedIngressRequest {
            domain_seal,
            operation,
            request,
            evidence: VerifiedProof::Managed(
                VerifiedManagedProofBinding {
                    listener: claims.listener,
                    token_scope: claims.token_scope,
                    audience: claims.audience,
                    issuer_epoch: claims.issuer_epoch,
                    issued_at_millis: claims.issued_at_millis,
                    expires_at_millis: claims.expires_at_millis,
                    registry_digest: claims.registry_digest,
                    authorization_bundle_digest: claims.authorization_bundle_digest,
                    policy_revision: claims.policy_revision,
                    adapter_version: claims.adapter_version,
                    transform_owner_version: claims.transform_owner_version,
                },
            ),
            authorization: VerifiedAuthorization::Managed(Box::new(authorization_bundle)),
        }
    }

    pub(crate) fn from_gateway_only(
        domain_seal: Arc<VerificationDomainSeal>,
        operation: MatchedOperation,
        request: SanitizedRequest,
        binding: VerifiedGatewayOnlyProofBinding,
        maximum_trust_tier: u8,
    ) -> (r: Self)
        ensures
            r.spec_seal() == domain_seal,
            r.spec_operation() == operation,
            r.spec_request() == request,
            r.spec_proof() == VerifiedProof::GatewayOnlyScopedConsent(binding),
            r.spec_authorization() == (VerifiedAuthorization::GatewayOnlyExplicit {
                maximum_trust_tier,
                local_handle_allowed: false,
            }),
    {
        VerifiedIngressRequest {
            domain_seal,
            operation,
            request,
            evidence: VerifiedProof::GatewayOnlyScopedConsent(binding),
            authorization: VerifiedAuthorization::GatewayOnlyExplicit { maximum_trust_tier, local_handle_allowed: false },
        }
    }

    pub(crate) fn from_local(
        domain_seal: Arc<VerificationDomainSeal>,
        operation: MatchedOperation,
        request: SanitizedRequest,
        binding: VerifiedLocalProofBinding,
    ) -> (r: Self)
        ensures
            r.spec_seal() == domain_seal,
            r.spec_operation() == operation,
            r.spec_request() == request,
            r.spec_proof() == VerifiedProof::LocalOperationScoped(binding),
            r.spec_authorization() == VerifiedAuthorization::NoEgress,
    {
        VerifiedIngressRequest {
            domain_seal,
            operation,
            request,
            evidence: VerifiedProof::LocalOperationScoped(binding),
            authorization: VerifiedAuthorization::NoEgress,
        }
    }

    pub(crate) fn from_capability(
        domain_seal: Arc<VerificationDomainSeal>,
        operation: MatchedOperation,
        request: SanitizedRequest,
        claims: CapabilityClaims,
    ) -> (r: Self)
        ensures
            r.spec_seal() == domain_seal,
            r.spec_operation() == operation,
            r.spec_request() == request,
            r.spec_proof() == VerifiedProof::CapabilityScoped(claims),
            r.spec_authorization() == VerifiedAuthorization::CapabilityBound,
    {
        VerifiedIngressRequest {
            domain_seal,
            operation,
            request,
            evidence: VerifiedProof::CapabilityScoped(claims),
            authorization: VerifiedAuthorization::CapabilityBound,
        }
    }

    pub fn operation(&self) -> (r: OperationId)
        ensures
            r == self.spec_operation().spec.spec_operation(),
    {
        self.operation.spec.operation()
    }

    pub(crate) fn request_kind(&self) -> (r: RequestKind)
        ensures
            r == self.spec_operation().spec.spec_kind(),
    {
        self.operation.spec.kind()
    }

    pub fn dispatch_domain(&self) -> (r: RequestDispatchDomain)
        ensures
            r == self.spec_operation().spec.spec_dispatch_domain(),
    {
        self.operation.spec.dispatch_domain()
    }

    pub(crate) fn registry_digest(&self) -> (r: RegistryDigest)
        ensures
            r == self.spec_registry_digest(),
    {
        match &self.evidence {
            VerifiedProof::Managed(p) => p.registry_digest,
            VerifiedProof::GatewayOnlyScopedConsent(p) => p.registry_digest,
            VerifiedProof::LocalOperationScoped(p) => p.registry_digest,
            VerifiedProof::CapabilityScoped(c) => c.registry_digest,
        }
    }

    pub fn proof_kind(&self) -> (r: VerifiedProofKind)
        ensures
            r == proof_kind_of(self.spec_proof()),
    {
        match &self.evidence {
            VerifiedProof::Managed(_) => VerifiedProofKind::Managed,
            VerifiedProof::GatewayOnlyScopedConsent(_) => VerifiedProofKind::GatewayOnlyScopedConsent,
            VerifiedProof::LocalOperationScoped(_) => VerifiedProofKind::LocalOperationScoped,
            VerifiedProof::CapabilityScoped(_) => VerifiedProofKind::CapabilityScoped,
        }
    }

    pub fn authorization_kind(&self) -> (r: VerifiedAuthorizationKind)
        ensures
            r == authorization_kind_of(self.spec_authorization()),
    {
        match &self.authorization {
            VerifiedAuthorization::NoEgress => VerifiedAuthorizationKind::NoEgress,
            VerifiedAuthorization::Managed(_) => VerifiedAuthorizationKind::ManagedEgress,
            VerifiedAuthorization::GatewayOnlyExplicit { .. } => VerifiedAuthorizationKind::GatewayOnlyExplicit,
            VerifiedAuthorization::CapabilityBound => VerifiedAuthorizationKind::CapabilityBound,
        }
    }

    pub(crate) fn method(&self) -> (r: HttpMethod)
        ensures
            r == self.spec_request().spec_method(),
    {
        self.request.method()
    }

    pub(crate) fn target(&self) -> (r: &[u8])
        ensures
            r@ == self.spec_request().spec_target(),
    {
        self.request.target()
    }

    pub(crate) fn body(&self) -> (r: &[u8])
        ensures
            r@ == self.spec_request().spec_body(),
    {
        self.request.body()
    }

    pub fn headers(&self) -> (r: Vec<VerifiedHeaderRef<'_>>)
        ensures
            r@.len() == self.spec_request().spec_headers().len(),
            forall|i: int|
                0 <= i < r@.len() ==> (#[trigger] r@[i]).spec_name() == self.spec_request().spec_headers()[i].spec_name()
                    && r@[i].spec_value() == self.spec_request().spec_headers()[i].spec_value(),
    {
        let headers = self.request.headers();
        let mut out: Vec<VerifiedHeaderRef<'_>> = Vec::new();
        let mut i: usize = 0;
        while i < headers.len()
            invariant
                0 <= i <= headers@.len(),
                headers@ == self.spec_request().spec_headers(),
                out@.len() == i,
                forall|k: int|
                    0 <= k < i ==> (#[trigger] out@[k]).spec_name() == headers@[k].spec_name() && out@[k].spec_value()
                        == headers@[k].spec_value(),
            decreases headers@.len() - i,
        {
            out.push(VerifiedHeaderRef { name: headers[i].name(), value: headers[i].value() });
            i += 1;
        }
        out
    }

    pub fn capability_binding(&self) -> (r: Option<VerifiedCapabilityBindingView<'_>>)
        ensures
            match self.spec_proof() {
                VerifiedProof::CapabilityScoped(c) => r matches Some(v) && v.spec_claims() == c,
                _ => r is None,
            },
    {
        match &self.evidence {
            VerifiedProof::CapabilityScoped(claims) => Some(VerifiedCapabilityBindingView { claims }),
            _ => None,
        }
    }

    pub(crate) fn request_digest(&self) -> (r: RequestDigest)
        ensures
            r == self.spec_request_digest(),
    {
        proof {
            use_type_invariant(self);
        }
        match &self.evidence {
            VerifiedProof::Managed(_) => match &self.authorization {
                VerifiedAuthorization::Managed(bundle) => bundle.permit.request_digest,
                _ => {
                    assert(false);
                    RequestDigest::from_bytes([0u8; 32])
                },
            },
            VerifiedProof::GatewayOnlyScopedConsent(p) => p.request_digest,
            VerifiedProof::LocalOperationScoped(p) => p.request_digest,
            VerifiedProof::CapabilityScoped(c) => c.request_digest,
        }
    }

    pub(crate) fn listener_scope(&self) -> (r: (ListenerId, IngressTokenScopeId))
        ensures
            r == proof_listener_scope(self.spec_proof()),
    {
        match &self.evidence {
            VerifiedProof::Managed(p) => (p.listener, p.token_scope),
            VerifiedProof::GatewayOnlyScopedConsent(p) => (p.listener, p.token_scope),
            VerifiedProof::LocalOperationScoped(p) => (p.listener, p.token_scope),
            VerifiedProof::CapabilityScoped(c) => (c.listener, c.token_scope),
        }
    }

    pub fn local_auth_scope(&self) -> (r: Option<LocalOperationAuthScope>)
        ensures
            r == match self.spec_proof() {
                VerifiedProof::LocalOperationScoped(p) => Some(p.auth_scope),
                _ => None,
            },
    {
        match &self.evidence {
            VerifiedProof::LocalOperationScoped(p) => Some(p.auth_scope),
            _ => None,
        }
    }

    pub fn local_handle_allowed(&self) -> (r: bool)
        ensures
            r == match self.spec_authorization() {
                VerifiedAuthorization::Managed(b) => b.requirements.local_handle_required,
                VerifiedAuthorization::GatewayOnlyExplicit { local_handle_allowed, .. } => local_handle_allowed,
                _ => false,
            },
    {
        match &self.authorization {
            VerifiedAuthorization::Managed(bundle) => bundle.requirements.local_handle_required,
            VerifiedAuthorization::GatewayOnlyExplicit { local_handle_allowed, .. } => *local_handle_allowed,
            _ => false,
        }
    }

    /// Whether the identifiers and digests the proof binds are all set.
    pub fn proof_binding_is_nonzero(&self) -> (r: bool)
        ensures
            r == proof_nonzero(self.spec_proof()),
    {
        match &self.evidence {
            VerifiedProof::Managed(p) => p.issuer_epoch.get() != 0 && !all_zero(
                p.authorization_bundle_digest.as_bytes().as_slice(),
            ) && !all_zero(p.registry_digest.as_bytes().as_slice()),
            VerifiedProof::GatewayOnlyScopedConsent(p) => p.listener.get() != 0 && p.token_scope.get() != 0
                && p.consent_revision.get() != 0 && p.route_policy_revision.get() != 0 && !all_zero(
                p.registry_digest.as_bytes().as_slice(),
            ) && !all_zero(p.request_digest.as_bytes().as_slice()),
            VerifiedProof::LocalOperationScoped(p) => p.listener.get() != 0 && p.token_scope.get() != 0 && !all_zero(
                p.registry_digest.as_bytes().as_slice(),
            ) && !all_zero(p.request_digest.as_bytes().as_slice()),
            VerifiedProof::CapabilityScoped(c) => !all_zero(c.nonce.as_bytes().as_slice()) && !all_zero(
                c.registry_digest.as_bytes().as_slice(),
            ) && !all_zero(c.request_digest.as_bytes().as_slice()),
        }
    }

    pub fn managed(&self) -> (r: Option<VerifiedManagedRequestView<'_>>)
        ensures
            match (self.spec_proof(), self.spec_authorization()) {
                (VerifiedProof::Managed(p), VerifiedAuthorization::Managed(b)) => r matches Some(v) && v.spec_proof()
                    == p && v.spec_bundle() == *b,
                _ => r is None,
            },
    {
        match (&self.evidence, &self.authorization) {
            (VerifiedProof::Managed(binding), VerifiedAuthorization::Managed(bundle)) => Some(
                VerifiedManagedRequestView { binding, bundle },
            ),
            _ => None,
        }
    }

    pub fn gateway_only(&self) -> (r: Option<VerifiedGatewayOnlyView<'_>>)
        ensures
            match (self.spec_proof(), self.spec_authorization()) {
                (
                    VerifiedProof::GatewayOnlyScopedConsent(p),
                    VerifiedAuthorization::GatewayOnlyExplicit { maximum_trust_tier, local_handle_allowed },
                ) => r matches Some(v) && v.spec_proof() == p && v.spec_maximum_trust_tier() == maximum_trust_tier
                    && v.spec_local_handle_allowed() == local_handle_allowed,
                _ => r is None,
            },
    {
        match (&self.evidence, &self.authorization) {
            (
                VerifiedProof::GatewayOnlyScopedConsent(binding),
                VerifiedAuthorization::GatewayOnlyExplicit { maximum_trust_tier, local_handle_allowed },
            ) => Some(
                VerifiedGatewayOnlyView {
                    binding,
                    maximum_trust_tier: *maximum_trust_tier,
                    local_handle_allowed: *local_handle_allowed,
                },
            ),
            _ => None,
        }
    }
}

/// The inbound request state that the production receiver accepted; only the classifier
/// reads it.
///
/// Its fields are private; it has no `Clone`, `Copy`, `Debug` or `Default`.
pub struct ReceiverAcceptedIngressRequest {
    verified: VerifiedIngressRequest,
}

impl ReceiverAcceptedIngressRequest {
    /// The accepted request.
    pub closed spec fn spec_verified(&self) -> VerifiedIngressRequest {
        self.verified
    }

    /// The accepted request, borrowed.
    pub(crate) fn verified(&self) -> (r: &VerifiedIngressRequest)
        ensures
            *r == self.spec_verified(),
    {
        &self.verified
    }

    /// Returns the operation that the gateway matched again.
    pub(crate) fn operation(&self) -> (r: OperationId)
        ensures
            r == self.spec_verified().spec_operation().spec.spec_operation(),
    {
        self.verified.operation()
    }

    /// Returns the registry digest that the receiver checked again.
    pub(crate) fn registry_digest(&self) -> (r: RegistryDigest)
        ensures
            r == self.spec_verified().spec_registry_digest(),
    {
        self.verified.registry_digest()
    }

    /// Returns the raw request digest the proof binds; it must not go to an ordinary log.
    pub(crate) fn request_digest(&self) -> (r: RequestDigest)
        ensures
            r == self.spec_verified().spec_request_digest(),
    {
        self.verified.request_digest()
    }

    /// Returns the request semantics the specification fixes.
    pub(crate) fn request_kind(&self) -> (r: RequestKind)
        ensures
            r == self.spec_verified().spec_operation().spec.spec_kind(),
    {
        self.verified.request_kind()
    }

    /// Returns the dispatch domain the specification fixes.
    pub(crate) fn dispatch_domain(&self) -> (r: RequestDispatchDomain)
        ensures
            r == self.spec_verified().spec_operation().spec.spec_dispatch_domain(),
    {
        self.verified.dispatch_domain()
    }

    /// Returns the sanitized method.
    pub(crate) fn method(&self) -> (r: HttpMethod)
        ensures
            r == self.spec_verified().spec_request().spec_method(),
    {
        self.verified.method()
    }

    /// Returns the verified raw target.
    pub(crate) fn target(&self) -> (r: &[u8])
        ensures
            r@ == self.spec_verified().spec_request().spec_target(),
    {
        self.verified.target()
    }

    /// Borrows the raw body.
    pub(crate) fn body(&self) -> (r: &[u8])
        ensures
            r@ == self.spec_verified().spec_request().spec_body(),
    {
        self.verified.body()
    }

    /// Returns the sanitized headers, in order.
    pub(crate) fn headers(&self) -> (r: Vec<VerifiedHeaderRef<'_>>)
        ensures
            r@.len() == self.spec_verified().spec_request().spec_headers().len(),
            forall|k: int|
                0 <= k < r@.len() ==> (#[trigger] r@[k]).spec_name()
                    == self.spec_verified().spec_request().spec_headers()[k].spec_name() && r@[k].spec_value()
                    == self.spec_verified().spec_request().spec_headers()[k].spec_value(),
    {
        self.verified.headers()
    }
}

} // verus!
