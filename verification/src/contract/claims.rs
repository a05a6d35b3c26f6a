//! The claims that the signed wires carry, and the closed code sets inside them.
use vstd::prelude::*;

use crate::contract::error::IngressReject;
use crate::contract::ids::{
    AccountId, AccountSelectorId, AdapterContractRevision, AdapterVersion, AudienceId, AuthorizationBundleDigest,
    BodyDigest, CapabilityManagementScopeId, ClientFamilyId, ClientVersion, ConsentRevision, ContextPolicyVersion,
    CredentialId, EndpointId, EnvelopeDigest, HandleEpoch, IngressSchemaVersion, IngressTokenScopeId, IssuerEpoch,
    ListenerId, ModelDeploymentId, OneShotNonce, OperationId, ProtocolFrameRevision, RegistryDigest, RequestDigest,
    RetrievalSchemaRevision, RoutePolicyRevision, SemanticHeadersDigest, SiteId, ToolSchemaRevision, TransformOwnerId,
    TransformOwnerVersion,
};
use crate::contract::operation::RequestDispatchDomain;
use crate::contract::request::HttpMethod;
use crate::contract::signed::CanonicalOrigin;

verus! {

/// What a managed egress is for.
#[derive(Clone, Copy, Debug, PartialEq, Eq, Structural)]
pub enum EgressPurpose {
    ModelInference,
    AuxiliaryInference,
    ExactUpstreamTokenCount,
}

/// The wire code of an egress purpose.
pub open spec fn purpose_code(p: EgressPurpose) -> u8 {
    match p {
        EgressPurpose::ModelInference => 1,
        EgressPurpose::AuxiliaryInference => 2,
        EgressPurpose::ExactUpstreamTokenCount => 3,
    }
}

impl EgressPurpose {
    /// Returns the wire code.
    pub fn code(self) -> (r: u8)
        ensures
            r == purpose_code(self),
    {
        match self {
            EgressPurpose::ModelInference => 1,
            EgressPurpose::AuxiliaryInference => 2,
            EgressPurpose::ExactUpstreamTokenCount => 3,
        }
    }

    /// Decodes a wire code; an unknown code is a malformed bundle.
    pub fn from_code(code: u8) -> (r: Result<Self, IngressReject>)
        ensures
            (1 <= code <= 3) <==> r is Ok,
            r matches Ok(p) ==> purpose_code(p) == code,
            r is Err ==> r == Err::<Self, IngressReject>(IngressReject::AuthorizationBundleMalformed),
    {
        match code {
            1 => Ok(EgressPurpose::ModelInference),
            2 => Ok(EgressPurpose::AuxiliaryInference),
            3 => Ok(EgressPurpose::ExactUpstreamTokenCount),
            _ => Err(IngressReject::AuthorizationBundleMalformed),
        }
    }
}

/// How sensitive the data of a managed request is.
#[derive(Clone, Copy, Debug, PartialEq, Eq, Structural)]
pub enum SensitivityClass {
    Public,
    Internal,
    PrivateCode,
}

/// The wire code of a sensitivity class.
pub open spec fn sensitivity_code(s: SensitivityClass) -> u8 {
    match s {
        SensitivityClass::Public => 1,
        SensitivityClass::Internal => 2,
        SensitivityClass::PrivateCode => 3,
    }
}

impl SensitivityClass {
    /// Returns the wire code.
    pub fn code(self) -> (r: u8)
        ensures
            r == sensitivity_code(self),
    {
        match self {
            SensitivityClass::Public => 1,
            SensitivityClass::Internal => 2,
            SensitivityClass::PrivateCode => 3,
        }
    }

    /// Decodes a wire code; an unknown code is a malformed bundle.
    pub fn from_code(code: u8) -> (r: Result<Self, IngressReject>)
        ensures
            (1 <= code <= 3) <==> r is Ok,
            r matches Ok(s) ==> sensitivity_code(s) == code,
            r is Err ==> r == Err::<Self, IngressReject>(IngressReject::AuthorizationBundleMalformed),
    {
        match code {
            1 => Ok(SensitivityClass::Public),
            2 => Ok(SensitivityClass::Internal),
            3 => Ok(SensitivityClass::PrivateCode),
            _ => Err(IngressReject::AuthorizationBundleMalformed),
        }
    }
}

/// How a context may be continued.
#[derive(Clone, Copy, Debug, PartialEq, Eq, Structural)]
pub enum ContinuationConstraint {
    NoContinuation,
    FullHistoryPortable,
    ProviderStateful,
}

/// The wire code of a continuation constraint.
pub open spec fn continuation_code(c: ContinuationConstraint) -> u8 {
    match c {
        ContinuationConstraint::NoContinuation => 0,
        ContinuationConstraint::FullHistoryPortable => 1,
        ContinuationConstraint::ProviderStateful => 2,
    }
}

impl ContinuationConstraint {
    /// Returns the wire code.
    pub fn code(self) -> (r: u8)
        ensures
            r == continuation_code(self),
    {
        match self {
            ContinuationConstraint::NoContinuation => 0,
            ContinuationConstraint::FullHistoryPortable => 1,
            ContinuationConstraint::ProviderStateful => 2,
        }
    }

    /// Decodes a wire code; an unknown code is a malformed bundle.
    pub fn from_code(code: u8) -> (r: Result<Self, IngressReject>)
        ensures
            (code <= 2) <==> r is Ok,
            r matches Ok(c) ==> continuation_code(c) == code,
            r is Err ==> r == Err::<Self, IngressReject>(IngressReject::AuthorizationBundleMalformed),
    {
        match code {
            0 => Ok(ContinuationConstraint::NoContinuation),
            1 => Ok(ContinuationConstraint::FullHistoryPortable),
            2 => Ok(ContinuationConstraint::ProviderStateful),
            _ => Err(IngressReject::AuthorizationBundleMalformed),
        }
    }
}

/// One target that an egress permit allows.
pub struct AllowedEgressTarget {
    pub site: SiteId,
    pub deployment: ModelDeploymentId,
    pub origin: CanonicalOrigin,
    pub trust_tier: u8,
}

impl AllowedEgressTarget {
    /// What the target holds: site, deployment, origin bytes and trust tier.
    pub closed spec fn spec_fields(&self) -> (SiteId, ModelDeploymentId, Seq<u8>, u8) {
        (self.site, self.deployment, self.origin.bytes(), self.trust_tier)
    }
}

impl Clone for AllowedEgressTarget {
    fn clone(&self) -> (r: Self)
        ensures
            r.spec_fields() == self.spec_fields(),
    {
        AllowedEgressTarget {
            site: self.site,
            deployment: self.deployment,
            origin: self.origin.clone(),
            trust_tier: self.trust_tier,
        }
    }
}

/// The egress permit of a managed request.
pub struct ContextEgressPermit {
    pub operation: OperationId,
    pub request_digest: RequestDigest,
    pub body_digest: BodyDigest,
    pub envelope_digest: EnvelopeDigest,
    pub nonce: OneShotNonce,
    pub purpose: EgressPurpose,
    pub sensitivity: SensitivityClass,
    pub max_outbound_bytes: u64,
    pub allowed_targets: Vec<AllowedEgressTarget>,
    pub fallback_allowed: bool,
    pub policy_revision: RoutePolicyRevision,
    pub consent_revision: ConsentRevision,
    pub expires_at_millis: u64,
}

/// What the execution of a managed request requires of the local capabilities.
pub struct ContextCapabilityRequirements {
    pub tool_schema_revision: ToolSchemaRevision,
    pub retrieval_schema_revision: RetrievalSchemaRevision,
    pub client_adapter_version: AdapterVersion,
    pub upstream_adapter_revision: AdapterContractRevision,
    pub handle_epoch: HandleEpoch,
    pub handle_earliest_expiry_millis: u64,
    pub protocol_frame_revision: ProtocolFrameRevision,
    pub continuation: ContinuationConstraint,
    pub local_handle_required: bool,
}

/// The activation key of a managed context.
#[derive(Clone, Copy, PartialEq, Eq, Structural)]
pub struct ContextActivationKey {
    pub client_family: ClientFamilyId,
    pub client_version: ClientVersion,
    pub adapter_version: AdapterVersion,
    pub ingress_schema_version: IngressSchemaVersion,
    pub context_policy_version: ContextPolicyVersion,
    pub transform_owner: TransformOwnerId,
    pub transform_owner_version: TransformOwnerVersion,
}

/// The authorization bundle of a managed request.
pub struct AuthorizationBundle {
    pub permit: ContextEgressPermit,
    pub requirements: ContextCapabilityRequirements,
    pub activation_key: ContextActivationKey,
}

/// The claims of a managed context attestation.
pub struct AttestationClaims {
    pub schema_version: u16,
    pub audience: AudienceId,
    pub issuer_epoch: IssuerEpoch,
    pub issued_at_millis: u64,
    pub expires_at_millis: u64,
    pub listener: ListenerId,
    pub token_scope: IngressTokenScopeId,
    pub operation: OperationId,
    pub dispatch_domain: RequestDispatchDomain,
    pub registry_digest: RegistryDigest,
    pub method: HttpMethod,
    pub target: Vec<u8>,
    pub semantic_headers_digest: SemanticHeadersDigest,
    pub body_digest: BodyDigest,
    pub body_length: u64,
    pub request_digest: RequestDigest,
    pub envelope_digest: EnvelopeDigest,
    pub authorization_bundle_digest: AuthorizationBundleDigest,
    pub nonce: OneShotNonce,
    pub policy_revision: RoutePolicyRevision,
    pub adapter_version: AdapterVersion,
    pub transform_owner_version: TransformOwnerVersion,
}

/// A decoded attestation: its claims, the exact claims wire and the MAC tag.
pub struct SignedAttestation {
    pub claims: AttestationClaims,
    pub claims_wire: Vec<u8>,
    pub tag: [u8; 32],
}

/// The claims of a capability-scoped authorization.
pub struct CapabilityClaims {
    pub schema_version: u16,
    pub audience: AudienceId,
    pub issuer_epoch: IssuerEpoch,
    pub issued_at_millis: u64,
    pub deadline_millis: u64,
    pub listener: ListenerId,
    pub token_scope: IngressTokenScopeId,
    pub operation: OperationId,
    pub dispatch_domain: RequestDispatchDomain,
    pub registry_digest: RegistryDigest,
    pub site: SiteId,
    pub deployment: ModelDeploymentId,
    pub endpoint: EndpointId,
    pub origin: CanonicalOrigin,
    pub account_selector: AccountSelectorId,
    pub account: AccountId,
    pub credential: CredentialId,
    pub adapter_contract_revision: AdapterContractRevision,
    pub trust_tier: u8,
    pub management_scope: CapabilityManagementScopeId,
    pub request_digest: RequestDigest,
    pub nonce: OneShotNonce,
    pub fallback_forbidden: bool,
}

/// A decoded capability authorization: its claims, the exact claims wire and the MAC tag.
pub struct SignedCapabilityAuthorization {
    pub claims: CapabilityClaims,
    pub claims_wire: Vec<u8>,
    pub tag: [u8; 32],
}

} // verus!
