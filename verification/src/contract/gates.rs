//! Typed listener bindings, activation and consent snapshots, and the per-request gates of
//! the four closed verifier entries.
use std::sync::Arc;
use vstd::prelude::*;

use crate::contract::claims::{AttestationClaims, AuthorizationBundle, CapabilityClaims, ContextActivationKey, EgressPurpose};
use crate::contract::error::IngressReject;
use crate::contract::ids::{
    AdapterVersion, AudienceId, CapabilityManagementScopeId, ClientFamilyId, ClientVersion, ConsentRevision,
    ContextPolicyVersion, IngressSchemaVersion, IngressTokenScopeId, IssuerEpoch, ListenerId, RegistryDigest,
    RoutePolicyRevision, TransformOwnerId, TransformOwnerVersion,
};
use crate::contract::limits::{MAX_ATTESTATION_TTL_MILLIS, MAX_CAPABILITY_TTL_MILLIS, MAX_CLOCK_SKEW_MILLIS};
use crate::contract::operation::{LocalOperationAuthScope, RequestBinding, RequestDispatchDomain, RequestKind};
use crate::contract::request::{HttpMethod, RawIngressRequest};
use crate::contract::verified::VerificationDomainSeal;

verus! {

/// The schema version that every proof must carry.
pub const EXPECTED_SCHEMA_VERSION: u16 = 1;

/// The longest life of a gateway-only consent.
pub const MAX_GATEWAY_CONSENT_TTL_MILLIS: u64 = 86400000;

/// Whether a proof issued at `issued` and expiring at `expires` is in force at `now`: it
/// expires after it was issued and after `now`, was not issued further ahead of `now` than
/// the allowed clock skew, and lives no longer than `max_ttl`.
pub open spec fn time_window_ok(issued: u64, expires: u64, now: u64, max_ttl: u64) -> bool {
    &&& issued < expires
    &&& now < expires
    &&& issued <= now + MAX_CLOCK_SKEW_MILLIS
    &&& expires - issued <= max_ttl
}

/// Law: a window that had expired at some instant stays expired at every later instant, so
/// a verifier whose clock never goes back cannot revive an expired proof.
pub proof fn lemma_expired_window_stays_expired(issued: u64, expires: u64, earlier: u64, later: u64, max_ttl: u64)
    requires
        expires <= earlier,
        earlier <= later,
    ensures
        !time_window_ok(issued, expires, earlier, max_ttl),
        !time_window_ok(issued, expires, later, max_ttl),
{
}

/// Checks the time window of a proof.
pub fn validate_time_window(issued_at_millis: u64, expires_at_millis: u64, now: u64, max_ttl_millis: u64) -> (r: Result<
    (),
    IngressReject,
>)
    ensures
        r is Ok <==> time_window_ok(issued_at_millis, expires_at_millis, now, max_ttl_millis),
        r is Err ==> r == Err::<(), IngressReject>(IngressReject::TimeWindowInvalid),
{
    if expires_at_millis <= issued_at_millis || expires_at_millis <= now || issued_at_millis > now.saturating_add(
        MAX_CLOCK_SKEW_MILLIS,
    ) || expires_at_millis - issued_at_millis > max_ttl_millis {
        return Err(IngressReject::TimeWindowInvalid);
    }
    Ok(())
}

/// Whether a request kind and dispatch domain form a remote data operation: inference on
/// the routed policy, or an exact upstream token count on a bound deployment.
pub open spec fn remote_data_operation(kind: RequestKind, domain: RequestDispatchDomain) -> bool {
    ||| (kind == RequestKind::ModelInference || kind == RequestKind::AuxiliaryInference) && domain
        == RequestDispatchDomain::RoutedPolicy
    ||| kind == RequestKind::ExactUpstreamTokenCount && domain == RequestDispatchDomain::BoundDeployment
}

/// Checks that an operation is a remote data operation.
pub fn validate_remote_data_operation(kind: RequestKind, domain: RequestDispatchDomain) -> (r: Result<(), IngressReject>)
    ensures
        r is Ok <==> remote_data_operation(kind, domain),
        r is Err ==> r == Err::<(), IngressReject>(IngressReject::ProofModeConflict),
{
    let allowed = ((kind == RequestKind::ModelInference || kind == RequestKind::AuxiliaryInference) && domain
        == RequestDispatchDomain::RoutedPolicy) || (kind == RequestKind::ExactUpstreamTokenCount && domain
        == RequestDispatchDomain::BoundDeployment);
    if allowed {
        Ok(())
    } else {
        Err(IngressReject::ProofModeConflict)
    }
}

/// What a managed listener context binds.
pub struct ManagedContextView {
    pub listener: ListenerId,
    pub token_scope: IngressTokenScopeId,
    pub audience: AudienceId,
    pub issuer_epoch: IssuerEpoch,
}

/// The typed context that the managed listener's accept and auth boundary makes.
pub struct ManagedListenerContext {
    pub(crate) domain_seal: Arc<VerificationDomainSeal>,
    pub(crate) listener: ListenerId,
    pub(crate) token_scope: IngressTokenScopeId,
    pub(crate) audience: AudienceId,
    pub(crate) issuer_epoch: IssuerEpoch,
}

impl ManagedListenerContext {
    /// The verification domain the value belongs to.
    pub closed spec fn spec_seal(&self) -> Arc<VerificationDomainSeal> {
        self.domain_seal
    }

    /// What the context binds.
    pub closed spec fn view(&self) -> ManagedContextView {
        ManagedContextView {
            listener: self.listener,
            token_scope: self.token_scope,
            audience: self.audience,
            issuer_epoch: self.issuer_epoch,
        }
    }
}

/// What a gateway-only listener context binds.
pub struct GatewayContextView {
    pub listener: ListenerId,
    pub token_scope: IngressTokenScopeId,
    pub audience: AudienceId,
}

/// The typed context that the separate gateway-only listener's accept and auth boundary
/// makes.
pub struct GatewayOnlyListenerContext {
    pub(crate) domain_seal: Arc<VerificationDomainSeal>,
    pub(crate) listener: ListenerId,
    pub(crate) token_scope: IngressTokenScopeId,
    pub(crate) audience: AudienceId,
}

impl GatewayOnlyListenerContext {
    /// The verification domain the value belongs to.
    pub closed spec fn spec_seal(&self) -> Arc<VerificationDomainSeal> {
        self.domain_seal
    }

    /// What the context binds.
    pub closed spec fn view(&self) -> GatewayContextView {
        GatewayContextView { listener: self.listener, token_scope: self.token_scope, audience: self.audience }
    }

    pub(crate) fn snapshot(&self) -> (r: GatewayContextView)
        ensures
            r == self.view(),
    {
        GatewayContextView { listener: self.listener, token_scope: self.token_scope, audience: self.audience }
    }
}

/// What a local listener context binds.
pub struct LocalContextView {
    pub listener: ListenerId,
    pub token_scope: IngressTokenScopeId,
    pub auth_scope: LocalOperationAuthScope,
}

/// The typed context that the local operation accept and auth boundary makes.
pub struct LocalListenerContext {
    pub(crate) domain_seal: Arc<VerificationDomainSeal>,
    pub(crate) listener: ListenerId,
    pub(crate) token_scope: IngressTokenScopeId,
    pub(crate) auth_scope: LocalOperationAuthScope,
}

impl LocalListenerContext {
    /// The verification domain the value belongs to.
    pub closed spec fn spec_seal(&self) -> Arc<VerificationDomainSeal> {
        self.domain_seal
    }

    /// What the context binds.
    pub closed spec fn view(&self) -> LocalContextView {
        LocalContextView { listener: self.listener, token_scope: self.token_scope, auth_scope: self.auth_scope }
    }

    pub(crate) fn snapshot(&self) -> (r: LocalContextView)
        ensures
            r == self.view(),
    {
        LocalContextView { listener: self.listener, token_scope: self.token_scope, auth_scope: self.auth_scope }
    }
}

/// What a capability listener context binds.
pub struct CapabilityContextView {
    pub listener: ListenerId,
    pub token_scope: IngressTokenScopeId,
    pub audience: AudienceId,
    pub issuer_epoch: IssuerEpoch,
    pub management_scope: CapabilityManagementScopeId,
}

/// The typed context that the management capability probe accept and auth boundary makes.
pub struct CapabilityListenerContext {
    pub(crate) domain_seal: Arc<VerificationDomainSeal>,
    pub(crate) listener: ListenerId,
    pub(crate) token_scope: IngressTokenScopeId,
    pub(crate) audience: AudienceId,
    pub(crate) issuer_epoch: IssuerEpoch,
    pub(crate) management_scope: CapabilityManagementScopeId,
}

impl CapabilityListenerContext {
    /// The verification domain the value belongs to.
    pub closed spec fn spec_seal(&self) -> Arc<VerificationDomainSeal> {
        self.domain_seal
    }

    /// What the context binds.
    pub closed spec fn view(&self) -> CapabilityContextView {
        CapabilityContextView {
            listener: self.listener,
            token_scope: self.token_scope,
            audience: self.audience,
            issuer_epoch: self.issuer_epoch,
            management_scope: self.management_scope,
        }
    }

    pub(crate) fn snapshot(&self) -> (r: CapabilityContextView)
        ensures
            r == self.view(),
    {
        CapabilityContextView {
            listener: self.listener,
            token_scope: self.token_scope,
            audience: self.audience,
            issuer_epoch: self.issuer_epoch,
            management_scope: self.management_scope,
        }
    }
}

/// The listener binding capability that only the composition root holds.
///
/// It makes typed contexts that do not mix, so no header, user agent, path or body can
/// choose an ingress mode.
pub struct ListenerBindingAuthority {
    pub(crate) domain_seal: Arc<VerificationDomainSeal>,
}

impl ListenerBindingAuthority {
    /// The verification domain the value belongs to.
    pub closed spec fn spec_seal(&self) -> Arc<VerificationDomainSeal> {
        self.domain_seal
    }

    pub(crate) fn new(domain_seal: Arc<VerificationDomainSeal>) -> (r: Self)
        ensures
            r.spec_seal() == domain_seal,
    {
        ListenerBindingAuthority { domain_seal }
    }

    /// Makes the opaque context of a managed listener that has completed accept and token
    /// auth.
    pub fn managed(
        &self,
        listener: ListenerId,
        token_scope: IngressTokenScopeId,
        audience: AudienceId,
        issuer_epoch: IssuerEpoch,
    ) -> (r: ManagedListenerContext)
        ensures
            r.view() == (ManagedContextView { listener, token_scope, audience, issuer_epoch }),
            r.spec_seal() == self.spec_seal(),
    {
        ManagedListenerContext { domain_seal: self.domain_seal.clone(), listener, token_scope, audience, issuer_epoch }
    }

    /// Makes the opaque context of a gateway-only listener that has completed accept and
    /// token auth.
    pub fn gateway_only(&self, listener: ListenerId, token_scope: IngressTokenScopeId, audience: AudienceId) -> (r:
        GatewayOnlyListenerContext)
        ensures
            r.view() == (GatewayContextView { listener, token_scope, audience }),
            r.spec_seal() == self.spec_seal(),
    {
        GatewayOnlyListenerContext { domain_seal: self.domain_seal.clone(), listener, token_scope, audience }
    }

    /// Makes the opaque context of a local listener that has completed local auth.
    pub fn local(&self, listener: ListenerId, token_scope: IngressTokenScopeId, auth_scope: LocalOperationAuthScope) -> (r:
        LocalListenerContext)
        ensures
            r.view() == (LocalContextView { listener, token_scope, auth_scope }),
            r.spec_seal() == self.spec_seal(),
    {
        LocalListenerContext { domain_seal: self.domain_seal.clone(), listener, token_scope, auth_scope }
    }

    /// Makes the opaque context of a capability listener that has completed management
    /// auth.
    pub fn capability(
        &self,
        listener: ListenerId,
        token_scope: IngressTokenScopeId,
        audience: AudienceId,
        issuer_epoch: IssuerEpoch,
        management_scope: CapabilityManagementScopeId,
    ) -> (r: CapabilityListenerContext)
        ensures
            r.view() == (CapabilityContextView { listener, token_scope, audience, issuer_epoch, management_scope }),
            r.spec_seal() == self.spec_seal(),
    {
        CapabilityListenerContext {
            domain_seal: self.domain_seal.clone(),
            listener,
            token_scope,
            audience,
            issuer_epoch,
            management_scope,
        }
    }
}

/// The version key of an activated snapshot, which must equal the authorization bundle's.
#[derive(Clone, Copy, PartialEq, Eq, Structural)]
pub struct ContextActivationBinding {
    pub client_family: ClientFamilyId,
    pub client_version: ClientVersion,
    pub adapter_version: AdapterVersion,
    pub ingress_schema_version: IngressSchemaVersion,
    pub context_policy_version: ContextPolicyVersion,
    pub transform_owner: TransformOwnerId,
    pub transform_owner_version: TransformOwnerVersion,
}

/// Whether an activation binding equals an activation key, field for field.
pub open spec fn activation_matches(b: ContextActivationBinding, k: ContextActivationKey) -> bool {
    &&& b.client_family == k.client_family
    &&& b.client_version == k.client_version
    &&& b.adapter_version == k.adapter_version
    &&& b.ingress_schema_version == k.ingress_schema_version
    &&& b.context_policy_version == k.context_policy_version
    &&& b.transform_owner == k.transform_owner
    &&& b.transform_owner_version == k.transform_owner_version
}

impl ContextActivationBinding {
    /// Builds the activation version key that the authorization bundle must equal.
    pub fn new(
        client_family: ClientFamilyId,
        client_version: ClientVersion,
        adapter_version: AdapterVersion,
        ingress_schema_version: IngressSchemaVersion,
        context_policy_version: ContextPolicyVersion,
        transform_owner: TransformOwnerId,
        transform_owner_version: TransformOwnerVersion,
    ) -> (r: Self)
        ensures
            r == (ContextActivationBinding {
                client_family,
                client_version,
                adapter_version,
                ingress_schema_version,
                context_policy_version,
                transform_owner,
                transform_owner_version,
            }),
    {
        ContextActivationBinding {
            client_family,
            client_version,
            adapter_version,
            ingress_schema_version,
            context_policy_version,
            transform_owner,
            transform_owner_version,
        }
    }

    fn matches(&self, key: &ContextActivationKey) -> (r: bool)
        ensures
            r == activation_matches(*self, *key),
    {
        self.client_family == key.client_family && self.client_version == key.client_version && self.adapter_version
            == key.adapter_version && self.ingress_schema_version == key.ingress_schema_version
            && self.context_policy_version == key.context_policy_version && self.transform_owner
            == key.transform_owner && self.transform_owner_version == key.transform_owner_version
    }
}

/// What a managed activation snapshot binds.
pub struct ActivationView {
    pub listener: ListenerId,
    pub token_scope: IngressTokenScopeId,
    pub audience: AudienceId,
    pub issuer_epoch: IssuerEpoch,
    pub route_policy_revision: RoutePolicyRevision,
    pub consent_revision: ConsentRevision,
    pub activation_key: ContextActivationBinding,
    pub expires_at_millis: u64,
}

/// The activation snapshot of the current managed execution, per listener and token.
pub struct ManagedActivationBinding {
    pub(crate) domain_seal: Arc<VerificationDomainSeal>,
    pub(crate) listener: ListenerId,
    pub(crate) token_scope: IngressTokenScopeId,
    pub(crate) audience: AudienceId,
    pub(crate) issuer_epoch: IssuerEpoch,
    pub(crate) route_policy_revision: RoutePolicyRevision,
    pub(crate) consent_revision: ConsentRevision,
    pub(crate) activation_key: ContextActivationBinding,
    pub(crate) expires_at_millis: u64,
}

impl ManagedActivationBinding {
    /// The verification domain the value belongs to.
    pub closed spec fn spec_seal(&self) -> Arc<VerificationDomainSeal> {
        self.domain_seal
    }

    /// What the snapshot binds.
    pub closed spec fn view(&self) -> ActivationView {
        ActivationView {
            listener: self.listener,
            token_scope: self.token_scope,
            audience: self.audience,
            issuer_epoch: self.issuer_epoch,
            route_policy_revision: self.route_policy_revision,
            consent_revision: self.consent_revision,
            activation_key: self.activation_key,
            expires_at_millis: self.expires_at_millis,
        }
    }
}

/// The instance-bound issuing capability that only the trusted activation store receives.
pub struct ManagedActivationAuthority {
    pub(crate) domain_seal: Arc<VerificationDomainSeal>,
}

impl ManagedActivationAuthority {
    /// The verification domain the value belongs to.
    pub closed spec fn spec_seal(&self) -> Arc<VerificationDomainSeal> {
        self.domain_seal
    }

    pub(crate) fn new(domain_seal: Arc<VerificationDomainSeal>) -> (r: Self)
        ensures
            r.spec_seal() == domain_seal,
    {
        ManagedActivationAuthority { domain_seal }
    }

    /// Issues, from a trusted activation snapshot, a managed binding that no request
    /// primitive can build.
    pub fn issue_binding(
        &self,
        listener: ListenerId,
        token_scope: IngressTokenScopeId,
        audience: AudienceId,
        issuer_epoch: IssuerEpoch,
        route_policy_revision: RoutePolicyRevision,
        consent_revision: ConsentRevision,
        activation_key: ContextActivationBinding,
        expires_at_millis: u64,
    ) -> (r: ManagedActivationBinding)
        ensures
            r.view() == (ActivationView {
                listener,
                token_scope,
                audience,
                issuer_epoch,
                route_policy_revision,
                consent_revision,
                activation_key,
                expires_at_millis,
            }),
            r.spec_seal() == self.spec_seal(),
    {
        ManagedActivationBinding {
            domain_seal: self.domain_seal.clone(),
            listener,
            token_scope,
            audience,
            issuer_epoch,
            route_policy_revision,
            consent_revision,
            activation_key,
            expires_at_millis,
        }
    }
}

/// What a gateway-only consent snapshot binds.
pub struct ConsentView {
    pub listener: ListenerId,
    pub token_scope: IngressTokenScopeId,
    pub audience: AudienceId,
    pub route_policy_revision: RoutePolicyRevision,
    pub consent_revision: ConsentRevision,
    pub maximum_trust_tier: u8,
    pub issued_at_millis: u64,
    pub expires_at_millis: u64,
}

/// The gateway-only consent that the local user explicitly enabled.
pub struct GatewayOnlyConsentSnapshot {
    pub(crate) domain_seal: Arc<VerificationDomainSeal>,
    pub(crate) listener: ListenerId,
    pub(crate) token_scope: IngressTokenScopeId,
    pub(crate) audience: AudienceId,
    pub(crate) route_policy_revision: RoutePolicyRevision,
    pub(crate) consent_revision: ConsentRevision,
    pub(crate) maximum_trust_tier: u8,
    pub(crate) issued_at_millis: u64,
    pub(crate) expires_at_millis: u64,
}

impl GatewayOnlyConsentSnapshot {
    /// The verification domain the value belongs to.
    pub closed spec fn spec_seal(&self) -> Arc<VerificationDomainSeal> {
        self.domain_seal
    }

    /// What the snapshot binds.
    pub closed spec fn view(&self) -> ConsentView {
        ConsentView {
            listener: self.listener,
            token_scope: self.token_scope,
            audience: self.audience,
            route_policy_revision: self.route_policy_revision,
            consent_revision: self.consent_revision,
            maximum_trust_tier: self.maximum_trust_tier,
            issued_at_millis: self.issued_at_millis,
            expires_at_millis: self.expires_at_millis,
        }
    }

    pub(crate) fn snapshot(&self) -> (r: ConsentView)
        ensures
            r == self.view(),
    {
        ConsentView {
            listener: self.listener,
            token_scope: self.token_scope,
            audience: self.audience,
            route_policy_revision: self.route_policy_revision,
            consent_revision: self.consent_revision,
            maximum_trust_tier: self.maximum_trust_tier,
            issued_at_millis: self.issued_at_millis,
            expires_at_millis: self.expires_at_millis,
        }
    }
}

/// The instance-bound issuing capability that only the trusted consent store receives.
pub struct GatewayConsentAuthority {
    pub(crate) domain_seal: Arc<VerificationDomainSeal>,
}

impl GatewayConsentAuthority {
    /// The verification domain the value belongs to.
    pub closed spec fn spec_seal(&self) -> Arc<VerificationDomainSeal> {
        self.domain_seal
    }

    pub(crate) fn new(domain_seal: Arc<VerificationDomainSeal>) -> (r: Self)
        ensures
            r.spec_seal() == domain_seal,
    {
        GatewayConsentAuthority { domain_seal }
    }

    /// Issues, from a trusted local consent record, a snapshot that no request primitive
    /// can build; a maximum trust tier above 2 is refused.
    pub fn issue_snapshot(
        &self,
        listener: ListenerId,
        token_scope: IngressTokenScopeId,
        audience: AudienceId,
        route_policy_revision: RoutePolicyRevision,
        consent_revision: ConsentRevision,
        maximum_trust_tier: u8,
        issued_at_millis: u64,
        expires_at_millis: u64,
    ) -> (r: Result<GatewayOnlyConsentSnapshot, IngressReject>)
        ensures
            maximum_trust_tier <= 2 <==> r is Ok,
            r is Err ==> r == Err::<GatewayOnlyConsentSnapshot, IngressReject>(IngressReject::GatewayConsentInvalid),
            r matches Ok(s) ==> s.view() == (ConsentView {
                listener,
                token_scope,
                audience,
                route_policy_revision,
                consent_revision,
                maximum_trust_tier,
                issued_at_millis,
                expires_at_millis,
            }) && s.spec_seal() == self.spec_seal(),
    {
        if maximum_trust_tier > 2 {
            return Err(IngressReject::GatewayConsentInvalid);
        }
        Ok(
            GatewayOnlyConsentSnapshot {
                domain_seal: self.domain_seal.clone(),
                listener,
                token_scope,
                audience,
                route_policy_revision,
                consent_revision,
                maximum_trust_tier,
                issued_at_millis,
                expires_at_millis,
            },
        )
    }
}

/// The verdict on the scope of a managed attestation: schema, listener and token, audience,
/// issuing epoch, the activation's life, then the attestation's time window.
pub open spec fn managed_scope_check(c: ManagedContextView, a: ActivationView, claims: AttestationClaims, now: u64) -> Result<
    (),
    IngressReject,
> {
    if claims.schema_version != EXPECTED_SCHEMA_VERSION {
        Err(IngressReject::ActivationBindingMismatch)
    } else if c.listener != a.listener || c.token_scope != a.token_scope || claims.listener != c.listener
        || claims.token_scope != c.token_scope {
        Err(IngressReject::ScopeMismatch)
    } else if c.audience != a.audience || claims.audience != c.audience {
        Err(IngressReject::AudienceMismatch)
    } else if c.issuer_epoch != a.issuer_epoch || claims.issuer_epoch != c.issuer_epoch {
        Err(IngressReject::IssuerEpochUnknown)
    } else if a.expires_at_millis <= now {
        Err(IngressReject::ActivationBindingMismatch)
    } else if !time_window_ok(claims.issued_at_millis, claims.expires_at_millis, now, MAX_ATTESTATION_TTL_MILLIS) {
        Err(IngressReject::TimeWindowInvalid)
    } else {
        Ok(())
    }
}

/// Checks the scope of a managed attestation.
pub fn validate_managed_scope(
    connection: &ManagedListenerContext,
    active: &ManagedActivationBinding,
    claims: &AttestationClaims,
    now: u64,
) -> (r: Result<(), IngressReject>)
    ensures
        r == managed_scope_check(connection.view(), active.view(), *claims, now),
{
    if claims.schema_version != EXPECTED_SCHEMA_VERSION {
        return Err(IngressReject::ActivationBindingMismatch);
    }
    if connection.listener != active.listener || connection.token_scope != active.token_scope || claims.listener
        != connection.listener || claims.token_scope != connection.token_scope {
        return Err(IngressReject::ScopeMismatch);
    }
    if connection.audience != active.audience || claims.audience != connection.audience {
        return Err(IngressReject::AudienceMismatch);
    }
    if connection.issuer_epoch != active.issuer_epoch || claims.issuer_epoch != connection.issuer_epoch {
        return Err(IngressReject::IssuerEpochUnknown);
    }
    if active.expires_at_millis <= now {
        return Err(IngressReject::ActivationBindingMismatch);
    }
    validate_time_window(claims.issued_at_millis, claims.expires_at_millis, now, MAX_ATTESTATION_TTL_MILLIS)?;
    Ok(())
}

/// The verdict on how a managed attestation binds the raw request: operation, dispatch
/// domain, registry, then method, target, header, body and request digests and length.
pub open spec fn managed_request_binding_check(
    binding: RequestBinding,
    method: HttpMethod,
    target: Seq<u8>,
    registry_digest: RegistryDigest,
    claims: AttestationClaims,
) -> Result<(), IngressReject> {
    if claims.operation != binding.operation.spec.spec_operation() {
        Err(IngressReject::OperationMismatch)
    } else if claims.dispatch_domain != binding.operation.spec.spec_dispatch_domain() {
        Err(IngressReject::DispatchDomainMismatch)
    } else if claims.registry_digest != registry_digest {
        Err(IngressReject::RegistryMismatch)
    } else if claims.method != method || claims.target@ != target || claims.semantic_headers_digest
        != binding.semantic_headers_digest || claims.body_digest != binding.body_digest || claims.body_length
        != binding.body_length || claims.request_digest != binding.request_digest {
        Err(IngressReject::RequestBindingMismatch)
    } else {
        Ok(())
    }
}

/// Checks how a managed attestation binds the raw request.
pub fn validate_managed_request_binding(
    binding: &RequestBinding,
    request: &RawIngressRequest,
    registry_digest: RegistryDigest,
    claims: &AttestationClaims,
) -> (r: Result<(), IngressReject>)
    ensures
        r == managed_request_binding_check(
            *binding,
            request.spec_method(),
            request.spec_target(),
            registry_digest,
            *claims,
        ),
{
    if claims.operation != binding.operation.spec.operation() {
        return Err(IngressReject::OperationMismatch);
    }
    if claims.dispatch_domain != binding.operation.spec.dispatch_domain() {
        return Err(IngressReject::DispatchDomainMismatch);
    }
    if !claims.registry_digest.same(&registry_digest) {
        return Err(IngressReject::RegistryMismatch);
    }
    if claims.method != request.method() || !crate::contract::bytes::bytes_eq(claims.target.as_slice(), request.target())
        || !claims.semantic_headers_digest.same(&binding.semantic_headers_digest) || !claims.body_digest.same(
        &binding.body_digest,
    ) || claims.body_length != binding.body_length || !claims.request_digest.same(&binding.request_digest) {
        return Err(IngressReject::RequestBindingMismatch);
    }
    Ok(())
}

/// The egress purpose that a request kind needs, if it has one.
pub open spec fn purpose_for(kind: RequestKind) -> Option<EgressPurpose> {
    match kind {
        RequestKind::ModelInference => Some(EgressPurpose::ModelInference),
        RequestKind::AuxiliaryInference => Some(EgressPurpose::AuxiliaryInference),
        RequestKind::ExactUpstreamTokenCount => Some(EgressPurpose::ExactUpstreamTokenCount),
        _ => None,
    }
}

/// The verdict on a managed authorization bundle: the permit binds the attestation and the
/// activation and covers the body; the activation key, schema and versions match; the
/// purpose fits the operation; a bound deployment has one target and no fallback; a required
/// local handle has an expiry; and any handle outlives the attestation.
pub open spec fn managed_authorization_check(
    binding: RequestBinding,
    bundle: AuthorizationBundle,
    claims: AttestationClaims,
    a: ActivationView,
    now: u64,
) -> Result<(), IngressReject> {
    let permit = bundle.permit;
    if permit.operation != claims.operation || permit.request_digest != claims.request_digest || permit.body_digest
        != claims.body_digest || permit.envelope_digest != claims.envelope_digest || permit.nonce != claims.nonce
        || permit.policy_revision != claims.policy_revision || permit.policy_revision != a.route_policy_revision
        || permit.consent_revision != a.consent_revision || permit.expires_at_millis != claims.expires_at_millis
        || permit.max_outbound_bytes < binding.body_length {
        Err(IngressReject::AuthorizationBindingMismatch)
    } else if !activation_matches(a.activation_key, bundle.activation_key) || claims.schema_version as u64
        != a.activation_key.ingress_schema_version.value() || claims.adapter_version != a.activation_key.adapter_version
        || claims.transform_owner_version != a.activation_key.transform_owner_version
        || bundle.requirements.client_adapter_version != a.activation_key.adapter_version {
        Err(IngressReject::ActivationBindingMismatch)
    } else if purpose_for(binding.operation.spec.spec_kind()) is None {
        Err(IngressReject::ProofModeConflict)
    } else if permit.purpose != purpose_for(binding.operation.spec.spec_kind()).unwrap() {
        Err(IngressReject::AuthorizationBindingMismatch)
    } else if binding.operation.spec.spec_dispatch_domain() == RequestDispatchDomain::BoundDeployment && (
    permit.fallback_allowed || permit.allowed_targets@.len() != 1) {
        Err(IngressReject::CapabilityConstraintMismatch)
    } else if (bundle.requirements.handle_earliest_expiry_millis == 0 && bundle.requirements.local_handle_required) || (
    bundle.requirements.handle_earliest_expiry_millis != 0 && (bundle.requirements.handle_earliest_expiry_millis <= now
        || bundle.requirements.handle_earliest_expiry_millis < claims.expires_at_millis)) {
        Err(IngressReject::AuthorizationBindingMismatch)
    } else {
        Ok(())
    }
}

/// Checks a managed authorization bundle against the attestation and the activation.
pub fn validate_managed_authorization(
    binding: &RequestBinding,
    bundle: &AuthorizationBundle,
    claims: &AttestationClaims,
    active: &ManagedActivationBinding,
    now: u64,
) -> (r: Result<(), IngressReject>)
    ensures
        r == managed_authorization_check(*binding, *bundle, *claims, active.view(), now),
{
    let permit = &bundle.permit;
    if permit.operation != claims.operation || !permit.request_digest.same(&claims.request_digest)
        || !permit.body_digest.same(&claims.body_digest) || !permit.envelope_digest.same(&claims.envelope_digest)
        || !permit.nonce.same(&claims.nonce) || permit.policy_revision != claims.policy_revision
        || permit.policy_revision != active.route_policy_revision || permit.consent_revision != active.consent_revision
        || permit.expires_at_millis != claims.expires_at_millis || permit.max_outbound_bytes < binding.body_length {
        return Err(IngressReject::AuthorizationBindingMismatch);
    }
    if !active.activation_key.matches(&bundle.activation_key) || claims.schema_version as u64
        != active.activation_key.ingress_schema_version.get() || claims.adapter_version
        != active.activation_key.adapter_version || claims.transform_owner_version
        != active.activation_key.transform_owner_version || bundle.requirements.client_adapter_version
        != active.activation_key.adapter_version {
        return Err(IngressReject::ActivationBindingMismatch);
    }
    let expected_purpose = match binding.operation.spec.kind() {
        RequestKind::ModelInference => EgressPurpose::ModelInference,
        RequestKind::AuxiliaryInference => EgressPurpose::AuxiliaryInference,
        RequestKind::ExactUpstreamTokenCount => EgressPurpose::ExactUpstreamTokenCount,
        _ => {
            return Err(IngressReject::ProofModeConflict);
        },
    };
    if permit.purpose != expected_purpose {
        return Err(IngressReject::AuthorizationBindingMismatch);
    }
    if binding.operation.spec.dispatch_domain() == RequestDispatchDomain::BoundDeployment && (permit.fallback_allowed
        || permit.allowed_targets.len() != 1) {
        return Err(IngressReject::CapabilityConstraintMismatch);
    }
    let handle_expiry = bundle.requirements.handle_earliest_expiry_millis;
    if (handle_expiry == 0 && bundle.requirements.local_handle_required) || (handle_expiry != 0 && (handle_expiry <= now
        || handle_expiry < claims.expires_at_millis)) {
        return Err(IngressReject::AuthorizationBindingMismatch);
    }
    Ok(())
}

/// The verdict on a gateway-only consent: listener and token, audience, then its time
/// window.
pub open spec fn gateway_consent_check(c: GatewayContextView, consent: ConsentView, now: u64) -> Result<(), IngressReject> {
    if c.listener != consent.listener || c.token_scope != consent.token_scope {
        Err(IngressReject::ScopeMismatch)
    } else if c.audience != consent.audience {
        Err(IngressReject::AudienceMismatch)
    } else if !time_window_ok(consent.issued_at_millis, consent.expires_at_millis, now, MAX_GATEWAY_CONSENT_TTL_MILLIS) {
        Err(IngressReject::GatewayConsentInvalid)
    } else {
        Ok(())
    }
}

/// Checks a gateway-only consent against its listener context.
pub fn validate_gateway_consent(
    connection: &GatewayOnlyListenerContext,
    consent: &GatewayOnlyConsentSnapshot,
    now: u64,
) -> (r: Result<(), IngressReject>)
    ensures
        r == gateway_consent_check(connection.view(), consent.view(), now),
{
    if connection.listener != consent.listener || connection.token_scope != consent.token_scope {
        return Err(IngressReject::ScopeMismatch);
    }
    if connection.audience != consent.audience {
        return Err(IngressReject::AudienceMismatch);
    }
    match validate_time_window(consent.issued_at_millis, consent.expires_at_millis, now, MAX_GATEWAY_CONSENT_TTL_MILLIS) {
        Ok(()) => Ok(()),
        Err(_) => Err(IngressReject::GatewayConsentInvalid),
    }
}

/// The verdict on capability claims: their time window, then scope, operation, registry,
/// dispatch domain, and the management scope, request digest and forbidden fallback.
pub open spec fn capability_claims_check(
    c: CapabilityContextView,
    binding: RequestBinding,
    registry_digest: RegistryDigest,
    claims: CapabilityClaims,
    now: u64,
) -> Result<(), IngressReject> {
    if !time_window_ok(claims.issued_at_millis, claims.deadline_millis, now, MAX_CAPABILITY_TTL_MILLIS) {
        Err(IngressReject::TimeWindowInvalid)
    } else if claims.schema_version != EXPECTED_SCHEMA_VERSION || claims.listener != c.listener || claims.token_scope
        != c.token_scope || claims.audience != c.audience || claims.issuer_epoch != c.issuer_epoch {
        Err(IngressReject::ScopeMismatch)
    } else if claims.operation != binding.operation.spec.spec_operation() {
        Err(IngressReject::OperationMismatch)
    } else if claims.registry_digest != registry_digest {
        Err(IngressReject::RegistryMismatch)
    } else if claims.dispatch_domain != RequestDispatchDomain::BoundDeployment || claims.dispatch_domain
        != binding.operation.spec.spec_dispatch_domain() {
        Err(IngressReject::DispatchDomainMismatch)
    } else if claims.management_scope != c.management_scope || claims.request_digest != binding.request_digest
        || !claims.fallback_forbidden {
        Err(IngressReject::CapabilityConstraintMismatch)
    } else {
        Ok(())
    }
}

/// Checks capability claims against the listener context and the request binding.
pub fn validate_capability_claims(
    connection: &CapabilityListenerContext,
    binding: &RequestBinding,
    registry_digest: RegistryDigest,
    claims: &CapabilityClaims,
    now: u64,
) -> (r: Result<(), IngressReject>)
    ensures
        r == capability_claims_check(connection.view(), *binding, registry_digest, *claims, now),
{
    validate_time_window(claims.issued_at_millis, claims.deadline_millis, now, MAX_CAPABILITY_TTL_MILLIS)?;
    if claims.schema_version != EXPECTED_SCHEMA_VERSION || claims.listener != connection.listener || claims.token_scope
        != connection.token_scope || claims.audience != connection.audience || claims.issuer_epoch
        != connection.issuer_epoch {
        return Err(IngressReject::ScopeMismatch);
    }
    if claims.operation != binding.operation.spec.operation() {
        return Err(IngressReject::OperationMismatch);
    }
    if !claims.registry_digest.same(&registry_digest) {
        return Err(IngressReject::RegistryMismatch);
    }
    if claims.dispatch_domain != RequestDispatchDomain::BoundDeployment || claims.dispatch_domain
        != binding.operation.spec.dispatch_domain() {
        return Err(IngressReject::DispatchDomainMismatch);
    }
    if claims.management_scope != connection.management_scope || !claims.request_digest.same(&binding.request_digest)
        || !claims.fallback_forbidden {
        return Err(IngressReject::CapabilityConstraintMismatch);
    }
    Ok(())
}

} // verus!
