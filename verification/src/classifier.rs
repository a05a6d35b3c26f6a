//! The one production entry that runs the receiver, the normalizer and the per-request gates,
//! in that fixed order.
use std::sync::Arc;
use vstd::prelude::*;

use crate::clock::ClassifierClock;
use crate::contract::bytes::bytes_eq;
use crate::contract::claims::AuthorizationBundle;
use crate::contract::ids::{RegistryDigest};
use crate::contract::operation::{kind_domain_ok, LocalOperationAuthScope, RequestDispatchDomain, RequestKind};
use crate::contract::verified::{
    authorization_kind_of, proof_kind_of, proof_listener_scope, same_seal, verified_purpose,
    ReceiverAcceptedIngressRequest, VerifiedAuthorization, VerifiedAuthorizationKind, VerifiedEgressPurpose,
    VerifiedIngressReceiver, VerifiedIngressRequest, VerifiedManagedProofBinding, VerifiedProof, VerifiedProofKind,
};
use crate::disposition::{
    domain_of, grant_binding, grant_expiry, kind_of, operation_of, BoundDeploymentGrant, BoundTarget,
    ClassifiedRequest, ContextExecutionGrant, GrantBinding, VerifiedBoundDeploymentRequest,
    VerifiedIngressDisposition, VerifiedLocalDispatch, VerifiedRouteRequest,
};
use crate::error::{ProtocolNormalizeError, RouteReject};
use crate::normalizer::{ClientProtocolNormalizer, NormalizedRequestSemantic, NormalizerInput, ProtocolNormalizedRequest};
use crate::snapshot::{
    mode_request, registry_digest_usable, validate_registry_digest, ClassifierBoundTarget, ClassifierCapabilityBound,
    ClassifierGatewayContext, ClassifierManagedContext, ClassifierSnapshot, ClassifierSnapshotAuthority,
    ExactUpstreamBoundSnapshot, LocalSnapshot, SnapshotDomainSeal, SnapshotMode,
};

verus! {

/// Whether a request kind is served by a local handler.
pub open spec fn is_local_kind(kind: RequestKind) -> bool {
    match kind {
        RequestKind::Liveness | RequestKind::LocalAdmin | RequestKind::AuthFlow | RequestKind::UnifiedModelCatalog
        | RequestKind::ExactLocalTokenCount | RequestKind::EstimatedLocalTokenCount
        | RequestKind::LocalContextCompact => true,
        _ => false,
    }
}

/// The local authorization scope a local request kind needs.
pub open spec fn expected_local_scope(kind: RequestKind) -> Option<LocalOperationAuthScope> {
    match kind {
        RequestKind::Liveness => Some(LocalOperationAuthScope::PublicLiveness),
        RequestKind::LocalAdmin => Some(LocalOperationAuthScope::LocalAdmin),
        RequestKind::AuthFlow => Some(LocalOperationAuthScope::AuthFlow),
        RequestKind::UnifiedModelCatalog | RequestKind::ExactLocalTokenCount | RequestKind::EstimatedLocalTokenCount
        | RequestKind::LocalContextCompact => Some(LocalOperationAuthScope::LocalData),
        _ => None,
    }
}

/// The closed semantics a normalizer must confirm for a request kind.
pub open spec fn expected_semantic(kind: RequestKind) -> NormalizedRequestSemantic {
    match kind {
        RequestKind::DeploymentModelProbe => NormalizedRequestSemantic::DeploymentModelProbe,
        RequestKind::ExactUpstreamTokenCount => NormalizedRequestSemantic::ExactUpstreamTokenCount,
        RequestKind::ModelInference => NormalizedRequestSemantic::ModelInference,
        RequestKind::AuxiliaryInference => NormalizedRequestSemantic::AuxiliaryInference,
        _ => NormalizedRequestSemantic::LocalOperation,
    }
}

/// Law: the scope the local gate expects of a request kind is exactly the scope that route
/// specifications of that kind must carry on the local domain.
pub proof fn lemma_gate_scope_agrees_with_registry(kind: RequestKind, scope: LocalOperationAuthScope)
    ensures
        kind_domain_ok(kind, RequestDispatchDomain::Local, Some(scope)) <==> expected_local_scope(kind) == Some(scope),
        is_local_kind(kind) <==> expected_local_scope(kind) is Some,
{
}

/// Law: a normalizer must confirm the local-operation semantics exactly for the local kinds,
/// and each other kind has semantics of its own.
pub proof fn lemma_expected_semantics_separate_kinds(k1: RequestKind, k2: RequestKind)
    ensures
        expected_semantic(k1) == NormalizedRequestSemantic::LocalOperation <==> is_local_kind(k1),
        !is_local_kind(k1) && !is_local_kind(k2) && expected_semantic(k1) == expected_semantic(k2) ==> k1 == k2,
{
}

/// Whether a managed egress purpose serves a request kind.
pub open spec fn managed_purpose_matches(kind: RequestKind, purpose: VerifiedEgressPurpose) -> bool {
    ||| kind == RequestKind::ModelInference && purpose == VerifiedEgressPurpose::ModelInference
    ||| kind == RequestKind::AuxiliaryInference && purpose == VerifiedEgressPurpose::AuxiliaryInference
    ||| kind == RequestKind::ExactUpstreamTokenCount && purpose == VerifiedEgressPurpose::ExactUpstreamTokenCount
}

/// Law: a managed egress purpose serves exactly one request kind and each kind has at most
/// one purpose, and only inference and the exact upstream count have one.
pub proof fn lemma_managed_purposes_pair_kinds(
    k1: RequestKind,
    k2: RequestKind,
    p1: VerifiedEgressPurpose,
    p2: VerifiedEgressPurpose,
)
    ensures
        managed_purpose_matches(k1, p1) && managed_purpose_matches(k2, p1) ==> k1 == k2,
        managed_purpose_matches(k1, p1) && managed_purpose_matches(k1, p2) ==> p1 == p2,
        managed_purpose_matches(k1, p1) ==> k1 == RequestKind::ModelInference || k1 == RequestKind::AuxiliaryInference
            || k1 == RequestKind::ExactUpstreamTokenCount,
        k1 == RequestKind::ModelInference || k1 == RequestKind::AuxiliaryInference || k1
            == RequestKind::ExactUpstreamTokenCount ==> exists|p: VerifiedEgressPurpose| #[trigger] managed_purpose_matches(k1, p),
{
    if k1 == RequestKind::ModelInference {
        assert(managed_purpose_matches(k1, VerifiedEgressPurpose::ModelInference));
    } else if k1 == RequestKind::AuxiliaryInference {
        assert(managed_purpose_matches(k1, VerifiedEgressPurpose::AuxiliaryInference));
    } else if k1 == RequestKind::ExactUpstreamTokenCount {
        assert(managed_purpose_matches(k1, VerifiedEgressPurpose::ExactUpstreamTokenCount));
    }
}

/// Whether an authorization lets a local handle in.
pub open spec fn handle_flag(a: VerifiedAuthorization) -> bool {
    match a {
        VerifiedAuthorization::Managed(b) => b.requirements.local_handle_required,
        VerifiedAuthorization::GatewayOnlyExplicit { local_handle_allowed, .. } => local_handle_allowed,
        _ => false,
    }
}

/// The local authorization scope a proof carries.
pub open spec fn local_scope_of(p: VerifiedProof) -> Option<LocalOperationAuthScope> {
    match p {
        VerifiedProof::LocalOperationScoped(b) => Some(b.auth_scope),
        _ => None,
    }
}

/// Whether a time window is open at `now`.
pub open spec fn window_open(issued_at_millis: u64, expires_at_millis: u64, now: u64) -> bool {
    issued_at_millis <= now && now < expires_at_millis
}

/// Whether a local request passes the local operation scope gate.
pub open spec fn local_gate_passes(v: VerifiedIngressRequest, s: LocalSnapshot) -> bool {
    &&& proof_kind_of(v.spec_proof()) == VerifiedProofKind::LocalOperationScoped
    &&& authorization_kind_of(v.spec_authorization()) == VerifiedAuthorizationKind::NoEgress
    &&& !handle_flag(v.spec_authorization())
    &&& local_scope_of(v.spec_proof()) == Some(s.auth_scope)
    &&& expected_local_scope(kind_of(v)) == Some(s.auth_scope)
    &&& proof_listener_scope(v.spec_proof()) == (s.listener, s.token_scope)
}

/// Whether a request carries a managed proof and its bundle, and nothing else.
pub open spec fn managed_proof_present(v: VerifiedIngressRequest) -> bool {
    v.spec_proof() is Managed && v.spec_authorization() is Managed
}

/// Whether a request carries a gateway-only consent that lets no local handle in.
pub open spec fn gateway_proof_present(v: VerifiedIngressRequest) -> bool {
    &&& v.spec_proof() is GatewayOnlyScopedConsent
    &&& v.spec_authorization() is GatewayOnlyExplicit
    &&& !handle_flag(v.spec_authorization())
}

/// Whether a managed proof and bundle match a managed context snapshot field by field.
pub open spec fn managed_context_matches(
    v: VerifiedIngressRequest,
    p: VerifiedManagedProofBinding,
    b: AuthorizationBundle,
    s: ClassifierManagedContext,
) -> bool {
    &&& proof_listener_scope(v.spec_proof()) == (s.ingress.listener, s.ingress.token_scope)
    &&& p.listener == s.ingress.listener
    &&& p.token_scope == s.ingress.token_scope
    &&& p.audience == s.ingress.audience
    &&& p.issuer_epoch == s.issuer_epoch
    &&& p.registry_digest == v.spec_registry_digest()
    &&& p.authorization_bundle_digest == s.authorization_bundle_digest
    &&& p.policy_revision == s.route_policy_revision
    &&& b.permit.consent_revision == s.consent_revision
    &&& p.adapter_version == s.activation.adapter_version
    &&& b.activation_key.transform_owner == s.activation.transform_owner
    &&& p.transform_owner_version == s.activation.transform_owner_version
    &&& b.activation_key.client_family == s.activation.client_family
    &&& b.activation_key.client_version == s.activation.client_version
    &&& b.activation_key.adapter_version == s.activation.adapter_version
    &&& b.activation_key.ingress_schema_version == s.activation.ingress_schema_version
    &&& b.activation_key.context_policy_version == s.activation.context_policy_version
    &&& b.activation_key.transform_owner == s.activation.transform_owner
    &&& b.activation_key.transform_owner_version == s.activation.transform_owner_version
    &&& b.permit.operation == operation_of(v)
    &&& b.permit.request_digest == v.spec_request_digest()
    &&& b.permit.policy_revision == s.route_policy_revision
    &&& b.permit.consent_revision == s.consent_revision
    &&& b.permit.allowed_targets@.len() != 0
    &&& b.requirements.client_adapter_version == s.activation.adapter_version
    &&& managed_purpose_matches(kind_of(v), verified_purpose(b.permit.purpose))
}

/// How the managed context gate refuses a request, if it does.
pub open spec fn managed_context_error(
    v: VerifiedIngressRequest,
    s: ClassifierManagedContext,
    now: u64,
) -> Option<RouteReject> {
    match (v.spec_proof(), v.spec_authorization()) {
        (VerifiedProof::Managed(p), VerifiedAuthorization::Managed(b)) => {
            if !managed_context_matches(v, p, *b, s) {
                Some(RouteReject::ContextGateRejected)
            } else if !window_open(p.issued_at_millis, p.expires_at_millis, now) {
                Some(RouteReject::AuthorizationExpired)
            } else if b.permit.expires_at_millis <= now || b.permit.expires_at_millis > p.expires_at_millis {
                Some(RouteReject::AuthorizationExpired)
            } else {
                None
            }
        },
        _ => Some(RouteReject::ContextGateRejected),
    }
}

/// Whether `g` is the grant the managed context gate gives `v` under `s`.
pub open spec fn managed_grant_ok(g: ContextExecutionGrant, v: VerifiedIngressRequest, s: ClassifierManagedContext) -> bool {
    &&& g matches ContextExecutionGrant::Managed {
        binding,
        route_policy_revision,
        consent_revision,
        expires_at_millis,
    }
    &&& binding.binds(v)
    &&& route_policy_revision == s.route_policy_revision
    &&& consent_revision == s.consent_revision
    &&& v.spec_authorization() matches VerifiedAuthorization::Managed(b)
    &&& expires_at_millis == b.permit.expires_at_millis
}

/// How the gateway-only context gate refuses a request, if it does.
pub open spec fn gateway_context_error(
    v: VerifiedIngressRequest,
    s: ClassifierGatewayContext,
    now: u64,
) -> Option<RouteReject> {
    match (v.spec_proof(), v.spec_authorization()) {
        (
            VerifiedProof::GatewayOnlyScopedConsent(p),
            VerifiedAuthorization::GatewayOnlyExplicit { maximum_trust_tier, local_handle_allowed },
        ) => {
            if !(proof_listener_scope(v.spec_proof()) == (s.ingress.listener, s.ingress.token_scope)
                && p.listener == s.ingress.listener && p.token_scope == s.ingress.token_scope && p.audience
                == s.ingress.audience && p.registry_digest == v.spec_registry_digest() && p.request_digest
                == v.spec_request_digest() && p.consent_revision == s.consent_revision && p.route_policy_revision
                == s.route_policy_revision && maximum_trust_tier == s.maximum_trust_tier && !local_handle_allowed) {
                Some(RouteReject::ContextGateRejected)
            } else if !window_open(p.issued_at_millis, p.expires_at_millis, now) {
                Some(RouteReject::AuthorizationExpired)
            } else {
                None
            }
        },
        _ => Some(RouteReject::ContextGateRejected),
    }
}

/// Whether `g` is the grant the gateway-only context gate gives `v` under `s`.
pub open spec fn gateway_grant_ok(g: ContextExecutionGrant, v: VerifiedIngressRequest, s: ClassifierGatewayContext) -> bool {
    &&& g matches ContextExecutionGrant::GatewayOnly {
        binding,
        route_policy_revision,
        consent_revision,
        maximum_trust_tier,
        expires_at_millis,
    }
    &&& binding.binds(v)
    &&& route_policy_revision == s.route_policy_revision
    &&& consent_revision == s.consent_revision
    &&& maximum_trust_tier == s.maximum_trust_tier
    &&& v.spec_proof() matches VerifiedProof::GatewayOnlyScopedConsent(p)
    &&& expires_at_millis == p.expires_at_millis
}

/// How the capability bound gate refuses a request, if it does.
pub open spec fn capability_gate_error(
    v: VerifiedIngressRequest,
    s: ClassifierCapabilityBound,
    now: u64,
) -> Option<RouteReject> {
    match (v.spec_proof(), v.spec_authorization()) {
        (VerifiedProof::CapabilityScoped(c), VerifiedAuthorization::CapabilityBound) => {
            if !(proof_listener_scope(v.spec_proof()) == (s.ingress.listener, s.ingress.token_scope)
                && c.listener == s.ingress.listener && c.token_scope == s.ingress.token_scope && c.audience
                == s.ingress.audience && c.issuer_epoch == s.issuer_epoch && c.registry_digest
                == v.spec_registry_digest() && c.request_digest == v.spec_request_digest() && c.site == s.target.site
                && c.deployment == s.target.deployment && c.endpoint == s.target.endpoint && c.origin.bytes()
                == s.target.origin.bytes() && c.account_selector == s.target.account_selector && c.account
                == s.target.account && c.credential == s.target.credential && c.adapter_contract_revision
                == s.target.adapter_contract_revision && c.trust_tier == s.target.trust_tier && c.management_scope
                == s.management_scope && c.deadline_millis == s.deadline_millis && c.fallback_forbidden) {
                Some(RouteReject::BoundGateRejected)
            } else if !window_open(c.issued_at_millis, c.deadline_millis, now) {
                Some(RouteReject::AuthorizationExpired)
            } else {
                None
            }
        },
        _ => Some(RouteReject::BoundGateRejected),
    }
}

/// How the exact target check of a managed bundle refuses, if it does.
pub open spec fn managed_exact_target_error(v: VerifiedIngressRequest, t: ClassifierBoundTarget) -> Option<RouteReject> {
    match (v.spec_proof(), v.spec_authorization()) {
        (VerifiedProof::Managed(_), VerifiedAuthorization::Managed(b)) => {
            if verified_purpose(b.permit.purpose) != VerifiedEgressPurpose::ExactUpstreamTokenCount
                || b.permit.allowed_targets@.len() != 1 || b.permit.fallback_allowed
                || b.requirements.upstream_adapter_revision != t.adapter_contract_revision {
                Some(RouteReject::BoundGateRejected)
            } else if b.permit.allowed_targets@[0].site != t.site || b.permit.allowed_targets@[0].deployment
                != t.deployment || b.permit.allowed_targets@[0].origin.bytes() != t.origin.bytes()
                || b.permit.allowed_targets@[0].trust_tier != t.trust_tier {
                Some(RouteReject::BoundGateRejected)
            } else {
                None
            }
        },
        _ => Some(RouteReject::BoundGateRejected),
    }
}

/// How the exact upstream bound gate refuses a request under a context grant, if it does.
pub open spec fn exact_bound_error(
    v: VerifiedIngressRequest,
    b: ExactUpstreamBoundSnapshot,
    g: ContextExecutionGrant,
) -> Option<RouteReject> {
    if b.request.operation != operation_of(v) || b.request.request_digest != v.spec_request_digest()
        || !grant_binding(g).binds(v) {
        Some(RouteReject::BoundGateRejected)
    } else {
        match g {
            ContextExecutionGrant::Managed { .. } => managed_exact_target_error(v, b.target),
            ContextExecutionGrant::GatewayOnly { maximum_trust_tier, .. } => match v.spec_authorization() {
                VerifiedAuthorization::GatewayOnlyExplicit { local_handle_allowed, .. } => {
                    if !(v.spec_proof() is GatewayOnlyScopedConsent) || local_handle_allowed || b.target.trust_tier
                        > maximum_trust_tier {
                        Some(RouteReject::BoundGateRejected)
                    } else {
                        None
                    }
                },
                _ => Some(RouteReject::BoundGateRejected),
            },
        }
    }
}

/// How the closed gates refuse a request under a snapshot mode at `now`, if they do.
pub open spec fn closed_gates_error(v: VerifiedIngressRequest, mode: SnapshotMode, now: u64) -> Option<RouteReject> {
    let kind = kind_of(v);
    let domain = domain_of(v);
    let routed = (kind == RequestKind::ModelInference || kind == RequestKind::AuxiliaryInference) && domain
        == RequestDispatchDomain::RoutedPolicy;
    let exact = kind == RequestKind::ExactUpstreamTokenCount && domain == RequestDispatchDomain::BoundDeployment;
    match mode {
        SnapshotMode::Local(s) => if is_local_kind(kind) && domain == RequestDispatchDomain::Local {
            if local_gate_passes(v, s) {
                None
            } else {
                Some(RouteReject::LocalScopeMismatch)
            }
        } else {
            Some(RouteReject::DispositionNotAllowed)
        },
        SnapshotMode::CapabilityBound(s) => if kind == RequestKind::DeploymentModelProbe && domain
            == RequestDispatchDomain::BoundDeployment {
            capability_gate_error(v, s, now)
        } else {
            Some(RouteReject::DispositionNotAllowed)
        },
        SnapshotMode::ManagedExact { context, bound } => if !exact {
            Some(RouteReject::DispositionNotAllowed)
        } else if !managed_proof_present(v) {
            Some(RouteReject::ContextGateRejected)
        } else if managed_context_error(v, context, now) is Some {
            managed_context_error(v, context, now)
        } else if bound.request.operation != operation_of(v) || bound.request.request_digest
            != v.spec_request_digest() {
            Some(RouteReject::BoundGateRejected)
        } else {
            managed_exact_target_error(v, bound.target)
        },
        SnapshotMode::GatewayExact { context, bound } => if !exact {
            Some(RouteReject::DispositionNotAllowed)
        } else if !gateway_proof_present(v) {
            Some(RouteReject::ContextGateRejected)
        } else if gateway_context_error(v, context, now) is Some {
            gateway_context_error(v, context, now)
        } else if bound.request.operation != operation_of(v) || bound.request.request_digest
            != v.spec_request_digest() || bound.target.trust_tier > context.maximum_trust_tier {
            Some(RouteReject::BoundGateRejected)
        } else {
            None
        },
        SnapshotMode::ManagedRouted(s) => if !routed {
            Some(RouteReject::DispositionNotAllowed)
        } else if !managed_proof_present(v) {
            Some(RouteReject::ContextGateRejected)
        } else {
            managed_context_error(v, s, now)
        },
        SnapshotMode::GatewayRouted(s) => if !routed {
            Some(RouteReject::DispositionNotAllowed)
        } else if !gateway_proof_present(v) {
            Some(RouteReject::ContextGateRejected)
        } else {
            gateway_context_error(v, s, now)
        },
    }
}

/// A request passes the closed gates only into the disposition of its own dispatch domain:
/// a local snapshot takes only local kinds of the local domain, a routed snapshot only
/// inference of the route policy domain, and a bound snapshot only the bound deployment
/// domain.
pub proof fn lemma_gates_keep_dispatch_domains(v: VerifiedIngressRequest, mode: SnapshotMode, now: u64)
    requires
        closed_gates_error(v, mode, now) is None,
    ensures
        mode is Local ==> domain_of(v) == RequestDispatchDomain::Local && is_local_kind(kind_of(v)),
        mode is ManagedRouted || mode is GatewayRouted ==> domain_of(v) == RequestDispatchDomain::RoutedPolicy && (
        kind_of(v) == RequestKind::ModelInference || kind_of(v) == RequestKind::AuxiliaryInference),
        mode is CapabilityBound ==> domain_of(v) == RequestDispatchDomain::BoundDeployment && kind_of(v)
            == RequestKind::DeploymentModelProbe,
        mode is ManagedExact || mode is GatewayExact ==> domain_of(v) == RequestDispatchDomain::BoundDeployment
            && kind_of(v) == RequestKind::ExactUpstreamTokenCount,
        mode is ManagedRouted || mode is ManagedExact ==> managed_proof_present(v),
        mode is GatewayRouted || mode is GatewayExact ==> gateway_proof_present(v),
{
}

/// Whether `d` is the disposition the closed gates give `v` under a snapshot mode.
pub open spec fn disposition_matches(d: VerifiedIngressDisposition, v: VerifiedIngressRequest, mode: SnapshotMode) -> bool {
    match (mode, d) {
        (SnapshotMode::Local(s), VerifiedIngressDisposition::Local(x)) => x.spec_verified() == v
            && x.spec_auth_scope() == s.auth_scope,
        (SnapshotMode::CapabilityBound(s), VerifiedIngressDisposition::BoundDeployment(x)) => x.spec_verified() == v
            && x.spec_grant().grants(v, s.target, None, Some(s.management_scope), s.deadline_millis),
        (SnapshotMode::ManagedExact { context, bound }, VerifiedIngressDisposition::BoundDeployment(x)) => {
            &&& x.spec_verified() == v
            &&& x.spec_grant().spec_context() matches Some(g)
            &&& managed_grant_ok(g, v, context)
            &&& x.spec_grant().grants(v, bound.target, Some(g), None, grant_expiry(g))
        },
        (SnapshotMode::GatewayExact { context, bound }, VerifiedIngressDisposition::BoundDeployment(x)) => {
            &&& x.spec_verified() == v
            &&& x.spec_grant().spec_context() matches Some(g)
            &&& gateway_grant_ok(g, v, context)
            &&& x.spec_grant().grants(v, bound.target, Some(g), None, grant_expiry(g))
        },
        (SnapshotMode::ManagedRouted(s), VerifiedIngressDisposition::Routed(x)) => x.spec_verified() == v
            && managed_grant_ok(x.spec_context(), v, s),
        (SnapshotMode::GatewayRouted(s), VerifiedIngressDisposition::Routed(x)) => x.spec_verified() == v
            && gateway_grant_ok(x.spec_context(), v, s),
        _ => false,
    }
}

/// Whether what the normalizer confirmed is bound to the accepted request.
pub open spec fn normalized_binds(n: ProtocolNormalizedRequest, v: VerifiedIngressRequest) -> bool {
    &&& n.spec_operation() == operation_of(v)
    &&& n.spec_request_kind() == kind_of(v)
    &&& n.spec_dispatch_domain() == domain_of(v)
    &&& n.spec_request_digest() == v.spec_request_digest()
    &&& n.spec_semantic() == expected_semantic(kind_of(v))
}

/// How the snapshot binding refuses an accepted request, given whether the snapshot came from
/// this runtime (`same_runtime`), if it does.
pub open spec fn snapshot_error(
    same_runtime: bool,
    registry_digest: RegistryDigest,
    v: VerifiedIngressRequest,
    snapshot_digest: RegistryDigest,
    mode: SnapshotMode,
) -> Option<RouteReject> {
    if !same_runtime {
        Some(RouteReject::SnapshotDomainMismatch)
    } else if v.spec_registry_digest() != registry_digest || snapshot_digest != registry_digest {
        Some(RouteReject::RegistryMismatch)
    } else if mode_request(mode).operation != operation_of(v) || mode_request(mode).request_digest
        != v.spec_request_digest() {
        Some(RouteReject::SnapshotBindingMismatch)
    } else {
        None
    }
}

fn is_local_kind_exec(kind: RequestKind) -> (r: bool)
    ensures
        r == is_local_kind(kind),
{
    match kind {
        RequestKind::Liveness | RequestKind::LocalAdmin | RequestKind::AuthFlow | RequestKind::UnifiedModelCatalog
        | RequestKind::ExactLocalTokenCount | RequestKind::EstimatedLocalTokenCount
        | RequestKind::LocalContextCompact => true,
        _ => false,
    }
}

fn expected_local_scope_exec(kind: RequestKind) -> (r: Option<LocalOperationAuthScope>)
    ensures
        r == expected_local_scope(kind),
{
    match kind {
        RequestKind::Liveness => Some(LocalOperationAuthScope::PublicLiveness),
        RequestKind::LocalAdmin => Some(LocalOperationAuthScope::LocalAdmin),
        RequestKind::AuthFlow => Some(LocalOperationAuthScope::AuthFlow),
        RequestKind::UnifiedModelCatalog | RequestKind::ExactLocalTokenCount | RequestKind::EstimatedLocalTokenCount
        | RequestKind::LocalContextCompact => Some(LocalOperationAuthScope::LocalData),
        _ => None,
    }
}

fn expected_semantic_exec(kind: RequestKind) -> (r: NormalizedRequestSemantic)
    ensures
        r == expected_semantic(kind),
{
    match kind {
        RequestKind::DeploymentModelProbe => NormalizedRequestSemantic::DeploymentModelProbe,
        RequestKind::ExactUpstreamTokenCount => NormalizedRequestSemantic::ExactUpstreamTokenCount,
        RequestKind::ModelInference => NormalizedRequestSemantic::ModelInference,
        RequestKind::AuxiliaryInference => NormalizedRequestSemantic::AuxiliaryInference,
        _ => NormalizedRequestSemantic::LocalOperation,
    }
}

fn managed_purpose_matches_exec(kind: RequestKind, purpose: VerifiedEgressPurpose) -> (r: bool)
    ensures
        r == managed_purpose_matches(kind, purpose),
{
    match (kind, purpose) {
        (RequestKind::ModelInference, VerifiedEgressPurpose::ModelInference) => true,
        (RequestKind::AuxiliaryInference, VerifiedEgressPurpose::AuxiliaryInference) => true,
        (RequestKind::ExactUpstreamTokenCount, VerifiedEgressPurpose::ExactUpstreamTokenCount) => true,
        _ => false,
    }
}

fn validate_time_window(issued_at_millis: u64, expires_at_millis: u64, now_millis: u64) -> (r: Result<(), RouteReject>)
    ensures
        r is Ok <==> window_open(issued_at_millis, expires_at_millis, now_millis),
        r is Err ==> r matches Err(RouteReject::AuthorizationExpired),
{
    if issued_at_millis > now_millis || expires_at_millis <= now_millis {
        return Err(RouteReject::AuthorizationExpired);
    }
    Ok(())
}

fn gate_local(request: &ClassifiedRequest, snapshot: &LocalSnapshot) -> (r: Result<(), RouteReject>)
    ensures
        r is Ok <==> local_gate_passes(request.spec_verified(), *snapshot),
        r is Err ==> r matches Err(RouteReject::LocalScopeMismatch),
{
    let v = request.verified();
    if v.proof_kind() != VerifiedProofKind::LocalOperationScoped || v.authorization_kind()
        != VerifiedAuthorizationKind::NoEgress || v.local_handle_allowed() || v.local_auth_scope() != Some(
        snapshot.auth_scope,
    ) || expected_local_scope_exec(request.request_kind()) != Some(snapshot.auth_scope) {
        return Err(RouteReject::LocalScopeMismatch);
    }
    let (listener, token_scope) = v.listener_scope();
    if listener != snapshot.listener || token_scope != snapshot.token_scope {
        return Err(RouteReject::LocalScopeMismatch);
    }
    Ok(())
}

fn require_managed_proof(request: &ClassifiedRequest) -> (r: Result<(), RouteReject>)
    ensures
        r is Ok <==> managed_proof_present(request.spec_verified()),
        r is Err ==> r matches Err(RouteReject::ContextGateRejected),
{
    let v = request.verified();
    if v.proof_kind() != VerifiedProofKind::Managed || v.authorization_kind() != VerifiedAuthorizationKind::ManagedEgress
        || v.managed().is_none() || v.gateway_only().is_some() || v.capability_binding().is_some() {
        return Err(RouteReject::ContextGateRejected);
    }
    Ok(())
}

fn require_gateway_proof(request: &ClassifiedRequest) -> (r: Result<(), RouteReject>)
    ensures
        r is Ok <==> gateway_proof_present(request.spec_verified()),
        r is Err ==> r matches Err(RouteReject::ContextGateRejected),
{
    let v = request.verified();
    if v.proof_kind() != VerifiedProofKind::GatewayOnlyScopedConsent || v.authorization_kind()
        != VerifiedAuthorizationKind::GatewayOnlyExplicit || v.gateway_only().is_none() || v.managed().is_some()
        || v.capability_binding().is_some() || v.local_handle_allowed() {
        return Err(RouteReject::ContextGateRejected);
    }
    Ok(())
}


fn gate_managed_context(request: &ClassifiedRequest, snapshot: &ClassifierManagedContext, now_millis: u64) -> (r: Result<
    ContextExecutionGrant,
    RouteReject,
>)
    ensures
        managed_context_error(request.spec_verified(), *snapshot, now_millis) matches Some(e) ==> r matches Err(x)
            && x == e,
        managed_context_error(request.spec_verified(), *snapshot, now_millis) is None ==> (r matches Ok(g)
            && managed_grant_ok(g, request.spec_verified(), *snapshot)),
{
    let v = request.verified();
    let view = match v.managed() {
        Some(view) => view,
        None => {
            return Err(RouteReject::ContextGateRejected);
        },
    };
    let activation = view.activation_key();
    let permit = view.egress_permit();
    let requirements = view.capability_requirements();
    let (listener, token_scope) = v.listener_scope();
    if listener != snapshot.ingress.listener || token_scope != snapshot.ingress.token_scope || view.listener()
        != snapshot.ingress.listener || view.token_scope() != snapshot.ingress.token_scope || view.audience()
        != snapshot.ingress.audience || view.issuer_epoch() != snapshot.issuer_epoch
        || !view.registry_digest().same(&request.registry_digest())
        || !view.authorization_bundle_digest().same(&snapshot.authorization_bundle_digest)
        || view.route_policy_revision() != snapshot.route_policy_revision || view.consent_revision()
        != snapshot.consent_revision || view.adapter_version() != snapshot.activation.adapter_version
        || view.transform_owner() != snapshot.activation.transform_owner || view.transform_owner_version()
        != snapshot.activation.transform_owner_version {
        return Err(RouteReject::ContextGateRejected);
    }
    if activation.client_family() != snapshot.activation.client_family || activation.client_version()
        != snapshot.activation.client_version || activation.adapter_version() != snapshot.activation.adapter_version
        || activation.ingress_schema_version() != snapshot.activation.ingress_schema_version
        || activation.context_policy_version() != snapshot.activation.context_policy_version
        || activation.transform_owner() != snapshot.activation.transform_owner || activation.transform_owner_version()
        != snapshot.activation.transform_owner_version {
        return Err(RouteReject::ContextGateRejected);
    }
    if permit.operation() != request.operation() || !permit.request_digest().same(&request.request_digest())
        || permit.route_policy_revision() != snapshot.route_policy_revision || permit.consent_revision()
        != snapshot.consent_revision || permit.target_count() == 0 || requirements.client_adapter_version()
        != snapshot.activation.adapter_version || !managed_purpose_matches_exec(
        request.request_kind(),
        permit.purpose(),
    ) {
        return Err(RouteReject::ContextGateRejected);
    }
    validate_time_window(view.issued_at_millis(), view.expires_at_millis(), now_millis)?;
    if permit.expires_at_millis() <= now_millis || permit.expires_at_millis() > view.expires_at_millis() {
        return Err(RouteReject::AuthorizationExpired);
    }
    Ok(
        ContextExecutionGrant::Managed {
            binding: GrantBinding::from_request(request),
            route_policy_revision: snapshot.route_policy_revision,
            consent_revision: snapshot.consent_revision,
            expires_at_millis: permit.expires_at_millis(),
        },
    )
}

fn gate_gateway_context(request: &ClassifiedRequest, snapshot: &ClassifierGatewayContext, now_millis: u64) -> (r: Result<
    ContextExecutionGrant,
    RouteReject,
>)
    ensures
        gateway_context_error(request.spec_verified(), *snapshot, now_millis) matches Some(e) ==> r matches Err(x)
            && x == e,
        gateway_context_error(request.spec_verified(), *snapshot, now_millis) is None ==> (r matches Ok(g)
            && gateway_grant_ok(g, request.spec_verified(), *snapshot)),
{
    let v = request.verified();
    let view = match v.gateway_only() {
        Some(view) => view,
        None => {
            return Err(RouteReject::ContextGateRejected);
        },
    };
    let (listener, token_scope) = v.listener_scope();
    if listener != snapshot.ingress.listener || token_scope != snapshot.ingress.token_scope || view.listener()
        != snapshot.ingress.listener || view.token_scope() != snapshot.ingress.token_scope || view.audience()
        != snapshot.ingress.audience || !view.registry_digest().same(&request.registry_digest())
        || !view.request_digest().same(&request.request_digest()) || view.consent_revision()
        != snapshot.consent_revision || view.route_policy_revision() != snapshot.route_policy_revision
        || view.maximum_trust_tier() != snapshot.maximum_trust_tier || view.local_handle_allowed()
        || v.local_handle_allowed() {
        return Err(RouteReject::ContextGateRejected);
    }
    validate_time_window(view.issued_at_millis(), view.expires_at_millis(), now_millis)?;
    Ok(
        ContextExecutionGrant::GatewayOnly {
            binding: GrantBinding::from_request(request),
            route_policy_revision: snapshot.route_policy_revision,
            consent_revision: snapshot.consent_revision,
            maximum_trust_tier: snapshot.maximum_trust_tier,
            expires_at_millis: view.expires_at_millis(),
        },
    )
}

fn gate_capability_bound(request: &ClassifiedRequest, snapshot: &ClassifierCapabilityBound, now_millis: u64) -> (r: Result<
    BoundDeploymentGrant,
    RouteReject,
>)
    ensures
        capability_gate_error(request.spec_verified(), *snapshot, now_millis) matches Some(e) ==> r matches Err(x)
            && x == e,
        capability_gate_error(request.spec_verified(), *snapshot, now_millis) is None ==> (r matches Ok(g)
            && g.grants(
            request.spec_verified(),
            snapshot.target,
            None,
            Some(snapshot.management_scope),
            snapshot.deadline_millis,
        )),
{
    let v = request.verified();
    if v.proof_kind() != VerifiedProofKind::CapabilityScoped || v.authorization_kind()
        != VerifiedAuthorizationKind::CapabilityBound || v.managed().is_some() || v.gateway_only().is_some()
        || v.local_auth_scope().is_some() || v.local_handle_allowed() {
        return Err(RouteReject::BoundGateRejected);
    }
    let binding = match v.capability_binding() {
        Some(b) => b,
        None => {
            return Err(RouteReject::BoundGateRejected);
        },
    };
    let (listener, token_scope) = v.listener_scope();
    if listener != snapshot.ingress.listener || token_scope != snapshot.ingress.token_scope || binding.listener()
        != snapshot.ingress.listener || binding.token_scope() != snapshot.ingress.token_scope || binding.audience()
        != snapshot.ingress.audience || binding.issuer_epoch() != snapshot.issuer_epoch
        || !binding.registry_digest().same(&request.registry_digest())
        || !binding.request_digest().same(&request.request_digest()) || binding.site() != snapshot.target.site
        || binding.deployment() != snapshot.target.deployment || binding.endpoint() != snapshot.target.endpoint
        || !bytes_eq(binding.origin().as_bytes(), snapshot.target.origin.as_bytes()) || binding.account_selector()
        != snapshot.target.account_selector || binding.account() != snapshot.target.account || binding.credential()
        != snapshot.target.credential || binding.adapter_contract_revision() != snapshot.target.adapter_contract_revision
        || binding.trust_tier() != snapshot.target.trust_tier || binding.management_scope()
        != snapshot.management_scope || binding.deadline_millis() != snapshot.deadline_millis
        || !binding.fallback_forbidden() {
        return Err(RouteReject::BoundGateRejected);
    }
    validate_time_window(binding.issued_at_millis(), binding.deadline_millis(), now_millis)?;
    Ok(
        BoundDeploymentGrant::new(
            GrantBinding::from_request(request),
            BoundTarget::from_snapshot(&snapshot.target),
            None,
            Some(snapshot.management_scope),
            snapshot.deadline_millis,
        ),
    )
}

fn validate_managed_exact_target(request: &ClassifiedRequest, target: &ClassifierBoundTarget) -> (r: Result<
    (),
    RouteReject,
>)
    ensures
        managed_exact_target_error(request.spec_verified(), *target) matches Some(e) ==> r matches Err(x) && x == e,
        managed_exact_target_error(request.spec_verified(), *target) is None ==> r is Ok,
{
    let managed = match request.verified().managed() {
        Some(m) => m,
        None => {
            return Err(RouteReject::BoundGateRejected);
        },
    };
    let permit = managed.egress_permit();
    let requirements = managed.capability_requirements();
    if permit.purpose() != VerifiedEgressPurpose::ExactUpstreamTokenCount || permit.target_count() != 1
        || permit.fallback_allowed() || requirements.upstream_adapter_revision() != target.adapter_contract_revision {
        return Err(RouteReject::BoundGateRejected);
    }
    let targets = permit.targets();
    let permitted = &targets[0];
    if permitted.site() != target.site || permitted.deployment() != target.deployment || !bytes_eq(
        permitted.origin().as_bytes(),
        target.origin.as_bytes(),
    ) || permitted.trust_tier() != target.trust_tier {
        return Err(RouteReject::BoundGateRejected);
    }
    Ok(())
}

fn gate_exact_upstream_bound(
    request: &ClassifiedRequest,
    snapshot: &ExactUpstreamBoundSnapshot,
    context: ContextExecutionGrant,
) -> (r: Result<BoundDeploymentGrant, RouteReject>)
    ensures
        exact_bound_error(request.spec_verified(), *snapshot, context) matches Some(e) ==> r matches Err(x) && x == e,
        exact_bound_error(request.spec_verified(), *snapshot, context) is None ==> (r matches Ok(g) && g.grants(
            request.spec_verified(),
            snapshot.target,
            Some(context),
            None,
            grant_expiry(context),
        )),
{
    if snapshot.request.operation != request.operation() || !snapshot.request.request_digest.same(
        &request.request_digest(),
    ) || !context.binding().matches(request) {
        return Err(RouteReject::BoundGateRejected);
    }
    match &context {
        ContextExecutionGrant::Managed { .. } => {
            validate_managed_exact_target(request, &snapshot.target)?;
        },
        ContextExecutionGrant::GatewayOnly { maximum_trust_tier, .. } => {
            let v = request.verified();
            let gateway = match v.gateway_only() {
                Some(g) => g,
                None => {
                    return Err(RouteReject::BoundGateRejected);
                },
            };
            if gateway.local_handle_allowed() || v.local_handle_allowed() || snapshot.target.trust_tier
                > *maximum_trust_tier {
                return Err(RouteReject::BoundGateRejected);
            }
        },
    }
    let deadline_millis = context.expires_at_millis();
    Ok(
        BoundDeploymentGrant::new(
            GrantBinding::from_request(request),
            BoundTarget::from_snapshot(&snapshot.target),
            Some(context),
            None,
            deadline_millis,
        ),
    )
}


/// Applies the local, context and bound gates that the snapshot mode, the request kind and
/// the dispatch domain select together; any other combination is refused.
#[verifier::spinoff_prover]
#[verifier::rlimit(50)]
pub fn apply_closed_gates(request: ClassifiedRequest, snapshot: &ClassifierSnapshot, now_millis: u64) -> (r: Result<
    VerifiedIngressDisposition,
    RouteReject,
>)
    ensures
        closed_gates_error(request.spec_verified(), snapshot.spec_mode(), now_millis) matches Some(e) ==> (r matches Err(
            x,
        ) && x == e),
        closed_gates_error(request.spec_verified(), snapshot.spec_mode(), now_millis) is None ==> (r matches Ok(d)
            && disposition_matches(d, request.spec_verified(), snapshot.spec_mode())),
{
    let ghost v = request.spec_verified();
    let kind = request.request_kind();
    let domain = request.dispatch_domain();
    match snapshot.mode() {
        SnapshotMode::Local(local) => {
            if !(is_local_kind_exec(kind) && domain == RequestDispatchDomain::Local) {
                return Err(RouteReject::DispositionNotAllowed);
            }
            gate_local(&request, local)?;
            Ok(VerifiedIngressDisposition::Local(VerifiedLocalDispatch::construct(request, local.auth_scope)))
        },
        SnapshotMode::CapabilityBound(capability) => {
            if !(kind == RequestKind::DeploymentModelProbe && domain == RequestDispatchDomain::BoundDeployment) {
                return Err(RouteReject::DispositionNotAllowed);
            }
            let grant = gate_capability_bound(&request, capability, now_millis)?;
            proof {
                grant.lemma_grants(v, capability.target, None, Some(capability.management_scope), capability.deadline_millis);
            }
            let d = VerifiedBoundDeploymentRequest::construct(request, grant)?;
            Ok(VerifiedIngressDisposition::BoundDeployment(d))
        },
        SnapshotMode::ManagedExact { context, bound } => {
            if !(kind == RequestKind::ExactUpstreamTokenCount && domain == RequestDispatchDomain::BoundDeployment) {
                return Err(RouteReject::DispositionNotAllowed);
            }
            require_managed_proof(&request)?;
            let context_grant = gate_managed_context(&request, context, now_millis)?;
            let grant = gate_exact_upstream_bound(&request, bound, context_grant)?;
            proof {
                grant.lemma_grants(v, bound.target, Some(context_grant), None, grant_expiry(context_grant));
            }
            let d = VerifiedBoundDeploymentRequest::construct(request, grant)?;
            Ok(VerifiedIngressDisposition::BoundDeployment(d))
        },
        SnapshotMode::GatewayExact { context, bound } => {
            if !(kind == RequestKind::ExactUpstreamTokenCount && domain == RequestDispatchDomain::BoundDeployment) {
                return Err(RouteReject::DispositionNotAllowed);
            }
            require_gateway_proof(&request)?;
            let context_grant = gate_gateway_context(&request, context, now_millis)?;
            let grant = gate_exact_upstream_bound(&request, bound, context_grant)?;
            proof {
                grant.lemma_grants(v, bound.target, Some(context_grant), None, grant_expiry(context_grant));
            }
            let d = VerifiedBoundDeploymentRequest::construct(request, grant)?;
            Ok(VerifiedIngressDisposition::BoundDeployment(d))
        },
        SnapshotMode::ManagedRouted(context) => {
            if !((kind == RequestKind::ModelInference || kind == RequestKind::AuxiliaryInference) && domain
                == RequestDispatchDomain::RoutedPolicy) {
                return Err(RouteReject::DispositionNotAllowed);
            }
            require_managed_proof(&request)?;
            let grant = gate_managed_context(&request, context, now_millis)?;
            let d = VerifiedRouteRequest::construct(request, grant)?;
            Ok(VerifiedIngressDisposition::Routed(d))
        },
        SnapshotMode::GatewayRouted(context) => {
            if !((kind == RequestKind::ModelInference || kind == RequestKind::AuxiliaryInference) && domain
                == RequestDispatchDomain::RoutedPolicy) {
                return Err(RouteReject::DispositionNotAllowed);
            }
            require_gateway_proof(&request)?;
            let grant = gate_gateway_context(&request, context, now_millis)?;
            let d = VerifiedRouteRequest::construct(request, grant)?;
            Ok(VerifiedIngressDisposition::Routed(d))
        },
    }
}


/// The composition-root container that makes a closed classifier and the one snapshot
/// authority paired with it.
pub struct ClassifierRuntime<N: ClientProtocolNormalizer, C: ClassifierClock> {
    classifier: ClosedRequestClassifier<N, C>,
    snapshot_authority: ClassifierSnapshotAuthority,
}

impl<N: ClientProtocolNormalizer, C: ClassifierClock> ClassifierRuntime<N, C> {
    /// The classifier.
    pub closed spec fn spec_classifier(&self) -> ClosedRequestClassifier<N, C> {
        self.classifier
    }

    /// The snapshot authority paired with the classifier.
    pub closed spec fn spec_authority(&self) -> ClassifierSnapshotAuthority {
        self.snapshot_authority
    }

    /// Initializes one classifier runtime.
    ///
    /// The classifier owns `receiver`; `registry_digest` must be the digest of the registry
    /// the receiver was made with, else the first request fails closed before the normalizer.
    pub fn initialize(
        receiver: VerifiedIngressReceiver,
        registry_digest: RegistryDigest,
        normalizer: N,
        clock: C,
    ) -> (r: Result<Self, RouteReject>)
        ensures
            r is Ok <==> registry_digest_usable(registry_digest),
            r is Err ==> r matches Err(RouteReject::InvalidSnapshot),
            r matches Ok(rt) ==> {
                &&& rt.spec_classifier().spec_registry_digest() == registry_digest
                &&& rt.spec_classifier().spec_receiver() == receiver
                &&& rt.spec_authority().spec_registry_digest() == registry_digest
                &&& rt.spec_authority().spec_seal() == rt.spec_classifier().spec_snapshot_seal()
            },
    {
        validate_registry_digest(registry_digest)?;
        let snapshot_seal = Arc::new(SnapshotDomainSeal::new());
        let snapshot_authority = ClassifierSnapshotAuthority::new(snapshot_seal.clone(), registry_digest);
        let classifier = ClosedRequestClassifier { receiver, registry_digest, snapshot_seal, normalizer, clock };
        Ok(ClassifierRuntime { classifier, snapshot_authority })
    }

    /// Splits the runtime into the closed classifier and its paired authority.
    pub fn into_parts(self) -> (r: (ClosedRequestClassifier<N, C>, ClassifierSnapshotAuthority))
        ensures
            r.0 == self.spec_classifier(),
            r.1 == self.spec_authority(),
    {
        (self.classifier, self.snapshot_authority)
    }
}

/// The closed request classifier, which owns the ingress receiver.
///
/// It has no public entry that takes a raw request or a receiver-accepted intermediate
/// state: callers hand in a verified request, and the receiver runs first.
pub struct ClosedRequestClassifier<N: ClientProtocolNormalizer, C: ClassifierClock> {
    receiver: VerifiedIngressReceiver,
    registry_digest: RegistryDigest,
    snapshot_seal: Arc<SnapshotDomainSeal>,
    normalizer: N,
    clock: C,
}

impl<N: ClientProtocolNormalizer, C: ClassifierClock> ClosedRequestClassifier<N, C> {
    /// The receiver it owns.
    pub closed spec fn spec_receiver(&self) -> VerifiedIngressReceiver {
        self.receiver
    }

    /// The registry digest it is bound to.
    pub closed spec fn spec_registry_digest(&self) -> RegistryDigest {
        self.registry_digest
    }

    /// The seal of the snapshots it accepts.
    pub closed spec fn spec_snapshot_seal(&self) -> Arc<SnapshotDomainSeal> {
        self.snapshot_seal
    }

    /// Binds an accepted request to a snapshot once the seal check has given `same_runtime`:
    /// the runtime first, then the registry, then the request.
    pub(crate) fn check_snapshot(
        &self,
        accepted: &ReceiverAcceptedIngressRequest,
        same_runtime: bool,
        snapshot: &ClassifierSnapshot,
    ) -> (r: Result<(), RouteReject>)
        ensures
            snapshot_error(
                same_runtime,
                self.spec_registry_digest(),
                accepted.spec_verified(),
                snapshot.spec_registry_digest(),
                snapshot.spec_mode(),
            ) matches Some(e) ==> (r matches Err(x) && x == e),
            snapshot_error(
                same_runtime,
                self.spec_registry_digest(),
                accepted.spec_verified(),
                snapshot.spec_registry_digest(),
                snapshot.spec_mode(),
            ) is None ==> r is Ok,
    {
        if !same_runtime {
            return Err(RouteReject::SnapshotDomainMismatch);
        }
        if !accepted.registry_digest().same(&self.registry_digest) || !snapshot.registry_digest().same(
            &self.registry_digest,
        ) {
            return Err(RouteReject::RegistryMismatch);
        }
        let bound = snapshot.request();
        if bound.operation != accepted.operation() || !bound.request_digest.same(&accepted.request_digest()) {
            return Err(RouteReject::SnapshotBindingMismatch);
        }
        Ok(())
    }

    /// Accepts, normalizes and classifies one verified request.
    ///
    /// The order is fixed: receiver, then the snapshot's runtime, registry and request
    /// binding, then the normalizer, then the local, context and bound gates. Registry drift
    /// is always refused before the normalizer and any later gate.
    pub fn classify(&self, request: VerifiedIngressRequest, snapshot: &ClassifierSnapshot) -> (r: Result<
        VerifiedIngressDisposition,
        RouteReject,
    >)
        ensures
            request.spec_registry_digest() != self.spec_registry_digest() || snapshot.spec_registry_digest()
                != self.spec_registry_digest() ==> (r matches Err(e) && (e is Ingress || e is SnapshotDomainMismatch
                || e is RegistryMismatch)),
            r matches Ok(d) ==> disposition_matches(d, request, snapshot.spec_mode()),
            r is Ok ==> {
                &&& request.spec_registry_digest() == self.spec_registry_digest()
                &&& snapshot.spec_registry_digest() == self.spec_registry_digest()
                &&& mode_request(snapshot.spec_mode()).operation == operation_of(request)
                &&& mode_request(snapshot.spec_mode()).request_digest == request.spec_request_digest()
                &&& exists|t: u64| #[trigger] closed_gates_error(request, snapshot.spec_mode(), t) is None
            },
    {
        let ghost v = request;
        let accepted = match self.receiver.accept(request) {
            Ok(a) => a,
            Err(e) => {
                return Err(RouteReject::Ingress(e));
            },
        };
        let same_runtime = same_seal(&self.snapshot_seal, &snapshot.seal);
        self.check_snapshot(&accepted, same_runtime, snapshot)?;
        let normalized = self.normalizer.normalize(NormalizerInput::new(&accepted));
        let normalized = check_normalized(&accepted, normalized)?;
        let now = self.clock.now_millis();
        let classified = ClassifiedRequest::new(accepted, normalized);
        gate_at(classified, snapshot, now)
    }
}

/// Checks what the normalizer returned against the accepted request.
pub(crate) fn check_normalized(
    accepted: &ReceiverAcceptedIngressRequest,
    normalized: Result<ProtocolNormalizedRequest, ProtocolNormalizeError>,
) -> (r: Result<ProtocolNormalizedRequest, RouteReject>)
    ensures
        match normalized {
            Err(e) => r matches Err(RouteReject::Normalize(x)) && x == e,
            Ok(n) => if normalized_binds(n, accepted.spec_verified()) {
                r == Ok::<ProtocolNormalizedRequest, RouteReject>(n)
            } else {
                r matches Err(RouteReject::NormalizedBindingMismatch)
            },
        },
{
    let n = match normalized {
        Ok(n) => n,
        Err(e) => {
            return Err(RouteReject::Normalize(e));
        },
    };
    if n.operation() != accepted.operation() || n.request_kind() != accepted.request_kind() || n.dispatch_domain()
        != accepted.dispatch_domain() || !n.request_digest().same(&accepted.request_digest()) || n.semantic()
        != expected_semantic_exec(accepted.request_kind()) {
        return Err(RouteReject::NormalizedBindingMismatch);
    }
    Ok(n)
}

/// Runs the closed gates at the clock reading `now`; a failed reading fails closed.
pub(crate) fn gate_at(request: ClassifiedRequest, snapshot: &ClassifierSnapshot, now: Result<u64, RouteReject>) -> (r: Result<
    VerifiedIngressDisposition,
    RouteReject,
>)
    ensures
        match now {
            Err(e) => r matches Err(x) && x == e,
            Ok(t) => match closed_gates_error(request.spec_verified(), snapshot.spec_mode(), t) {
                Some(e) => r matches Err(x) && x == e,
                None => r matches Ok(d) && disposition_matches(d, request.spec_verified(), snapshot.spec_mode()),
            },
        },
        r is Ok ==> (now is Ok && closed_gates_error(request.spec_verified(), snapshot.spec_mode(), now->Ok_0) is None),
{
    let now_millis = match now {
        Ok(t) => t,
        Err(e) => {
            return Err(e);
        },
    };
    apply_closed_gates(request, snapshot, now_millis)
}

} // verus!
