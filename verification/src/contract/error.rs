//! Stable, redacted and fail-closed rejection codes.
use vstd::prelude::*;

verus! {

/// An inbound verification rejection.
///
/// Its code is a constant that never holds the request body, path, headers, proofs or keys.
#[derive(Clone, Copy, Debug, PartialEq, Eq, Structural)]
pub enum IngressReject {
    /// The request target, a length or the framing is malformed.
    RequestMalformed,
    /// The request or a proof exceeds a hard bound.
    RequestTooLarge,
    /// A header name or value, or a repetition of headers, is malformed.
    HeaderMalformed,
    /// One request carries conflicting inbound authentication material.
    ConflictingInboundAuthentication,
    /// The raw request carries a proof header only the gateway may attach.
    ReservedProofHeader,
    /// The exact path is not registered.
    RouteNotFound,
    /// The path exists but the method is not registered for it.
    MethodNotAllowed,
    /// The operation forbids a query.
    QueryNotAllowed,
    /// The content type differs from the route specification.
    ContentTypeNotAllowed,
    /// The operation forbids a body.
    BodyNotAllowed,
    /// The body exceeds the operation bound.
    BodyLimitExceeded,
    /// A route specification breaks the closed-set constraints.
    RouteSpecInvalid,
    /// The registry is empty, duplicated or conflicting.
    RegistryInvalid,
    /// The attestation canonical wire is malformed.
    ProofMalformed,
    /// The authorization bundle canonical wire is malformed.
    AuthorizationBundleMalformed,
    /// The capability authorization canonical wire is malformed.
    CapabilityAuthorizationMalformed,
    /// The HMAC check failed.
    MacInvalid,
    /// The issuing epoch is outside the current rotation window.
    IssuerEpochUnknown,
    /// The listener, token or management scope differs.
    ScopeMismatch,
    /// The proof audience differs.
    AudienceMismatch,
    /// The registry digest differs.
    RegistryMismatch,
    /// The operation identifier differs.
    OperationMismatch,
    /// The request dispatch domain differs.
    DispatchDomainMismatch,
    /// The binding of the raw method, target, headers or body differs.
    RequestBindingMismatch,
    /// The permit, requirements or bundle digest binding differs.
    AuthorizationBindingMismatch,
    /// The active snapshot differs from the proof.
    ActivationBindingMismatch,
    /// The issue, expiry or lifetime window is invalid.
    TimeWindowInvalid,
    /// The nonce is all zero or malformed.
    InvalidNonce,
    /// The nonce was replayed, the store is full or the store failed.
    NonceRejected,
    /// The gateway-only consent is missing, expired or invalid.
    GatewayConsentInvalid,
    /// The local operation authorization scope differs.
    LocalScopeMismatch,
    /// The exact capability binding or the fallback constraint differs.
    CapabilityConstraintMismatch,
    /// The proof entry conflicts with the request semantics.
    ProofModeConflict,
    /// Context, activation, consent or request comes from another verifier runtime.
    VerificationDomainMismatch,
    /// The clock is unavailable.
    ClockUnavailable,
    /// An internal safety precondition failed and execution was closed.
    InternalFailClosed,
}

/// The stable code of each rejection.
pub open spec fn reject_code(e: IngressReject) -> Seq<char> {
    match e {
        IngressReject::RequestMalformed => "request_malformed"@,
        IngressReject::RequestTooLarge => "request_too_large"@,
        IngressReject::HeaderMalformed => "header_malformed"@,
        IngressReject::ConflictingInboundAuthentication => "conflicting_inbound_authentication"@,
        IngressReject::ReservedProofHeader => "reserved_proof_header"@,
        IngressReject::RouteNotFound => "route_not_found"@,
        IngressReject::MethodNotAllowed => "method_not_allowed"@,
        IngressReject::QueryNotAllowed => "query_not_allowed"@,
        IngressReject::ContentTypeNotAllowed => "content_type_not_allowed"@,
        IngressReject::BodyNotAllowed => "body_not_allowed"@,
        IngressReject::BodyLimitExceeded => "body_limit_exceeded"@,
        IngressReject::RouteSpecInvalid => "route_spec_invalid"@,
        IngressReject::RegistryInvalid => "registry_invalid"@,
        IngressReject::ProofMalformed => "proof_malformed"@,
        IngressReject::AuthorizationBundleMalformed => "authorization_bundle_malformed"@,
        IngressReject::CapabilityAuthorizationMalformed => "capability_authorization_malformed"@,
        IngressReject::MacInvalid => "mac_invalid"@,
        IngressReject::IssuerEpochUnknown => "issuer_epoch_unknown"@,
        IngressReject::ScopeMismatch => "scope_mismatch"@,
        IngressReject::AudienceMismatch => "audience_mismatch"@,
        IngressReject::RegistryMismatch => "registry_mismatch"@,
        IngressReject::OperationMismatch => "operation_mismatch"@,
        IngressReject::DispatchDomainMismatch => "dispatch_domain_mismatch"@,
        IngressReject::RequestBindingMismatch => "request_binding_mismatch"@,
        IngressReject::AuthorizationBindingMismatch => "authorization_binding_mismatch"@,
        IngressReject::ActivationBindingMismatch => "activation_binding_mismatch"@,
        IngressReject::TimeWindowInvalid => "time_window_invalid"@,
        IngressReject::InvalidNonce => "invalid_nonce"@,
        IngressReject::NonceRejected => "nonce_rejected"@,
        IngressReject::GatewayConsentInvalid => "gateway_consent_invalid"@,
        IngressReject::LocalScopeMismatch => "local_scope_mismatch"@,
        IngressReject::CapabilityConstraintMismatch => "capability_constraint_mismatch"@,
        IngressReject::ProofModeConflict => "proof_mode_conflict"@,
        IngressReject::VerificationDomainMismatch => "verification_domain_mismatch"@,
        IngressReject::ClockUnavailable => "clock_unavailable"@,
        IngressReject::InternalFailClosed => "internal_fail_closed"@,
    }
}

impl IngressReject {
    /// Returns the stable code a protocol layer maps this rejection to.
    pub fn code(self) -> (r: &'static str)
        ensures
            r@ == reject_code(self),
    {
        match self {
            IngressReject::RequestMalformed => "request_malformed",
            IngressReject::RequestTooLarge => "request_too_large",
            IngressReject::HeaderMalformed => "header_malformed",
            IngressReject::ConflictingInboundAuthentication => "conflicting_inbound_authentication",
            IngressReject::ReservedProofHeader => "reserved_proof_header",
            IngressReject::RouteNotFound => "route_not_found",
            IngressReject::MethodNotAllowed => "method_not_allowed",
            IngressReject::QueryNotAllowed => "query_not_allowed",
            IngressReject::ContentTypeNotAllowed => "content_type_not_allowed",
            IngressReject::BodyNotAllowed => "body_not_allowed",
            IngressReject::BodyLimitExceeded => "body_limit_exceeded",
            IngressReject::RouteSpecInvalid => "route_spec_invalid",
            IngressReject::RegistryInvalid => "registry_invalid",
            IngressReject::ProofMalformed => "proof_malformed",
            IngressReject::AuthorizationBundleMalformed => "authorization_bundle_malformed",
            IngressReject::CapabilityAuthorizationMalformed => "capability_authorization_malformed",
            IngressReject::MacInvalid => "mac_invalid",
            IngressReject::IssuerEpochUnknown => "issuer_epoch_unknown",
            IngressReject::ScopeMismatch => "scope_mismatch",
            IngressReject::AudienceMismatch => "audience_mismatch",
            IngressReject::RegistryMismatch => "registry_mismatch",
            IngressReject::OperationMismatch => "operation_mismatch",
            IngressReject::DispatchDomainMismatch => "dispatch_domain_mismatch",
            IngressReject::RequestBindingMismatch => "request_binding_mismatch",
            IngressReject::AuthorizationBindingMismatch => "authorization_binding_mismatch",
            IngressReject::ActivationBindingMismatch => "activation_binding_mismatch",
            IngressReject::TimeWindowInvalid => "time_window_invalid",
            IngressReject::InvalidNonce => "invalid_nonce",
            IngressReject::NonceRejected => "nonce_rejected",
            IngressReject::GatewayConsentInvalid => "gateway_consent_invalid",
            IngressReject::LocalScopeMismatch => "local_scope_mismatch",
            IngressReject::CapabilityConstraintMismatch => "capability_constraint_mismatch",
            IngressReject::ProofModeConflict => "proof_mode_conflict",
            IngressReject::VerificationDomainMismatch => "verification_domain_mismatch",
            IngressReject::ClockUnavailable => "clock_unavailable",
            IngressReject::InternalFailClosed => "internal_fail_closed",
        }
    }
}

/// A redacted failure of the atomic nonce store.
#[derive(Clone, Copy, Debug, PartialEq, Eq, Structural)]
pub enum NonceReject {
    /// The nonce was already consumed in the same namespace and epoch.
    Replayed,
    /// The nonce expiry is not after the irreversible high-water clock.
    Expired,
    /// The bounded store is full and holds no expired entry to drop.
    CapacityExhausted,
    /// The store lock or backend is unavailable.
    StoreUnavailable,
}

impl NonceReject {
    /// Returns the stable code of the failure.
    pub fn code(self) -> (r: &'static str)
        ensures
            r@ == nonce_reject_code(self),
    {
        match self {
            NonceReject::Replayed => "nonce_replayed",
            NonceReject::Expired => "nonce_expired",
            NonceReject::CapacityExhausted => "nonce_capacity_exhausted",
            NonceReject::StoreUnavailable => "nonce_store_unavailable",
        }
    }
}

/// The stable code of each nonce store failure.
pub open spec fn nonce_reject_code(e: NonceReject) -> Seq<char> {
    match e {
        NonceReject::Replayed => "nonce_replayed"@,
        NonceReject::Expired => "nonce_expired"@,
        NonceReject::CapacityExhausted => "nonce_capacity_exhausted"@,
        NonceReject::StoreUnavailable => "nonce_store_unavailable"@,
    }
}



/// The rejection a stable code names, read from its length and two of its characters.
pub open spec fn code_reject(s: Seq<char>) -> Option<IngressReject> {
    if s.len() == 17 && s[s.len() - 11] == 't' && s[9] == 'a' {
        Some(IngressReject::RequestMalformed)
    } else if s.len() == 17 && s[s.len() - 11] == 't' && s[9] == 'o' {
        Some(IngressReject::RequestTooLarge)
    } else if s.len() == 16 && s[s.len() - 11] == 'r' && s[9] == 'l' {
        Some(IngressReject::HeaderMalformed)
    } else if s.len() == 34 && s[s.len() - 11] == 'h' && s[9] == 'n' {
        Some(IngressReject::ConflictingInboundAuthentication)
    } else if s.len() == 21 && s[s.len() - 11] == 'r' && s[9] == 'p' {
        Some(IngressReject::ReservedProofHeader)
    } else if s.len() == 15 && s[s.len() - 11] == 'e' && s[9] == '_' {
        Some(IngressReject::RouteNotFound)
    } else if s.len() == 18 && s[s.len() - 11] == 'n' && s[9] == 't' {
        Some(IngressReject::MethodNotAllowed)
    } else if s.len() == 17 && s[s.len() - 11] == 'n' && s[9] == '_' {
        Some(IngressReject::QueryNotAllowed)
    } else if s.len() == 24 && s[s.len() - 11] == 'n' && s[9] == 'y' {
        Some(IngressReject::ContentTypeNotAllowed)
    } else if s.len() == 16 && s[s.len() - 11] == 'n' && s[9] == 'a' {
        Some(IngressReject::BodyNotAllowed)
    } else if s.len() == 19 && s[s.len() - 11] == 'i' && s[9] == 't' {
        Some(IngressReject::BodyLimitExceeded)
    } else if s.len() == 18 && s[s.len() - 11] == 'p' && s[9] == 'c' {
        Some(IngressReject::RouteSpecInvalid)
    } else if s.len() == 16 && s[s.len() - 11] == 't' && s[9] == 'i' {
        Some(IngressReject::RegistryInvalid)
    } else if s.len() == 15 && s[s.len() - 11] == 'f' && s[9] == 'f' {
        Some(IngressReject::ProofMalformed)
    } else if s.len() == 30 && s[s.len() - 11] == 'e' && s[9] == 't' {
        Some(IngressReject::AuthorizationBundleMalformed)
    } else if s.len() == 34 && s[s.len() - 11] == 'n' && s[9] == 'y' {
        Some(IngressReject::CapabilityAuthorizationMalformed)
    } else if s.len() == 11 && s[s.len() - 11] == 'm' && s[9] == 'i' {
        Some(IngressReject::MacInvalid)
    } else if s.len() == 20 && s[s.len() - 11] == 'o' && s[9] == 'o' {
        Some(IngressReject::IssuerEpochUnknown)
    } else if s.len() == 14 && s[s.len() - 11] == 'p' && s[9] == 'm' {
        Some(IngressReject::ScopeMismatch)
    } else if s.len() == 17 && s[s.len() - 11] == 'c' && s[9] == 'm' {
        Some(IngressReject::AudienceMismatch)
    } else if s.len() == 17 && s[s.len() - 11] == 'r' && s[9] == 'm' {
        Some(IngressReject::RegistryMismatch)
    } else if s.len() == 18 && s[s.len() - 11] == 'o' && s[9] == '_' {
        Some(IngressReject::OperationMismatch)
    } else if s.len() == 24 && s[s.len() - 11] == 'i' && s[9] == 'd' {
        Some(IngressReject::DispatchDomainMismatch)
    } else if s.len() == 24 && s[s.len() - 11] == 'n' && s[9] == 'i' {
        Some(IngressReject::RequestBindingMismatch)
    } else if s.len() == 30 && s[s.len() - 11] == 'n' && s[9] == 't' {
        Some(IngressReject::AuthorizationBindingMismatch)
    } else if s.len() == 27 && s[s.len() - 11] == 'n' && s[9] == 'n' {
        Some(IngressReject::ActivationBindingMismatch)
    } else if s.len() == 19 && s[s.len() - 11] == 'd' && s[9] == 'o' {
        Some(IngressReject::TimeWindowInvalid)
    } else if s.len() == 13 && s[s.len() - 11] == 'v' && s[9] == 'o' {
        Some(IngressReject::InvalidNonce)
    } else if s.len() == 14 && s[s.len() - 11] == 'c' && s[9] == 'e' {
        Some(IngressReject::NonceRejected)
    } else if s.len() == 23 && s[s.len() - 11] == 'e' && s[9] == 'o' {
        Some(IngressReject::GatewayConsentInvalid)
    } else if s.len() == 20 && s[s.len() - 11] == 'p' && s[9] == 'p' {
        Some(IngressReject::LocalScopeMismatch)
    } else if s.len() == 30 && s[s.len() - 11] == 'n' && s[9] == 'y' {
        Some(IngressReject::CapabilityConstraintMismatch)
    } else if s.len() == 19 && s[s.len() - 11] == 'd' && s[9] == 'e' {
        Some(IngressReject::ProofModeConflict)
    } else if s.len() == 28 && s[s.len() - 11] == 'i' && s[9] == 'i' {
        Some(IngressReject::VerificationDomainMismatch)
    } else if s.len() == 17 && s[s.len() - 11] == 'u' && s[9] == 'v' {
        Some(IngressReject::ClockUnavailable)
    } else if s.len() == 20 && s[s.len() - 11] == 'f' && s[9] == 'f' {
        Some(IngressReject::InternalFailClosed)
    } else {
        None
    }
}

/// Reading a rejection's code gives the rejection back.
pub proof fn lemma_code_names_reject(e: IngressReject)
    ensures
        code_reject(reject_code(e)) == Some(e),
{
    match e {
        IngressReject::RequestMalformed => {
            reveal_strlit("request_malformed");
        },
        IngressReject::RequestTooLarge => {
            reveal_strlit("request_too_large");
        },
        IngressReject::HeaderMalformed => {
            reveal_strlit("header_malformed");
        },
        IngressReject::ConflictingInboundAuthentication => {
            reveal_strlit("conflicting_inbound_authentication");
        },
        IngressReject::ReservedProofHeader => {
            reveal_strlit("reserved_proof_header");
        },
        IngressReject::RouteNotFound => {
            reveal_strlit("route_not_found");
        },
        IngressReject::MethodNotAllowed => {
            reveal_strlit("method_not_allowed");
        },
        IngressReject::QueryNotAllowed => {
            reveal_strlit("query_not_allowed");
        },
        IngressReject::ContentTypeNotAllowed => {
            reveal_strlit("content_type_not_allowed");
        },
        IngressReject::BodyNotAllowed => {
            reveal_strlit("body_not_allowed");
        },
        IngressReject::BodyLimitExceeded => {
            reveal_strlit("body_limit_exceeded");
        },
        IngressReject::RouteSpecInvalid => {
            reveal_strlit("route_spec_invalid");
        },
        IngressReject::RegistryInvalid => {
            reveal_strlit("registry_invalid");
        },
        IngressReject::ProofMalformed => {
            reveal_strlit("proof_malformed");
        },
        IngressReject::AuthorizationBundleMalformed => {
            reveal_strlit("authorization_bundle_malformed");
        },
        IngressReject::CapabilityAuthorizationMalformed => {
            reveal_strlit("capability_authorization_malformed");
        },
        IngressReject::MacInvalid => {
            reveal_strlit("mac_invalid");
        },
        IngressReject::IssuerEpochUnknown => {
            reveal_strlit("issuer_epoch_unknown");
        },
        IngressReject::ScopeMismatch => {
            reveal_strlit("scope_mismatch");
        },
        IngressReject::AudienceMismatch => {
            reveal_strlit("audience_mismatch");
        },
        IngressReject::RegistryMismatch => {
            reveal_strlit("registry_mismatch");
        },
        IngressReject::OperationMismatch => {
            reveal_strlit("operation_mismatch");
        },
        IngressReject::DispatchDomainMismatch => {
            reveal_strlit("dispatch_domain_mismatch");
        },
        IngressReject::RequestBindingMismatch => {
            reveal_strlit("request_binding_mismatch");
        },
        IngressReject::AuthorizationBindingMismatch => {
            reveal_strlit("authorization_binding_mismatch");
        },
        IngressReject::ActivationBindingMismatch => {
            reveal_strlit("activation_binding_mismatch");
        },
        IngressReject::TimeWindowInvalid => {
            reveal_strlit("time_window_invalid");
        },
        IngressReject::InvalidNonce => {
            reveal_strlit("invalid_nonce");
        },
        IngressReject::NonceRejected => {
            reveal_strlit("nonce_rejected");
        },
        IngressReject::GatewayConsentInvalid => {
            reveal_strlit("gateway_consent_invalid");
        },
        IngressReject::LocalScopeMismatch => {
            reveal_strlit("local_scope_mismatch");
        },
        IngressReject::CapabilityConstraintMismatch => {
            reveal_strlit("capability_constraint_mismatch");
        },
        IngressReject::ProofModeConflict => {
            reveal_strlit("proof_mode_conflict");
        },
        IngressReject::VerificationDomainMismatch => {
            reveal_strlit("verification_domain_mismatch");
        },
        IngressReject::ClockUnavailable => {
            reveal_strlit("clock_unavailable");
        },
        IngressReject::InternalFailClosed => {
            reveal_strlit("internal_fail_closed");
        },
    }
}

/// Distinct rejections have distinct stable codes, so a code names exactly one rejection.
pub proof fn lemma_reject_codes_distinct(e1: IngressReject, e2: IngressReject)
    requires
        e1 != e2,
    ensures
        reject_code(e1) != reject_code(e2),
{
    lemma_code_names_reject(e1);
    lemma_code_names_reject(e2);
}

} // verus!
