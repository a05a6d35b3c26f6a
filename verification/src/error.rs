//! Failures of classification, protocol normalization and the per-request gates.
use vstd::prelude::*;

use crate::contract::error::IngressReject;

verus! {

/// The closed failure classes of a trusted protocol normalizer.
///
/// They carry no body, header, URL or credential input, so they map safely to structured
/// codes.
#[derive(Clone, Copy, Debug, PartialEq, Eq, Structural)]
pub enum ProtocolNormalizeError {
    /// The body or frame does not meet the structure of the registered operation.
    MalformedRequest,
    /// The request uses a capability the protocol adapter does not support yet.
    UnsupportedFeature,
    /// The normalizer disagrees with the protocol or semantics the specification fixes.
    BindingMismatch,
    /// The normalizer cannot go on without revealing input.
    InternalFailClosed,
}

/// The redacted refusals of the closed classifier.
#[derive(Debug)]
pub enum RouteReject {
    /// The ingress receiver refused the runtime, the registry or the verified request.
    Ingress(IngressReject),
    /// The snapshot was not issued by the authority paired with this classifier.
    SnapshotDomainMismatch,
    /// The classifier, the snapshot and the accepted request disagree on the registry digest.
    RegistryMismatch,
    /// The snapshot's operation or raw request digest does not match.
    SnapshotBindingMismatch,
    /// The trusted protocol normalizer refused the request.
    Normalize(ProtocolNormalizeError),
    /// The normalizer's core binding or semantics disagree with the ingress.
    NormalizedBindingMismatch,
    /// The combination of proof, authorization, kind, domain and snapshot mode is not in the
    /// closed set.
    DispositionNotAllowed,
    /// The listener, token or auth scope of a local operation does not match.
    LocalScopeMismatch,
    /// The per-request context gate of a managed or gateway-only request refused it.
    ContextGateRejected,
    /// The bound gate of a fixed deployment, account, credential or adapter refused it.
    BoundGateRejected,
    /// The classifier clock is unavailable or went back unacceptably.
    ClockUnavailable,
    /// The proof, consent, permit or capability authorization has expired.
    AuthorizationExpired,
    /// The authority input holds a zero identifier, a zero digest or another value that
    /// cannot run safely.
    InvalidSnapshot,
}

impl From<IngressReject> for RouteReject {
    fn from(value: IngressReject) -> (r: Self) {
        RouteReject::Ingress(value)
    }
}

impl vstd::std_specs::convert::FromSpecImpl<IngressReject> for RouteReject {
    open spec fn obeys_from_spec() -> bool {
        true
    }

    open spec fn from_spec(v: IngressReject) -> Self {
        RouteReject::Ingress(v)
    }
}

impl From<ProtocolNormalizeError> for RouteReject {
    fn from(value: ProtocolNormalizeError) -> (r: Self) {
        RouteReject::Normalize(value)
    }
}

impl vstd::std_specs::convert::FromSpecImpl<ProtocolNormalizeError> for RouteReject {
    open spec fn obeys_from_spec() -> bool {
        true
    }

    open spec fn from_spec(v: ProtocolNormalizeError) -> Self {
        RouteReject::Normalize(v)
    }
}

} // verus!
