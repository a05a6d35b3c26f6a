//! The contract of trusted client protocol normalizers.
use vstd::prelude::*;

use crate::contract::ids::{OperationId, RequestDigest};
use crate::contract::operation::{RequestDispatchDomain, RequestKind};
use crate::contract::request::HttpMethod;
use crate::contract::verified::{ReceiverAcceptedIngressRequest, VerifiedHeaderRef};
use crate::error::ProtocolNormalizeError;

verus! {

/// The closed set of semantics a normalizer confirms after checking a request's structure.
#[derive(Clone, Copy, Debug, PartialEq, Eq, Structural)]
pub enum NormalizedRequestSemantic {
    /// A registered local operation.
    LocalOperation,
    /// A bodiless management probe of one fixed deployment.
    DeploymentModelProbe,
    /// A remote exact token count on the request's own deployment, without fallback.
    ExactUpstreamTokenCount,
    /// Ordinary model inference.
    ModelInference,
    /// Auxiliary inference under its own route policy.
    AuxiliaryInference,
}

/// The view of a request that only the classifier builds and a trusted normalizer reads
/// synchronously.
///
/// It only borrows the state the receiver accepted, so it cannot take an inbound request that
/// has not passed the receiver.
pub struct NormalizerInput<'a> {
    accepted: &'a ReceiverAcceptedIngressRequest,
}

impl<'a> NormalizerInput<'a> {
    /// The accepted request the view borrows.
    pub closed spec fn spec_accepted(&self) -> ReceiverAcceptedIngressRequest {
        *self.accepted
    }

    pub(crate) fn new(accepted: &'a ReceiverAcceptedIngressRequest) -> (r: Self)
        ensures
            r.spec_accepted() == *accepted,
    {
        NormalizerInput { accepted }
    }

    /// Returns the matched operation.
    pub fn operation(&self) -> (r: OperationId)
        ensures
            r == self.spec_accepted().spec_verified().spec_operation().spec.spec_operation(),
    {
        self.accepted.operation()
    }

    /// Returns the request semantics the specification fixes.
    pub fn request_kind(&self) -> (r: RequestKind)
        ensures
            r == self.spec_accepted().spec_verified().spec_operation().spec.spec_kind(),
    {
        self.accepted.request_kind()
    }

    /// Returns the dispatch domain the specification fixes.
    pub fn dispatch_domain(&self) -> (r: RequestDispatchDomain)
        ensures
            r == self.spec_accepted().spec_verified().spec_operation().spec.spec_dispatch_domain(),
    {
        self.accepted.dispatch_domain()
    }

    /// Returns the raw request digest the proof binds.
    pub fn request_digest(&self) -> (r: RequestDigest)
        ensures
            r == self.spec_accepted().spec_verified().spec_request_digest(),
    {
        self.accepted.request_digest()
    }

    /// Returns the sanitized method.
    pub fn method(&self) -> (r: HttpMethod)
        ensures
            r == self.spec_accepted().spec_verified().spec_request().spec_method(),
    {
        self.accepted.method()
    }

    /// Returns the verified raw target.
    pub fn target(&self) -> (r: &[u8])
        ensures
            r@ == self.spec_accepted().spec_verified().spec_request().spec_target(),
    {
        self.accepted.target()
    }

    /// Borrows the raw body; only normalizers compiled into this crate read it.
    pub(crate) fn body(&self) -> (r: &[u8])
        ensures
            r@ == self.spec_accepted().spec_verified().spec_request().spec_body(),
    {
        self.accepted.body()
    }

    /// Returns the sanitized headers, in order.
    pub fn headers(&self) -> (r: Vec<VerifiedHeaderRef<'_>>)
        ensures
            r@.len() == self.spec_accepted().spec_verified().spec_request().spec_headers().len(),
            forall|k: int|
                0 <= k < r@.len() ==> (#[trigger] r@[k]).spec_name()
                    == self.spec_accepted().spec_verified().spec_request().spec_headers()[k].spec_name()
                    && r@[k].spec_value()
                    == self.spec_accepted().spec_verified().spec_request().spec_headers()[k].spec_value(),
    {
        self.accepted.headers()
    }
}

/// What a normalizer confirmed of a request.
///
/// Its core binding can only be copied from a [`NormalizerInput`]; its fields are private and
/// it has no `Clone` or `Debug`. The classifier compares it field by field with the accepted
/// request again.
pub struct ProtocolNormalizedRequest {
    operation: OperationId,
    request_kind: RequestKind,
    dispatch_domain: RequestDispatchDomain,
    request_digest: RequestDigest,
    semantic: NormalizedRequestSemantic,
}

impl ProtocolNormalizedRequest {
    /// The confirmed operation.
    pub closed spec fn spec_operation(&self) -> OperationId {
        self.operation
    }

    /// The confirmed request semantics.
    pub closed spec fn spec_request_kind(&self) -> RequestKind {
        self.request_kind
    }

    /// The confirmed dispatch domain.
    pub closed spec fn spec_dispatch_domain(&self) -> RequestDispatchDomain {
        self.dispatch_domain
    }

    /// The confirmed raw request digest.
    pub closed spec fn spec_request_digest(&self) -> RequestDigest {
        self.request_digest
    }

    /// The confirmed semantics.
    pub closed spec fn spec_semantic(&self) -> NormalizedRequestSemantic {
        self.semantic
    }

    /// Confirms the protocol semantics of the accepted input; the operation, domain, kind
    /// and digest come from the input and cannot be replaced.
    pub fn accept(input: &NormalizerInput<'_>, semantic: NormalizedRequestSemantic) -> (r: Self)
        ensures
            r.spec_operation() == input.spec_accepted().spec_verified().spec_operation().spec.spec_operation(),
            r.spec_request_kind() == input.spec_accepted().spec_verified().spec_operation().spec.spec_kind(),
            r.spec_dispatch_domain() == input.spec_accepted().spec_verified().spec_operation().spec.spec_dispatch_domain(),
            r.spec_request_digest() == input.spec_accepted().spec_verified().spec_request_digest(),
            r.spec_semantic() == semantic,
    {
        ProtocolNormalizedRequest {
            operation: input.operation(),
            request_kind: input.request_kind(),
            dispatch_domain: input.dispatch_domain(),
            request_digest: input.request_digest(),
            semantic,
        }
    }

    pub(crate) fn operation(&self) -> (r: OperationId)
        ensures
            r == self.spec_operation(),
    {
        self.operation
    }

    pub(crate) fn request_kind(&self) -> (r: RequestKind)
        ensures
            r == self.spec_request_kind(),
    {
        self.request_kind
    }

    pub(crate) fn dispatch_domain(&self) -> (r: RequestDispatchDomain)
        ensures
            r == self.spec_dispatch_domain(),
    {
        self.dispatch_domain
    }

    pub(crate) fn request_digest(&self) -> (r: RequestDigest)
        ensures
            r == self.spec_request_digest(),
    {
        self.request_digest
    }

    pub(crate) fn semantic(&self) -> (r: NormalizedRequestSemantic)
        ensures
            r == self.spec_semantic(),
    {
        self.semantic
    }
}

/// A trusted client protocol normalizer.
///
/// An implementation must be synchronous, pure and free of outside effects.
pub trait ClientProtocolNormalizer {
    /// Checks the protocol body or frame and returns the closed semantics bound to the
    /// accepted request.
    fn normalize(&self, input: NormalizerInput<'_>) -> Result<ProtocolNormalizedRequest, ProtocolNormalizeError>;
}

} // verus!
