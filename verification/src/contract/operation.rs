//! The route specification registry, its strict preflight and the raw request digests.
use vstd::prelude::*;
use vstd::string::StringSliceAdditionalSpecFns;

use crate::contract::bytes::{bytes_eq, copy_bytes, is_alnum, lower, lowercase, to_lower};
use crate::contract::digest::{be64, framed, push_be64, push_bytes, push_framed, sha256, sha256_digest};
use crate::contract::error::IngressReject;
use crate::contract::ids::{BodyDigest, OperationId, RegistryDigest, RequestDigest, SemanticHeadersDigest};
use crate::contract::limits::{MAX_HEADER_NAME_BYTES, MAX_RAW_BODY_BYTES};
use crate::contract::binding::{
    body_check, body_digest_of, first_content_type, hash_body, hash_request, hash_semantic_headers,
    request_digest_of, semantic_headers_digest_of, validate_request_body,
};
use crate::contract::request::{check_target_shape, method_code, path_of, target_shape_ok, HttpMethod, RawIngressRequest};

verus! {

/// The single dispatch domain of a request.
#[derive(Clone, Copy, Debug, PartialEq, Eq, Structural, Hash, PartialOrd, Ord)]
pub enum RequestDispatchDomain {
    /// Only the matching local handler.
    Local,
    /// Only a fixed single-deployment capability plan without fallback.
    BoundDeployment,
    /// An ordinary or auxiliary route under an explicit route policy.
    RoutedPolicy,
}

/// The wire code of each dispatch domain.
pub open spec fn domain_code(d: RequestDispatchDomain) -> u8 {
    match d {
        RequestDispatchDomain::Local => 1,
        RequestDispatchDomain::BoundDeployment => 2,
        RequestDispatchDomain::RoutedPolicy => 3,
    }
}

impl RequestDispatchDomain {
    /// Returns the wire code.
    pub(crate) fn code(self) -> (r: u8)
        ensures
            r == domain_code(self),
    {
        match self {
            RequestDispatchDomain::Local => 1,
            RequestDispatchDomain::BoundDeployment => 2,
            RequestDispatchDomain::RoutedPolicy => 3,
        }
    }

    /// Decodes a wire code; an unknown code is a malformed proof.
    pub(crate) fn from_code(code: u8) -> (r: Result<Self, IngressReject>)
        ensures
            (1 <= code <= 3) <==> r is Ok,
            r matches Ok(d) ==> domain_code(d) == code,
            r is Err ==> r == Err::<Self, IngressReject>(IngressReject::ProofMalformed),
    {
        match code {
            1 => Ok(RequestDispatchDomain::Local),
            2 => Ok(RequestDispatchDomain::BoundDeployment),
            3 => Ok(RequestDispatchDomain::RoutedPolicy),
            _ => Err(IngressReject::ProofMalformed),
        }
    }
}

/// The closed set of request semantics.
#[derive(Clone, Copy, Debug, PartialEq, Eq, Structural, Hash, PartialOrd, Ord)]
pub enum RequestKind {
    /// The smallest liveness probe, touching no database or secret.
    Liveness,
    /// An authenticated local administrative operation.
    LocalAdmin,
    /// A dedicated OAuth or token authentication flow.
    AuthFlow,
    /// The unified model catalog built from the local snapshot.
    UnifiedModelCatalog,
    /// An exact local tokenizer count.
    ExactLocalTokenCount,
    /// An estimated local count.
    EstimatedLocalTokenCount,
    /// A purely local context compaction.
    LocalContextCompact,
    /// A bodiless management probe of one fixed deployment.
    DeploymentModelProbe,
    /// An exact remote count on the same deployment as the real request.
    ExactUpstreamTokenCount,
    /// Ordinary model inference.
    ModelInference,
    /// Auxiliary inference under its own route policy.
    AuxiliaryInference,
}

/// The wire code of each request kind.
pub open spec fn kind_code(k: RequestKind) -> u8 {
    match k {
        RequestKind::Liveness => 1,
        RequestKind::LocalAdmin => 2,
        RequestKind::AuthFlow => 3,
        RequestKind::UnifiedModelCatalog => 4,
        RequestKind::ExactLocalTokenCount => 5,
        RequestKind::EstimatedLocalTokenCount => 6,
        RequestKind::LocalContextCompact => 7,
        RequestKind::DeploymentModelProbe => 8,
        RequestKind::ExactUpstreamTokenCount => 9,
        RequestKind::ModelInference => 10,
        RequestKind::AuxiliaryInference => 11,
    }
}

impl RequestKind {
    /// Returns the wire code.
    pub(crate) fn code(self) -> (r: u8)
        ensures
            r == kind_code(self),
    {
        match self {
            RequestKind::Liveness => 1,
            RequestKind::LocalAdmin => 2,
            RequestKind::AuthFlow => 3,
            RequestKind::UnifiedModelCatalog => 4,
            RequestKind::ExactLocalTokenCount => 5,
            RequestKind::EstimatedLocalTokenCount => 6,
            RequestKind::LocalContextCompact => 7,
            RequestKind::DeploymentModelProbe => 8,
            RequestKind::ExactUpstreamTokenCount => 9,
            RequestKind::ModelInference => 10,
            RequestKind::AuxiliaryInference => 11,
        }
    }
}

/// The smallest authorization scope a local operation must be bound to.
#[derive(Clone, Copy, Debug, PartialEq, Eq, Structural, Hash, PartialOrd, Ord)]
pub enum LocalOperationAuthScope {
    /// Only the smallest `/health` handler.
    PublicLiveness,
    /// The model catalog, local counts and local compaction.
    LocalData,
    /// The local administrative surface.
    LocalAdmin,
    /// The dedicated authentication flow.
    AuthFlow,
}

/// The wire code of each local scope.
pub open spec fn scope_code(s: LocalOperationAuthScope) -> u8 {
    match s {
        LocalOperationAuthScope::PublicLiveness => 1,
        LocalOperationAuthScope::LocalData => 2,
        LocalOperationAuthScope::LocalAdmin => 3,
        LocalOperationAuthScope::AuthFlow => 4,
    }
}

impl LocalOperationAuthScope {
    /// Returns the wire code.
    pub(crate) fn code(self) -> (r: u8)
        ensures
            r == scope_code(self),
    {
        match self {
            LocalOperationAuthScope::PublicLiveness => 1,
            LocalOperationAuthScope::LocalData => 2,
            LocalOperationAuthScope::LocalAdmin => 3,
            LocalOperationAuthScope::AuthFlow => 4,
        }
    }
}

/// Whether a query belongs to the semantics of a registered operation.
#[derive(Clone, Copy, Debug, PartialEq, Eq, Structural, Hash)]
pub enum QueryPolicy {
    /// Any query is refused.
    Forbidden,
    /// A query is allowed and the raw target enters the request digest.
    Allowed,
}

/// The hard constraints of an operation on its body and content type.
#[derive(PartialEq, Eq)]
pub enum BodyPolicy {
    /// The operation takes no body.
    Forbidden,
    /// The operation takes a bounded body.
    Bounded {
        /// Largest body, byte for byte.
        max_bytes: usize,
        /// The required media type without parameters, if any.
        required_content_type: Option<Vec<u8>>,
    },
}

/// A body policy as plain values: `None` for a forbidden body, else the byte limit and the
/// required media type.
pub open spec fn body_policy_view(p: BodyPolicy) -> Option<(usize, Option<Seq<u8>>)> {
    match p {
        BodyPolicy::Forbidden => None,
        BodyPolicy::Bounded { max_bytes, required_content_type } => Some(
            (
                max_bytes,
                match required_content_type {
                    Some(v) => Some(v@),
                    None => None,
                },
            ),
        ),
    }
}

impl Clone for BodyPolicy {
    fn clone(&self) -> (r: Self)
        ensures
            body_policy_view(r) == body_policy_view(*self),
    {
        match self {
            BodyPolicy::Forbidden => BodyPolicy::Forbidden,
            BodyPolicy::Bounded { max_bytes, required_content_type } => BodyPolicy::Bounded {
                max_bytes: *max_bytes,
                required_content_type: match required_content_type {
                    Some(v) => Some(copy_bytes(v.as_slice())),
                    None => None,
                },
            },
        }
    }
}

/// Whether `b` may appear in a declared media type.
pub open spec fn media_byte(b: u8) -> bool {
    is_alnum(b) || b == 47 || b == 45 || b == 43 || b == 46
}

/// Whether `v` is a declared media type: non-empty, made of media bytes, with a `/`.
pub open spec fn declared_media_ok(v: Seq<u8>) -> bool {
    v.len() > 0 && (forall|i: int| 0 <= i < v.len() ==> media_byte(#[trigger] v[i])) && v.contains(47u8)
}

/// Whether a body policy is acceptable.
pub open spec fn body_policy_ok(p: BodyPolicy) -> bool {
    match p {
        BodyPolicy::Forbidden => true,
        BodyPolicy::Bounded { max_bytes, required_content_type } => {
            &&& 0 < max_bytes <= MAX_RAW_BODY_BYTES
            &&& required_content_type matches Some(ct) ==> declared_media_ok(ct@) && lowercase(ct@) == ct@
        },
    }
}

fn is_media_byte(b: u8) -> (r: bool)
    ensures
        r == media_byte(b),
{
    (b >= 48 && b <= 57) || (b >= 65 && b <= 90) || (b >= 97 && b <= 122) || b == 47 || b == 45 || b == 43 || b == 46
}

/// A normalized declared media type is a fixed point of normalization: where a value is
/// accepted, its lowercase form is accepted too and lowercasing it again changes nothing.
pub proof fn lemma_declared_media_type_fixed_point(v: Seq<u8>)
    requires
        declared_media_ok(v),
    ensures
        declared_media_ok(lowercase(v)),
        lowercase(lowercase(v)) == lowercase(v),
{
    let w = lowercase(v);
    assert forall|i: int| 0 <= i < w.len() implies media_byte(#[trigger] w[i]) && lower(w[i]) == w[i] by {
        assert(media_byte(v[i]));
    }
    let j = choose|j: int| 0 <= j < v.len() && v[j] == 47u8;
    assert(w[j] == 47u8);
    assert(w.contains(47u8));
    assert(lowercase(w) =~= w);
}

/// Normalizes a declared media type to ASCII lowercase, refusing a malformed one.
fn normalize_declared_media_type(value: &[u8]) -> (r: Result<Vec<u8>, IngressReject>)
    ensures
        declared_media_ok(value@) <==> r is Ok,
        r is Err ==> r == Err::<Vec<u8>, IngressReject>(IngressReject::RouteSpecInvalid),
        r matches Ok(v) ==> v@ == lowercase(value@),
{
    if value.len() == 0 {
        return Err(IngressReject::RouteSpecInvalid);
    }
    let mut slash = false;
    let mut i: usize = 0;
    while i < value.len()
        invariant
            0 <= i <= value@.len(),
            forall|k: int| 0 <= k < i ==> media_byte(#[trigger] value@[k]),
            slash == value@.take(i as int).contains(47u8),
        decreases value@.len() - i,
    {
        let b = value[i];
        if !is_media_byte(b) {
            return Err(IngressReject::RouteSpecInvalid);
        }
        proof {
            let t0 = value@.take(i as int);
            let t1 = value@.take(i as int + 1);
            assert(t1 =~= t0.push(b));
            if b == 47 {
                assert(t1[i as int] == 47);
            }
            if t0.contains(47u8) {
                let k = choose|k: int| 0 <= k < t0.len() && t0[k] == 47u8;
                assert(t1[k] == 47);
            }
            if t1.contains(47u8) && b != 47 {
                let k = choose|k: int| 0 <= k < t1.len() && t1[k] == 47u8;
                assert(t0[k] == 47);
            }
        }
        if b == 47 {
            slash = true;
        }
        i += 1;
    }
    assert(value@.take(value@.len() as int) =~= value@);
    if !slash {
        return Err(IngressReject::RouteSpecInvalid);
    }
    Ok(crate::contract::bytes::lowercase_copy(value))
}

fn validate_body_policy(policy: &BodyPolicy) -> (r: Result<(), IngressReject>)
    ensures
        body_policy_ok(*policy) <==> r is Ok,
        r is Err ==> r == Err::<(), IngressReject>(IngressReject::RouteSpecInvalid),
{
    match policy {
        BodyPolicy::Forbidden => Ok(()),
        BodyPolicy::Bounded { max_bytes, required_content_type } => {
            if *max_bytes == 0 || *max_bytes > MAX_RAW_BODY_BYTES {
                return Err(IngressReject::RouteSpecInvalid);
            }
            match required_content_type {
                Some(content_type) => {
                    let normalized = normalize_declared_media_type(content_type.as_slice())?;
                    if !bytes_eq(normalized.as_slice(), content_type.as_slice()) {
                        return Err(IngressReject::RouteSpecInvalid);
                    }
                    Ok(())
                },
                None => Ok(()),
            }
        },
    }
}

impl BodyPolicy {
    /// Builds a bounded body policy; the media type is lowercased, e.g. `application/json`.
    pub fn bounded(max_bytes: usize, required_content_type: Option<&[u8]>) -> (r: Result<Self, IngressReject>)
        ensures
            r is Ok <==> (0 < max_bytes <= MAX_RAW_BODY_BYTES && (required_content_type matches Some(ct)
                ==> declared_media_ok(ct@))),
            r is Err ==> r == Err::<Self, IngressReject>(IngressReject::RouteSpecInvalid),
            r matches Ok(p) ==> p matches BodyPolicy::Bounded { max_bytes: m, required_content_type: c } && m
                == max_bytes && (required_content_type is None ==> c is None) && (required_content_type matches Some(
                ct,
            ) ==> c matches Some(v) && v@ == lowercase(ct@)),
    {
        let content_type = match required_content_type {
            Some(ct) => {
                let v = normalize_declared_media_type(ct)?;
                proof {
                    assert(lowercase(v@) =~= v@);
                    assert forall|i: int| 0 <= i < v@.len() implies media_byte(#[trigger] v@[i]) by {
                        assert(media_byte(ct@[i]));
                    }
                    assert(v@.contains(47u8)) by {
                        let k = choose|k: int| 0 <= k < ct@.len() && ct@[k] == 47u8;
                        assert(v@[k] == 47u8);
                    }
                }
                Some(v)
            },
            None => None,
        };
        let policy = BodyPolicy::Bounded { max_bytes, required_content_type: content_type };
        validate_body_policy(&policy)?;
        Ok(policy)
    }
}

/// Whether the request kind, dispatch domain and local scope form a registered combination.
pub open spec fn kind_domain_ok(
    kind: RequestKind,
    domain: RequestDispatchDomain,
    scope: Option<LocalOperationAuthScope>,
) -> bool {
    let local_kind = kind == RequestKind::Liveness || kind == RequestKind::LocalAdmin || kind == RequestKind::AuthFlow
        || kind == RequestKind::UnifiedModelCatalog || kind == RequestKind::ExactLocalTokenCount || kind
        == RequestKind::EstimatedLocalTokenCount || kind == RequestKind::LocalContextCompact;
    let data_kind = kind == RequestKind::UnifiedModelCatalog || kind == RequestKind::ExactLocalTokenCount || kind
        == RequestKind::EstimatedLocalTokenCount || kind == RequestKind::LocalContextCompact;
    let valid = if local_kind {
        domain == RequestDispatchDomain::Local
    } else if kind == RequestKind::DeploymentModelProbe || kind == RequestKind::ExactUpstreamTokenCount {
        domain == RequestDispatchDomain::BoundDeployment
    } else {
        domain == RequestDispatchDomain::RoutedPolicy
    };
    &&& valid
    &&& (domain == RequestDispatchDomain::Local) == scope is Some
    &&& kind == RequestKind::Liveness ==> scope == Some(LocalOperationAuthScope::PublicLiveness)
    &&& kind == RequestKind::LocalAdmin ==> scope == Some(LocalOperationAuthScope::LocalAdmin)
    &&& kind == RequestKind::AuthFlow ==> scope == Some(LocalOperationAuthScope::AuthFlow)
    &&& data_kind ==> scope == Some(LocalOperationAuthScope::LocalData)
}

/// Law: a local kind is registered on the local domain with exactly one scope: liveness with
/// public liveness, administration with local admin, the auth flow with its own scope, and
/// every data kind (model catalog, exact and estimated local token counts, context
/// compaction) with local data; no other kind is registered on the local domain.
pub proof fn lemma_local_kind_scopes(kind: RequestKind, scope: LocalOperationAuthScope)
    ensures
        kind_domain_ok(kind, RequestDispatchDomain::Local, Some(scope)) <==> {
            ||| kind == RequestKind::Liveness && scope == LocalOperationAuthScope::PublicLiveness
            ||| kind == RequestKind::LocalAdmin && scope == LocalOperationAuthScope::LocalAdmin
            ||| kind == RequestKind::AuthFlow && scope == LocalOperationAuthScope::AuthFlow
            ||| (kind == RequestKind::UnifiedModelCatalog || kind == RequestKind::ExactLocalTokenCount || kind
                == RequestKind::EstimatedLocalTokenCount || kind == RequestKind::LocalContextCompact) && scope
                == LocalOperationAuthScope::LocalData
        },
        !kind_domain_ok(kind, RequestDispatchDomain::Local, None),
{
}

fn scope_is(scope: Option<LocalOperationAuthScope>, expected: LocalOperationAuthScope) -> (r: bool)
    ensures
        r == (scope == Some(expected)),
{
    match scope {
        Some(s) => s == expected,
        None => false,
    }
}

fn validate_kind_domain(
    kind: RequestKind,
    domain: RequestDispatchDomain,
    local_scope: Option<LocalOperationAuthScope>,
) -> (r: Result<(), IngressReject>)
    ensures
        kind_domain_ok(kind, domain, local_scope) <==> r is Ok,
        r is Err ==> r == Err::<(), IngressReject>(IngressReject::RouteSpecInvalid),
{
    let valid = match kind {
        RequestKind::Liveness | RequestKind::LocalAdmin | RequestKind::AuthFlow | RequestKind::UnifiedModelCatalog
        | RequestKind::ExactLocalTokenCount | RequestKind::EstimatedLocalTokenCount
        | RequestKind::LocalContextCompact => domain == RequestDispatchDomain::Local,
        RequestKind::DeploymentModelProbe | RequestKind::ExactUpstreamTokenCount => domain
            == RequestDispatchDomain::BoundDeployment,
        RequestKind::ModelInference | RequestKind::AuxiliaryInference => domain == RequestDispatchDomain::RoutedPolicy,
    };
    if !valid || (domain == RequestDispatchDomain::Local) != local_scope.is_some() {
        return Err(IngressReject::RouteSpecInvalid);
    }
    if kind == RequestKind::Liveness && !scope_is(local_scope, LocalOperationAuthScope::PublicLiveness) {
        return Err(IngressReject::RouteSpecInvalid);
    }
    if kind == RequestKind::LocalAdmin && !scope_is(local_scope, LocalOperationAuthScope::LocalAdmin) {
        return Err(IngressReject::RouteSpecInvalid);
    }
    if kind == RequestKind::AuthFlow && !scope_is(local_scope, LocalOperationAuthScope::AuthFlow) {
        return Err(IngressReject::RouteSpecInvalid);
    }
    let data_kind = kind == RequestKind::UnifiedModelCatalog || kind == RequestKind::ExactLocalTokenCount || kind
        == RequestKind::EstimatedLocalTokenCount || kind == RequestKind::LocalContextCompact;
    if data_kind && !scope_is(local_scope, LocalOperationAuthScope::LocalData) {
        return Err(IngressReject::RouteSpecInvalid);
    }
    Ok(())
}

/// Whether `path` is an acceptable registered path: a safe absolute target with no query.
pub open spec fn registered_path_ok(path: Seq<u8>) -> bool {
    !path.contains(63u8) && target_shape_ok(path)
}

fn validate_registered_path(path: &[u8]) -> (r: Result<(), IngressReject>)
    ensures
        registered_path_ok(path@) <==> r is Ok,
        r is Err ==> r == Err::<(), IngressReject>(IngressReject::RouteSpecInvalid),
{
    if crate::contract::bytes::contains_byte(path, 63) || !check_target_shape(path) {
        return Err(IngressReject::RouteSpecInvalid);
    }
    Ok(())
}

/// Whether `b` may appear in a semantic header name.
pub open spec fn semantic_header_byte(b: u8) -> bool {
    is_alnum(b) || b == 45 || b == 95 || b == 46
}

/// The header names a route specification may never treat as semantic input.
pub open spec fn forbidden_semantic_header(n: Seq<u8>) -> bool {
    ||| n == "authorization".spec_bytes()
    ||| n == "proxy-authorization".spec_bytes()
    ||| n == "x-api-key".spec_bytes()
    ||| n == "x-goog-api-key".spec_bytes()
    ||| n == "api-key".spec_bytes()
    ||| n == "x-auth-token".spec_bytes()
    ||| n == "cookie".spec_bytes()
    ||| n == "set-cookie".spec_bytes()
    ||| n == "connection".spec_bytes()
    ||| n == "transfer-encoding".spec_bytes()
    ||| n == "host".spec_bytes()
    ||| n == "forwarded".spec_bytes()
    ||| n == "x-forwarded-host".spec_bytes()
    ||| n == "x-forwarded-proto".spec_bytes()
    ||| n == "x-upstream".spec_bytes()
    ||| n == "x-base-url".spec_bytes()
    ||| n == "x-target".spec_bytes()
    ||| n == "x-endpoint".spec_bytes()
    ||| n == "content-length".spec_bytes()
    ||| n == "x-bianma-context-attestation".spec_bytes()
    ||| n == "x-bianma-authorization-bundle".spec_bytes()
    ||| n == "x-bianma-capability-authorization".spec_bytes()
}

fn is_forbidden_semantic_header(n: &[u8]) -> (r: bool)
    ensures
        r == forbidden_semantic_header(n@),
{
    bytes_eq(n, "authorization".as_bytes()) || bytes_eq(n, "proxy-authorization".as_bytes()) || bytes_eq(
        n,
        "x-api-key".as_bytes(),
    ) || bytes_eq(n, "x-goog-api-key".as_bytes()) || bytes_eq(n, "api-key".as_bytes()) || bytes_eq(
        n,
        "x-auth-token".as_bytes(),
    ) || bytes_eq(n, "cookie".as_bytes()) || bytes_eq(n, "set-cookie".as_bytes()) || bytes_eq(
        n,
        "connection".as_bytes(),
    ) || bytes_eq(n, "transfer-encoding".as_bytes()) || bytes_eq(n, "host".as_bytes()) || bytes_eq(
        n,
        "forwarded".as_bytes(),
    ) || bytes_eq(n, "x-forwarded-host".as_bytes()) || bytes_eq(n, "x-forwarded-proto".as_bytes()) || bytes_eq(
        n,
        "x-upstream".as_bytes(),
    ) || bytes_eq(n, "x-base-url".as_bytes()) || bytes_eq(n, "x-target".as_bytes()) || bytes_eq(
        n,
        "x-endpoint".as_bytes(),
    ) || bytes_eq(n, "content-length".as_bytes()) || bytes_eq(n, "x-bianma-context-attestation".as_bytes())
        || bytes_eq(n, "x-bianma-authorization-bundle".as_bytes()) || bytes_eq(
        n,
        "x-bianma-capability-authorization".as_bytes(),
    )
}

/// Whether `h` is an acceptable semantic header name.
pub open spec fn semantic_header_ok(h: Seq<u8>) -> bool {
    &&& 0 < h.len() <= MAX_HEADER_NAME_BYTES
    &&& forall|i: int| 0 <= i < h.len() ==> semantic_header_byte(#[trigger] h[i])
    &&& !forbidden_semantic_header(lowercase(h))
}

/// Strict lexicographic order of byte strings.
pub open spec fn lex_lt(a: Seq<u8>, b: Seq<u8>) -> bool
    decreases a.len(),
{
    if a.len() == 0 {
        b.len() > 0
    } else if b.len() == 0 {
        false
    } else if a[0] != b[0] {
        a[0] < b[0]
    } else {
        lex_lt(a.drop_first(), b.drop_first())
    }
}

pub(crate) proof fn lemma_lex_irreflexive(a: Seq<u8>)
    ensures
        !lex_lt(a, a),
    decreases a.len(),
{
    if a.len() > 0 {
        lemma_lex_irreflexive(a.drop_first());
    }
}

pub(crate) proof fn lemma_lex_total(a: Seq<u8>, b: Seq<u8>)
    ensures
        a != b ==> lex_lt(a, b) || lex_lt(b, a),
        !(lex_lt(a, b) && lex_lt(b, a)),
    decreases a.len(),
{
    if a.len() > 0 && b.len() > 0 && a[0] == b[0] {
        lemma_lex_total(a.drop_first(), b.drop_first());
        if a.drop_first() == b.drop_first() {
            assert(a =~= seq![a[0]] + a.drop_first());
            assert(b =~= seq![b[0]] + b.drop_first());
        }
    }
    if a.len() == 0 && b.len() == 0 {
        assert(a =~= b);
    }
}

pub(crate) proof fn lemma_lex_transitive(a: Seq<u8>, b: Seq<u8>, c: Seq<u8>)
    requires
        lex_lt(a, b),
        lex_lt(b, c),
    ensures
        lex_lt(a, c),
    decreases a.len(),
{
    if a.len() > 0 && b.len() > 0 && c.len() > 0 && a[0] == b[0] && b[0] == c[0] {
        lemma_lex_transitive(a.drop_first(), b.drop_first(), c.drop_first());
    }
}

/// Whether `s` is strictly increasing in lexicographic order.
pub open spec fn strictly_sorted(s: Seq<Vec<u8>>) -> bool {
    forall|i: int, j: int| 0 <= i < j < s.len() ==> lex_lt(s[i]@, s[j]@)
}

/// Returns whether `a` sorts strictly before `b`.
pub(crate) fn lex_less(a: &[u8], b: &[u8]) -> (r: bool)
    ensures
        r == lex_lt(a@, b@),
{
    let mut i: usize = 0;
    assert(a@.skip(0) =~= a@);
    assert(b@.skip(0) =~= b@);
    assert(a@.take(0) =~= b@.take(0));
    while i < a.len() && i < b.len()
        invariant
            0 <= i <= a@.len(),
            i <= b@.len(),
            a@.take(i as int) == b@.take(i as int),
            lex_lt(a@, b@) == lex_lt(a@.skip(i as int), b@.skip(i as int)),
        decreases a@.len() - i,
    {
        if a[i] != b[i] {
            return a[i] < b[i];
        }
        proof {
            assert(a@.skip(i as int).drop_first() =~= a@.skip(i as int + 1));
            assert(b@.skip(i as int).drop_first() =~= b@.skip(i as int + 1));
            assert(a@.take(i as int + 1) =~= a@.take(i as int).push(a@[i as int]));
            assert(b@.take(i as int + 1) =~= b@.take(i as int).push(b@[i as int]));
        }
        i += 1;
    }
    i < b.len()
}

/// A read-only, exactly matched operation specification.
#[derive(PartialEq, Eq)]
pub struct RouteSpec {
    operation: OperationId,
    method: HttpMethod,
    path: Vec<u8>,
    query_policy: QueryPolicy,
    body_policy: BodyPolicy,
    kind: RequestKind,
    dispatch_domain: RequestDispatchDomain,
    semantic_headers: Vec<Vec<u8>>,
    local_scope: Option<LocalOperationAuthScope>,
}

/// Whether two lists of names hold the same names in the same order.
pub open spec fn same_names(a: Seq<Vec<u8>>, b: Seq<Vec<u8>>) -> bool {
    a.len() == b.len() && forall|i: int| 0 <= i < a.len() ==> (#[trigger] a[i])@ == b[i]@
}

/// Whether two route specifications hold the same values.
pub open spec fn same_route_spec(a: RouteSpec, b: RouteSpec) -> bool {
    &&& a.spec_operation() == b.spec_operation()
    &&& a.spec_method() == b.spec_method()
    &&& a.spec_path() == b.spec_path()
    &&& a.spec_query_policy() == b.spec_query_policy()
    &&& body_policy_view(a.spec_body_policy()) == body_policy_view(b.spec_body_policy())
    &&& a.spec_kind() == b.spec_kind()
    &&& a.spec_dispatch_domain() == b.spec_dispatch_domain()
    &&& same_names(a.spec_semantic_headers(), b.spec_semantic_headers())
    &&& a.spec_local_scope() == b.spec_local_scope()
}

/// Copies a list of names.
fn copy_names(names: &[Vec<u8>]) -> (r: Vec<Vec<u8>>)
    ensures
        same_names(r@, names@),
{
    let mut out: Vec<Vec<u8>> = Vec::new();
    let mut i: usize = 0;
    while i < names.len()
        invariant
            0 <= i <= names@.len(),
            out@.len() == i,
            forall|k: int| 0 <= k < i ==> (#[trigger] out@[k])@ == names@[k]@,
        decreases names@.len() - i,
    {
        out.push(copy_bytes(names[i].as_slice()));
        i += 1;
    }
    out
}

impl Clone for RouteSpec {
    fn clone(&self) -> (r: Self)
        ensures
            same_route_spec(r, *self),
    {
        RouteSpec {
            operation: self.operation,
            method: self.method,
            path: copy_bytes(self.path.as_slice()),
            query_policy: self.query_policy,
            body_policy: self.body_policy.clone(),
            kind: self.kind,
            dispatch_domain: self.dispatch_domain,
            semantic_headers: copy_names(self.semantic_headers.as_slice()),
            local_scope: self.local_scope,
        }
    }
}

/// Whether every semantic header name is acceptable.
pub open spec fn semantic_headers_ok(hs: Seq<Vec<u8>>) -> bool {
    forall|i: int| 0 <= i < hs.len() ==> semantic_header_ok(#[trigger] hs[i]@)
}

/// Whether `x` is the lowercase form of one of the names `hs`.
pub open spec fn lowercase_of_one(x: Seq<u8>, hs: Seq<Vec<u8>>) -> bool {
    exists|i: int| 0 <= i < hs.len() && x == lowercase(#[trigger] hs[i]@)
}

/// Whether `out` lists the name `x`.
pub open spec fn lists(out: Seq<Vec<u8>>, x: Seq<u8>) -> bool {
    exists|k: int| 0 <= k < out.len() && #[trigger] out[k]@ == x
}

/// Whether `out` is the strictly sorted, duplicate-free set of the lowercased names `hs`.
pub open spec fn normalized_headers_of(out: Seq<Vec<u8>>, hs: Seq<Vec<u8>>) -> bool {
    &&& strictly_sorted(out)
    &&& forall|k: int| 0 <= k < out.len() ==> lowercase_of_one(#[trigger] out[k]@, hs)
    &&& forall|i: int| 0 <= i < hs.len() ==> lists(out, lowercase(#[trigger] hs[i]@))
}

/// The verdict of route specification validation.
pub open spec fn route_spec_ok(
    path: Seq<u8>,
    body_policy: BodyPolicy,
    kind: RequestKind,
    domain: RequestDispatchDomain,
    semantic_headers: Seq<Vec<u8>>,
    local_scope: Option<LocalOperationAuthScope>,
) -> bool {
    &&& registered_path_ok(path)
    &&& body_policy_ok(body_policy)
    &&& kind_domain_ok(kind, domain, local_scope)
    &&& semantic_headers_ok(semantic_headers)
}

impl RouteSpec {
    /// The operation identifier.
    pub closed spec fn spec_operation(&self) -> OperationId {
        self.operation
    }

    /// The registered method.
    pub closed spec fn spec_method(&self) -> HttpMethod {
        self.method
    }

    /// The registered exact path.
    pub closed spec fn spec_path(&self) -> Seq<u8> {
        self.path@
    }

    /// The query policy.
    pub closed spec fn spec_query_policy(&self) -> QueryPolicy {
        self.query_policy
    }

    /// The body policy.
    pub closed spec fn spec_body_policy(&self) -> BodyPolicy {
        self.body_policy
    }

    /// The request semantics.
    pub closed spec fn spec_kind(&self) -> RequestKind {
        self.kind
    }

    /// The dispatch domain.
    pub closed spec fn spec_dispatch_domain(&self) -> RequestDispatchDomain {
        self.dispatch_domain
    }

    /// The sorted, lowercase semantic header names.
    pub closed spec fn spec_semantic_headers(&self) -> Seq<Vec<u8>> {
        self.semantic_headers@
    }

    /// The local scope, for local operations.
    pub closed spec fn spec_local_scope(&self) -> Option<LocalOperationAuthScope> {
        self.local_scope
    }

    /// Builds a route specification; an invalid kind and domain combination is refused.
    #[verifier::loop_isolation(false)]
    pub fn try_new(
        operation: OperationId,
        method: HttpMethod,
        path: &[u8],
        query_policy: QueryPolicy,
        body_policy: BodyPolicy,
        kind: RequestKind,
        dispatch_domain: RequestDispatchDomain,
        semantic_headers: Vec<Vec<u8>>,
        local_scope: Option<LocalOperationAuthScope>,
    ) -> (r: Result<Self, IngressReject>)
        ensures
            route_spec_ok(path@, body_policy, kind, dispatch_domain, semantic_headers@, local_scope) <==> r is Ok,
            r is Err ==> r == Err::<Self, IngressReject>(IngressReject::RouteSpecInvalid),
            r matches Ok(s) ==> {
                &&& s.spec_operation() == operation
                &&& s.spec_method() == method
                &&& s.spec_path() == path@
                &&& s.spec_query_policy() == query_policy
                &&& s.spec_body_policy() == body_policy
                &&& s.spec_kind() == kind
                &&& s.spec_dispatch_domain() == dispatch_domain
                &&& s.spec_local_scope() == local_scope
                &&& normalized_headers_of(s.spec_semantic_headers(), semantic_headers@)
            },
    {
        validate_registered_path(path)?;
        validate_body_policy(&body_policy)?;
        validate_kind_domain(kind, dispatch_domain, local_scope)?;
        let ghost hs = semantic_headers@;
        let mut normalized: Vec<Vec<u8>> = Vec::new();
        let mut i: usize = 0;
        while i < semantic_headers.len()
            invariant
                hs == semantic_headers@,
                0 <= i <= hs.len(),
                forall|k: int| 0 <= k < i ==> semantic_header_ok(#[trigger] hs[k]@),
                normalized_headers_of(normalized@, hs.take(i as int)),
            decreases hs.len() - i,
        {
            let header = semantic_headers[i].as_slice();
            assert(header@ == hs[i as int]@);
            if header.len() == 0 || header.len() > MAX_HEADER_NAME_BYTES {
                assert(!semantic_header_ok(hs[i as int]@));
                return Err(IngressReject::RouteSpecInvalid);
            }
            let mut j: usize = 0;
            while j < header.len()
                invariant
                    0 <= j <= header@.len(),
                    forall|k: int| 0 <= k < j ==> semantic_header_byte(#[trigger] header@[k]),
                decreases header@.len() - j,
            {
                let b = header[j];
                if !((b >= 48 && b <= 57) || (b >= 65 && b <= 90) || (b >= 97 && b <= 122) || b == 45 || b == 95 || b
                    == 46) {
                    assert(!semantic_header_byte(header@[j as int]));
                    assert(!semantic_header_ok(hs[i as int]@));
                    return Err(IngressReject::RouteSpecInvalid);
                }
                j += 1;
            }
            let lowered = crate::contract::bytes::lowercase_copy(header);
            if is_forbidden_semantic_header(lowered.as_slice()) {
                assert(!semantic_header_ok(hs[i as int]@));
                return Err(IngressReject::RouteSpecInvalid);
            }
            assert(semantic_header_ok(hs[i as int]@));
            let ghost prev = normalized@;
            insert_sorted_unique(&mut normalized, lowered);
            proof {
                let hi = hs.take(i as int + 1);
                let lo = hs.take(i as int);
                assert(lo =~= hi.drop_last());
                assert(hi[i as int] == hs[i as int]);
                assert forall|k: int| 0 <= k < normalized@.len() implies lowercase_of_one(
                    #[trigger] normalized@[k]@,
                    hi,
                ) by {
                    if normalized@[k]@ != lowered@ {
                        let p = choose|p: int| 0 <= p < prev.len() && prev[p]@ == normalized@[k]@;
                        assert(lowercase_of_one(prev[p]@, lo));
                        let q = choose|q: int| 0 <= q < lo.len() && prev[p]@ == lowercase(#[trigger] lo[q]@);
                        assert(hi[q] == lo[q]);
                    }
                }
                assert forall|q: int| 0 <= q < hi.len() implies lists(normalized@, lowercase(#[trigger] hi[q]@)) by {
                    if q < i {
                        assert(hi[q] == lo[q]);
                        assert(lists(prev, lowercase(lo[q]@)));
                        let k0 = choose|k0: int| 0 <= k0 < prev.len() && #[trigger] prev[k0]@ == lowercase(lo[q]@);
                        assert(lists(normalized@, prev[k0]@));
                    }
                }
            }
            i += 1;
        }
        assert(hs.take(hs.len() as int) =~= hs);
        Ok(
            RouteSpec {
                operation,
                method,
                path: copy_bytes(path),
                query_policy,
                body_policy,
                kind,
                dispatch_domain,
                semantic_headers: normalized,
                local_scope,
            },
        )
    }

    /// Returns the operation identifier.
    pub fn operation(&self) -> (r: OperationId)
        ensures
            r == self.spec_operation(),
    {
        self.operation
    }

    /// Returns the request semantics.
    pub fn kind(&self) -> (r: RequestKind)
        ensures
            r == self.spec_kind(),
    {
        self.kind
    }

    /// Returns the single dispatch domain.
    pub fn dispatch_domain(&self) -> (r: RequestDispatchDomain)
        ensures
            r == self.spec_dispatch_domain(),
    {
        self.dispatch_domain
    }

    /// Returns the local scope, for local operations.
    pub fn local_scope(&self) -> (r: Option<LocalOperationAuthScope>)
        ensures
            r == self.spec_local_scope(),
    {
        self.local_scope
    }

    /// Returns the sorted, lowercase semantic header names.
    pub fn semantic_headers(&self) -> (r: &[Vec<u8>])
        ensures
            r@ == self.spec_semantic_headers(),
    {
        self.semantic_headers.as_slice()
    }
}

/// Inserts `h` into the strictly sorted `out` unless an equal name is already there.
fn insert_sorted_unique(out: &mut Vec<Vec<u8>>, h: Vec<u8>)
    requires
        strictly_sorted(old(out)@),
    ensures
        strictly_sorted(final(out)@),
        forall|k: int| 0 <= k < final(out)@.len() ==> (#[trigger] final(out)@[k]@ == h@ || lists(
            old(out)@,
            final(out)@[k]@,
        )),
        forall|p: int| 0 <= p < old(out)@.len() ==> lists(final(out)@, #[trigger] old(out)@[p]@),
        lists(final(out)@, h@),
{
    let ghost before = out@;
    let mut pos: usize = 0;
    while pos < out.len() && lex_less(out[pos].as_slice(), h.as_slice())
        invariant
            out@ == before,
            0 <= pos <= before.len(),
            forall|k: int| 0 <= k < pos ==> lex_lt(before[k]@, h@),
        decreases before.len() - pos,
    {
        pos += 1;
    }
    if pos < out.len() && bytes_eq(out[pos].as_slice(), h.as_slice()) {
        assert(before[pos as int]@ == h@);
        assert forall|p: int| 0 <= p < before.len() implies lists(out@, #[trigger] before[p]@) by {
            assert(out@[p]@ == before[p]@);
        }
        assert forall|k: int| 0 <= k < out@.len() implies (#[trigger] out@[k]@ == h@ || lists(before, out@[k]@)) by {
            assert(before[k]@ == out@[k]@);
        }
        return;
    }
    proof {
        if pos < before.len() {
            lemma_lex_total(before[pos as int]@, h@);
        }
    }
    out.insert(pos, h);
    proof {
        let after = out@;
        if pos < before.len() {
            assert(lex_lt(h@, before[pos as int]@));
        }
        assert forall|i: int, j: int| 0 <= i < j < after.len() implies lex_lt(after[i]@, after[j]@) by {
            if j < pos {
                assert(after[i] == before[i] && after[j] == before[j]);
            } else if i < pos && j == pos {
                assert(after[i] == before[i]);
            } else if i < pos && j > pos {
                assert(after[i] == before[i] && after[j] == before[j - 1]);
                if j - 1 > pos {
                    lemma_lex_transitive(h@, before[pos as int]@, before[j - 1]@);
                }
                lemma_lex_transitive(before[i]@, h@, before[j - 1]@);
            } else if i == pos {
                assert(after[j] == before[j - 1]);
                if j - 1 > pos {
                    lemma_lex_transitive(h@, before[pos as int]@, before[j - 1]@);
                }
            } else {
                assert(after[i] == before[i - 1] && after[j] == before[j - 1]);
            }
        }
        assert forall|k: int| 0 <= k < after.len() implies (#[trigger] after[k]@ == h@ || lists(before, after[k]@)) by {
            if k < pos {
                assert(before[k]@ == after[k]@);
            } else if k > pos {
                assert(before[k - 1]@ == after[k]@);
            }
        }
        assert forall|p: int| 0 <= p < before.len() implies lists(after, #[trigger] before[p]@) by {
            if p < pos {
                assert(after[p]@ == before[p]@);
            } else {
                assert(after[p + 1]@ == before[p]@);
            }
        }
        assert(after[pos as int]@ == h@);
    }
}

} // verus!

verus! {

/// The wire code of a query policy.
pub open spec fn query_code(q: QueryPolicy) -> u8 {
    match q {
        QueryPolicy::Forbidden => 0,
        QueryPolicy::Allowed => 1,
    }
}

/// The digest framing of a body policy.
pub open spec fn body_policy_bytes(p: BodyPolicy) -> Seq<u8> {
    match p {
        BodyPolicy::Forbidden => seq![0u8],
        BodyPolicy::Bounded { max_bytes, required_content_type } => seq![1u8] + be64(max_bytes as u64) + match required_content_type {
            Some(ct) => seq![1u8] + framed(ct@),
            None => seq![0u8],
        },
    }
}

/// The digest framing of a list of header names.
pub open spec fn names_bytes(hs: Seq<Vec<u8>>) -> Seq<u8>
    decreases hs.len(),
{
    if hs.len() == 0 {
        Seq::empty()
    } else {
        names_bytes(hs.drop_last()) + framed(hs.last()@)
    }
}

/// The digest framing of one route specification.
pub open spec fn route_spec_bytes(s: RouteSpec) -> Seq<u8> {
    be64(s.spec_operation().value()) + seq![method_code(s.spec_method())] + framed(s.spec_path()) + seq![
        query_code(s.spec_query_policy()),
    ] + body_policy_bytes(s.spec_body_policy()) + seq![
        kind_code(s.spec_kind()),
        domain_code(s.spec_dispatch_domain()),
        match s.spec_local_scope() {
            Some(scope) => scope_code(scope),
            None => 0u8,
        },
    ] + be64(s.spec_semantic_headers().len() as u64) + names_bytes(s.spec_semantic_headers())
}

/// The digest framing of a list of route specifications.
pub open spec fn route_specs_bytes(specs: Seq<RouteSpec>) -> Seq<u8>
    decreases specs.len(),
{
    if specs.len() == 0 {
        Seq::empty()
    } else {
        route_specs_bytes(specs.drop_last()) + route_spec_bytes(specs.last())
    }
}

/// The message whose SHA-256 digest identifies a registry.
pub open spec fn registry_message(specs: Seq<RouteSpec>) -> Seq<u8> {
    "bianma.ingress.route-registry.v1\0".spec_bytes() + be64(specs.len() as u64) + route_specs_bytes(specs)
}

/// Whether two specifications share an operation identifier, or a method and a path.
pub open spec fn clash(x: RouteSpec, y: RouteSpec) -> bool {
    x.spec_operation() == y.spec_operation() || (x.spec_method() == y.spec_method() && x.spec_path()
        == y.spec_path())
}

/// Whether two of the specifications clash.
pub open spec fn specs_clash(specs: Seq<RouteSpec>) -> bool {
    exists|i: int, j: int| 0 <= i < j < specs.len() && #[trigger] clash(specs[i], specs[j])
}

/// Whether the specifications are in strictly increasing operation order.
pub open spec fn sorted_by_operation(specs: Seq<RouteSpec>) -> bool {
    forall|i: int, j: int|
        0 <= i < j < specs.len() ==> #[trigger] specs[i].spec_operation().value()
            < #[trigger] specs[j].spec_operation().value()
}

/// Whether `sorted` is `specs` reordered: `order` maps each position of `sorted` to a distinct
/// position of `specs`.
pub open spec fn reordering_of(sorted: Seq<RouteSpec>, specs: Seq<RouteSpec>, order: Seq<int>) -> bool {
    &&& order.len() == specs.len()
    &&& sorted.len() == specs.len()
    &&& forall|k: int| 0 <= k < order.len() ==> 0 <= #[trigger] order[k] < specs.len() && sorted[k] == specs[order[k]]
    &&& forall|k: int, l: int| 0 <= k < l < order.len() ==> #[trigger] order[k] != #[trigger] order[l]
}

/// Whether some position of `order` names position `i`.
spec fn reaches(order: Seq<int>, i: int) -> bool {
    exists|k: int| 0 <= k < order.len() && order[k] == i
}

/// An injective reordering of all the specifications reaches every one of them.
proof fn lemma_reordering_onto(sorted: Seq<RouteSpec>, specs: Seq<RouteSpec>, order: Seq<int>)
    requires
        reordering_of(sorted, specs, order),
    ensures
        forall|i: int| 0 <= i < specs.len() ==> #[trigger] reaches(order, i),
{
    broadcast use vstd::seq_lib::seq_to_set_is_finite;

    let n = specs.len() as int;
    assert forall|a: int, b: int| 0 <= a < order.len() && 0 <= b < order.len() && a != b implies order[a]
        != order[b] by {
        if a < b {
            assert(order[a] != order[b]);
        } else {
            assert(order[b] != order[a]);
        }
    }
    assert(order.no_duplicates());
    order.unique_seq_to_set();
    vstd::set_lib::lemma_int_range(0, n);
    assert(order.to_set().subset_of(vstd::set_lib::set_int_range(0, n))) by {
        assert forall|x: int| #[trigger] order.to_set().contains(x) implies vstd::set_lib::set_int_range(
            0,
            n,
        ).contains(x) by {
            let k = choose|k: int| 0 <= k < order.len() && order[k] == x;
        }
    }
    vstd::set_lib::lemma_subset_equality(order.to_set(), vstd::set_lib::set_int_range(0, n));
    assert forall|i: int| 0 <= i < specs.len() implies #[trigger] reaches(order, i) by {
        assert(vstd::set_lib::set_int_range(0, n).contains(i));
        assert(order.to_set().contains(i));
    }
}

/// Whether `x` stands at some position of `s`.
#[verifier::opaque]
spec fn within(s: Seq<RouteSpec>, x: RouteSpec) -> bool {
    exists|m: int| 0 <= m < s.len() && s[m] == x
}

/// Two strictly sorted reorderings that hold the same specifications agree up to `k`.
proof fn lemma_sorted_agree(sa: Seq<RouteSpec>, sb: Seq<RouteSpec>, k: int)
    requires
        sa.len() == sb.len(),
        sorted_by_operation(sa),
        sorted_by_operation(sb),
        forall|i: int| 0 <= i < sa.len() ==> within(sb, #[trigger] sa[i]),
        forall|i: int| 0 <= i < sb.len() ==> within(sa, #[trigger] sb[i]),
        0 <= k <= sa.len(),
    ensures
        forall|i: int| 0 <= i < k ==> #[trigger] sa[i] == sb[i],
    decreases k,
{
    if k > 0 {
        lemma_sorted_agree(sa, sb, k - 1);
        let i = k - 1;
        assert(within(sb, sa[i]));
        assert(within(sa, sb[i]));
        reveal(within);
        let m = choose|m: int| 0 <= m < sb.len() && sb[m] == sa[i];
        let m2 = choose|m: int| 0 <= m < sa.len() && sa[m] == sb[i];
        if m < i {
            assert(sb[m] == sa[m]);
            assert(sa[m].spec_operation().value() < sa[i].spec_operation().value());
        } else if m > i {
            assert(sb[i].spec_operation().value() < sb[m].spec_operation().value());
            if m2 < i {
                assert(sa[m2] == sb[m2]);
                assert(sb[m2].spec_operation().value() < sb[i].spec_operation().value());
            } else if m2 > i {
                assert(sa[i].spec_operation().value() < sa[m2].spec_operation().value());
            }
        }
    }
}

/// The specifications a registry holds and its digest do not depend on the order in which
/// they were handed in: registries compiled from two orderings of the same specifications
/// hold them in one order and have one digest.
pub proof fn lemma_registry_order_independent(
    a: Seq<RouteSpec>,
    b: Seq<RouteSpec>,
    p: Seq<int>,
    r1: RouteSpecRegistry,
    r2: RouteSpecRegistry,
)
    requires
        reordering_of(b, a, p),
        r1.compiled_from(a),
        r2.compiled_from(b),
    ensures
        r1.spec_specs() == r2.spec_specs(),
        r1.spec_digest().bytes() == r2.spec_digest().bytes(),
{
    let sa = r1.spec_specs();
    let sb = r2.spec_specs();
    let oa = choose|o: Seq<int>| reordering_of(sa, a, o);
    let ob = choose|o: Seq<int>| reordering_of(sb, b, o);
    lemma_reordering_onto(b, a, p);
    lemma_reordering_onto(sa, a, oa);
    lemma_reordering_onto(sb, b, ob);
    assert forall|i: int| 0 <= i < sa.len() implies within(sb, #[trigger] sa[i]) by {
        reveal(within);
        assert(reaches(p, oa[i]));
        let j = choose|j: int| 0 <= j < p.len() && p[j] == oa[i];
        assert(reaches(ob, j));
        let m = choose|m: int| 0 <= m < ob.len() && ob[m] == j;
        assert(sb[m] == b[ob[m]]);
        assert(b[j] == a[p[j]]);
    }
    assert forall|i: int| 0 <= i < sb.len() implies within(sa, #[trigger] sb[i]) by {
        reveal(within);
        let j = ob[i];
        assert(b[j] == a[p[j]]);
        assert(reaches(oa, p[j]));
        let m = choose|m: int| 0 <= m < oa.len() && oa[m] == p[j];
        assert(sa[m] == a[oa[m]]);
    }
    lemma_sorted_agree(sa, sb, sa.len() as int);
    assert(sa =~= sb);
}

fn append_names(out: &mut Vec<u8>, hs: &Vec<Vec<u8>>)
    ensures
        final(out)@ == old(out)@ + names_bytes(hs@),
{
    let ghost start = out@;
    let mut i: usize = 0;
    while i < hs.len()
        invariant
            0 <= i <= hs@.len(),
            out@ == start + names_bytes(hs@.take(i as int)),
        decreases hs@.len() - i,
    {
        push_framed(out, hs[i].as_slice());
        proof {
            assert(hs@.take(i as int + 1).drop_last() =~= hs@.take(i as int));
        }
        i += 1;
        proof {
            assert(out@ =~= start + names_bytes(hs@.take(i as int)));
        }
    }
    assert(hs@.take(hs@.len() as int) =~= hs@);
}

fn append_body_policy(out: &mut Vec<u8>, p: &BodyPolicy)
    ensures
        final(out)@ == old(out)@ + body_policy_bytes(*p),
{
    let ghost start = out@;
    match p {
        BodyPolicy::Forbidden => {
            out.push(0u8);
        },
        BodyPolicy::Bounded { max_bytes, required_content_type } => {
            out.push(1u8);
            push_be64(out, *max_bytes as u64);
            match required_content_type {
                Some(ct) => {
                    out.push(1u8);
                    push_framed(out, ct.as_slice());
                },
                None => {
                    out.push(0u8);
                },
            }
        },
    }
    assert(out@ =~= start + body_policy_bytes(*p));
}

#[verifier::spinoff_prover]
#[verifier::rlimit(60)]
fn append_route_spec(out: &mut Vec<u8>, s: &RouteSpec)
    ensures
        final(out)@ == old(out)@ + route_spec_bytes(*s),
{
    let ghost start = out@;
    push_be64(out, s.operation.get());
    out.push(s.method.code());
    push_framed(out, s.path.as_slice());
    out.push(
        match s.query_policy {
            QueryPolicy::Forbidden => 0u8,
            QueryPolicy::Allowed => 1u8,
        },
    );
    let ghost part1 = out@;
    assert(part1 =~= start + be64(s.spec_operation().value()) + seq![method_code(s.spec_method())] + framed(
        s.spec_path(),
    ) + seq![query_code(s.spec_query_policy())]);
    append_body_policy(out, &s.body_policy);
    let ghost part2 = out@;
    out.push(s.kind.code());
    out.push(s.dispatch_domain.code());
    out.push(
        match s.local_scope {
            Some(scope) => scope.code(),
            None => 0u8,
        },
    );
    let ghost part3 = out@;
    assert(part3 =~= part2 + seq![
        kind_code(s.spec_kind()),
        domain_code(s.spec_dispatch_domain()),
        match s.spec_local_scope() {
            Some(scope) => scope_code(scope),
            None => 0u8,
        },
    ]);
    push_be64(out, s.semantic_headers.len() as u64);
    append_names(out, &s.semantic_headers);
    assert(out@ =~= start + route_spec_bytes(*s));
}

/// The immutable registry that the trusted matcher and the gateway verifier share.
pub struct RouteSpecRegistry {
    specs: Vec<RouteSpec>,
    digest: RegistryDigest,
}

impl RouteSpecRegistry {
    /// The registered specifications, in increasing operation order.
    pub closed spec fn spec_specs(&self) -> Seq<RouteSpec> {
        self.specs@
    }

    /// The registry digest.
    pub closed spec fn spec_digest(&self) -> RegistryDigest {
        self.digest
    }

    /// Whether the registry is what compiling `specs` gives: the same specifications in
    /// strictly increasing operation order, digested.
    pub open spec fn compiled_from(&self, specs: Seq<RouteSpec>) -> bool {
        &&& sorted_by_operation(self.spec_specs())
        &&& exists|order: Seq<int>| reordering_of(self.spec_specs(), specs, order)
        &&& self.spec_digest().bytes() == sha256(registry_message(self.spec_specs()))
    }

    /// Compiles and digests a registry; operation identifiers and method-path pairs must be
    /// unique.
    #[verifier::spinoff_prover]
    pub fn compile(specs: Vec<RouteSpec>) -> (r: Result<Self, IngressReject>)
        ensures
            r is Err <==> (specs@.len() == 0 || specs_clash(specs@)),
            r is Err ==> r == Err::<Self, IngressReject>(IngressReject::RegistryInvalid),
            r matches Ok(reg) ==> {
                &&& sorted_by_operation(reg.spec_specs())
                &&& exists|order: Seq<int>| reordering_of(reg.spec_specs(), specs@, order)
                &&& reg.spec_digest().bytes() == sha256(registry_message(reg.spec_specs()))
            },
            r matches Ok(reg) ==> reg.compiled_from(specs@),
    {
        let n = specs.len();
        if n == 0 {
            return Err(IngressReject::RegistryInvalid);
        }
        let ghost input = specs@;
        let mut i: usize = 0;
        while i < n
            invariant
                input == specs@,
                n == input.len(),
                0 <= i <= n,
                forall|a: int, b: int| 0 <= a < b < i ==> !#[trigger] clash(input[a], input[b]),
            decreases n - i,
        {
            let mut j: usize = 0;
            while j < i
                invariant
                    input == specs@,
                    n == input.len(),
                    0 <= j <= i < n,
                    forall|a: int, b: int| 0 <= a < b < i ==> !#[trigger] clash(input[a], input[b]),
                    forall|a: int| 0 <= a < j ==> !#[trigger] clash(input[a], input[i as int]),
                decreases i - j,
            {
                if specs[j].operation == specs[i].operation || (specs[j].method == specs[i].method && bytes_eq(
                    specs[j].path.as_slice(),
                    specs[i].path.as_slice(),
                )) {
                    assert(clash(input[j as int], input[i as int]));
                    return Err(IngressReject::RegistryInvalid);
                }
                j += 1;
            }
            i += 1;
        }
        assert(!specs_clash(input));
        let mut remaining = specs;
        let mut sorted: Vec<RouteSpec> = Vec::new();
        let ghost mut order: Seq<int> = Seq::empty();
        while remaining.len() > 0
            invariant
                0 <= remaining@.len() <= n,
                n == input.len(),
                remaining@ == input.take(remaining@.len() as int),
                sorted@.len() == n - remaining@.len(),
                order.len() == sorted@.len(),
                forall|a: int, b: int| 0 <= a < b < n ==> !#[trigger] clash(input[a], input[b]),
                forall|k: int|
                    0 <= k < order.len() ==> remaining@.len() <= #[trigger] order[k] < n && sorted@[k]
                        == input[order[k]],
                forall|k: int, l: int| 0 <= k < l < order.len() ==> #[trigger] order[k] != #[trigger] order[l],
                sorted_by_operation(sorted@),
            decreases remaining@.len(),
        {
            let ghost m = remaining@.len() as int;
            let spec = match remaining.pop() {
                Some(s) => s,
                None => {
                    return Err(IngressReject::RegistryInvalid);
                },
            };
            assert(spec == input[m - 1]);
            assert(remaining@ =~= input.take(m - 1));
            let op = spec.operation.get();
            let mut pos: usize = 0;
            while pos < sorted.len() && sorted[pos].operation.get() < op
                invariant
                    0 <= pos <= sorted@.len(),
                    forall|k: int| 0 <= k < pos ==> sorted@[k].spec_operation().value() < op,
                decreases sorted@.len() - pos,
            {
                pos += 1;
            }
            proof {
                if pos < sorted@.len() {
                    let o = order[pos as int];
                    assert(o != m - 1);
                    if o < m - 1 {
                        assert(!clash(input[o], input[m - 1]));
                    } else {
                        assert(!clash(input[m - 1], input[o]));
                    }
                    OperationId::lemma_value_injective(sorted@[pos as int].spec_operation(), spec.spec_operation());
                }
            }
            let ghost before = sorted@;
            sorted.insert(pos, spec);
            proof {
                order = order.insert(pos as int, m - 1);
                assert forall|i: int, j: int| 0 <= i < j < sorted@.len() implies #[trigger] sorted@[i].spec_operation().value()
                    < #[trigger] sorted@[j].spec_operation().value() by {
                    if j < pos {
                        assert(sorted@[i] == before[i] && sorted@[j] == before[j]);
                    } else if i < pos && j == pos {
                        assert(sorted@[i] == before[i]);
                    } else if i < pos {
                        assert(sorted@[i] == before[i] && sorted@[j] == before[j - 1]);
                        if j - 1 > pos {
                            assert(before[pos as int].spec_operation().value() < before[j - 1].spec_operation().value());
                        }
                    } else if i == pos {
                        assert(sorted@[j] == before[j - 1]);
                        if j - 1 > pos {
                            assert(before[pos as int].spec_operation().value() < before[j - 1].spec_operation().value());
                        }
                    } else {
                        assert(sorted@[i] == before[i - 1] && sorted@[j] == before[j - 1]);
                    }
                }
            }
        }
        assert(reordering_of(sorted@, input, order));
        let mut message: Vec<u8> = Vec::new();
        push_bytes(&mut message, "bianma.ingress.route-registry.v1\0".as_bytes());
        push_be64(&mut message, sorted.len() as u64);
        let ghost head = message@;
        let mut k: usize = 0;
        while k < sorted.len()
            invariant
                0 <= k <= sorted@.len(),
                message@ == head + route_specs_bytes(sorted@.take(k as int)),
            decreases sorted@.len() - k,
        {
            append_route_spec(&mut message, &sorted[k]);
            proof {
                assert(sorted@.take(k as int + 1).drop_last() =~= sorted@.take(k as int));
            }
            k += 1;
            proof {
                assert(message@ =~= head + route_specs_bytes(sorted@.take(k as int)));
            }
        }
        assert(sorted@.take(sorted@.len() as int) =~= sorted@);
        assert(message@ =~= registry_message(sorted@));
        let digest = RegistryDigest::from_bytes(sha256_digest(message.as_slice()));
        let ghost final_specs = sorted@;
        assert(sorted_by_operation(final_specs));
        assert(reordering_of(final_specs, input, order));
        let reg = RouteSpecRegistry { specs: sorted, digest };
        assert(reg.spec_specs() == final_specs);
        assert(exists|o: Seq<int>| reordering_of(reg.spec_specs(), input, o));
        assert(reg.spec_digest().bytes() == sha256(registry_message(reg.spec_specs())));
        assert(input == specs@);
        assert({
            &&& sorted_by_operation(reg.spec_specs())
            &&& exists|o: Seq<int>| reordering_of(reg.spec_specs(), specs@, o)
            &&& reg.spec_digest().bytes() == sha256(registry_message(reg.spec_specs()))
        });
        Ok(reg)
    }

    /// Returns the fixed registry digest.
    pub fn digest(&self) -> (r: RegistryDigest)
        ensures
            r == self.spec_digest(),
    {
        self.digest
    }

    /// Matches a raw request to its registered operation by exact path and method, applies
    /// the query and body policies and computes the digests that a proof must match.
    pub fn bind_request(&self, request: &RawIngressRequest) -> (r: Result<RequestBinding, IngressReject>)
        ensures
            match binding_check(self.spec_specs(), *request) {
                Err(e) => r == Err::<RequestBinding, IngressReject>(e),
                Ok(i) => r matches Ok(b) && binding_of(b, self.spec_specs()[i], *request),
            },
    {
        let path = request.path();
        let method = request.method();
        let ghost specs = self.specs@;
        let ghost p = path_of(request.spec_target());
        let mut any_path = false;
        let mut found: Option<usize> = None;
        let mut i: usize = 0;
        while i < self.specs.len() && found.is_none()
            invariant
                specs == self.specs@,
                path@ == p,
                method == request.spec_method(),
                0 <= i <= specs.len(),
                any_path <==> exists|k: int| 0 <= k < i && #[trigger] specs[k].spec_path() == p,
                found matches Some(j) ==> {
                    &&& j < i
                    &&& full_match(specs[j as int], p, method)
                    &&& forall|k: int| 0 <= k < j ==> !full_match(#[trigger] specs[k], p, method)
                },
                found is None ==> forall|k: int| 0 <= k < i ==> !full_match(#[trigger] specs[k], p, method),
            decreases specs.len() - i,
        {
            let same_path = bytes_eq(self.specs[i].path.as_slice(), path);
            if same_path {
                any_path = true;
                if self.specs[i].method == method {
                    found = Some(i);
                }
            }
            proof {
                assert(same_path == (specs[i as int].spec_path() == p));
            }
            i += 1;
        }
        let j = match found {
            Some(j) => j,
            None => {
                proof {
                    assert forall|k: int| 0 <= k < specs.len() implies !full_match(#[trigger] specs[k], p, method) by {
                        if full_match(specs[k], p, method) {
                            assert(k < i);
                        }
                    }
                    if !any_path {
                        assert forall|k: int| 0 <= k < specs.len() implies #[trigger] specs[k].spec_path() != p by {
                            if specs[k].spec_path() == p {
                                assert(k < i);
                            }
                        }
                    }
                }
                if any_path {
                    return Err(IngressReject::MethodNotAllowed);
                }
                return Err(IngressReject::RouteNotFound);
            },
        };
        proof {
            assert(specs[j as int].spec_path() == p);
            assert(matched_index(specs, p, method) == j) by {
                let m = matched_index(specs, p, method);
                if m < j {
                    assert(!full_match(specs[m], p, method));
                } else if j < m {
                    assert(!full_match(specs[j as int], p, method));
                }
            }
        }
        let spec = &self.specs[j];
        if request.has_query() && spec.query_policy == QueryPolicy::Forbidden {
            return Err(IngressReject::QueryNotAllowed);
        }
        match validate_request_body(&spec.body_policy, request) {
            Ok(()) => {},
            Err(e) => {
                return Err(e);
            },
        }
        let body_digest = hash_body(request.body());
        let semantic_headers_digest = hash_semantic_headers(request, spec.semantic_headers.as_slice());
        let body_length = request.body().len() as u64;
        let request_digest = hash_request(request, body_digest, semantic_headers_digest, body_length);
        Ok(
            RequestBinding {
                operation: MatchedOperation { spec: spec.clone() },
                body_digest,
                semantic_headers_digest,
                request_digest,
                body_length,
            },
        )
    }
}

/// Whether a specification matches a path and a method exactly.
pub open spec fn full_match(s: RouteSpec, path: Seq<u8>, method: HttpMethod) -> bool {
    s.spec_path() == path && s.spec_method() == method
}

/// The first specification that matches a path and a method.
pub open spec fn matched_index(specs: Seq<RouteSpec>, path: Seq<u8>, method: HttpMethod) -> int {
    choose|i: int|
        0 <= i < specs.len() && full_match(specs[i], path, method) && forall|k: int|
            0 <= k < i ==> !full_match(#[trigger] specs[k], path, method)
}

/// Which registered specification a request binds to, by index, or why it is refused: an
/// unknown path, a known path under another method, a forbidden query, then the body policy.
pub open spec fn binding_check(specs: Seq<RouteSpec>, request: RawIngressRequest) -> Result<int, IngressReject> {
    let p = path_of(request.spec_target());
    let m = request.spec_method();
    if !exists|k: int| 0 <= k < specs.len() && #[trigger] specs[k].spec_path() == p {
        Err(IngressReject::RouteNotFound)
    } else if !exists|k: int| 0 <= k < specs.len() && #[trigger] full_match(specs[k], p, m) {
        Err(IngressReject::MethodNotAllowed)
    } else {
        let i = matched_index(specs, p, m);
        if request.spec_target().contains(63u8) && specs[i].spec_query_policy() == QueryPolicy::Forbidden {
            Err(IngressReject::QueryNotAllowed)
        } else {
            match body_check(
                specs[i].spec_body_policy(),
                request.spec_body().len() as int,
                first_content_type(request.spec_headers()),
            ) {
                Err(e) => Err(e),
                Ok(_) => Ok(i),
            }
        }
    }
}

/// Law: a request binds only to a specification registered for its exact path and method,
/// never with a query where the specification forbids one, and only with a body that the
/// specification's body policy admits.
pub proof fn lemma_binding_is_exact(specs: Seq<RouteSpec>, request: RawIngressRequest)
    requires
        binding_check(specs, request) is Ok,
    ensures
        ({
            let i = binding_check(specs, request)->Ok_0;
            &&& 0 <= i < specs.len()
            &&& specs[i].spec_path() == path_of(request.spec_target())
            &&& specs[i].spec_method() == request.spec_method()
            &&& request.spec_target().contains(63u8) ==> specs[i].spec_query_policy() == QueryPolicy::Allowed
            &&& body_check(
                specs[i].spec_body_policy(),
                request.spec_body().len() as int,
                first_content_type(request.spec_headers()),
            ) is Ok
        }),
{
    let p = path_of(request.spec_target());
    let m = request.spec_method();
    let i = matched_index(specs, p, m);
    assert(exists|k: int| 0 <= k < specs.len() && #[trigger] full_match(specs[k], p, m));
    let w = choose|k: int| 0 <= k < specs.len() && #[trigger] full_match(specs[k], p, m);
    lemma_first_full_match(specs, p, m, w);
}

proof fn lemma_first_full_match(specs: Seq<RouteSpec>, p: Seq<u8>, m: HttpMethod, w: int)
    requires
        0 <= w < specs.len(),
        full_match(specs[w], p, m),
    ensures
        0 <= matched_index(specs, p, m) < specs.len(),
        full_match(specs[matched_index(specs, p, m)], p, m),
    decreases w,
{
    if exists|k: int| 0 <= k < w && #[trigger] full_match(specs[k], p, m) {
        let k = choose|k: int| 0 <= k < w && #[trigger] full_match(specs[k], p, m);
        lemma_first_full_match(specs, p, m, k);
    } else {
        assert(0 <= w < specs.len() && full_match(specs[w], p, m) && forall|k: int|
            0 <= k < w ==> !full_match(#[trigger] specs[k], p, m));
    }
}

/// Whether `b` binds `request` to `spec`: a copy of the specification and the digests of
/// the body, the semantic headers and the whole request.
pub open spec fn binding_of(b: RequestBinding, spec: RouteSpec, request: RawIngressRequest) -> bool {
    &&& same_route_spec(b.operation.spec, spec)
    &&& b.body_length == request.spec_body().len()
    &&& b.body_digest.bytes() == body_digest_of(request.spec_body())
    &&& b.semantic_headers_digest.bytes() == semantic_headers_digest_of(
        request.spec_headers(),
        spec.spec_semantic_headers(),
    )
    &&& b.request_digest.bytes() == request_digest_of(
        request.spec_method(),
        request.spec_target(),
        b.semantic_headers_digest.bytes(),
        b.body_digest.bytes(),
        b.body_length,
    )
}

} // verus!

verus! {

/// The registered specification that an inbound request was matched to.
pub struct MatchedOperation {
    pub spec: RouteSpec,
}

/// What binding a raw request to its registered operation yields: the operation and the
/// digests and length that a proof must match.
pub struct RequestBinding {
    pub operation: MatchedOperation,
    pub body_digest: BodyDigest,
    pub semantic_headers_digest: SemanticHeadersDigest,
    pub request_digest: RequestDigest,
    pub body_length: u64,
}

} // verus!
