//! Bounded raw requests and their pre-send sanitizing.
use vstd::prelude::*;
use vstd::string::StringSliceAdditionalSpecFns;

use crate::contract::bytes::{
    bytes_eq, copy_bytes, decimal_value, is_alnum, is_digit, is_visible_ascii, lower, lowercase, parse_decimal,
    to_lower,
};
use crate::contract::binding::{digest_selected, is_selected};
use crate::contract::error::IngressReject;
use crate::contract::limits::{
    MAX_HEADER_COUNT, MAX_HEADER_NAME_BYTES, MAX_HEADER_VALUE_BYTES, MAX_RAW_BODY_BYTES, MAX_REQUEST_TARGET_BYTES,
};

verus! {

/// The closed set of supported inbound HTTP methods.
#[derive(Clone, Copy, Debug, PartialEq, Eq, Structural, Hash, PartialOrd, Ord)]
pub enum HttpMethod {
    /// HTTP GET.
    Get,
    /// HTTP POST.
    Post,
    /// HTTP PUT.
    Put,
    /// HTTP PATCH.
    Patch,
    /// HTTP DELETE.
    Delete,
    /// HTTP HEAD.
    Head,
    /// HTTP OPTIONS.
    Options,
}

/// The wire code of each method.
pub open spec fn method_code(m: HttpMethod) -> u8 {
    match m {
        HttpMethod::Get => 1,
        HttpMethod::Post => 2,
        HttpMethod::Put => 3,
        HttpMethod::Patch => 4,
        HttpMethod::Delete => 5,
        HttpMethod::Head => 6,
        HttpMethod::Options => 7,
    }
}

impl HttpMethod {
    /// Returns the wire code of the method.
    pub(crate) fn code(self) -> (r: u8)
        ensures
            r == method_code(self),
    {
        match self {
            HttpMethod::Get => 1,
            HttpMethod::Post => 2,
            HttpMethod::Put => 3,
            HttpMethod::Patch => 4,
            HttpMethod::Delete => 5,
            HttpMethod::Head => 6,
            HttpMethod::Options => 7,
        }
    }

    /// Decodes a wire code; an unknown code is a malformed proof.
    pub(crate) fn from_code(code: u8) -> (r: Result<Self, IngressReject>)
        ensures
            (1 <= code <= 7) <==> r is Ok,
            r matches Ok(m) ==> method_code(m) == code,
            r is Err ==> r == Err::<Self, IngressReject>(IngressReject::ProofMalformed),
    {
        match code {
            1 => Ok(HttpMethod::Get),
            2 => Ok(HttpMethod::Post),
            3 => Ok(HttpMethod::Put),
            4 => Ok(HttpMethod::Patch),
            5 => Ok(HttpMethod::Delete),
            6 => Ok(HttpMethod::Head),
            7 => Ok(HttpMethod::Options),
            _ => Err(IngressReject::ProofMalformed),
        }
    }
}

/// Whether `b` may appear in a header name (an RFC 9110 token byte).
pub open spec fn header_name_byte(b: u8) -> bool {
    is_alnum(b) || b == 33 || b == 35 || b == 36 || b == 37 || b == 38 || b == 39 || b == 42 || b == 43 || b == 45
        || b == 46 || b == 94 || b == 95 || b == 96 || b == 124 || b == 126
}

/// Whether `b` may appear in a header value: no control byte but horizontal tab.
pub open spec fn header_value_byte(b: u8) -> bool {
    !((b < 32 && b != 9) || b == 127)
}

/// Whether `name` and `value` form an acceptable header.
pub open spec fn header_ok(name: Seq<u8>, value: Seq<u8>) -> bool {
    &&& 0 < name.len() <= MAX_HEADER_NAME_BYTES
    &&& value.len() <= MAX_HEADER_VALUE_BYTES
    &&& forall|i: int| 0 <= i < name.len() ==> header_name_byte(#[trigger] name[i])
    &&& forall|i: int| 0 <= i < value.len() ==> header_value_byte(#[trigger] value[i])
}

/// Returns whether `b` may appear in a header name.
pub(crate) fn is_header_name_byte(b: u8) -> (r: bool)
    ensures
        r == header_name_byte(b),
{
    (b >= 48 && b <= 57) || (b >= 65 && b <= 90) || (b >= 97 && b <= 122) || b == 33 || b == 35 || b == 36 || b
        == 37 || b == 38 || b == 39 || b == 42 || b == 43 || b == 45 || b == 46 || b == 94 || b == 95 || b == 96
        || b == 124 || b == 126
}

/// A header that passed the basic syntax check and whose name is in ASCII lowercase.
///
/// The value may hold user input, so the type has no `Debug`.
pub struct RawHeader {
    name: Vec<u8>,
    value: Vec<u8>,
}

impl RawHeader {
    /// The lowercase header name.
    pub closed spec fn spec_name(&self) -> Seq<u8> {
        self.name@
    }

    /// The unchanged header value.
    pub closed spec fn spec_value(&self) -> Seq<u8> {
        self.value@
    }

    /// Builds a header, lowercasing the name and keeping the value byte for byte.
    pub fn try_new(name: &[u8], value: &[u8]) -> (r: Result<Self, IngressReject>)
        ensures
            header_ok(name@, value@) <==> r is Ok,
            r is Err ==> r == Err::<Self, IngressReject>(IngressReject::HeaderMalformed),
            r matches Ok(h) ==> h.spec_name() == lowercase(name@) && h.spec_value() == value@,
    {
        if name.len() == 0 || name.len() > MAX_HEADER_NAME_BYTES || value.len() > MAX_HEADER_VALUE_BYTES {
            return Err(IngressReject::HeaderMalformed);
        }
        let mut i: usize = 0;
        while i < name.len()
            invariant
                0 <= i <= name@.len(),
                forall|k: int| 0 <= k < i ==> header_name_byte(#[trigger] name@[k]),
            decreases name@.len() - i,
        {
            if !is_header_name_byte(name[i]) {
                return Err(IngressReject::HeaderMalformed);
            }
            i += 1;
        }
        let mut j: usize = 0;
        while j < value.len()
            invariant
                0 <= j <= value@.len(),
                forall|k: int| 0 <= k < j ==> header_value_byte(#[trigger] value@[k]),
            decreases value@.len() - j,
        {
            let b = value[j];
            if (b < 32 && b != 9) || b == 127 {
                assert(!header_value_byte(value@[j as int]));
                return Err(IngressReject::HeaderMalformed);
            }
            j += 1;
        }
        let mut lowered: Vec<u8> = Vec::new();
        let mut k: usize = 0;
        while k < name.len()
            invariant
                0 <= k <= name@.len(),
                lowered@ == lowercase(name@.take(k as int)),
            decreases name@.len() - k,
        {
            lowered.push(to_lower(name[k]));
            k += 1;
            proof {
                assert(lowered@ =~= lowercase(name@.take(k as int)));
            }
        }
        assert(name@.take(name@.len() as int) =~= name@);
        Ok(RawHeader { name: lowered, value: copy_bytes(value) })
    }

    /// Returns the lowercase header name.
    pub fn name(&self) -> (r: &[u8])
        ensures
            r@ == self.spec_name(),
    {
        self.name.as_slice()
    }

    /// Returns the header value, neither trimmed nor re-encoded.
    pub fn value(&self) -> (r: &[u8])
        ensures
            r@ == self.spec_value(),
    {
        self.value.as_slice()
    }
}

/// Whether the segment of target `t` that starts at `k` ends there: at the end, a slash or
/// the start of the query.
pub open spec fn segment_ends(t: Seq<u8>, k: int) -> bool {
    k == t.len() || t[k] == 47 || t[k] == 63
}

/// Whether index `i` of `t` lies before the first `?`.
pub open spec fn in_path(t: Seq<u8>, i: int) -> bool {
    forall|j: int| 0 <= j < i ==> t[j] != 63
}

/// Whether a `.` or `..` path segment starts at index `i` of `t`.
pub open spec fn dot_segment_at(t: Seq<u8>, i: int) -> bool {
    &&& 0 <= i < t.len()
    &&& in_path(t, i)
    &&& i == 0 || t[i - 1] == 47
    &&& t[i] == 46
    &&& segment_ends(t, i + 1) || (i + 1 < t.len() && t[i + 1] == 46 && segment_ends(t, i + 2))
}

/// Whether an encoded slash, backslash, dot, percent sign or NUL (`%2f`, `%5c`, `%2e`, `%25`,
/// `%00`, in any case) starts at index `i` of `t`.
pub open spec fn encoded_at(t: Seq<u8>, i: int) -> bool {
    &&& 0 <= i
    &&& i + 3 <= t.len()
    &&& t[i] == 37
    &&& (t[i + 1] == 50 && (lower(t[i + 2]) == 102 || lower(t[i + 2]) == 101 || t[i + 2] == 53)) || (t[i + 1]
        == 53 && lower(t[i + 2]) == 99) || (t[i + 1] == 48 && t[i + 2] == 48)
}

/// Whether `t` is a safe absolute target: it starts with `/`, holds only visible ASCII other
/// than `#` and `\`, has no `.` or `..` path segment and no encoded separator or escape.
pub open spec fn target_shape_ok(t: Seq<u8>) -> bool {
    &&& t.len() > 0
    &&& t[0] == 47
    &&& forall|i: int| 0 <= i < t.len() ==> is_visible_ascii(#[trigger] t[i]) && t[i] != 35 && t[i] != 92
    &&& forall|i: int| !#[trigger] dot_segment_at(t, i)
    &&& forall|i: int| !#[trigger] encoded_at(t, i)
}

/// Whether `t` is an acceptable origin-form request target.
pub open spec fn origin_form_ok(t: Seq<u8>) -> bool {
    t.len() <= MAX_REQUEST_TARGET_BYTES && target_shape_ok(t)
}

/// Returns whether `t` is a safe absolute target.
pub(crate) fn check_target_shape(t: &[u8]) -> (r: bool)
    ensures
        r == target_shape_ok(t@),
{
    let n = t.len();
    if n == 0 || t[0] != 47 {
        return false;
    }
    let mut i: usize = 0;
    while i < n
        invariant
            n == t@.len(),
            0 <= i <= n,
            forall|k: int| 0 <= k < i ==> is_visible_ascii(#[trigger] t@[k]) && t@[k] != 35 && t@[k] != 92,
        decreases n - i,
    {
        let b = t[i];
        if !(b >= 33 && b <= 126) || b == 35 || b == 92 {
            return false;
        }
        i += 1;
    }
    let mut p: usize = 0;
    while p < n && t[p] != 63
        invariant
            n == t@.len(),
            0 <= p <= n,
            in_path(t@, p as int),
            forall|k: int| 0 <= k < p ==> !#[trigger] dot_segment_at(t@, k),
        decreases n - p,
    {
        let starts = p == 0 || t[p - 1] == 47;
        if starts && t[p] == 46 {
            let one = p + 1 == n || t[p + 1] == 47 || t[p + 1] == 63;
            let two = p + 1 < n && t[p + 1] == 46 && (p + 2 == n || t[p + 2] == 47 || t[p + 2] == 63);
            if one || two {
                assert(dot_segment_at(t@, p as int));
                return false;
            }
        }
        p += 1;
    }
    assert forall|k: int| !#[trigger] dot_segment_at(t@, k) by {
        if p < k < n {
            assert(t@[p as int] == 63);
            assert(!in_path(t@, k));
        } else if k == p && p < n {
            assert(t@[k] == 63);
        }
    }
    let mut w: usize = 0;
    while n >= 3 && w <= n - 3
        invariant
            n == t@.len(),
            0 <= w <= n,
            forall|k: int| 0 <= k < w ==> !#[trigger] encoded_at(t@, k),
        decreases n - w,
    {
        if t[w] == 37 {
            let second = t[w + 1];
            let third = to_lower(t[w + 2]);
            if (second == 50 && (third == 102 || third == 101 || t[w + 2] == 53)) || (second == 53 && third == 99) || (
            second == 48 && t[w + 2] == 48) {
                assert(encoded_at(t@, w as int));
                return false;
            }
        }
        w += 1;
    }
    true
}

/// The header names reserved for proofs that only the gateway attaches.
pub open spec fn reserved_proof_header(n: Seq<u8>) -> bool {
    n == "x-bianma-context-attestation".spec_bytes() || n == "x-bianma-authorization-bundle".spec_bytes() || n
        == "x-bianma-capability-authorization".spec_bytes() || n == "x-bianma-ingress-mode".spec_bytes()
}

/// The header names that carry inbound authentication.
pub open spec fn inbound_auth_header(n: Seq<u8>) -> bool {
    n == "authorization".spec_bytes() || n == "proxy-authorization".spec_bytes() || n == "x-api-key".spec_bytes()
        || n == "x-goog-api-key".spec_bytes()
}

/// The hop-by-hop header names a request may not carry.
pub open spec fn hop_by_hop_header(n: Seq<u8>) -> bool {
    n == "connection".spec_bytes() || n == "keep-alive".spec_bytes() || n == "proxy-connection".spec_bytes() || n
        == "te".spec_bytes() || n == "trailer".spec_bytes() || n == "transfer-encoding".spec_bytes() || n
        == "upgrade".spec_bytes()
}

/// The sensitive header names always stripped before sending.
pub open spec fn sensitive_header(n: Seq<u8>) -> bool {
    n == "cookie".spec_bytes() || n == "set-cookie".spec_bytes()
}

/// The `content-length` header name.
pub open spec fn content_length_name() -> Seq<u8> {
    "content-length".spec_bytes()
}

/// The `content-type` header name.
pub open spec fn content_type_name() -> Seq<u8> {
    "content-type".spec_bytes()
}

fn is_reserved_proof_header(n: &[u8]) -> (r: bool)
    ensures
        r == reserved_proof_header(n@),
{
    bytes_eq(n, "x-bianma-context-attestation".as_bytes()) || bytes_eq(n, "x-bianma-authorization-bundle".as_bytes())
        || bytes_eq(n, "x-bianma-capability-authorization".as_bytes()) || bytes_eq(
        n,
        "x-bianma-ingress-mode".as_bytes(),
    )
}

pub(crate) fn is_inbound_auth_header(n: &[u8]) -> (r: bool)
    ensures
        r == inbound_auth_header(n@),
{
    bytes_eq(n, "authorization".as_bytes()) || bytes_eq(n, "proxy-authorization".as_bytes()) || bytes_eq(
        n,
        "x-api-key".as_bytes(),
    ) || bytes_eq(n, "x-goog-api-key".as_bytes())
}

fn is_hop_by_hop_header(n: &[u8]) -> (r: bool)
    ensures
        r == hop_by_hop_header(n@),
{
    bytes_eq(n, "connection".as_bytes()) || bytes_eq(n, "keep-alive".as_bytes()) || bytes_eq(
        n,
        "proxy-connection".as_bytes(),
    ) || bytes_eq(n, "te".as_bytes()) || bytes_eq(n, "trailer".as_bytes()) || bytes_eq(
        n,
        "transfer-encoding".as_bytes(),
    ) || bytes_eq(n, "upgrade".as_bytes())
}

pub(crate) fn is_sensitive_header(n: &[u8]) -> (r: bool)
    ensures
        r == sensitive_header(n@),
{
    bytes_eq(n, "cookie".as_bytes()) || bytes_eq(n, "set-cookie".as_bytes())
}

pub(crate) fn is_content_length(n: &[u8]) -> (r: bool)
    ensures
        r == (n@ == content_length_name()),
{
    bytes_eq(n, "content-length".as_bytes())
}

pub(crate) fn is_content_type(n: &[u8]) -> (r: bool)
    ensures
        r == (n@ == content_type_name()),
{
    bytes_eq(n, "content-type".as_bytes())
}

/// Whether a `content-length` value is a decimal number that fits in `usize`.
pub open spec fn content_length_ok(v: Seq<u8>) -> bool {
    v.len() > 0 && (forall|i: int| 0 <= i < v.len() ==> is_digit(#[trigger] v[i])) && decimal_value(v) <= usize::MAX
}

/// The violation, if any, of header `i` of `hs`.
pub open spec fn header_violation_at(hs: Seq<RawHeader>, i: int) -> Option<IngressReject> {
    let n = hs[i].spec_name();
    if reserved_proof_header(n) {
        Some(IngressReject::ReservedProofHeader)
    } else if hop_by_hop_header(n) {
        Some(IngressReject::HeaderMalformed)
    } else if n == content_length_name() && exists|j: int|
        0 <= j < i && #[trigger] hs[j].spec_name() == content_length_name() {
        Some(IngressReject::HeaderMalformed)
    } else if n == content_length_name() && !content_length_ok(hs[i].spec_value()) {
        Some(IngressReject::HeaderMalformed)
    } else {
        None
    }
}

/// The first violation among the first `n` headers.
pub open spec fn header_prefix_violation(hs: Seq<RawHeader>, n: int) -> Option<IngressReject>
    decreases n,
{
    if n <= 0 {
        None
    } else {
        match header_prefix_violation(hs, n - 1) {
            Some(e) => Some(e),
            None => header_violation_at(hs, n - 1),
        }
    }
}

/// How many of the first `n` headers carry inbound authentication.
pub open spec fn auth_count(hs: Seq<RawHeader>, n: int) -> nat
    decreases n,
{
    if n <= 0 {
        0
    } else {
        auth_count(hs, n - 1) + if inbound_auth_header(hs[n - 1].spec_name()) {
            1nat
        } else {
            0nat
        }
    }
}

/// How many of the first `n` headers are `content-type`.
pub open spec fn content_type_count(hs: Seq<RawHeader>, n: int) -> nat
    decreases n,
{
    if n <= 0 {
        0
    } else {
        content_type_count(hs, n - 1) + if hs[n - 1].spec_name() == content_type_name() {
            1nat
        } else {
            0nat
        }
    }
}

/// The verdict of raw request validation.
pub open spec fn raw_request_check(target: Seq<u8>, hs: Seq<RawHeader>, body_len: int) -> Result<(), IngressReject> {
    if !origin_form_ok(target) {
        Err(IngressReject::RequestMalformed)
    } else if body_len > MAX_RAW_BODY_BYTES {
        Err(IngressReject::RequestTooLarge)
    } else if hs.len() > MAX_HEADER_COUNT {
        Err(IngressReject::RequestTooLarge)
    } else if header_prefix_violation(hs, hs.len() as int) is Some {
        Err(header_prefix_violation(hs, hs.len() as int).unwrap())
    } else if auth_count(hs, hs.len() as int) > 1 {
        Err(IngressReject::ConflictingInboundAuthentication)
    } else if content_type_count(hs, hs.len() as int) > 1 {
        Err(IngressReject::HeaderMalformed)
    } else if exists|j: int|
        0 <= j < hs.len() && #[trigger] hs[j].spec_name() == content_length_name() && decimal_value(
            hs[j].spec_value(),
        ) != body_len {
        Err(IngressReject::RequestMalformed)
    } else {
        Ok(())
    }
}

proof fn lemma_header_violation_sticks(hs: Seq<RawHeader>, m: int, n: int)
    requires
        0 <= m <= n,
        header_prefix_violation(hs, m) is Some,
    ensures
        header_prefix_violation(hs, n) == header_prefix_violation(hs, m),
    decreases n - m,
{
    if n > m {
        lemma_header_violation_sticks(hs, m, n - 1);
    }
}

/// A raw request that the inbound gateway has collected within bounds but that holds no
/// routing authority yet.
///
/// The type has neither `Clone` nor `Debug`, so the body and the authentication input are
/// never copied or logged by accident.
pub struct RawIngressRequest {
    method: HttpMethod,
    target: Vec<u8>,
    headers: Vec<RawHeader>,
    body: Vec<u8>,
}

impl RawIngressRequest {
    /// A raw request's target is always in origin form: an absolute path with an optional
    /// query, within bounds.
    #[verifier::type_invariant]
    closed spec fn inv(self) -> bool {
        origin_form_ok(self.target@)
    }

    /// The request method.
    pub closed spec fn spec_method(&self) -> HttpMethod {
        self.method
    }

    /// The request target.
    pub closed spec fn spec_target(&self) -> Seq<u8> {
        self.target@
    }

    /// The request headers.
    pub closed spec fn spec_headers(&self) -> Seq<RawHeader> {
        self.headers@
    }

    /// The raw body.
    pub closed spec fn spec_body(&self) -> Seq<u8> {
        self.body@
    }

    /// Builds a bounded raw request, refusing request smuggling, embedded proofs and
    /// conflicting authentication input.
    pub fn try_new(method: HttpMethod, target: &[u8], headers: Vec<RawHeader>, body: Vec<u8>) -> (r: Result<
        Self,
        IngressReject,
    >)
        ensures
            raw_request_check(target@, headers@, body@.len() as int) matches Err(e) ==> r == Err::<Self, IngressReject>(
                e,
            ),
            raw_request_check(target@, headers@, body@.len() as int) is Ok ==> (r matches Ok(q) && q.spec_method()
                == method && q.spec_target() == target@ && q.spec_headers() == headers@ && q.spec_body() == body@),
    {
        if target.len() > MAX_REQUEST_TARGET_BYTES || !check_target_shape(target) {
            return Err(IngressReject::RequestMalformed);
        }
        if body.len() > MAX_RAW_BODY_BYTES {
            return Err(IngressReject::RequestTooLarge);
        }
        if headers.len() > MAX_HEADER_COUNT {
            return Err(IngressReject::RequestTooLarge);
        }
        let ghost hs = headers@;
        let n = headers.len();
        let mut auth: usize = 0;
        let mut content_types: usize = 0;
        let mut content_length: Option<usize> = None;
        let mut i: usize = 0;
        while i < n
            invariant
                hs == headers@,
                n == hs.len(),
                n <= MAX_HEADER_COUNT,
                0 <= i <= n,
                origin_form_ok(target@),
                body@.len() <= MAX_RAW_BODY_BYTES,
                header_prefix_violation(hs, i as int) is None,
                auth == auth_count(hs, i as int),
                content_types == content_type_count(hs, i as int),
                auth <= i,
                content_types <= i,
                content_length is Some <==> exists|j: int|
                    0 <= j < i && #[trigger] hs[j].spec_name() == content_length_name(),
                content_length matches Some(v) ==> forall|j: int|
                    0 <= j < i && #[trigger] hs[j].spec_name() == content_length_name() ==> decimal_value(
                        hs[j].spec_value(),
                    ) == v,
            decreases n - i,
        {
            let name = headers[i].name();
            if is_reserved_proof_header(name) {
                proof {
                    lemma_header_violation_sticks(hs, i as int + 1, n as int);
                }
                return Err(IngressReject::ReservedProofHeader);
            }
            if is_hop_by_hop_header(name) {
                proof {
                    lemma_header_violation_sticks(hs, i as int + 1, n as int);
                }
                return Err(IngressReject::HeaderMalformed);
            }
            if is_inbound_auth_header(name) {
                auth = auth + 1;
            }
            if is_content_length(name) {
                if content_length.is_some() {
                    proof {
                        lemma_header_violation_sticks(hs, i as int + 1, n as int);
                    }
                    return Err(IngressReject::HeaderMalformed);
                }
                match parse_decimal(headers[i].value()) {
                    Some(v) => {
                        content_length = Some(v);
                    },
                    None => {
                        proof {
                            lemma_header_violation_sticks(hs, i as int + 1, n as int);
                        }
                        return Err(IngressReject::HeaderMalformed);
                    },
                }
            }
            if is_content_type(name) {
                content_types = content_types + 1;
            }
            assert(header_violation_at(hs, i as int) is None);
            i += 1;
        }
        if auth > 1 {
            return Err(IngressReject::ConflictingInboundAuthentication);
        }
        if content_types > 1 {
            return Err(IngressReject::HeaderMalformed);
        }
        if let Some(declared) = content_length {
            if declared != body.len() {
                let ghost j = choose|j: int| 0 <= j < n && #[trigger] hs[j].spec_name() == content_length_name();
                assert(decimal_value(hs[j].spec_value()) != body@.len());
                return Err(IngressReject::RequestMalformed);
            }
        }
        Ok(RawIngressRequest { method, target: copy_bytes(target), headers, body })
    }

    /// Returns the method.
    pub fn method(&self) -> (r: HttpMethod)
        ensures
            r == self.spec_method(),
    {
        self.method
    }

    /// Returns the target, checked to be in strict origin form and never decoded twice.
    pub fn target(&self) -> (r: &[u8])
        ensures
            r@ == self.spec_target(),
            origin_form_ok(r@),
    {
        proof {
            use_type_invariant(self);
        }
        self.target.as_slice()
    }

    /// Returns the headers, in the order they arrived.
    pub fn headers(&self) -> (r: &[RawHeader])
        ensures
            r@ == self.spec_headers(),
    {
        self.headers.as_slice()
    }

    /// Returns the raw body.
    pub fn body(&self) -> (r: &[u8])
        ensures
            r@ == self.spec_body(),
    {
        self.body.as_slice()
    }

    /// Returns the value of the first `content-type` header, if any.
    pub(crate) fn content_type(&self) -> (r: Option<&[u8]>)
        ensures
            r is None <==> forall|j: int|
                0 <= j < self.spec_headers().len() ==> #[trigger] self.spec_headers()[j].spec_name()
                    != content_type_name(),
            r matches Some(v) ==> exists|j: int|
                0 <= j < self.spec_headers().len() && #[trigger] self.spec_headers()[j].spec_name()
                    == content_type_name() && self.spec_headers()[j].spec_value() == v@ && forall|k: int|
                    0 <= k < j ==> self.spec_headers()[k].spec_name() != content_type_name(),
    {
        let mut i: usize = 0;
        while i < self.headers.len()
            invariant
                0 <= i <= self.headers@.len(),
                forall|k: int| 0 <= k < i ==> #[trigger] self.headers@[k].spec_name() != content_type_name(),
            decreases self.headers@.len() - i,
        {
            if is_content_type(self.headers[i].name()) {
                assert(self.spec_headers()[i as int].spec_name() == content_type_name());
                return Some(self.headers[i].value());
            }
            i += 1;
        }
        assert forall|j: int| 0 <= j < self.spec_headers().len() implies #[trigger] self.spec_headers()[j].spec_name()
            != content_type_name() by {
            assert(self.headers@[j].spec_name() != content_type_name());
        }
        None
    }

    /// Returns the path: the target up to its first `?`.
    pub(crate) fn path(&self) -> (r: &[u8])
        ensures
            r@ == path_of(self.spec_target()),
            r@.len() > 0,
            r@[0] == 47u8,
    {
        proof {
            use_type_invariant(self);
        }
        let t = self.target.as_slice();
        let mut i: usize = 0;
        while i < t.len() && t[i] != 63
            invariant
                0 <= i <= t@.len(),
                forall|k: int| 0 <= k < i ==> t@[k] != 63,
            decreases t@.len() - i,
        {
            i += 1;
        }
        proof {
            lemma_path_of(t@, i as int);
        }
        slice_prefix(t, i)
    }

    /// Whether the target has a query.
    pub(crate) fn has_query(&self) -> (r: bool)
        ensures
            r == self.spec_target().contains(63u8),
    {
        crate::contract::bytes::contains_byte(self.target.as_slice(), 63)
    }
}

/// The target up to its first `?`.
pub open spec fn path_of(t: Seq<u8>) -> Seq<u8>
    decreases t.len(),
{
    if t.len() == 0 {
        t
    } else if t.contains(63u8) && !t.drop_last().contains(63u8) {
        t.drop_last()
    } else if t.drop_last().contains(63u8) {
        path_of(t.drop_last())
    } else {
        t
    }
}

proof fn lemma_path_of(t: Seq<u8>, i: int)
    requires
        0 <= i <= t.len(),
        forall|k: int| 0 <= k < i ==> t[k] != 63,
        i == t.len() || t[i] == 63,
    ensures
        path_of(t) == t.take(i),
    decreases t.len(),
{
    if t.len() == 0 {
        assert(t.take(i) =~= t);
    } else if i == t.len() {
        assert(!t.contains(63u8));
        assert(t.take(i) =~= t);
    } else if i == t.len() - 1 {
        assert(t.contains(63u8)) by {
            assert(t[i] == 63);
        }
        assert(!t.drop_last().contains(63u8));
        assert(t.take(i) =~= t.drop_last());
    } else {
        assert(t.drop_last().contains(63u8)) by {
            assert(t.drop_last()[i] == 63);
        }
        lemma_path_of(t.drop_last(), i);
        assert(t.drop_last().take(i) =~= t.take(i));
    }
}

/// Returns the first `n` bytes of `s`.
pub(crate) fn slice_prefix(s: &[u8], n: usize) -> (r: &[u8])
    requires
        n <= s@.len(),
    ensures
        r@ == s@.take(n as int),
{
    vstd::slice::slice_subrange(s, 0, n)
}

} // verus!

verus! {

/// A request stripped of inbound credentials, `Content-Length` and proof material, keeping
/// only `Content-Type` and the registered semantic headers.
pub struct SanitizedRequest {
    pub(crate) method: HttpMethod,
    pub(crate) target: Vec<u8>,
    pub(crate) headers: Vec<RawHeader>,
    pub(crate) body: Vec<u8>,
}

impl SanitizedRequest {
    /// The request method.
    pub closed spec fn spec_method(&self) -> HttpMethod {
        self.method
    }

    /// The request target.
    pub closed spec fn spec_target(&self) -> Seq<u8> {
        self.target@
    }

    /// The headers that survived sanitizing.
    pub closed spec fn spec_headers(&self) -> Seq<RawHeader> {
        self.headers@
    }

    /// The raw body.
    pub closed spec fn spec_body(&self) -> Seq<u8> {
        self.body@
    }

    pub(crate) fn method(&self) -> (r: HttpMethod)
        ensures
            r == self.spec_method(),
    {
        self.method
    }

    pub(crate) fn target(&self) -> (r: &[u8])
        ensures
            r@ == self.spec_target(),
    {
        self.target.as_slice()
    }

    pub(crate) fn body(&self) -> (r: &[u8])
        ensures
            r@ == self.spec_body(),
    {
        self.body.as_slice()
    }

    pub(crate) fn headers(&self) -> (r: &[RawHeader])
        ensures
            r@ == self.spec_headers(),
    {
        self.headers.as_slice()
    }
}

/// Whether a header survives sanitizing: no inbound credential, no cookie, no
/// `Content-Length`, and either `Content-Type` or a registered semantic header.
pub open spec fn kept_header(name: Seq<u8>, semantic_headers: Seq<Vec<u8>>) -> bool {
    &&& !inbound_auth_header(name)
    &&& !sensitive_header(name)
    &&& name != content_length_name()
    &&& digest_selected(name, semantic_headers)
}

/// The headers that survive sanitizing, in their original order.
pub open spec fn kept_headers(hs: Seq<RawHeader>, semantic_headers: Seq<Vec<u8>>) -> Seq<RawHeader>
    decreases hs.len(),
{
    if hs.len() == 0 {
        Seq::empty()
    } else {
        kept_headers(hs.drop_last(), semantic_headers) + if kept_header(hs.last().spec_name(), semantic_headers) {
            seq![hs.last()]
        } else {
            Seq::empty()
        }
    }
}

/// Law: sanitizing keeps no inbound credential, no cookie and no `Content-Length`, and only
/// `Content-Type` and the registered semantic headers; and it keeps every such header of the
/// request, in its original order.
pub proof fn lemma_sanitized_headers_are_exactly_the_kept_ones(hs: Seq<RawHeader>, semantic_headers: Seq<Vec<u8>>)
    ensures
        forall|i: int|
            0 <= i < kept_headers(hs, semantic_headers).len() ==> kept_header(
                #[trigger] kept_headers(hs, semantic_headers)[i].spec_name(),
                semantic_headers,
            ),
        kept_headers(hs, semantic_headers).len() <= hs.len(),
        kept_headers(hs, semantic_headers) == hs.filter(|h: RawHeader| kept_header(h.spec_name(), semantic_headers)),
    decreases hs.len(),
{
    reveal(Seq::filter);
    if hs.len() > 0 {
        lemma_sanitized_headers_are_exactly_the_kept_ones(hs.drop_last(), semantic_headers);
        let k = kept_headers(hs, semantic_headers);
        let prev = kept_headers(hs.drop_last(), semantic_headers);
        assert forall|i: int| 0 <= i < k.len() implies kept_header(#[trigger] k[i].spec_name(), semantic_headers) by {
            if i < prev.len() {
                assert(k[i] == prev[i]);
            }
        }
    }
}

impl RawIngressRequest {
    /// Strips inbound credentials, cookies, `Content-Length` and every header that is neither
    /// `Content-Type` nor a registered semantic header.
    pub fn into_sanitized(self, semantic_headers: &[Vec<u8>]) -> (r: SanitizedRequest)
        ensures
            r.spec_method() == self.spec_method(),
            r.spec_target() == self.spec_target(),
            r.spec_body() == self.spec_body(),
            r.spec_headers() == kept_headers(self.spec_headers(), semantic_headers@),
    {
        let RawIngressRequest { method, target, mut headers, body } = self;
        let ghost hs = headers@;
        let count: usize = headers.len();
        assert(hs.len() == count);
        let mut kept: Vec<RawHeader> = Vec::new();
        let mut i: usize = 0;
        while headers.len() > 0
            invariant
                0 <= i <= hs.len(),
                hs.len() <= usize::MAX,
                headers@ == hs.skip(i as int),
                kept@ == kept_headers(hs.take(i as int), semantic_headers@),
            decreases headers@.len(),
        {
            let h = headers.remove(0);
            proof {
                assert(h == hs[i as int]);
                assert(hs.take(i + 1).drop_last() =~= hs.take(i as int));
            }
            let name = h.name();
            let keep = !is_inbound_auth_header(name) && !is_sensitive_header(name) && !is_content_length(name)
                && is_selected(name, semantic_headers);
            if keep {
                kept.push(h);
            }
            i += 1;
            proof {
                assert(headers@ =~= hs.skip(i as int));
            }
        }
        proof {
            assert(hs.take(i as int) =~= hs);
        }
        SanitizedRequest { method, target, headers: kept, body }
    }
}

} // verus!
