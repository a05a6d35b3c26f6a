//! Binding a raw request to its registered operation: the body policy, the media type and
//! the domain-separated digests of the body, the semantic headers and the whole request.
use vstd::prelude::*;
use vstd::string::StringSliceAdditionalSpecFns;

use crate::contract::bytes::{bytes_eq, lowercase, lowercase_copy};
use crate::contract::digest::{be64, framed, push_be64, push_bytes, push_framed, sha256, sha256_digest};
use crate::contract::error::IngressReject;
use crate::contract::ids::{BodyDigest, RequestDigest, SemanticHeadersDigest};
use crate::contract::operation::{media_byte, BodyPolicy};
use crate::contract::request::{content_type_name, method_code, HttpMethod, RawHeader, RawIngressRequest};

verus! {

/// Whether `b` is optional whitespace: a space or a horizontal tab.
pub open spec fn ows(b: u8) -> bool {
    b == 32 || b == 9
}

/// Where the first `;` of `v` stands, or the length of `v` where it has none.
pub open spec fn first_semicolon(v: Seq<u8>) -> nat
    decreases v.len(),
{
    if v.len() == 0 || v[0] == 59 {
        0
    } else {
        1 + first_semicolon(v.drop_first())
    }
}

/// How many whitespace bytes open `v`.
pub open spec fn leading_ows(v: Seq<u8>) -> nat
    decreases v.len(),
{
    if v.len() > 0 && ows(v[0]) {
        1 + leading_ows(v.drop_first())
    } else {
        0
    }
}

/// How many whitespace bytes close `v`.
pub open spec fn trailing_ows(v: Seq<u8>) -> nat
    decreases v.len(),
{
    if v.len() > 0 && ows(v.last()) {
        1 + trailing_ows(v.drop_last())
    } else {
        0
    }
}

/// `v` without its opening and closing whitespace.
pub open spec fn trimmed(v: Seq<u8>) -> Seq<u8> {
    if leading_ows(v) >= v.len() {
        Seq::empty()
    } else {
        v.subrange(leading_ows(v) as int, v.len() - trailing_ows(v))
    }
}

/// The media type a `Content-Type` value names: the part before its first `;`, trimmed,
/// made only of media type bytes and not empty, in lowercase.
pub open spec fn actual_media_type(value: Seq<u8>) -> Option<Seq<u8>> {
    let t = trimmed(value.take(first_semicolon(value) as int));
    if t.len() > 0 && forall|i: int| 0 <= i < t.len() ==> media_byte(#[trigger] t[i]) {
        Some(lowercase(t))
    } else {
        None
    }
}

proof fn lemma_first_semicolon(v: Seq<u8>, i: int)
    requires
        0 <= i <= v.len(),
        forall|k: int| 0 <= k < i ==> v[k] != 59,
        i == v.len() || v[i] == 59,
    ensures
        first_semicolon(v) == i,
    decreases v.len(),
{
    if v.len() > 0 && v[0] != 59 {
        lemma_first_semicolon(v.drop_first(), i - 1);
    }
}

proof fn lemma_leading_ows(v: Seq<u8>, s: int)
    requires
        0 <= s <= v.len(),
        forall|k: int| 0 <= k < s ==> ows(v[k]),
        s == v.len() || !ows(v[s]),
    ensures
        leading_ows(v) == s,
    decreases v.len(),
{
    if v.len() > 0 && ows(v[0]) {
        lemma_leading_ows(v.drop_first(), s - 1);
    }
}

proof fn lemma_trailing_ows(v: Seq<u8>, e: int)
    requires
        0 <= e <= v.len(),
        forall|k: int| e <= k < v.len() ==> ows(v[k]),
        e == 0 || !ows(v[e - 1]),
    ensures
        trailing_ows(v) == v.len() - e,
    decreases v.len(),
{
    if v.len() > 0 && ows(v.last()) {
        lemma_trailing_ows(v.drop_last(), e);
    }
}

/// Normalizes the media type of a `Content-Type` value.
pub fn normalize_actual_media_type(value: &[u8]) -> (r: Result<Vec<u8>, IngressReject>)
    ensures
        match actual_media_type(value@) {
            Some(m) => r matches Ok(v) && v@ == m,
            None => r == Err::<Vec<u8>, IngressReject>(IngressReject::ContentTypeNotAllowed),
        },
{
    let mut cut: usize = 0;
    while cut < value.len() && value[cut] != 59
        invariant
            0 <= cut <= value@.len(),
            forall|k: int| 0 <= k < cut ==> value@[k] != 59,
        decreases value@.len() - cut,
    {
        cut += 1;
    }
    proof {
        lemma_first_semicolon(value@, cut as int);
    }
    let part = vstd::slice::slice_subrange(value, 0, cut);
    assert(part@ == value@.take(cut as int));
    let mut start: usize = 0;
    while start < part.len() && (part[start] == 32 || part[start] == 9)
        invariant
            0 <= start <= part@.len(),
            forall|k: int| 0 <= k < start ==> ows(part@[k]),
        decreases part@.len() - start,
    {
        start += 1;
    }
    proof {
        lemma_leading_ows(part@, start as int);
    }
    if start == part.len() {
        return Err(IngressReject::ContentTypeNotAllowed);
    }
    let mut end: usize = part.len();
    while end > start && (part[end - 1] == 32 || part[end - 1] == 9)
        invariant
            start < part@.len(),
            start <= end <= part@.len(),
            !ows(part@[start as int]),
            forall|k: int| end <= k < part@.len() ==> ows(part@[k]),
        decreases end,
    {
        end -= 1;
    }
    proof {
        lemma_trailing_ows(part@, end as int);
    }
    let t = vstd::slice::slice_subrange(part, start, end);
    assert(t@ == trimmed(part@));
    let ghost tv = t@;
    let mut i: usize = 0;
    while i < t.len()
        invariant
            0 <= i <= t@.len(),
            t@ == tv,
            tv == trimmed(value@.take(first_semicolon(value@) as int)),
            forall|k: int| 0 <= k < i ==> media_byte(#[trigger] t@[k]),
        decreases t@.len() - i,
    {
        let b = t[i];
        if !((b >= 48 && b <= 57) || (b >= 65 && b <= 90) || (b >= 97 && b <= 122) || b == 47 || b == 45 || b == 43
            || b == 46) {
            proof {
                assert(!media_byte(t@[i as int]));
            }
            return Err(IngressReject::ContentTypeNotAllowed);
        }
        i += 1;
    }
    Ok(lowercase_copy(t))
}

/// The first `Content-Type` value of a header list, if it has one.
pub open spec fn first_content_type(hs: Seq<RawHeader>) -> Option<Seq<u8>> {
    if exists|j: int| 0 <= j < hs.len() && #[trigger] hs[j].spec_name() == content_type_name() {
        let j = choose|j: int|
            0 <= j < hs.len() && #[trigger] hs[j].spec_name() == content_type_name() && forall|k: int|
                0 <= k < j ==> hs[k].spec_name() != content_type_name();
        Some(hs[j].spec_value())
    } else {
        None
    }
}

/// The verdict of a body policy on a body of `body_len` bytes with `content_type`.
pub open spec fn body_check(policy: BodyPolicy, body_len: int, content_type: Option<Seq<u8>>) -> Result<(), IngressReject> {
    match policy {
        BodyPolicy::Forbidden => if body_len > 0 {
            Err(IngressReject::BodyNotAllowed)
        } else {
            Ok(())
        },
        BodyPolicy::Bounded { max_bytes, required_content_type } => if body_len > max_bytes {
            Err(IngressReject::BodyLimitExceeded)
        } else {
            match required_content_type {
                None => Ok(()),
                Some(expected) => match content_type {
                    None => Err(IngressReject::ContentTypeNotAllowed),
                    Some(actual) => match actual_media_type(actual) {
                        Some(m) => if m == expected@ {
                            Ok(())
                        } else {
                            Err(IngressReject::ContentTypeNotAllowed)
                        },
                        None => Err(IngressReject::ContentTypeNotAllowed),
                    },
                },
            }
        },
    }
}

/// Checks a request body against a body policy.
pub fn validate_request_body(policy: &BodyPolicy, request: &RawIngressRequest) -> (r: Result<(), IngressReject>)
    ensures
        r == body_check(*policy, request.spec_body().len() as int, first_content_type(request.spec_headers())),
{
    match policy {
        BodyPolicy::Forbidden => {
            if request.body().len() > 0 {
                Err(IngressReject::BodyNotAllowed)
            } else {
                Ok(())
            }
        },
        BodyPolicy::Bounded { max_bytes, required_content_type } => {
            if request.body().len() > *max_bytes {
                return Err(IngressReject::BodyLimitExceeded);
            }
            match required_content_type {
                None => Ok(()),
                Some(expected) => {
                    let actual = match request.content_type() {
                        Some(a) => a,
                        None => {
                            proof {
                                let hs = request.spec_headers();
                                assert(!exists|j: int| 0 <= j < hs.len() && #[trigger] hs[j].spec_name() == content_type_name());
                            }
                            return Err(IngressReject::ContentTypeNotAllowed);
                        },
                    };
                    proof {
                        let hs = request.spec_headers();
                        let w = choose|j: int|
                            0 <= j < hs.len() && #[trigger] hs[j].spec_name() == content_type_name() && hs[j].spec_value()
                                == actual@ && forall|k: int| 0 <= k < j ==> hs[k].spec_name() != content_type_name();
                        let c = choose|j: int|
                            0 <= j < hs.len() && #[trigger] hs[j].spec_name() == content_type_name() && forall|k: int|
                                0 <= k < j ==> hs[k].spec_name() != content_type_name();
                        assert(c == w) by {
                            if c < w {
                                assert(hs[c].spec_name() != content_type_name());
                            } else if w < c {
                                assert(hs[w].spec_name() != content_type_name());
                            }
                        }
                    }
                    let normalized = match normalize_actual_media_type(actual) {
                        Ok(n) => n,
                        Err(e) => {
                            return Err(e);
                        },
                    };
                    if bytes_eq(normalized.as_slice(), expected.as_slice()) {
                        Ok(())
                    } else {
                        Err(IngressReject::ContentTypeNotAllowed)
                    }
                },
            }
        },
    }
}

/// The domain of the raw body digest.
pub open spec fn body_digest_domain() -> Seq<u8> {
    "bianma.ingress.raw-body.v1\0".spec_bytes()
}

/// The domain of the semantic headers digest.
pub open spec fn header_digest_domain() -> Seq<u8> {
    "bianma.ingress.semantic-headers.v1\0".spec_bytes()
}

/// The domain of the raw request digest.
pub open spec fn request_digest_domain() -> Seq<u8> {
    "bianma.ingress.raw-request.v1\0".spec_bytes()
}

/// The digest of a raw body.
pub open spec fn body_digest_of(body: Seq<u8>) -> Seq<u8> {
    sha256(body_digest_domain() + framed(body))
}

/// Whether a header name enters the semantic digest: `Content-Type` or a registered
/// semantic header.
pub open spec fn digest_selected(name: Seq<u8>, allowlist: Seq<Vec<u8>>) -> bool {
    name == content_type_name() || exists|i: int| 0 <= i < allowlist.len() && (#[trigger] allowlist[i])@ == name
}

/// The framed names and values of the selected headers, in order.
pub open spec fn selected_headers_bytes(hs: Seq<RawHeader>, allowlist: Seq<Vec<u8>>) -> Seq<u8>
    decreases hs.len(),
{
    if hs.len() == 0 {
        Seq::empty()
    } else {
        selected_headers_bytes(hs.drop_last(), allowlist) + if digest_selected(hs.last().spec_name(), allowlist) {
            framed(hs.last().spec_name()) + framed(hs.last().spec_value())
        } else {
            Seq::empty()
        }
    }
}

/// The digest of the semantic headers of a request.
pub open spec fn semantic_headers_digest_of(hs: Seq<RawHeader>, allowlist: Seq<Vec<u8>>) -> Seq<u8> {
    sha256(header_digest_domain() + selected_headers_bytes(hs, allowlist))
}

/// The digest of a whole raw request.
pub open spec fn request_digest_of(
    method: HttpMethod,
    target: Seq<u8>,
    headers_digest: Seq<u8>,
    body_digest: Seq<u8>,
    body_length: u64,
) -> Seq<u8> {
    sha256(request_digest_domain() + seq![method_code(method)] + framed(target) + headers_digest + body_digest + be64(
        body_length,
    ))
}

/// Digests a raw body.
pub fn hash_body(body: &[u8]) -> (r: BodyDigest)
    ensures
        r.bytes() == body_digest_of(body@),
{
    let mut message: Vec<u8> = Vec::new();
    push_bytes(&mut message, "bianma.ingress.raw-body.v1\0".as_bytes());
    push_framed(&mut message, body);
    BodyDigest::from_bytes(sha256_digest(message.as_slice()))
}

pub(crate) fn is_selected(name: &[u8], allowlist: &[Vec<u8>]) -> (r: bool)
    ensures
        r == digest_selected(name@, allowlist@),
{
    if bytes_eq(name, "content-type".as_bytes()) {
        return true;
    }
    let mut i: usize = 0;
    while i < allowlist.len()
        invariant
            0 <= i <= allowlist@.len(),
            name@ != content_type_name(),
            forall|k: int| 0 <= k < i ==> (#[trigger] allowlist@[k])@ != name@,
        decreases allowlist@.len() - i,
    {
        if bytes_eq(allowlist[i].as_slice(), name) {
            return true;
        }
        i += 1;
    }
    false
}

/// Digests the semantic headers of a request.
pub fn hash_semantic_headers(request: &RawIngressRequest, allowlist: &[Vec<u8>]) -> (r: SemanticHeadersDigest)
    ensures
        r.bytes() == semantic_headers_digest_of(request.spec_headers(), allowlist@),
{
    let headers = request.headers();
    let mut message: Vec<u8> = Vec::new();
    push_bytes(&mut message, "bianma.ingress.semantic-headers.v1\0".as_bytes());
    let ghost head = message@;
    let mut i: usize = 0;
    while i < headers.len()
        invariant
            0 <= i <= headers@.len(),
            headers@ == request.spec_headers(),
            message@ == head + selected_headers_bytes(headers@.take(i as int), allowlist@),
        decreases headers@.len() - i,
    {
        let header = &headers[i];
        proof {
            assert(headers@.take(i + 1).drop_last() =~= headers@.take(i as int));
        }
        if is_selected(header.name(), allowlist) {
            push_framed(&mut message, header.name());
            push_framed(&mut message, header.value());
        }
        i += 1;
        proof {
            assert(message@ =~= head + selected_headers_bytes(headers@.take(i as int), allowlist@));
        }
    }
    proof {
        assert(headers@.take(headers@.len() as int) =~= headers@);
    }
    SemanticHeadersDigest::from_bytes(sha256_digest(message.as_slice()))
}

/// Digests a whole raw request.
pub fn hash_request(
    request: &RawIngressRequest,
    body_digest: BodyDigest,
    semantic_headers_digest: SemanticHeadersDigest,
    body_length: u64,
) -> (r: RequestDigest)
    ensures
        r.bytes() == request_digest_of(
            request.spec_method(),
            request.spec_target(),
            semantic_headers_digest.bytes(),
            body_digest.bytes(),
            body_length,
        ),
{
    let mut message: Vec<u8> = Vec::new();
    push_bytes(&mut message, "bianma.ingress.raw-request.v1\0".as_bytes());
    message.push(request.method().code());
    push_framed(&mut message, request.target());
    push_bytes(&mut message, semantic_headers_digest.as_bytes().as_slice());
    push_bytes(&mut message, body_digest.as_bytes().as_slice());
    push_be64(&mut message, body_length);
    proof {
        assert(message@ =~= request_digest_domain() + seq![method_code(request.spec_method())] + framed(
            request.spec_target(),
        ) + semantic_headers_digest.bytes() + body_digest.bytes() + be64(body_length));
    }
    RequestDigest::from_bytes(sha256_digest(message.as_slice()))
}

} // verus!
