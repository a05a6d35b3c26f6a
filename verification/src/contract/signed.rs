//! The untrusted signed wire schema: canonical origins, bounded wire containers and the
//! claims that the strict canonical decoders produce.
use vstd::prelude::*;
use vstd::string::StringSliceAdditionalSpecFns;

use crate::contract::bytes::bytes_eq;
use crate::contract::error::IngressReject;
use crate::contract::limits::{
    MAX_ATTESTATION_BYTES, MAX_AUTHORIZATION_BUNDLE_BYTES, MAX_CANONICAL_ORIGIN_BYTES,
    MAX_CAPABILITY_AUTHORIZATION_BYTES,
};
use crate::contract::request::RawIngressRequest;

verus! {

/// The parts of a URL that the origin rules read, as bytes.
pub struct UrlComponents {
    pub scheme: Seq<u8>,
    pub username: Seq<u8>,
    pub password: Option<Seq<u8>>,
    pub query: Option<Seq<u8>>,
    pub fragment: Option<Seq<u8>>,
    pub path: Seq<u8>,
}

/// The host of a parsed URL.
pub enum UrlHostView {
    Domain(Seq<u8>),
    Ipv4(Seq<u8>),
    Ipv6(Seq<u16>),
    Absent,
}

/// What `url::Url::parse` makes of `text`: its components, or `None` where it refuses the
/// text (or the text is not UTF-8).
pub uninterp spec fn url_components(text: Seq<u8>) -> Option<UrlComponents>;

/// What `url::Url::parse` makes of `text`: the ASCII serialization of its origin and its
/// host, or `None` where it refuses the text (or the text is not UTF-8).
pub uninterp spec fn url_origin(text: Seq<u8>) -> Option<(Seq<u8>, UrlHostView)>;

/// Parsed URL components, as owned bytes.
pub(crate) struct UrlParts {
    pub(crate) scheme: Vec<u8>,
    pub(crate) username: Vec<u8>,
    pub(crate) password: Option<Vec<u8>>,
    pub(crate) query: Option<Vec<u8>>,
    pub(crate) fragment: Option<Vec<u8>>,
    pub(crate) path: Vec<u8>,
}

/// The bytes an optional byte vector holds.
pub open spec fn opt_bytes(o: Option<Vec<u8>>) -> Option<Seq<u8>> {
    match o {
        Some(v) => Some(v@),
        None => None,
    }
}

impl UrlParts {
    /// The components these parts hold.
    pub(crate) open spec fn spec_parts(&self) -> UrlComponents {
        UrlComponents {
            scheme: self.scheme@,
            username: self.username@,
            password: opt_bytes(self.password),
            query: opt_bytes(self.query),
            fragment: opt_bytes(self.fragment),
            path: self.path@,
        }
    }
}

/// A parsed URL host, as owned values.
pub(crate) enum UrlHost {
    Domain(Vec<u8>),
    Ipv4([u8; 4]),
    Ipv6([u16; 8]),
    Absent,
}

impl UrlHost {
    /// The host this value holds.
    pub(crate) open spec fn spec_host(&self) -> UrlHostView {
        match self {
            UrlHost::Domain(d) => UrlHostView::Domain(d@),
            UrlHost::Ipv4(a) => UrlHostView::Ipv4(a@),
            UrlHost::Ipv6(s) => UrlHostView::Ipv6(s@),
            UrlHost::Absent => UrlHostView::Absent,
        }
    }
}

/// Parses `text` with `url::Url::parse` and reads its scheme, username, password, query,
/// fragment and path.
///
/// Trusted: the result is what the `url` crate's parser and accessors give for these bytes,
/// named `url_components`; the parse is a function of the text alone.
#[verifier::external_body]
fn parse_url_components(text: &[u8]) -> (r: Option<UrlParts>)
    ensures
        match r {
            Some(p) => url_components(text@) == Some(p.spec_parts()),
            None => url_components(text@) is None,
        },
{
    let url = url::Url::parse(std::str::from_utf8(text).ok()?).ok()?;
    Some(UrlParts {
        scheme: url.scheme().as_bytes().to_vec(),
        username: url.username().as_bytes().to_vec(),
        password: url.password().map(str::as_bytes).map(<[u8]>::to_vec),
        query: url.query().map(str::as_bytes).map(<[u8]>::to_vec),
        fragment: url.fragment().map(str::as_bytes).map(<[u8]>::to_vec),
        path: url.path().as_bytes().to_vec(),
    })
}

/// Parses `text` with `url::Url::parse` and reads the ASCII serialization of its origin
/// and its host.
///
/// Trusted: the result is what the `url` crate gives for these bytes, named `url_origin`;
/// the parse is a function of the text alone.
#[verifier::external_body]
fn parse_url_origin(text: &[u8]) -> (r: Option<(Vec<u8>, UrlHost)>)
    ensures
        match r {
            Some((serialized, host)) => url_origin(text@) == Some((serialized@, host.spec_host())),
            None => url_origin(text@) is None,
        },
{
    let url = url::Url::parse(std::str::from_utf8(text).ok()?).ok()?;
    let host = match url.host() {
        Some(url::Host::Domain(domain)) => UrlHost::Domain(domain.as_bytes().to_vec()),
        Some(url::Host::Ipv4(address)) => UrlHost::Ipv4(address.octets()),
        Some(url::Host::Ipv6(address)) => UrlHost::Ipv6(address.segments()),
        None => UrlHost::Absent,
    };
    Some((url.origin().ascii_serialization().into_bytes(), host))
}

/// Whether an origin byte is visible ASCII: no control byte, no space, nothing above 0x7e.
pub open spec fn origin_byte(b: u8) -> bool {
    33 <= b <= 126
}

/// Whether `host` is a loopback host: `localhost`, an address in 127.0.0.0/8 or `::1`.
pub open spec fn loopback_host(host: UrlHostView) -> bool {
    match host {
        UrlHostView::Domain(d) => d == "localhost".spec_bytes(),
        UrlHostView::Ipv4(a) => a.len() == 4 && a[0] == 127,
        UrlHostView::Ipv6(s) => s == seq![0u16, 0, 0, 0, 0, 0, 0, 1],
        UrlHostView::Absent => false,
    }
}

/// Whether `host` is a domain that ends with a dot.
pub open spec fn dotted_domain(host: UrlHostView) -> bool {
    match host {
        UrlHostView::Domain(d) => d.len() > 0 && d.last() == 46,
        _ => false,
    }
}

/// Whether `o` is an exact canonical origin: bounded visible ASCII that the URL parser reads
/// as an `https` origin, or an `http` origin on a loopback host, with no credentials, query,
/// fragment or path, whose serialization is `o` itself, on a host without a trailing dot.
pub open spec fn canonical_origin_ok(o: Seq<u8>) -> bool {
    &&& 0 < o.len() <= MAX_CANONICAL_ORIGIN_BYTES
    &&& forall|i: int| 0 <= i < o.len() ==> origin_byte(#[trigger] o[i])
    &&& url_components(o) is Some
    &&& url_origin(o) is Some
    &&& {
        let c = url_components(o).unwrap();
        let (serialized, host) = url_origin(o).unwrap();
        &&& (c.scheme == "https".spec_bytes() || c.scheme == "http".spec_bytes())
        &&& c.username.len() == 0
        &&& c.password is None
        &&& c.query is None
        &&& c.fragment is None
        &&& c.path == "/".spec_bytes()
        &&& serialized == o
        &&& !dotted_domain(host)
        &&& (c.scheme == "http".spec_bytes() ==> loopback_host(host))
    }
}

fn is_loopback(host: &UrlHost) -> (r: bool)
    ensures
        r == loopback_host(host.spec_host()),
{
    match host {
        UrlHost::Domain(d) => bytes_eq(d.as_slice(), "localhost".as_bytes()),
        UrlHost::Ipv4(a) => a[0] == 127,
        UrlHost::Ipv6(s) => {
            let r = s[0] == 0 && s[1] == 0 && s[2] == 0 && s[3] == 0 && s[4] == 0 && s[5] == 0 && s[6] == 0
                && s[7] == 1;
            proof {
                if r {
                    assert(s@ =~= seq![0u16, 0, 0, 0, 0, 0, 0, 1]);
                }
            }
            r
        },
        UrlHost::Absent => false,
    }
}

fn is_dotted_domain(host: &UrlHost) -> (r: bool)
    ensures
        r == dotted_domain(host.spec_host()),
{
    match host {
        UrlHost::Domain(d) => d.len() > 0 && d[d.len() - 1] == 46,
        _ => false,
    }
}

fn validate_canonical_origin(origin: &[u8]) -> (r: Result<(), IngressReject>)
    ensures
        r is Ok <==> canonical_origin_ok(origin@),
        r is Err ==> r == Err::<(), IngressReject>(IngressReject::CapabilityConstraintMismatch),
{
    let error = IngressReject::CapabilityConstraintMismatch;
    if origin.len() == 0 || origin.len() > MAX_CANONICAL_ORIGIN_BYTES {
        return Err(error);
    }
    let mut i: usize = 0;
    while i < origin.len()
        invariant
            0 <= i <= origin@.len(),
            forall|k: int| 0 <= k < i ==> origin_byte(#[trigger] origin@[k]),
        decreases origin@.len() - i,
    {
        if origin[i] < 33 || origin[i] > 126 {
            return Err(IngressReject::CapabilityConstraintMismatch);
        }
        i += 1;
    }
    let parts = match parse_url_components(origin) {
        Some(p) => p,
        None => {
            return Err(error);
        },
    };
    let https = bytes_eq(parts.scheme.as_slice(), "https".as_bytes());
    let http = bytes_eq(parts.scheme.as_slice(), "http".as_bytes());
    if !(https || http) || parts.username.len() != 0 || parts.password.is_some() || parts.query.is_some()
        || parts.fragment.is_some() || !bytes_eq(parts.path.as_slice(), "/".as_bytes()) {
        return Err(error);
    }
    let (serialized, host) = match parse_url_origin(origin) {
        Some(o) => o,
        None => {
            return Err(error);
        },
    };
    if !bytes_eq(serialized.as_slice(), origin) || is_dotted_domain(&host) {
        return Err(error);
    }
    if http && !is_loopback(&host) {
        return Err(error);
    }
    Ok(())
}

/// A strictly checked canonical origin.
///
/// An origin may reveal the user's sites: it has no `Debug` and no `Display`.
#[derive(PartialEq, Eq, PartialOrd, Ord)]
pub struct CanonicalOrigin(Vec<u8>);

impl Clone for CanonicalOrigin {
    fn clone(&self) -> (r: Self)
        ensures
            r.bytes() == self.bytes(),
    {
        proof {
            use_type_invariant(self);
        }
        CanonicalOrigin(self.0.clone())
    }
}

impl CanonicalOrigin {
    #[verifier::type_invariant]
    closed spec fn inv(self) -> bool {
        canonical_origin_ok(self.0@)
    }

    /// The origin bytes.
    pub closed spec fn bytes(&self) -> Seq<u8> {
        self.0@
    }

    /// Builds an exact origin: `https` on any public host, `http` on a loopback host only.
    pub fn try_new(origin: &[u8]) -> (r: Result<Self, IngressReject>)
        ensures
            r is Ok <==> canonical_origin_ok(origin@),
            r is Err ==> r == Err::<Self, IngressReject>(IngressReject::CapabilityConstraintMismatch),
            r matches Ok(o) ==> o.bytes() == origin@,
    {
        validate_canonical_origin(origin)?;
        let mut bytes: Vec<u8> = Vec::new();
        let mut i: usize = 0;
        while i < origin.len()
            invariant
                0 <= i <= origin@.len(),
                bytes@ == origin@.take(i as int),
            decreases origin@.len() - i,
        {
            bytes.push(origin[i]);
            i += 1;
            proof {
                assert(bytes@ =~= origin@.take(i as int));
            }
        }
        assert(bytes@ =~= origin@);
        Ok(CanonicalOrigin(bytes))
    }

    /// Returns the canonical origin bytes.
    pub fn as_bytes(&self) -> (r: &[u8])
        ensures
            r@ == self.bytes(),
            canonical_origin_ok(r@),
    {
        proof {
            use_type_invariant(self);
        }
        self.0.as_slice()
    }
}

/// The untrusted wire container of a managed signed request.
///
/// The proof and the authorization bundle are taken out of the raw wire and handed in on
/// their own; a header of the same name mixed into the raw request is refused.
pub struct SignedIngressRequest {
    pub(crate) request: RawIngressRequest,
    pub(crate) encoded_attestation: Vec<u8>,
    pub(crate) encoded_authorization_bundle: Vec<u8>,
}

impl SignedIngressRequest {
    /// The request.
    pub closed spec fn spec_request(&self) -> RawIngressRequest {
        self.request
    }

    /// The encoded attestation.
    pub closed spec fn spec_attestation(&self) -> Seq<u8> {
        self.encoded_attestation@
    }

    /// The encoded authorization bundle.
    pub closed spec fn spec_bundle(&self) -> Seq<u8> {
        self.encoded_authorization_bundle@
    }

    /// Builds the bounded container; cryptographic and semantic checks happen only in the
    /// managed verifier.
    pub fn try_new(request: RawIngressRequest, encoded_attestation: Vec<u8>, encoded_authorization_bundle: Vec<u8>) -> (r:
        Result<Self, IngressReject>)
        ensures
            (0 < encoded_attestation@.len() <= MAX_ATTESTATION_BYTES && 0 < encoded_authorization_bundle@.len()
                <= MAX_AUTHORIZATION_BUNDLE_BYTES) <==> r is Ok,
            r is Err ==> r == Err::<Self, IngressReject>(IngressReject::RequestTooLarge),
            r matches Ok(s) ==> s.spec_request() == request && s.spec_attestation() == encoded_attestation@
                && s.spec_bundle() == encoded_authorization_bundle@,
    {
        if encoded_attestation.len() == 0 || encoded_attestation.len() > MAX_ATTESTATION_BYTES
            || encoded_authorization_bundle.len() == 0 || encoded_authorization_bundle.len()
            > MAX_AUTHORIZATION_BUNDLE_BYTES {
            return Err(IngressReject::RequestTooLarge);
        }
        Ok(SignedIngressRequest { request, encoded_attestation, encoded_authorization_bundle })
    }
}

impl SignedIngressRequest {
    /// Splits the container into the request, the attestation wire and the bundle wire.
    pub(crate) fn into_parts(self) -> (r: (RawIngressRequest, Vec<u8>, Vec<u8>))
        ensures
            r.0 == self.spec_request(),
            r.1@ == self.spec_attestation(),
            r.2@ == self.spec_bundle(),
    {
        (self.request, self.encoded_attestation, self.encoded_authorization_bundle)
    }
}

/// The bounded, untrusted wire of a capability-scoped authorization.
pub struct EncodedCapabilityAuthorization(Vec<u8>);

impl EncodedCapabilityAuthorization {
    /// The wire bytes.
    pub closed spec fn bytes(&self) -> Seq<u8> {
        self.0@
    }

    /// Builds the bounded wire; the MAC and the field bindings are checked only by the
    /// capability verifier.
    pub fn try_new(bytes: Vec<u8>) -> (r: Result<Self, IngressReject>)
        ensures
            (0 < bytes@.len() <= MAX_CAPABILITY_AUTHORIZATION_BYTES) <==> r is Ok,
            r is Err ==> r == Err::<Self, IngressReject>(IngressReject::RequestTooLarge),
            r matches Ok(e) ==> e.bytes() == bytes@,
    {
        if bytes.len() == 0 || bytes.len() > MAX_CAPABILITY_AUTHORIZATION_BYTES {
            return Err(IngressReject::RequestTooLarge);
        }
        Ok(EncodedCapabilityAuthorization(bytes))
    }

    /// Borrows the wire bytes.
    pub(crate) fn as_bytes(&self) -> (r: &[u8])
        ensures
            r@ == self.bytes(),
    {
        self.0.as_slice()
    }
}

} // verus!
