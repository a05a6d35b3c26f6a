//! Domain identifiers, revisions and digests that are never logged.
use vstd::prelude::*;

use crate::contract::error::IngressReject;

verus! {

/// A stable registered inbound operation identifier.
#[derive(Clone, Copy, Debug, PartialEq, Eq, Structural, Hash, PartialOrd, Ord)]
pub struct OperationId(u64);

impl OperationId {
    /// Two identifiers with the same value are the same identifier.
    pub proof fn lemma_value_injective(a: OperationId, b: OperationId)
        ensures
            a.value() == b.value() ==> a == b,
    {
    }

    /// Builds the identifier from a value the host has already checked.
    pub fn new(value: u64) -> (r: Self)
        ensures
            r.value() == value,
    {
        OperationId(value)
    }

    /// Returns the non-sensitive numeric identifier.
    pub fn get(self) -> (r: u64)
        ensures
            r == self.value(),
    {
        self.0
    }

    /// The numeric value of the identifier.
    pub closed spec fn value(self) -> u64 {
        self.0
    }
}

/// A stable listener instance identifier.
#[derive(Clone, Copy, Debug, PartialEq, Eq, Structural, Hash, PartialOrd, Ord)]
pub struct ListenerId(u64);

impl ListenerId {
    /// Builds the identifier from a value the host has already checked.
    pub fn new(value: u64) -> (r: Self)
        ensures
            r.value() == value,
    {
        ListenerId(value)
    }

    /// Returns the non-sensitive numeric identifier.
    pub fn get(self) -> (r: u64)
        ensures
            r == self.value(),
    {
        self.0
    }

    /// The numeric value of the identifier.
    pub closed spec fn value(self) -> u64 {
        self.0
    }
}

/// A stable inbound token scope identifier.
#[derive(Clone, Copy, Debug, PartialEq, Eq, Structural, Hash, PartialOrd, Ord)]
pub struct IngressTokenScopeId(u64);

impl IngressTokenScopeId {
    /// Builds the identifier from a value the host has already checked.
    pub fn new(value: u64) -> (r: Self)
        ensures
            r.value() == value,
    {
        IngressTokenScopeId(value)
    }

    /// Returns the non-sensitive numeric identifier.
    pub fn get(self) -> (r: u64)
        ensures
            r == self.value(),
    {
        self.0
    }

    /// The numeric value of the identifier.
    pub closed spec fn value(self) -> u64 {
        self.0
    }
}

/// A stable proof audience identifier.
#[derive(Clone, Copy, Debug, PartialEq, Eq, Structural, Hash, PartialOrd, Ord)]
pub struct AudienceId(u64);

impl AudienceId {
    /// Builds the identifier from a value the host has already checked.
    pub fn new(value: u64) -> (r: Self)
        ensures
            r.value() == value,
    {
        AudienceId(value)
    }

    /// Returns the non-sensitive numeric identifier.
    pub fn get(self) -> (r: u64)
        ensures
            r == self.value(),
    {
        self.0
    }

    /// The numeric value of the identifier.
    pub closed spec fn value(self) -> u64 {
        self.0
    }
}

/// A proof issuing epoch of the process lifetime.
#[derive(Clone, Copy, Debug, PartialEq, Eq, Structural, Hash, PartialOrd, Ord)]
pub struct IssuerEpoch(u64);

impl IssuerEpoch {
    /// Builds the identifier from a value the host has already checked.
    pub fn new(value: u64) -> (r: Self)
        ensures
            r.value() == value,
    {
        IssuerEpoch(value)
    }

    /// Returns the non-sensitive numeric identifier.
    pub fn get(self) -> (r: u64)
        ensures
            r == self.value(),
    {
        self.0
    }

    /// The numeric value of the identifier.
    pub closed spec fn value(self) -> u64 {
        self.0
    }
}

/// A route policy snapshot revision.
#[derive(Clone, Copy, Debug, PartialEq, Eq, Structural, Hash, PartialOrd, Ord)]
pub struct RoutePolicyRevision(u64);

impl RoutePolicyRevision {
    /// Builds the identifier from a value the host has already checked.
    pub fn new(value: u64) -> (r: Self)
        ensures
            r.value() == value,
    {
        RoutePolicyRevision(value)
    }

    /// Returns the non-sensitive numeric identifier.
    pub fn get(self) -> (r: u64)
        ensures
            r == self.value(),
    {
        self.0
    }

    /// The numeric value of the identifier.
    pub closed spec fn value(self) -> u64 {
        self.0
    }
}

/// A local user consent revision.
#[derive(Clone, Copy, Debug, PartialEq, Eq, Structural, Hash, PartialOrd, Ord)]
pub struct ConsentRevision(u64);

impl ConsentRevision {
    /// Builds the identifier from a value the host has already checked.
    pub fn new(value: u64) -> (r: Self)
        ensures
            r.value() == value,
    {
        ConsentRevision(value)
    }

    /// Returns the non-sensitive numeric identifier.
    pub fn get(self) -> (r: u64)
        ensures
            r == self.value(),
    {
        self.0
    }

    /// The numeric value of the identifier.
    pub closed spec fn value(self) -> u64 {
        self.0
    }
}

/// A managed client family identifier.
#[derive(Clone, Copy, Debug, PartialEq, Eq, Structural, Hash, PartialOrd, Ord)]
pub struct ClientFamilyId(u64);

impl ClientFamilyId {
    /// Builds the identifier from a value the host has already checked.
    pub fn new(value: u64) -> (r: Self)
        ensures
            r.value() == value,
    {
        ClientFamilyId(value)
    }

    /// Returns the non-sensitive numeric identifier.
    pub fn get(self) -> (r: u64)
        ensures
            r == self.value(),
    {
        self.0
    }

    /// The numeric value of the identifier.
    pub closed spec fn value(self) -> u64 {
        self.0
    }
}

/// A managed client version identifier.
#[derive(Clone, Copy, Debug, PartialEq, Eq, Structural, Hash, PartialOrd, Ord)]
pub struct ClientVersion(u64);

impl ClientVersion {
    /// Builds the identifier from a value the host has already checked.
    pub fn new(value: u64) -> (r: Self)
        ensures
            r.value() == value,
    {
        ClientVersion(value)
    }

    /// Returns the non-sensitive numeric identifier.
    pub fn get(self) -> (r: u64)
        ensures
            r == self.value(),
    {
        self.0
    }

    /// The numeric value of the identifier.
    pub closed spec fn value(self) -> u64 {
        self.0
    }
}

/// A client adapter version identifier.
#[derive(Clone, Copy, Debug, PartialEq, Eq, Structural, Hash, PartialOrd, Ord)]
pub struct AdapterVersion(u64);

impl AdapterVersion {
    /// Builds the identifier from a value the host has already checked.
    pub fn new(value: u64) -> (r: Self)
        ensures
            r.value() == value,
    {
        AdapterVersion(value)
    }

    /// Returns the non-sensitive numeric identifier.
    pub fn get(self) -> (r: u64)
        ensures
            r == self.value(),
    {
        self.0
    }

    /// The numeric value of the identifier.
    pub closed spec fn value(self) -> u64 {
        self.0
    }
}

/// An inbound schema version identifier.
#[derive(Clone, Copy, Debug, PartialEq, Eq, Structural, Hash, PartialOrd, Ord)]
pub struct IngressSchemaVersion(u64);

impl IngressSchemaVersion {
    /// Builds the identifier from a value the host has already checked.
    pub fn new(value: u64) -> (r: Self)
        ensures
            r.value() == value,
    {
        IngressSchemaVersion(value)
    }

    /// Returns the non-sensitive numeric identifier.
    pub fn get(self) -> (r: u64)
        ensures
            r == self.value(),
    {
        self.0
    }

    /// The numeric value of the identifier.
    pub closed spec fn value(self) -> u64 {
        self.0
    }
}

/// A context policy version identifier.
#[derive(Clone, Copy, Debug, PartialEq, Eq, Structural, Hash, PartialOrd, Ord)]
pub struct ContextPolicyVersion(u64);

impl ContextPolicyVersion {
    /// Builds the identifier from a value the host has already checked.
    pub fn new(value: u64) -> (r: Self)
        ensures
            r.value() == value,
    {
        ContextPolicyVersion(value)
    }

    /// Returns the non-sensitive numeric identifier.
    pub fn get(self) -> (r: u64)
        ensures
            r == self.value(),
    {
        self.0
    }

    /// The numeric value of the identifier.
    pub closed spec fn value(self) -> u64 {
        self.0
    }
}

/// A lossy transform owner identifier.
#[derive(Clone, Copy, Debug, PartialEq, Eq, Structural, Hash, PartialOrd, Ord)]
pub struct TransformOwnerId(u64);

impl TransformOwnerId {
    /// Builds the identifier from a value the host has already checked.
    pub fn new(value: u64) -> (r: Self)
        ensures
            r.value() == value,
    {
        TransformOwnerId(value)
    }

    /// Returns the non-sensitive numeric identifier.
    pub fn get(self) -> (r: u64)
        ensures
            r == self.value(),
    {
        self.0
    }

    /// The numeric value of the identifier.
    pub closed spec fn value(self) -> u64 {
        self.0
    }
}

/// A lossy transform owner version.
#[derive(Clone, Copy, Debug, PartialEq, Eq, Structural, Hash, PartialOrd, Ord)]
pub struct TransformOwnerVersion(u64);

impl TransformOwnerVersion {
    /// Builds the identifier from a value the host has already checked.
    pub fn new(value: u64) -> (r: Self)
        ensures
            r.value() == value,
    {
        TransformOwnerVersion(value)
    }

    /// Returns the non-sensitive numeric identifier.
    pub fn get(self) -> (r: u64)
        ensures
            r == self.value(),
    {
        self.0
    }

    /// The numeric value of the identifier.
    pub closed spec fn value(self) -> u64 {
        self.0
    }
}

/// A logical site identifier.
#[derive(Clone, Copy, Debug, PartialEq, Eq, Structural, Hash, PartialOrd, Ord)]
pub struct SiteId(u64);

impl SiteId {
    /// Builds the identifier from a value the host has already checked.
    pub fn new(value: u64) -> (r: Self)
        ensures
            r.value() == value,
    {
        SiteId(value)
    }

    /// Returns the non-sensitive numeric identifier.
    pub fn get(self) -> (r: u64)
        ensures
            r == self.value(),
    {
        self.0
    }

    /// The numeric value of the identifier.
    pub closed spec fn value(self) -> u64 {
        self.0
    }
}

/// A logical model deployment identifier.
#[derive(Clone, Copy, Debug, PartialEq, Eq, Structural, Hash, PartialOrd, Ord)]
pub struct ModelDeploymentId(u64);

impl ModelDeploymentId {
    /// Builds the identifier from a value the host has already checked.
    pub fn new(value: u64) -> (r: Self)
        ensures
            r.value() == value,
    {
        ModelDeploymentId(value)
    }

    /// Returns the non-sensitive numeric identifier.
    pub fn get(self) -> (r: u64)
        ensures
            r == self.value(),
    {
        self.0
    }

    /// The numeric value of the identifier.
    pub closed spec fn value(self) -> u64 {
        self.0
    }
}

/// A logical endpoint identifier.
#[derive(Clone, Copy, Debug, PartialEq, Eq, Structural, Hash, PartialOrd, Ord)]
pub struct EndpointId(u64);

impl EndpointId {
    /// Builds the identifier from a value the host has already checked.
    pub fn new(value: u64) -> (r: Self)
        ensures
            r.value() == value,
    {
        EndpointId(value)
    }

    /// Returns the non-sensitive numeric identifier.
    pub fn get(self) -> (r: u64)
        ensures
            r == self.value(),
    {
        self.0
    }

    /// The numeric value of the identifier.
    pub closed spec fn value(self) -> u64 {
        self.0
    }
}

/// A logical account selector identifier.
#[derive(Clone, Copy, Debug, PartialEq, Eq, Structural, Hash, PartialOrd, Ord)]
pub struct AccountSelectorId(u64);

impl AccountSelectorId {
    /// Builds the identifier from a value the host has already checked.
    pub fn new(value: u64) -> (r: Self)
        ensures
            r.value() == value,
    {
        AccountSelectorId(value)
    }

    /// Returns the non-sensitive numeric identifier.
    pub fn get(self) -> (r: u64)
        ensures
            r == self.value(),
    {
        self.0
    }

    /// The numeric value of the identifier.
    pub closed spec fn value(self) -> u64 {
        self.0
    }
}

/// A logical site account identifier.
#[derive(Clone, Copy, Debug, PartialEq, Eq, Structural, Hash, PartialOrd, Ord)]
pub struct AccountId(u64);

impl AccountId {
    /// Builds the identifier from a value the host has already checked.
    pub fn new(value: u64) -> (r: Self)
        ensures
            r.value() == value,
    {
        AccountId(value)
    }

    /// Returns the non-sensitive numeric identifier.
    pub fn get(self) -> (r: u64)
        ensures
            r == self.value(),
    {
        self.0
    }

    /// The numeric value of the identifier.
    pub closed spec fn value(self) -> u64 {
        self.0
    }
}

/// A logical credential identifier; it holds no secret.
#[derive(Clone, Copy, Debug, PartialEq, Eq, Structural, Hash, PartialOrd, Ord)]
pub struct CredentialId(u64);

impl CredentialId {
    /// Builds the identifier from a value the host has already checked.
    pub fn new(value: u64) -> (r: Self)
        ensures
            r.value() == value,
    {
        CredentialId(value)
    }

    /// Returns the non-sensitive numeric identifier.
    pub fn get(self) -> (r: u64)
        ensures
            r == self.value(),
    {
        self.0
    }

    /// The numeric value of the identifier.
    pub closed spec fn value(self) -> u64 {
        self.0
    }
}

/// An upstream adapter contract revision.
#[derive(Clone, Copy, Debug, PartialEq, Eq, Structural, Hash, PartialOrd, Ord)]
pub struct AdapterContractRevision(u64);

impl AdapterContractRevision {
    /// Builds the identifier from a value the host has already checked.
    pub fn new(value: u64) -> (r: Self)
        ensures
            r.value() == value,
    {
        AdapterContractRevision(value)
    }

    /// Returns the non-sensitive numeric identifier.
    pub fn get(self) -> (r: u64)
        ensures
            r == self.value(),
    {
        self.0
    }

    /// The numeric value of the identifier.
    pub closed spec fn value(self) -> u64 {
        self.0
    }
}

/// A management capability scope identifier.
#[derive(Clone, Copy, Debug, PartialEq, Eq, Structural, Hash, PartialOrd, Ord)]
pub struct CapabilityManagementScopeId(u64);

impl CapabilityManagementScopeId {
    /// Builds the identifier from a value the host has already checked.
    pub fn new(value: u64) -> (r: Self)
        ensures
            r.value() == value,
    {
        CapabilityManagementScopeId(value)
    }

    /// Returns the non-sensitive numeric identifier.
    pub fn get(self) -> (r: u64)
        ensures
            r == self.value(),
    {
        self.0
    }

    /// The numeric value of the identifier.
    pub closed spec fn value(self) -> u64 {
        self.0
    }
}

/// A protocol frame schema revision.
#[derive(Clone, Copy, Debug, PartialEq, Eq, Structural, Hash, PartialOrd, Ord)]
pub struct ProtocolFrameRevision(u64);

impl ProtocolFrameRevision {
    /// Builds the identifier from a value the host has already checked.
    pub fn new(value: u64) -> (r: Self)
        ensures
            r.value() == value,
    {
        ProtocolFrameRevision(value)
    }

    /// Returns the non-sensitive numeric identifier.
    pub fn get(self) -> (r: u64)
        ensures
            r == self.value(),
    {
        self.0
    }

    /// The numeric value of the identifier.
    pub closed spec fn value(self) -> u64 {
        self.0
    }
}

/// A tool schema revision.
#[derive(Clone, Copy, Debug, PartialEq, Eq, Structural, Hash, PartialOrd, Ord)]
pub struct ToolSchemaRevision(u64);

impl ToolSchemaRevision {
    /// Builds the identifier from a value the host has already checked.
    pub fn new(value: u64) -> (r: Self)
        ensures
            r.value() == value,
    {
        ToolSchemaRevision(value)
    }

    /// Returns the non-sensitive numeric identifier.
    pub fn get(self) -> (r: u64)
        ensures
            r == self.value(),
    {
        self.0
    }

    /// The numeric value of the identifier.
    pub closed spec fn value(self) -> u64 {
        self.0
    }
}

/// A retrieval schema revision.
#[derive(Clone, Copy, Debug, PartialEq, Eq, Structural, Hash, PartialOrd, Ord)]
pub struct RetrievalSchemaRevision(u64);

impl RetrievalSchemaRevision {
    /// Builds the identifier from a value the host has already checked.
    pub fn new(value: u64) -> (r: Self)
        ensures
            r.value() == value,
    {
        RetrievalSchemaRevision(value)
    }

    /// Returns the non-sensitive numeric identifier.
    pub fn get(self) -> (r: u64)
        ensures
            r == self.value(),
    {
        self.0
    }

    /// The numeric value of the identifier.
    pub closed spec fn value(self) -> u64 {
        self.0
    }
}

/// A local retrieval handle epoch.
#[derive(Clone, Copy, Debug, PartialEq, Eq, Structural, Hash, PartialOrd, Ord)]
pub struct HandleEpoch(u64);

impl HandleEpoch {
    /// Builds the identifier from a value the host has already checked.
    pub fn new(value: u64) -> (r: Self)
        ensures
            r.value() == value,
    {
        HandleEpoch(value)
    }

    /// Returns the non-sensitive numeric identifier.
    pub fn get(self) -> (r: u64)
        ensures
            r == self.value(),
    {
        self.0
    }

    /// The numeric value of the identifier.
    pub closed spec fn value(self) -> u64 {
        self.0
    }
}

/// The versioned digest of the route specification registry.
#[derive(Clone, Copy, PartialEq, Eq, Hash)]
pub struct RegistryDigest([u8; 32]);

impl RegistryDigest {
    /// The bytes are exactly 32 long.
    pub proof fn lemma_bytes_len(&self)
        ensures
            self.bytes().len() == 32,
    {
    }

    /// Whether two values hold the same bytes.
    pub(crate) fn same(&self, other: &Self) -> (r: bool)
        ensures
            r == (*self == *other),
    {
        let mut i: usize = 0;
        while i < 32
            invariant
                0 <= i <= 32,
                forall|k: int| 0 <= k < i ==> self.0@[k] == other.0@[k],
            decreases 32 - i,
        {
            if self.0[i] != other.0[i] {
                return false;
            }
            i += 1;
        }
        proof {
            assert(self.0@ =~= other.0@);
            vstd::array::axiom_array_ext_equal(self.0, other.0);
        }
        true
    }

    /// Builds the digest from its fixed-length bytes; this alone builds no verified type.
    pub fn from_bytes(bytes: [u8; 32]) -> (r: Self)
        ensures
            r.bytes() == bytes@,
    {
        RegistryDigest(bytes)
    }

    /// Borrows the digest bytes; they must not go to an ordinary log or telemetry.
    pub fn as_bytes(&self) -> (r: &[u8; 32])
        ensures
            r@ == self.bytes(),
    {
        &self.0
    }

    /// The digest bytes.
    pub closed spec fn bytes(&self) -> Seq<u8> {
        self.0@
    }
}

/// The domain-separated digest of the raw inbound request.
#[derive(Clone, Copy, PartialEq, Eq, Hash)]
pub struct RequestDigest([u8; 32]);

impl RequestDigest {
    /// The bytes are exactly 32 long.
    pub proof fn lemma_bytes_len(&self)
        ensures
            self.bytes().len() == 32,
    {
    }

    /// Whether two values hold the same bytes.
    pub(crate) fn same(&self, other: &Self) -> (r: bool)
        ensures
            r == (*self == *other),
    {
        let mut i: usize = 0;
        while i < 32
            invariant
                0 <= i <= 32,
                forall|k: int| 0 <= k < i ==> self.0@[k] == other.0@[k],
            decreases 32 - i,
        {
            if self.0[i] != other.0[i] {
                return false;
            }
            i += 1;
        }
        proof {
            assert(self.0@ =~= other.0@);
            vstd::array::axiom_array_ext_equal(self.0, other.0);
        }
        true
    }

    /// Builds the digest from its fixed-length bytes; this alone builds no verified type.
    pub fn from_bytes(bytes: [u8; 32]) -> (r: Self)
        ensures
            r.bytes() == bytes@,
    {
        RequestDigest(bytes)
    }

    /// Borrows the digest bytes; they must not go to an ordinary log or telemetry.
    pub fn as_bytes(&self) -> (r: &[u8; 32])
        ensures
            r@ == self.bytes(),
    {
        &self.0
    }

    /// The digest bytes.
    pub closed spec fn bytes(&self) -> Seq<u8> {
        self.0@
    }
}

/// The domain-separated byte-for-byte digest of the raw body.
#[derive(Clone, Copy, PartialEq, Eq, Hash)]
pub struct BodyDigest([u8; 32]);

impl BodyDigest {
    /// The bytes are exactly 32 long.
    pub proof fn lemma_bytes_len(&self)
        ensures
            self.bytes().len() == 32,
    {
    }

    /// Whether two values hold the same bytes.
    pub(crate) fn same(&self, other: &Self) -> (r: bool)
        ensures
            r == (*self == *other),
    {
        let mut i: usize = 0;
        while i < 32
            invariant
                0 <= i <= 32,
                forall|k: int| 0 <= k < i ==> self.0@[k] == other.0@[k],
            decreases 32 - i,
        {
            if self.0[i] != other.0[i] {
                return false;
            }
            i += 1;
        }
        proof {
            assert(self.0@ =~= other.0@);
            vstd::array::axiom_array_ext_equal(self.0, other.0);
        }
        true
    }

    /// Builds the digest from its fixed-length bytes; this alone builds no verified type.
    pub fn from_bytes(bytes: [u8; 32]) -> (r: Self)
        ensures
            r.bytes() == bytes@,
    {
        BodyDigest(bytes)
    }

    /// Borrows the digest bytes; they must not go to an ordinary log or telemetry.
    pub fn as_bytes(&self) -> (r: &[u8; 32])
        ensures
            r@ == self.bytes(),
    {
        &self.0
    }

    /// The digest bytes.
    pub closed spec fn bytes(&self) -> Seq<u8> {
        self.0@
    }
}

/// The ordered digest of the admitted semantic headers.
#[derive(Clone, Copy, PartialEq, Eq, Hash)]
pub struct SemanticHeadersDigest([u8; 32]);

impl SemanticHeadersDigest {
    /// The bytes are exactly 32 long.
    pub proof fn lemma_bytes_len(&self)
        ensures
            self.bytes().len() == 32,
    {
    }

    /// Whether two values hold the same bytes.
    pub(crate) fn same(&self, other: &Self) -> (r: bool)
        ensures
            r == (*self == *other),
    {
        let mut i: usize = 0;
        while i < 32
            invariant
                0 <= i <= 32,
                forall|k: int| 0 <= k < i ==> self.0@[k] == other.0@[k],
            decreases 32 - i,
        {
            if self.0[i] != other.0[i] {
                return false;
            }
            i += 1;
        }
        proof {
            assert(self.0@ =~= other.0@);
            vstd::array::axiom_array_ext_equal(self.0, other.0);
        }
        true
    }

    /// Builds the digest from its fixed-length bytes; this alone builds no verified type.
    pub fn from_bytes(bytes: [u8; 32]) -> (r: Self)
        ensures
            r.bytes() == bytes@,
    {
        SemanticHeadersDigest(bytes)
    }

    /// Borrows the digest bytes; they must not go to an ordinary log or telemetry.
    pub fn as_bytes(&self) -> (r: &[u8; 32])
        ensures
            r@ == self.bytes(),
    {
        &self.0
    }

    /// The digest bytes.
    pub closed spec fn bytes(&self) -> Seq<u8> {
        self.0@
    }
}

/// The domain-separated digest of the context envelope.
#[derive(Clone, Copy, PartialEq, Eq, Hash)]
pub struct EnvelopeDigest([u8; 32]);

impl EnvelopeDigest {
    /// The bytes are exactly 32 long.
    pub proof fn lemma_bytes_len(&self)
        ensures
            self.bytes().len() == 32,
    {
    }

    /// Whether two values hold the same bytes.
    pub(crate) fn same(&self, other: &Self) -> (r: bool)
        ensures
            r == (*self == *other),
    {
        let mut i: usize = 0;
        while i < 32
            invariant
                0 <= i <= 32,
                forall|k: int| 0 <= k < i ==> self.0@[k] == other.0@[k],
            decreases 32 - i,
        {
            if self.0[i] != other.0[i] {
                return false;
            }
            i += 1;
        }
        proof {
            assert(self.0@ =~= other.0@);
            vstd::array::axiom_array_ext_equal(self.0, other.0);
        }
        true
    }

    /// Builds the digest from its fixed-length bytes; this alone builds no verified type.
    pub fn from_bytes(bytes: [u8; 32]) -> (r: Self)
        ensures
            r.bytes() == bytes@,
    {
        EnvelopeDigest(bytes)
    }

    /// Borrows the digest bytes; they must not go to an ordinary log or telemetry.
    pub fn as_bytes(&self) -> (r: &[u8; 32])
        ensures
            r@ == self.bytes(),
    {
        &self.0
    }

    /// The digest bytes.
    pub closed spec fn bytes(&self) -> Seq<u8> {
        self.0@
    }
}

/// The domain-separated digest of the whole authorization bundle.
#[derive(Clone, Copy, PartialEq, Eq, Hash)]
pub struct AuthorizationBundleDigest([u8; 32]);

impl AuthorizationBundleDigest {
    /// The bytes are exactly 32 long.
    pub proof fn lemma_bytes_len(&self)
        ensures
            self.bytes().len() == 32,
    {
    }

    /// Two digests with the same bytes are the same digest.
    pub proof fn lemma_bytes_injective(&self, other: &Self)
        requires
            self.bytes() == other.bytes(),
        ensures
            *self == *other,
    {
        assert(self.0@ =~= other.0@);
        vstd::array::axiom_array_ext_equal(self.0, other.0);
    }

    /// Whether two values hold the same bytes.
    pub(crate) fn same(&self, other: &Self) -> (r: bool)
        ensures
            r == (*self == *other),
    {
        let mut i: usize = 0;
        while i < 32
            invariant
                0 <= i <= 32,
                forall|k: int| 0 <= k < i ==> self.0@[k] == other.0@[k],
            decreases 32 - i,
        {
            if self.0[i] != other.0[i] {
                return false;
            }
            i += 1;
        }
        proof {
            assert(self.0@ =~= other.0@);
            vstd::array::axiom_array_ext_equal(self.0, other.0);
        }
        true
    }

    /// Builds the digest from its fixed-length bytes; this alone builds no verified type.
    pub fn from_bytes(bytes: [u8; 32]) -> (r: Self)
        ensures
            r.bytes() == bytes@,
    {
        AuthorizationBundleDigest(bytes)
    }

    /// Borrows the digest bytes; they must not go to an ordinary log or telemetry.
    pub fn as_bytes(&self) -> (r: &[u8; 32])
        ensures
            r@ == self.bytes(),
    {
        &self.0
    }

    /// The digest bytes.
    pub closed spec fn bytes(&self) -> Seq<u8> {
        self.0@
    }
}

/// A 128-bit one-shot nonce; the all-zero value is always refused.
#[derive(Clone, Copy, PartialEq, Eq, Hash)]
pub struct OneShotNonce([u8; 16]);

impl OneShotNonce {
    /// The bytes are exactly 16 long.
    pub proof fn lemma_bytes_len(&self)
        ensures
            self.bytes().len() == 16,
    {
    }

    /// Whether two values hold the same bytes.
    pub(crate) fn same(&self, other: &Self) -> (r: bool)
        ensures
            r == (*self == *other),
    {
        let mut i: usize = 0;
        while i < 16
            invariant
                0 <= i <= 16,
                forall|k: int| 0 <= k < i ==> self.0@[k] == other.0@[k],
            decreases 16 - i,
        {
            if self.0[i] != other.0[i] {
                return false;
            }
            i += 1;
        }
        proof {
            assert(self.0@ =~= other.0@);
            vstd::array::axiom_array_ext_equal(self.0, other.0);
        }
        true
    }

    /// Builds a one-shot nonce, refusing the all-zero value.
    pub fn from_bytes(bytes: [u8; 16]) -> (r: Result<Self, IngressReject>)
        ensures
            (forall|i: int| 0 <= i < 16 ==> bytes@[i] == 0) <==> r is Err,
            r is Err ==> r == Err::<Self, IngressReject>(IngressReject::InvalidNonce),
            r matches Ok(n) ==> n.bytes() == bytes@,
    {
        let mut i: usize = 0;
        while i < 16
            invariant
                0 <= i <= 16,
                forall|k: int| 0 <= k < i ==> bytes@[k] == 0,
            decreases 16 - i,
        {
            if bytes[i] != 0 {
                return Ok(OneShotNonce(bytes));
            }
            i += 1;
        }
        Err(IngressReject::InvalidNonce)
    }

    /// Borrows the nonce bytes.
    pub fn as_bytes(&self) -> (r: &[u8; 16])
        ensures
            r@ == self.bytes(),
    {
        &self.0
    }

    /// The nonce bytes.
    pub closed spec fn bytes(&self) -> Seq<u8> {
        self.0@
    }
}

} // verus!
