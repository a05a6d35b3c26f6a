//! Non-zero stable identifiers of the routing core.
use vstd::prelude::*;
verus! {

/// An immutable routing snapshot version.
#[derive(Clone, Copy, Debug, PartialEq, Eq, Structural, Hash, PartialOrd, Ord)]
pub struct SnapshotVersion(u64);

impl SnapshotVersion {
    /// Two versions with the same value are the same version.
    pub proof fn lemma_value_injective(a: SnapshotVersion, b: SnapshotVersion)
        ensures
            a.value() == b.value() ==> a == b,
    {
    }

    /// Builds the identifier from a non-zero integer; zero is refused.
    pub fn new(value: u64) -> (id: Option<Self>)
        ensures
            id is None <==> value == 0,
            id matches Some(i) ==> i.value() == value,
    {
        if value == 0 { None } else { Some(SnapshotVersion(value)) }
    }

    /// Returns the underlying integer, which is never zero for a value built by `new`.
    pub fn get(self) -> (value: u64)
        ensures value == self.value(),
    {
        self.0
    }

    /// The integer that the identifier stands for.
    pub closed spec fn value(self) -> u64 {
        self.0
    }
}

/// A stable routing stage identifier (the internal id of stage A, B, C).
#[derive(Clone, Copy, Debug, PartialEq, Eq, Structural, Hash, PartialOrd, Ord)]
pub struct RouteStageId(u64);

impl RouteStageId {
    /// Builds the identifier from a non-zero integer; zero is refused.
    pub fn new(value: u64) -> (id: Option<Self>)
        ensures
            id is None <==> value == 0,
            id matches Some(i) ==> i.value() == value,
    {
        if value == 0 { None } else { Some(RouteStageId(value)) }
    }

    /// Returns the underlying integer, which is never zero for a value built by `new`.
    pub fn get(self) -> (value: u64)
        ensures value == self.value(),
    {
        self.0
    }

    /// The integer that the identifier stands for.
    pub closed spec fn value(self) -> u64 {
        self.0
    }
}

/// A stable routing target identifier.
#[derive(Clone, Copy, Debug, PartialEq, Eq, Structural, Hash, PartialOrd, Ord)]
pub struct RouteTargetId(u64);

impl RouteTargetId {
    /// Builds the identifier from a non-zero integer; zero is refused.
    pub fn new(value: u64) -> (id: Option<Self>)
        ensures
            id is None <==> value == 0,
            id matches Some(i) ==> i.value() == value,
    {
        if value == 0 { None } else { Some(RouteTargetId(value)) }
    }

    /// Returns the underlying integer, which is never zero for a value built by `new`.
    pub fn get(self) -> (value: u64)
        ensures value == self.value(),
    {
        self.0
    }

    /// The integer that the identifier stands for.
    pub closed spec fn value(self) -> u64 {
        self.0
    }
}

/// A stable site identifier.
#[derive(Clone, Copy, Debug, PartialEq, Eq, Structural, Hash, PartialOrd, Ord)]
pub struct SiteId(u64);

impl SiteId {
    /// Builds the identifier from a non-zero integer; zero is refused.
    pub fn new(value: u64) -> (id: Option<Self>)
        ensures
            id is None <==> value == 0,
            id matches Some(i) ==> i.value() == value,
    {
        if value == 0 { None } else { Some(SiteId(value)) }
    }

    /// Returns the underlying integer, which is never zero for a value built by `new`.
    pub fn get(self) -> (value: u64)
        ensures value == self.value(),
    {
        self.0
    }

    /// The integer that the identifier stands for.
    pub closed spec fn value(self) -> u64 {
        self.0
    }
}

/// A stable concrete model deployment identifier.
#[derive(Clone, Copy, Debug, PartialEq, Eq, Structural, Hash, PartialOrd, Ord)]
pub struct ModelDeploymentId(u64);

impl ModelDeploymentId {
    /// Builds the identifier from a non-zero integer; zero is refused.
    pub fn new(value: u64) -> (id: Option<Self>)
        ensures
            id is None <==> value == 0,
            id matches Some(i) ==> i.value() == value,
    {
        if value == 0 { None } else { Some(ModelDeploymentId(value)) }
    }

    /// Returns the underlying integer, which is never zero for a value built by `new`.
    pub fn get(self) -> (value: u64)
        ensures value == self.value(),
    {
        self.0
    }

    /// The integer that the identifier stands for.
    pub closed spec fn value(self) -> u64 {
        self.0
    }
}

/// A stable upstream endpoint identifier.
#[derive(Clone, Copy, Debug, PartialEq, Eq, Structural, Hash, PartialOrd, Ord)]
pub struct EndpointId(u64);

impl EndpointId {
    /// Builds the identifier from a non-zero integer; zero is refused.
    pub fn new(value: u64) -> (id: Option<Self>)
        ensures
            id is None <==> value == 0,
            id matches Some(i) ==> i.value() == value,
    {
        if value == 0 { None } else { Some(EndpointId(value)) }
    }

    /// Returns the underlying integer, which is never zero for a value built by `new`.
    pub fn get(self) -> (value: u64)
        ensures value == self.value(),
    {
        self.0
    }

    /// The integer that the identifier stands for.
    pub closed spec fn value(self) -> u64 {
        self.0
    }
}

/// A stable identifier of a target's account selection contract.
#[derive(Clone, Copy, Debug, PartialEq, Eq, Structural, Hash, PartialOrd, Ord)]
pub struct AccountSelectorId(u64);

impl AccountSelectorId {
    /// Builds the identifier from a non-zero integer; zero is refused.
    pub fn new(value: u64) -> (id: Option<Self>)
        ensures
            id is None <==> value == 0,
            id matches Some(i) ==> i.value() == value,
    {
        if value == 0 { None } else { Some(AccountSelectorId(value)) }
    }

    /// Returns the underlying integer, which is never zero for a value built by `new`.
    pub fn get(self) -> (value: u64)
        ensures value == self.value(),
    {
        self.0
    }

    /// The integer that the identifier stands for.
    pub closed spec fn value(self) -> u64 {
        self.0
    }
}

/// A stable site account identifier.
#[derive(Clone, Copy, Debug, PartialEq, Eq, Structural, Hash, PartialOrd, Ord)]
pub struct AccountId(u64);

impl AccountId {
    /// Builds the identifier from a non-zero integer; zero is refused.
    pub fn new(value: u64) -> (id: Option<Self>)
        ensures
            id is None <==> value == 0,
            id matches Some(i) ==> i.value() == value,
    {
        if value == 0 { None } else { Some(AccountId(value)) }
    }

    /// Returns the underlying integer, which is never zero for a value built by `new`.
    pub fn get(self) -> (value: u64)
        ensures value == self.value(),
    {
        self.0
    }

    /// The integer that the identifier stands for.
    pub closed spec fn value(self) -> u64 {
        self.0
    }
}

/// A stable credential identifier; it never carries a secret.
#[derive(Clone, Copy, Debug, PartialEq, Eq, Structural, Hash, PartialOrd, Ord)]
pub struct CredentialId(u64);

impl CredentialId {
    /// Builds the identifier from a non-zero integer; zero is refused.
    pub fn new(value: u64) -> (id: Option<Self>)
        ensures
            id is None <==> value == 0,
            id matches Some(i) ==> i.value() == value,
    {
        if value == 0 { None } else { Some(CredentialId(value)) }
    }

    /// Returns the underlying integer, which is never zero for a value built by `new`.
    pub fn get(self) -> (value: u64)
        ensures value == self.value(),
    {
        self.0
    }

    /// The integer that the identifier stands for.
    pub closed spec fn value(self) -> u64 {
        self.0
    }
}

/// A stable quota group identifier.
#[derive(Clone, Copy, Debug, PartialEq, Eq, Structural, Hash, PartialOrd, Ord)]
pub struct QuotaGroupId(u64);

impl QuotaGroupId {
    /// Builds the identifier from a non-zero integer; zero is refused.
    pub fn new(value: u64) -> (id: Option<Self>)
        ensures
            id is None <==> value == 0,
            id matches Some(i) ==> i.value() == value,
    {
        if value == 0 { None } else { Some(QuotaGroupId(value)) }
    }

    /// Returns the underlying integer, which is never zero for a value built by `new`.
    pub fn get(self) -> (value: u64)
        ensures value == self.value(),
    {
        self.0
    }

    /// The integer that the identifier stands for.
    pub closed spec fn value(self) -> u64 {
        self.0
    }
}

/// A stable identifier of an independent quota selection unit.
#[derive(Clone, Copy, Debug, PartialEq, Eq, Structural, Hash, PartialOrd, Ord)]
pub struct QuotaSelectionUnitId(u64);

impl QuotaSelectionUnitId {
    /// Builds the identifier from a non-zero integer; zero is refused.
    pub fn new(value: u64) -> (id: Option<Self>)
        ensures
            id is None <==> value == 0,
            id matches Some(i) ==> i.value() == value,
    {
        if value == 0 { None } else { Some(QuotaSelectionUnitId(value)) }
    }

    /// Returns the underlying integer, which is never zero for a value built by `new`.
    pub fn get(self) -> (value: u64)
        ensures value == self.value(),
    {
        self.0
    }

    /// The integer that the identifier stands for.
    pub closed spec fn value(self) -> u64 {
        self.0
    }
}

} // verus!
