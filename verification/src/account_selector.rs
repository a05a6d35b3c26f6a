//! Static selection contracts over several accounts, credentials and shared quotas.
//!
//! The module validates immutable selector definitions only; it selects no account, keeps
//! no health or lease state and resolves no secret.
use vstd::prelude::*;

use crate::ids::{AccountId, AccountSelectorId, CredentialId, QuotaGroupId, QuotaSelectionUnitId};
use crate::MAX_ROUTE_TARGETS;

verus! {

/// Maximum number of members one account selection contract may hold.
pub const MAX_ACCOUNT_SELECTOR_MEMBERS: usize = MAX_ROUTE_TARGETS;

/// Maximum number of independent quota units one account selection contract may hold.
pub const MAX_QUOTA_SELECTION_UNITS: usize = MAX_ROUTE_TARGETS;

/// Maximum number of account selection contracts one compiled snapshot may reference.
pub const MAX_ACCOUNT_SELECTORS: usize = MAX_ROUTE_TARGETS;

/// Maximum number of quota groups one independent quota unit may reference.
pub const MAX_QUOTA_GROUPS_PER_UNIT: usize = MAX_ROUTE_TARGETS;

/// The static strategy for choosing an account or credential inside one selector.
#[derive(Clone, Copy, Debug, PartialEq, Eq, Structural)]
pub enum CredentialSelectionPolicy {
    /// Failover order inside explicit priority tiers.
    PriorityFailover,
    /// Weighted least in-flight load across independent quota units.
    WeightedLeastInflight,
    /// Compatibility round robin with session stickiness explicitly off.
    RoundRobinCompat,
}

/// The trusted source that splits quota topology into independent units.
#[derive(Clone, Copy, Debug, PartialEq, Eq, Structural)]
pub enum QuotaTopologySource {
    /// No trusted topology; every member conservatively shares one quota unit.
    ConservativeDefault,
    /// The user explicitly confirmed the independent quota relation.
    UserConfirmed,
    /// A trusted adapter provided a stable, secret-free quota identity.
    AdapterVerified,
}

/// One independent quota unit and its single effective weight, which is never zero.
///
/// Several accounts or credentials may belong to one unit, but the weight lives only here
/// and never adds up with the member count.
#[derive(Clone, Copy, Debug, PartialEq, Eq)]
pub struct QuotaSelectionUnit<'a> {
    id: QuotaSelectionUnitId,
    effective_weight: u16,
    quota_groups: &'a [QuotaGroupId],
}

impl<'a> QuotaSelectionUnit<'a> {
    /// A unit's weight is positive.
    #[verifier::type_invariant]
    spec fn weight_positive(self) -> bool {
        self.effective_weight > 0
    }

    /// The unit identifier.
    pub closed spec fn spec_id(self) -> QuotaSelectionUnitId {
        self.id
    }

    /// The single effective weight of the unit.
    pub closed spec fn spec_effective_weight(self) -> u16 {
        self.effective_weight
    }

    /// The quota groups the unit covers.
    pub closed spec fn spec_quota_groups(self) -> Seq<QuotaGroupId> {
        self.quota_groups@
    }

    /// Builds a unit that the selector definition validates later.
    pub fn new(id: QuotaSelectionUnitId, effective_weight: u16, quota_groups: &'a [QuotaGroupId]) -> (u:
        Self)
        requires
            effective_weight > 0,
        ensures
            u.spec_id() == id,
            u.spec_effective_weight() == effective_weight,
            u.spec_quota_groups() == quota_groups@,
    {
        QuotaSelectionUnit { id, effective_weight, quota_groups }
    }

    /// Returns the stable unit identifier.
    pub fn id(self) -> (r: QuotaSelectionUnitId)
        ensures
            r == self.spec_id(),
    {
        self.id
    }

    /// Returns the only effective weight of the unit.
    pub fn effective_weight(self) -> (r: u16)
        ensures
            r == self.spec_effective_weight(),
            r > 0,
    {
        proof {
            use_type_invariant(&self);
        }
        self.effective_weight
    }

    /// Returns every quota group the unit covers.
    pub fn quota_groups(&self) -> (r: &'a [QuotaGroupId])
        ensures
            r@ == self.spec_quota_groups(),
    {
        self.quota_groups
    }
}

/// An account/credential member that a selection contract may reference.
#[derive(Clone, Copy, Debug, PartialEq, Eq, Structural)]
pub struct AccountSelectorMember {
    account: AccountId,
    credential: CredentialId,
    unit: QuotaSelectionUnitId,
    priority_tier: u8,
}

impl AccountSelectorMember {
    /// The member's account.
    pub closed spec fn spec_account(self) -> AccountId {
        self.account
    }

    /// The member's credential.
    pub closed spec fn spec_credential(self) -> CredentialId {
        self.credential
    }

    /// The member's quota unit.
    pub closed spec fn spec_unit(self) -> QuotaSelectionUnitId {
        self.unit
    }

    /// The member's priority tier.
    pub closed spec fn spec_priority_tier(self) -> u8 {
        self.priority_tier
    }

    /// Builds the static relation of an account/credential with an independent quota unit.
    pub fn new(account: AccountId, credential: CredentialId, unit: QuotaSelectionUnitId, priority_tier: u8) -> (m:
        Self)
        ensures
            m.spec_account() == account,
            m.spec_credential() == credential,
            m.spec_unit() == unit,
            m.spec_priority_tier() == priority_tier,
    {
        AccountSelectorMember { account, credential, unit, priority_tier }
    }

    /// Returns the account identifier.
    pub fn account(self) -> (r: AccountId)
        ensures
            r == self.spec_account(),
    {
        self.account
    }

    /// Returns the credential identifier.
    pub fn credential(self) -> (r: CredentialId)
        ensures
            r == self.spec_credential(),
    {
        self.credential
    }

    /// Returns the independent quota unit.
    pub fn unit(self) -> (r: QuotaSelectionUnitId)
        ensures
            r == self.spec_unit(),
    {
        self.unit
    }

    /// Returns the explicit priority tier; a smaller tier is preferred.
    pub fn priority_tier(self) -> (r: u8)
        ensures
            r == self.spec_priority_tier(),
    {
        self.priority_tier
    }
}

/// Why an account selection contract is refused.
#[derive(Clone, Copy, Debug, PartialEq, Eq, Structural)]
pub enum AccountSelectorError {
    /// No account/credential member.
    EmptyMembers,
    /// Members exceed the fixed bound.
    TooManyMembers,
    /// No independent quota unit.
    EmptyUnits,
    /// Units exceed the fixed bound.
    TooManyUnits,
    /// A unit identifier occurs twice.
    DuplicateUnit,
    /// A unit covers no quota group.
    EmptyQuotaGroups,
    /// A unit covers more quota groups than the fixed bound.
    TooManyQuotaGroups,
    /// A unit covers one quota group twice.
    DuplicateQuotaGroup,
    /// One quota group is unsafely split across several units.
    QuotaGroupInMultipleUnits,
    /// A member references a unit that does not exist.
    UnknownUnit,
    /// One credential occurs twice in a selector.
    DuplicateCredential,
    /// A defined unit has no member.
    UnusedUnit,
    /// An unknown quota topology is unsafely split into several units.
    ConservativeTopologySplit,
}

/// The violation, if any, of quota group `g` of unit `u`.
pub open spec fn group_violation_at(units: Seq<QuotaSelectionUnit>, u: int, g: int) -> Option<AccountSelectorError> {
    let groups = units[u].spec_quota_groups();
    if exists|h: int| 0 <= h < g && #[trigger] groups[h] == groups[g] {
        Some(AccountSelectorError::DuplicateQuotaGroup)
    } else if exists|v: int, h: int|
        0 <= v < u && 0 <= h < units[v].spec_quota_groups().len() && #[trigger] units[v].spec_quota_groups()[h]
            == groups[g] {
        Some(AccountSelectorError::QuotaGroupInMultipleUnits)
    } else {
        None
    }
}

/// The first violation among the first `n` quota groups of unit `u`.
pub open spec fn group_prefix_violation(units: Seq<QuotaSelectionUnit>, u: int, n: int) -> Option<AccountSelectorError>
    decreases n,
{
    if n <= 0 {
        None
    } else {
        match group_prefix_violation(units, u, n - 1) {
            Some(e) => Some(e),
            None => group_violation_at(units, u, n - 1),
        }
    }
}

/// The violation, if any, of unit `u`.
pub open spec fn unit_violation_at(units: Seq<QuotaSelectionUnit>, u: int) -> Option<AccountSelectorError> {
    let groups = units[u].spec_quota_groups();
    if exists|v: int| 0 <= v < u && #[trigger] units[v].spec_id() == units[u].spec_id() {
        Some(AccountSelectorError::DuplicateUnit)
    } else if groups.len() == 0 {
        Some(AccountSelectorError::EmptyQuotaGroups)
    } else if groups.len() > MAX_QUOTA_GROUPS_PER_UNIT {
        Some(AccountSelectorError::TooManyQuotaGroups)
    } else {
        group_prefix_violation(units, u, groups.len() as int)
    }
}

/// The first violation among the first `n` units.
pub open spec fn unit_prefix_violation(units: Seq<QuotaSelectionUnit>, n: int) -> Option<AccountSelectorError>
    decreases n,
{
    if n <= 0 {
        None
    } else {
        match unit_prefix_violation(units, n - 1) {
            Some(e) => Some(e),
            None => unit_violation_at(units, n - 1),
        }
    }
}

/// Whether some unit has identifier `id`.
pub open spec fn defines_unit(units: Seq<QuotaSelectionUnit>, id: QuotaSelectionUnitId) -> bool {
    exists|v: int| 0 <= v < units.len() && #[trigger] units[v].spec_id() == id
}

/// The violation, if any, of member `i`.
pub open spec fn member_violation_at(
    units: Seq<QuotaSelectionUnit>,
    members: Seq<AccountSelectorMember>,
    i: int,
) -> Option<AccountSelectorError> {
    if exists|j: int| 0 <= j < i && #[trigger] members[j].spec_credential() == members[i].spec_credential() {
        Some(AccountSelectorError::DuplicateCredential)
    } else if !defines_unit(units, members[i].spec_unit()) {
        Some(AccountSelectorError::UnknownUnit)
    } else {
        None
    }
}

/// The first violation among the first `n` members.
pub open spec fn member_prefix_violation(
    units: Seq<QuotaSelectionUnit>,
    members: Seq<AccountSelectorMember>,
    n: int,
) -> Option<AccountSelectorError>
    decreases n,
{
    if n <= 0 {
        None
    } else {
        match member_prefix_violation(units, members, n - 1) {
            Some(e) => Some(e),
            None => member_violation_at(units, members, n - 1),
        }
    }
}

/// Whether unit `id` has at least one member.
pub open spec fn unit_has_member(members: Seq<AccountSelectorMember>, id: QuotaSelectionUnitId) -> bool {
    exists|m: int| 0 <= m < members.len() && #[trigger] members[m].spec_unit() == id
}

/// The verdict of selector validation.
pub open spec fn selector_check(
    topology_source: QuotaTopologySource,
    units: Seq<QuotaSelectionUnit>,
    members: Seq<AccountSelectorMember>,
) -> Result<(), AccountSelectorError> {
    if members.len() == 0 {
        Err(AccountSelectorError::EmptyMembers)
    } else if members.len() > MAX_ACCOUNT_SELECTOR_MEMBERS {
        Err(AccountSelectorError::TooManyMembers)
    } else if units.len() == 0 {
        Err(AccountSelectorError::EmptyUnits)
    } else if units.len() > MAX_QUOTA_SELECTION_UNITS {
        Err(AccountSelectorError::TooManyUnits)
    } else if topology_source == QuotaTopologySource::ConservativeDefault && units.len() != 1 {
        Err(AccountSelectorError::ConservativeTopologySplit)
    } else if unit_prefix_violation(units, units.len() as int) is Some {
        Err(unit_prefix_violation(units, units.len() as int).unwrap())
    } else if member_prefix_violation(units, members, members.len() as int) is Some {
        Err(member_prefix_violation(units, members, members.len() as int).unwrap())
    } else if exists|u: int| 0 <= u < units.len() && !unit_has_member(members, #[trigger] units[u].spec_id()) {
        Err(AccountSelectorError::UnusedUnit)
    } else {
        Ok(())
    }
}

proof fn lemma_group_sticks(units: Seq<QuotaSelectionUnit>, u: int, m: int, n: int)
    requires
        0 <= m <= n,
        group_prefix_violation(units, u, m) is Some,
    ensures
        group_prefix_violation(units, u, n) == group_prefix_violation(units, u, m),
    decreases n - m,
{
    if n > m {
        lemma_group_sticks(units, u, m, n - 1);
    }
}

proof fn lemma_unit_sticks(units: Seq<QuotaSelectionUnit>, m: int, n: int)
    requires
        0 <= m <= n,
        unit_prefix_violation(units, m) is Some,
    ensures
        unit_prefix_violation(units, n) == unit_prefix_violation(units, m),
    decreases n - m,
{
    if n > m {
        lemma_unit_sticks(units, m, n - 1);
    }
}

proof fn lemma_member_sticks(units: Seq<QuotaSelectionUnit>, members: Seq<AccountSelectorMember>, m: int, n: int)
    requires
        0 <= m <= n,
        member_prefix_violation(units, members, m) is Some,
    ensures
        member_prefix_violation(units, members, n) == member_prefix_violation(units, members, m),
    decreases n - m,
{
    if n > m {
        lemma_member_sticks(units, members, m, n - 1);
    }
}

proof fn lemma_unit_prefix_clean(units: Seq<QuotaSelectionUnit>, n: int, u: int)
    requires
        0 <= u < n,
        unit_prefix_violation(units, n) is None,
    ensures
        unit_violation_at(units, u) is None,
    decreases n - u,
{
    if u < n - 1 {
        lemma_unit_prefix_clean(units, n - 1, u);
    }
}

proof fn lemma_group_prefix_clean(units: Seq<QuotaSelectionUnit>, u: int, n: int, g: int)
    requires
        0 <= g < n,
        group_prefix_violation(units, u, n) is None,
    ensures
        group_violation_at(units, u, g) is None,
    decreases n - g,
{
    if g < n - 1 {
        lemma_group_prefix_clean(units, u, n - 1, g);
    }
}

proof fn lemma_member_prefix_clean(units: Seq<QuotaSelectionUnit>, members: Seq<AccountSelectorMember>, n: int, i: int)
    requires
        0 <= i < n,
        member_prefix_violation(units, members, n) is None,
    ensures
        member_violation_at(units, members, i) is None,
    decreases n - i,
{
    if i < n - 1 {
        lemma_member_prefix_clean(units, members, n - 1, i);
    }
}

/// An immutable, allocation-free account selection contract.
///
/// The definition only borrows compiled members and quota units; a future runtime picks a
/// unit first and an account/credential inside it second, never adding weights per key.
#[derive(Clone, Copy, Debug, PartialEq, Eq)]
pub struct AccountSelectorDefinition<'a> {
    id: AccountSelectorId,
    policy: CredentialSelectionPolicy,
    topology_source: QuotaTopologySource,
    units: &'a [QuotaSelectionUnit<'a>],
    members: &'a [AccountSelectorMember],
}

impl<'a> AccountSelectorDefinition<'a> {
    /// The selector identifier.
    pub closed spec fn spec_id(self) -> AccountSelectorId {
        self.id
    }

    /// The selection policy.
    pub closed spec fn spec_policy(self) -> CredentialSelectionPolicy {
        self.policy
    }

    /// The source of the quota topology.
    pub closed spec fn spec_topology_source(self) -> QuotaTopologySource {
        self.topology_source
    }

    /// The independent quota units.
    pub closed spec fn spec_units(self) -> Seq<QuotaSelectionUnit<'a>> {
        self.units@
    }

    /// The account/credential members.
    pub closed spec fn spec_members(self) -> Seq<AccountSelectorMember> {
        self.members@
    }

    #[verifier::type_invariant]
    closed spec fn inv(self) -> bool {
        selector_check(self.topology_source, self.units@, self.members@) is Ok
    }

    /// Validates and builds an account selection contract.
    #[verifier::loop_isolation(false)]
    pub fn new(
        id: AccountSelectorId,
        policy: CredentialSelectionPolicy,
        topology_source: QuotaTopologySource,
        units: &'a [QuotaSelectionUnit<'a>],
        members: &'a [AccountSelectorMember],
    ) -> (r: Result<Self, AccountSelectorError>)
        ensures
            selector_check(topology_source, units@, members@) matches Err(e) ==> r == Err::<
                Self,
                AccountSelectorError,
            >(e),
            selector_check(topology_source, units@, members@) is Ok ==> (r matches Ok(d) && d.spec_id() == id
                && d.spec_policy() == policy && d.spec_topology_source() == topology_source && d.spec_units()
                == units@ && d.spec_members() == members@),
    {
        let ghost us = units@;
        let ghost ms = members@;
        if members.len() == 0 {
            return Err(AccountSelectorError::EmptyMembers);
        }
        if members.len() > MAX_ACCOUNT_SELECTOR_MEMBERS {
            return Err(AccountSelectorError::TooManyMembers);
        }
        if units.len() == 0 {
            return Err(AccountSelectorError::EmptyUnits);
        }
        if units.len() > MAX_QUOTA_SELECTION_UNITS {
            return Err(AccountSelectorError::TooManyUnits);
        }
        if topology_source == QuotaTopologySource::ConservativeDefault && units.len() != 1 {
            return Err(AccountSelectorError::ConservativeTopologySplit);
        }
        let nu = units.len();
        let nm = members.len();
        let mut index: usize = 0;
        while index < nu
            invariant
                us == units@,
                ms == members@,
                nu == us.len(),
                nm == ms.len(),
                1 <= nu <= MAX_QUOTA_SELECTION_UNITS,
                1 <= nm <= MAX_ACCOUNT_SELECTOR_MEMBERS,
                !(topology_source == QuotaTopologySource::ConservativeDefault && nu != 1),
                0 <= index <= nu,
                unit_prefix_violation(us, index as int) is None,
            decreases nu - index,
        {
            let unit = units[index];
            let mut v: usize = 0;
            while v < index
                invariant
                    us == units@,
                    nu == us.len(),
                    0 <= v <= index < nu,
                    unit == us[index as int],
                    unit_prefix_violation(us, index as int) is None,
                    forall|k: int| 0 <= k < v ==> us[k].spec_id() != unit.spec_id(),
                decreases index - v,
            {
                if units[v].id == unit.id {
                    proof {
                        assert(us[v as int].spec_id() == us[index as int].spec_id());
                        assert(unit_prefix_violation(us, index as int + 1) == Some(AccountSelectorError::DuplicateUnit));
                        lemma_unit_sticks(us, index as int + 1, nu as int);
                    }
                    return Err(AccountSelectorError::DuplicateUnit);
                }
                v += 1;
            }
            if unit.quota_groups.len() == 0 {
                proof {
                    assert(unit_prefix_violation(us, index as int + 1) == Some(AccountSelectorError::EmptyQuotaGroups));
                    lemma_unit_sticks(us, index as int + 1, nu as int);
                }
                return Err(AccountSelectorError::EmptyQuotaGroups);
            }
            if unit.quota_groups.len() > MAX_QUOTA_GROUPS_PER_UNIT {
                proof {
                    assert(unit_prefix_violation(us, index as int + 1) == Some(AccountSelectorError::TooManyQuotaGroups));
                    lemma_unit_sticks(us, index as int + 1, nu as int);
                }
                return Err(AccountSelectorError::TooManyQuotaGroups);
            }
            let groups = unit.quota_groups;
            let ng = groups.len();
            let mut g: usize = 0;
            while g < ng
                invariant
                    us == units@,
                    nu == us.len(),
                    index < nu,
                    unit == us[index as int],
                    groups@ == unit.spec_quota_groups(),
                    ng == groups@.len(),
                    1 <= ng <= MAX_QUOTA_GROUPS_PER_UNIT,
                    0 <= g <= ng,
                    unit_prefix_violation(us, index as int) is None,
                    forall|k: int| 0 <= k < index ==> us[k].spec_id() != unit.spec_id(),
                    group_prefix_violation(us, index as int, g as int) is None,
                decreases ng - g,
            {
                let group = groups[g];
                let mut h: usize = 0;
                while h < g
                    invariant
                        us == units@,
                        index < nu,
                        nu == us.len(),
                        unit == us[index as int],
                        groups@ == unit.spec_quota_groups(),
                        ng == groups@.len(),
                        1 <= ng <= MAX_QUOTA_GROUPS_PER_UNIT,
                        0 <= h <= g < ng,
                        group == groups@[g as int],
                        unit_prefix_violation(us, index as int) is None,
                        forall|k: int| 0 <= k < index ==> us[k].spec_id() != unit.spec_id(),
                        group_prefix_violation(us, index as int, g as int) is None,
                        forall|k: int| 0 <= k < h ==> groups@[k] != group,
                    decreases g - h,
                {
                    if groups[h] == group {
                        proof {
                            assert(groups@[h as int] == groups@[g as int]);
                            assert(group_violation_at(us, index as int, g as int) == Some(
                                AccountSelectorError::DuplicateQuotaGroup,
                            ));
                            assert(group_prefix_violation(us, index as int, g as int + 1) is Some);
                            lemma_group_sticks(us, index as int, g as int + 1, ng as int);
                            assert(unit_prefix_violation(us, index as int + 1) == Some(
                                AccountSelectorError::DuplicateQuotaGroup,
                            ));
                            lemma_unit_sticks(us, index as int + 1, nu as int);
                        }
                        return Err(AccountSelectorError::DuplicateQuotaGroup);
                    }
                    h += 1;
                }
                let mut v: usize = 0;
                while v < index
                    invariant
                        us == units@,
                        index < nu,
                        nu == us.len(),
                        unit == us[index as int],
                        groups@ == unit.spec_quota_groups(),
                        ng == groups@.len(),
                        1 <= ng <= MAX_QUOTA_GROUPS_PER_UNIT,
                        g < ng,
                        0 <= v <= index,
                        group == groups@[g as int],
                        unit_prefix_violation(us, index as int) is None,
                        forall|k: int| 0 <= k < index ==> us[k].spec_id() != unit.spec_id(),
                        group_prefix_violation(us, index as int, g as int) is None,
                        forall|k: int| 0 <= k < g ==> groups@[k] != group,
                        forall|w: int, k: int|
                            0 <= w < v && 0 <= k < us[w].spec_quota_groups().len() ==> us[w].spec_quota_groups()[k]
                                != group,
                    decreases index - v,
                {
                    let other = units[v].quota_groups;
                    let mut k: usize = 0;
                    while k < other.len()
                        invariant
                            us == units@,
                            index < nu,
                            nu == us.len(),
                            v < index,
                            other@ == us[v as int].spec_quota_groups(),
                            unit == us[index as int],
                            groups@ == unit.spec_quota_groups(),
                            ng == groups@.len(),
                            1 <= ng <= MAX_QUOTA_GROUPS_PER_UNIT,
                            g < ng,
                            0 <= k <= other@.len(),
                            group == groups@[g as int],
                            unit_prefix_violation(us, index as int) is None,
                            forall|q: int| 0 <= q < index ==> us[q].spec_id() != unit.spec_id(),
                            group_prefix_violation(us, index as int, g as int) is None,
                            forall|q: int| 0 <= q < g ==> groups@[q] != group,
                            forall|q: int| 0 <= q < k ==> other@[q] != group,
                        decreases other@.len() - k,
                    {
                        if other[k] == group {
                            proof {
                                assert(us[v as int].spec_quota_groups()[k as int] == groups@[g as int]);
                                assert(group_violation_at(us, index as int, g as int) == Some(
                                    AccountSelectorError::QuotaGroupInMultipleUnits,
                                ));
                                assert(group_prefix_violation(us, index as int, g as int + 1) is Some);
                                lemma_group_sticks(us, index as int, g as int + 1, ng as int);
                                assert(unit_prefix_violation(us, index as int + 1) == Some(
                                    AccountSelectorError::QuotaGroupInMultipleUnits,
                                ));
                                lemma_unit_sticks(us, index as int + 1, nu as int);
                            }
                            return Err(AccountSelectorError::QuotaGroupInMultipleUnits);
                        }
                        k += 1;
                    }
                    v += 1;
                }
                assert(group_violation_at(us, index as int, g as int) is None);
                g += 1;
            }
            assert(unit_violation_at(us, index as int) is None);
            index += 1;
        }
        let mut index: usize = 0;
        while index < nm
            invariant
                us == units@,
                ms == members@,
                nu == us.len(),
                nm == ms.len(),
                1 <= nu <= MAX_QUOTA_SELECTION_UNITS,
                1 <= nm <= MAX_ACCOUNT_SELECTOR_MEMBERS,
                !(topology_source == QuotaTopologySource::ConservativeDefault && nu != 1),
                unit_prefix_violation(us, nu as int) is None,
                0 <= index <= nm,
                member_prefix_violation(us, ms, index as int) is None,
            decreases nm - index,
        {
            let member = members[index];
            let mut j: usize = 0;
            while j < index
                invariant
                    ms == members@,
                    us == units@,
                    nm == ms.len(),
                    nu == us.len(),
                    1 <= nu <= MAX_QUOTA_SELECTION_UNITS,
                    1 <= nm <= MAX_ACCOUNT_SELECTOR_MEMBERS,
                    !(topology_source == QuotaTopologySource::ConservativeDefault && nu != 1),
                    unit_prefix_violation(us, nu as int) is None,
                    0 <= j <= index < nm,
                    member == ms[index as int],
                    member_prefix_violation(us, ms, index as int) is None,
                    forall|k: int| 0 <= k < j ==> ms[k].spec_credential() != member.spec_credential(),
                decreases index - j,
            {
                if members[j].credential == member.credential {
                    proof {
                        assert(ms[j as int].spec_credential() == ms[index as int].spec_credential());
                        assert(member_prefix_violation(us, ms, index as int + 1) == Some(
                            AccountSelectorError::DuplicateCredential,
                        ));
                        lemma_member_sticks(us, ms, index as int + 1, nm as int);
                    }
                    return Err(AccountSelectorError::DuplicateCredential);
                }
                j += 1;
            }
            let mut found = false;
            let mut v: usize = 0;
            while v < nu
                invariant
                    us == units@,
                    nu == us.len(),
                    0 <= v <= nu,
                    found == (exists|k: int| 0 <= k < v && #[trigger] us[k].spec_id() == member.spec_unit()),
                decreases nu - v,
            {
                if units[v].id == member.unit {
                    assert(us[v as int].spec_id() == member.spec_unit());
                    found = true;
                }
                v += 1;
            }
            if !found {
                proof {
                    assert(member_prefix_violation(us, ms, index as int + 1) == Some(AccountSelectorError::UnknownUnit));
                    lemma_member_sticks(us, ms, index as int + 1, nm as int);
                }
                return Err(AccountSelectorError::UnknownUnit);
            }
            assert(member_violation_at(us, ms, index as int) is None);
            index += 1;
        }
        let mut v: usize = 0;
        while v < nu
            invariant
                us == units@,
                ms == members@,
                nu == us.len(),
                nm == ms.len(),
                1 <= nu <= MAX_QUOTA_SELECTION_UNITS,
                1 <= nm <= MAX_ACCOUNT_SELECTOR_MEMBERS,
                !(topology_source == QuotaTopologySource::ConservativeDefault && nu != 1),
                unit_prefix_violation(us, nu as int) is None,
                member_prefix_violation(us, ms, nm as int) is None,
                0 <= v <= nu,
                forall|u: int| 0 <= u < v ==> unit_has_member(ms, #[trigger] us[u].spec_id()),
            decreases nu - v,
        {
            let unit_id = units[v].id;
            let mut found = false;
            let mut m: usize = 0;
            while m < nm
                invariant
                    ms == members@,
                    nm == ms.len(),
                    0 <= m <= nm,
                    found == (exists|k: int| 0 <= k < m && #[trigger] ms[k].spec_unit() == unit_id),
                decreases nm - m,
            {
                if members[m].unit == unit_id {
                    assert(ms[m as int].spec_unit() == unit_id);
                    found = true;
                }
                m += 1;
            }
            if !found {
                assert(!unit_has_member(ms, us[v as int].spec_id()));
                return Err(AccountSelectorError::UnusedUnit);
            }
            v += 1;
        }
        Ok(AccountSelectorDefinition { id, policy, topology_source, units, members })
    }

    /// Returns the stable selector identifier.
    pub fn id(self) -> (r: AccountSelectorId)
        ensures
            r == self.spec_id(),
    {
        self.id
    }

    /// Returns the selection policy a future runtime must apply.
    pub fn policy(self) -> (r: CredentialSelectionPolicy)
        ensures
            r == self.spec_policy(),
    {
        self.policy
    }

    /// Returns the trusted source of the quota topology.
    pub fn topology_source(self) -> (r: QuotaTopologySource)
        ensures
            r == self.spec_topology_source(),
    {
        self.topology_source
    }

    /// Returns the independent quota units.
    pub fn units(&self) -> (r: &'a [QuotaSelectionUnit<'a>])
        ensures
            r@ == self.spec_units(),
            selector_check(self.spec_topology_source(), r@, self.spec_members()) is Ok,
    {
        proof {
            use_type_invariant(self);
        }
        self.units
    }

    /// Returns the account/credential members.
    pub fn members(&self) -> (r: &'a [AccountSelectorMember])
        ensures
            r@ == self.spec_members(),
            selector_check(self.spec_topology_source(), self.spec_units(), r@) is Ok,
    {
        proof {
            use_type_invariant(self);
        }
        self.members
    }

    /// Looks a quota unit up by its identifier.
    pub fn unit(&self, id: QuotaSelectionUnitId) -> (r: Option<QuotaSelectionUnit<'a>>)
        ensures
            r is None <==> !defines_unit(self.spec_units(), id),
            r matches Some(u) ==> u.spec_id() == id && exists|i: int|
                0 <= i < self.spec_units().len() && self.spec_units()[i] == u,
    {
        let mut i: usize = 0;
        while i < self.units.len()
            invariant
                0 <= i <= self.units@.len(),
                forall|k: int| 0 <= k < i ==> self.units@[k].spec_id() != id,
            decreases self.units@.len() - i,
        {
            if self.units[i].id == id {
                assert(self.spec_units()[i as int].spec_id() == id);
                return Some(self.units[i]);
            }
            i += 1;
        }
        None
    }
}

/// Law: an accepted selector never splits a quota group across units, gives every member a
/// defined unit, gives every unit a member and holds each credential once.
pub proof fn lemma_accepted_selector_shape(
    topology_source: QuotaTopologySource,
    units: Seq<QuotaSelectionUnit>,
    members: Seq<AccountSelectorMember>,
)
    requires
        selector_check(topology_source, units, members) is Ok,
    ensures
        forall|i: int| 0 <= i < members.len() ==> defines_unit(units, #[trigger] members[i].spec_unit()),
        forall|i: int, j: int|
            0 <= i < j < members.len() ==> members[i].spec_credential() != members[j].spec_credential(),
        forall|u: int| 0 <= u < units.len() ==> unit_has_member(members, #[trigger] units[u].spec_id()),
        forall|u: int, v: int, g: int, h: int|
            0 <= v < u < units.len() && 0 <= g < units[u].spec_quota_groups().len() && 0 <= h
                < units[v].spec_quota_groups().len() ==> units[u].spec_quota_groups()[g]
                != units[v].spec_quota_groups()[h],
        topology_source == QuotaTopologySource::ConservativeDefault ==> units.len() == 1,
{
    assert forall|i: int| 0 <= i < members.len() implies defines_unit(units, #[trigger] members[i].spec_unit()) by {
        lemma_member_prefix_clean(units, members, members.len() as int, i);
    }
    assert forall|i: int, j: int| 0 <= i < j < members.len() implies members[i].spec_credential()
        != members[j].spec_credential() by {
        lemma_member_prefix_clean(units, members, members.len() as int, j);
    }
    assert forall|u: int, v: int, g: int, h: int|
        0 <= v < u < units.len() && 0 <= g < units[u].spec_quota_groups().len() && 0 <= h
            < units[v].spec_quota_groups().len() implies units[u].spec_quota_groups()[g]
        != units[v].spec_quota_groups()[h] by {
        lemma_unit_prefix_clean(units, units.len() as int, u);
        lemma_group_prefix_clean(units, u, units[u].spec_quota_groups().len() as int, g);
        if units[u].spec_quota_groups()[g] == units[v].spec_quota_groups()[h] {
            assert(group_violation_at(units, u, g) is Some);
        }
    }
}

/// Why an immutable account selection contract catalog is refused.
#[derive(Clone, Copy, Debug, PartialEq, Eq, Structural)]
pub enum AccountSelectorCatalogError {
    /// The catalog holds no contract.
    Empty,
    /// The catalog exceeds the fixed bound.
    TooMany,
    /// One selector identifier occurs twice.
    DuplicateId,
}

/// The verdict of selector catalog validation on `s`.
pub open spec fn selector_catalog_check(s: Seq<AccountSelectorDefinition>) -> Result<(), AccountSelectorCatalogError> {
    if s.len() == 0 {
        Err(AccountSelectorCatalogError::Empty)
    } else if s.len() > MAX_ACCOUNT_SELECTORS {
        Err(AccountSelectorCatalogError::TooMany)
    } else if exists|i: int, j: int| 0 <= i < j < s.len() && s[i].spec_id() == s[j].spec_id() {
        Err(AccountSelectorCatalogError::DuplicateId)
    } else {
        Ok(())
    }
}

/// The account selection contract catalog of one compiled routing snapshot.
#[derive(Clone, Copy, Debug, PartialEq, Eq)]
pub struct AccountSelectorCatalog<'a> {
    selectors: &'a [AccountSelectorDefinition<'a>],
}

impl<'a> AccountSelectorCatalog<'a> {
    /// The contracts of the catalog.
    pub closed spec fn spec_selectors(&self) -> Seq<AccountSelectorDefinition<'a>> {
        self.selectors@
    }

    #[verifier::type_invariant]
    closed spec fn inv(&self) -> bool {
        selector_catalog_check(self.selectors@) is Ok
    }

    /// Validates and builds a catalog of bounded size.
    pub fn new(selectors: &'a [AccountSelectorDefinition<'a>]) -> (r: Result<Self, AccountSelectorCatalogError>)
        ensures
            selector_catalog_check(selectors@) matches Err(e) ==> r == Err::<Self, AccountSelectorCatalogError>(e),
            selector_catalog_check(selectors@) is Ok ==> (r matches Ok(c) && c.spec_selectors() == selectors@),
    {
        if selectors.len() == 0 {
            return Err(AccountSelectorCatalogError::Empty);
        }
        if selectors.len() > MAX_ACCOUNT_SELECTORS {
            return Err(AccountSelectorCatalogError::TooMany);
        }
        let n = selectors.len();
        let mut index: usize = 0;
        while index < n
            invariant
                n == selectors@.len(),
                1 <= n <= MAX_ACCOUNT_SELECTORS,
                0 <= index <= n,
                forall|i: int, j: int| 0 <= i < j < index ==> selectors@[i].spec_id() != selectors@[j].spec_id(),
            decreases n - index,
        {
            let mut j: usize = 0;
            while j < index
                invariant
                    n == selectors@.len(),
                    1 <= n <= MAX_ACCOUNT_SELECTORS,
                    0 <= j <= index < n,
                    forall|i: int| 0 <= i < j ==> selectors@[i].spec_id() != selectors@[index as int].spec_id(),
                decreases index - j,
            {
                if selectors[j].id == selectors[index].id {
                    assert(selectors@[j as int].spec_id() == selectors@[index as int].spec_id());
                    return Err(AccountSelectorCatalogError::DuplicateId);
                }
                j += 1;
            }
            index += 1;
        }
        Ok(AccountSelectorCatalog { selectors })
    }

    /// Returns the number of contracts.
    pub fn len(&self) -> (r: usize)
        ensures
            r == self.spec_selectors().len(),
            1 <= r <= MAX_ACCOUNT_SELECTORS,
    {
        proof {
            use_type_invariant(self);
        }
        self.selectors.len()
    }

    /// Whether the catalog is empty; a catalog built by `new` never is.
    pub fn is_empty(&self) -> (r: bool)
        ensures
            r == (self.spec_selectors().len() == 0),
            !r,
    {
        proof {
            use_type_invariant(self);
        }
        self.selectors.len() == 0
    }

    /// Looks a contract up by its identifier.
    #[verifier::loop_isolation(false)]
    pub fn get(&self, id: AccountSelectorId) -> (r: Option<&'a AccountSelectorDefinition<'a>>)
        ensures
            r is None <==> forall|i: int| 0 <= i < self.spec_selectors().len() ==> self.spec_selectors()[i].spec_id() != id,
            r matches Some(d) ==> exists|i: int| 0 <= i < self.spec_selectors().len() && self.spec_selectors()[i] == *d,
            r matches Some(d) ==> d.spec_id() == id,
            r matches Some(d) ==> forall|i: int|
                0 <= i < self.spec_selectors().len() && self.spec_selectors()[i].spec_id() == id ==> self.spec_selectors()[i] == *d,
    {
        proof {
            use_type_invariant(self);
        }
        let mut i: usize = 0;
        while i < self.selectors.len()
            invariant
                0 <= i <= self.selectors@.len(),
                forall|k: int| 0 <= k < i ==> self.selectors@[k].spec_id() != id,
            decreases self.selectors@.len() - i,
        {
            if self.selectors[i].id == id {
                assert(self.spec_selectors()[i as int].spec_id() == id);
                assert forall|k: int|
                    0 <= k < self.selectors@.len() && self.selectors@[k].spec_id() == id implies self.selectors@[k]
                        == self.selectors@[i as int] by {
                    if k < i {
                        assert(self.selectors@[k].spec_id() == self.selectors@[i as int].spec_id());
                    } else if k > i {
                        assert(self.selectors@[i as int].spec_id() == self.selectors@[k].spec_id());
                    }
                }
                return Some(&self.selectors[i]);
            }
            i += 1;
        }
        None
    }

    /// Whether the catalog holds a contract with identifier `id`.
    pub fn contains(&self, id: AccountSelectorId) -> (r: bool)
        ensures
            r == exists|i: int| 0 <= i < self.spec_selectors().len() && self.spec_selectors()[i].spec_id() == id,
    {
        self.get(id).is_some()
    }
}

} // verus!
