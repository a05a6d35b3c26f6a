use core::num::NonZeroU16;
use routing_core::{
    AccountId, AccountSelectorCatalog, AccountSelectorCatalogError, AccountSelectorDefinition,
    AccountSelectorError, AccountSelectorId, AccountSelectorMember, CredentialId,
    CredentialSelectionPolicy, QuotaGroupId, QuotaSelectionUnit, QuotaSelectionUnitId,
    QuotaTopologySource, MAX_ACCOUNT_SELECTORS, MAX_ACCOUNT_SELECTOR_MEMBERS,
    MAX_QUOTA_SELECTION_UNITS,
};

fn account(value: u64) -> AccountId {
    AccountId::new(value).expect("test account id is non-zero")
}

fn credential(value: u64) -> CredentialId {
    CredentialId::new(value).expect("test credential id is non-zero")
}

fn group(value: u64) -> QuotaGroupId {
    QuotaGroupId::new(value).expect("test quota group id is non-zero")
}

fn unit_id(value: u64) -> QuotaSelectionUnitId {
    QuotaSelectionUnitId::new(value).expect("test unit id is non-zero")
}

fn selector(value: u64) -> AccountSelectorId {
    AccountSelectorId::new(value).expect("test selector id is non-zero")
}

fn weight(value: u16) -> u16 {
    NonZeroU16::new(value).expect("test weight is non-zero").get()
}

fn unit<'a>(id: u64, effective_weight: u16, groups: &'a [QuotaGroupId]) -> QuotaSelectionUnit<'a> {
    QuotaSelectionUnit::new(unit_id(id), weight(effective_weight), groups)
}

fn member(account_value: u64, credential_value: u64, unit_value: u64) -> AccountSelectorMember {
    AccountSelectorMember::new(
        account(account_value),
        credential(credential_value),
        unit_id(unit_value),
        0,
    )
}

#[test]
fn selector_rejects_empty_and_over_capacity() {
    let groups = [group(1)];
    let units = [unit(1, 1, &groups)];
    let members = [member(1, 1, 1)];
    let too_many_members = [member(1, 1, 1); MAX_ACCOUNT_SELECTOR_MEMBERS + 1];
    let too_many_units = [unit(1, 1, &groups); MAX_QUOTA_SELECTION_UNITS + 1];
    let too_many_groups: [QuotaGroupId; 17] = core::array::from_fn(|i| group(i as u64 + 1));
    let unit_with_too_many_groups = [unit(1, 1, &too_many_groups)];

    assert_eq!(
        AccountSelectorDefinition::new(
            selector(1),
            CredentialSelectionPolicy::PriorityFailover,
            QuotaTopologySource::ConservativeDefault,
            &units,
            &[],
        ),
        Err(AccountSelectorError::EmptyMembers)
    );
    assert_eq!(
        AccountSelectorDefinition::new(
            selector(1),
            CredentialSelectionPolicy::PriorityFailover,
            QuotaTopologySource::ConservativeDefault,
            &[],
            &members,
        ),
        Err(AccountSelectorError::EmptyUnits)
    );
    assert_eq!(
        AccountSelectorDefinition::new(
            selector(1),
            CredentialSelectionPolicy::PriorityFailover,
            QuotaTopologySource::ConservativeDefault,
            &units,
            &too_many_members,
        ),
        Err(AccountSelectorError::TooManyMembers)
    );
    assert_eq!(
        AccountSelectorDefinition::new(
            selector(1),
            CredentialSelectionPolicy::PriorityFailover,
            QuotaTopologySource::UserConfirmed,
            &too_many_units,
            &members,
        ),
        Err(AccountSelectorError::TooManyUnits)
    );
    assert_eq!(
        AccountSelectorDefinition::new(
            selector(1),
            CredentialSelectionPolicy::PriorityFailover,
            QuotaTopologySource::ConservativeDefault,
            &unit_with_too_many_groups,
            &members,
        ),
        Err(AccountSelectorError::TooManyQuotaGroups)
    );
}

#[test]
fn selector_rejects_invalid_unit_and_member_relations() {
    let groups = [group(1)];
    let other_groups = [group(2)];
    let duplicate_groups = [group(1), group(1)];
    let units = [unit(1, 1, &groups)];
    let duplicate_units = [unit(1, 1, &groups), unit(1, 1, &groups)];
    let empty_groups = [unit(1, 1, &[])];
    let repeated_groups = [unit(1, 1, &duplicate_groups)];
    let unknown_unit = [member(1, 1, 2)];
    let duplicate_credential = [member(1, 1, 1), member(2, 1, 1)];
    let unused_unit = [unit(1, 1, &groups), unit(2, 1, &other_groups)];
    let repeated_across_units = [unit(1, 1, &groups), unit(2, 1, &groups)];
    let members_for_two_units = [member(1, 1, 1), member(2, 2, 2)];
    let members = [member(1, 1, 1)];

    for (units, members, expected) in [
        (&duplicate_units[..], &members[..], AccountSelectorError::DuplicateUnit),
        (&empty_groups[..], &members[..], AccountSelectorError::EmptyQuotaGroups),
        (&repeated_groups[..], &members[..], AccountSelectorError::DuplicateQuotaGroup),
        (&units[..], &unknown_unit[..], AccountSelectorError::UnknownUnit),
        (&units[..], &duplicate_credential[..], AccountSelectorError::DuplicateCredential),
        (
            &repeated_across_units[..],
            &members_for_two_units[..],
            AccountSelectorError::QuotaGroupInMultipleUnits,
        ),
        (&unused_unit[..], &members[..], AccountSelectorError::UnusedUnit),
    ] {
        assert_eq!(
            AccountSelectorDefinition::new(
                selector(1),
                CredentialSelectionPolicy::PriorityFailover,
                QuotaTopologySource::UserConfirmed,
                units,
                members,
            ),
            Err(expected)
        );
    }
}

#[test]
fn shared_quota_unit_owns_weight_once_regardless_of_member_count() {
    let groups = [group(1)];
    let units = [unit(10, 7, &groups)];
    let members = [member(1, 1, 10), member(1, 2, 10)];
    let definition = AccountSelectorDefinition::new(
        selector(1),
        CredentialSelectionPolicy::WeightedLeastInflight,
        QuotaTopologySource::ConservativeDefault,
        &units,
        &members,
    )
    .expect("shared quota unit definition is valid");

    assert_eq!(definition.units().len(), 1);
    assert_eq!(definition.members().len(), 2);
    assert_eq!(
        definition.unit(unit_id(10)).expect("unit exists").effective_weight(),
        7
    );
}

#[test]
fn topology_split_requires_trusted_source_and_allows_multi_group_unit() {
    let groups_one = [group(1), group(2)];
    let groups_two = [group(3)];
    let units = [unit(10, 1, &groups_one), unit(20, 2, &groups_two)];
    let members = [member(1, 1, 10), member(2, 2, 20)];

    assert_eq!(
        AccountSelectorDefinition::new(
            selector(1),
            CredentialSelectionPolicy::PriorityFailover,
            QuotaTopologySource::ConservativeDefault,
            &units,
            &members,
        ),
        Err(AccountSelectorError::ConservativeTopologySplit)
    );
    let definition = AccountSelectorDefinition::new(
        selector(1),
        CredentialSelectionPolicy::PriorityFailover,
        QuotaTopologySource::UserConfirmed,
        &units,
        &members,
    )
    .expect("confirmed topology may split");

    assert_eq!(definition.units().len(), 2);
    assert_eq!(definition.unit(unit_id(10)).expect("first unit exists").quota_groups(), &groups_one);
}

#[test]
fn selector_definition_stays_borrowed_and_small() {
    assert!(core::mem::size_of::<AccountSelectorDefinition<'_>>() <= 56);
    assert!(core::mem::size_of::<QuotaSelectionUnit<'_>>() <= 32);
    assert!(core::mem::size_of::<AccountSelectorMember>() <= 32);
}

#[test]
fn account_selector_catalog_rejects_empty_over_capacity_and_duplicate_ids() {
    let groups = [group(1)];
    let units = [unit(1, 1, &groups)];
    let members = [member(1, 1, 1)];
    let definition = AccountSelectorDefinition::new(
        selector(1),
        CredentialSelectionPolicy::PriorityFailover,
        QuotaTopologySource::ConservativeDefault,
        &units,
        &members,
    )
    .expect("test selector is valid");
    let duplicate = [definition, definition];
    let too_many = [definition; MAX_ACCOUNT_SELECTORS + 1];
    let single = [definition];

    assert_eq!(AccountSelectorCatalog::new(&[]), Err(AccountSelectorCatalogError::Empty));
    assert_eq!(AccountSelectorCatalog::new(&too_many), Err(AccountSelectorCatalogError::TooMany));
    assert_eq!(
        AccountSelectorCatalog::new(&duplicate),
        Err(AccountSelectorCatalogError::DuplicateId)
    );

    let catalog = AccountSelectorCatalog::new(&single).expect("catalog is valid");
    assert_eq!(catalog.len(), 1);
    assert!(!catalog.is_empty());
    assert_eq!(catalog.get(selector(1)).map(|item| item.id()), Some(selector(1)));
    assert_eq!(catalog.get(selector(2)), None);
    assert!(catalog.contains(selector(1)));
    assert!(!catalog.contains(selector(2)));
}

#[test]
fn first_violation_wins_when_several_rules_are_broken() {
    let groups = [group(1)];
    let units = [unit(1, 1, &groups)];
    // The member list repeats a credential and also names an unknown unit later on.
    let members = [member(1, 1, 1), member(2, 1, 1), member(3, 3, 9)];
    assert_eq!(
        AccountSelectorDefinition::new(
            selector(1),
            CredentialSelectionPolicy::RoundRobinCompat,
            QuotaTopologySource::AdapterVerified,
            &units,
            &members,
        ),
        Err(AccountSelectorError::DuplicateCredential)
    );
    let definition = AccountSelectorDefinition::new(
        selector(4),
        CredentialSelectionPolicy::RoundRobinCompat,
        QuotaTopologySource::AdapterVerified,
        &units,
        &members[..1],
    )
    .expect("single member selector is valid");
    assert_eq!(definition.id(), selector(4));
    assert_eq!(definition.policy(), CredentialSelectionPolicy::RoundRobinCompat);
    assert_eq!(definition.topology_source(), QuotaTopologySource::AdapterVerified);
    assert_eq!(definition.unit(unit_id(2)), None);
}
