use routing_core::{
    AccountCatalog, AccountCatalogError, AccountDefinition, AccountId, CredentialCatalog,
    CredentialCatalogError, CredentialDefinition, CredentialId, EndpointId,
    ModelDeploymentCatalog, ModelDeploymentCatalogError, ModelDeploymentDefinition,
    ModelDeploymentId, SiteId, MAX_ACCOUNTS, MAX_CREDENTIALS, MAX_MODEL_DEPLOYMENTS,
};

fn account(value: u64, site_value: u64) -> AccountDefinition {
    AccountDefinition::new(
        AccountId::new(value).expect("test account id is non-zero"),
        SiteId::new(site_value).expect("test site id is non-zero"),
    )
}

fn credential(value: u64, account_value: u64) -> CredentialDefinition {
    CredentialDefinition::new(
        CredentialId::new(value).expect("test credential id is non-zero"),
        AccountId::new(account_value).expect("test account id is non-zero"),
    )
}

fn deployment(value: u64) -> ModelDeploymentDefinition {
    ModelDeploymentDefinition::new(
        ModelDeploymentId::new(value).expect("test deployment id is non-zero"),
        SiteId::new(value).expect("test site id is non-zero"),
        EndpointId::new(value).expect("test endpoint id is non-zero"),
    )
}

#[test]
fn account_catalog_rejects_invalid_shape_and_accepts_maximum() {
    let definition = account(1, 1);
    let duplicate = [definition, definition];
    let too_many = [definition; MAX_ACCOUNTS + 1];
    let maximum: [AccountDefinition; MAX_ACCOUNTS] =
        core::array::from_fn(|index| account((index + 1) as u64, 1));

    assert_eq!(AccountCatalog::new(&[]), Err(AccountCatalogError::Empty));
    assert_eq!(AccountCatalog::new(&too_many), Err(AccountCatalogError::TooMany));
    assert_eq!(AccountCatalog::new(&duplicate), Err(AccountCatalogError::DuplicateId));

    let catalog = AccountCatalog::new(&maximum).expect("maximum catalog is valid");
    assert_eq!(catalog.len(), MAX_ACCOUNTS);
    assert!(!catalog.is_empty());
    assert_eq!(
        catalog.get(AccountId::new(16).expect("test account id is non-zero")),
        Some(&maximum[15])
    );
}

#[test]
fn credential_catalog_rejects_invalid_shape_owner_and_accepts_maximum() {
    let accounts = [account(1, 1)];
    let account_catalog = AccountCatalog::new(&accounts).expect("account catalog is valid");
    let definition = credential(1, 1);
    let duplicate = [definition, definition];
    let too_many = [definition; MAX_CREDENTIALS + 1];
    let unknown_owner = [credential(1, 2)];
    let maximum: [CredentialDefinition; MAX_CREDENTIALS] =
        core::array::from_fn(|index| credential((index + 1) as u64, 1));

    assert_eq!(
        CredentialCatalog::new(&[], &account_catalog),
        Err(CredentialCatalogError::Empty)
    );
    assert_eq!(
        CredentialCatalog::new(&too_many, &account_catalog),
        Err(CredentialCatalogError::TooMany)
    );
    assert_eq!(
        CredentialCatalog::new(&duplicate, &account_catalog),
        Err(CredentialCatalogError::DuplicateId)
    );
    assert_eq!(
        CredentialCatalog::new(&unknown_owner, &account_catalog),
        Err(CredentialCatalogError::UnknownOwnerAccount)
    );

    let catalog =
        CredentialCatalog::new(&maximum, &account_catalog).expect("maximum catalog is valid");
    assert_eq!(catalog.len(), MAX_CREDENTIALS);
    assert!(!catalog.is_empty());
    assert_eq!(
        catalog.get(CredentialId::new(16).expect("test credential id is non-zero")),
        Some(&maximum[15])
    );
}

#[test]
fn model_deployment_catalog_rejects_empty_over_capacity_and_duplicate_ids() {
    let definition = deployment(1);
    let duplicate = [definition, definition];
    let too_many = [definition; MAX_MODEL_DEPLOYMENTS + 1];
    let single = [definition];

    assert_eq!(ModelDeploymentCatalog::new(&[]), Err(ModelDeploymentCatalogError::Empty));
    assert_eq!(
        ModelDeploymentCatalog::new(&too_many),
        Err(ModelDeploymentCatalogError::TooMany)
    );
    assert_eq!(
        ModelDeploymentCatalog::new(&duplicate),
        Err(ModelDeploymentCatalogError::DuplicateId)
    );

    let catalog = ModelDeploymentCatalog::new(&single).expect("catalog is valid");
    assert_eq!(catalog.len(), 1);
    assert!(!catalog.is_empty());
    assert_eq!(
        catalog.get(ModelDeploymentId::new(1).expect("test deployment id is non-zero")),
        Some(&single[0])
    );
    assert_eq!(
        catalog.get(ModelDeploymentId::new(2).expect("test deployment id is non-zero")),
        None
    );
}

#[test]
fn credential_lookup_of_missing_owner_reports_owner_error_before_duplicates_later() {
    let accounts = [account(1, 1), account(2, 2)];
    let account_catalog = AccountCatalog::new(&accounts).expect("account catalog is valid");
    let owner_then_duplicate = [credential(1, 3), credential(1, 1)];
    assert_eq!(
        CredentialCatalog::new(&owner_then_duplicate, &account_catalog),
        Err(CredentialCatalogError::UnknownOwnerAccount)
    );
    let site_of_second = account_catalog
        .get(AccountId::new(2).expect("test account id is non-zero"))
        .map(|item| item.site().get());
    assert_eq!(site_of_second, Some(2));
}
