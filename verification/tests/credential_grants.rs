use routing_core::credential_authorization::{
    authorization_index, AdapterContractRevision, CredentialAuthScheme, CredentialDeviceBindingDefinition, CredentialUseGrant,
    CredentialUseGrantRevision, CredentialUseGrantState, DeploymentAdapterContractDefinition, DeviceBindingId,
    EndpointOrigin, EndpointOriginDefinition, EndpointOriginRevision, StaticCredentialAuthorizationDefinitions,
    StaticCredentialAuthorizationError, StaticCredentialAuthorizations,
};
use routing_core::{
    AccountCatalog, AccountDefinition, AccountId, AccountSelectorCatalog, AccountSelectorDefinition, AccountSelectorId,
    AccountSelectorMember, CredentialCatalog, CredentialDefinition, CredentialId, CredentialSelectionPolicy,
    EndpointId, ModelDeploymentCatalog, ModelDeploymentDefinition, ModelDeploymentId, QuotaGroupId,
    QuotaSelectionUnit, QuotaSelectionUnitId, QuotaTopologySource, RouteCandidate, RouteStageId, RouteTarget,
    RouteTargetId, SiteId, SnapshotVersion,
};

fn account(value: u64) -> AccountId {
    AccountId::new(value).expect("test account id is non-zero")
}

fn credential(value: u64) -> CredentialId {
    CredentialId::new(value).expect("test credential id is non-zero")
}

fn deployment(value: u64) -> ModelDeploymentId {
    ModelDeploymentId::new(value).expect("test deployment id is non-zero")
}

fn endpoint(value: u64) -> EndpointId {
    EndpointId::new(value).expect("test endpoint id is non-zero")
}

fn site(value: u64) -> SiteId {
    SiteId::new(value).expect("test site id is non-zero")
}

fn target(value: u64) -> RouteTargetId {
    RouteTargetId::new(value).expect("test target id is non-zero")
}

fn selector(value: u64) -> AccountSelectorId {
    AccountSelectorId::new(value).expect("test selector id is non-zero")
}

fn stage(value: u64) -> RouteStageId {
    RouteStageId::new(value).expect("test stage id is non-zero")
}

fn unit(value: u64) -> QuotaSelectionUnitId {
    QuotaSelectionUnitId::new(value).expect("test unit id is non-zero")
}

fn group(value: u64) -> QuotaGroupId {
    QuotaGroupId::new(value).expect("test quota group id is non-zero")
}

fn device(value: u64) -> DeviceBindingId {
    DeviceBindingId::new(value).expect("test device binding is non-zero")
}

fn origin(value: &'static str) -> EndpointOrigin<'static> {
    EndpointOrigin::from_host_canonical(value).expect("test origin is non-empty")
}

fn origin_revision(value: u64) -> EndpointOriginRevision {
    EndpointOriginRevision::new(value).expect("test origin revision is non-zero")
}

fn auth_scheme(value: u16) -> CredentialAuthScheme {
    CredentialAuthScheme::registered(value).expect("test auth scheme is non-zero")
}

fn adapter_revision(value: u64) -> AdapterContractRevision {
    AdapterContractRevision::new(value).expect("test adapter revision is non-zero")
}

fn grant_revision(value: u64) -> CredentialUseGrantRevision {
    CredentialUseGrantRevision::new(value).expect("test grant revision is non-zero")
}

#[allow(clippy::too_many_arguments)]
fn exact_grant(
    origin: EndpointOrigin<'static>,
    origin_revision: EndpointOriginRevision,
    account: AccountId,
    credential: CredentialId,
    auth_scheme: CredentialAuthScheme,
    adapter_revision: AdapterContractRevision,
    state: CredentialUseGrantState,
    user_confirmed: bool,
) -> CredentialUseGrant<'static> {
    CredentialUseGrant::new(
        device(1),
        site(1),
        endpoint(1),
        origin,
        origin_revision,
        account,
        credential,
        auth_scheme,
        adapter_revision,
        grant_revision(1),
        state,
        user_confirmed,
    )
}

fn compile_single<'a>(
    endpoint_origins: &'a [EndpointOriginDefinition<'a>],
    adapter_contracts: &'a [DeploymentAdapterContractDefinition],
    credential_bindings: &'a [CredentialDeviceBindingDefinition],
    grants: &'a [CredentialUseGrant<'a>],
) -> Result<StaticCredentialAuthorizations<'a>, StaticCredentialAuthorizationError> {
    let groups = [group(1)];
    let units = [QuotaSelectionUnit::new(unit(1), 1, &groups)];
    let members = [AccountSelectorMember::new(account(1), credential(1), unit(1), 0)];
    let selectors = [AccountSelectorDefinition::new(
        selector(1),
        CredentialSelectionPolicy::PriorityFailover,
        QuotaTopologySource::ConservativeDefault,
        &units,
        &members,
    )
    .expect("test selector is valid")];
    let candidates = [RouteCandidate::ready(
        stage(1),
        RouteTarget::new(target(1), site(1), deployment(1), endpoint(1), selector(1)),
        0,
    )];
    let deployments = [ModelDeploymentDefinition::new(deployment(1), site(1), endpoint(1))];
    let accounts = [AccountDefinition::new(account(1), site(1))];
    let credentials = [CredentialDefinition::new(credential(1), account(1))];
    let deployment_catalog = ModelDeploymentCatalog::new(&deployments).expect("test deployment catalog is valid");
    let selector_catalog = AccountSelectorCatalog::new(&selectors).expect("test selector catalog is valid");
    let account_catalog = AccountCatalog::new(&accounts).expect("test account catalog is valid");
    let credential_catalog =
        CredentialCatalog::new(&credentials, &account_catalog).expect("test credential catalog is valid");

    StaticCredentialAuthorizations::compile(
        SnapshotVersion::new(1).expect("test snapshot version is non-zero"),
        &candidates,
        &deployment_catalog,
        &selector_catalog,
        &account_catalog,
        &credential_catalog,
        StaticCredentialAuthorizationDefinitions::new(
            device(1),
            endpoint_origins,
            adapter_contracts,
            credential_bindings,
            grants,
        ),
    )
}

fn definitions() -> (
    [EndpointOriginDefinition<'static>; 1],
    [DeploymentAdapterContractDefinition; 1],
    [CredentialDeviceBindingDefinition; 1],
) {
    (
        [EndpointOriginDefinition::new(site(1), endpoint(1), origin("https://api.example.test"), origin_revision(1))],
        [DeploymentAdapterContractDefinition::new(deployment(1), adapter_revision(1))],
        [CredentialDeviceBindingDefinition::new(credential(1), device(1), auth_scheme(1))],
    )
}

fn approved() -> CredentialUseGrant<'static> {
    exact_grant(
        origin("https://api.example.test"),
        origin_revision(1),
        account(1),
        credential(1),
        auth_scheme(1),
        adapter_revision(1),
        CredentialUseGrantState::Approved,
        true,
    )
}

#[test]
fn compiles_exact_approved_confirmed_grant_into_fixed_slot() {
    let (endpoint_origins, adapter_contracts, credential_bindings) = definitions();
    let grants = [approved()];
    let authorizations = compile_single(&endpoint_origins, &adapter_contracts, &credential_bindings, &grants)
        .expect("an exact approved grant must compile");
    assert!(authorizations.entry_for(0, 0).is_some());
    assert!(authorizations.entry_for(0, 1).is_none());
    assert!(authorizations.entry_for(1, 0).is_none());
}

#[test]
fn rejects_missing_duplicate_pending_unconfirmed_and_mismatched_grants() {
    let (endpoint_origins, adapter_contracts, credential_bindings) = definitions();
    let check = |grants: &[CredentialUseGrant<'static>], expected: StaticCredentialAuthorizationError| {
        assert!(matches!(
            compile_single(&endpoint_origins, &adapter_contracts, &credential_bindings, grants),
            Err(error) if error == expected
        ));
    };
    let with = |state, confirmed| {
        exact_grant(
            origin("https://api.example.test"),
            origin_revision(1),
            account(1),
            credential(1),
            auth_scheme(1),
            adapter_revision(1),
            state,
            confirmed,
        )
    };
    check(&[], StaticCredentialAuthorizationError::MissingExactGrant);
    check(&[with(CredentialUseGrantState::Pending, true)], StaticCredentialAuthorizationError::GrantNotApproved);
    check(&[with(CredentialUseGrantState::Stale, true)], StaticCredentialAuthorizationError::GrantNotApproved);
    check(&[with(CredentialUseGrantState::Revoked, true)], StaticCredentialAuthorizationError::GrantNotApproved);
    let unconfirmed = [with(CredentialUseGrantState::Approved, false)];
    check(&unconfirmed, StaticCredentialAuthorizationError::GrantNotUserConfirmed);
    check(&[approved(), approved()], StaticCredentialAuthorizationError::DuplicateGrant);

    let mismatched = |o: &'static str, o_rev: u64, acct: u64, scheme: u16, adapter: u64| {
        exact_grant(
            origin(o),
            origin_revision(o_rev),
            account(acct),
            credential(1),
            auth_scheme(scheme),
            adapter_revision(adapter),
            CredentialUseGrantState::Approved,
            true,
        )
    };
    check(
        &[mismatched("https://api.example.test", 1, 1, 1, 2)],
        StaticCredentialAuthorizationError::GrantBindingMismatch,
    );
    check(
        &[mismatched("https://other.example.test", 1, 1, 1, 1)],
        StaticCredentialAuthorizationError::GrantBindingMismatch,
    );
    check(
        &[mismatched("https://api.example.test", 2, 1, 1, 1)],
        StaticCredentialAuthorizationError::GrantBindingMismatch,
    );
    check(
        &[mismatched("https://api.example.test", 1, 2, 1, 1)],
        StaticCredentialAuthorizationError::GrantBindingMismatch,
    );
    check(
        &[mismatched("https://api.example.test", 1, 1, 2, 1)],
        StaticCredentialAuthorizationError::GrantBindingMismatch,
    );

    let wrong_device_bindings = [CredentialDeviceBindingDefinition::new(credential(1), device(2), auth_scheme(1))];
    assert!(matches!(
        compile_single(&endpoint_origins, &adapter_contracts, &wrong_device_bindings, &unconfirmed),
        Err(StaticCredentialAuthorizationError::CredentialDeviceBindingMismatch)
    ));
}

#[test]
fn rejects_duplicate_static_definitions_and_unreachable_grants() {
    let (endpoint_origins, adapter_contracts, credential_bindings) = definitions();
    let grants = [approved()];
    let duplicate_origins = [endpoint_origins[0], endpoint_origins[0]];
    assert!(matches!(
        compile_single(&duplicate_origins, &adapter_contracts, &credential_bindings, &grants),
        Err(StaticCredentialAuthorizationError::DuplicateEndpointOrigin)
    ));
    let duplicate_adapters = [adapter_contracts[0], adapter_contracts[0]];
    assert!(matches!(
        compile_single(&endpoint_origins, &duplicate_adapters, &credential_bindings, &grants),
        Err(StaticCredentialAuthorizationError::DuplicateDeploymentAdapterContract)
    ));
    let wrong_site_origins =
        [EndpointOriginDefinition::new(site(2), endpoint(1), origin("https://api.example.test"), origin_revision(1))];
    assert!(matches!(
        compile_single(&wrong_site_origins, &adapter_contracts, &credential_bindings, &grants),
        Err(StaticCredentialAuthorizationError::EndpointOriginSiteMismatch)
    ));
    let duplicate_bindings = [credential_bindings[0], credential_bindings[0]];
    assert!(matches!(
        compile_single(&endpoint_origins, &adapter_contracts, &duplicate_bindings, &grants),
        Err(StaticCredentialAuthorizationError::DuplicateCredentialBinding)
    ));
    let unused = CredentialUseGrant::new(
        device(1),
        site(1),
        endpoint(2),
        origin("https://other.example.test"),
        origin_revision(1),
        account(1),
        credential(1),
        auth_scheme(1),
        adapter_revision(1),
        grant_revision(2),
        CredentialUseGrantState::Approved,
        true,
    );
    let grants = [grants[0], unused];
    assert!(matches!(
        compile_single(&endpoint_origins, &adapter_contracts, &credential_bindings, &grants),
        Err(StaticCredentialAuthorizationError::UnusedOrMismatchedGrant)
    ));
}

#[test]
fn same_credential_requires_separate_exact_grants_for_each_origin() {
    let groups = [group(1)];
    let units = [QuotaSelectionUnit::new(unit(1), 1, &groups)];
    let members = [AccountSelectorMember::new(account(1), credential(1), unit(1), 0)];
    let selectors = [AccountSelectorDefinition::new(
        selector(1),
        CredentialSelectionPolicy::PriorityFailover,
        QuotaTopologySource::ConservativeDefault,
        &units,
        &members,
    )
    .expect("test selector is valid")];
    let candidates = [
        RouteCandidate::ready(stage(1), RouteTarget::new(target(1), site(1), deployment(1), endpoint(1), selector(1)), 0),
        RouteCandidate::ready(stage(2), RouteTarget::new(target(2), site(1), deployment(2), endpoint(2), selector(1)), 0),
    ];
    let deployments = [
        ModelDeploymentDefinition::new(deployment(1), site(1), endpoint(1)),
        ModelDeploymentDefinition::new(deployment(2), site(1), endpoint(2)),
    ];
    let accounts = [AccountDefinition::new(account(1), site(1))];
    let credentials = [CredentialDefinition::new(credential(1), account(1))];
    let deployment_catalog = ModelDeploymentCatalog::new(&deployments).expect("test deployment catalog is valid");
    let selector_catalog = AccountSelectorCatalog::new(&selectors).expect("test selector catalog is valid");
    let account_catalog = AccountCatalog::new(&accounts).expect("test account catalog is valid");
    let credential_catalog =
        CredentialCatalog::new(&credentials, &account_catalog).expect("test credential catalog is valid");
    let first_origin = origin("https://first.example.test");
    let second_origin = origin("https://second.example.test");
    let endpoint_origins = [
        EndpointOriginDefinition::new(site(1), endpoint(1), first_origin, origin_revision(1)),
        EndpointOriginDefinition::new(site(1), endpoint(2), second_origin, origin_revision(2)),
    ];
    let adapter_contracts = [
        DeploymentAdapterContractDefinition::new(deployment(1), adapter_revision(1)),
        DeploymentAdapterContractDefinition::new(deployment(2), adapter_revision(2)),
    ];
    let credential_bindings = [CredentialDeviceBindingDefinition::new(credential(1), device(1), auth_scheme(1))];
    let grant = |e: u64, o: EndpointOrigin<'static>, rev: u64, adapter: u64| {
        CredentialUseGrant::new(
            device(1),
            site(1),
            endpoint(e),
            o,
            origin_revision(rev),
            account(1),
            credential(1),
            auth_scheme(1),
            adapter_revision(adapter),
            grant_revision(e),
            CredentialUseGrantState::Approved,
            true,
        )
    };
    let compile = |grants: &[CredentialUseGrant<'static>]| {
        StaticCredentialAuthorizations::compile(
            SnapshotVersion::new(1).expect("test snapshot version is non-zero"),
            &candidates,
            &deployment_catalog,
            &selector_catalog,
            &account_catalog,
            &credential_catalog,
            StaticCredentialAuthorizationDefinitions::new(
                device(1),
                &endpoint_origins,
                &adapter_contracts,
                &credential_bindings,
                grants,
            ),
        )
        .map(|authorizations| (authorizations.entry_for(0, 0).is_some(), authorizations.entry_for(1, 0).is_some()))
    };
    let only_first = [grant(1, first_origin, 1, 1)];
    assert_eq!(compile(&only_first), Err(StaticCredentialAuthorizationError::GrantBindingMismatch));
    let both = [grant(1, first_origin, 1, 1), grant(2, second_origin, 2, 2)];
    assert_eq!(compile(&both), Ok((true, true)));
    let crossed = [grant(1, first_origin, 1, 1), grant(2, first_origin, 2, 2)];
    assert_eq!(compile(&crossed), Err(StaticCredentialAuthorizationError::GrantBindingMismatch));
}

#[test]
fn authorization_slots_are_exact_and_bounded() {
    assert_eq!(authorization_index(0, 0), Some(0));
    assert_eq!(authorization_index(1, 2), Some(18));
    assert_eq!(authorization_index(15, 15), Some(255));
    assert_eq!(authorization_index(16, 0), None);
    assert_eq!(authorization_index(0, 16), None);
}
