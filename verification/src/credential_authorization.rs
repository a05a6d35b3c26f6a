//! Static exact credential-use authorizations, compiled into a fixed-capacity index.
//!
//! The module takes only origins that the host has already canonicalized. When a snapshot is
//! compiled, the explicit user grant of every reachable `RouteTarget × AccountSelectorMember`
//! is fixed into its own slot. It parses no URI, holds no secret and builds no final URL,
//! request nonce or credential use context.
use vstd::prelude::*;
use vstd::string::StringSliceAdditionalSpecFns;

use crate::account_credential::{AccountCatalog, AccountDefinition, CredentialCatalog, CredentialDefinition};
use crate::account_selector::{
    AccountSelectorCatalog, AccountSelectorDefinition, AccountSelectorMember, MAX_ACCOUNT_SELECTOR_MEMBERS,
};
use crate::contract::bytes::bytes_eq;
use crate::ids::{AccountId, AccountSelectorId, CredentialId, EndpointId, ModelDeploymentId, SiteId, SnapshotVersion};
use crate::model_deployment::{ModelDeploymentCatalog, ModelDeploymentDefinition};
use crate::route::{RouteCandidate, RouteTarget};
use crate::MAX_ROUTE_TARGETS;

verus! {

/// The largest number of exact credential authorizations one snapshot may fix.
pub const MAX_STATIC_CREDENTIAL_AUTHORIZATIONS: usize = 256;

/// The stable identifier of a credential binding on this device.
///
/// It states only a device binding the host has checked; it is no secret reference.
#[derive(Clone, Copy, Debug, PartialEq, Eq, Structural)]
pub struct DeviceBindingId(u64);

impl DeviceBindingId {
    /// The underlying value.
    pub closed spec fn value(self) -> u64 {
        self.0
    }

    /// Builds the binding from a non-zero identifier; zero is refused.
    pub fn new(value: u64) -> (r: Option<Self>)
        ensures
            value == 0 <==> r is None,
            r matches Some(d) ==> d.value() == value,
    {
        if value == 0 {
            None
        } else {
            Some(DeviceBindingId(value))
        }
    }
}

/// An opaque carrier of an endpoint origin that the host has canonicalized.
///
/// Its string is never parsed or exposed here; it is only compared exactly.
#[derive(Clone, Copy)]
pub struct EndpointOrigin<'a>(&'a str);

impl<'a> EndpointOrigin<'a> {
    /// The origin bytes.
    pub closed spec fn bytes(&self) -> Seq<u8> {
        self.0.spec_bytes()
    }

    /// Takes a non-empty origin from the host's one canonicalizer.
    pub fn from_host_canonical(value: &'a str) -> (r: Option<Self>)
        ensures
            value.spec_bytes().len() == 0 <==> r is None,
            r matches Some(o) ==> o.bytes() == value.spec_bytes(),
    {
        if value.as_bytes().len() == 0 {
            None
        } else {
            Some(EndpointOrigin(value))
        }
    }

    fn same(&self, other: &Self) -> (r: bool)
        ensures
            r == (self.bytes() == other.bytes()),
    {
        bytes_eq(self.0.as_bytes(), other.0.as_bytes())
    }
}

/// The immutable revision of an endpoint origin.
#[derive(Clone, Copy, Debug, PartialEq, Eq, Structural)]
pub struct EndpointOriginRevision(u64);

impl EndpointOriginRevision {
    /// The underlying value.
    pub closed spec fn value(self) -> u64 {
        self.0
    }

    /// Builds the revision from a non-zero value; zero is refused.
    pub fn new(value: u64) -> (r: Option<Self>)
        ensures
            value == 0 <==> r is None,
            r matches Some(v) ==> v.value() == value,
    {
        if value == 0 {
            None
        } else {
            Some(EndpointOriginRevision(value))
        }
    }
}

/// A registered credential auth scheme.
#[derive(Clone, Copy, Debug, PartialEq, Eq, Structural)]
pub struct CredentialAuthScheme(u16);

impl CredentialAuthScheme {
    /// The underlying value.
    pub closed spec fn value(self) -> u16 {
        self.0
    }

    /// Builds a registered scheme from a non-zero code; zero is refused.
    pub fn registered(value: u16) -> (r: Option<Self>)
        ensures
            value == 0 <==> r is None,
            r matches Some(v) ==> v.value() == value,
    {
        if value == 0 {
            None
        } else {
            Some(CredentialAuthScheme(value))
        }
    }
}

/// The revision of the adapter contract of a model deployment.
#[derive(Clone, Copy, Debug, PartialEq, Eq, Structural)]
pub struct AdapterContractRevision(u64);

impl AdapterContractRevision {
    /// The underlying value.
    pub closed spec fn value(self) -> u64 {
        self.0
    }

    /// Builds the revision from a non-zero value; zero is refused.
    pub fn new(value: u64) -> (r: Option<Self>)
        ensures
            value == 0 <==> r is None,
            r matches Some(v) ==> v.value() == value,
    {
        if value == 0 {
            None
        } else {
            Some(AdapterContractRevision(value))
        }
    }
}

/// The revision of a credential use grant.
#[derive(Clone, Copy, Debug, PartialEq, Eq, Structural)]
pub struct CredentialUseGrantRevision(u64);

impl CredentialUseGrantRevision {
    /// The underlying value.
    pub closed spec fn value(self) -> u64 {
        self.0
    }

    /// Builds the revision from a non-zero value; zero is refused.
    pub fn new(value: u64) -> (r: Option<Self>)
        ensures
            value == 0 <==> r is None,
            r matches Some(v) ==> v.value() == value,
    {
        if value == 0 {
            None
        } else {
            Some(CredentialUseGrantRevision(value))
        }
    }
}

/// Where a grant stands in its life.
#[derive(Clone, Copy, Debug, PartialEq, Eq, Structural)]
pub enum CredentialUseGrantState {
    /// Still waiting for the user's confirmation; it authorizes nothing.
    Pending,
    /// Confirmed by the local user.
    Approved,
    /// The endpoint origin or another bound fact has changed.
    Stale,
    /// Revoked by the user or the system.
    Revoked,
}

/// The static binding of an endpoint to its canonical origin.
#[derive(Clone, Copy)]
pub struct EndpointOriginDefinition<'a> {
    pub site: SiteId,
    pub endpoint: EndpointId,
    pub origin: EndpointOrigin<'a>,
    pub revision: EndpointOriginRevision,
}

impl<'a> EndpointOriginDefinition<'a> {
    /// Builds the static binding of a canonical endpoint origin.
    pub fn new(site: SiteId, endpoint: EndpointId, origin: EndpointOrigin<'a>, revision: EndpointOriginRevision) -> (r:
        Self)
        ensures
            r == (EndpointOriginDefinition { site, endpoint, origin, revision }),
    {
        EndpointOriginDefinition { site, endpoint, origin, revision }
    }
}

/// The static binding of a model deployment to its trusted adapter contract revision.
#[derive(Clone, Copy, Debug, PartialEq, Eq, Structural)]
pub struct DeploymentAdapterContractDefinition {
    pub deployment: ModelDeploymentId,
    pub revision: AdapterContractRevision,
}

impl DeploymentAdapterContractDefinition {
    /// Builds the adapter contract binding of a model deployment.
    pub fn new(deployment: ModelDeploymentId, revision: AdapterContractRevision) -> (r: Self)
        ensures
            r == (DeploymentAdapterContractDefinition { deployment, revision }),
    {
        DeploymentAdapterContractDefinition { deployment, revision }
    }
}

/// The static binding of a credential to this device and an auth scheme.
#[derive(Clone, Copy, Debug, PartialEq, Eq, Structural)]
pub struct CredentialDeviceBindingDefinition {
    pub credential: CredentialId,
    pub device_binding: DeviceBindingId,
    pub auth_scheme: CredentialAuthScheme,
}

impl CredentialDeviceBindingDefinition {
    /// Builds the relation of a credential, a device binding and an auth scheme.
    pub fn new(credential: CredentialId, device_binding: DeviceBindingId, auth_scheme: CredentialAuthScheme) -> (r:
        Self)
        ensures
            r == (CredentialDeviceBindingDefinition { credential, device_binding, auth_scheme }),
    {
        CredentialDeviceBindingDefinition { credential, device_binding, auth_scheme }
    }
}

/// An exact credential use permission that the local user granted.
///
/// It holds no secret, URL path or header; its origin was canonicalized by the host. The
/// target, selector member and snapshot are fixed into the authorization at compile time
/// only, so a stored grant cannot forge them.
#[derive(Clone, Copy)]
pub struct CredentialUseGrant<'a> {
    pub device_binding: DeviceBindingId,
    pub site: SiteId,
    pub endpoint: EndpointId,
    pub origin: EndpointOrigin<'a>,
    pub origin_revision: EndpointOriginRevision,
    pub account: AccountId,
    pub credential: CredentialId,
    pub auth_scheme: CredentialAuthScheme,
    pub adapter_contract_revision: AdapterContractRevision,
    pub revision: CredentialUseGrantRevision,
    pub state: CredentialUseGrantState,
    pub user_confirmed: bool,
}

/// Whether a grant matches the exact static binding of a target and a selector member.
pub open spec fn grant_matches(
    g: CredentialUseGrant,
    o: EndpointOriginDefinition,
    a: DeploymentAdapterContractDefinition,
    b: CredentialDeviceBindingDefinition,
    account: AccountId,
    credential: CredentialId,
) -> bool {
    &&& g.device_binding == b.device_binding
    &&& g.site == o.site
    &&& g.endpoint == o.endpoint
    &&& g.origin.bytes() == o.origin.bytes()
    &&& g.origin_revision == o.revision
    &&& g.account == account
    &&& g.credential == credential
    &&& g.auth_scheme == b.auth_scheme
    &&& g.adapter_contract_revision == a.revision
}

impl<'a> CredentialUseGrant<'a> {
    /// Builds a grant that the host read from its store and the snapshot compiler has yet to
    /// check.
    pub fn new(
        device_binding: DeviceBindingId,
        site: SiteId,
        endpoint: EndpointId,
        origin: EndpointOrigin<'a>,
        origin_revision: EndpointOriginRevision,
        account: AccountId,
        credential: CredentialId,
        auth_scheme: CredentialAuthScheme,
        adapter_contract_revision: AdapterContractRevision,
        revision: CredentialUseGrantRevision,
        state: CredentialUseGrantState,
        user_confirmed: bool,
    ) -> (r: Self)
        ensures
            r == (CredentialUseGrant {
                device_binding,
                site,
                endpoint,
                origin,
                origin_revision,
                account,
                credential,
                auth_scheme,
                adapter_contract_revision,
                revision,
                state,
                user_confirmed,
            }),
    {
        CredentialUseGrant {
            device_binding,
            site,
            endpoint,
            origin,
            origin_revision,
            account,
            credential,
            auth_scheme,
            adapter_contract_revision,
            revision,
            state,
            user_confirmed,
        }
    }

    fn matches_static_binding(
        &self,
        endpoint_origin: &EndpointOriginDefinition<'a>,
        adapter_contract: DeploymentAdapterContractDefinition,
        credential_binding: CredentialDeviceBindingDefinition,
        account: AccountId,
        credential: CredentialId,
    ) -> (r: bool)
        ensures
            r == grant_matches(*self, *endpoint_origin, adapter_contract, credential_binding, account, credential),
    {
        self.device_binding == credential_binding.device_binding && self.site == endpoint_origin.site && self.endpoint
            == endpoint_origin.endpoint && self.origin.same(&endpoint_origin.origin) && self.origin_revision
            == endpoint_origin.revision && self.account == account && self.credential == credential && self.auth_scheme
            == credential_binding.auth_scheme && self.adapter_contract_revision == adapter_contract.revision
    }
}

/// The host facts that compiling the static credential authorizations needs.
///
/// They are read only before a snapshot is activated; at run time only the fixed slots are
/// read.
#[derive(Clone, Copy)]
pub struct StaticCredentialAuthorizationDefinitions<'a> {
    pub device_binding: DeviceBindingId,
    pub endpoint_origins: &'a [EndpointOriginDefinition<'a>],
    pub deployment_adapter_contracts: &'a [DeploymentAdapterContractDefinition],
    pub credential_bindings: &'a [CredentialDeviceBindingDefinition],
    pub grants: &'a [CredentialUseGrant<'a>],
}

impl<'a> StaticCredentialAuthorizationDefinitions<'a> {
    /// Takes this device's binding and the static endpoint, adapter, credential binding and
    /// grant definitions.
    pub fn new(
        device_binding: DeviceBindingId,
        endpoint_origins: &'a [EndpointOriginDefinition<'a>],
        deployment_adapter_contracts: &'a [DeploymentAdapterContractDefinition],
        credential_bindings: &'a [CredentialDeviceBindingDefinition],
        grants: &'a [CredentialUseGrant<'a>],
    ) -> (r: Self)
        ensures
            r == (StaticCredentialAuthorizationDefinitions {
                device_binding,
                endpoint_origins,
                deployment_adapter_contracts,
                credential_bindings,
                grants,
            }),
    {
        StaticCredentialAuthorizationDefinitions {
            device_binding,
            endpoint_origins,
            deployment_adapter_contracts,
            credential_bindings,
            grants,
        }
    }
}

/// Why compiling the static credential authorizations failed closed.
#[derive(Clone, Copy, Debug, PartialEq, Eq, Structural)]
pub enum StaticCredentialAuthorizationError {
    /// More endpoint origin definitions than the fixed limit.
    TooManyEndpointOrigins,
    /// One endpoint has several origin definitions.
    DuplicateEndpointOrigin,
    /// More adapter contract definitions than the fixed limit.
    TooManyDeploymentAdapterContracts,
    /// One model deployment has several adapter contract definitions.
    DuplicateDeploymentAdapterContract,
    /// More credential device binding definitions than the fixed limit.
    TooManyCredentialBindings,
    /// One credential has several device binding definitions.
    DuplicateCredentialBinding,
    /// More grants than the fixed number of authorization slots.
    TooManyGrants,
    /// A reachable target has no endpoint origin definition.
    MissingEndpointOrigin,
    /// The site of an endpoint origin differs from that of the reachable target.
    EndpointOriginSiteMismatch,
    /// A reachable model deployment has no adapter contract definition.
    MissingDeploymentAdapterContract,
    /// A selector member has no credential device binding definition.
    MissingCredentialBinding,
    /// A credential device binding does not belong to this snapshot's device.
    CredentialDeviceBindingMismatch,
    /// A reachable target × selector member has no exact grant.
    MissingExactGrant,
    /// A grant disagrees with the target, endpoint, account, credential, auth scheme or
    /// adapter binding.
    GrantBindingMismatch,
    /// One exact static binding has several grants.
    DuplicateGrant,
    /// A grant is not approved.
    GrantNotApproved,
    /// A grant lacks the local user's confirmation.
    GrantNotUserConfirmed,
    /// A grant is bound to no reachable target × selector member.
    UnusedOrMismatchedGrant,
    /// A fixed slot falls outside the compiled limit.
    AuthorizationIndexOutOfBounds,
}

/// One static authorization record in the fixed index.
#[derive(Clone, Copy)]
pub struct StaticCredentialAuthorizationEntry<'config> {
    pub snapshot_version: SnapshotVersion,
    pub target: RouteTarget,
    pub selector_id: AccountSelectorId,
    pub member_index: u8,
    pub account: AccountId,
    pub credential: CredentialId,
    pub endpoint_origin: EndpointOriginDefinition<'config>,
    pub adapter_contract: DeploymentAdapterContractDefinition,
    pub credential_binding: CredentialDeviceBindingDefinition,
    pub grant_revision: CredentialUseGrantRevision,
}

/// The deployment with identifier `id`, if the catalog holds one.
pub open spec fn deployment_for(deps: Seq<ModelDeploymentDefinition>, id: ModelDeploymentId) -> Option<
    ModelDeploymentDefinition,
> {
    if exists|i: int| 0 <= i < deps.len() && #[trigger] deps[i].spec_id() == id {
        Some(deps[choose|i: int| 0 <= i < deps.len() && #[trigger] deps[i].spec_id() == id])
    } else {
        None
    }
}

/// The selector with identifier `id`, if the catalog holds one.
pub open spec fn selector_for<'a>(sels: Seq<AccountSelectorDefinition<'a>>, id: AccountSelectorId) -> Option<
    AccountSelectorDefinition<'a>,
> {
    if exists|i: int| 0 <= i < sels.len() && #[trigger] sels[i].spec_id() == id {
        Some(sels[choose|i: int| 0 <= i < sels.len() && #[trigger] sels[i].spec_id() == id])
    } else {
        None
    }
}

/// The account with identifier `id`, if the catalog holds one.
pub open spec fn account_for(accts: Seq<AccountDefinition>, id: AccountId) -> Option<AccountDefinition> {
    if exists|i: int| 0 <= i < accts.len() && #[trigger] accts[i].spec_id() == id {
        Some(accts[choose|i: int| 0 <= i < accts.len() && #[trigger] accts[i].spec_id() == id])
    } else {
        None
    }
}

/// The credential with identifier `id`, if the catalog holds one.
pub open spec fn credential_for(creds: Seq<CredentialDefinition>, id: CredentialId) -> Option<CredentialDefinition> {
    if exists|i: int| 0 <= i < creds.len() && #[trigger] creds[i].spec_id() == id {
        Some(creds[choose|i: int| 0 <= i < creds.len() && #[trigger] creds[i].spec_id() == id])
    } else {
        None
    }
}

/// The origin definition of endpoint `e`, if there is one.
pub open spec fn origin_for<'a>(defs: Seq<EndpointOriginDefinition<'a>>, e: EndpointId) -> Option<
    EndpointOriginDefinition<'a>,
> {
    if exists|i: int| 0 <= i < defs.len() && #[trigger] defs[i].endpoint == e {
        Some(defs[choose|i: int| 0 <= i < defs.len() && #[trigger] defs[i].endpoint == e])
    } else {
        None
    }
}

/// The adapter contract definition of deployment `d`, if there is one.
pub open spec fn adapter_for(defs: Seq<DeploymentAdapterContractDefinition>, d: ModelDeploymentId) -> Option<
    DeploymentAdapterContractDefinition,
> {
    if exists|i: int| 0 <= i < defs.len() && #[trigger] defs[i].deployment == d {
        Some(defs[choose|i: int| 0 <= i < defs.len() && #[trigger] defs[i].deployment == d])
    } else {
        None
    }
}

/// The device binding definition of credential `c`, if there is one.
pub open spec fn binding_for(defs: Seq<CredentialDeviceBindingDefinition>, c: CredentialId) -> Option<
    CredentialDeviceBindingDefinition,
> {
    if exists|i: int| 0 <= i < defs.len() && #[trigger] defs[i].credential == c {
        Some(defs[choose|i: int| 0 <= i < defs.len() && #[trigger] defs[i].credential == c])
    } else {
        None
    }
}

/// The first refusal of the definitions' shape: the size limits, then duplicates.
pub open spec fn shape_error(defs: StaticCredentialAuthorizationDefinitions) -> Option<StaticCredentialAuthorizationError> {
    let o = defs.endpoint_origins@;
    let a = defs.deployment_adapter_contracts@;
    let b = defs.credential_bindings@;
    if o.len() > MAX_ROUTE_TARGETS {
        Some(StaticCredentialAuthorizationError::TooManyEndpointOrigins)
    } else if a.len() > MAX_ROUTE_TARGETS {
        Some(StaticCredentialAuthorizationError::TooManyDeploymentAdapterContracts)
    } else if b.len() > MAX_ROUTE_TARGETS {
        Some(StaticCredentialAuthorizationError::TooManyCredentialBindings)
    } else if defs.grants@.len() > MAX_STATIC_CREDENTIAL_AUTHORIZATIONS {
        Some(StaticCredentialAuthorizationError::TooManyGrants)
    } else if exists|i: int, j: int| 0 <= i < j < o.len() && #[trigger] o[i].endpoint == #[trigger] o[j].endpoint {
        Some(StaticCredentialAuthorizationError::DuplicateEndpointOrigin)
    } else if exists|i: int, j: int| 0 <= i < j < a.len() && #[trigger] a[i].deployment == #[trigger] a[j].deployment {
        Some(StaticCredentialAuthorizationError::DuplicateDeploymentAdapterContract)
    } else if exists|i: int, j: int| 0 <= i < j < b.len() && #[trigger] b[i].credential == #[trigger] b[j].credential {
        Some(StaticCredentialAuthorizationError::DuplicateCredentialBinding)
    } else {
        None
    }
}

/// What a reachable target needs before its members are checked: a deployment that matches
/// its site and endpoint, an origin definition of its endpoint on its site, an adapter
/// contract of its deployment, and its selector.
#[verifier::opaque]
pub open spec fn candidate_check<'a, 'c>(
    t: RouteTarget,
    deps: Seq<ModelDeploymentDefinition>,
    sels: Seq<AccountSelectorDefinition<'c>>,
    defs: StaticCredentialAuthorizationDefinitions<'a>,
) -> Result<
    (EndpointOriginDefinition<'a>, DeploymentAdapterContractDefinition, AccountSelectorDefinition<'c>),
    StaticCredentialAuthorizationError,
> {
    match deployment_for(deps, t.spec_deployment()) {
        None => Err(StaticCredentialAuthorizationError::GrantBindingMismatch),
        Some(d) => if d.spec_site() != t.spec_site() || d.spec_endpoint() != t.spec_endpoint() {
            Err(StaticCredentialAuthorizationError::GrantBindingMismatch)
        } else {
            match origin_for(defs.endpoint_origins@, t.spec_endpoint()) {
                None => Err(StaticCredentialAuthorizationError::MissingEndpointOrigin),
                Some(o) => if o.site != t.spec_site() {
                    Err(StaticCredentialAuthorizationError::EndpointOriginSiteMismatch)
                } else {
                    match adapter_for(defs.deployment_adapter_contracts@, t.spec_deployment()) {
                        None => Err(StaticCredentialAuthorizationError::MissingDeploymentAdapterContract),
                        Some(a) => match selector_for(sels, t.spec_account_selector()) {
                            None => Err(StaticCredentialAuthorizationError::GrantBindingMismatch),
                            Some(s) => Ok((o, a, s)),
                        },
                    }
                },
            }
        },
    }
}

/// Whether grant `i` matches the exact binding of a member.
pub open spec fn grant_at_matches<'a>(
    defs: StaticCredentialAuthorizationDefinitions<'a>,
    i: int,
    o: EndpointOriginDefinition<'a>,
    a: DeploymentAdapterContractDefinition,
    b: CredentialDeviceBindingDefinition,
    m: AccountSelectorMember,
) -> bool {
    0 <= i < defs.grants@.len() && grant_matches(defs.grants@[i], o, a, b, m.spec_account(), m.spec_credential())
}

/// What a selector member of a reachable target needs: its account on the target's site, its
/// credential owned by that account, a device binding of this device, and exactly one
/// matching grant that is approved and confirmed. The result is the binding and the grant's
/// index.
#[verifier::opaque]
pub open spec fn member_check<'a>(
    t: RouteTarget,
    o: EndpointOriginDefinition<'a>,
    a: DeploymentAdapterContractDefinition,
    m: AccountSelectorMember,
    accts: Seq<AccountDefinition>,
    creds: Seq<CredentialDefinition>,
    defs: StaticCredentialAuthorizationDefinitions<'a>,
) -> Result<(CredentialDeviceBindingDefinition, int), StaticCredentialAuthorizationError> {
    match (account_for(accts, m.spec_account()), credential_for(creds, m.spec_credential())) {
        (Some(acc), Some(cred)) => if acc.spec_site() != t.spec_site() || cred.spec_account() != m.spec_account() {
            Err(StaticCredentialAuthorizationError::GrantBindingMismatch)
        } else {
            match binding_for(defs.credential_bindings@, m.spec_credential()) {
                None => Err(StaticCredentialAuthorizationError::MissingCredentialBinding),
                Some(b) => if b.device_binding != defs.device_binding {
                    Err(StaticCredentialAuthorizationError::CredentialDeviceBindingMismatch)
                } else if exists|i: int, j: int|
                    i < j && #[trigger] grant_at_matches(defs, i, o, a, b, m) && #[trigger] grant_at_matches(
                        defs,
                        j,
                        o,
                        a,
                        b,
                        m,
                    ) {
                    Err(StaticCredentialAuthorizationError::DuplicateGrant)
                } else if !(exists|i: int| #[trigger] grant_at_matches(defs, i, o, a, b, m)) {
                    if exists|i: int| 0 <= i < defs.grants@.len() && #[trigger] defs.grants@[i].credential == m.spec_credential() {
                        Err(StaticCredentialAuthorizationError::GrantBindingMismatch)
                    } else {
                        Err(StaticCredentialAuthorizationError::MissingExactGrant)
                    }
                } else {
                    let i = choose|i: int| #[trigger] grant_at_matches(defs, i, o, a, b, m);
                    if defs.grants@[i].state != CredentialUseGrantState::Approved {
                        Err(StaticCredentialAuthorizationError::GrantNotApproved)
                    } else if !defs.grants@[i].user_confirmed {
                        Err(StaticCredentialAuthorizationError::GrantNotUserConfirmed)
                    } else {
                        Ok((b, i))
                    }
                },
            }
        },
        _ => Err(StaticCredentialAuthorizationError::GrantBindingMismatch),
    }
}

#[verifier::loop_isolation(false)]
fn validate_definition_shapes(definitions: &StaticCredentialAuthorizationDefinitions<'_>) -> (r: Result<
    (),
    StaticCredentialAuthorizationError,
>)
    ensures
        match shape_error(*definitions) {
            Some(e) => r == Err::<(), StaticCredentialAuthorizationError>(e),
            None => r is Ok,
        },
{
    let o = definitions.endpoint_origins;
    let a = definitions.deployment_adapter_contracts;
    let b = definitions.credential_bindings;
    if o.len() > MAX_ROUTE_TARGETS {
        return Err(StaticCredentialAuthorizationError::TooManyEndpointOrigins);
    }
    if a.len() > MAX_ROUTE_TARGETS {
        return Err(StaticCredentialAuthorizationError::TooManyDeploymentAdapterContracts);
    }
    if b.len() > MAX_ROUTE_TARGETS {
        return Err(StaticCredentialAuthorizationError::TooManyCredentialBindings);
    }
    if definitions.grants.len() > MAX_STATIC_CREDENTIAL_AUTHORIZATIONS {
        return Err(StaticCredentialAuthorizationError::TooManyGrants);
    }
    let mut j: usize = 0;
    while j < o.len()
        invariant
            0 <= j <= o@.len(),
            forall|x: int, y: int| 0 <= x < y < j ==> #[trigger] o@[x].endpoint != #[trigger] o@[y].endpoint,
        decreases o@.len() - j,
    {
        let mut i: usize = 0;
        while i < j
            invariant
                0 <= i <= j < o@.len(),
                forall|x: int| 0 <= x < i ==> #[trigger] o@[x].endpoint != o@[j as int].endpoint,
            decreases j - i,
        {
            if o[i].endpoint == o[j].endpoint {
                return Err(StaticCredentialAuthorizationError::DuplicateEndpointOrigin);
            }
            i += 1;
        }
        j += 1;
    }
    let mut j: usize = 0;
    while j < a.len()
        invariant
            0 <= j <= a@.len(),
            forall|x: int, y: int| 0 <= x < y < o@.len() ==> #[trigger] o@[x].endpoint != #[trigger] o@[y].endpoint,
            forall|x: int, y: int| 0 <= x < y < j ==> #[trigger] a@[x].deployment != #[trigger] a@[y].deployment,
        decreases a@.len() - j,
    {
        let mut i: usize = 0;
        while i < j
            invariant
                0 <= i <= j < a@.len(),
                forall|x: int| 0 <= x < i ==> #[trigger] a@[x].deployment != a@[j as int].deployment,
            decreases j - i,
        {
            if a[i].deployment == a[j].deployment {
                return Err(StaticCredentialAuthorizationError::DuplicateDeploymentAdapterContract);
            }
            i += 1;
        }
        j += 1;
    }
    let mut j: usize = 0;
    while j < b.len()
        invariant
            0 <= j <= b@.len(),
            forall|x: int, y: int| 0 <= x < y < o@.len() ==> #[trigger] o@[x].endpoint != #[trigger] o@[y].endpoint,
            forall|x: int, y: int| 0 <= x < y < a@.len() ==> #[trigger] a@[x].deployment != #[trigger] a@[y].deployment,
            forall|x: int, y: int| 0 <= x < y < j ==> #[trigger] b@[x].credential != #[trigger] b@[y].credential,
        decreases b@.len() - j,
    {
        let mut i: usize = 0;
        while i < j
            invariant
                0 <= i <= j < b@.len(),
                forall|x: int| 0 <= x < i ==> #[trigger] b@[x].credential != b@[j as int].credential,
            decreases j - i,
        {
            if b[i].credential == b[j].credential {
                return Err(StaticCredentialAuthorizationError::DuplicateCredentialBinding);
            }
            i += 1;
        }
        j += 1;
    }
    Ok(())
}

fn check_candidate<'a, 'c>(
    t: RouteTarget,
    deployments: &ModelDeploymentCatalog<'_>,
    selectors: &AccountSelectorCatalog<'c>,
    definitions: &StaticCredentialAuthorizationDefinitions<'a>,
) -> (r: Result<
    (EndpointOriginDefinition<'a>, DeploymentAdapterContractDefinition, &'c AccountSelectorDefinition<'c>),
    StaticCredentialAuthorizationError,
>)
    requires
        shape_error(*definitions) is None,
    ensures
        match r {
            Ok((o, a, s)) => candidate_check(t, deployments.spec_deployments(), selectors.spec_selectors(), *definitions)
                == Ok::<_, StaticCredentialAuthorizationError>((o, a, *s)),
            Err(e) => candidate_check(t, deployments.spec_deployments(), selectors.spec_selectors(), *definitions)
                == Err::<(EndpointOriginDefinition<'a>, DeploymentAdapterContractDefinition, AccountSelectorDefinition<'c>), _>(e),
        },
{
    reveal(candidate_check);
    let deployment = match deployments.get(t.deployment()) {
        Some(d) => d,
        None => {
            return Err(StaticCredentialAuthorizationError::GrantBindingMismatch);
        },
    };
    proof {
        let deps = deployments.spec_deployments();
        let c = choose|i: int| 0 <= i < deps.len() && #[trigger] deps[i].spec_id() == t.spec_deployment();
        assert(deps[c] == *deployment);
    }
    if deployment.site() != t.site() || deployment.endpoint() != t.endpoint() {
        return Err(StaticCredentialAuthorizationError::GrantBindingMismatch);
    }
    let endpoint_origin = match find_origin(definitions.endpoint_origins, t.endpoint()) {
        Some(o) => o,
        None => {
            return Err(StaticCredentialAuthorizationError::MissingEndpointOrigin);
        },
    };
    if endpoint_origin.site != t.site() {
        return Err(StaticCredentialAuthorizationError::EndpointOriginSiteMismatch);
    }
    let adapter_contract = match find_adapter(definitions.deployment_adapter_contracts, t.deployment()) {
        Some(a) => a,
        None => {
            return Err(StaticCredentialAuthorizationError::MissingDeploymentAdapterContract);
        },
    };
    let selector = match selectors.get(t.account_selector()) {
        Some(s) => s,
        None => {
            return Err(StaticCredentialAuthorizationError::GrantBindingMismatch);
        },
    };
    proof {
        let sels = selectors.spec_selectors();
        let c = choose|i: int| 0 <= i < sels.len() && #[trigger] sels[i].spec_id() == t.spec_account_selector();
        assert(sels[c] == *selector);
    }
    Ok((endpoint_origin, adapter_contract, selector))
}

fn find_origin<'a>(origins: &'a [EndpointOriginDefinition<'a>], e: EndpointId) -> (r: Option<EndpointOriginDefinition<'a>>)
    requires
        forall|x: int, y: int| 0 <= x < y < origins@.len() ==> #[trigger] origins@[x].endpoint != #[trigger] origins@[y].endpoint,
    ensures
        r == origin_for(origins@, e),
{
    let mut i: usize = 0;
    while i < origins.len()
        invariant
            0 <= i <= origins@.len(),
            forall|x: int, y: int| 0 <= x < y < origins@.len() ==> #[trigger] origins@[x].endpoint != #[trigger] origins@[y].endpoint,
            forall|x: int| 0 <= x < i ==> #[trigger] origins@[x].endpoint != e,
        decreases origins@.len() - i,
    {
        if origins[i].endpoint == e {
            proof {
                let c = choose|x: int| 0 <= x < origins@.len() && #[trigger] origins@[x].endpoint == e;
                if c < i {
                    assert(origins@[c].endpoint != e);
                } else if c > i {
                    assert(origins@[i as int].endpoint != origins@[c].endpoint);
                }
            }
            return Some(origins[i]);
        }
        i += 1;
    }
    None
}

fn find_adapter(adapters: &[DeploymentAdapterContractDefinition], d: ModelDeploymentId) -> (r: Option<
    DeploymentAdapterContractDefinition,
>)
    requires
        forall|x: int, y: int| 0 <= x < y < adapters@.len() ==> #[trigger] adapters@[x].deployment != #[trigger] adapters@[y].deployment,
    ensures
        r == adapter_for(adapters@, d),
{
    let mut i: usize = 0;
    while i < adapters.len()
        invariant
            0 <= i <= adapters@.len(),
            forall|x: int, y: int| 0 <= x < y < adapters@.len() ==> #[trigger] adapters@[x].deployment != #[trigger] adapters@[y].deployment,
            forall|x: int| 0 <= x < i ==> #[trigger] adapters@[x].deployment != d,
        decreases adapters@.len() - i,
    {
        if adapters[i].deployment == d {
            proof {
                let c = choose|x: int| 0 <= x < adapters@.len() && #[trigger] adapters@[x].deployment == d;
                if c < i {
                    assert(adapters@[c].deployment != d);
                } else if c > i {
                    assert(adapters@[i as int].deployment != adapters@[c].deployment);
                }
            }
            return Some(adapters[i]);
        }
        i += 1;
    }
    None
}

fn find_binding(bindings: &[CredentialDeviceBindingDefinition], c: CredentialId) -> (r: Option<
    CredentialDeviceBindingDefinition,
>)
    requires
        forall|x: int, y: int| 0 <= x < y < bindings@.len() ==> #[trigger] bindings@[x].credential != #[trigger] bindings@[y].credential,
    ensures
        r == binding_for(bindings@, c),
{
    let mut i: usize = 0;
    while i < bindings.len()
        invariant
            0 <= i <= bindings@.len(),
            forall|x: int, y: int| 0 <= x < y < bindings@.len() ==> #[trigger] bindings@[x].credential != #[trigger] bindings@[y].credential,
            forall|x: int| 0 <= x < i ==> #[trigger] bindings@[x].credential != c,
        decreases bindings@.len() - i,
    {
        if bindings[i].credential == c {
            proof {
                let k = choose|x: int| 0 <= x < bindings@.len() && #[trigger] bindings@[x].credential == c;
                if k < i {
                    assert(bindings@[k].credential != c);
                } else if k > i {
                    assert(bindings@[i as int].credential != bindings@[k].credential);
                }
            }
            return Some(bindings[i]);
        }
        i += 1;
    }
    None
}

#[verifier::loop_isolation(false)]
fn check_member<'a>(
    t: RouteTarget,
    o: &EndpointOriginDefinition<'a>,
    a: DeploymentAdapterContractDefinition,
    m: AccountSelectorMember,
    accounts: &AccountCatalog<'_>,
    credentials: &CredentialCatalog<'_>,
    definitions: &StaticCredentialAuthorizationDefinitions<'a>,
) -> (r: Result<(CredentialDeviceBindingDefinition, usize), StaticCredentialAuthorizationError>)
    requires
        shape_error(*definitions) is None,
    ensures
        match r {
            Ok((b, gi)) => member_check(t, *o, a, m, accounts.spec_accounts(), credentials.spec_credentials(), *definitions)
                == Ok::<_, StaticCredentialAuthorizationError>((b, gi as int)),
            Err(e) => member_check(t, *o, a, m, accounts.spec_accounts(), credentials.spec_credentials(), *definitions)
                == Err::<(CredentialDeviceBindingDefinition, int), _>(e),
        },
        r matches Ok((_, gi)) ==> gi < definitions.grants@.len(),
{
    reveal(member_check);
    let account = match accounts.get(m.account()) {
        Some(x) => x,
        None => {
            return Err(StaticCredentialAuthorizationError::GrantBindingMismatch);
        },
    };
    let credential = match credentials.get(m.credential()) {
        Some(x) => x,
        None => {
            return Err(StaticCredentialAuthorizationError::GrantBindingMismatch);
        },
    };
    proof {
        let accts = accounts.spec_accounts();
        let c = choose|i: int| 0 <= i < accts.len() && #[trigger] accts[i].spec_id() == m.spec_account();
        assert(accts[c] == *account);
        let creds = credentials.spec_credentials();
        let d = choose|i: int| 0 <= i < creds.len() && #[trigger] creds[i].spec_id() == m.spec_credential();
        assert(creds[d] == *credential);
    }
    if account.site() != t.site() || credential.account() != m.account() {
        return Err(StaticCredentialAuthorizationError::GrantBindingMismatch);
    }
    let binding = match find_binding(definitions.credential_bindings, m.credential()) {
        Some(b) => b,
        None => {
            return Err(StaticCredentialAuthorizationError::MissingCredentialBinding);
        },
    };
    if binding.device_binding != definitions.device_binding {
        return Err(StaticCredentialAuthorizationError::CredentialDeviceBindingMismatch);
    }
    let grants = definitions.grants;
    let mut matched: Option<usize> = None;
    let mut k: usize = 0;
    while k < grants.len()
        invariant
            0 <= k <= grants@.len(),
            grants@ == definitions.grants@,
            match matched {
                Some(i) => i < k && grant_at_matches(*definitions, i as int, *o, a, binding, m) && forall|x: int|
                    0 <= x < k && x != i ==> !#[trigger] grant_at_matches(*definitions, x, *o, a, binding, m),
                None => forall|x: int| 0 <= x < k ==> !#[trigger] grant_at_matches(*definitions, x, *o, a, binding, m),
            },
        decreases grants@.len() - k,
    {
        if grants[k].matches_static_binding(o, a, binding, m.account(), m.credential()) {
            match matched {
                Some(i) => {
                    proof {
                        assert(grant_at_matches(*definitions, i as int, *o, a, binding, m));
                        assert(grant_at_matches(*definitions, k as int, *o, a, binding, m));
                    }
                    return Err(StaticCredentialAuthorizationError::DuplicateGrant);
                },
                None => {
                    matched = Some(k);
                },
            }
        }
        k += 1;
    }
    let gi = match matched {
        Some(i) => i,
        None => {
            let mut j: usize = 0;
            while j < grants.len()
                invariant
                    0 <= j <= grants@.len(),
                    grants@ == definitions.grants@,
                    forall|x: int| 0 <= x < j ==> #[trigger] grants@[x].credential != m.spec_credential(),
                decreases grants@.len() - j,
            {
                if grants[j].credential == m.credential() {
                    return Err(StaticCredentialAuthorizationError::GrantBindingMismatch);
                }
                j += 1;
            }
            return Err(StaticCredentialAuthorizationError::MissingExactGrant);
        },
    };
    proof {
        assert forall|x: int, y: int|
            x < y && #[trigger] grant_at_matches(*definitions, x, *o, a, binding, m) implies !#[trigger] grant_at_matches(
            *definitions,
            y,
            *o,
            a,
            binding,
            m,
        ) by {
            if grant_at_matches(*definitions, y, *o, a, binding, m) {
                assert(x == gi && y == gi);
            }
        }
        let c = choose|x: int| #[trigger] grant_at_matches(*definitions, x, *o, a, binding, m);
        assert(c == gi);
    }
    let grant = grants[gi];
    if grant.state != CredentialUseGrantState::Approved {
        return Err(StaticCredentialAuthorizationError::GrantNotApproved);
    }
    if !grant.user_confirmed {
        return Err(StaticCredentialAuthorizationError::GrantNotUserConfirmed);
    }
    Ok((binding, gi))
}

/// Everything compiling the authorizations reads.
pub struct CompileInputs<'a, 'c> {
    pub snapshot_version: SnapshotVersion,
    pub candidates: Seq<RouteCandidate>,
    pub deployments: Seq<ModelDeploymentDefinition>,
    pub selectors: Seq<AccountSelectorDefinition<'c>>,
    pub accounts: Seq<AccountDefinition>,
    pub credentials: Seq<CredentialDefinition>,
    pub definitions: StaticCredentialAuthorizationDefinitions<'a>,
}

impl<'a, 'c> CompileInputs<'a, 'c> {
    /// The target of candidate `ci`.
    pub open spec fn target(self, ci: int) -> RouteTarget {
        self.candidates[ci].spec_target()
    }

    /// What candidate `ci` needs before its members.
    pub open spec fn candidate(self, ci: int) -> Result<
        (EndpointOriginDefinition<'a>, DeploymentAdapterContractDefinition, AccountSelectorDefinition<'c>),
        StaticCredentialAuthorizationError,
    > {
        candidate_check(self.target(ci), self.deployments, self.selectors, self.definitions)
    }

    /// The selector members of candidate `ci`.
    pub open spec fn members(self, ci: int) -> Seq<AccountSelectorMember> {
        match self.candidate(ci) {
            Ok((_, _, s)) => s.spec_members(),
            Err(_) => Seq::empty(),
        }
    }

    /// What member `mi` of candidate `ci` needs.
    pub open spec fn member(self, ci: int, mi: int) -> Result<
        (CredentialDeviceBindingDefinition, int),
        StaticCredentialAuthorizationError,
    > {
        match self.candidate(ci) {
            Ok((o, a, s)) => member_check(
                self.target(ci),
                o,
                a,
                s.spec_members()[mi],
                self.accounts,
                self.credentials,
                self.definitions,
            ),
            Err(e) => Err(e),
        }
    }

    /// The refusal of member `mi` of candidate `ci`: its own, or that its slot falls outside
    /// the index.
    pub open spec fn pair_error(self, ci: int, mi: int) -> Option<StaticCredentialAuthorizationError> {
        match self.member(ci, mi) {
            Err(e) => Some(e),
            Ok(_) => if ci >= MAX_ROUTE_TARGETS || mi >= MAX_ACCOUNT_SELECTOR_MEMBERS {
                Some(StaticCredentialAuthorizationError::AuthorizationIndexOutOfBounds)
            } else {
                None
            },
        }
    }

    /// The first refusal among the members of candidate `ci` from member `mi` on.
    pub open spec fn members_error(self, ci: int, mi: int) -> Option<StaticCredentialAuthorizationError>
        decreases self.members(ci).len() - mi,
    {
        if mi < 0 || mi >= self.members(ci).len() {
            None
        } else {
            match self.pair_error(ci, mi) {
                Some(e) => Some(e),
                None => self.members_error(ci, mi + 1),
            }
        }
    }

    /// The first refusal of candidates from `ci` on, each candidate before its members.
    pub open spec fn candidates_error(self, ci: int) -> Option<StaticCredentialAuthorizationError>
        decreases self.candidates.len() - ci,
    {
        if ci < 0 || ci >= self.candidates.len() {
            None
        } else {
            match self.candidate(ci) {
                Err(e) => Some(e),
                Ok(_) => match self.members_error(ci, 0) {
                    Some(e) => Some(e),
                    None => self.candidates_error(ci + 1),
                },
            }
        }
    }

    /// The index of the grant that member `mi` of candidate `ci` uses.
    pub open spec fn pair_grant(self, ci: int, mi: int) -> int {
        match self.member(ci, mi) {
            Ok((_, g)) => g,
            Err(_) => -1,
        }
    }

    /// Whether some reachable member uses grant `j`.
    pub open spec fn grant_used(self, j: int) -> bool {
        exists|ci: int, mi: int|
            0 <= ci < self.candidates.len() && 0 <= mi < self.members(ci).len() && #[trigger] self.pair_grant(ci, mi) == j
    }

    /// Whether some grant is bound to no reachable member.
    pub open spec fn unused_grant(self) -> bool {
        exists|j: int| 0 <= j < self.definitions.grants@.len() && !#[trigger] self.grant_used(j)
    }

    /// The refusal of the whole compilation: the definitions' shape, then the candidates in
    /// order, then an unused grant.
    pub open spec fn refusal(self) -> Option<StaticCredentialAuthorizationError> {
        match shape_error(self.definitions) {
            Some(e) => Some(e),
            None => match self.candidates_error(0) {
                Some(e) => Some(e),
                None => if self.unused_grant() {
                    Some(StaticCredentialAuthorizationError::UnusedOrMismatchedGrant)
                } else {
                    None
                },
            },
        }
    }

    /// The authorization fixed for member `mi` of candidate `ci`.
    pub open spec fn expected_entry(self, ci: int, mi: int) -> StaticCredentialAuthorizationEntry<'a> {
        let (o, a, s) = self.candidate(ci)->Ok_0;
        let m = s.spec_members()[mi];
        let (b, g) = self.member(ci, mi)->Ok_0;
        StaticCredentialAuthorizationEntry {
            snapshot_version: self.snapshot_version,
            target: self.target(ci),
            selector_id: s.spec_id(),
            member_index: mi as u8,
            account: m.spec_account(),
            credential: m.spec_credential(),
            endpoint_origin: o,
            adapter_contract: a,
            credential_binding: b,
            grant_revision: self.definitions.grants@[g].revision,
        }
    }

    /// What fixed slot `s` holds: the authorization of member `s % 16` of candidate `s / 16`
    /// where that member is reachable, else nothing.
    pub open spec fn expected_slot(self, s: int) -> Option<StaticCredentialAuthorizationEntry<'a>> {
        let ci = s / (MAX_ACCOUNT_SELECTOR_MEMBERS as int);
        let mi = s % (MAX_ACCOUNT_SELECTOR_MEMBERS as int);
        if ci < self.candidates.len() && mi < self.members(ci).len() {
            Some(self.expected_entry(ci, mi))
        } else {
            None
        }
    }
}

/// The slot of member `mi` of candidate `ci`, inside the fixed index.
pub open spec fn authorization_slot(candidate_index: u8, member_index: u8) -> Option<int> {
    if candidate_index < MAX_ROUTE_TARGETS && member_index < MAX_ACCOUNT_SELECTOR_MEMBERS {
        Some(candidate_index as int * MAX_ACCOUNT_SELECTOR_MEMBERS as int + member_index as int)
    } else {
        None
    }
}

/// Computes the fixed slot of a member of a candidate.
pub fn authorization_index(candidate_index: u8, member_index: u8) -> (r: Option<usize>)
    ensures
        match authorization_slot(candidate_index, member_index) {
            Some(s) => r == Some(s as usize),
            None => r is None,
        },
{
    let c = candidate_index as usize;
    let m = member_index as usize;
    if c >= MAX_ROUTE_TARGETS || m >= MAX_ACCOUNT_SELECTOR_MEMBERS {
        return None;
    }
    Some(c * MAX_ACCOUNT_SELECTOR_MEMBERS + m)
}

proof fn lemma_slot_decomposition(ci: int, mi: int, s: int)
    requires
        0 <= mi < 16,
        0 <= ci,
        0 <= s,
    ensures
        (s / 16 == ci && s % 16 == mi) <==> s == ci * 16 + mi,
{
    vstd::arithmetic::div_mod::lemma_fundamental_div_mod(s, 16);
    if s == ci * 16 + mi {
        vstd::arithmetic::div_mod::lemma_fundamental_div_mod_converse(s, 16, ci, mi);
    }
}

spec fn processed(ci: int, mi: int, ci_end: int, mi_end: int) -> bool {
    ci < ci_end || (ci == ci_end && mi < mi_end)
}

spec fn slot_upto<'a, 'c>(inp: CompileInputs<'a, 'c>, s: int, ci_end: int, mi_end: int) -> Option<
    StaticCredentialAuthorizationEntry<'a>,
> {
    let ci = s / 16;
    let mi = s % 16;
    if ci < inp.candidates.len() && mi < inp.members(ci).len() && processed(ci, mi, ci_end, mi_end) {
        Some(inp.expected_entry(ci, mi))
    } else {
        None
    }
}

spec fn used_upto<'a, 'c>(inp: CompileInputs<'a, 'c>, j: int, ci_end: int, mi_end: int) -> bool {
    exists|ci: int, mi: int|
        0 <= ci < inp.candidates.len() && 0 <= mi < inp.members(ci).len() && processed(ci, mi, ci_end, mi_end)
            && #[trigger] inp.pair_grant(ci, mi) == j
}

/// The inputs one compilation reads.
pub open spec fn compile_inputs<'a, 'c>(
    snapshot_version: SnapshotVersion,
    candidates: Seq<RouteCandidate>,
    deployments: &ModelDeploymentCatalog<'_>,
    selectors: &AccountSelectorCatalog<'c>,
    accounts: &AccountCatalog<'_>,
    credentials: &CredentialCatalog<'_>,
    definitions: StaticCredentialAuthorizationDefinitions<'a>,
) -> CompileInputs<'a, 'c> {
    CompileInputs {
        snapshot_version,
        candidates,
        deployments: deployments.spec_deployments(),
        selectors: selectors.spec_selectors(),
        accounts: accounts.spec_accounts(),
        credentials: credentials.spec_credentials(),
        definitions,
    }
}

/// The fixed-capacity authorization index of an activated snapshot.
pub struct StaticCredentialAuthorizations<'a> {
    entries: Vec<Option<StaticCredentialAuthorizationEntry<'a>>>,
}

impl<'a> StaticCredentialAuthorizations<'a> {
    #[verifier::type_invariant]
    spec fn inv(self) -> bool {
        self.entries@.len() == MAX_STATIC_CREDENTIAL_AUTHORIZATIONS
    }

    /// The fixed slots.
    pub closed spec fn spec_entries(&self) -> Seq<Option<StaticCredentialAuthorizationEntry<'a>>> {
        self.entries@
    }

    /// Compiles the exact grants of every reachable target × selector member into their
    /// fixed slots.
    #[verifier::loop_isolation(false)]
    #[verifier::rlimit(60)]
    pub fn compile<'config>(
        snapshot_version: SnapshotVersion,
        candidates: &[RouteCandidate],
        deployments: &ModelDeploymentCatalog<'_>,
        selectors: &AccountSelectorCatalog<'config>,
        accounts: &AccountCatalog<'_>,
        credentials: &CredentialCatalog<'_>,
        definitions: StaticCredentialAuthorizationDefinitions<'a>,
    ) -> (r: Result<Self, StaticCredentialAuthorizationError>)
        ensures
            ({
                let inp = compile_inputs(
                    snapshot_version,
                    candidates@,
                    deployments,
                    selectors,
                    accounts,
                    credentials,
                    definitions,
                );
                match r {
                    Err(e) => inp.refusal() == Some(e),
                    Ok(auths) => inp.refusal() is None && auths.spec_entries().len()
                        == MAX_STATIC_CREDENTIAL_AUTHORIZATIONS && forall|s: int|
                        0 <= s < MAX_STATIC_CREDENTIAL_AUTHORIZATIONS ==> #[trigger] auths.spec_entries()[s]
                            == inp.expected_slot(s),
                }
            }),
    {
        let ghost inp = compile_inputs(
            snapshot_version,
            candidates@,
            deployments,
            selectors,
            accounts,
            credentials,
            definitions,
        );
        match validate_definition_shapes(&definitions) {
            Ok(()) => {},
            Err(e) => {
                return Err(e);
            },
        }
        let grants = definitions.grants;
        let mut entries: Vec<Option<StaticCredentialAuthorizationEntry<'a>>> = Vec::new();
        let mut k: usize = 0;
        while k < MAX_STATIC_CREDENTIAL_AUTHORIZATIONS
            invariant
                0 <= k <= MAX_STATIC_CREDENTIAL_AUTHORIZATIONS,
                entries@.len() == k,
                forall|s: int| 0 <= s < k ==> entries@[s] is None,
            decreases MAX_STATIC_CREDENTIAL_AUTHORIZATIONS - k,
        {
            entries.push(None);
            k += 1;
        }
        let mut used: Vec<bool> = Vec::new();
        let mut k: usize = 0;
        while k < grants.len()
            invariant
                0 <= k <= grants@.len(),
                used@.len() == k,
                forall|j: int| 0 <= j < k ==> !used@[j],
            decreases grants@.len() - k,
        {
            used.push(false);
            k += 1;
        }
        proof {
            assert forall|s: int| 0 <= s < MAX_STATIC_CREDENTIAL_AUTHORIZATIONS implies entries@[s] == slot_upto(
                inp,
                s,
                0,
                0,
            ) by {}
            assert forall|j: int| 0 <= j < grants@.len() implies used@[j] == used_upto(inp, j, 0, 0) by {}
        }
        let mut ci: usize = 0;
        while ci < candidates.len()
            invariant
                0 <= ci <= candidates@.len(),
                shape_error(definitions) is None,
                inp.candidates_error(0) == inp.candidates_error(ci as int),
                entries@.len() == MAX_STATIC_CREDENTIAL_AUTHORIZATIONS,
                used@.len() == grants@.len(),
                grants@ == definitions.grants@,
                forall|s: int|
                    0 <= s < MAX_STATIC_CREDENTIAL_AUTHORIZATIONS ==> #[trigger] entries@[s] == slot_upto(
                        inp,
                        s,
                        ci as int,
                        0,
                    ),
                forall|j: int| 0 <= j < grants@.len() ==> #[trigger] used@[j] == used_upto(inp, j, ci as int, 0),
            decreases candidates@.len() - ci,
        {
            let target = candidates[ci].target();
            let (endpoint_origin, adapter_contract, selector) = match check_candidate(
                target,
                deployments,
                selectors,
                &definitions,
            ) {
                Ok(x) => x,
                Err(e) => {
                    return Err(e);
                },
            };
            let members = selector.members();
            let mut mi: usize = 0;
            while mi < members.len()
                invariant
                    0 <= ci < candidates@.len(),
                    0 <= mi <= members@.len(),
                    members@ == inp.members(ci as int),
                    inp.candidate(ci as int) == Ok::<_, StaticCredentialAuthorizationError>(
                        (endpoint_origin, adapter_contract, *selector),
                    ),
                    shape_error(definitions) is None,
                    inp.candidates_error(0) == inp.candidates_error(ci as int),
                    inp.members_error(ci as int, 0) == inp.members_error(ci as int, mi as int),
                    entries@.len() == MAX_STATIC_CREDENTIAL_AUTHORIZATIONS,
                    used@.len() == grants@.len(),
                    grants@ == definitions.grants@,
                    forall|s: int|
                        0 <= s < MAX_STATIC_CREDENTIAL_AUTHORIZATIONS ==> #[trigger] entries@[s] == slot_upto(
                            inp,
                            s,
                            ci as int,
                            mi as int,
                        ),
                    forall|j: int|
                        0 <= j < grants@.len() ==> #[trigger] used@[j] == used_upto(inp, j, ci as int, mi as int),
                decreases members@.len() - mi,
            {
                let member = members[mi];
                let (binding, gi) = match check_member(
                    target,
                    &endpoint_origin,
                    adapter_contract,
                    member,
                    accounts,
                    credentials,
                    &definitions,
                ) {
                    Ok(x) => x,
                    Err(e) => {
                        return Err(e);
                    },
                };
                if ci >= MAX_ROUTE_TARGETS || mi >= MAX_ACCOUNT_SELECTOR_MEMBERS {
                    return Err(StaticCredentialAuthorizationError::AuthorizationIndexOutOfBounds);
                }
                let slot = ci * MAX_ACCOUNT_SELECTOR_MEMBERS + mi;
                proof {
                    lemma_slot_decomposition(ci as int, mi as int, slot as int);
                }
                if entries[slot].is_some() {
                    return Err(StaticCredentialAuthorizationError::AuthorizationIndexOutOfBounds);
                }
                let entry = StaticCredentialAuthorizationEntry {
                    snapshot_version,
                    target,
                    selector_id: selector.id(),
                    member_index: mi as u8,
                    account: member.account(),
                    credential: member.credential(),
                    endpoint_origin,
                    adapter_contract,
                    credential_binding: binding,
                    grant_revision: grants[gi].revision,
                };
                let ghost old_entries = entries@;
                let ghost old_used = used@;
                entries.set(slot, Some(entry));
                used.set(gi, true);
                proof {
                    assert(inp.expected_entry(ci as int, mi as int) == entry);
                    assert forall|s: int| 0 <= s < MAX_STATIC_CREDENTIAL_AUTHORIZATIONS implies #[trigger] entries@[s]
                        == slot_upto(inp, s, ci as int, mi + 1) by {
                        lemma_slot_decomposition(ci as int, mi as int, s);
                        if s != slot {
                            assert(entries@[s] == old_entries[s]);
                        }
                    }
                    assert forall|j: int| 0 <= j < grants@.len() implies #[trigger] used@[j] == used_upto(
                        inp,
                        j,
                        ci as int,
                        mi + 1,
                    ) by {
                        if j == gi {
                            assert(inp.pair_grant(ci as int, mi as int) == j);
                        } else {
                            assert(used@[j] == old_used[j]);
                            if used_upto(inp, j, ci as int, mi + 1) {
                                let (c, m) = choose|c: int, m: int|
                                    0 <= c < inp.candidates.len() && 0 <= m < inp.members(c).len() && processed(
                                        c,
                                        m,
                                        ci as int,
                                        mi + 1,
                                    ) && #[trigger] inp.pair_grant(c, m) == j;
                                assert(processed(c, m, ci as int, mi as int));
                            }
                        }
                    }
                }
                mi += 1;
            }
            proof {
                assert forall|s: int| 0 <= s < MAX_STATIC_CREDENTIAL_AUTHORIZATIONS implies #[trigger] entries@[s]
                    == slot_upto(inp, s, ci + 1, 0) by {}
                assert forall|j: int| 0 <= j < grants@.len() implies #[trigger] used@[j] == used_upto(
                    inp,
                    j,
                    ci + 1,
                    0,
                ) by {
                    if used_upto(inp, j, ci as int, mi as int) {
                        let (c, m) = choose|c: int, m: int|
                            0 <= c < inp.candidates.len() && 0 <= m < inp.members(c).len() && processed(
                                c,
                                m,
                                ci as int,
                                mi as int,
                            ) && #[trigger] inp.pair_grant(c, m) == j;
                        assert(processed(c, m, ci + 1, 0));
                    }
                    if used_upto(inp, j, ci + 1, 0) {
                        let (c, m) = choose|c: int, m: int|
                            0 <= c < inp.candidates.len() && 0 <= m < inp.members(c).len() && processed(c, m, ci + 1, 0)
                                && #[trigger] inp.pair_grant(c, m) == j;
                        assert(processed(c, m, ci as int, mi as int));
                    }
                }
            }
            ci += 1;
        }
        let mut j: usize = 0;
        while j < used.len()
            invariant
                0 <= j <= used@.len(),
                used@.len() == grants@.len(),
                forall|x: int| 0 <= x < j ==> used@[x],
            decreases used@.len() - j,
        {
            if !used[j] {
                proof {
                    assert(!inp.grant_used(j as int)) by {
                        if inp.grant_used(j as int) {
                            let (c, m) = choose|c: int, m: int|
                                0 <= c < inp.candidates.len() && 0 <= m < inp.members(c).len() && #[trigger] inp.pair_grant(c, m) == j;
                            assert(processed(c, m, ci as int, 0));
                        }
                    }
                }
                return Err(StaticCredentialAuthorizationError::UnusedOrMismatchedGrant);
            }
            j += 1;
        }
        proof {
            assert forall|x: int| 0 <= x < grants@.len() implies #[trigger] inp.grant_used(x) by {
                assert(used@[x]);
                let (c, m) = choose|c: int, m: int|
                    0 <= c < inp.candidates.len() && 0 <= m < inp.members(c).len() && processed(c, m, ci as int, 0)
                        && #[trigger] inp.pair_grant(c, m) == x;
            }
        }
        StaticCredentialAuthorizations::check_len(&entries);
        Ok(StaticCredentialAuthorizations { entries })
    }

    fn check_len(entries: &Vec<Option<StaticCredentialAuthorizationEntry<'a>>>)
        requires
            entries@.len() == MAX_STATIC_CREDENTIAL_AUTHORIZATIONS,
    {
    }

    /// Returns the authorization fixed for member `member_index` of candidate
    /// `candidate_index`, if there is one.
    pub fn entry_for(&self, candidate_index: u8, member_index: u8) -> (r: Option<StaticCredentialAuthorizationEntry<'a>>)
        ensures
            r == match authorization_slot(candidate_index, member_index) {
                Some(s) => self.spec_entries()[s],
                None => None,
            },
    {
        proof {
            use_type_invariant(self);
        }
        let index = match authorization_index(candidate_index, member_index) {
            Some(i) => i,
            None => {
                return None;
            },
        };
        self.entries[index]
    }
}

} // verus!
