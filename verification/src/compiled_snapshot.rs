//! One compiled generation of route candidates, model deployments and account selection
//! contracts.
//!
//! The module checks only at compile time that each target's references to its model
//! deployment, account selector, accounts and credentials are complete. The catalogs never
//! enter the planner hot path, a route plan, the coordinator or the attempt state machine.
use vstd::prelude::*;

use crate::account_credential::{
    account_catalog_check, credential_catalog_check, AccountCatalog, AccountCatalogError, AccountCredentialDefinitions,
    AccountDefinition, CredentialCatalog, CredentialCatalogError, CredentialDefinition,
};
use crate::account_selector::{
    selector_catalog_check, AccountSelectorCatalog, AccountSelectorCatalogError, AccountSelectorDefinition,
    AccountSelectorMember, CredentialSelectionPolicy,
};
use crate::ids::{AccountId, AccountSelectorId, CredentialId, ModelDeploymentId, RouteStageId, RouteTargetId, SnapshotVersion};
use crate::model_deployment::{
    deployment_catalog_check, ModelDeploymentCatalog, ModelDeploymentCatalogError, ModelDeploymentDefinition,
};
use crate::route::{
    same_snapshot, snapshot_check, PlanError, RouteCandidate, RoutePlan, RouteTarget, RoutingSnapshot, RoutingStrategy,
};

verus! {

/// Why compiling a routing snapshot is refused.
#[derive(Clone, Copy, Debug, PartialEq, Eq, Structural)]
pub enum CompiledRoutingSnapshotError {
    /// The account catalog itself is invalid.
    AccountCatalog(AccountCatalogError),
    /// The account selector catalog itself is invalid.
    Catalog(AccountSelectorCatalogError),
    /// The credential catalog itself is invalid.
    CredentialCatalog(CredentialCatalogError),
    /// The model deployment catalog itself is invalid.
    DeploymentCatalog(ModelDeploymentCatalogError),
    /// The route candidates or the snapshot shape are invalid.
    Plan(PlanError),
}

/// The deployment with identifier `id`, if any.
pub open spec fn deployment_named(ds: Seq<ModelDeploymentDefinition>, id: ModelDeploymentId) -> Option<
    ModelDeploymentDefinition,
> {
    if exists|i: int| 0 <= i < ds.len() && #[trigger] ds[i].spec_id() == id {
        Some(ds[choose|i: int| 0 <= i < ds.len() && #[trigger] ds[i].spec_id() == id])
    } else {
        None
    }
}

/// The selector with identifier `id`, if any.
pub open spec fn selector_named<'a>(ss: Seq<AccountSelectorDefinition<'a>>, id: AccountSelectorId) -> Option<
    AccountSelectorDefinition<'a>,
> {
    if exists|i: int| 0 <= i < ss.len() && #[trigger] ss[i].spec_id() == id {
        Some(ss[choose|i: int| 0 <= i < ss.len() && #[trigger] ss[i].spec_id() == id])
    } else {
        None
    }
}

/// The account with identifier `id`, if any.
pub open spec fn account_named(accounts: Seq<AccountDefinition>, id: AccountId) -> Option<AccountDefinition> {
    if exists|i: int| 0 <= i < accounts.len() && #[trigger] accounts[i].spec_id() == id {
        Some(accounts[choose|i: int| 0 <= i < accounts.len() && #[trigger] accounts[i].spec_id() == id])
    } else {
        None
    }
}

/// The credential with identifier `id`, if any.
pub open spec fn credential_named(credentials: Seq<CredentialDefinition>, id: CredentialId) -> Option<
    CredentialDefinition,
> {
    if exists|i: int| 0 <= i < credentials.len() && #[trigger] credentials[i].spec_id() == id {
        Some(credentials[choose|i: int| 0 <= i < credentials.len() && #[trigger] credentials[i].spec_id() == id])
    } else {
        None
    }
}

/// How target `t` breaks its static relation with the deployments, if it does.
pub open spec fn target_deployment_violation(ds: Seq<ModelDeploymentDefinition>, t: RouteTarget) -> Option<PlanError> {
    match deployment_named(ds, t.spec_deployment()) {
        None => Some(PlanError::UnknownModelDeployment),
        Some(d) => if d.spec_site() != t.spec_site() {
            Some(PlanError::TargetDeploymentSiteMismatch)
        } else if d.spec_endpoint() != t.spec_endpoint() {
            Some(PlanError::TargetDeploymentEndpointMismatch)
        } else {
            None
        },
    }
}

/// The first deployment violation among the first `n` candidates.
pub open spec fn deployment_prefix_violation(c: Seq<RouteCandidate>, ds: Seq<ModelDeploymentDefinition>, n: int) -> Option<
    PlanError,
>
    decreases n,
{
    if n <= 0 {
        None
    } else {
        match deployment_prefix_violation(c, ds, n - 1) {
            Some(e) => Some(e),
            None => target_deployment_violation(ds, c[n - 1].spec_target()),
        }
    }
}

/// How member `m` breaks its relation with the accounts, credentials and deployment `d`.
pub open spec fn member_violation(
    d: ModelDeploymentDefinition,
    m: AccountSelectorMember,
    accounts: Seq<AccountDefinition>,
    credentials: Seq<CredentialDefinition>,
) -> Option<PlanError> {
    match account_named(accounts, m.spec_account()) {
        None => Some(PlanError::UnknownAccount),
        Some(a) => match credential_named(credentials, m.spec_credential()) {
            None => Some(PlanError::UnknownCredential),
            Some(cr) => if cr.spec_account() != m.spec_account() {
                Some(PlanError::CredentialAccountMismatch)
            } else if a.spec_site() != d.spec_site() {
                Some(PlanError::AccountDeploymentSiteMismatch)
            } else {
                None
            },
        },
    }
}

/// The first member violation among the first `n` members.
pub open spec fn members_prefix_violation(
    d: ModelDeploymentDefinition,
    ms: Seq<AccountSelectorMember>,
    accounts: Seq<AccountDefinition>,
    credentials: Seq<CredentialDefinition>,
    n: int,
) -> Option<PlanError>
    decreases n,
{
    if n <= 0 {
        None
    } else {
        match members_prefix_violation(d, ms, accounts, credentials, n - 1) {
            Some(e) => Some(e),
            None => member_violation(d, ms[n - 1], accounts, credentials),
        }
    }
}

/// How the members of the selector of target `t` break their relations, if they do.
pub open spec fn target_member_violation(
    ds: Seq<ModelDeploymentDefinition>,
    ss: Seq<AccountSelectorDefinition>,
    accounts: Seq<AccountDefinition>,
    credentials: Seq<CredentialDefinition>,
    t: RouteTarget,
) -> Option<PlanError> {
    match deployment_named(ds, t.spec_deployment()) {
        None => Some(PlanError::UnknownModelDeployment),
        Some(d) => match selector_named(ss, t.spec_account_selector()) {
            None => Some(PlanError::UnknownAccountSelector),
            Some(s) => members_prefix_violation(d, s.spec_members(), accounts, credentials, s.spec_members().len() as int),
        },
    }
}

/// The first member violation among the targets of the first `n` candidates.
pub open spec fn member_check_prefix(
    c: Seq<RouteCandidate>,
    ds: Seq<ModelDeploymentDefinition>,
    ss: Seq<AccountSelectorDefinition>,
    accounts: Seq<AccountDefinition>,
    credentials: Seq<CredentialDefinition>,
    n: int,
) -> Option<PlanError>
    decreases n,
{
    if n <= 0 {
        None
    } else {
        match member_check_prefix(c, ds, ss, accounts, credentials, n - 1) {
            Some(e) => Some(e),
            None => target_member_violation(ds, ss, accounts, credentials, c[n - 1].spec_target()),
        }
    }
}

/// The verdict of compiling a routing snapshot from its static definitions.
pub open spec fn compile_check(
    c: Seq<RouteCandidate>,
    max_attempts: u8,
    ds: Seq<ModelDeploymentDefinition>,
    accounts: Seq<AccountDefinition>,
    credentials: Seq<CredentialDefinition>,
    ss: Seq<AccountSelectorDefinition>,
) -> Result<(), CompiledRoutingSnapshotError> {
    if snapshot_check(c, max_attempts) is Err {
        Err(CompiledRoutingSnapshotError::Plan(snapshot_check(c, max_attempts)->Err_0))
    } else if deployment_catalog_check(ds) is Err {
        Err(CompiledRoutingSnapshotError::DeploymentCatalog(deployment_catalog_check(ds)->Err_0))
    } else if deployment_prefix_violation(c, ds, c.len() as int) is Some {
        Err(CompiledRoutingSnapshotError::Plan(deployment_prefix_violation(c, ds, c.len() as int).unwrap()))
    } else if selector_catalog_check(ss) is Err {
        Err(CompiledRoutingSnapshotError::Catalog(selector_catalog_check(ss)->Err_0))
    } else if exists|i: int|
        0 <= i < c.len() && selector_named(ss, #[trigger] c[i].spec_target().spec_account_selector()) is None {
        Err(CompiledRoutingSnapshotError::Plan(PlanError::UnknownAccountSelector))
    } else if account_catalog_check(accounts) is Err {
        Err(CompiledRoutingSnapshotError::AccountCatalog(account_catalog_check(accounts)->Err_0))
    } else if credential_catalog_check(credentials, accounts) is Err {
        Err(CompiledRoutingSnapshotError::CredentialCatalog(credential_catalog_check(credentials, accounts)->Err_0))
    } else if member_check_prefix(c, ds, ss, accounts, credentials, c.len() as int) is Some {
        Err(CompiledRoutingSnapshotError::Plan(member_check_prefix(c, ds, ss, accounts, credentials, c.len() as int).unwrap()))
    } else {
        Ok(())
    }
}

proof fn lemma_deployment_sticks(c: Seq<RouteCandidate>, ds: Seq<ModelDeploymentDefinition>, m: int, n: int)
    requires
        0 <= m <= n,
        deployment_prefix_violation(c, ds, m) is Some,
    ensures
        deployment_prefix_violation(c, ds, n) == deployment_prefix_violation(c, ds, m),
    decreases n - m,
{
    if n > m {
        lemma_deployment_sticks(c, ds, m, n - 1);
    }
}

proof fn lemma_deployment_clean(c: Seq<RouteCandidate>, ds: Seq<ModelDeploymentDefinition>, n: int, i: int)
    requires
        0 <= i < n,
        deployment_prefix_violation(c, ds, n) is None,
    ensures
        target_deployment_violation(ds, c[i].spec_target()) is None,
    decreases n - i,
{
    if i < n - 1 {
        lemma_deployment_clean(c, ds, n - 1, i);
    }
}

proof fn lemma_members_sticks(
    d: ModelDeploymentDefinition,
    ms: Seq<AccountSelectorMember>,
    accounts: Seq<AccountDefinition>,
    credentials: Seq<CredentialDefinition>,
    m: int,
    n: int,
)
    requires
        0 <= m <= n,
        members_prefix_violation(d, ms, accounts, credentials, m) is Some,
    ensures
        members_prefix_violation(d, ms, accounts, credentials, n) == members_prefix_violation(
            d,
            ms,
            accounts,
            credentials,
            m,
        ),
    decreases n - m,
{
    if n > m {
        lemma_members_sticks(d, ms, accounts, credentials, m, n - 1);
    }
}

proof fn lemma_member_check_sticks(
    c: Seq<RouteCandidate>,
    ds: Seq<ModelDeploymentDefinition>,
    ss: Seq<AccountSelectorDefinition>,
    accounts: Seq<AccountDefinition>,
    credentials: Seq<CredentialDefinition>,
    m: int,
    n: int,
)
    requires
        0 <= m <= n,
        member_check_prefix(c, ds, ss, accounts, credentials, m) is Some,
    ensures
        member_check_prefix(c, ds, ss, accounts, credentials, n) == member_check_prefix(
            c,
            ds,
            ss,
            accounts,
            credentials,
            m,
        ),
    decreases n - m,
{
    if n > m {
        lemma_member_check_sticks(c, ds, ss, accounts, credentials, m, n - 1);
    }
}

/// Law: a compiled snapshot never holds a dangling reference. Every candidate's target names
/// a deployment of the same site and endpoint and a selector that the catalogs hold, and every
/// member of that selector names a known account of the deployment's site and a known
/// credential owned by that account.
pub proof fn lemma_compiled_references_resolve(
    c: Seq<RouteCandidate>,
    max_attempts: u8,
    ds: Seq<ModelDeploymentDefinition>,
    accounts: Seq<AccountDefinition>,
    credentials: Seq<CredentialDefinition>,
    ss: Seq<AccountSelectorDefinition>,
    i: int,
    j: int,
)
    requires
        compile_check(c, max_attempts, ds, accounts, credentials, ss) is Ok,
        0 <= i < c.len(),
    ensures
        deployment_named(ds, c[i].spec_target().spec_deployment()) matches Some(d) && d.spec_site()
            == c[i].spec_target().spec_site() && d.spec_endpoint() == c[i].spec_target().spec_endpoint(),
        selector_named(ss, c[i].spec_target().spec_account_selector()) is Some,
        0 <= j < selector_named(ss, c[i].spec_target().spec_account_selector()).unwrap().spec_members().len() ==> {
            let m = selector_named(ss, c[i].spec_target().spec_account_selector()).unwrap().spec_members()[j];
            &&& account_named(accounts, m.spec_account()) matches Some(a) && a.spec_site()
                == deployment_named(ds, c[i].spec_target().spec_deployment()).unwrap().spec_site()
            &&& credential_named(credentials, m.spec_credential()) matches Some(cr) && cr.spec_account()
                == m.spec_account()
        },
{
    lemma_deployment_clean(c, ds, c.len() as int, i);
    assert(selector_named(ss, c[i].spec_target().spec_account_selector()) is Some);
    lemma_member_check_clean(c, ds, ss, accounts, credentials, c.len() as int, i);
    let t = c[i].spec_target();
    let d = deployment_named(ds, t.spec_deployment()).unwrap();
    let s = selector_named(ss, t.spec_account_selector()).unwrap();
    if 0 <= j < s.spec_members().len() {
        lemma_members_clean(d, s.spec_members(), accounts, credentials, s.spec_members().len() as int, j);
    }
}

proof fn lemma_member_check_clean(
    c: Seq<RouteCandidate>,
    ds: Seq<ModelDeploymentDefinition>,
    ss: Seq<AccountSelectorDefinition>,
    accounts: Seq<AccountDefinition>,
    credentials: Seq<CredentialDefinition>,
    n: int,
    i: int,
)
    requires
        0 <= i < n,
        member_check_prefix(c, ds, ss, accounts, credentials, n) is None,
    ensures
        target_member_violation(ds, ss, accounts, credentials, c[i].spec_target()) is None,
    decreases n - i,
{
    if i < n - 1 {
        lemma_member_check_clean(c, ds, ss, accounts, credentials, n - 1, i);
    }
}

proof fn lemma_members_clean(
    d: ModelDeploymentDefinition,
    ms: Seq<AccountSelectorMember>,
    accounts: Seq<AccountDefinition>,
    credentials: Seq<CredentialDefinition>,
    n: int,
    j: int,
)
    requires
        0 <= j < n,
        members_prefix_violation(d, ms, accounts, credentials, n) is None,
    ensures
        member_violation(d, ms[j], accounts, credentials) is None,
    decreases n - j,
{
    if j < n - 1 {
        lemma_members_clean(d, ms, accounts, credentials, n - 1, j);
    }
}

/// The whole static route configuration that one plan attempt resolves to in one compiled
/// generation.
///
/// The value selects no account or credential and holds no health, quota, lease, secret,
/// transport or request content.
#[derive(Clone, Copy)]
pub struct ResolvedRouteTarget<'s, 'c> {
    routing: &'s RoutingSnapshot<'c>,
    snapshot_version: SnapshotVersion,
    stage: RouteStageId,
    target: RouteTarget,
    deployment: &'c ModelDeploymentDefinition,
    selector: &'c AccountSelectorDefinition<'c>,
}

impl<'s, 'c> ResolvedRouteTarget<'s, 'c> {
    /// The routing snapshot the target was resolved from.
    pub closed spec fn spec_routing(&self) -> RoutingSnapshot<'c> {
        *self.routing
    }

    /// The version of that snapshot.
    pub closed spec fn spec_snapshot_version(&self) -> SnapshotVersion {
        self.snapshot_version
    }

    /// The stage of the attempt.
    pub closed spec fn spec_stage(&self) -> RouteStageId {
        self.stage
    }

    /// The whole route target of the attempt.
    pub closed spec fn spec_target(&self) -> RouteTarget {
        self.target
    }

    /// The model deployment of the same generation.
    pub closed spec fn spec_deployment(&self) -> ModelDeploymentDefinition {
        *self.deployment
    }

    /// The account selection contract of the same generation.
    pub closed spec fn spec_selector(&self) -> AccountSelectorDefinition<'c> {
        *self.selector
    }

    /// Returns the compiled snapshot version used for the resolution.
    pub fn snapshot_version(self) -> (r: SnapshotVersion)
        ensures
            r == self.spec_snapshot_version(),
    {
        self.snapshot_version
    }

    /// Returns the stable stage of the attempt.
    pub fn stage(self) -> (r: RouteStageId)
        ensures
            r == self.spec_stage(),
    {
        self.stage
    }

    /// Returns the whole route target bound to the attempt.
    pub fn target(self) -> (r: RouteTarget)
        ensures
            r == self.spec_target(),
    {
        self.target
    }

    /// Returns the model deployment of the same generation, for the controlled execution layer.
    pub(crate) fn deployment(self) -> (r: &'c ModelDeploymentDefinition)
        ensures
            *r == self.spec_deployment(),
    {
        self.deployment
    }

    /// Returns the account selection contract of the same generation, for the controlled
    /// execution layer.
    pub(crate) fn selector(self) -> (r: &'c AccountSelectorDefinition<'c>)
        ensures
            *r == self.spec_selector(),
    {
        self.selector
    }

    /// Whether the target was resolved from this very routing snapshot instance.
    pub(crate) fn matches_snapshot(&self, snapshot: &RoutingSnapshot<'c>) -> (r: bool)
        ensures
            r ==> self.spec_routing() == *snapshot,
    {
        same_snapshot(self.routing, snapshot)
    }
}

/// The immutable result of compiling route candidates, model deployments, account selection
/// contracts and the static identity catalogs together.
///
/// It is the only way outside the crate to build a routing snapshot. It only borrows one
/// generation of configuration and keeps no global registry.
pub struct CompiledRoutingSnapshot<'a> {
    routing: RoutingSnapshot<'a>,
    deployments: ModelDeploymentCatalog<'a>,
    selectors: AccountSelectorCatalog<'a>,
    accounts: AccountCatalog<'a>,
    credentials: CredentialCatalog<'a>,
}

impl<'a> CompiledRoutingSnapshot<'a> {
    /// The route candidate snapshot.
    pub closed spec fn spec_routing(&self) -> RoutingSnapshot<'a> {
        self.routing
    }

    /// The model deployment definitions.
    pub closed spec fn spec_deployments(&self) -> Seq<ModelDeploymentDefinition> {
        self.deployments.spec_deployments()
    }

    /// The account selection contracts.
    pub closed spec fn spec_selectors(&self) -> Seq<AccountSelectorDefinition<'a>> {
        self.selectors.spec_selectors()
    }

    /// The account definitions.
    pub closed spec fn spec_accounts(&self) -> Seq<AccountDefinition> {
        self.accounts.spec_accounts()
    }

    /// The credential definitions.
    pub closed spec fn spec_credentials(&self) -> Seq<CredentialDefinition> {
        self.credentials.spec_credentials()
    }

    #[verifier::type_invariant]
    closed spec fn inv(&self) -> bool {
        compile_check(
            self.routing.spec_candidates(),
            self.routing.spec_max_attempts(),
            self.deployments.spec_deployments(),
            self.accounts.spec_accounts(),
            self.credentials.spec_credentials(),
            self.selectors.spec_selectors(),
        ) is Ok
    }

    /// Compiles candidates, deployments, selection contracts and identity catalogs, refusing
    /// every dangling or inconsistent reference.
    ///
    /// `version` is the immutable configuration generation: the host must raise it whenever a
    /// static route or resource identity changes meaning, and must never rebind an account,
    /// credential or quota group identifier to another resource within one version.
    #[verifier::loop_isolation(false)]
    pub fn compile(
        version: SnapshotVersion,
        candidates: &'a [RouteCandidate],
        strategy: RoutingStrategy,
        max_attempts: u8,
        deployments: &'a [ModelDeploymentDefinition],
        account_credentials: AccountCredentialDefinitions<'a>,
        selectors: &'a [AccountSelectorDefinition<'a>],
    ) -> (r: Result<Self, CompiledRoutingSnapshotError>)
        ensures
            compile_check(
                candidates@,
                max_attempts,
                deployments@,
                account_credentials.spec_accounts(),
                account_credentials.spec_credentials(),
                selectors@,
            ) matches Err(e) ==> r == Err::<Self, CompiledRoutingSnapshotError>(e),
            compile_check(
                candidates@,
                max_attempts,
                deployments@,
                account_credentials.spec_accounts(),
                account_credentials.spec_credentials(),
                selectors@,
            ) is Ok ==> (r matches Ok(s) && s.spec_routing().spec_version() == version
                && s.spec_routing().spec_candidates() == candidates@ && s.spec_routing().spec_strategy() == strategy
                && s.spec_routing().spec_max_attempts() == max_attempts && s.spec_deployments() == deployments@
                && s.spec_selectors() == selectors@ && s.spec_accounts() == account_credentials.spec_accounts()
                && s.spec_credentials() == account_credentials.spec_credentials()),
    {
        let ghost c = candidates@;
        let ghost ds = deployments@;
        let ghost ss = selectors@;
        let ghost acs = account_credentials.spec_accounts();
        let ghost crs = account_credentials.spec_credentials();
        let routing = match RoutingSnapshot::new(version, candidates, strategy, max_attempts) {
            Ok(r) => r,
            Err(e) => {
                return Err(CompiledRoutingSnapshotError::Plan(e));
            },
        };
        let deployment_catalog = match ModelDeploymentCatalog::new(deployments) {
            Ok(d) => d,
            Err(e) => {
                return Err(CompiledRoutingSnapshotError::DeploymentCatalog(e));
            },
        };
        let n = candidates.len();
        let mut i: usize = 0;
        while i < n
            invariant
                0 <= i <= n,
                n == c.len(),
                deployment_prefix_violation(c, ds, i as int) is None,
            decreases n - i,
        {
            let target = candidates[i].target();
            let found = deployment_catalog.get(target.deployment());
            proof {
                lemma_deployment_found(ds, target.spec_deployment(), found);
            }
            match found {
                None => {
                    proof {
                        lemma_deployment_sticks(c, ds, i as int + 1, n as int);
                    }
                    return Err(CompiledRoutingSnapshotError::Plan(PlanError::UnknownModelDeployment));
                },
                Some(d) => {
                    if d.site() != target.site() {
                        proof {
                            lemma_deployment_sticks(c, ds, i as int + 1, n as int);
                        }
                        return Err(CompiledRoutingSnapshotError::Plan(PlanError::TargetDeploymentSiteMismatch));
                    }
                    if d.endpoint() != target.endpoint() {
                        proof {
                            lemma_deployment_sticks(c, ds, i as int + 1, n as int);
                        }
                        return Err(CompiledRoutingSnapshotError::Plan(PlanError::TargetDeploymentEndpointMismatch));
                    }
                },
            }
            i += 1;
        }
        let selector_catalog = match AccountSelectorCatalog::new(selectors) {
            Ok(s) => s,
            Err(e) => {
                return Err(CompiledRoutingSnapshotError::Catalog(e));
            },
        };
        let mut i: usize = 0;
        while i < n
            invariant
                0 <= i <= n,
                n == c.len(),
                forall|k: int| 0 <= k < i ==> selector_named(ss, #[trigger] c[k].spec_target().spec_account_selector()) is Some,
            decreases n - i,
        {
            let target = candidates[i].target();
            if !selector_catalog.contains(target.account_selector()) {
                assert(selector_named(ss, c[i as int].spec_target().spec_account_selector()) is None);
                return Err(CompiledRoutingSnapshotError::Plan(PlanError::UnknownAccountSelector));
            }
            i += 1;
        }
        let accounts = match AccountCatalog::new(account_credentials.accounts()) {
            Ok(a) => a,
            Err(e) => {
                return Err(CompiledRoutingSnapshotError::AccountCatalog(e));
            },
        };
        let credentials = match CredentialCatalog::new(account_credentials.credentials(), &accounts) {
            Ok(cr) => cr,
            Err(e) => {
                return Err(CompiledRoutingSnapshotError::CredentialCatalog(e));
            },
        };
        let mut i: usize = 0;
        while i < n
            invariant
                0 <= i <= n,
                n == c.len(),
                member_check_prefix(c, ds, ss, acs, crs, i as int) is None,
            decreases n - i,
        {
            let target = candidates[i].target();
            let found = deployment_catalog.get(target.deployment());
            proof {
                lemma_deployment_found(ds, target.spec_deployment(), found);
            }
            let deployment = match found {
                Some(d) => d,
                None => {
                    proof {
                        lemma_member_check_sticks(c, ds, ss, acs, crs, i as int + 1, n as int);
                    }
                    return Err(CompiledRoutingSnapshotError::Plan(PlanError::UnknownModelDeployment));
                },
            };
            let found_selector = selector_catalog.get(target.account_selector());
            proof {
                lemma_selector_found(ss, target.spec_account_selector(), found_selector);
            }
            let selector = match found_selector {
                Some(s) => s,
                None => {
                    proof {
                        lemma_member_check_sticks(c, ds, ss, acs, crs, i as int + 1, n as int);
                    }
                    return Err(CompiledRoutingSnapshotError::Plan(PlanError::UnknownAccountSelector));
                },
            };
            let members = selector.members();
            let ghost ms = members@;
            let mut j: usize = 0;
            while j < members.len()
                invariant
                    0 <= j <= ms.len(),
                    ms == members@,
                    members_prefix_violation(*deployment, ms, acs, crs, j as int) is None,
                decreases ms.len() - j,
            {
                let member = members[j];
                let found_account = accounts.get(member.account());
                let found_credential = credentials.get(member.credential());
                proof {
                    lemma_account_found(acs, member.spec_account(), found_account);
                    lemma_credential_found(crs, member.spec_credential(), found_credential);
                }
                let violation = match found_account {
                    None => Some(PlanError::UnknownAccount),
                    Some(account) => match found_credential {
                        None => Some(PlanError::UnknownCredential),
                        Some(credential) => if credential.account() != member.account() {
                            Some(PlanError::CredentialAccountMismatch)
                        } else if account.site() != deployment.site() {
                            Some(PlanError::AccountDeploymentSiteMismatch)
                        } else {
                            None
                        },
                    },
                };
                assert(violation == member_violation(*deployment, ms[j as int], acs, crs));
                if let Some(e) = violation {
                    proof {
                        lemma_members_sticks(*deployment, ms, acs, crs, j as int + 1, ms.len() as int);
                        lemma_member_check_sticks(c, ds, ss, acs, crs, i as int + 1, n as int);
                    }
                    return Err(CompiledRoutingSnapshotError::Plan(e));
                }
                j += 1;
            }
            i += 1;
        }
        Ok(
            CompiledRoutingSnapshot {
                routing,
                deployments: deployment_catalog,
                selectors: selector_catalog,
                accounts,
                credentials,
            },
        )
    }

    /// Returns the structurally checked route candidate snapshot.
    pub fn routing(&self) -> (r: &RoutingSnapshot<'a>)
        ensures
            *r == self.spec_routing(),
    {
        &self.routing
    }

    /// Resolves one attempt of a plan to its target, model deployment and account selection
    /// contract of the same generation.
    ///
    /// The plan must come from this compiled snapshot's own routing instance; a plan from
    /// any other instance, even of equal value, is refused as stale.
    pub fn resolve_plan_target<'s>(&'s self, plan: &RoutePlan<'s, 'a>, attempt_index: u8) -> (r: Result<
        Option<ResolvedRouteTarget<'s, 'a>>,
        PlanError,
    >)
        ensures
            r matches Err(e) ==> e == PlanError::StaleSnapshot,
            r is Ok ==> plan.spec_snapshot() == self.spec_routing(),
            r matches Ok(x) ==> (x is Some <==> (attempt_index as int) < plan.spec_positions().len()),
            r matches Ok(Some(x)) ==> {
                let t = self.spec_routing().spec_candidates()[plan.spec_positions()[attempt_index as int]];
                &&& x.spec_routing() == self.spec_routing()
                &&& x.spec_snapshot_version() == self.spec_routing().spec_version()
                &&& x.spec_target() == t.spec_target()
                &&& x.spec_stage() == t.spec_stage()
                &&& deployment_named(self.spec_deployments(), t.spec_target().spec_deployment()) == Some(
                    x.spec_deployment(),
                )
                &&& selector_named(self.spec_selectors(), t.spec_target().spec_account_selector()) == Some(
                    x.spec_selector(),
                )
            },
    {
        proof {
            use_type_invariant(self);
        }
        if !same_snapshot(plan.snapshot_ref(), &self.routing) {
            return Err(PlanError::StaleSnapshot);
        }
        let ghost c = self.routing.spec_candidates();
        let target = match plan.resolve(attempt_index) {
            Ok(Some(target)) => target,
            Ok(None) => {
                return Ok(None);
            },
            Err(_) => {
                return Err(PlanError::StaleSnapshot);
            },
        };
        let ghost p = plan.spec_positions()[attempt_index as int];
        proof {
            lemma_deployment_clean(c, self.spec_deployments(), c.len() as int, p);
            assert(selector_named(self.spec_selectors(), c[p].spec_target().spec_account_selector()) is Some);
        }
        let stage = match self.routing.stage_for(target.id()) {
            Some(stage) => stage,
            None => {
                return Err(PlanError::StaleSnapshot);
            },
        };
        let found = self.deployments.get(target.deployment());
        proof {
            lemma_deployment_found(self.spec_deployments(), target.spec_deployment(), found);
        }
        let deployment = match found {
            Some(d) => d,
            None => {
                return Err(PlanError::StaleSnapshot);
            },
        };
        let found_selector = self.selectors.get(target.account_selector());
        proof {
            lemma_selector_found(self.spec_selectors(), target.spec_account_selector(), found_selector);
        }
        let selector = match found_selector {
            Some(s) => s,
            None => {
                return Err(PlanError::StaleSnapshot);
            },
        };
        Ok(
            Some(
                ResolvedRouteTarget {
                    routing: &self.routing,
                    snapshot_version: self.routing.version(),
                    stage,
                    target,
                    deployment,
                    selector,
                },
            ),
        )
    }

    /// Returns the selection policy that the target `target` of this generation declares.
    ///
    /// A target or selector that cannot be resolved gives `None`; the caller must then fail
    /// closed.
    pub(crate) fn selection_policy_for(&self, target: RouteTargetId) -> (r: Option<CredentialSelectionPolicy>)
        ensures
            r is Some <==> exists|i: int|
                0 <= i < self.spec_routing().spec_candidates().len()
                    && #[trigger] self.spec_routing().spec_candidates()[i].spec_target().spec_id() == target,
            r matches Some(p) ==> forall|i: int|
                0 <= i < self.spec_routing().spec_candidates().len()
                    && #[trigger] self.spec_routing().spec_candidates()[i].spec_target().spec_id() == target
                    ==> (selector_named(
                    self.spec_selectors(),
                    self.spec_routing().spec_candidates()[i].spec_target().spec_account_selector(),
                ) matches Some(s) && s.spec_policy() == p),
    {
        proof {
            use_type_invariant(self);
        }
        let resolved = match self.routing.resolve_target(target) {
            Some(t) => t,
            None => {
                return None;
            },
        };
        let ghost c = self.routing.spec_candidates();
        let ghost k = choose|k: int| 0 <= k < c.len() && #[trigger] c[k].spec_target().spec_id() == target;
        proof {
            assert(selector_named(self.spec_selectors(), c[k].spec_target().spec_account_selector()) is Some);
        }
        let found = self.selectors.get(resolved.account_selector());
        proof {
            lemma_selector_found(self.spec_selectors(), resolved.spec_account_selector(), found);
        }
        match found {
            Some(selector) => Some(selector.policy()),
            None => None,
        }
    }
}

proof fn lemma_deployment_found(
    ds: Seq<ModelDeploymentDefinition>,
    id: ModelDeploymentId,
    found: Option<&ModelDeploymentDefinition>,
)
    requires
        found is None <==> forall|i: int| 0 <= i < ds.len() ==> ds[i].spec_id() != id,
        found matches Some(d) ==> forall|i: int| 0 <= i < ds.len() && ds[i].spec_id() == id ==> ds[i] == *d,
    ensures
        deployment_named(ds, id) == match found {
            Some(d) => Some(*d),
            None => None::<ModelDeploymentDefinition>,
        },
{
    if let Some(d) = found {
        let i = choose|i: int| 0 <= i < ds.len() && #[trigger] ds[i].spec_id() == id;
        assert(ds[i] == *d);
    }
}

proof fn lemma_selector_found<'a>(
    ss: Seq<AccountSelectorDefinition<'a>>,
    id: AccountSelectorId,
    found: Option<&AccountSelectorDefinition<'a>>,
)
    requires
        found is None <==> forall|i: int| 0 <= i < ss.len() ==> ss[i].spec_id() != id,
        found matches Some(d) ==> forall|i: int| 0 <= i < ss.len() && ss[i].spec_id() == id ==> ss[i] == *d,
    ensures
        selector_named(ss, id) == match found {
            Some(d) => Some(*d),
            None => None::<AccountSelectorDefinition<'a>>,
        },
{
    if let Some(d) = found {
        let i = choose|i: int| 0 <= i < ss.len() && #[trigger] ss[i].spec_id() == id;
        assert(ss[i] == *d);
    }
}

proof fn lemma_account_found(accounts: Seq<AccountDefinition>, id: AccountId, found: Option<&AccountDefinition>)
    requires
        found is None <==> forall|i: int| 0 <= i < accounts.len() ==> accounts[i].spec_id() != id,
        found matches Some(d) ==> forall|i: int| 0 <= i < accounts.len() && accounts[i].spec_id() == id ==> accounts[i]
            == *d,
    ensures
        account_named(accounts, id) == match found {
            Some(d) => Some(*d),
            None => None::<AccountDefinition>,
        },
{
    if let Some(d) = found {
        let i = choose|i: int| 0 <= i < accounts.len() && #[trigger] accounts[i].spec_id() == id;
        assert(accounts[i] == *d);
    }
}

proof fn lemma_credential_found(
    credentials: Seq<CredentialDefinition>,
    id: CredentialId,
    found: Option<&CredentialDefinition>,
)
    requires
        found is None <==> forall|i: int| 0 <= i < credentials.len() ==> credentials[i].spec_id() != id,
        found matches Some(d) ==> forall|i: int|
            0 <= i < credentials.len() && credentials[i].spec_id() == id ==> credentials[i] == *d,
    ensures
        credential_named(credentials, id) == match found {
            Some(d) => Some(*d),
            None => None::<CredentialDefinition>,
        },
{
    if let Some(d) = found {
        let i = choose|i: int| 0 <= i < credentials.len() && #[trigger] credentials[i].spec_id() == id;
        assert(credentials[i] == *d);
    }
}

} // verus!
