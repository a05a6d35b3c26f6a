//! Static ownership contract of accounts and credentials with bounded catalogs.
//!
//! The module checks only which site an account belongs to and which account a credential
//! belongs to; it holds no secret, origin, auth scheme, URL, header, authorization state or
//! runtime state.
use vstd::prelude::*;

use crate::ids::{AccountId, CredentialId, SiteId};
use crate::MAX_ROUTE_TARGETS;

verus! {

/// Maximum number of accounts one compiled snapshot may reference.
pub const MAX_ACCOUNTS: usize = MAX_ROUTE_TARGETS;

/// Maximum number of credentials one compiled snapshot may reference.
pub const MAX_CREDENTIALS: usize = MAX_ROUTE_TARGETS;

/// The raw definitions that compiling the static account/credential catalogs needs.
///
/// The value only pairs two borrowed slices for the compiler; it validates nothing.
#[derive(Clone, Copy, Debug, PartialEq, Eq)]
pub struct AccountCredentialDefinitions<'a> {
    accounts: &'a [AccountDefinition],
    credentials: &'a [CredentialDefinition],
}

impl<'a> AccountCredentialDefinitions<'a> {
    /// The account definitions.
    pub closed spec fn spec_accounts(&self) -> Seq<AccountDefinition> {
        self.accounts@
    }

    /// The credential definitions.
    pub closed spec fn spec_credentials(&self) -> Seq<CredentialDefinition> {
        self.credentials@
    }

    /// Pairs the static definitions that a snapshot compilation validates.
    pub fn new(accounts: &'a [AccountDefinition], credentials: &'a [CredentialDefinition]) -> (r: Self)
        ensures
            r.spec_accounts() == accounts@,
            r.spec_credentials() == credentials@,
    {
        AccountCredentialDefinitions { accounts, credentials }
    }

    /// Returns the account definitions awaiting validation.
    pub fn accounts(&self) -> (r: &'a [AccountDefinition])
        ensures
            r@ == self.spec_accounts(),
    {
        self.accounts
    }

    /// Returns the credential definitions awaiting validation.
    pub fn credentials(&self) -> (r: &'a [CredentialDefinition])
        ensures
            r@ == self.spec_credentials(),
    {
        self.credentials
    }
}

/// The static identity relation of an account with its site.
#[derive(Clone, Copy, Debug, PartialEq, Eq, Structural)]
pub struct AccountDefinition {
    id: AccountId,
    site: SiteId,
}

impl AccountDefinition {
    /// The account identifier.
    pub closed spec fn spec_id(self) -> AccountId {
        self.id
    }

    /// The site of the account.
    pub closed spec fn spec_site(self) -> SiteId {
        self.site
    }

    /// Builds the static identity relation of an account.
    pub fn new(id: AccountId, site: SiteId) -> (d: Self)
        ensures
            d.spec_id() == id,
            d.spec_site() == site,
    {
        AccountDefinition { id, site }
    }

    /// Returns the stable account identifier.
    pub fn id(self) -> (r: AccountId)
        ensures
            r == self.spec_id(),
    {
        self.id
    }

    /// Returns the site the account belongs to.
    pub fn site(self) -> (r: SiteId)
        ensures
            r == self.spec_site(),
    {
        self.site
    }
}

/// The static ownership relation of a credential with its account.
#[derive(Clone, Copy, Debug, PartialEq, Eq, Structural)]
pub struct CredentialDefinition {
    id: CredentialId,
    account: AccountId,
}

impl CredentialDefinition {
    /// The credential identifier.
    pub closed spec fn spec_id(self) -> CredentialId {
        self.id
    }

    /// The account that owns the credential.
    pub closed spec fn spec_account(self) -> AccountId {
        self.account
    }

    /// Builds the static ownership relation of a credential.
    pub fn new(id: CredentialId, account: AccountId) -> (d: Self)
        ensures
            d.spec_id() == id,
            d.spec_account() == account,
    {
        CredentialDefinition { id, account }
    }

    /// Returns the stable credential identifier.
    pub fn id(self) -> (r: CredentialId)
        ensures
            r == self.spec_id(),
    {
        self.id
    }

    /// Returns the account the credential belongs to.
    pub fn account(self) -> (r: AccountId)
        ensures
            r == self.spec_account(),
    {
        self.account
    }
}

/// Why an immutable account catalog is refused.
#[derive(Clone, Copy, Debug, PartialEq, Eq, Structural)]
pub enum AccountCatalogError {
    /// The catalog holds no definition.
    Empty,
    /// The catalog exceeds the fixed bound.
    TooMany,
    /// One account identifier occurs twice.
    DuplicateId,
}

/// Why an immutable credential catalog is refused.
#[derive(Clone, Copy, Debug, PartialEq, Eq, Structural)]
pub enum CredentialCatalogError {
    /// The catalog holds no definition.
    Empty,
    /// The catalog exceeds the fixed bound.
    TooMany,
    /// One credential identifier occurs twice.
    DuplicateId,
    /// A credential names an owner that the account catalog lacks.
    UnknownOwnerAccount,
}

/// The verdict of account catalog validation on `a`.
pub open spec fn account_catalog_check(a: Seq<AccountDefinition>) -> Result<(), AccountCatalogError> {
    if a.len() == 0 {
        Err(AccountCatalogError::Empty)
    } else if a.len() > MAX_ACCOUNTS {
        Err(AccountCatalogError::TooMany)
    } else if exists|i: int, j: int| 0 <= i < j < a.len() && a[i].spec_id() == a[j].spec_id() {
        Err(AccountCatalogError::DuplicateId)
    } else {
        Ok(())
    }
}

/// Whether `accounts` defines `id`.
pub open spec fn defines_account(accounts: Seq<AccountDefinition>, id: AccountId) -> bool {
    exists|k: int| 0 <= k < accounts.len() && accounts[k].spec_id() == id
}

/// The violation, if any, that credential `i` shows.
pub open spec fn credential_violation_at(
    c: Seq<CredentialDefinition>,
    accounts: Seq<AccountDefinition>,
    i: int,
) -> Option<CredentialCatalogError> {
    if exists|j: int| 0 <= j < i && #[trigger] c[j].spec_id() == c[i].spec_id() {
        Some(CredentialCatalogError::DuplicateId)
    } else if !defines_account(accounts, c[i].spec_account()) {
        Some(CredentialCatalogError::UnknownOwnerAccount)
    } else {
        None
    }
}

/// The first violation among the first `n` credentials, scanning in order.
pub open spec fn credential_prefix_violation(
    c: Seq<CredentialDefinition>,
    accounts: Seq<AccountDefinition>,
    n: int,
) -> Option<CredentialCatalogError>
    decreases n,
{
    if n <= 0 {
        None
    } else {
        match credential_prefix_violation(c, accounts, n - 1) {
            Some(e) => Some(e),
            None => credential_violation_at(c, accounts, n - 1),
        }
    }
}

/// The verdict of credential catalog validation on `c` against the accounts.
pub open spec fn credential_catalog_check(
    c: Seq<CredentialDefinition>,
    accounts: Seq<AccountDefinition>,
) -> Result<(), CredentialCatalogError> {
    if c.len() == 0 {
        Err(CredentialCatalogError::Empty)
    } else if c.len() > MAX_CREDENTIALS {
        Err(CredentialCatalogError::TooMany)
    } else {
        match credential_prefix_violation(c, accounts, c.len() as int) {
            Some(e) => Err(e),
            None => Ok(()),
        }
    }
}

proof fn lemma_credential_violation_sticks(
    c: Seq<CredentialDefinition>,
    accounts: Seq<AccountDefinition>,
    m: int,
    n: int,
)
    requires
        0 <= m <= n,
        credential_prefix_violation(c, accounts, m) is Some,
    ensures
        credential_prefix_violation(c, accounts, n) == credential_prefix_violation(c, accounts, m),
    decreases n - m,
{
    if n > m {
        lemma_credential_violation_sticks(c, accounts, m, n - 1);
    }
}

proof fn lemma_credential_prefix_clean(
    c: Seq<CredentialDefinition>,
    accounts: Seq<AccountDefinition>,
    n: int,
    i: int,
)
    requires
        0 <= i < n,
        credential_prefix_violation(c, accounts, n) is None,
    ensures
        credential_violation_at(c, accounts, i) is None,
    decreases n - i,
{
    if i < n - 1 {
        lemma_credential_prefix_clean(c, accounts, n - 1, i);
    }
}

/// The static account catalog of one compiled routing snapshot.
#[derive(Clone, Copy, Debug, PartialEq, Eq)]
pub struct AccountCatalog<'a> {
    accounts: &'a [AccountDefinition],
}

impl<'a> AccountCatalog<'a> {
    /// The definitions of the catalog.
    pub closed spec fn spec_accounts(&self) -> Seq<AccountDefinition> {
        self.accounts@
    }

    #[verifier::type_invariant]
    closed spec fn inv(&self) -> bool {
        account_catalog_check(self.accounts@) is Ok
    }

    /// Validates and builds an account catalog of bounded size.
    pub fn new(accounts: &'a [AccountDefinition]) -> (r: Result<Self, AccountCatalogError>)
        ensures
            account_catalog_check(accounts@) matches Err(e) ==> r == Err::<Self, AccountCatalogError>(e),
            account_catalog_check(accounts@) is Ok ==> (r matches Ok(c) && c.spec_accounts() == accounts@),
    {
        if accounts.len() == 0 {
            return Err(AccountCatalogError::Empty);
        }
        if accounts.len() > MAX_ACCOUNTS {
            return Err(AccountCatalogError::TooMany);
        }
        let n = accounts.len();
        let mut index: usize = 0;
        while index < n
            invariant
                n == accounts@.len(),
                1 <= n <= MAX_ACCOUNTS,
                0 <= index <= n,
                forall|i: int, j: int| 0 <= i < j < index ==> accounts@[i].spec_id() != accounts@[j].spec_id(),
            decreases n - index,
        {
            let mut j: usize = 0;
            while j < index
                invariant
                    n == accounts@.len(),
                    1 <= n <= MAX_ACCOUNTS,
                    0 <= j <= index < n,
                    forall|i: int| 0 <= i < j ==> accounts@[i].spec_id() != accounts@[index as int].spec_id(),
                decreases index - j,
            {
                if accounts[j].id == accounts[index].id {
                    assert(accounts@[j as int].spec_id() == accounts@[index as int].spec_id());
                    return Err(AccountCatalogError::DuplicateId);
                }
                j += 1;
            }
            index += 1;
        }
        Ok(AccountCatalog { accounts })
    }

    /// Returns the number of definitions.
    pub fn len(&self) -> (r: usize)
        ensures
            r == self.spec_accounts().len(),
            1 <= r <= MAX_ACCOUNTS,
    {
        proof {
            use_type_invariant(self);
        }
        self.accounts.len()
    }

    /// Whether the catalog is empty; a catalog built by `new` never is.
    pub fn is_empty(&self) -> (r: bool)
        ensures
            r == (self.spec_accounts().len() == 0),
            !r,
    {
        proof {
            use_type_invariant(self);
        }
        self.accounts.len() == 0
    }

    /// Looks an account definition up by its identifier.
    #[verifier::loop_isolation(false)]
    pub fn get(&self, id: AccountId) -> (r: Option<&'a AccountDefinition>)
        ensures
            r is None <==> !defines_account(self.spec_accounts(), id),
            r matches Some(d) ==> exists|i: int| 0 <= i < self.spec_accounts().len() && self.spec_accounts()[i] == *d,
            r matches Some(d) ==> d.spec_id() == id,
            r matches Some(d) ==> forall|i: int|
                0 <= i < self.spec_accounts().len() && self.spec_accounts()[i].spec_id() == id ==> self.spec_accounts()[i] == *d,
    {
        proof {
            use_type_invariant(self);
        }
        let mut i: usize = 0;
        while i < self.accounts.len()
            invariant
                0 <= i <= self.accounts@.len(),
                forall|k: int| 0 <= k < i ==> self.accounts@[k].spec_id() != id,
            decreases self.accounts@.len() - i,
        {
            if self.accounts[i].id == id {
                assert(self.spec_accounts()[i as int].spec_id() == id);
                assert forall|k: int|
                    0 <= k < self.accounts@.len() && self.accounts@[k].spec_id() == id implies self.accounts@[k]
                        == self.accounts@[i as int] by {
                    if k < i {
                        assert(self.accounts@[k].spec_id() == self.accounts@[i as int].spec_id());
                    } else if k > i {
                        assert(self.accounts@[i as int].spec_id() == self.accounts@[k].spec_id());
                    }
                }
                return Some(&self.accounts[i]);
            }
            i += 1;
        }
        None
    }
}

/// The static credential catalog of one compiled routing snapshot.
#[derive(Clone, Copy, Debug, PartialEq, Eq)]
pub struct CredentialCatalog<'a> {
    credentials: &'a [CredentialDefinition],
}

impl<'a> CredentialCatalog<'a> {
    /// The definitions of the catalog.
    pub closed spec fn spec_credentials(&self) -> Seq<CredentialDefinition> {
        self.credentials@
    }

    #[verifier::type_invariant]
    closed spec fn inv(&self) -> bool {
        &&& 1 <= self.credentials@.len() <= MAX_CREDENTIALS
        &&& forall|i: int, j: int|
            0 <= i < j < self.credentials@.len() ==> self.credentials@[i].spec_id() != self.credentials@[j].spec_id()
    }

    /// Validates and builds a credential catalog, refusing owners that the accounts lack.
    pub fn new(credentials: &'a [CredentialDefinition], accounts: &AccountCatalog<'_>) -> (r: Result<
        Self,
        CredentialCatalogError,
    >)
        ensures
            credential_catalog_check(credentials@, accounts.spec_accounts()) matches Err(e) ==> r == Err::<
                Self,
                CredentialCatalogError,
            >(e),
            credential_catalog_check(credentials@, accounts.spec_accounts()) is Ok ==> (r matches Ok(c)
                && c.spec_credentials() == credentials@),
    {
        let ghost c = credentials@;
        let ghost a = accounts.spec_accounts();
        if credentials.len() == 0 {
            return Err(CredentialCatalogError::Empty);
        }
        if credentials.len() > MAX_CREDENTIALS {
            return Err(CredentialCatalogError::TooMany);
        }
        let n = credentials.len();
        let mut index: usize = 0;
        while index < n
            invariant
                c == credentials@,
                a == accounts.spec_accounts(),
                n == c.len(),
                1 <= n <= MAX_CREDENTIALS,
                0 <= index <= n,
                credential_prefix_violation(c, a, index as int) is None,
            decreases n - index,
        {
            let mut j: usize = 0;
            while j < index
                invariant
                    c == credentials@,
                    a == accounts.spec_accounts(),
                    n == c.len(),
                    1 <= n <= MAX_CREDENTIALS,
                    0 <= j <= index < n,
                    credential_prefix_violation(c, a, index as int) is None,
                    forall|i: int| 0 <= i < j ==> c[i].spec_id() != c[index as int].spec_id(),
                decreases index - j,
            {
                if credentials[j].id == credentials[index].id {
                    proof {
                        assert(c[j as int].spec_id() == c[index as int].spec_id());
                        assert(credential_prefix_violation(c, a, index as int + 1) == Some(
                            CredentialCatalogError::DuplicateId,
                        ));
                        lemma_credential_violation_sticks(c, a, index as int + 1, n as int);
                    }
                    return Err(CredentialCatalogError::DuplicateId);
                }
                j += 1;
            }
            if accounts.get(credentials[index].account).is_none() {
                proof {
                    assert(credential_prefix_violation(c, a, index as int + 1) == Some(
                        CredentialCatalogError::UnknownOwnerAccount,
                    ));
                    lemma_credential_violation_sticks(c, a, index as int + 1, n as int);
                }
                return Err(CredentialCatalogError::UnknownOwnerAccount);
            }
            assert(credential_violation_at(c, a, index as int) is None);
            index += 1;
        }
        proof {
            assert forall|i: int, j: int| 0 <= i < j < n implies c[i].spec_id() != c[j].spec_id() by {
                lemma_credential_prefix_clean(c, a, n as int, j);
            }
        }
        Ok(CredentialCatalog { credentials })
    }

    /// Returns the number of definitions.
    pub fn len(&self) -> (r: usize)
        ensures
            r == self.spec_credentials().len(),
            1 <= r <= MAX_CREDENTIALS,
    {
        proof {
            use_type_invariant(self);
        }
        self.credentials.len()
    }

    /// Whether the catalog is empty; a catalog built by `new` never is.
    pub fn is_empty(&self) -> (r: bool)
        ensures
            r == (self.spec_credentials().len() == 0),
            !r,
    {
        proof {
            use_type_invariant(self);
        }
        self.credentials.len() == 0
    }

    /// Looks a credential definition up by its identifier.
    #[verifier::loop_isolation(false)]
    pub fn get(&self, id: CredentialId) -> (r: Option<&'a CredentialDefinition>)
        ensures
            r is None <==> forall|i: int| 0 <= i < self.spec_credentials().len() ==> self.spec_credentials()[i].spec_id() != id,
            r matches Some(d) ==> exists|i: int| 0 <= i < self.spec_credentials().len() && self.spec_credentials()[i] == *d,
            r matches Some(d) ==> d.spec_id() == id,
            r matches Some(d) ==> forall|i: int|
                0 <= i < self.spec_credentials().len() && self.spec_credentials()[i].spec_id() == id ==> self.spec_credentials()[i] == *d,
    {
        proof {
            use_type_invariant(self);
        }
        let mut i: usize = 0;
        while i < self.credentials.len()
            invariant
                0 <= i <= self.credentials@.len(),
                forall|k: int| 0 <= k < i ==> self.credentials@[k].spec_id() != id,
            decreases self.credentials@.len() - i,
        {
            if self.credentials[i].id == id {
                assert(self.spec_credentials()[i as int].spec_id() == id);
                assert forall|k: int|
                    0 <= k < self.credentials@.len() && self.credentials@[k].spec_id() == id implies self.credentials@[k]
                        == self.credentials@[i as int] by {
                    if k < i {
                        assert(self.credentials@[k].spec_id() == self.credentials@[i as int].spec_id());
                    } else if k > i {
                        assert(self.credentials@[i as int].spec_id() == self.credentials@[k].spec_id());
                    }
                }
                return Some(&self.credentials[i]);
            }
            i += 1;
        }
        None
    }
}

/// Law: every credential of an accepted catalog names an owner the account catalog defines.
pub proof fn lemma_accepted_credentials_have_owners(c: Seq<CredentialDefinition>, accounts: Seq<AccountDefinition>)
    requires
        credential_catalog_check(c, accounts) is Ok,
    ensures
        forall|i: int| 0 <= i < c.len() ==> defines_account(accounts, #[trigger] c[i].spec_account()),
{
    assert forall|i: int| 0 <= i < c.len() implies defines_account(accounts, #[trigger] c[i].spec_account()) by {
        lemma_credential_prefix_clean(c, accounts, c.len() as int, i);
    }
}

} // verus!
