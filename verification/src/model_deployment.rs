//! Static identity contract of model deployments and their bounded catalog.
//!
//! The module checks only the static relation between a deployment, its site and its
//! endpoint; it holds no model capability, authentication, URL, header, secret or runtime
//! state.
use vstd::prelude::*;

use crate::ids::{EndpointId, ModelDeploymentId, SiteId};
use crate::MAX_ROUTE_TARGETS;

verus! {

/// Maximum number of model deployments one compiled snapshot may reference.
pub const MAX_MODEL_DEPLOYMENTS: usize = MAX_ROUTE_TARGETS;

/// The static identity relation of a model deployment with its site and endpoint.
#[derive(Clone, Copy, Debug, PartialEq, Eq, Structural)]
pub struct ModelDeploymentDefinition {
    id: ModelDeploymentId,
    site: SiteId,
    endpoint: EndpointId,
}

impl ModelDeploymentDefinition {
    /// The deployment identifier.
    pub closed spec fn spec_id(self) -> ModelDeploymentId {
        self.id
    }

    /// The site of the deployment.
    pub closed spec fn spec_site(self) -> SiteId {
        self.site
    }

    /// The endpoint of the deployment.
    pub closed spec fn spec_endpoint(self) -> EndpointId {
        self.endpoint
    }

    /// Builds the static identity relation of a model deployment.
    pub fn new(id: ModelDeploymentId, site: SiteId, endpoint: EndpointId) -> (d: Self)
        ensures
            d.spec_id() == id,
            d.spec_site() == site,
            d.spec_endpoint() == endpoint,
    {
        ModelDeploymentDefinition { id, site, endpoint }
    }

    /// Returns the stable deployment identifier.
    pub fn id(self) -> (r: ModelDeploymentId)
        ensures
            r == self.spec_id(),
    {
        self.id
    }

    /// Returns the site the deployment belongs to.
    pub fn site(self) -> (r: SiteId)
        ensures
            r == self.spec_site(),
    {
        self.site
    }

    /// Returns the upstream endpoint the deployment belongs to.
    pub fn endpoint(self) -> (r: EndpointId)
        ensures
            r == self.spec_endpoint(),
    {
        self.endpoint
    }
}

/// Why an immutable model deployment catalog is refused.
#[derive(Clone, Copy, Debug, PartialEq, Eq, Structural)]
pub enum ModelDeploymentCatalogError {
    /// The catalog holds no definition.
    Empty,
    /// The catalog exceeds the fixed bound.
    TooMany,
    /// One deployment identifier occurs twice.
    DuplicateId,
}

/// Whether two definitions share an identifier.
pub open spec fn deployments_have_duplicate(d: Seq<ModelDeploymentDefinition>) -> bool {
    exists|i: int, j: int| 0 <= i < j < d.len() && d[i].spec_id() == d[j].spec_id()
}

/// The verdict of catalog validation on `d`.
pub open spec fn deployment_catalog_check(d: Seq<ModelDeploymentDefinition>) -> Result<(), ModelDeploymentCatalogError> {
    if d.len() == 0 {
        Err(ModelDeploymentCatalogError::Empty)
    } else if d.len() > MAX_MODEL_DEPLOYMENTS {
        Err(ModelDeploymentCatalogError::TooMany)
    } else if deployments_have_duplicate(d) {
        Err(ModelDeploymentCatalogError::DuplicateId)
    } else {
        Ok(())
    }
}

/// The static model deployment catalog of one compiled routing snapshot.
#[derive(Clone, Copy, Debug, PartialEq, Eq)]
pub struct ModelDeploymentCatalog<'a> {
    deployments: &'a [ModelDeploymentDefinition],
}

impl<'a> ModelDeploymentCatalog<'a> {
    /// The definitions of the catalog.
    pub closed spec fn spec_deployments(&self) -> Seq<ModelDeploymentDefinition> {
        self.deployments@
    }

    #[verifier::type_invariant]
    closed spec fn inv(&self) -> bool {
        deployment_catalog_check(self.deployments@) is Ok
    }

    /// Validates and builds a catalog of bounded size.
    pub fn new(deployments: &'a [ModelDeploymentDefinition]) -> (r: Result<Self, ModelDeploymentCatalogError>)
        ensures
            deployment_catalog_check(deployments@) matches Err(e) ==> r == Err::<Self, ModelDeploymentCatalogError>(e),
            deployment_catalog_check(deployments@) is Ok ==> (r matches Ok(c) && c.spec_deployments()
                == deployments@),
    {
        if deployments.len() == 0 {
            return Err(ModelDeploymentCatalogError::Empty);
        }
        if deployments.len() > MAX_MODEL_DEPLOYMENTS {
            return Err(ModelDeploymentCatalogError::TooMany);
        }
        let n = deployments.len();
        let mut index: usize = 0;
        while index < n
            invariant
                n == deployments@.len(),
                1 <= n <= MAX_MODEL_DEPLOYMENTS,
                0 <= index <= n,
                forall|i: int, j: int|
                    0 <= i < j < index ==> deployments@[i].spec_id() != deployments@[j].spec_id(),
            decreases n - index,
        {
            let mut j: usize = 0;
            while j < index
                invariant
                    n == deployments@.len(),
                    1 <= n <= MAX_MODEL_DEPLOYMENTS,
                    0 <= j <= index < n,
                    forall|i: int| 0 <= i < j ==> deployments@[i].spec_id() != deployments@[index as int].spec_id(),
                decreases index - j,
            {
                if deployments[j].id == deployments[index].id {
                    assert(deployments@[j as int].spec_id() == deployments@[index as int].spec_id());
                    assert(deployments_have_duplicate(deployments@));
                    return Err(ModelDeploymentCatalogError::DuplicateId);
                }
                j += 1;
            }
            index += 1;
        }
        Ok(ModelDeploymentCatalog { deployments })
    }

    /// Returns the number of definitions.
    pub fn len(&self) -> (r: usize)
        ensures
            r == self.spec_deployments().len(),
            1 <= r <= MAX_MODEL_DEPLOYMENTS,
    {
        proof {
            use_type_invariant(self);
        }
        self.deployments.len()
    }

    /// Whether the catalog is empty; a catalog built by `new` never is.
    pub fn is_empty(&self) -> (r: bool)
        ensures
            r == (self.spec_deployments().len() == 0),
            !r,
    {
        proof {
            use_type_invariant(self);
        }
        self.deployments.len() == 0
    }

    /// Looks a definition up by its identifier.
    #[verifier::loop_isolation(false)]
    pub fn get(&self, id: ModelDeploymentId) -> (r: Option<&'a ModelDeploymentDefinition>)
        ensures
            r is None <==> forall|i: int| 0 <= i < self.spec_deployments().len() ==> self.spec_deployments()[i].spec_id() != id,
            r matches Some(d) ==> exists|i: int| 0 <= i < self.spec_deployments().len() && self.spec_deployments()[i] == *d,
            r matches Some(d) ==> d.spec_id() == id,
            r matches Some(d) ==> forall|i: int|
                0 <= i < self.spec_deployments().len() && self.spec_deployments()[i].spec_id() == id ==> self.spec_deployments()[i] == *d,
    {
        proof {
            use_type_invariant(self);
        }
        let mut i: usize = 0;
        while i < self.deployments.len()
            invariant
                0 <= i <= self.deployments@.len(),
                forall|k: int| 0 <= k < i ==> self.deployments@[k].spec_id() != id,
            decreases self.deployments@.len() - i,
        {
            if self.deployments[i].id == id {
                assert(self.spec_deployments()[i as int].spec_id() == id);
                assert forall|k: int|
                    0 <= k < self.deployments@.len() && self.deployments@[k].spec_id() == id implies self.deployments@[k]
                        == self.deployments@[i as int] by {
                    if k < i {
                        assert(self.deployments@[k].spec_id() == self.deployments@[i as int].spec_id());
                    } else if k > i {
                        assert(self.deployments@[i as int].spec_id() == self.deployments@[k].spec_id());
                    }
                }
                return Some(&self.deployments[i]);
            }
            i += 1;
        }
        None
    }
}

/// Law: a catalog's identifiers are pairwise distinct, so a lookup finds at most one definition.
pub proof fn lemma_catalog_ids_unique(d: Seq<ModelDeploymentDefinition>)
    requires
        deployment_catalog_check(d) is Ok,
    ensures
        forall|i: int, j: int| 0 <= i < d.len() && 0 <= j < d.len() && d[i].spec_id() == d[j].spec_id() ==> i == j,
{
    assert forall|i: int, j: int| 0 <= i < d.len() && 0 <= j < d.len() && d[i].spec_id() == d[j].spec_id() implies i == j by {
        if i < j {
            assert(deployments_have_duplicate(d));
        } else if j < i {
            assert(deployments_have_duplicate(d));
        }
    }
}

} // verus!
