//! The service-catalog descriptor: its schema, the synthesis of a fresh
//! descriptor from a resolved repository name, and the load-or-create
//! decision. Reading and decoding an existing `catalog-info.yaml` is the
//! surrounding program's job; the decision itself is taken here.

use std::collections::BTreeMap;

use vstd::prelude::*;
use vstd::string::StringExecFns;

use crate::fs_model::FsSnapshot;
use crate::fs_model::clone_path;
use crate::git::FindGitRepoRootError;
use crate::git::GetOriginRemoteRepoNameError;

verus! {

/// Failure while checking for an existing descriptor file.
#[derive(Debug, Clone, Copy, PartialEq, Eq, Structural)]
pub enum CatalogInfoExistsError {
    /// The repository root was not found.
    FailedToFindGitRepoRoot(FindGitRepoRootError),
}

/// Failure while reading an existing descriptor file.
#[derive(Debug, Clone, Copy, PartialEq, Eq, Structural)]
pub enum CatalogInfoParseError {
    /// The repository root was not found.
    FindGitRepoRoot(FindGitRepoRootError),
    /// The descriptor file could not be read.
    ReadCatalogInfoFile,
    /// The descriptor file could not be decoded.
    ParseCatalogInfoFile,
}

/// Failure while synthesizing a fresh descriptor.
#[derive(Debug, Clone, Copy, PartialEq, Eq, Structural)]
pub enum NewCatalogInfoError {
    /// The repository root was not found.
    FailedToGetGitRepo(FindGitRepoRootError),
    /// The repository name could not be resolved from the remote.
    FailedToGetOriginRemoteRepoName(GetOriginRemoteRepoNameError),
}

/// Failure of the load-or-create decision.
#[derive(Debug, Clone, Copy, PartialEq, Eq, Structural)]
pub enum GetCatalogInfoError {
    /// The existence check failed.
    CheckCatalogInfoExists(CatalogInfoExistsError),
    /// An existing descriptor could not be read or decoded.
    ParseCatalogInfo(CatalogInfoParseError),
    /// A fresh descriptor could not be synthesized.
    CreateNewCatalogInfo(NewCatalogInfoError),
}

/// A link in the descriptor's metadata.
#[derive(Debug, Clone, PartialEq, Eq)]
pub struct CatalogInfoMetadataLink {
    /// An optional icon for the link.
    pub icon: Option<String>,
    /// The title of the link.
    pub title: String,
    /// The target of the link.
    pub url: String,
}

/// The metadata of a descriptor.
#[derive(Debug, Clone, PartialEq, Eq)]
pub struct CatalogInfoMetadata {
    /// The name of the entity in the catalog.
    pub name: String,
    /// The description of the entity in the catalog.
    pub description: String,
    /// The annotations of the entity.
    pub annotations: BTreeMap<String, String>,
    /// The tags of the entity.
    pub tags: BTreeMap<String, String>,
    /// The links of the entity.
    pub links: Vec<CatalogInfoMetadataLink>,
}

/// The spec section of a descriptor.
#[derive(Debug, Clone, PartialEq, Eq)]
pub struct CatalogInfoSpec {
    /// The lifecycle of the entity.
    pub lifecycle: String,
    /// The owner of the entity.
    pub owner: String,
    /// The type of the entity.
    pub type_: String,
    /// The system the entity belongs to.
    pub system: Option<String>,
    /// The entity's internal dependencies.
    pub depends_on: Vec<String>,
}

/// One catalog descriptor, as the catalog file holds it.
#[derive(Debug, Clone, PartialEq, Eq)]
pub struct CatalogInfo {
    /// The api version of the descriptor schema.
    pub api_version: String,
    /// The descriptor kind.
    pub kind: String,
    /// The metadata section.
    pub metadata: CatalogInfoMetadata,
    /// The spec section.
    pub spec_: CatalogInfoSpec,
}

/// The value of every field of a descriptor freshly synthesized for the
/// repository name `name`.
pub open spec fn is_new_catalog_info(name: Seq<char>, r: CatalogInfo) -> bool {
    &&& r.api_version@ == "backstage.io/v1alpha1"@
    &&& r.kind@ == "Component"@
    &&& r.metadata.name@ == name
    &&& r.metadata.description@ == "A Backstage catalog info file for the "@ + name
        + " repository"@
    &&& r.metadata.annotations@ == Map::<String, String>::empty()
    &&& r.metadata.tags@ == Map::<String, String>::empty()
    &&& r.metadata.links@ == Seq::<CatalogInfoMetadataLink>::empty()
    &&& r.spec_.lifecycle@ == "experimental"@
    &&& r.spec_.owner@ == "test"@
    &&& r.spec_.type_@ == "service"@
    &&& r.spec_.system is Some
    &&& r.spec_.system->0@ == "a_system"@
    &&& r.spec_.depends_on@ == Seq::<String>::empty()
}

impl CatalogInfo {
    /// Synthesizes a fresh descriptor seeded from the resolved repository
    /// name, with the fixed defaults for every other field.
    pub fn new(repo_name: &str) -> (r: CatalogInfo)
        ensures
            is_new_catalog_info(repo_name@, r),
    {
        let mut description = String::from_str("A Backstage catalog info file for the ");
        description.append(repo_name);
        description.append(" repository");
        CatalogInfo {
            api_version: String::from_str("backstage.io/v1alpha1"),
            kind: String::from_str("Component"),
            metadata: CatalogInfoMetadata {
                name: String::from_str(repo_name),
                description,
                annotations: BTreeMap::new(),
                tags: BTreeMap::new(),
                links: Vec::new(),
            },
            spec_: CatalogInfoSpec {
                lifecycle: String::from_str("experimental"),
                owner: String::from_str("test"),
                type_: String::from_str("service"),
                system: Some(String::from_str("a_system")),
                depends_on: Vec::new(),
            },
        }
    }

    /// Whether the descriptor file stands directly under the repository
    /// root.
    pub fn file_exists(fs: &FsSnapshot, root: &Vec<String>) -> (r: bool)
        ensures
            r == fs.has_file(root.deep_view().push("catalog-info.yaml"@)),
    {
        let mut p = clone_path(root);
        p.push(String::from_str("catalog-info.yaml"));
        proof {
            assert(p.deep_view() =~= root.deep_view().push("catalog-info.yaml"@));
        }
        fs.contains_file(&p)
    }

    /// The load-or-create decision: an existing descriptor is returned
    /// verbatim, field for field; with none present, a fresh one is
    /// synthesized from the resolved repository name.
    pub fn get(existing: Option<CatalogInfo>, repo_name: &str) -> (r: CatalogInfo)
        ensures
            match existing {
                Some(c) => r == c,
                None => is_new_catalog_info(repo_name@, r),
            },
    {
        match existing {
            Some(c) => c,
            None => CatalogInfo::new(repo_name),
        }
    }
}

} // verus!
