//! Project aggregate: a source root grouped under a workspace.

use vstd::prelude::*;

use super::workspace::WorkspaceId;
use crate::error::{OrchestratorError, Result};
use crate::text::{spec_trim, str_equal, trim};

verus! {

/// Stable identifier of a project.
#[derive(Debug, Clone, PartialEq, Eq, Hash)]
pub struct ProjectId(String);

impl View for ProjectId {
    type V = Seq<char>;

    closed spec fn view(&self) -> Seq<char> {
        self.0@
    }
}

impl ProjectId {
    /// Wrap an existing id string.
    pub fn new(id: &str) -> (r: Self)
        ensures
            r@ == id@,
    {
        ProjectId(id.to_owned())
    }

    /// The id string.
    pub fn as_str(&self) -> (r: &str)
        ensures
            r@ == self@,
    {
        self.0.as_str()
    }

    /// A copy of this id.
    pub fn duplicate(&self) -> (r: Self)
        ensures
            r == *self,
            r@ == self@,
    {
        ProjectId(self.0.clone())
    }

    /// Whether two ids are the same string.
    pub fn same(&self, other: &Self) -> (b: bool)
        ensures
            b == (self@ == other@),
    {
        self.0 == other.0
    }

    /// Fixed well-known id of the built-in Unfiled project.
    pub const UNFILED: &'static str = "00000000-0000-0000-0000-000000000000";

    /// The id of the built-in Unfiled project.
    pub fn unfiled() -> (r: Self)
        ensures
            r@ == ProjectId::UNFILED@,
    {
        ProjectId(Self::UNFILED.to_owned())
    }

    /// Whether this is the Unfiled project's id.
    pub fn is_unfiled(&self) -> (b: bool)
        ensures
            b == (self@ == ProjectId::UNFILED@),
    {
        str_equal(self.0.as_str(), Self::UNFILED)
    }
}
/// Where a project's files come from.
#[derive(Debug, Clone, Copy, PartialEq, Eq, Structural)]
pub enum SourceKind {
    Blank,
    LocalDir,
    GitRepo,
}

/// The stored name of a source kind.
pub open spec fn source_kind_name(x: SourceKind) -> Seq<char> {
    match x {
        SourceKind::Blank => "blank"@,
        SourceKind::LocalDir => "local_dir"@,
        SourceKind::GitRepo => "git_repo"@,
    }
}

impl SourceKind {
    /// The stored name of the value.
    pub fn as_str(self) -> (r: &'static str)
        ensures
            r@ == source_kind_name(self),
            r@ == (match self {
                SourceKind::Blank => "blank"@,
                SourceKind::LocalDir => "local_dir"@,
                SourceKind::GitRepo => "git_repo"@,
            }),
    {
        match self {
            SourceKind::Blank => "blank",
            SourceKind::LocalDir => "local_dir",
            SourceKind::GitRepo => "git_repo",
        }
    }
}

/// Whether the project is active or archived.
#[derive(Debug, Clone, Copy, PartialEq, Eq, Structural)]
pub enum ProjectStatus {
    Active,
    Archived,
}

impl ProjectStatus {
    /// The stored name of the value.
    pub fn as_str(self) -> (r: &'static str)
        ensures
            r@ == (match self {
                ProjectStatus::Active => "active"@,
                ProjectStatus::Archived => "archived"@,
            }),
    {
        match self {
            ProjectStatus::Active => "active",
            ProjectStatus::Archived => "archived",
        }
    }
}

/// A project.
#[derive(Debug, Clone, PartialEq, Eq)]
pub struct Project {
    pub id: ProjectId,
    pub name: String,
    pub source_kind: SourceKind,
    pub root_path: Option<String>,
    /// Owning workspace.
    pub workspace_id: WorkspaceId,
    pub sort_order: u32,
    pub pinned: bool,
    pub status: ProjectStatus,
}

/// Copy an optional string.
pub fn copy_opt_string(s: &Option<String>) -> (r: Option<String>)
    ensures
        r == *s,
{
    match s {
        Some(x) => Some(x.clone()),
        None => None,
    }
}

impl Project {
    /// Rename the project. Trims whitespace.
    pub fn rename(&mut self, name: &str)
        ensures
            final(self).name@ == spec_trim(name@),
            *final(self) == (Project { name: final(self).name, ..*old(self) }),
    {
        self.name = trim(name);
    }

    /// Guard: reject mutation on the Unfiled project.
    pub fn guard_not_unfiled(&self) -> (r: Result<()>)
        ensures
            r == (if self.id@ == ProjectId::UNFILED@ {
                Err(OrchestratorError::ProjectIsUnfiled)
            } else {
                Ok(())
            }),
    {
        if self.id.is_unfiled() {
            Err(OrchestratorError::ProjectIsUnfiled)
        } else {
            Ok(())
        }
    }

    /// Guard: the project must be Archived before hard-delete.
    pub fn guard_archived(&self) -> (r: Result<()>)
        ensures
            r == (if self.status != ProjectStatus::Archived {
                Err(OrchestratorError::ProjectNotArchived)
            } else {
                Ok(())
            }),
    {
        if self.status != ProjectStatus::Archived {
            Err(OrchestratorError::ProjectNotArchived)
        } else {
            Ok(())
        }
    }

    /// Guard: the project must be Active to archive.
    pub fn guard_active(&self) -> (r: Result<()>)
        ensures
            r == (if self.status == ProjectStatus::Archived {
                Err(OrchestratorError::ProjectAlreadyArchived)
            } else {
                Ok(())
            }),
    {
        if self.status == ProjectStatus::Archived {
            Err(OrchestratorError::ProjectAlreadyArchived)
        } else {
            Ok(())
        }
    }

    /// A copy of this project.
    pub fn duplicate(&self) -> (r: Project)
        ensures
            r == *self,
    {
        Project {
            id: self.id.duplicate(),
            name: self.name.clone(),
            source_kind: self.source_kind,
            root_path: copy_opt_string(&self.root_path),
            workspace_id: self.workspace_id.duplicate(),
            sort_order: self.sort_order,
            pinned: self.pinned,
            status: self.status,
        }
    }
}

/// Parameters for creating a project; the name is inferred from the root path
/// when absent.
#[derive(Debug, Clone)]
pub struct NewProject {
    pub name: Option<String>,
    pub source_kind: SourceKind,
    pub root_path: Option<String>,
    pub workspace_id: Option<WorkspaceId>,
}

} // verus!
