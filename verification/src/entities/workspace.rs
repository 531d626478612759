//! Workspace aggregate: the top of the tree. Strict containment: every project
//! belongs to exactly one workspace.

use vstd::prelude::*;

use crate::error::{OrchestratorError, Result};
use crate::text::{spec_trim, str_equal, trim};

verus! {

/// Stable identifier of a workspace.
#[derive(Debug, Clone, PartialEq, Eq, Hash)]
pub struct WorkspaceId(String);

impl View for WorkspaceId {
    type V = Seq<char>;

    closed spec fn view(&self) -> Seq<char> {
        self.0@
    }
}

impl WorkspaceId {
    /// Wrap an existing id string.
    pub fn new(id: &str) -> (r: Self)
        ensures
            r@ == id@,
    {
        WorkspaceId(id.to_owned())
    }

    /// The id string.
    pub fn as_str(&self) -> (r: &str)
        ensures
            r@ == self@,
    {
        self.0.as_str()
    }

    /// A copy of this id.
    pub fn duplicate(&self) -> (r: Self)
        ensures
            r == *self,
            r@ == self@,
    {
        WorkspaceId(self.0.clone())
    }

    /// Whether two ids are the same string.
    pub fn same(&self, other: &Self) -> (b: bool)
        ensures
            b == (self@ == other@),
    {
        self.0 == other.0
    }

    /// Fixed well-known id of the built-in Default workspace.
    pub const DEFAULT: &'static str = "00000000-0000-0000-0000-000000000001";

    /// The id of the built-in Default workspace.
    pub fn default_id() -> (r: Self)
        ensures
            r@ == WorkspaceId::DEFAULT@,
    {
        WorkspaceId(Self::DEFAULT.to_owned())
    }

    /// Whether this is the Default workspace's id.
    pub fn is_default(&self) -> (b: bool)
        ensures
            b == (self@ == WorkspaceId::DEFAULT@),
    {
        str_equal(self.0.as_str(), Self::DEFAULT)
    }
}
/// Whether the workspace is active or archived.
#[derive(Debug, Clone, Copy, PartialEq, Eq, Structural)]
pub enum WorkspaceStatus {
    Active,
    Archived,
}

impl WorkspaceStatus {
    /// The stored name of the value.
    pub fn as_str(self) -> (r: &'static str)
        ensures
            r@ == (match self {
                WorkspaceStatus::Active => "active"@,
                WorkspaceStatus::Archived => "archived"@,
            }),
    {
        match self {
            WorkspaceStatus::Active => "active",
            WorkspaceStatus::Archived => "archived",
        }
    }
}

/// A workspace.
#[derive(Debug, Clone, PartialEq, Eq)]
pub struct Workspace {
    pub id: WorkspaceId,
    pub name: String,
    pub sort_order: u32,
    pub pinned: bool,
    pub status: WorkspaceStatus,
}

impl Workspace {
    /// Rename the workspace. Trims whitespace.
    pub fn rename(&mut self, name: &str)
        ensures
            final(self).name@ == spec_trim(name@),
            *final(self) == (Workspace { name: final(self).name, ..*old(self) }),
    {
        self.name = trim(name);
    }

    /// Guard: reject mutation on the Default workspace.
    pub fn guard_not_default(&self) -> (r: Result<()>)
        ensures
            r == (if self.id@ == WorkspaceId::DEFAULT@ {
                Err(OrchestratorError::WorkspaceIsDefault)
            } else {
                Ok(())
            }),
    {
        if self.id.is_default() {
            Err(OrchestratorError::WorkspaceIsDefault)
        } else {
            Ok(())
        }
    }

    /// Guard: the workspace must be Active to archive.
    pub fn guard_active(&self) -> (r: Result<()>)
        ensures
            r == (if self.status == WorkspaceStatus::Archived {
                Err(OrchestratorError::WorkspaceAlreadyArchived)
            } else {
                Ok(())
            }),
    {
        if self.status == WorkspaceStatus::Archived {
            Err(OrchestratorError::WorkspaceAlreadyArchived)
        } else {
            Ok(())
        }
    }

    /// Guard: the workspace must be Archived to restore.
    pub fn guard_archived(&self) -> (r: Result<()>)
        ensures
            r == (if self.status != WorkspaceStatus::Archived {
                Err(OrchestratorError::WorkspaceNotArchived)
            } else {
                Ok(())
            }),
    {
        if self.status != WorkspaceStatus::Archived {
            Err(OrchestratorError::WorkspaceNotArchived)
        } else {
            Ok(())
        }
    }

    /// A copy of this workspace.
    pub fn duplicate(&self) -> (r: Workspace)
        ensures
            r == *self,
    {
        Workspace {
            id: self.id.duplicate(),
            name: self.name.clone(),
            sort_order: self.sort_order,
            pinned: self.pinned,
            status: self.status,
        }
    }
}

/// Parameters for creating a new workspace.
#[derive(Debug, Clone)]
pub struct NewWorkspace {
    pub name: String,
}

} // verus!
