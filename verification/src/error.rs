//! Typed error surface shared by the entity guards, the stores, the runtime
//! and boot.

use vstd::prelude::*;

verus! {

/// Errors the orchestrator surfaces during boot, supervision, persistence and
/// the domain guards.
#[derive(Debug, Clone, PartialEq, Eq)]
pub enum OrchestratorError {
    /// The store's recorded schema version is newer than this binary supports.
    StoreVersionTooNew { found: u32, supported: u32 },
    /// A persistence operation failed: opening, migrating, or querying the store.
    Persistence(String),
    /// A supervised service could neither be adopted nor spawned to an available state.
    ServiceUnavailable { service: String, reason: String },
    /// No workspace has the given id.
    WorkspaceNotFound(String),
    /// The built-in Default workspace cannot be mutated this way.
    WorkspaceIsDefault,
    /// The workspace is already archived.
    WorkspaceAlreadyArchived,
    /// The workspace must be archived first.
    WorkspaceNotArchived,
    /// No live project has the given id.
    ProjectNotFound(String),
    /// The built-in Unfiled project cannot be mutated this way.
    ProjectIsUnfiled,
    /// The project must be archived first.
    ProjectNotArchived,
    /// The project is already archived.
    ProjectAlreadyArchived,
    /// No live session has the given id.
    SessionNotFound(String),
    /// The session must be archived first.
    SessionNotArchived,
    /// A surface slot (placement, or surface binding) is already taken.
    SurfaceConflict(String),
    /// No launch template has the given id.
    LaunchTemplateNotFound(String),
    /// A surface kind string that is not `terminal` or `diff`.
    UnsupportedSurfaceKind(String),
    /// Prebuilt library entries cannot be edited or discarded.
    PrebuiltImmutable { kind: &'static str },
    /// A surface runtime operation failed.
    SurfaceRuntime { surface: String, reason: String },
    /// No notification has the given id.
    NotificationNotFound(String),
}

/// The stable machine-readable code of each error variant.
pub open spec fn spec_error_code(e: OrchestratorError) -> Seq<char> {
    match e {
        OrchestratorError::StoreVersionTooNew { .. } => "store.version_too_new"@,
        OrchestratorError::Persistence(_) => "persistence"@,
        OrchestratorError::ServiceUnavailable { .. } => "service.unavailable"@,
        OrchestratorError::WorkspaceNotFound(_) => "workspace.not_found"@,
        OrchestratorError::WorkspaceIsDefault => "workspace.is_default"@,
        OrchestratorError::WorkspaceAlreadyArchived => "workspace.already_archived"@,
        OrchestratorError::WorkspaceNotArchived => "workspace.not_archived"@,
        OrchestratorError::ProjectNotFound(_) => "project.not_found"@,
        OrchestratorError::ProjectIsUnfiled => "project.is_unfiled"@,
        OrchestratorError::ProjectNotArchived => "project.not_archived"@,
        OrchestratorError::ProjectAlreadyArchived => "project.already_archived"@,
        OrchestratorError::SessionNotFound(_) => "session.not_found"@,
        OrchestratorError::SessionNotArchived => "session.not_archived"@,
        OrchestratorError::SurfaceConflict(_) => "surface.conflict"@,
        OrchestratorError::LaunchTemplateNotFound(_) => "launch_template.not_found"@,
        OrchestratorError::UnsupportedSurfaceKind(_) => "surface.unsupported_kind"@,
        OrchestratorError::PrebuiltImmutable { .. } => "prebuilt.immutable"@,
        OrchestratorError::SurfaceRuntime { .. } => "surface.runtime"@,
        OrchestratorError::NotificationNotFound(_) => "notification.not_found"@,
    }
}

impl OrchestratorError {
    /// The stable machine-readable code of this error.
    pub fn code(&self) -> (r: &'static str)
        ensures
            r@ == spec_error_code(*self),
    {
        match self {
            OrchestratorError::StoreVersionTooNew { .. } => "store.version_too_new",
            OrchestratorError::Persistence(_) => "persistence",
            OrchestratorError::ServiceUnavailable { .. } => "service.unavailable",
            OrchestratorError::WorkspaceNotFound(_) => "workspace.not_found",
            OrchestratorError::WorkspaceIsDefault => "workspace.is_default",
            OrchestratorError::WorkspaceAlreadyArchived => "workspace.already_archived",
            OrchestratorError::WorkspaceNotArchived => "workspace.not_archived",
            OrchestratorError::ProjectNotFound(_) => "project.not_found",
            OrchestratorError::ProjectIsUnfiled => "project.is_unfiled",
            OrchestratorError::ProjectNotArchived => "project.not_archived",
            OrchestratorError::ProjectAlreadyArchived => "project.already_archived",
            OrchestratorError::SessionNotFound(_) => "session.not_found",
            OrchestratorError::SessionNotArchived => "session.not_archived",
            OrchestratorError::SurfaceConflict(_) => "surface.conflict",
            OrchestratorError::LaunchTemplateNotFound(_) => "launch_template.not_found",
            OrchestratorError::UnsupportedSurfaceKind(_) => "surface.unsupported_kind",
            OrchestratorError::PrebuiltImmutable { .. } => "prebuilt.immutable",
            OrchestratorError::SurfaceRuntime { .. } => "surface.runtime",
            OrchestratorError::NotificationNotFound(_) => "notification.not_found",
        }
    }
}

/// Crate-wide result alias over [`OrchestratorError`].
pub type Result<T> = core::result::Result<T, OrchestratorError>;

} // verus!
