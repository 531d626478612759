//! Surface aggregate: a live pane (terminal/diff) under a session. Its id is the
//! correlation id shared with the daemon PTY.

use vstd::prelude::*;

use super::project::copy_opt_string;
use super::session::SessionId;

verus! {

/// Stable identifier of a surface; also its daemon correlation id.
#[derive(Debug, Clone, PartialEq, Eq, Hash)]
pub struct SurfaceId(String);

impl View for SurfaceId {
    type V = Seq<char>;

    closed spec fn view(&self) -> Seq<char> {
        self.0@
    }
}

impl SurfaceId {
    /// A fresh random (UUID v4) id.
    pub fn mint() -> (r: Self)
        ensures
            crate::entities::is_uuid_text(r@),
    {
        SurfaceId(super::new_uuid_string())
    }

    /// Wrap an existing id string.
    pub fn from_string(id: &str) -> (r: Self)
        ensures
            r@ == id@,
    {
        SurfaceId(id.to_owned())
    }

    /// The id string.
    pub fn as_str(&self) -> (r: &str)
        ensures
            r@ == self@,
    {
        self.0.as_str()
    }

    /// A copy of this id.
    pub fn duplicate(&self) -> (r: Self)
        ensures
            r == *self,
            r@ == self@,
    {
        SurfaceId(self.0.clone())
    }

    /// Whether two ids are the same string.
    pub fn same(&self, other: &Self) -> (b: bool)
        ensures
            b == (self@ == other@),
    {
        self.0 == other.0
    }
}
/// What a surface shows.
#[derive(Debug, Clone, Copy, PartialEq, Eq, Structural)]
pub enum SurfaceKind {
    Terminal,
    Diff,
}

/// The stored name of a surface kind.
pub open spec fn surface_kind_name(x: SurfaceKind) -> Seq<char> {
    match x {
        SurfaceKind::Terminal => "terminal"@,
        SurfaceKind::Diff => "diff"@,
    }
}

impl SurfaceKind {
    /// The stored name of the value.
    pub fn as_str(self) -> (r: &'static str)
        ensures
            r@ == surface_kind_name(self),
            r@ == (match self {
                SurfaceKind::Terminal => "terminal"@,
                SurfaceKind::Diff => "diff"@,
            }),
    {
        match self {
            SurfaceKind::Terminal => "terminal",
            SurfaceKind::Diff => "diff",
        }
    }
}

/// Lifecycle status of a surface (persist intent, then effect, then record).
#[derive(Debug, Clone, Copy, PartialEq, Eq, Structural)]
pub enum SurfaceStatus {
    /// Intent persisted; PTY spawn has not completed.
    Pending,
    /// PTY is running in the daemon.
    Live,
    /// Spawn failed or the PTY exited abnormally.
    Failed,
    /// PTY was stopped; record kept for resume.
    Idle,
}

/// The stored name of a surface status.
pub open spec fn surface_status_name(x: SurfaceStatus) -> Seq<char> {
    match x {
        SurfaceStatus::Pending => "pending"@,
        SurfaceStatus::Live => "live"@,
        SurfaceStatus::Failed => "failed"@,
        SurfaceStatus::Idle => "idle"@,
    }
}

impl SurfaceStatus {
    /// Whether the PTY is running.
    pub fn is_live(self) -> (b: bool)
        ensures
            b == (self == SurfaceStatus::Live),
    {
        self == SurfaceStatus::Live
    }

    /// The stored name of the value.
    pub fn as_str(self) -> (r: &'static str)
        ensures
            r@ == surface_status_name(self),
            r@ == (match self {
                SurfaceStatus::Pending => "pending"@,
                SurfaceStatus::Live => "live"@,
                SurfaceStatus::Failed => "failed"@,
                SurfaceStatus::Idle => "idle"@,
            }),
    {
        match self {
            SurfaceStatus::Pending => "pending",
            SurfaceStatus::Live => "live",
            SurfaceStatus::Failed => "failed",
            SurfaceStatus::Idle => "idle",
        }
    }
}

/// A surface. `last_status` is the most recent runtime status string recorded
/// for it, if any.
#[derive(Debug, Clone, PartialEq, Eq)]
pub struct Surface {
    pub id: SurfaceId,
    pub session_id: SessionId,
    pub kind: SurfaceKind,
    pub cwd: Option<String>,
    pub status: SurfaceStatus,
    pub placement: Option<String>,
    pub last_status: Option<String>,
}

impl Surface {
    /// The id shared with the daemon PTY: the surface id itself.
    pub fn correlation_id(&self) -> (r: &SurfaceId)
        ensures
            *r == self.id,
    {
        &self.id
    }

    /// Whether the surface's PTY is running.
    pub fn is_live(&self) -> (b: bool)
        ensures
            b == (self.status == SurfaceStatus::Live),
    {
        self.status.is_live()
    }

    /// A copy of this surface.
    pub fn duplicate(&self) -> (r: Surface)
        ensures
            r == *self,
    {
        Surface {
            id: self.id.duplicate(),
            session_id: self.session_id.duplicate(),
            kind: self.kind,
            cwd: copy_opt_string(&self.cwd),
            status: self.status,
            placement: copy_opt_string(&self.placement),
            last_status: copy_opt_string(&self.last_status),
        }
    }
}

/// Parameters for creating a surface; a fresh id is minted when `id` is absent.
#[derive(Debug, Clone)]
pub struct NewSurface {
    pub id: Option<SurfaceId>,
    pub session_id: SessionId,
    pub kind: SurfaceKind,
    pub cwd: Option<String>,
    pub placement: Option<String>,
}

} // verus!
