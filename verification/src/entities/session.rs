//! Session aggregate: a product container of surfaces under a project.

use vstd::prelude::*;

use super::project::{copy_opt_string, ProjectId};
use super::template::TemplateId;
use crate::text::{spec_trim, trim};

verus! {

/// Stable identifier of a session.
#[derive(Debug, Clone, PartialEq, Eq, Hash)]
pub struct SessionId(String);

impl View for SessionId {
    type V = Seq<char>;

    closed spec fn view(&self) -> Seq<char> {
        self.0@
    }
}

impl SessionId {
    /// A fresh random (UUID v4) id.
    pub fn mint() -> (r: Self)
        ensures
            crate::entities::is_uuid_text(r@),
    {
        SessionId(super::new_uuid_string())
    }

    /// Wrap an existing id string.
    pub fn from_string(id: &str) -> (r: Self)
        ensures
            r@ == id@,
    {
        SessionId(id.to_owned())
    }

    /// The id string.
    pub fn as_str(&self) -> (r: &str)
        ensures
            r@ == self@,
    {
        self.0.as_str()
    }

    /// A copy of this id.
    pub fn duplicate(&self) -> (r: Self)
        ensures
            r == *self,
            r@ == self@,
    {
        SessionId(self.0.clone())
    }

    /// Whether two ids are the same string.
    pub fn same(&self, other: &Self) -> (b: bool)
        ensures
            b == (self@ == other@),
    {
        self.0 == other.0
    }
}
/// How a session's display title is derived.
#[derive(Debug, Clone, Copy, PartialEq, Eq, Structural)]
pub enum TitleSource {
    /// Populated when the agent reports a title on completion.
    AgentTitle,
    /// Set to the git branch of the session root at creation time.
    Branch,
    /// Concatenation of branch (at creation) and agent title (when available).
    Both,
    /// Caller-supplied verbatim title.
    Custom,
}

/// The stored name of a title source.
pub open spec fn title_source_name(x: TitleSource) -> Seq<char> {
    match x {
        TitleSource::AgentTitle => "agent-title"@,
        TitleSource::Branch => "branch"@,
        TitleSource::Both => "both"@,
        TitleSource::Custom => "custom"@,
    }
}

impl TitleSource {
    /// The stored name of the value.
    pub fn as_str(self) -> (r: &'static str)
        ensures
            r@ == title_source_name(self),
            r@ == (match self {
                TitleSource::AgentTitle => "agent-title"@,
                TitleSource::Branch => "branch"@,
                TitleSource::Both => "both"@,
                TitleSource::Custom => "custom"@,
            }),
    {
        match self {
            TitleSource::AgentTitle => "agent-title",
            TitleSource::Branch => "branch",
            TitleSource::Both => "both",
            TitleSource::Custom => "custom",
        }
    }
}

/// Whether the session is active or archived.
#[derive(Debug, Clone, Copy, PartialEq, Eq, Structural)]
pub enum SessionStatus {
    Active,
    Archived,
}

/// A session.
#[derive(Debug, Clone, PartialEq, Eq)]
pub struct Session {
    pub id: SessionId,
    pub project_id: ProjectId,
    pub title: String,
    pub title_source: TitleSource,
    pub created_at: String,
    pub spec_version: Option<u32>,
    pub spec_json: Option<String>,
    pub sort_order: u32,
    pub pinned: bool,
    pub status: SessionStatus,
}

impl Session {
    /// Rename the session. Sets `title_source` to `Custom` so automatic titling
    /// does not override the user's choice.
    pub fn rename(&mut self, title: &str)
        ensures
            final(self).title@ == spec_trim(title@),
            *final(self) == (Session {
                title: final(self).title,
                title_source: TitleSource::Custom,
                ..*old(self)
            }),
    {
        self.title = trim(title);
        self.title_source = TitleSource::Custom;
    }

    /// A copy of this session.
    pub fn duplicate(&self) -> (r: Session)
        ensures
            r == *self,
    {
        Session {
            id: self.id.duplicate(),
            project_id: self.project_id.duplicate(),
            title: self.title.clone(),
            title_source: self.title_source,
            created_at: self.created_at.clone(),
            spec_version: self.spec_version,
            spec_json: copy_opt_string(&self.spec_json),
            sort_order: self.sort_order,
            pinned: self.pinned,
            status: self.status,
        }
    }
}

/// Parameters for creating a session. Without a project the session goes to the
/// Unfiled project; without a title it is untitled.
#[derive(Debug, Clone)]
pub struct NewSession {
    pub project_id: Option<ProjectId>,
    pub title: Option<String>,
    pub title_source: TitleSource,
    pub template_id: Option<TemplateId>,
}

impl Default for NewSession {
    fn default() -> (r: Self)
        ensures
            r.project_id.is_none(),
            r.title.is_none(),
            r.title_source == TitleSource::AgentTitle,
            r.template_id.is_none(),
    {
        NewSession {
            project_id: None,
            title: None,
            title_source: TitleSource::AgentTitle,
            template_id: None,
        }
    }
}

} // verus!
