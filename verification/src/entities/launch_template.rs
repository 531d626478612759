//! Launch template entity: a reusable launch spec bound to a project.

use vstd::prelude::*;

use super::project::ProjectId;

verus! {

/// Stable identifier of a launch template.
#[derive(Debug, Clone, PartialEq, Eq, Hash)]
pub struct LaunchTemplateId(String);

impl View for LaunchTemplateId {
    type V = Seq<char>;

    closed spec fn view(&self) -> Seq<char> {
        self.0@
    }
}

impl LaunchTemplateId {
    /// A fresh random (UUID v4) id.
    pub fn mint() -> (r: Self)
        ensures
            crate::entities::is_uuid_text(r@),
    {
        LaunchTemplateId(super::new_uuid_string())
    }

    /// Wrap an existing id string.
    pub fn from_string(id: &str) -> (r: Self)
        ensures
            r@ == id@,
    {
        LaunchTemplateId(id.to_owned())
    }

    /// The id string.
    pub fn as_str(&self) -> (r: &str)
        ensures
            r@ == self@,
    {
        self.0.as_str()
    }

    /// A copy of this id.
    pub fn duplicate(&self) -> (r: Self)
        ensures
            r == *self,
            r@ == self@,
    {
        LaunchTemplateId(self.0.clone())
    }

    /// Whether two ids are the same string.
    pub fn same(&self, other: &Self) -> (b: bool)
        ensures
            b == (self@ == other@),
    {
        self.0 == other.0
    }
}

/// A launch template.
#[derive(Debug, Clone, PartialEq, Eq)]
pub struct LaunchTemplate {
    pub id: LaunchTemplateId,
    pub project_id: ProjectId,
    pub spec_version: u32,
    pub spec_json: String,
}

impl LaunchTemplate {
    /// A copy of this launch template.
    pub fn duplicate(&self) -> (r: LaunchTemplate)
        ensures
            r == *self,
    {
        LaunchTemplate {
            id: self.id.duplicate(),
            project_id: self.project_id.duplicate(),
            spec_version: self.spec_version,
            spec_json: self.spec_json.clone(),
        }
    }
}

/// Parameters for creating a launch template.
#[derive(Debug, Clone)]
pub struct NewLaunchTemplate {
    pub project_id: ProjectId,
    pub spec_version: u32,
    pub spec_json: String,
}

} // verus!
