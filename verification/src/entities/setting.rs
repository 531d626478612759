//! Setting entity: a JSON-encoded value stored under a global or project scope.

use vstd::prelude::*;

use super::project::ProjectId;

verus! {

/// Scope a setting is stored under: app-global, or bound to a specific project.
#[derive(Debug, Clone, PartialEq, Eq)]
pub enum SettingScope {
    Global,
    Project(ProjectId),
}

/// The (scope, project) key columns a scope is stored under.
pub open spec fn scope_columns(scope: SettingScope) -> (Seq<char>, Seq<char>) {
    match scope {
        SettingScope::Global => ("global"@, Seq::empty()),
        SettingScope::Project(pid) => ("project"@, pid@),
    }
}

impl SettingScope {
    /// The (scope, project) key columns: `("global", "")` or `("project", <id>)`.
    pub fn columns(&self) -> (r: (&'static str, &str))
        ensures
            (r.0@, r.1@) == scope_columns(*self),
    {
        match self {
            SettingScope::Global => {
                proof {
                    reveal_strlit("");
                }
                ("global", "")
            },
            SettingScope::Project(pid) => ("project", pid.as_str()),
        }
    }
}

/// A stored setting: its key and JSON-encoded value.
#[derive(Debug, Clone, PartialEq, Eq)]
pub struct SettingEntry {
    pub key: String,
    pub value_json: String,
}

} // verus!
