//! Domain entity types: plain data with value-object ids and enums, plus the
//! lifecycle guards of the container entities.

use vstd::prelude::*;

pub mod command;
pub mod launch_template;
pub mod notification;
pub mod project;
pub mod session;
pub mod setting;
pub mod state_model;
pub mod surface;
pub mod template;
pub mod workspace;

pub use command::{Command, CommandId, CommandOrigin, NewCommand};
pub use launch_template::{LaunchTemplate, LaunchTemplateId, NewLaunchTemplate};
pub use notification::NotificationRecord;
pub use project::{NewProject, Project, ProjectId, ProjectStatus, SourceKind};
pub use session::{NewSession, Session, SessionId, SessionStatus, TitleSource};
pub use setting::{SettingEntry, SettingScope};
pub use state_model::{EntityStateModel, GuardRule, StateModel, Transition, WellKnownIds};
pub use surface::{NewSurface, Surface, SurfaceId, SurfaceKind, SurfaceStatus};
pub use template::{Template, TemplateId, TemplateOrigin};
pub use workspace::{NewWorkspace, Workspace, WorkspaceId, WorkspaceStatus};

verus! {

/// A lowercase hexadecimal digit.
pub open spec fn is_lower_hex(c: char) -> bool {
    ('0' <= c && c <= '9') || ('a' <= c && c <= 'f')
}

/// The text of a random (version 4, RFC 4122 variant) UUID in lowercase
/// hyphenated form: 36 characters, `-` at positions 8, 13, 18 and 23,
/// lowercase hex digits elsewhere, `4` at position 14 and one of `8`, `9`,
/// `a`, `b` at position 19.
pub open spec fn is_uuid_text(s: Seq<char>) -> bool {
    &&& s.len() == 36
    &&& forall|i: int|
        #![trigger s[i]]
        0 <= i < 36 ==> if i == 8 || i == 13 || i == 18 || i == 23 {
            s[i] == '-'
        } else {
            is_lower_hex(s[i])
        }
    &&& s[14] == '4'
    &&& (s[19] == '8' || s[19] == '9' || s[19] == 'a' || s[19] == 'b')
}

/// Calls `uuid::Uuid::new_v4` and formats it with `to_string`. The value is
/// random; the contract states its shape: `new_v4` fixes the version and
/// variant bits, and `to_string` writes the lowercase hyphenated form.
#[verifier::external_body]
pub(crate) fn new_uuid_string() -> (s: String)
    ensures
        is_uuid_text(s@),
{
    uuid::Uuid::new_v4().to_string()
}

} // verus!
