//! The surface bindings of a session's layout file, and the entries the
//! file-tree store writes when it creates a workspace, project or session.

use vstd::prelude::*;

use crate::json::{json_is_valid, spec_json_valid};

use super::slug::{first_free, slugify, spec_slugify, unique_slug_among};
use super::store::{next_sort_order, spec_next_sort_order, spec_surface_kind_of, surface_kind_from_str, surface_kind_str};
use crate::entities::project::copy_opt_string;
use crate::entities::{
    NewProject, NewSession, NewWorkspace, Project, ProjectId, ProjectStatus, Session, SessionId,
    SessionStatus, Surface, SurfaceId, SurfaceKind, SurfaceStatus, Workspace, WorkspaceId,
    WorkspaceStatus,
};
use crate::error::{OrchestratorError, Result};
use crate::paths::{path_file_name, spec_path_file_name};
use crate::text::str_equal;

verus! {

/// A surface binding stored in a session's layout file.
#[derive(Debug, Clone, PartialEq, Eq)]
pub struct SurfaceBinding {
    pub id: String,
    pub kind: String,
    pub placement: Option<String>,
    /// Working directory relative to the project root.
    pub cwd: Option<String>,
    /// Last runtime status recorded for the surface.
    pub last_status: Option<String>,
    /// Whether the binding has been soft-deleted.
    pub deleted: bool,
}

/// `b` is live and bound to placement `p`.
pub open spec fn binding_placed(b: SurfaceBinding, p: Seq<char>) -> bool {
    &&& !b.deleted
    &&& b.placement matches Some(x) && x@ == p
}

/// `b` is live and has id `id`.
pub open spec fn binding_live(b: SurfaceBinding, id: Seq<char>) -> bool {
    !b.deleted && b.id@ == id
}

/// Some live binding holds placement `p`.
pub open spec fn placement_held(bs: Seq<SurfaceBinding>, p: Seq<char>) -> bool {
    exists|i: int| 0 <= i < bs.len() && #[trigger] binding_placed(bs[i], p)
}

/// Some live binding has id `id`.
pub open spec fn id_bound(bs: Seq<SurfaceBinding>, id: Seq<char>) -> bool {
    exists|i: int| 0 <= i < bs.len() && #[trigger] binding_live(bs[i], id)
}

/// A fresh binding for a surface.
pub fn new_binding(id: &SurfaceId, kind: SurfaceKind, placement: Option<String>, cwd: Option<String>) -> (b:
    SurfaceBinding)
    ensures
        b.id@ == id@,
        spec_surface_kind_of(b.kind@) == Some(kind),
        b.placement == placement,
        b.cwd == cwd,
        b.last_status is None,
        !b.deleted,
{
    proof {
        reveal_strlit("terminal");
        reveal_strlit("diff");
        assert("diff"@.len() != "terminal"@.len());
    }
    SurfaceBinding {
        id: id.as_str().to_owned(),
        kind: surface_kind_str(kind).to_owned(),
        placement,
        cwd,
        last_status: None,
        deleted: false,
    }
}

/// Whether a live binding holds `placement`.
pub fn placement_in_use(bindings: &Vec<SurfaceBinding>, placement: &str) -> (b: bool)
    ensures
        b == placement_held(bindings@, placement@),
{
    let mut i: usize = 0;
    while i < bindings.len()
        invariant
            i <= bindings@.len(),
            forall|j: int| 0 <= j < i ==> !binding_placed(#[trigger] bindings@[j], placement@),
        decreases bindings.len() - i,
    {
        let b = &bindings[i];
        let same = match &b.placement {
            Some(x) => str_equal(x.as_str(), placement),
            None => false,
        };
        if !b.deleted && same {
            assert(binding_placed(bindings@[i as int], placement@));
            return true;
        }
        i = i + 1;
    }
    false
}

/// Refuse a placement a live binding of the session already holds; the
/// conflict names the new surface.
pub fn check_placement(bindings: &Vec<SurfaceBinding>, placement: Option<&str>, surface: &SurfaceId) -> (r:
    Result<()>)
    ensures
        match placement {
            Some(p) => if placement_held(bindings@, p@) {
                r matches Err(OrchestratorError::SurfaceConflict(e)) && e@ == surface@
            } else {
                r is Ok
            },
            None => r is Ok,
        },
{
    match placement {
        Some(p) => {
            if placement_in_use(bindings, p) {
                Err(OrchestratorError::SurfaceConflict(surface.as_str().to_owned()))
            } else {
                Ok(())
            }
        },
        None => Ok(()),
    }
}

/// Position of the first live binding holding `placement`.
pub fn binding_for_placement(bindings: &Vec<SurfaceBinding>, placement: &str) -> (r: Option<usize>)
    ensures
        match r {
            Some(i) => i < bindings@.len() && binding_placed(bindings@[i as int], placement@) && forall|
                j: int,
            |
                0 <= j < i ==> !binding_placed(#[trigger] bindings@[j], placement@),
            None => !placement_held(bindings@, placement@),
        },
{
    let mut i: usize = 0;
    while i < bindings.len()
        invariant
            i <= bindings@.len(),
            forall|j: int| 0 <= j < i ==> !binding_placed(#[trigger] bindings@[j], placement@),
        decreases bindings.len() - i,
    {
        let b = &bindings[i];
        let same = match &b.placement {
            Some(x) => str_equal(x.as_str(), placement),
            None => false,
        };
        if !b.deleted && same {
            return Some(i);
        }
        i = i + 1;
    }
    None
}

/// The surface a binding of session `session_id` describes; an unknown kind
/// is refused as unsupported.
pub fn binding_surface(b: &SurfaceBinding, session_id: &SessionId) -> (r: Result<Surface>)
    ensures
        match spec_surface_kind_of(b.kind@) {
            Some(k) => r matches Ok(s) && s.id@ == b.id@ && s.session_id == *session_id && s.kind == k
                && s.cwd == b.cwd && s.status == SurfaceStatus::Pending && s.placement == b.placement
                && s.last_status == b.last_status,
            None => r matches Err(OrchestratorError::UnsupportedSurfaceKind(m)) && m@ == b.kind@,
        },
{
    let kind = surface_kind_from_str(b.kind.as_str())?;
    Ok(
        Surface {
            id: SurfaceId::from_string(b.id.as_str()),
            session_id: session_id.duplicate(),
            kind,
            cwd: copy_opt_string(&b.cwd),
            status: SurfaceStatus::Pending,
            placement: copy_opt_string(&b.placement),
            last_status: copy_opt_string(&b.last_status),
        },
    )
}

/// Whether a live binding has id `id`.
pub fn binds_live(bindings: &Vec<SurfaceBinding>, id: &str) -> (b: bool)
    ensures
        b == id_bound(bindings@, id@),
{
    let mut i: usize = 0;
    while i < bindings.len()
        invariant
            i <= bindings@.len(),
            forall|j: int| 0 <= j < i ==> !binding_live(#[trigger] bindings@[j], id@),
        decreases bindings.len() - i,
    {
        if !bindings[i].deleted && str_equal(bindings[i].id.as_str(), id) {
            assert(binding_live(bindings@[i as int], id@));
            return true;
        }
        i = i + 1;
    }
    false
}

/// Record `status` as the last status of every live binding with id `id`;
/// returns whether any changed.
pub fn record_binding_status(bindings: &mut Vec<SurfaceBinding>, id: &str, status: &str) -> (changed: bool)
    ensures
        changed == id_bound(old(bindings)@, id@),
        final(bindings)@.len() == old(bindings)@.len(),
        forall|j: int|
            0 <= j < old(bindings)@.len() ==> if binding_live(old(bindings)@[j], id@) {
                (#[trigger] final(bindings)@[j]).last_status matches Some(x) && x@ == status@
                    && final(bindings)@[j] == SurfaceBinding {
                    last_status: final(bindings)@[j].last_status,
                    ..old(bindings)@[j]
                }
            } else {
                final(bindings)@[j] == old(bindings)@[j]
            },
{
    let ghost before = bindings@;
    let mut changed = false;
    let mut i: usize = 0;
    while i < bindings.len()
        invariant
            i <= bindings@.len(),
            bindings@.len() == before.len(),
            changed == exists|j: int| 0 <= j < i && #[trigger] binding_live(before[j], id@),
            forall|j: int|
                0 <= j < i ==> if binding_live(before[j], id@) {
                    (#[trigger] bindings@[j]).last_status matches Some(x) && x@ == status@
                        && bindings@[j] == SurfaceBinding { last_status: bindings@[j].last_status, ..before[j] }
                } else {
                    bindings@[j] == before[j]
                },
            forall|j: int| i <= j < before.len() ==> #[trigger] bindings@[j] == before[j],
        decreases bindings.len() - i,
    {
        if !bindings[i].deleted && str_equal(bindings[i].id.as_str(), id) {
            let b = SurfaceBinding {
                id: bindings[i].id.clone(),
                kind: bindings[i].kind.clone(),
                placement: copy_opt_string(&bindings[i].placement),
                cwd: copy_opt_string(&bindings[i].cwd),
                last_status: Some(status.to_owned()),
                deleted: false,
            };
            bindings.set(i, b);
            changed = true;
            assert(binding_live(before[i as int], id@));
        }
        i = i + 1;
    }
    changed
}

/// Soft-delete every live binding with id `id`; returns whether any changed.
pub fn soft_delete_binding(bindings: &mut Vec<SurfaceBinding>, id: &str) -> (changed: bool)
    ensures
        changed == id_bound(old(bindings)@, id@),
        final(bindings)@.len() == old(bindings)@.len(),
        forall|j: int|
            0 <= j < old(bindings)@.len() ==> #[trigger] final(bindings)@[j] == if binding_live(
                old(bindings)@[j],
                id@,
            ) {
                SurfaceBinding { deleted: true, ..old(bindings)@[j] }
            } else {
                old(bindings)@[j]
            },
{
    let ghost before = bindings@;
    let mut changed = false;
    let mut i: usize = 0;
    while i < bindings.len()
        invariant
            i <= bindings@.len(),
            bindings@.len() == before.len(),
            changed == exists|j: int| 0 <= j < i && #[trigger] binding_live(before[j], id@),
            forall|j: int|
                0 <= j < i ==> #[trigger] bindings@[j] == if binding_live(before[j], id@) {
                    SurfaceBinding { deleted: true, ..before[j] }
                } else {
                    before[j]
                },
            forall|j: int| i <= j < before.len() ==> #[trigger] bindings@[j] == before[j],
        decreases bindings.len() - i,
    {
        if !bindings[i].deleted && str_equal(bindings[i].id.as_str(), id) {
            let b = SurfaceBinding {
                id: bindings[i].id.clone(),
                kind: bindings[i].kind.clone(),
                placement: copy_opt_string(&bindings[i].placement),
                cwd: copy_opt_string(&bindings[i].cwd),
                last_status: copy_opt_string(&bindings[i].last_status),
                deleted: true,
            };
            bindings.set(i, b);
            changed = true;
            assert(binding_live(before[i as int], id@));
        }
        i = i + 1;
    }
    changed
}

/// Mark every binding with id `id` deleted, live or not.
pub fn unbind(bindings: &mut Vec<SurfaceBinding>, id: &str)
    ensures
        final(bindings)@.len() == old(bindings)@.len(),
        forall|j: int|
            0 <= j < old(bindings)@.len() ==> #[trigger] final(bindings)@[j] == if old(bindings)@[j].id@
                == id@ {
                SurfaceBinding { deleted: true, ..old(bindings)@[j] }
            } else {
                old(bindings)@[j]
            },
{
    let ghost before = bindings@;
    let mut i: usize = 0;
    while i < bindings.len()
        invariant
            i <= bindings@.len(),
            bindings@.len() == before.len(),
            forall|j: int|
                0 <= j < i ==> #[trigger] bindings@[j] == if before[j].id@ == id@ {
                    SurfaceBinding { deleted: true, ..before[j] }
                } else {
                    before[j]
                },
            forall|j: int| i <= j < before.len() ==> #[trigger] bindings@[j] == before[j],
        decreases bindings.len() - i,
    {
        if str_equal(bindings[i].id.as_str(), id) {
            let b = SurfaceBinding {
                id: bindings[i].id.clone(),
                kind: bindings[i].kind.clone(),
                placement: copy_opt_string(&bindings[i].placement),
                cwd: copy_opt_string(&bindings[i].cwd),
                last_status: copy_opt_string(&bindings[i].last_status),
                deleted: true,
            };
            bindings.set(i, b);
        }
        i = i + 1;
    }
}

/// Attach a surface to a session's bindings: nothing changes when a live
/// binding already has its id; otherwise a minimal binding (a terminal with no
/// placement or cwd) is appended.
pub fn attach_binding(bindings: &mut Vec<SurfaceBinding>, id: &SurfaceId)
    ensures
        id_bound(old(bindings)@, id@) ==> final(bindings)@ == old(bindings)@,
        !id_bound(old(bindings)@, id@) ==> {
            &&& final(bindings)@.len() == old(bindings)@.len() + 1
            &&& final(bindings)@.drop_last() == old(bindings)@
            &&& final(bindings)@.last().id@ == id@
            &&& spec_surface_kind_of(final(bindings)@.last().kind@) == Some(SurfaceKind::Terminal)
            &&& final(bindings)@.last().placement is None
            &&& final(bindings)@.last().cwd is None
            &&& final(bindings)@.last().last_status is None
            &&& !final(bindings)@.last().deleted
        },
{
    if binds_live(bindings, id.as_str()) {
        return;
    }
    let b = new_binding(id, SurfaceKind::Terminal, None, None);
    bindings.push(b);
    assert(bindings@.drop_last() =~= old(bindings)@);
}

/// The panel tree a session layout keeps for the text it is given: the text
/// itself when it is JSON, nothing otherwise.
pub fn kept_panel_tree(text: &str) -> (r: Option<String>)
    ensures
        spec_json_valid(text@) ==> (r matches Some(t) && t@ == text@),
        !spec_json_valid(text@) ==> r is None,
{
    if json_is_valid(text) {
        Some(text.to_owned())
    } else {
        None
    }
}

} // verus!
