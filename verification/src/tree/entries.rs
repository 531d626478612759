//! The entries the file-tree store writes: a new workspace, project or session
//! with its directory name, the new directory name on rename, and the names
//! entries get when moved among other entries.

use vstd::prelude::*;

use super::slug::{first_free, law_first_free_is_free, slugify, spec_slugify, unique_slug_among};
use super::store::{is_archived, next_sort_order, spec_is_archived, spec_next_sort_order};
use crate::entities::project::copy_opt_string;
use crate::entities::{
    NewProject, NewSession, NewWorkspace, Project, ProjectId, ProjectStatus, Session, SessionId,
    SessionStatus, SurfaceId, Workspace, WorkspaceId, WorkspaceStatus,
};
use crate::error::{OrchestratorError, Result};
use crate::paths::{path_file_name, spec_path_file_name};
use crate::text::str_equal;

verus! {

/// The character sequences of a list of names.
pub open spec fn name_views(v: Seq<String>) -> Seq<Seq<char>> {
    v.map_values(|s: String| s@)
}

/// Every stored order can be followed by a next one.
pub open spec fn orders_bounded(orders: Seq<Option<u32>>) -> bool {
    forall|i: int| 0 <= i < orders.len() ==> (#[trigger] orders[i] matches Some(o) ==> o < u32::MAX)
}

/// A new workspace for `draft` among siblings with stored orders `orders` and
/// directory names `names`: ordered after them, unpinned, active, under a fresh
/// id; its directory is the first free name for the slug of its name.
pub fn plan_workspace(draft: NewWorkspace, orders: &Vec<Option<u32>>, names: &Vec<String>) -> (r: (
    Workspace,
    String,
))
    requires
        orders_bounded(orders@),
        names@.len() <= u32::MAX - 2,
    ensures
        crate::entities::is_uuid_text(r.0.id@),
        r.0.name == draft.name,
        r.0.sort_order == spec_next_sort_order(orders@),
        !r.0.pinned,
        r.0.status == WorkspaceStatus::Active,
        first_free(name_views(names@), spec_slugify(draft.name@, r.0.id@), r.1@),
{
    let id = WorkspaceId::new(crate::entities::new_uuid_string().as_str());
    let sort_order = next_sort_order(orders);
    let base = slugify(draft.name.as_str(), id.as_str());
    let slug = unique_slug_among(names, base.as_str());
    (Workspace { id, name: draft.name, sort_order, pinned: false, status: WorkspaceStatus::Active }, slug)
}

/// The name the file-tree store gives a project created without one: the last
/// component of its root path, else "Unnamed Project".
pub open spec fn tree_inferred_name(root: Option<Seq<char>>) -> Seq<char> {
    match root {
        Some(r) => match spec_path_file_name(r) {
            Some(n) => n,
            None => "Unnamed Project"@,
        },
        None => "Unnamed Project"@,
    }
}

/// A new project for `draft` among sibling project directories (stored orders
/// `orders`, names `names`): in the draft's workspace or Default, named by the
/// draft or after its root path, ordered after its siblings, unpinned and
/// active, under a fresh id; its directory is the first free name for the slug
/// of its name.
pub fn plan_project(draft: NewProject, orders: &Vec<Option<u32>>, names: &Vec<String>) -> (r: (
    Project,
    String,
))
    requires
        orders_bounded(orders@),
        names@.len() <= u32::MAX - 2,
    ensures
        crate::entities::is_uuid_text(r.0.id@),
        r.0.name@ == match draft.name {
            Some(n) => n@,
            None => tree_inferred_name(
                match draft.root_path {
                    Some(p) => Some(p@),
                    None => None,
                },
            ),
        },
        r.0.source_kind == draft.source_kind,
        r.0.root_path == draft.root_path,
        r.0.workspace_id@ == match draft.workspace_id {
            Some(w) => w@,
            None => WorkspaceId::DEFAULT@,
        },
        r.0.sort_order == spec_next_sort_order(orders@),
        !r.0.pinned,
        r.0.status == ProjectStatus::Active,
        first_free(name_views(names@), spec_slugify(r.0.name@, r.0.id@), r.1@),
{
    let id = ProjectId::new(crate::entities::new_uuid_string().as_str());
    let name = match draft.name {
        Some(n) => n,
        None => {
            let inferred = match &draft.root_path {
                Some(root) => path_file_name(root.as_str()),
                None => None,
            };
            match inferred {
                Some(n) => n,
                None => "Unnamed Project".to_owned(),
            }
        },
    };
    let workspace_id = match draft.workspace_id {
        Some(w) => w,
        None => WorkspaceId::default_id(),
    };
    let sort_order = next_sort_order(orders);
    let base = slugify(name.as_str(), id.as_str());
    let slug = unique_slug_among(names, base.as_str());
    (
        Project {
            id,
            name,
            source_kind: draft.source_kind,
            root_path: draft.root_path,
            workspace_id,
            sort_order,
            pinned: false,
            status: ProjectStatus::Active,
        },
        slug,
    )
}

/// A new session for `draft` and a pre-resolved launch spec, among sibling
/// session directories (stored orders `orders`, names `names`): in the draft's
/// project or Unfiled, titled by the draft or "Untitled", stamped `created_at`,
/// ordered after its siblings, unpinned and active, under a fresh id; its
/// directory is the first free name for the slug of its title.
pub fn plan_session(
    draft: NewSession,
    spec: Option<(u32, String)>,
    orders: &Vec<Option<u32>>,
    names: &Vec<String>,
    created_at: String,
) -> (r: (Session, String))
    requires
        orders_bounded(orders@),
        names@.len() <= u32::MAX - 2,
    ensures
        crate::entities::is_uuid_text(r.0.id@),
        r.0.project_id@ == match draft.project_id {
            Some(p) => p@,
            None => ProjectId::UNFILED@,
        },
        r.0.title@ == match draft.title {
            Some(t) => t@,
            None => "Untitled"@,
        },
        r.0.title_source == draft.title_source,
        r.0.created_at == created_at,
        r.0.spec_version == match spec {
            Some(x) => Some(x.0),
            None => None::<u32>,
        },
        r.0.spec_json == match spec {
            Some(x) => Some(x.1),
            None => None::<String>,
        },
        r.0.sort_order == spec_next_sort_order(orders@),
        !r.0.pinned,
        r.0.status == SessionStatus::Active,
        first_free(name_views(names@), spec_slugify(r.0.title@, r.0.id@), r.1@),
{
    let id = SessionId::mint();
    let title = match draft.title {
        Some(t) => t,
        None => "Untitled".to_owned(),
    };
    let (spec_version, spec_json) = match spec {
        Some((v, j)) => (Some(v), Some(j)),
        None => (None, None),
    };
    let sort_order = next_sort_order(orders);
    let base = slugify(title.as_str(), id.as_str());
    let slug = unique_slug_among(names, base.as_str());
    (
        Session {
            id,
            project_id: match draft.project_id {
                Some(p) => p,
                None => ProjectId::unfiled(),
            },
            title,
            title_source: draft.title_source,
            created_at,
            spec_version,
            spec_json,
            sort_order,
            pinned: false,
            status: SessionStatus::Active,
        },
        slug,
    )
}

/// The directory an entry moves to when renamed to `name`: none when the slug
/// of the new name is its current directory name, else the first free name for
/// that slug among its siblings.
pub fn renamed_slug(current: &str, name: &str, id: &str, names: &Vec<String>) -> (r: Option<String>)
    requires
        names@.len() <= u32::MAX - 2,
    ensures
        spec_slugify(name@, id@) == current@ ==> r is None,
        spec_slugify(name@, id@) != current@ ==> (r matches Some(s) && first_free(
            name_views(names@),
            spec_slugify(name@, id@),
            s@,
        )),
{
    let base = slugify(name, id);
    if str_equal(base.as_str(), current) {
        None
    } else {
        Some(unique_slug_among(names, base.as_str()))
    }
}

/// The names entries get when moved, one after another, into a directory
/// already holding `existing`: each takes the first free name for its own
/// among the existing names and those given before it.
pub fn plan_relocation(moving: &Vec<String>, existing: &Vec<String>) -> (r: Vec<String>)
    requires
        existing@.len() + moving@.len() <= u32::MAX - 2,
    ensures
        r@.len() == moving@.len(),
        forall|k: int|
            0 <= k < moving@.len() ==> first_free(
                name_views(existing@) + name_views(r@).take(k),
                #[trigger] moving@[k]@,
                r@[k]@,
            ),
{
    let mut taken: Vec<String> = Vec::new();
    let mut i: usize = 0;
    while i < existing.len()
        invariant
            i <= existing@.len(),
            name_views(taken@) == name_views(existing@).take(i as int),
            taken@.len() == i,
        decreases existing.len() - i,
    {
        taken.push(existing[i].clone());
        proof {
            assert(name_views(taken@) =~= name_views(existing@).take(i + 1));
        }
        i = i + 1;
    }
    proof {
        assert(name_views(existing@).take(i as int) =~= name_views(existing@));
    }
    let mut out: Vec<String> = Vec::new();
    let mut k: usize = 0;
    while k < moving.len()
        invariant
            k <= moving@.len(),
            out@.len() == k,
            existing@.len() + moving@.len() <= u32::MAX - 2,
            name_views(taken@) == name_views(existing@) + name_views(out@),
            taken@.len() == existing@.len() + k,
            forall|j: int|
                0 <= j < k ==> first_free(
                    name_views(existing@) + name_views(out@).take(j),
                    #[trigger] moving@[j]@,
                    out@[j]@,
                ),
        decreases moving.len() - k,
    {
        let s = unique_slug_among(&taken, moving[k].as_str());
        let ghost before = out@;
        let ghost old_taken = taken@;
        taken.push(s.clone());
        out.push(s);
        proof {
            assert(name_views(old_taken) == name_views(existing@) + name_views(before));
            assert(taken@ == old_taken.push(out@[k as int]));
            assert(out@ == before.push(out@[k as int]));
            assert(name_views(taken@) =~= name_views(old_taken).push(out@[k as int]@));
            assert(name_views(out@) =~= name_views(before).push(out@[k as int]@));
            assert(name_views(taken@) =~= name_views(existing@) + name_views(out@));
            assert(name_views(out@).take(k as int) =~= name_views(before));
            assert forall|j: int|
                0 <= j < k + 1 implies first_free(
                name_views(existing@) + name_views(out@).take(j),
                #[trigger] moving@[j]@,
                out@[j]@,
            ) by {
                if j < k {
                    assert(name_views(out@).take(j) =~= name_views(before).take(j));
                    assert(out@[j] == before[j]);
                }
            }
        }
        k = k + 1;
    }
    out
}

/// The checks before a workspace is deleted: Default cannot be; the workspace
/// and Default must both be on record.
pub fn check_workspace_delete(id: &WorkspaceId, has_dir: bool, has_default_dir: bool) -> (r: Result<()>)
    ensures
        id@ == WorkspaceId::DEFAULT@ ==> r == Err::<(), OrchestratorError>(OrchestratorError::WorkspaceIsDefault),
        id@ != WorkspaceId::DEFAULT@ && !has_dir ==> (r matches Err(
            OrchestratorError::WorkspaceNotFound(e),
        ) && e@ == id@),
        id@ != WorkspaceId::DEFAULT@ && has_dir && !has_default_dir ==> (r matches Err(
            OrchestratorError::WorkspaceNotFound(e),
        ) && e@ == WorkspaceId::DEFAULT@),
        id@ != WorkspaceId::DEFAULT@ && has_dir && has_default_dir ==> r is Ok,
{
    if id.is_default() {
        return Err(OrchestratorError::WorkspaceIsDefault);
    }
    if !has_dir {
        return Err(OrchestratorError::WorkspaceNotFound(id.as_str().to_owned()));
    }
    if !has_default_dir {
        return Err(OrchestratorError::WorkspaceNotFound(WorkspaceId::DEFAULT.to_owned()));
    }
    Ok(())
}

/// The directory text the index records for an entry, if any.
pub open spec fn opt_dir(dir: Option<&str>) -> Option<Seq<char>> {
    match dir {
        Some(d) => Some(d@),
        None => None,
    }
}

/// The checks before a project is archived, given the directory the index
/// records for it: Unfiled cannot be; an unknown or already archived project
/// is not found.
pub fn check_project_archive(id: &ProjectId, dir: Option<&str>) -> (r: Result<()>)
    ensures
        id@ == ProjectId::UNFILED@ ==> r == Err::<(), OrchestratorError>(OrchestratorError::ProjectIsUnfiled),
        id@ != ProjectId::UNFILED@ ==> match opt_dir(dir) {
            Some(d) if !spec_is_archived(d) => r is Ok,
            _ => r matches Err(OrchestratorError::ProjectNotFound(e)) && e@ == id@,
        },
{
    if id.is_unfiled() {
        return Err(OrchestratorError::ProjectIsUnfiled);
    }
    match dir {
        Some(d) => if is_archived(d) {
            Err(OrchestratorError::ProjectNotFound(id.as_str().to_owned()))
        } else {
            Ok(())
        },
        None => Err(OrchestratorError::ProjectNotFound(id.as_str().to_owned())),
    }
}

/// The checks before a project is removed for good: it must be known and
/// archived.
pub fn check_project_hard_delete(id: &ProjectId, dir: Option<&str>) -> (r: Result<()>)
    ensures
        match opt_dir(dir) {
            None => r matches Err(OrchestratorError::ProjectNotFound(e)) && e@ == id@,
            Some(d) => if spec_is_archived(d) {
                r is Ok
            } else {
                r == Err::<(), OrchestratorError>(OrchestratorError::ProjectNotArchived)
            },
        },
{
    match dir {
        Some(d) => if is_archived(d) {
            Ok(())
        } else {
            Err(OrchestratorError::ProjectNotArchived)
        },
        None => Err(OrchestratorError::ProjectNotFound(id.as_str().to_owned())),
    }
}

/// The checks before a session is archived: an unknown or already archived
/// session is not found.
pub fn check_session_archive(id: &SessionId, dir: Option<&str>) -> (r: Result<()>)
    ensures
        match opt_dir(dir) {
            Some(d) if !spec_is_archived(d) => r is Ok,
            _ => r matches Err(OrchestratorError::SessionNotFound(e)) && e@ == id@,
        },
{
    match dir {
        Some(d) => if is_archived(d) {
            Err(OrchestratorError::SessionNotFound(id.as_str().to_owned()))
        } else {
            Ok(())
        },
        None => Err(OrchestratorError::SessionNotFound(id.as_str().to_owned())),
    }
}

/// The checks before a session is removed for good: it must be known and
/// archived.
pub fn check_session_hard_delete(id: &SessionId, dir: Option<&str>) -> (r: Result<()>)
    ensures
        match opt_dir(dir) {
            None => r matches Err(OrchestratorError::SessionNotFound(e)) && e@ == id@,
            Some(d) => if spec_is_archived(d) {
                r is Ok
            } else {
                r == Err::<(), OrchestratorError>(OrchestratorError::SessionNotArchived)
            },
        },
{
    match dir {
        Some(d) => if is_archived(d) {
            Ok(())
        } else {
            Err(OrchestratorError::SessionNotArchived)
        },
        None => Err(OrchestratorError::SessionNotFound(id.as_str().to_owned())),
    }
}

/// The check before a surface is attached to a session, given the session
/// that already holds a live binding of it (if any): a surface held by another
/// session is a conflict.
pub fn check_attach(session: &SessionId, holder: Option<&str>, surface: &SurfaceId) -> (r: Result<()>)
    ensures
        match opt_dir(holder) {
            Some(h) if h != session@ => r matches Err(OrchestratorError::SurfaceConflict(e)) && e@ == surface@,
            _ => r is Ok,
        },
{
    match holder {
        Some(h) => if str_equal(h, session.as_str()) {
            Ok(())
        } else {
            Err(OrchestratorError::SurfaceConflict(surface.as_str().to_owned()))
        },
        None => Ok(()),
    }
}

/// Entries moved one after another get names that were not taken before and
/// that differ from each other.
pub proof fn law_relocated_names_are_fresh(existing: Seq<Seq<char>>, moving: Seq<Seq<char>>, out: Seq<Seq<char>>)
    requires
        out.len() == moving.len(),
        forall|k: int| 0 <= k < moving.len() ==> first_free(existing + out.take(k), #[trigger] moving[k], out[k]),
    ensures
        forall|k: int, i: int| 0 <= k < out.len() && 0 <= i < existing.len() ==> #[trigger] existing[i] != #[trigger] out[k],
        forall|j: int, k: int| 0 <= j < k < out.len() ==> #[trigger] out[j] != #[trigger] out[k],
{
    assert forall|k: int, i: int| 0 <= k < out.len() && 0 <= i < existing.len() implies #[trigger] existing[i] != #[trigger] out[k] by {
        assert(first_free(existing + out.take(k), moving[k], out[k]));
        law_first_free_is_free(existing + out.take(k), moving[k], out[k]);
        assert((existing + out.take(k))[i] == existing[i]);
    }
    assert forall|j: int, k: int| 0 <= j < k < out.len() implies #[trigger] out[j] != #[trigger] out[k] by {
        assert(first_free(existing + out.take(k), moving[k], out[k]));
        law_first_free_is_free(existing + out.take(k), moving[k], out[k]);
        assert((existing + out.take(k))[existing.len() + j] == out[j]);
    }
}

/// A project created in the file-tree store without a name is named after
/// the last component of its root path; without one, "Unnamed Project".
pub proof fn law_tree_inferred_name_is_last_component(root: Option<Seq<char>>)
    ensures
        root matches Some(r) && spec_path_file_name(r) is Some ==> tree_inferred_name(root)
            == spec_path_file_name(root->0)->0,
        root is None ==> tree_inferred_name(root) == "Unnamed Project"@,
{
}

} // verus!
