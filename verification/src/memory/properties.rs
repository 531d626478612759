//! Properties of the in-memory store that span its operations.

use vstd::prelude::*;

use super::catalog::{commands_listed, live_command, newest_first, pruned};
use super::session::{
    live_session, of_project, of_project_session, sess_selected, sessions_listed, surfaces_of_session_archived,
};
use super::surface::{live_surface, resumable, resumable_listed, surf_upsert};
use super::{
    cmd_keys, drop_where, inferred_project_name, lemma_drop_where, live_project, proj_keys, proj_listed,
    proj_listing, proj_selected, lemma_pos_of, lemma_pos_of_push, lemma_pos_of_unique, pos_of,
    projects_reassigned, sess_keys, session_in_project, sessions_after_project_archive,
    setting_lookup, setting_resolved, surf_keys, unique, ProjectRecord, SessionRecord,
    SettingRow, SurfaceRecord, CommandRecord,
};
use crate::entities::setting::scope_columns;
use crate::entities::{NotificationRecord, Project, ProjectId, SettingScope, SourceKind, Surface, WorkspaceId};
use crate::paths::spec_path_file_name;

verus! {

/// A project's own value for a key wins over the global one.
pub proof fn law_project_setting_wins(rows: Seq<SettingRow>, pid: ProjectId, key: Seq<char>, v: Seq<char>)
    requires
        setting_lookup(rows, scope_columns(SettingScope::Project(pid)), key) == Some(v),
    ensures
        setting_resolved(rows, pid@, key) == Some(v),
{
}

/// Without a project value, a project sees the global value (or nothing).
pub proof fn law_global_setting_fallback(rows: Seq<SettingRow>, pid: ProjectId, key: Seq<char>)
    requires
        setting_lookup(rows, scope_columns(SettingScope::Project(pid)), key) is None,
    ensures
        setting_resolved(rows, pid@, key) == setting_lookup(rows, scope_columns(SettingScope::Global), key),
{
    reveal_strlit("");
}

/// Once a project is archived, none of its sessions is live.
pub proof fn law_archived_project_hides_its_sessions(sessions: Seq<SessionRecord>, pid: Seq<char>, sid: Seq<char>)
    requires
        unique(sess_keys(sessions)),
        session_in_project(sessions, sid, pid),
    ensures
        live_session(sessions_after_project_archive(sessions, pid), sid) is None,
{
    let after = sessions_after_project_archive(sessions, pid);
    assert(sess_keys(after) =~= sess_keys(sessions));
    lemma_pos_of(sess_keys(sessions), sid);
    let i = pos_of(sess_keys(sessions), sid)->0;
    assert(after[i].deleted);
}

/// Once a session is archived, none of its surfaces is live.
pub proof fn law_archived_session_hides_its_surfaces(surfaces: Seq<SurfaceRecord>, sid: Seq<char>, id: Seq<char>)
    ensures
        live_surface(surfaces_of_session_archived(surfaces, sid), id) matches Some(s) ==> s.session_id@ != sid,
{
    let after = surfaces_of_session_archived(surfaces, sid);
    assert(surf_keys(after) =~= surf_keys(surfaces));
    lemma_pos_of(surf_keys(surfaces), id);
    if let Some(i) = pos_of(surf_keys(surfaces), id) {
        if surfaces[i].surface.session_id@ == sid {
            assert(after[i].deleted);
        } else {
            assert(after[i] == surfaces[i]);
        }
    }
}

/// Deleting a (non-Default) workspace leaves no project in it.
pub proof fn law_deleted_workspace_keeps_no_project(
    before: Seq<ProjectRecord>,
    after: Seq<ProjectRecord>,
    ws: Seq<char>,
)
    requires
        ws != WorkspaceId::DEFAULT@,
        projects_reassigned(before, after, ws),
    ensures
        forall|j: int| 0 <= j < after.len() ==> (#[trigger] after[j]).project.workspace_id@ != ws,
{
    assert forall|j: int| 0 <= j < after.len() implies (#[trigger] after[j]).project.workspace_id@ != ws by {
        if before[j].project.workspace_id@ == ws {
        } else {
            assert(after[j] == before[j]);
        }
    }
}

/// A surface just recorded is read back as it was recorded.
pub proof fn law_created_surface_is_found(before: Seq<SurfaceRecord>, s: Surface)
    requires
        unique(surf_keys(before)),
    ensures
        live_surface(surf_upsert(before, SurfaceRecord { surface: s, deleted: false }), s.id@) == Some(s),
{
    let rec = SurfaceRecord { surface: s, deleted: false };
    let after = surf_upsert(before, rec);
    lemma_pos_of(surf_keys(before), s.id@);
    match pos_of(surf_keys(before), s.id@) {
        Some(i) => {
            assert(surf_keys(after) =~= surf_keys(before).update(i, s.id@));
            assert(surf_keys(before).update(i, s.id@) =~= surf_keys(before));
        },
        None => {
            assert(surf_keys(after) =~= surf_keys(before).push(s.id@));
            lemma_pos_of_push(surf_keys(before), s.id@, s.id@);
        },
    }
}

/// A soft-deleted surface is neither read back nor resumed.
pub proof fn law_soft_deleted_surface_is_gone(
    before: Seq<SurfaceRecord>,
    after: Seq<SurfaceRecord>,
    sessions: Seq<SessionRecord>,
    id: Seq<char>,
    i: int,
)
    requires
        unique(surf_keys(before)),
        pos_of(surf_keys(before), id) == Some(i),
        after == before.update(i, SurfaceRecord { deleted: true, ..before[i] }),
    ensures
        live_surface(after, id) is None,
        forall|t: int|
            0 <= t < resumable_listed(after, sessions).len() ==> (#[trigger] resumable_listed(after, sessions)[t]).id@
                != id,
{
    lemma_pos_of(surf_keys(before), id);
    assert(surf_keys(after) =~= surf_keys(before));
    let notres = |r: SurfaceRecord| !resumable(r, sessions);
    let kept = drop_where(after, notres);
    lemma_drop_where(after, notres, |r: SurfaceRecord| r.surface.id@);
    assert forall|t: int| 0 <= t < resumable_listed(after, sessions).len() implies (#[trigger] resumable_listed(
        after,
        sessions,
    )[t]).id@ != id by {
        assert(resumable_listed(after, sessions)[t] == kept[t].surface);
        let j = choose|j: int| 0 <= j < after.len() && after[j] == #[trigger] kept[t] && !notres(after[j]);
        if after[j].surface.id@ == id {
            assert(surf_keys(after)[j] == id);
            lemma_pos_of_unique(surf_keys(before), id, j);
        }
    }
}

/// A recorded status is read back from a live surface.
pub proof fn law_surface_status_is_read_back(before: Seq<SurfaceRecord>, id: Seq<char>, i: int, rec: SurfaceRecord)
    requires
        unique(surf_keys(before)),
        pos_of(surf_keys(before), id) == Some(i),
        !before[i].deleted,
        rec == (SurfaceRecord { surface: Surface { last_status: rec.surface.last_status, ..before[i].surface }, ..before[i] }),
    ensures
        live_surface(before.update(i, rec), id) == Some(rec.surface),
{
    lemma_pos_of(surf_keys(before), id);
    assert(surf_keys(before.update(i, rec)) =~= surf_keys(before));
}

/// No two live surfaces of a session share a placement.
pub open spec fn placements_unique(s: Seq<SurfaceRecord>) -> bool {
    forall|a: int, b: int|
        0 <= a < b < s.len() && !s[a].deleted && !s[b].deleted && #[trigger] s[a].surface.session_id
            == #[trigger] s[b].surface.session_id && s[a].surface.placement is Some ==> s[a].surface.placement
            != s[b].surface.placement
}

/// Recording a surface whose placement no live surface of its session holds
/// keeps placements unique.
pub proof fn law_create_surface_keeps_placements_unique(before: Seq<SurfaceRecord>, s: Surface)
    requires
        placements_unique(before),
        s.placement matches Some(p) ==> forall|t: int|
            0 <= t < before.len() && !before[t].deleted && before[t].surface.session_id == s.session_id
                ==> #[trigger] before[t].surface.placement != Some(p),
    ensures
        placements_unique(surf_upsert(before, SurfaceRecord { surface: s, deleted: false })),
{
    let rec = SurfaceRecord { surface: s, deleted: false };
    let after = surf_upsert(before, rec);
    lemma_pos_of(surf_keys(before), s.id@);
    match pos_of(surf_keys(before), s.id@) {
        Some(i) => {
            assert forall|a: int, b: int|
                0 <= a < b < after.len() && !after[a].deleted && !after[b].deleted && #[trigger] after[a].surface.session_id
                    == #[trigger] after[b].surface.session_id && after[a].surface.placement is Some implies after[a].surface.placement
                != after[b].surface.placement by {
                if a == i {
                    assert(after[b] == before[b]);
                } else if b == i {
                    assert(after[a] == before[a]);
                } else {
                    assert(after[a] == before[a] && after[b] == before[b]);
                }
            }
        },
        None => {
            assert forall|a: int, b: int|
                0 <= a < b < after.len() && !after[a].deleted && !after[b].deleted && #[trigger] after[a].surface.session_id
                    == #[trigger] after[b].surface.session_id && after[a].surface.placement is Some implies after[a].surface.placement
                != after[b].surface.placement by {
                if b == before.len() {
                    assert(after[a] == before[a]);
                } else {
                    assert(after[a] == before[a] && after[b] == before[b]);
                }
            }
        },
    }
}

/// Pruning to `keep` entries keeps exactly the `keep` newest.
pub proof fn law_prune_keeps_newest(n: Seq<NotificationRecord>, keep: nat)
    ensures
        newest_first(pruned(n, keep), keep) == newest_first(n, keep),
        pruned(n, keep).len() == if n.len() > keep {
            keep
        } else {
            n.len()
        },
{
    let p = pruned(n, keep);
    assert(newest_first(p, keep) =~= newest_first(n, keep));
}

/// Hard-deleting a project leaves none of its sessions and none of their
/// surfaces.
pub proof fn law_hard_deleted_project_leaves_nothing(
    sessions: Seq<SessionRecord>,
    surfaces: Seq<SurfaceRecord>,
    pid: Seq<char>,
)
    ensures
        forall|t: int|
            0 <= t < drop_where(sessions, of_project(pid)).len() ==> (#[trigger] drop_where(
                sessions,
                of_project(pid),
            )[t]).session.project_id@ != pid,
        forall|t: int|
            0 <= t < drop_where(surfaces, of_project_session(sessions, pid)).len() ==> !session_in_project(
                sessions,
                (#[trigger] drop_where(surfaces, of_project_session(sessions, pid))[t]).surface.session_id@,
                pid,
            ),
{
    lemma_drop_where(sessions, of_project(pid), |r: SessionRecord| r.session.id@);
    lemma_drop_where(surfaces, of_project_session(sessions, pid), |r: SurfaceRecord| r.surface.id@);
    let ds = drop_where(sessions, of_project(pid));
    let dv = drop_where(surfaces, of_project_session(sessions, pid));
    assert forall|t: int| 0 <= t < ds.len() implies (#[trigger] ds[t]).session.project_id@ != pid by {
        let j = choose|j: int| 0 <= j < sessions.len() && sessions[j] == #[trigger] ds[t] && !of_project(pid)(sessions[j]);
    }
    assert forall|t: int| 0 <= t < dv.len() implies !session_in_project(sessions, (#[trigger] dv[t]).surface.session_id@, pid) by {
        let j = choose|j: int|
            0 <= j < surfaces.len() && surfaces[j] == #[trigger] dv[t] && !of_project_session(sessions, pid)(surfaces[j]);
    }
}

/// A project created without a name from a local directory or a git
/// repository is named after the last component of its root path; a blank
/// project, or one without a root path, gets no inferred name.
pub proof fn law_inferred_name_is_last_component(kind: SourceKind, root: Seq<char>)
    ensures
        kind == SourceKind::LocalDir ==> inferred_project_name(kind, Some(root)) == spec_path_file_name(root),
        kind == SourceKind::GitRepo ==> inferred_project_name(kind, Some(root)) == spec_path_file_name(root),
        inferred_project_name(SourceKind::Blank, Some(root)) is None,
        inferred_project_name(kind, None) is None,
{
}

/// Every session a listing returns is live (looking it up by its id finds
/// it as listed) and, for a listing by project, belongs to that project;
/// every live session of the project (of any project, without one) is listed.
pub proof fn law_listed_sessions_are_live(s: Seq<SessionRecord>, pid: Option<Seq<char>>)
    requires
        unique(sess_keys(s)),
    ensures
        forall|t: int|
            0 <= t < sessions_listed(s, pid).len() ==> live_session(s, (#[trigger] sessions_listed(s, pid)[t]).id@)
                == Some(sessions_listed(s, pid)[t]) && match pid {
                Some(p) => sessions_listed(s, pid)[t].project_id@ == p,
                None => true,
            },
        forall|j: int|
            0 <= j < s.len() && !(#[trigger] s[j]).deleted && match pid {
                Some(p) => s[j].session.project_id@ == p,
                None => true,
            } ==> sessions_listed(s, pid).contains(s[j].session),
{
    let notsel = |r: SessionRecord| !sess_selected(r, pid);
    let key = |r: SessionRecord| r.session.id@;
    let d = drop_where(s, notsel);
    let f = |r: SessionRecord| r.session;
    lemma_drop_where(s, notsel, key);
    assert(s.map_values(key) =~= sess_keys(s));
    assert(sessions_listed(s, pid) == d.map_values(f));
    assert forall|t: int| 0 <= t < sessions_listed(s, pid).len() implies live_session(
        s,
        (#[trigger] sessions_listed(s, pid)[t]).id@,
    ) == Some(sessions_listed(s, pid)[t]) && match pid {
        Some(p) => sessions_listed(s, pid)[t].project_id@ == p,
        None => true,
    } by {
        let j = choose|j: int| 0 <= j < s.len() && s[j] == #[trigger] d[t] && !notsel(s[j]);
        assert(sess_keys(s)[j] == s[j].session.id@);
        lemma_pos_of_unique(sess_keys(s), s[j].session.id@, j);
    }
    assert forall|j: int|
        0 <= j < s.len() && !(#[trigger] s[j]).deleted && match pid {
            Some(p) => s[j].session.project_id@ == p,
            None => true,
        } implies sessions_listed(s, pid).contains(s[j].session) by {
        assert(!notsel(s[j]));
        assert(d.contains(s[j]));
        let t = choose|t: int| 0 <= t < d.len() && d[t] == s[j];
        assert(sessions_listed(s, pid)[t] == s[j].session);
    }
}

/// A session that was archived appears in no later listing, by project or
/// not.
pub proof fn law_archived_session_is_not_listed(
    s: Seq<SessionRecord>,
    after: Seq<SessionRecord>,
    i: int,
    pid: Option<Seq<char>>,
)
    requires
        unique(sess_keys(s)),
        0 <= i < s.len(),
        after == s.update(i, SessionRecord { deleted: true, ..s[i] }),
    ensures
        forall|t: int|
            0 <= t < sessions_listed(after, pid).len() ==> (#[trigger] sessions_listed(after, pid)[t]).id@
                != s[i].session.id@,
{
    assert(sess_keys(after) =~= sess_keys(s));
    law_listed_sessions_are_live(after, pid);
    lemma_pos_of_unique(sess_keys(s), s[i].session.id@, i);
    assert(live_session(after, s[i].session.id@) is None);
}

/// Once a project is archived, no session of it appears in a later listing,
/// by project or not.
pub proof fn law_archived_project_sessions_are_not_listed(
    sessions: Seq<SessionRecord>,
    after: Seq<SessionRecord>,
    pid: Seq<char>,
    sid: Seq<char>,
    filter: Option<Seq<char>>,
)
    requires
        unique(sess_keys(sessions)),
        session_in_project(sessions, sid, pid),
        after == sessions_after_project_archive(sessions, pid),
    ensures
        forall|t: int|
            0 <= t < sessions_listed(after, filter).len() ==> (#[trigger] sessions_listed(after, filter)[t]).id@
                != sid,
{
    assert(sess_keys(after) =~= sess_keys(sessions));
    law_archived_project_hides_its_sessions(sessions, pid, sid);
    law_listed_sessions_are_live(after, filter);
}

/// Every project a listing returns is live (looking it up by its id finds it
/// as listed) and, for a listing by workspace, belongs to that workspace.
pub proof fn law_listed_projects_are_live(s: Seq<ProjectRecord>, ws: Option<Seq<char>>, v: Seq<Project>)
    requires
        unique(proj_keys(s)),
        proj_listed(s, ws, v),
    ensures
        forall|t: int|
            0 <= t < v.len() ==> live_project(s, (#[trigger] v[t]).id@) == Some(v[t]) && match ws {
                Some(w) => v[t].workspace_id@ == w,
                None => true,
            },
{
    let perm = choose|perm: Seq<usize>| #[trigger] proj_listing(s, ws, v, perm);
    let notsel = |r: ProjectRecord| !proj_selected(r, ws);
    let key = |r: ProjectRecord| r.project.id@;
    let sel = drop_where(s, notsel);
    lemma_drop_where(s, notsel, key);
    assert(s.map_values(key) =~= proj_keys(s));
    assert(sel.map_values(|r: ProjectRecord| super::proj_list_key(r)).len() == sel.len());
    assert forall|t: int| 0 <= t < v.len() implies live_project(s, (#[trigger] v[t]).id@) == Some(v[t])
        && match ws {
        Some(w) => v[t].workspace_id@ == w,
        None => true,
    } by {
        let i = perm[t] as int;
        assert(0 <= i < sel.len());
        assert(v[t] == sel[i].project);
        let j = choose|j: int| 0 <= j < s.len() && s[j] == #[trigger] sel[i] && !notsel(s[j]);
        assert(proj_keys(s)[j] == s[j].project.id@);
        lemma_pos_of_unique(proj_keys(s), s[j].project.id@, j);
    }
}

/// Every command a listing returns is live: looking it up by its id finds it
/// as listed.
pub proof fn law_listed_commands_are_live(s: Seq<CommandRecord>)
    requires
        unique(cmd_keys(s)),
    ensures
        forall|t: int|
            0 <= t < commands_listed(s).len() ==> live_command(s, (#[trigger] commands_listed(s)[t]).command.id@)
                == Some(commands_listed(s)[t].command),
{
    let gone = |r: CommandRecord| r.deleted;
    let key = |r: CommandRecord| r.command.id@;
    lemma_drop_where(s, gone, key);
    assert(s.map_values(key) =~= cmd_keys(s));
    assert forall|t: int| 0 <= t < commands_listed(s).len() implies live_command(
        s,
        (#[trigger] commands_listed(s)[t]).command.id@,
    ) == Some(commands_listed(s)[t].command) by {
        let d = drop_where(s, gone);
        let j = choose|j: int| 0 <= j < s.len() && s[j] == #[trigger] d[t] && !gone(s[j]);
        assert(cmd_keys(s)[j] == s[j].command.id@);
        lemma_pos_of_unique(cmd_keys(s), s[j].command.id@, j);
    }
}

/// Every surface a resume listing returns is live (looking it up by its id
/// finds it as listed) and belongs to a live session: no surface of an
/// archived session is resumed.
pub proof fn law_resumable_surfaces_are_live(s: Seq<SurfaceRecord>, sessions: Seq<SessionRecord>)
    requires
        unique(surf_keys(s)),
    ensures
        forall|t: int|
            0 <= t < resumable_listed(s, sessions).len() ==> live_surface(
                s,
                (#[trigger] resumable_listed(s, sessions)[t]).id@,
            ) == Some(resumable_listed(s, sessions)[t]) && live_session(
                sessions,
                resumable_listed(s, sessions)[t].session_id@,
            ) is Some,
{
    let notres = |r: SurfaceRecord| !resumable(r, sessions);
    let key = |r: SurfaceRecord| r.surface.id@;
    let kept = drop_where(s, notres);
    lemma_drop_where(s, notres, key);
    assert(s.map_values(key) =~= surf_keys(s));
    assert forall|t: int| 0 <= t < resumable_listed(s, sessions).len() implies live_surface(
        s,
        (#[trigger] resumable_listed(s, sessions)[t]).id@,
    ) == Some(resumable_listed(s, sessions)[t]) && live_session(
        sessions,
        resumable_listed(s, sessions)[t].session_id@,
    ) is Some by {
        assert(resumable_listed(s, sessions)[t] == kept[t].surface);
        let j = choose|j: int| 0 <= j < s.len() && s[j] == #[trigger] kept[t] && !notres(s[j]);
        assert(surf_keys(s)[j] == s[j].surface.id@);
        lemma_pos_of_unique(surf_keys(s), s[j].surface.id@, j);
    }
}

} // verus!
