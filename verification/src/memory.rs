//! In-memory domain and operational store. Every table is a vector of records
//! whose ids are unique; the contracts state each operation over the store's
//! view.

use vstd::prelude::*;

use crate::entities::command::{copy_pairs, copy_strings, same_command};
use crate::entities::project::copy_opt_string;
use crate::entities::setting::scope_columns;
use crate::entities::{
    Command, CommandId, CommandOrigin, LaunchTemplate, LaunchTemplateId, NewCommand,
    NewLaunchTemplate, NewProject, NewSession, NewSurface, NewWorkspace, NotificationRecord,
    Project, ProjectId, ProjectStatus, Session, SessionId, SessionStatus, SettingEntry,
    SettingScope, SourceKind, Surface, SurfaceId, SurfaceStatus, TitleSource, Workspace,
    WorkspaceId, WorkspaceStatus,
};
use crate::error::{OrchestratorError, Result};
use crate::schema::current_version;
use crate::sort::{sort_positions_num, sort_positions_str, stably_sorted_num, stably_sorted_str, views};
use crate::text::{push_decimal, decimal};

mod catalog;
mod properties;
mod session;
mod surface;

pub use session::{
    is_epoch_secs, live_session, of_project, of_project_session, of_session, sess_selected,
    sess_upsert, session_from_draft, sessions_listed, surfaces_of_session_archived,
};
pub use catalog::{
    command_from_draft, command_stored, commands_listed, live_command, lt_upsert, newest_first,
    pruned, stored_launch_template,
};
pub use properties::{
    law_archived_project_hides_its_sessions, law_archived_session_hides_its_surfaces,
    law_create_surface_keeps_placements_unique, law_created_surface_is_found,
    law_deleted_workspace_keeps_no_project, law_global_setting_fallback,
    law_hard_deleted_project_leaves_nothing, law_project_setting_wins, law_prune_keeps_newest,
    law_soft_deleted_surface_is_gone, law_surface_status_is_read_back, placements_unique,
    law_inferred_name_is_last_component, law_listed_sessions_are_live, law_archived_session_is_not_listed,
    law_archived_project_sessions_are_not_listed, law_listed_projects_are_live, law_listed_commands_are_live,
    law_resumable_surfaces_are_live,
};
pub use surface::{
    first_placed, live_surface, placement_taken, placements_filled, resumable, resumable_listed,
    surf_upsert, surface_from_draft, surface_placed,
};

verus! {

// ── records ──────────────────────────────────────────────────────────────────

/// A stored workspace and the position it was created at.
pub struct WorkspaceRecord {
    pub workspace: Workspace,
    pub created_seq: u64,
}

/// A stored project; `deleted` marks an archived project.
pub struct ProjectRecord {
    pub project: Project,
    pub deleted: bool,
    pub created_seq: u64,
}

/// A stored session; `deleted` marks an archived session.
pub struct SessionRecord {
    pub session: Session,
    pub deleted: bool,
    pub layout_json: Option<String>,
}

/// A stored surface; `deleted` marks a soft-deleted surface.
pub struct SurfaceRecord {
    pub surface: Surface,
    pub deleted: bool,
}

/// A stored command; `deleted` marks a removed command.
pub struct CommandRecord {
    pub command: Command,
    pub deleted: bool,
}

/// A stored setting, keyed by (scope, project, key).
pub struct SettingRow {
    pub scope: String,
    pub project: String,
    pub key: String,
    pub value_json: String,
}

/// The abstract contents of a [`MemoryBackend`].
pub struct StoreView {
    pub version: u32,
    pub workspaces: Seq<WorkspaceRecord>,
    pub projects: Seq<ProjectRecord>,
    pub sessions: Seq<SessionRecord>,
    pub surfaces: Seq<SurfaceRecord>,
    pub commands: Seq<CommandRecord>,
    pub launch_templates: Seq<LaunchTemplate>,
    pub settings: Seq<SettingRow>,
    /// Insertion-ordered notification history, oldest first.
    pub notifications: Seq<NotificationRecord>,
}

/// In-memory store of every entity, mirroring the file-tree and sqlite stores
/// for tests and ephemeral runs.
pub struct MemoryBackend {
    version: u32,
    workspaces: Vec<WorkspaceRecord>,
    projects: Vec<ProjectRecord>,
    sessions: Vec<SessionRecord>,
    surfaces: Vec<SurfaceRecord>,
    commands: Vec<CommandRecord>,
    launch_templates: Vec<LaunchTemplate>,
    settings: Vec<SettingRow>,
    notifications: Vec<NotificationRecord>,
}

impl View for MemoryBackend {
    type V = StoreView;

    closed spec fn view(&self) -> StoreView {
        StoreView {
            version: self.version,
            workspaces: self.workspaces@,
            projects: self.projects@,
            sessions: self.sessions@,
            surfaces: self.surfaces@,
            commands: self.commands@,
            launch_templates: self.launch_templates@,
            settings: self.settings@,
            notifications: self.notifications@,
        }
    }
}

// ── keys ─────────────────────────────────────────────────────────────────────

/// Position of the first `k` in `keys` at or after `i`.
pub open spec fn pos_from<K>(keys: Seq<K>, k: K, i: int) -> Option<int>
    decreases keys.len() - i,
{
    if i < 0 || i >= keys.len() {
        None
    } else if keys[i] == k {
        Some(i)
    } else {
        pos_from(keys, k, i + 1)
    }
}

/// Position of the first `k` in `keys`.
pub open spec fn pos_of<K>(keys: Seq<K>, k: K) -> Option<int> {
    pos_from(keys, k, 0)
}

/// No key occurs twice.
pub open spec fn unique<K>(keys: Seq<K>) -> bool {
    forall|i: int, j: int| 0 <= i < j < keys.len() ==> keys[i] != keys[j]
}

proof fn lemma_pos_from<K>(keys: Seq<K>, k: K, i: int)
    requires
        0 <= i <= keys.len(),
    ensures
        match pos_from(keys, k, i) {
            Some(p) => i <= p < keys.len() && keys[p] == k && forall|j: int|
                i <= j < p ==> keys[j] != k,
            None => forall|j: int| i <= j < keys.len() ==> keys[j] != k,
        },
    decreases keys.len() - i,
{
    if i < keys.len() && keys[i] != k {
        lemma_pos_from(keys, k, i + 1);
    }
}

/// What `pos_of` means: the first occurrence, or none.
pub proof fn lemma_pos_of<K>(keys: Seq<K>, k: K)
    ensures
        match pos_of(keys, k) {
            Some(p) => 0 <= p < keys.len() && keys[p] == k && forall|j: int|
                0 <= j < p ==> keys[j] != k,
            None => forall|j: int| 0 <= j < keys.len() ==> keys[j] != k,
        },
{
    lemma_pos_from(keys, k, 0);
}

/// With unique keys, the position of a key is where it is.
pub proof fn lemma_pos_of_unique<K>(keys: Seq<K>, k: K, i: int)
    requires
        unique(keys),
        0 <= i < keys.len(),
        keys[i] == k,
    ensures
        pos_of(keys, k) == Some(i),
{
    lemma_pos_of(keys, k);
}

/// Appending a key leaves earlier positions as they were.
pub proof fn lemma_pos_of_push<K>(keys: Seq<K>, x: K, k: K)
    ensures
        pos_of(keys.push(x), k) == (match pos_of(keys, k) {
            Some(p) => Some(p),
            None => if x == k {
                Some(keys.len() as int)
            } else {
                None
            },
        }),
{
    lemma_pos_of(keys, k);
    lemma_pos_of(keys.push(x), k);
    let r = keys.push(x);
    match pos_of(keys, k) {
        Some(p) => {
            assert(r[p] == k);
            match pos_of(r, k) {
                Some(q) => {
                    if q < p {
                        assert(r[q] == keys[q]);
                    }
                },
                None => {},
            }
        },
        None => {
            match pos_of(r, k) {
                Some(q) => {
                    if q < keys.len() {
                        assert(r[q] == keys[q]);
                    }
                },
                None => {
                    if x == k {
                        assert(r[keys.len() as int] == k);
                    }
                },
            }
        },
    }
}

/// Removing the entry at `i` shifts later positions down by one.
pub proof fn lemma_pos_of_remove<K>(keys: Seq<K>, i: int, k: K)
    requires
        0 <= i < keys.len(),
        keys[i] != k,
    ensures
        pos_of(keys.remove(i), k) == (match pos_of(keys, k) {
            Some(p) => if p < i {
                Some(p)
            } else {
                Some(p - 1)
            },
            None => None,
        }),
{
    lemma_pos_of(keys, k);
    lemma_pos_of(keys.remove(i), k);
    let r = keys.remove(i);
    match pos_of(keys, k) {
        Some(p) => {
            if p < i {
                assert(r[p] == k);
            } else {
                assert(r[p - 1] == k);
            }
        },
        None => {
            assert forall|j: int| 0 <= j < r.len() implies r[j] != k by {
                if j >= i {
                    assert(r[j] == keys[j + 1]);
                }
            }
        },
    }
}

/// Removing an entry keeps keys unique.
pub proof fn lemma_unique_remove<K>(keys: Seq<K>, i: int)
    requires
        unique(keys),
        0 <= i < keys.len(),
    ensures
        unique(keys.remove(i)),
{
    let r = keys.remove(i);
    assert forall|a: int, b: int| 0 <= a < b < r.len() implies r[a] != r[b] by {
        let a0 = if a < i { a } else { a + 1 };
        let b0 = if b < i { b } else { b + 1 };
        assert(r[a] == keys[a0] && r[b] == keys[b0]);
    }
}

/// Appending a key that is not present keeps keys unique.
pub proof fn lemma_unique_push<K>(keys: Seq<K>, x: K)
    requires
        unique(keys),
        pos_of(keys, x) is None,
    ensures
        unique(keys.push(x)),
{
    lemma_pos_of(keys, x);
    let r = keys.push(x);
    assert forall|a: int, b: int| 0 <= a < b < r.len() implies r[a] != r[b] by {
        if b == keys.len() {
            assert(r[a] == keys[a]);
        } else {
            assert(r[a] == keys[a] && r[b] == keys[b]);
        }
    }
}

pub open spec fn ws_keys(s: Seq<WorkspaceRecord>) -> Seq<Seq<char>> {
    s.map_values(|r: WorkspaceRecord| r.workspace.id@)
}

pub open spec fn proj_keys(s: Seq<ProjectRecord>) -> Seq<Seq<char>> {
    s.map_values(|r: ProjectRecord| r.project.id@)
}

pub open spec fn sess_keys(s: Seq<SessionRecord>) -> Seq<Seq<char>> {
    s.map_values(|r: SessionRecord| r.session.id@)
}

pub open spec fn surf_keys(s: Seq<SurfaceRecord>) -> Seq<Seq<char>> {
    s.map_values(|r: SurfaceRecord| r.surface.id@)
}

pub open spec fn cmd_keys(s: Seq<CommandRecord>) -> Seq<Seq<char>> {
    s.map_values(|r: CommandRecord| r.command.id@)
}

pub open spec fn lt_keys(s: Seq<LaunchTemplate>) -> Seq<Seq<char>> {
    s.map_values(|r: LaunchTemplate| r.id@)
}

pub open spec fn setting_keys(s: Seq<SettingRow>) -> Seq<(Seq<char>, Seq<char>, Seq<char>)> {
    s.map_values(|r: SettingRow| (r.scope@, r.project@, r.key@))
}

impl StoreView {
    /// Every table's ids are unique, and every stored command sets each
    /// environment variable once.
    pub open spec fn wf(self) -> bool {
        &&& unique(ws_keys(self.workspaces))
        &&& unique(proj_keys(self.projects))
        &&& unique(sess_keys(self.sessions))
        &&& unique(surf_keys(self.surfaces))
        &&& unique(cmd_keys(self.commands))
        &&& forall|i: int| 0 <= i < self.commands.len() ==> (#[trigger] self.commands[i]).command.wf()
        &&& unique(lt_keys(self.launch_templates))
        &&& unique(setting_keys(self.settings))
    }
}

/// `Some(i)` as an integer position.
pub open spec fn as_pos(r: Option<usize>) -> Option<int> {
    match r {
        Some(i) => Some(i as int),
        None => None,
    }
}

// ── settings ─────────────────────────────────────────────────────────────────

/// The value stored under (scope, project, key), if any.
pub open spec fn setting_lookup(
    rows: Seq<SettingRow>,
    cols: (Seq<char>, Seq<char>),
    key: Seq<char>,
) -> Option<Seq<char>> {
    match pos_of(setting_keys(rows), (cols.0, cols.1, key)) {
        Some(i) => Some(rows[i].value_json@),
        None => None,
    }
}

/// The settings of one scope as a map from key to value.
pub open spec fn settings_in_scope(rows: Seq<SettingRow>, cols: (Seq<char>, Seq<char>)) -> Map<
    Seq<char>,
    Seq<char>,
> {
    Map::new(
        |k: Seq<char>| setting_lookup(rows, cols, k) is Some,
        |k: Seq<char>| setting_lookup(rows, cols, k)->0,
    )
}

/// The value a project sees for a key: its own override, else the global value.
pub open spec fn setting_resolved(rows: Seq<SettingRow>, project: Seq<char>, key: Seq<char>) -> Option<
    Seq<char>,
> {
    match setting_lookup(rows, ("project"@, project), key) {
        Some(v) => Some(v),
        None => setting_lookup(rows, ("global"@, Seq::empty()), key),
    }
}

/// `entries` are the settings of one scope, each key once, ascending by key.
pub open spec fn settings_listed(
    rows: Seq<SettingRow>,
    cols: (Seq<char>, Seq<char>),
    entries: Seq<SettingEntry>,
) -> bool {
    &&& forall|i: int|
        0 <= i < entries.len() ==> setting_lookup(rows, cols, #[trigger] entries[i].key@) == Some(
            entries[i].value_json@,
        )
    &&& forall|k: Seq<char>|
        setting_lookup(rows, cols, k) is Some ==> exists|i: int|
            0 <= i < entries.len() && #[trigger] entries[i].key@ == k
    &&& forall|i: int, j: int|
        0 <= i < j < entries.len() ==> crate::text::str_lt(
            #[trigger] entries[i].key@,
            #[trigger] entries[j].key@,
        )
}

impl MemoryBackend {
    /// Position of the workspace with the given id.
    fn find_workspace(&self, id: &str) -> (r: Option<usize>)
        ensures
            as_pos(r) == pos_of(ws_keys(self.workspaces@), id@),
            r matches Some(i) ==> i < self.workspaces@.len(),
    {
        proof {
            lemma_pos_of(ws_keys(self.workspaces@), id@);
        }
        let mut i: usize = 0;
        while i < self.workspaces.len()
            invariant
                i <= self.workspaces@.len(),
                pos_of(ws_keys(self.workspaces@), id@) == pos_from(ws_keys(self.workspaces@), id@, i as int),
            decreases self.workspaces.len() - i,
        {
            if crate::text::str_equal(self.workspaces[i].workspace.id.as_str(), id) {
                return Some(i);
            }
            i = i + 1;
        }
        None
    }

    /// Position of the project with the given id.
    fn find_project(&self, id: &str) -> (r: Option<usize>)
        ensures
            as_pos(r) == pos_of(proj_keys(self.projects@), id@),
            r matches Some(i) ==> i < self.projects@.len(),
    {
        proof {
            lemma_pos_of(proj_keys(self.projects@), id@);
        }
        let mut i: usize = 0;
        while i < self.projects.len()
            invariant
                i <= self.projects@.len(),
                pos_of(proj_keys(self.projects@), id@) == pos_from(proj_keys(self.projects@), id@, i as int),
            decreases self.projects.len() - i,
        {
            if crate::text::str_equal(self.projects[i].project.id.as_str(), id) {
                return Some(i);
            }
            i = i + 1;
        }
        None
    }

    /// Position of the session with the given id.
    fn find_session(&self, id: &str) -> (r: Option<usize>)
        ensures
            as_pos(r) == pos_of(sess_keys(self.sessions@), id@),
            r matches Some(i) ==> i < self.sessions@.len(),
    {
        proof {
            lemma_pos_of(sess_keys(self.sessions@), id@);
        }
        let mut i: usize = 0;
        while i < self.sessions.len()
            invariant
                i <= self.sessions@.len(),
                pos_of(sess_keys(self.sessions@), id@) == pos_from(sess_keys(self.sessions@), id@, i as int),
            decreases self.sessions.len() - i,
        {
            if crate::text::str_equal(self.sessions[i].session.id.as_str(), id) {
                return Some(i);
            }
            i = i + 1;
        }
        None
    }

    /// Position of the surface with the given id.
    fn find_surface(&self, id: &str) -> (r: Option<usize>)
        ensures
            as_pos(r) == pos_of(surf_keys(self.surfaces@), id@),
            r matches Some(i) ==> i < self.surfaces@.len(),
    {
        proof {
            lemma_pos_of(surf_keys(self.surfaces@), id@);
        }
        let mut i: usize = 0;
        while i < self.surfaces.len()
            invariant
                i <= self.surfaces@.len(),
                pos_of(surf_keys(self.surfaces@), id@) == pos_from(surf_keys(self.surfaces@), id@, i as int),
            decreases self.surfaces.len() - i,
        {
            if crate::text::str_equal(self.surfaces[i].surface.id.as_str(), id) {
                return Some(i);
            }
            i = i + 1;
        }
        None
    }

    /// Position of the command with the given id.
    fn find_command(&self, id: &str) -> (r: Option<usize>)
        ensures
            as_pos(r) == pos_of(cmd_keys(self.commands@), id@),
            r matches Some(i) ==> i < self.commands@.len(),
    {
        proof {
            lemma_pos_of(cmd_keys(self.commands@), id@);
        }
        let mut i: usize = 0;
        while i < self.commands.len()
            invariant
                i <= self.commands@.len(),
                pos_of(cmd_keys(self.commands@), id@) == pos_from(cmd_keys(self.commands@), id@, i as int),
            decreases self.commands.len() - i,
        {
            if crate::text::str_equal(self.commands[i].command.id.as_str(), id) {
                return Some(i);
            }
            i = i + 1;
        }
        None
    }

    /// Position of the launch template with the given id.
    fn find_launch_template(&self, id: &str) -> (r: Option<usize>)
        ensures
            as_pos(r) == pos_of(lt_keys(self.launch_templates@), id@),
            r matches Some(i) ==> i < self.launch_templates@.len(),
    {
        proof {
            lemma_pos_of(lt_keys(self.launch_templates@), id@);
        }
        let mut i: usize = 0;
        while i < self.launch_templates.len()
            invariant
                i <= self.launch_templates@.len(),
                pos_of(lt_keys(self.launch_templates@), id@) == pos_from(lt_keys(self.launch_templates@), id@, i as int),
            decreases self.launch_templates.len() - i,
        {
            if crate::text::str_equal(self.launch_templates[i].id.as_str(), id) {
                return Some(i);
            }
            i = i + 1;
        }
        None
    }

    fn find_setting(&self, scope: &str, project: &str, key: &str) -> (r: Option<usize>)
        ensures
            as_pos(r) == pos_of(setting_keys(self.settings@), (scope@, project@, key@)),
            r matches Some(i) ==> i < self.settings@.len(),
    {
        proof {
            lemma_pos_of(setting_keys(self.settings@), (scope@, project@, key@));
        }
        let mut i: usize = 0;
        while i < self.settings.len()
            invariant
                i <= self.settings@.len(),
                pos_of(setting_keys(self.settings@), (scope@, project@, key@)) == pos_from(
                    setting_keys(self.settings@),
                    (scope@, project@, key@),
                    i as int,
                ),
            decreases self.settings.len() - i,
        {
            let row = &self.settings[i];
            if crate::text::str_equal(row.scope.as_str(), scope) && crate::text::str_equal(
                row.project.as_str(),
                project,
            ) && crate::text::str_equal(row.key.as_str(), key) {
                return Some(i);
            }
            i = i + 1;
        }
        None
    }

    /// The raw value of a setting at a scope, `None` if absent.
    pub fn get_setting(&self, scope: &SettingScope, key: &str) -> (r: Result<Option<String>>)
        ensures
            r is Ok,
            match r {
                Ok(v) => match v {
                    Some(s) => setting_lookup(self@.settings, scope_columns(*scope), key@) == Some(
                        s@,
                    ),
                    None => setting_lookup(self@.settings, scope_columns(*scope), key@) is None,
                },
                Err(_) => false,
            },
    {
        let (scope_col, project_col) = scope.columns();
        match self.find_setting(scope_col, project_col, key) {
            Some(i) => Ok(Some(self.settings[i].value_json.clone())),
            None => Ok(None),
        }
    }

    /// Set (or overwrite) a setting value at the given scope.
    pub fn set_setting(&mut self, scope: &SettingScope, key: &str, value_json: &str) -> (r: Result<
        (),
    >)
        requires
            old(self)@.wf(),
        ensures
            r is Ok,
            final(self)@.wf(),
            setting_lookup(final(self)@.settings, scope_columns(*scope), key@) == Some(value_json@),
            forall|cols: (Seq<char>, Seq<char>), k: Seq<char>|
                (cols, k) != (scope_columns(*scope), key@) ==> #[trigger] setting_lookup(
                    final(self)@.settings,
                    cols,
                    k,
                ) == setting_lookup(old(self)@.settings, cols, k),
            final(self)@ == (StoreView { settings: final(self)@.settings, ..old(self)@ }),
    {
        let (scope_col, project_col) = scope.columns();
        let ghost cols = scope_columns(*scope);
        let ghost old_rows = self.settings@;
        let row = SettingRow {
            scope: scope_col.to_owned(),
            project: project_col.to_owned(),
            key: key.to_owned(),
            value_json: value_json.to_owned(),
        };
        match self.find_setting(scope_col, project_col, key) {
            Some(i) => {
                proof {
                    lemma_pos_of(setting_keys(old_rows), (cols.0, cols.1, key@));
                }
                self.settings.set(i, row);
                proof {
                    assert(setting_keys(self.settings@) =~= setting_keys(old_rows));
                    assert forall|c: (Seq<char>, Seq<char>), k: Seq<char>|
                        #![trigger setting_lookup(self.settings@, c, k)]
                        (c, k) != (cols, key@) implies setting_lookup(self.settings@, c, k)
                        == setting_lookup(old_rows, c, k) by {
                        lemma_pos_of(setting_keys(old_rows), (c.0, c.1, k));
                    }
                }
            },
            None => {
                self.settings.push(row);
                proof {
                    assert(setting_keys(self.settings@) =~= setting_keys(old_rows).push(
                        (cols.0, cols.1, key@),
                    ));
                    lemma_unique_push(setting_keys(old_rows), (cols.0, cols.1, key@));
                    assert forall|c: (Seq<char>, Seq<char>), k: Seq<char>|
                        #![trigger setting_lookup(self.settings@, c, k)]
                        true implies setting_lookup(self.settings@, c, k) == if (c, k) == (
                            cols,
                            key@,
                        ) {
                            Some(value_json@)
                        } else {
                            setting_lookup(old_rows, c, k)
                        } by {
                        lemma_pos_of_push(setting_keys(old_rows), (cols.0, cols.1, key@), (c.0, c.1, k));
                        lemma_pos_of(setting_keys(old_rows), (c.0, c.1, k));
                    }
                }
            },
        }
        Ok(())
    }

    /// The value a project sees for `key`: its project-scoped value if present,
    /// else the global value.
    pub fn resolve_setting(&self, project_id: &ProjectId, key: &str) -> (r: Result<Option<String>>)
        ensures
            match r {
                Ok(v) => match v {
                    Some(s) => setting_resolved(self@.settings, project_id@, key@) == Some(s@),
                    None => setting_resolved(self@.settings, project_id@, key@) is None,
                },
                Err(_) => false,
            },
    {
        let scope = SettingScope::Project(project_id.duplicate());
        match self.get_setting(&scope, key) {
            Ok(Some(v)) => {
                return Ok(Some(v));
            },
            _ => {},
        }
        proof {
            reveal_strlit("");
        }
        self.get_setting(&SettingScope::Global, key)
    }

    /// Every setting of a scope, ascending by key.
    pub fn list_settings(&self, scope: &SettingScope) -> (r: Result<Vec<SettingEntry>>)
        requires
            self@.wf(),
        ensures
            match r {
                Ok(entries) => settings_listed(self@.settings, scope_columns(*scope), entries@),
                Err(_) => false,
            },
    {
        let (scope_col, project_col) = scope.columns();
        let ghost cols = scope_columns(*scope);
        let ghost rows = self.settings@;
        let mut found: Vec<SettingEntry> = Vec::new();
        let mut keys: Vec<String> = Vec::new();
        let ghost mut src: Seq<int> = Seq::empty();
        let mut i: usize = 0;
        while i < self.settings.len()
            invariant
                rows == self.settings@,
                cols == (scope_col@, project_col@),
                i <= rows.len(),
                found@.len() == src.len(),
                keys@.len() == src.len(),
                forall|t: int|
                    0 <= t < src.len() ==> {
                        &&& 0 <= #[trigger] src[t] < i
                        &&& rows[src[t]].scope@ == cols.0
                        &&& rows[src[t]].project@ == cols.1
                        &&& found@[t].key@ == rows[src[t]].key@
                        &&& keys@[t]@ == rows[src[t]].key@
                        &&& found@[t].value_json@ == rows[src[t]].value_json@
                    },
                forall|t: int, u: int| 0 <= t < u < src.len() ==> #[trigger] src[t] < #[trigger] src[u],
                forall|j: int|
                    0 <= j < i && rows[j].scope@ == cols.0 && rows[j].project@ == cols.1 ==> exists|t: int|
                        0 <= t < src.len() && #[trigger] src[t] == j,
            decreases rows.len() - i,
        {
            let row = &self.settings[i];
            if crate::text::str_equal(row.scope.as_str(), scope_col) && crate::text::str_equal(
                row.project.as_str(),
                project_col,
            ) {
                found.push(SettingEntry { key: row.key.clone(), value_json: row.value_json.clone() });
                keys.push(row.key.clone());
                proof {
                    let old_src = src;
                    src = src.push(i as int);
                    assert forall|j: int|
                        0 <= j < i + 1 && rows[j].scope@ == cols.0 && rows[j].project@ == cols.1 implies exists|t: int|
                        0 <= t < src.len() && #[trigger] src[t] == j by {
                        if j < i {
                            let t0 = choose|t: int| 0 <= t < old_src.len() && #[trigger] old_src[t] == j;
                            assert(src[t0] == j);
                        } else {
                            assert(src[src.len() - 1] == j);
                        }
                    }
                }
            }
            i = i + 1;
        }
        let perm = sort_positions_str(&keys);
        let mut out: Vec<SettingEntry> = Vec::new();
        let mut q: usize = 0;
        while q < perm.len()
            invariant
                stably_sorted_str(views(keys@), perm@),
                keys@.len() == found@.len(),
                q <= perm@.len(),
                out@.len() == q,
                forall|t: int| 0 <= t < q ==> (#[trigger] out@[t]).key@ == found@[perm@[t] as int].key@
                    && out@[t].value_json@ == found@[perm@[t] as int].value_json@,
            decreases perm.len() - q,
        {
            let e = &found[perm[q]];
            out.push(SettingEntry { key: e.key.clone(), value_json: e.value_json.clone() });
            q = q + 1;
        }
        proof {
            let sk = setting_keys(rows);
            assert forall|t: int| 0 <= t < out@.len() implies setting_lookup(
                rows,
                cols,
                #[trigger] out@[t].key@,
            ) == Some(out@[t].value_json@) by {
                let f = perm@[t] as int;
                let j = src[f];
                assert(sk[j] == (cols.0, cols.1, out@[t].key@));
                lemma_pos_of_unique(sk, (cols.0, cols.1, out@[t].key@), j);
            }
            assert forall|k: Seq<char>| setting_lookup(rows, cols, k) is Some implies exists|t: int|
                0 <= t < out@.len() && #[trigger] out@[t].key@ == k by {
                lemma_pos_of(sk, (cols.0, cols.1, k));
                let j = pos_of(sk, (cols.0, cols.1, k))->0;
                assert(sk[j] == (rows[j].scope@, rows[j].project@, rows[j].key@));
                let f = choose|t: int| 0 <= t < src.len() && #[trigger] src[t] == j;
                assert(crate::sort::lists(perm@, f));
                let t = choose|t: int| 0 <= t < perm@.len() && perm@[t] == f;
                assert(out@[t].key@ == k);
            }
            assert forall|a: int, b: int| 0 <= a < b < out@.len() implies crate::text::str_lt(
                #[trigger] out@[a].key@,
                #[trigger] out@[b].key@,
            ) by {
                let fa = perm@[a] as int;
                let fb = perm@[b] as int;
                assert(crate::sort::str_before(views(keys@), fa, fb));
                assert(views(keys@)[fa] == keys@[fa]@);
                assert(views(keys@)[fb] == keys@[fb]@);
                if fa != fb {
                    let ja = src[fa];
                    let jb = src[fb];
                    if ja == jb {
                    } else {
                        assert(sk[ja] != sk[jb]);
                    }
                } else {
                }
            }
        }
        Ok(out)
    }
}

/// Id of the prebuilt login-shell command.
pub const LOGIN_SHELL_ID: &'static str = "00000000-0000-0000-0000-000000000101";

/// `c` is the prebuilt login-shell command: `/bin/bash -l`.
pub open spec fn is_login_shell(c: Command) -> bool {
    &&& c.id@ == LOGIN_SHELL_ID@
    &&& c.name@ == "login-shell"@
    &&& c.origin == CommandOrigin::Prebuilt
    &&& c.cli@ == "/bin/bash"@
    &&& c.args@.len() == 1
    &&& c.args@[0]@ == "-l"@
    &&& c.env@.len() == 0
    &&& !c.pinned
}

/// The prebuilt command library.
pub fn prebuilt_commands() -> (r: Vec<Command>)
    ensures
        r@.len() == 1,
        is_login_shell(r@[0]),
{
    let mut args: Vec<String> = Vec::new();
    args.push("-l".to_owned());
    let mut v: Vec<Command> = Vec::new();
    v.push(
        Command {
            id: CommandId::from_string(LOGIN_SHELL_ID),
            name: "login-shell".to_owned(),
            origin: CommandOrigin::Prebuilt,
            cli: "/bin/bash".to_owned(),
            args,
            env: Vec::new(),
            pinned: false,
        },
    );
    v
}

/// Largest workspace sort order (0 when there are none).
pub open spec fn max_ws_sort(s: Seq<WorkspaceRecord>) -> nat
    decreases s.len(),
{
    if s.len() == 0 {
        0
    } else {
        let m = max_ws_sort(s.drop_last());
        if s.last().workspace.sort_order > m {
            s.last().workspace.sort_order as nat
        } else {
            m
        }
    }
}

/// The key workspaces are listed by: sort order, then creation position.
pub open spec fn ws_list_keys(s: Seq<WorkspaceRecord>) -> Seq<u128> {
    s.map_values(
        |r: WorkspaceRecord| (r.workspace.sort_order as u128 * 0x1_0000_0000_0000_0000u128 + r.created_seq as u128) as u128,
    )
}

/// `v` lists the workspaces of `s` in the order `perm`, a stable sort by sort
/// order and then creation.
pub open spec fn ws_listing(s: Seq<WorkspaceRecord>, v: Seq<Workspace>, perm: Seq<usize>) -> bool {
    &&& stably_sorted_num(ws_list_keys(s), perm)
    &&& v.len() == perm.len()
    &&& forall|t: int| 0 <= t < perm.len() ==> #[trigger] v[t] == s[perm[t] as int].workspace
}

/// `v` lists the workspaces of `s` stably sorted by sort order, then creation.
pub open spec fn ws_listed(s: Seq<WorkspaceRecord>, v: Seq<Workspace>) -> bool {
    exists|perm: Seq<usize>| #[trigger] ws_listing(s, v, perm)
}

/// Insert `rec`, replacing a workspace with the same id.
pub open spec fn ws_upsert(s: Seq<WorkspaceRecord>, rec: WorkspaceRecord) -> Seq<WorkspaceRecord> {
    match pos_of(ws_keys(s), rec.workspace.id@) {
        Some(i) => s.update(i, rec),
        None => s.push(rec),
    }
}

/// `after` is `before` with the workspace at `i` renamed to `name`.
pub open spec fn ws_renamed(
    before: Seq<WorkspaceRecord>,
    after: Seq<WorkspaceRecord>,
    i: int,
    name: Seq<char>,
) -> bool {
    &&& after.len() == before.len()
    &&& after[i].workspace.name@ == name
    &&& after == before.update(
        i,
        WorkspaceRecord {
            workspace: Workspace { name: after[i].workspace.name, ..before[i].workspace },
            ..before[i]
        },
    )
}

/// `after` is `before` with every project of workspace `ws` moved to the Default workspace.
pub open spec fn projects_reassigned(
    before: Seq<ProjectRecord>,
    after: Seq<ProjectRecord>,
    ws: Seq<char>,
) -> bool {
    &&& after.len() == before.len()
    &&& forall|j: int|
        0 <= j < before.len() ==> if before[j].project.workspace_id@ == ws {
            &&& (#[trigger] after[j]).project.workspace_id@ == WorkspaceId::DEFAULT@
            &&& after[j] == ProjectRecord {
                project: Project { workspace_id: after[j].project.workspace_id, ..before[j].project },
                ..before[j]
            }
        } else {
            after[j] == before[j]
        }
}

/// The store `new` makes: Default workspace, Unfiled project, the prebuilt
/// commands, nothing else.
pub open spec fn is_fresh_store(v: StoreView) -> bool {
    &&& v.wf()
    &&& v.version == 1
    &&& v.workspaces.len() == 1
    &&& v.workspaces[0].workspace.id@ == WorkspaceId::DEFAULT@
    &&& v.workspaces[0].workspace.name@ == "Default"@
    &&& v.workspaces[0].workspace.sort_order == 0
    &&& !v.workspaces[0].workspace.pinned
    &&& v.workspaces[0].workspace.status == WorkspaceStatus::Active
    &&& v.workspaces[0].created_seq == 0
    &&& v.projects.len() == 1
    &&& v.projects[0].project.id@ == ProjectId::UNFILED@
    &&& v.projects[0].project.name@ == "Unfiled"@
    &&& v.projects[0].project.source_kind == SourceKind::Blank
    &&& v.projects[0].project.root_path is None
    &&& v.projects[0].project.workspace_id@ == WorkspaceId::DEFAULT@
    &&& v.projects[0].project.sort_order == 0
    &&& !v.projects[0].project.pinned
    &&& v.projects[0].project.status == ProjectStatus::Active
    &&& !v.projects[0].deleted
    &&& v.projects[0].created_seq == 0
    &&& v.sessions.len() == 0
    &&& v.surfaces.len() == 0
    &&& v.launch_templates.len() == 0
    &&& v.settings.len() == 0
    &&& v.notifications.len() == 0
    &&& v.commands.len() == 1
    &&& is_login_shell(v.commands[0].command)
    &&& !v.commands[0].deleted
}

impl MemoryBackend {
    /// A store holding the Default workspace, the Unfiled project and the
    /// prebuilt commands.
    pub fn new() -> (r: Self)
        ensures
            is_fresh_store(r@),
    {
        let mut workspaces: Vec<WorkspaceRecord> = Vec::new();
        workspaces.push(
            WorkspaceRecord {
                workspace: Workspace {
                    id: WorkspaceId::default_id(),
                    name: "Default".to_owned(),
                    sort_order: 0,
                    pinned: false,
                    status: WorkspaceStatus::Active,
                },
                created_seq: 0,
            },
        );
        let mut projects: Vec<ProjectRecord> = Vec::new();
        projects.push(
            ProjectRecord {
                project: Project {
                    id: ProjectId::unfiled(),
                    name: "Unfiled".to_owned(),
                    source_kind: SourceKind::Blank,
                    root_path: None,
                    workspace_id: WorkspaceId::default_id(),
                    sort_order: 0,
                    pinned: false,
                    status: ProjectStatus::Active,
                },
                deleted: false,
                created_seq: 0,
            },
        );
        let mut store = MemoryBackend {
            version: current_version(),
            workspaces,
            projects,
            sessions: Vec::new(),
            surfaces: Vec::new(),
            commands: Vec::new(),
            launch_templates: Vec::new(),
            settings: Vec::new(),
            notifications: Vec::new(),
        };
        proof {
            assert(unique(ws_keys(store.workspaces@)));
            assert(unique(proj_keys(store.projects@)));
            assert(unique(sess_keys(store.sessions@)));
            assert(unique(surf_keys(store.surfaces@)));
            assert(unique(cmd_keys(store.commands@)));
            assert(unique(lt_keys(store.launch_templates@)));
            assert(unique(setting_keys(store.settings@)));
        }
        let _ = store.seed_commands();
        proof {
            lemma_pos_of(cmd_keys(Seq::<CommandRecord>::empty()), LOGIN_SHELL_ID@);
        }
        store
    }

    /// Add each prebuilt command whose id is not yet stored (a removed prebuilt
    /// command stays removed).
    pub fn seed_commands(&mut self) -> (r: Result<()>)
        requires
            old(self)@.wf(),
        ensures
            r is Ok,
            final(self)@.wf(),
            final(self)@ == (StoreView { commands: final(self)@.commands, ..old(self)@ }),
            pos_of(cmd_keys(old(self)@.commands), LOGIN_SHELL_ID@) is Some ==> final(self)@.commands
                == old(self)@.commands,
            pos_of(cmd_keys(old(self)@.commands), LOGIN_SHELL_ID@) is None ==> {
                &&& final(self)@.commands.len() == old(self)@.commands.len() + 1
                &&& final(self)@.commands.drop_last() == old(self)@.commands
                &&& is_login_shell(final(self)@.commands.last().command)
                &&& !final(self)@.commands.last().deleted
            },
    {
        let mut seeds = prebuilt_commands();
        let seed = seeds.pop().unwrap();
        if self.find_command(seed.id.as_str()).is_none() {
            let ghost old_cmds = self.commands@;
            self.commands.push(CommandRecord { command: seed, deleted: false });
            proof {
                assert(cmd_keys(self.commands@) =~= cmd_keys(old_cmds).push(LOGIN_SHELL_ID@));
                lemma_unique_push(cmd_keys(old_cmds), LOGIN_SHELL_ID@);
                assert(self.commands@.drop_last() =~= old_cmds);
            }
        }
        Ok(())
    }

    /// The schema version the store serves.
    pub fn schema_version(&self) -> (r: Result<u32>)
        ensures
            r == Ok::<u32, OrchestratorError>(self@.version),
    {
        Ok(self.version)
    }

    // ── workspaces ───────────────────────────────────────────────────────────

    /// Create a workspace ordered after every existing one.
    pub fn create_workspace(&mut self, draft: NewWorkspace) -> (r: Result<Workspace>)
        requires
            old(self)@.wf(),
            forall|i: int|
                0 <= i < old(self)@.workspaces.len() ==> (#[trigger] old(self)@.workspaces[i]).workspace.sort_order
                    < u32::MAX,
        ensures
            final(self)@.wf(),
            match r {
                Ok(w) => {
                    &&& w.name == draft.name
                    &&& crate::entities::is_uuid_text(w.id@)
                    &&& w.sort_order == max_ws_sort(old(self)@.workspaces) + 1
                    &&& !w.pinned
                    &&& w.status == WorkspaceStatus::Active
                    &&& final(self)@ == (StoreView {
                        workspaces: ws_upsert(
                            old(self)@.workspaces,
                            WorkspaceRecord { workspace: w, created_seq: old(self)@.workspaces.len() as u64 },
                        ),
                        ..old(self)@
                    })
                },
                Err(_) => false,
            },
    {
        let seq = self.workspaces.len() as u64;
        let mut max: u32 = 0;
        let mut i: usize = 0;
        while i < self.workspaces.len()
            invariant
                i <= self.workspaces@.len(),
                max == max_ws_sort(self.workspaces@.take(i as int)),
                forall|k: int|
                    0 <= k < self.workspaces@.len() ==> (#[trigger] self.workspaces@[k]).workspace.sort_order
                        < u32::MAX,
            decreases self.workspaces.len() - i,
        {
            proof {
                assert(self.workspaces@.take(i + 1).drop_last() =~= self.workspaces@.take(i as int));
            }
            if self.workspaces[i].workspace.sort_order > max {
                max = self.workspaces[i].workspace.sort_order;
            }
            i = i + 1;
        }
        proof {
            assert(self.workspaces@.take(i as int) =~= self.workspaces@);
            lemma_max_ws_sort_bound(self.workspaces@);
        }
        let workspace = Workspace {
            id: WorkspaceId::new(crate::entities::new_uuid_string().as_str()),
            name: draft.name,
            sort_order: max + 1,
            pinned: false,
            status: WorkspaceStatus::Active,
        };
        let out = workspace.duplicate();
        let rec = WorkspaceRecord { workspace, created_seq: seq };
        let ghost old_ws = self.workspaces@;
        match self.find_workspace(rec.workspace.id.as_str()) {
            Some(k) => {
                self.workspaces.set(k, rec);
                proof {
                    lemma_pos_of(ws_keys(old_ws), out.id@);
                    assert(ws_keys(self.workspaces@) =~= ws_keys(old_ws));
                }
            },
            None => {
                self.workspaces.push(rec);
                proof {
                    assert(ws_keys(self.workspaces@) =~= ws_keys(old_ws).push(out.id@));
                    lemma_unique_push(ws_keys(old_ws), out.id@);
                }
            },
        }
        Ok(out)
    }

    /// Rename a workspace (the name is stored as given).
    pub fn rename_workspace(&mut self, id: &WorkspaceId, name: &str) -> (r: Result<()>)
        requires
            old(self)@.wf(),
        ensures
            final(self)@.wf(),
            match pos_of(ws_keys(old(self)@.workspaces), id@) {
                Some(i) => r is Ok && ws_renamed(old(self)@.workspaces, final(self)@.workspaces, i, name@)
                    && final(self)@ == (StoreView { workspaces: final(self)@.workspaces, ..old(self)@ }),
                None => final(self)@ == old(self)@ && (r matches Err(
                    OrchestratorError::WorkspaceNotFound(s),
                ) && s@ == id@),
            },
    {
        match self.find_workspace(id.as_str()) {
            Some(i) => {
                let ghost old_ws = self.workspaces@;
                let old_rec = &self.workspaces[i];
                let rec = WorkspaceRecord {
                    workspace: Workspace { name: name.to_owned(), ..old_rec.workspace.duplicate() },
                    created_seq: old_rec.created_seq,
                };
                self.workspaces.set(i, rec);
                proof {
                    lemma_pos_of(ws_keys(old_ws), id@);
                    assert(ws_keys(self.workspaces@) =~= ws_keys(old_ws));
                }
                Ok(())
            },
            None => Err(OrchestratorError::WorkspaceNotFound(id.as_str().to_owned())),
        }
    }

    /// Every workspace, ascending by sort order and then by creation.
    pub fn list_workspaces(&self) -> (r: Result<Vec<Workspace>>)
        ensures
            r is Ok,
            r matches Ok(v) ==> ws_listed(self@.workspaces, v@),
    {
        let mut keys: Vec<u128> = Vec::new();
        let mut i: usize = 0;
        while i < self.workspaces.len()
            invariant
                i <= self.workspaces@.len(),
                keys@ == ws_list_keys(self.workspaces@).take(i as int),
            decreases self.workspaces.len() - i,
        {
            let w = &self.workspaces[i];
            let k: u128 = (w.workspace.sort_order as u128) * 0x1_0000_0000_0000_0000u128 + (w.created_seq as u128);
            keys.push(k);
            proof {
                assert(keys@ =~= ws_list_keys(self.workspaces@).take(i + 1));
            }
            i = i + 1;
        }
        proof {
            assert(keys@ =~= ws_list_keys(self.workspaces@));
        }
        let perm = sort_positions_num(&keys);
        let mut out: Vec<Workspace> = Vec::new();
        let mut q: usize = 0;
        while q < perm.len()
            invariant
                stably_sorted_num(ws_list_keys(self.workspaces@), perm@),
                q <= perm@.len(),
                out@.len() == q,
                forall|t: int|
                    0 <= t < q ==> #[trigger] out@[t] == self.workspaces@[perm@[t] as int].workspace,
            decreases perm.len() - q,
        {
            out.push(self.workspaces[perm[q]].workspace.duplicate());
            q = q + 1;
        }
        assert(ws_listing(self.workspaces@, out@, perm@));
        assert(ws_listed(self.workspaces@, out@));
        Ok(out)
    }

    /// Move a workspace to a new sort position.
    pub fn reorder_workspace(&mut self, id: &WorkspaceId, sort_order: u32) -> (r: Result<()>)
        requires
            old(self)@.wf(),
        ensures
            final(self)@.wf(),
            match pos_of(ws_keys(old(self)@.workspaces), id@) {
                Some(i) => r is Ok && final(self)@ == (StoreView {
                    workspaces: old(self)@.workspaces.update(
                        i,
                        WorkspaceRecord {
                            workspace: Workspace { sort_order, ..old(self)@.workspaces[i].workspace },
                            ..old(self)@.workspaces[i]
                        },
                    ),
                    ..old(self)@
                }),
                None => final(self)@ == old(self)@ && (r matches Err(
                    OrchestratorError::WorkspaceNotFound(s),
                ) && s@ == id@),
            },
    {
        match self.find_workspace(id.as_str()) {
            Some(i) => {
                let ghost old_ws = self.workspaces@;
                let old_rec = &self.workspaces[i];
                let rec = WorkspaceRecord {
                    workspace: Workspace { sort_order, ..old_rec.workspace.duplicate() },
                    created_seq: old_rec.created_seq,
                };
                self.workspaces.set(i, rec);
                proof {
                    lemma_pos_of(ws_keys(old_ws), id@);
                    assert(ws_keys(self.workspaces@) =~= ws_keys(old_ws));
                }
                Ok(())
            },
            None => Err(OrchestratorError::WorkspaceNotFound(id.as_str().to_owned())),
        }
    }

    /// Delete a workspace other than Default, moving its projects to Default.
    pub fn delete_workspace(&mut self, id: &WorkspaceId) -> (r: Result<()>)
        requires
            old(self)@.wf(),
        ensures
            final(self)@.wf(),
            id@ == WorkspaceId::DEFAULT@ ==> r == Err::<(), OrchestratorError>(
                OrchestratorError::WorkspaceIsDefault,
            ) && final(self)@ == old(self)@,
            id@ != WorkspaceId::DEFAULT@ ==> match pos_of(ws_keys(old(self)@.workspaces), id@) {
                Some(i) => {
                    &&& r is Ok
                    &&& final(self)@.workspaces == old(self)@.workspaces.remove(i)
                    &&& projects_reassigned(old(self)@.projects, final(self)@.projects, id@)
                    &&& final(self)@ == (StoreView {
                        workspaces: final(self)@.workspaces,
                        projects: final(self)@.projects,
                        ..old(self)@
                    })
                },
                None => final(self)@ == old(self)@ && (r matches Err(
                    OrchestratorError::WorkspaceNotFound(s),
                ) && s@ == id@),
            },
    {
        if id.is_default() {
            return Err(OrchestratorError::WorkspaceIsDefault);
        }
        let i = match self.find_workspace(id.as_str()) {
            Some(i) => i,
            None => {
                return Err(OrchestratorError::WorkspaceNotFound(id.as_str().to_owned()));
            },
        };
        let ghost old_ws = self.workspaces@;
        let ghost old_projects = self.projects@;
        self.workspaces.remove(i);
        proof {
            assert(ws_keys(self.workspaces@) =~= ws_keys(old_ws).remove(i as int));
            lemma_unique_remove(ws_keys(old_ws), i as int);
        }
        let ghost pre = self@;
        let mut j: usize = 0;
        while j < self.projects.len()
            invariant
                self@ == (StoreView { projects: self@.projects, ..pre }),
                j <= self.projects@.len(),
                self.projects@.len() == old_projects.len(),
                proj_keys(self.projects@) == proj_keys(old_projects),
                forall|t: int| j <= t < old_projects.len() ==> #[trigger] self.projects@[t] == old_projects[t],
                forall|t: int|
                    0 <= t < j ==> if old_projects[t].project.workspace_id@ == id@ {
                        &&& (#[trigger] self.projects@[t]).project.workspace_id@ == WorkspaceId::DEFAULT@
                        &&& self.projects@[t] == ProjectRecord {
                            project: Project {
                                workspace_id: self.projects@[t].project.workspace_id,
                                ..old_projects[t].project
                            },
                            ..old_projects[t]
                        }
                    } else {
                        self.projects@[t] == old_projects[t]
                    },
            decreases self.projects.len() - j,
        {
            if self.projects[j].project.workspace_id.same(id) {
                let old_rec = &self.projects[j];
                let rec = ProjectRecord {
                    project: Project { workspace_id: WorkspaceId::default_id(), ..old_rec.project.duplicate() },
                    deleted: old_rec.deleted,
                    created_seq: old_rec.created_seq,
                };
                let ghost before = self.projects@;
                self.projects.set(j, rec);
                proof {
                    assert(proj_keys(self.projects@) =~= proj_keys(before));
                }
            }
            j = j + 1;
        }
        Ok(())
    }
}

proof fn lemma_max_ws_sort_bound(s: Seq<WorkspaceRecord>)
    requires
        forall|i: int| 0 <= i < s.len() ==> (#[trigger] s[i]).workspace.sort_order < u32::MAX,
    ensures
        max_ws_sort(s) < u32::MAX,
    decreases s.len(),
{
    if s.len() > 0 {
        lemma_max_ws_sort_bound(s.drop_last());
    }
}

// ── generic removal ──────────────────────────────────────────────────────────

/// `s` without the elements whose flag is set.
pub open spec fn keep_unflagged<T>(s: Seq<T>, flags: Seq<bool>) -> Seq<T>
    decreases s.len(),
{
    if s.len() == 0 {
        Seq::empty()
    } else {
        let rest = keep_unflagged(s.drop_last(), flags.take(s.len() - 1));
        if s.len() <= flags.len() && flags[s.len() - 1] {
            rest
        } else {
            rest.push(s.last())
        }
    }
}

/// `s` without the elements that satisfy `p`.
pub open spec fn drop_where<T>(s: Seq<T>, p: spec_fn(T) -> bool) -> Seq<T>
    decreases s.len(),
{
    if s.len() == 0 {
        Seq::empty()
    } else {
        let rest = drop_where(s.drop_last(), p);
        if p(s.last()) {
            rest
        } else {
            rest.push(s.last())
        }
    }
}

proof fn lemma_keep_unflagged_len<T>(s: Seq<T>, flags: Seq<bool>)
    ensures
        keep_unflagged(s, flags).len() <= s.len(),
    decreases s.len(),
{
    if s.len() > 0 {
        lemma_keep_unflagged_len(s.drop_last(), flags.take(s.len() - 1));
    }
}

proof fn lemma_keep_unflagged_is_drop_where<T>(s: Seq<T>, flags: Seq<bool>, p: spec_fn(T) -> bool)
    requires
        flags.len() == s.len(),
        forall|j: int| 0 <= j < s.len() ==> flags[j] == p(#[trigger] s[j]),
    ensures
        keep_unflagged(s, flags) == drop_where(s, p),
    decreases s.len(),
{
    if s.len() > 0 {
        let f2 = flags.take(s.len() - 1);
        assert forall|j: int| 0 <= j < s.drop_last().len() implies f2[j] == p(
            #[trigger] s.drop_last()[j],
        ) by {
            assert(s.drop_last()[j] == s[j]);
        }
        lemma_keep_unflagged_is_drop_where(s.drop_last(), f2, p);
    }
}

/// Every element kept by `drop_where` is an element of `s` not satisfying `p`,
/// and keys that were unique stay unique.
pub proof fn lemma_drop_where<T, K>(s: Seq<T>, p: spec_fn(T) -> bool, key: spec_fn(T) -> K)
    ensures
        forall|i: int|
            0 <= i < drop_where(s, p).len() ==> exists|j: int|
                0 <= j < s.len() && s[j] == #[trigger] drop_where(s, p)[i] && !p(s[j]),
        forall|j: int| 0 <= j < s.len() && !p(s[j]) ==> drop_where(s, p).contains(#[trigger] s[j]),
        unique(s.map_values(key)) ==> unique(drop_where(s, p).map_values(key)),
    decreases s.len(),
{
    if s.len() > 0 {
        let s0 = s.drop_last();
        lemma_drop_where(s0, p, key);
        let r0 = drop_where(s0, p);
        let r = drop_where(s, p);
        assert forall|i: int| 0 <= i < r.len() implies exists|j: int|
            0 <= j < s.len() && s[j] == #[trigger] r[i] && !p(s[j]) by {
            if i < r0.len() {
                let j = choose|j: int| 0 <= j < s0.len() && s0[j] == #[trigger] r0[i] && !p(s0[j]);
                assert(s[j] == s0[j]);
            } else {
                assert(r[i] == s[s.len() - 1]);
            }
        }
        assert forall|j: int| 0 <= j < s.len() && !p(s[j]) implies r.contains(#[trigger] s[j]) by {
            if j < s0.len() {
                assert(s0[j] == s[j]);
                assert(r0.contains(s0[j]));
                let k = choose|k: int| 0 <= k < r0.len() && r0[k] == s0[j];
                assert(r[k] == r0[k]);
            } else {
                assert(r[r.len() - 1] == s[j]);
            }
        }
        if unique(s.map_values(key)) {
            assert forall|a: int, b: int| 0 <= a < b < s0.map_values(key).len() implies s0.map_values(
                key,
            )[a] != s0.map_values(key)[b] by {
                assert(s0.map_values(key)[a] == s.map_values(key)[a]);
                assert(s0.map_values(key)[b] == s.map_values(key)[b]);
            }
            if !p(s.last()) {
                let rk = r.map_values(key);
                assert forall|a: int, b: int| 0 <= a < b < rk.len() implies rk[a] != rk[b] by {
                    if b == rk.len() - 1 {
                        let ja = choose|j: int| 0 <= j < s.len() && s[j] == #[trigger] r[a] && !p(s[j]);
                        let ja0 = choose|j: int| 0 <= j < s0.len() && s0[j] == #[trigger] r0[a] && !p(s0[j]);
                        assert(r[a] == r0[a]);
                        assert(s.map_values(key)[ja0] == key(s[ja0]));
                        assert(s.map_values(key)[s.len() - 1] == key(s[s.len() - 1]));
                    } else {
                        assert(rk[a] == r0.map_values(key)[a]);
                        assert(rk[b] == r0.map_values(key)[b]);
                    }
                }
            } else {
                assert(r.map_values(key) =~= r0.map_values(key));
            }
        }
    }
}

/// Remove, in place, the elements whose flag is set.
pub fn remove_flagged<T>(v: &mut Vec<T>, flags: &Vec<bool>)
    requires
        flags@.len() == old(v)@.len(),
    ensures
        final(v)@ == keep_unflagged(old(v)@, flags@),
{
    let ghost s = v@;
    let mut p: usize = 0;
    let mut j: usize = 0;
    while p < flags.len()
        invariant
            flags@.len() == s.len(),
            p <= s.len(),
            j == keep_unflagged(s.take(p as int), flags@.take(p as int)).len(),
            j <= p,
            v@ == keep_unflagged(s.take(p as int), flags@.take(p as int)) + s.skip(p as int),
        decreases flags.len() - p,
    {
        proof {
            assert(s.take(p + 1).drop_last() =~= s.take(p as int));
            assert(flags@.take(p + 1).take(p as int) =~= flags@.take(p as int));
        }
        if flags[p] {
            v.remove(j);
            proof {
                assert(v@ =~= keep_unflagged(s.take(p + 1), flags@.take(p + 1)) + s.skip(p + 1));
            }
        } else {
            proof {
                assert(v@ =~= keep_unflagged(s.take(p + 1), flags@.take(p + 1)) + s.skip(p + 1));
                lemma_keep_unflagged_len(s.take(p as int), flags@.take(p as int));
            }
            j = j + 1;
        }
        p = p + 1;
    }
    proof {
        assert(s.take(p as int) =~= s);
        assert(flags@.take(p as int) =~= flags@);
        assert(v@ =~= keep_unflagged(s, flags@));
    }
}

// ── projects ─────────────────────────────────────────────────────────────────

/// The live (not archived) project with the given id.
pub open spec fn live_project(s: Seq<ProjectRecord>, id: Seq<char>) -> Option<Project> {
    match pos_of(proj_keys(s), id) {
        Some(i) => if s[i].deleted {
            None
        } else {
            Some(s[i].project)
        },
        None => None,
    }
}

/// The name a project gets from its source when none is given: the last
/// component of its root path, for local-dir and git-repo projects.
pub open spec fn inferred_project_name(kind: SourceKind, root: Option<Seq<char>>) -> Option<Seq<char>> {
    match kind {
        SourceKind::Blank => None,
        _ => match root {
            Some(p) => crate::paths::spec_path_file_name(p),
            None => None,
        },
    }
}

/// Insert `rec`, replacing a project with the same id.
pub open spec fn proj_upsert(s: Seq<ProjectRecord>, rec: ProjectRecord) -> Seq<ProjectRecord> {
    match pos_of(proj_keys(s), rec.project.id@) {
        Some(i) => s.update(i, rec),
        None => s.push(rec),
    }
}

/// The projects a listing selects: live ones, of the given workspace if any.
pub open spec fn proj_selected(r: ProjectRecord, ws: Option<Seq<char>>) -> bool {
    !r.deleted && match ws {
        Some(w) => r.project.workspace_id@ == w,
        None => true,
    }
}

/// The key projects are listed by: newest first.
pub open spec fn proj_list_key(r: ProjectRecord) -> u128 {
    (0xFFFF_FFFF_FFFF_FFFFu64 - r.created_seq) as u128
}

/// `v` lists the selected projects of `s` in the order `perm`, newest first.
pub open spec fn proj_listing(
    s: Seq<ProjectRecord>,
    ws: Option<Seq<char>>,
    v: Seq<Project>,
    perm: Seq<usize>,
) -> bool {
    let sel = drop_where(s, |r: ProjectRecord| !proj_selected(r, ws));
    &&& stably_sorted_num(sel.map_values(|r: ProjectRecord| proj_list_key(r)), perm)
    &&& v.len() == perm.len()
    &&& forall|t: int| 0 <= t < perm.len() ==> #[trigger] v[t] == sel[perm[t] as int].project
}

/// `v` lists the selected projects of `s`, newest first.
pub open spec fn proj_listed(s: Seq<ProjectRecord>, ws: Option<Seq<char>>, v: Seq<Project>) -> bool {
    exists|perm: Seq<usize>| #[trigger] proj_listing(s, ws, v, perm)
}

/// The session with id `sid` exists, belongs to project `pid` and is live.
pub open spec fn session_live_in_project(sessions: Seq<SessionRecord>, sid: Seq<char>, pid: Seq<char>) -> bool {
    match pos_of(sess_keys(sessions), sid) {
        Some(k) => sessions[k].session.project_id@ == pid && !sessions[k].deleted,
        None => false,
    }
}

/// The session with id `sid` exists and belongs to project `pid`.
pub open spec fn session_in_project(sessions: Seq<SessionRecord>, sid: Seq<char>, pid: Seq<char>) -> bool {
    match pos_of(sess_keys(sessions), sid) {
        Some(k) => sessions[k].session.project_id@ == pid,
        None => false,
    }
}

/// The sessions after archiving the live sessions of project `pid`.
pub open spec fn sessions_after_project_archive(s: Seq<SessionRecord>, pid: Seq<char>) -> Seq<SessionRecord> {
    s.map_values(
        |r: SessionRecord|
            if r.session.project_id@ == pid && !r.deleted {
                SessionRecord { deleted: true, ..r }
            } else {
                r
            },
    )
}

/// The surfaces after archiving the live sessions of project `pid`.
pub open spec fn surfaces_after_project_archive(
    surfaces: Seq<SurfaceRecord>,
    sessions: Seq<SessionRecord>,
    pid: Seq<char>,
) -> Seq<SurfaceRecord> {
    surfaces.map_values(
        |r: SurfaceRecord|
            if session_live_in_project(sessions, r.surface.session_id@, pid) {
                SurfaceRecord { deleted: true, ..r }
            } else {
                r
            },
    )
}

impl MemoryBackend {
    /// The live project with the given id.
    pub fn get_project(&self, id: &ProjectId) -> (r: Result<Option<Project>>)
        ensures
            r == Ok::<Option<Project>, OrchestratorError>(live_project(self@.projects, id@)),
    {
        match self.find_project(id.as_str()) {
            Some(i) => {
                if self.projects[i].deleted {
                    Ok(None)
                } else {
                    Ok(Some(self.projects[i].project.duplicate()))
                }
            },
            None => Ok(None),
        }
    }

    /// Create a project. Without a name, the name is inferred from the source
    /// (empty when none can be); without a workspace it goes to Default.
    pub fn create_project(&mut self, draft: NewProject) -> (r: Result<Project>)
        requires
            old(self)@.wf(),
        ensures
            final(self)@.wf(),
            match r {
                Ok(p) => {
                    &&& crate::entities::is_uuid_text(p.id@)
                    &&& p.name@ == match draft.name {
                        Some(n) => n@,
                        None => match inferred_project_name(
                            draft.source_kind,
                            match draft.root_path {
                                Some(x) => Some(x@),
                                None => None,
                            },
                        ) {
                            Some(x) => x,
                            None => Seq::empty(),
                        },
                    }
                    &&& p.source_kind == draft.source_kind
                    &&& p.root_path == draft.root_path
                    &&& p.workspace_id@ == match draft.workspace_id {
                        Some(w) => w@,
                        None => WorkspaceId::DEFAULT@,
                    }
                    &&& p.sort_order == 0
                    &&& !p.pinned
                    &&& p.status == ProjectStatus::Active
                    &&& final(self)@ == (StoreView {
                        projects: proj_upsert(
                            old(self)@.projects,
                            ProjectRecord {
                                project: p,
                                deleted: false,
                                created_seq: old(self)@.projects.len() as u64,
                            },
                        ),
                        ..old(self)@
                    })
                },
                Err(_) => false,
            },
            match r {
                Ok(p) => {
                    &&& match (draft.name, draft.root_path) {
                        (Some(n), _) => p.name@ == n@,
                        (None, Some(root)) => (draft.source_kind == SourceKind::LocalDir || draft.source_kind
                            == SourceKind::GitRepo) ==> p.name@ == match crate::paths::spec_path_file_name(root@) {
                            Some(last) => last,
                            None => Seq::<char>::empty(),
                        },
                        (None, None) => p.name@ == Seq::<char>::empty(),
                    }
                    &&& draft.name is None && draft.source_kind == SourceKind::Blank ==> p.name@
                        == Seq::<char>::empty()
                },
                Err(_) => false,
            },
    {
        let seq = self.projects.len() as u64;
        let id = ProjectId::new(crate::entities::new_uuid_string().as_str());
        let name = match draft.name {
            Some(n) => n,
            None => {
                let inferred = match draft.source_kind {
                    SourceKind::Blank => None,
                    _ => match &draft.root_path {
                        Some(root) => crate::paths::path_file_name(root.as_str()),
                        None => None,
                    },
                };
                match inferred {
                    Some(n) => n,
                    None => String::new(),
                }
            },
        };
        let workspace_id = match draft.workspace_id {
            Some(w) => w,
            None => WorkspaceId::default_id(),
        };
        let project = Project {
            id,
            name,
            source_kind: draft.source_kind,
            root_path: draft.root_path,
            workspace_id,
            sort_order: 0,
            pinned: false,
            status: ProjectStatus::Active,
        };
        let out = project.duplicate();
        let rec = ProjectRecord { project, deleted: false, created_seq: seq };
        let ghost old_projects = self.projects@;
        match self.find_project(rec.project.id.as_str()) {
            Some(k) => {
                self.projects.set(k, rec);
                proof {
                    lemma_pos_of(proj_keys(old_projects), out.id@);
                    assert(proj_keys(self.projects@) =~= proj_keys(old_projects));
                }
            },
            None => {
                self.projects.push(rec);
                proof {
                    assert(proj_keys(self.projects@) =~= proj_keys(old_projects).push(out.id@));
                    lemma_unique_push(proj_keys(old_projects), out.id@);
                }
            },
        }
        Ok(out)
    }

    /// Rename a live project other than Unfiled (the name is stored as given).
    pub fn rename_project(&mut self, id: &ProjectId, name: &str) -> (r: Result<()>)
        requires
            old(self)@.wf(),
        ensures
            final(self)@.wf(),
            id@ == ProjectId::UNFILED@ ==> r == Err::<(), OrchestratorError>(
                OrchestratorError::ProjectIsUnfiled,
            ) && final(self)@ == old(self)@,
            id@ != ProjectId::UNFILED@ ==> match live_project(old(self)@.projects, id@) {
                Some(p) => {
                    let i = pos_of(proj_keys(old(self)@.projects), id@)->0;
                    &&& r is Ok
                    &&& final(self)@.projects[i].project.name@ == name@
                    &&& final(self)@ == (StoreView {
                        projects: old(self)@.projects.update(
                            i,
                            ProjectRecord {
                                project: Project {
                                    name: final(self)@.projects[i].project.name,
                                    ..p
                                },
                                ..old(self)@.projects[i]
                            },
                        ),
                        ..old(self)@
                    })
                },
                None => final(self)@ == old(self)@ && (r matches Err(
                    OrchestratorError::ProjectNotFound(s),
                ) && s@ == id@),
            },
    {
        if id.is_unfiled() {
            return Err(OrchestratorError::ProjectIsUnfiled);
        }
        match self.find_project(id.as_str()) {
            Some(i) => {
                if self.projects[i].deleted {
                    return Err(OrchestratorError::ProjectNotFound(id.as_str().to_owned()));
                }
                let ghost old_projects = self.projects@;
                let old_rec = &self.projects[i];
                let rec = ProjectRecord {
                    project: Project { name: name.to_owned(), ..old_rec.project.duplicate() },
                    deleted: old_rec.deleted,
                    created_seq: old_rec.created_seq,
                };
                self.projects.set(i, rec);
                proof {
                    lemma_pos_of(proj_keys(old_projects), id@);
                    assert(proj_keys(self.projects@) =~= proj_keys(old_projects));
                }
                Ok(())
            },
            None => Err(OrchestratorError::ProjectNotFound(id.as_str().to_owned())),
        }
    }

    /// Live projects, of one workspace when given, newest first.
    pub fn list_projects(&self, workspace_id: Option<&WorkspaceId>) -> (r: Result<Vec<Project>>)
        ensures
            r is Ok,
            r matches Ok(v) ==> proj_listed(
                self@.projects,
                match workspace_id {
                    Some(w) => Some(w@),
                    None => None,
                },
                v@,
            ),
            self@.wf() ==> match r {
                Ok(v) => forall|t: int|
                    0 <= t < v@.len() ==> live_project(self@.projects, (#[trigger] v@[t]).id@) == Some(v@[t])
                        && match workspace_id {
                        Some(w) => v@[t].workspace_id@ == w@,
                        None => true,
                    },
                Err(_) => true,
            },
    {
        let ghost ws = match workspace_id {
            Some(w) => Some(w@),
            None => None,
        };
        let ghost notsel = |r: ProjectRecord| !proj_selected(r, ws);
        let ghost s = self.projects@;
        let mut keys: Vec<u128> = Vec::new();
        let mut items: Vec<Project> = Vec::new();
        let mut i: usize = 0;
        while i < self.projects.len()
            invariant
                s == self.projects@,
                ws == match workspace_id {
                    Some(w) => Some(w@),
                    None => None,
                },
                notsel == (|r: ProjectRecord| !proj_selected(r, ws)),
                i <= s.len(),
                keys@ == drop_where(s.take(i as int), notsel).map_values(
                    |r: ProjectRecord| proj_list_key(r),
                ),
                items@ == drop_where(s.take(i as int), notsel).map_values(|r: ProjectRecord| r.project),
            decreases s.len() - i,
        {
            let rec = &self.projects[i];
            let selected = !rec.deleted && match workspace_id {
                Some(w) => rec.project.workspace_id.same(w),
                None => true,
            };
            proof {
                assert(s.take(i + 1).drop_last() =~= s.take(i as int));
                assert(s.take(i + 1).last() == s[i as int]);
            }
            if selected {
                keys.push((0xFFFF_FFFF_FFFF_FFFFu64 - rec.created_seq) as u128);
                items.push(rec.project.duplicate());
                proof {
                    assert(keys@ =~= drop_where(s.take(i + 1), notsel).map_values(
                        |r: ProjectRecord| proj_list_key(r),
                    ));
                    assert(items@ =~= drop_where(s.take(i + 1), notsel).map_values(
                        |r: ProjectRecord| r.project,
                    ));
                }
            }
            i = i + 1;
        }
        proof {
            assert(s.take(i as int) =~= s);
        }
        let perm = sort_positions_num(&keys);
        let mut out: Vec<Project> = Vec::new();
        let mut q: usize = 0;
        while q < perm.len()
            invariant
                stably_sorted_num(keys@, perm@),
                items@.len() == keys@.len(),
                q <= perm@.len(),
                out@.len() == q,
                forall|t: int| 0 <= t < q ==> #[trigger] out@[t] == items@[perm@[t] as int],
            decreases perm.len() - q,
        {
            out.push(items[perm[q]].duplicate());
            q = q + 1;
        }
        assert(proj_listing(s, ws, out@, perm@));
        proof {
            if self@.wf() {
                properties::law_listed_projects_are_live(s, ws, out@);
            }
        }
        Ok(out)
    }

    /// Reorder a project. The in-memory store keeps no project order, so this
    /// only checks that the project exists.
    pub fn reorder_project(&self, id: &ProjectId, sort_order: u32) -> (r: Result<()>)
        ensures
            pos_of(proj_keys(self@.projects), id@) is Some ==> r is Ok,
            pos_of(proj_keys(self@.projects), id@) is None ==> (r matches Err(
                OrchestratorError::ProjectNotFound(s),
            ) && s@ == id@),
    {
        match self.find_project(id.as_str()) {
            Some(_) => Ok(()),
            None => Err(OrchestratorError::ProjectNotFound(id.as_str().to_owned())),
        }
    }

    /// Move a live project to an existing workspace.
    pub fn move_project(&mut self, project_id: &ProjectId, workspace_id: &WorkspaceId) -> (r: Result<()>)
        requires
            old(self)@.wf(),
        ensures
            final(self)@.wf(),
            pos_of(ws_keys(old(self)@.workspaces), workspace_id@) is None ==> final(self)@ == old(self)@
                && (r matches Err(OrchestratorError::WorkspaceNotFound(s)) && s@ == workspace_id@),
            pos_of(ws_keys(old(self)@.workspaces), workspace_id@) is Some ==> match live_project(
                old(self)@.projects,
                project_id@,
            ) {
                Some(p) => {
                    let i = pos_of(proj_keys(old(self)@.projects), project_id@)->0;
                    &&& r is Ok
                    &&& final(self)@.projects[i].project.workspace_id == *workspace_id
                    &&& final(self)@ == (StoreView {
                        projects: old(self)@.projects.update(
                            i,
                            ProjectRecord {
                                project: Project { workspace_id: *workspace_id, ..p },
                                ..old(self)@.projects[i]
                            },
                        ),
                        ..old(self)@
                    })
                },
                None => final(self)@ == old(self)@ && (r matches Err(
                    OrchestratorError::ProjectNotFound(s),
                ) && s@ == project_id@),
            },
    {
        if self.find_workspace(workspace_id.as_str()).is_none() {
            return Err(OrchestratorError::WorkspaceNotFound(workspace_id.as_str().to_owned()));
        }
        match self.find_project(project_id.as_str()) {
            Some(i) => {
                if self.projects[i].deleted {
                    return Err(OrchestratorError::ProjectNotFound(project_id.as_str().to_owned()));
                }
                let ghost old_projects = self.projects@;
                let old_rec = &self.projects[i];
                let rec = ProjectRecord {
                    project: Project { workspace_id: workspace_id.duplicate(), ..old_rec.project.duplicate() },
                    deleted: old_rec.deleted,
                    created_seq: old_rec.created_seq,
                };
                self.projects.set(i, rec);
                proof {
                    lemma_pos_of(proj_keys(old_projects), project_id@);
                    assert(proj_keys(self.projects@) =~= proj_keys(old_projects));
                }
                Ok(())
            },
            None => Err(OrchestratorError::ProjectNotFound(project_id.as_str().to_owned())),
        }
    }
}

impl Default for MemoryBackend {
    fn default() -> (r: Self)
        ensures
            is_fresh_store(r@),
    {
        MemoryBackend::new()
    }
}

} // verus!
