//! What the sqlite repositories compute around their queries: the pages a
//! listing returns (with the continuation it offers), and the entities their
//! rows decode to. Running the queries is left to the application.

use vstd::prelude::*;

use crate::entities::command::{command_origin_name, env_keys, same_command};
use crate::entities::project::source_kind_name;
use crate::entities::session::title_source_name;
use crate::entities::surface::{surface_kind_name, surface_status_name};
use crate::entities::{
    Command, CommandId, CommandOrigin, LaunchTemplate, LaunchTemplateId, Project, ProjectId,
    ProjectStatus, Session, SessionId, SessionStatus, SourceKind, Surface, SurfaceId, SurfaceKind,
    SurfaceStatus, TitleSource, Workspace, WorkspaceId, WorkspaceStatus,
};
use crate::tree::spec_source_kind_of;
use crate::memory::{lemma_pos_of, lemma_pos_of_unique, pos_of, unique};
use crate::json::{parse_string_list, parse_string_map, spec_json_string_list, spec_json_string_map};
use crate::sort::views;
use crate::text::{decimal, push_decimal, str_equal};

verus! {

/// How much of a listing to return.
#[derive(Debug, Clone, PartialEq, Eq)]
pub enum Page {
    /// Every row.
    All,
    /// At most `limit` rows after skipping `offset`.
    Offset { limit: u32, offset: u32 },
    /// At most `limit` rows after the row the cursor names.
    Cursor { after: Option<String>, limit: u32 },
}

impl Page {
    /// An offset page.
    pub fn offset(limit: u32, offset: u32) -> (p: Page)
        ensures
            p == (Page::Offset { limit, offset }),
    {
        Page::Offset { limit, offset }
    }

    /// A cursor page.
    pub fn cursor(after: Option<String>, limit: u32) -> (p: Page)
        ensures
            p == (Page::Cursor { after, limit }),
    {
        Page::Cursor { after, limit }
    }
}

/// One page of a listing and the continuation to ask for the next one.
#[derive(Debug, Clone)]
pub struct Listing<T> {
    pub items: Vec<T>,
    pub next: Option<String>,
}

impl<T> Listing<T> {
    /// A page and its continuation.
    pub fn new(items: Vec<T>, next: Option<String>) -> (l: Self)
        ensures
            l.items@ == items@,
            l.next == next,
    {
        Listing { items, next }
    }

    /// Whether a further page exists.
    pub fn has_next(&self) -> (b: bool)
        ensures
            b == self.next is Some,
    {
        self.next.is_some()
    }
}

/// The first `limit` of `rows` (all of them when there are fewer).
pub open spec fn first_rows<T>(rows: Seq<T>, limit: nat) -> Seq<T> {
    if rows.len() <= limit {
        rows
    } else {
        rows.take(limit as int)
    }
}

/// The page an offset listing returns from `rows` (fetched one past `limit`):
/// the first `limit` rows; when more were fetched, the continuation is the
/// offset of the next page in decimal.
pub fn finish_offset_page<T>(rows: Vec<T>, limit: u32, offset: u32) -> (l: Listing<T>)
    ensures
        l.items@ == first_rows(rows@, limit as nat),
        rows@.len() > limit ==> (l.next matches Some(n) && n@ == decimal((offset + limit) as nat)),
        rows@.len() <= limit ==> l.next is None,
{
    let has_next = rows.len() > limit as usize;
    let mut items = rows;
    items.truncate(limit as usize);
    let next = if has_next {
        let mut n = String::new();
        push_decimal(&mut n, offset as u64 + limit as u64);
        proof {
            assert(n@ =~= decimal((offset + limit) as nat));
        }
        Some(n)
    } else {
        None
    };
    Listing::new(items, next)
}

/// The page a keyset listing returns from `rows` (fetched one past `limit`),
/// where `keys[i]` is the cursor key of `rows[i]`: the first `limit` rows; when
/// more were fetched, the continuation is the key of the last returned row.
pub fn finish_keyset_page<T>(rows: Vec<T>, keys: &Vec<String>, limit: u32) -> (l: Listing<T>)
    requires
        keys@.len() == rows@.len(),
    ensures
        l.items@ == first_rows(rows@, limit as nat),
        rows@.len() > limit && limit > 0 ==> l.next == Some(keys@[limit - 1]),
        rows@.len() <= limit || limit == 0 ==> l.next is None,
{
    let has_next = rows.len() > limit as usize;
    let mut items = rows;
    items.truncate(limit as usize);
    let next = if has_next && limit > 0 {
        Some(keys[(limit - 1) as usize].clone())
    } else {
        None
    };
    Listing::new(items, next)
}

/// Where a keyset page starts in a listing whose rows have the cursor keys
/// `keys` (in listing order): at the first row when there is no cursor, else
/// right after the row whose key the cursor names.
pub open spec fn keyset_start(keys: Seq<Seq<char>>, after: Option<Seq<char>>) -> int {
    match after {
        None => 0,
        Some(a) => pos_of(keys, a)->0 + 1,
    }
}

/// The rows a keyset page fetches from a listing: those from `start` on, at
/// most `limit + 1` of them.
pub open spec fn keyset_window<T>(rows: Seq<T>, start: int, limit: nat) -> Seq<T> {
    rows.subrange(start, if start + limit + 1 < rows.len() { start + limit + 1 } else { rows.len() as int })
}

/// Paging by the continuation of a keyset page visits every row once: with
/// unique cursor keys, the page after a full page starts right after its last
/// row, and a page holds the rows from its start, at most `limit` of them.
pub proof fn law_keyset_pages_follow_on(keys: Seq<Seq<char>>, after: Option<Seq<char>>, limit: nat)
    requires
        unique(keys),
        after matches Some(a) ==> pos_of(keys, a) is Some,
        limit >= 1,
        keyset_start(keys, after) + limit < keys.len(),
    ensures
        ({
            let k = keyset_start(keys, after);
            let w = keyset_window(keys, k, limit);
            &&& w.len() > limit
            &&& first_rows(w, limit) == keys.subrange(k, k + limit)
            &&& keyset_start(keys, Some(w[limit - 1])) == k + limit
        }),
{
    let k = keyset_start(keys, after);
    match after {
        Some(a) => {
            lemma_pos_of(keys, a);
        },
        None => {},
    }
    let w = keyset_window(keys, k, limit);
    assert(w[limit - 1] == keys[k + limit - 1]);
    lemma_pos_of_unique(keys, keys[k + limit - 1], k + limit - 1);
    assert(first_rows(w, limit) =~= keys.subrange(k, k + limit));
}

/// A session row as the `session` table stores it.
#[derive(Debug, Clone)]
pub struct SessionRow {
    pub id: String,
    pub project_id: String,
    pub title: String,
    pub title_source: String,
    pub spec_version: Option<i64>,
    pub spec_json: Option<String>,
    pub sort_order: i64,
    pub pinned: i64,
    pub archived_at: Option<String>,
    pub created_at: String,
}

/// The workspace a `workspace` row decodes to; `archived` tells whether an
/// archive time is stored.
pub fn workspace_from_row(id: &str, name: String, sort_order: u32, pinned: bool, archived: bool) -> (w: Workspace)
    ensures
        w.id@ == id@,
        w.name == name,
        w.sort_order == sort_order,
        w.pinned == pinned,
        w.status == if archived {
            WorkspaceStatus::Archived
        } else {
            WorkspaceStatus::Active
        },
{
    Workspace {
        id: WorkspaceId::new(id),
        name,
        sort_order,
        pinned,
        status: if archived {
            WorkspaceStatus::Archived
        } else {
            WorkspaceStatus::Active
        },
    }
}

/// The project a `project` row decodes to; `None` when the stored source kind
/// is not one the entity knows. `archived` tells whether an archive time is
/// stored.
pub fn project_from_row(
    id: &str,
    workspace_id: &str,
    name: String,
    source_kind: &str,
    root_path: Option<String>,
    sort_order: u32,
    pinned: bool,
    archived: bool,
) -> (r: Option<Project>)
    ensures
        match spec_source_kind_of(source_kind@) {
            Some(k) => r matches Some(p) && p.id@ == id@ && p.workspace_id@ == workspace_id@ && p.name == name
                && p.source_kind == k && p.root_path == root_path && p.sort_order == sort_order
                && p.pinned == pinned && p.status == if archived {
                ProjectStatus::Archived
            } else {
                ProjectStatus::Active
            },
            None => r is None,
        },
{
    let k = if str_equal(source_kind, "blank") {
        SourceKind::Blank
    } else if str_equal(source_kind, "local_dir") {
        SourceKind::LocalDir
    } else if str_equal(source_kind, "git_repo") {
        SourceKind::GitRepo
    } else {
        return None;
    };
    Some(
        Project {
            id: ProjectId::new(id),
            name,
            source_kind: k,
            root_path,
            workspace_id: WorkspaceId::new(workspace_id),
            sort_order,
            pinned,
            status: if archived {
                ProjectStatus::Archived
            } else {
                ProjectStatus::Active
            },
        },
    )
}

/// The surface kind a stored name denotes.
pub open spec fn spec_row_kind(s: Seq<char>) -> Option<SurfaceKind> {
    if s == "terminal"@ {
        Some(SurfaceKind::Terminal)
    } else if s == "diff"@ {
        Some(SurfaceKind::Diff)
    } else {
        None
    }
}

/// The surface status a stored name denotes.
pub open spec fn spec_row_status(s: Seq<char>) -> Option<SurfaceStatus> {
    if s == "pending"@ {
        Some(SurfaceStatus::Pending)
    } else if s == "live"@ {
        Some(SurfaceStatus::Live)
    } else if s == "failed"@ {
        Some(SurfaceStatus::Failed)
    } else if s == "idle"@ {
        Some(SurfaceStatus::Idle)
    } else {
        None
    }
}

/// The surface a `surface` row decodes to; `None` when the stored kind or
/// status is not one the entity knows.
pub fn surface_from_row(
    id: &str,
    session_id: &str,
    kind: &str,
    cwd: Option<String>,
    status: &str,
    placement: Option<String>,
) -> (r: Option<Surface>)
    ensures
        match (spec_row_kind(kind@), spec_row_status(status@)) {
            (Some(k), Some(st)) => r matches Some(s) && s.id@ == id@ && s.session_id@ == session_id@
                && s.kind == k && s.cwd == cwd && s.status == st && s.placement == placement
                && s.last_status is None,
            _ => r is None,
        },
{
    let k = if str_equal(kind, "terminal") {
        SurfaceKind::Terminal
    } else if str_equal(kind, "diff") {
        SurfaceKind::Diff
    } else {
        return None;
    };
    let st = if str_equal(status, "pending") {
        SurfaceStatus::Pending
    } else if str_equal(status, "live") {
        SurfaceStatus::Live
    } else if str_equal(status, "failed") {
        SurfaceStatus::Failed
    } else if str_equal(status, "idle") {
        SurfaceStatus::Idle
    } else {
        return None;
    };
    Some(Surface {
        id: SurfaceId::from_string(id),
        session_id: SessionId::from_string(session_id),
        kind: k,
        cwd,
        status: st,
        placement,
        last_status: None,
    })
}

/// The title source a stored name denotes; an unknown name reads as the
/// agent title.
pub open spec fn spec_row_title_source(s: Seq<char>) -> TitleSource {
    if s == "branch"@ {
        TitleSource::Branch
    } else if s == "both"@ {
        TitleSource::Both
    } else if s == "custom"@ {
        TitleSource::Custom
    } else {
        TitleSource::AgentTitle
    }
}

impl Session {
    /// The session a row decodes to: the stored title source (the agent title
    /// when unknown), archived exactly when an archive time is stored, and the
    /// integer columns truncated to their 32-bit fields.
    pub fn from_row(r: SessionRow) -> (s: Session)
        ensures
            s.id@ == r.id@,
            s.project_id@ == r.project_id@,
            s.title == r.title,
            s.title_source == spec_row_title_source(r.title_source@),
            s.created_at == r.created_at,
            s.spec_version == match r.spec_version {
                Some(v) => Some(v as u32),
                None => None::<u32>,
            },
            s.spec_json == r.spec_json,
            s.sort_order == r.sort_order as u32,
            s.pinned == (r.pinned != 0),
            s.status == if r.archived_at is Some {
                SessionStatus::Archived
            } else {
                SessionStatus::Active
            },
            forall|t: TitleSource| r.title_source@ == #[trigger] title_source_name(t) ==> s.title_source == t,
    {
        proof {
            assert forall|t: TitleSource| r.title_source@ == #[trigger] title_source_name(t) implies spec_row_title_source(
                r.title_source@,
            ) == t by {
                law_row_title_source_round_trip(t);
            }
        }
        let title_source = if str_equal(r.title_source.as_str(), "branch") {
            TitleSource::Branch
        } else if str_equal(r.title_source.as_str(), "both") {
            TitleSource::Both
        } else if str_equal(r.title_source.as_str(), "custom") {
            TitleSource::Custom
        } else {
            TitleSource::AgentTitle
        };
        let status = if r.archived_at.is_some() {
            SessionStatus::Archived
        } else {
            SessionStatus::Active
        };
        Session {
            id: SessionId::from_string(r.id.as_str()),
            project_id: ProjectId::new(r.project_id.as_str()),
            title: r.title,
            title_source,
            created_at: r.created_at,
            spec_version: match r.spec_version {
                Some(v) => Some(v as u32),
                None => None,
            },
            spec_json: r.spec_json,
            sort_order: r.sort_order as u32,
            pinned: r.pinned != 0,
            status,
        }
    }
}

/// The origin a stored name denotes: custom, else prebuilt.
pub open spec fn spec_row_origin(s: Seq<char>) -> CommandOrigin {
    if s == "custom"@ {
        CommandOrigin::Custom
    } else {
        CommandOrigin::Prebuilt
    }
}

/// The arguments a stored JSON list decodes to (none when absent or not a
/// list of strings).
pub open spec fn spec_row_args(args_json: Option<Seq<char>>) -> Seq<Seq<char>> {
    match args_json {
        Some(j) => match spec_json_string_list(j) {
            Some(v) => v,
            None => Seq::empty(),
        },
        None => Seq::empty(),
    }
}

/// The environment a stored JSON object decodes to (none when absent or not
/// an object of strings).
pub open spec fn spec_row_env(env_json: Option<Seq<char>>) -> Seq<(Seq<char>, Seq<char>)> {
    match env_json {
        Some(j) => match spec_json_string_map(j) {
            Some(v) => v,
            None => Seq::empty(),
        },
        None => Seq::empty(),
    }
}

/// The key/value text of a list of string pairs.
pub open spec fn pair_views(v: Seq<(String, String)>) -> Seq<(Seq<char>, Seq<char>)> {
    v.map_values(|p: (String, String)| (p.0@, p.1@))
}

/// The optional text of an optional string.
pub open spec fn opt_view(o: Option<String>) -> Option<Seq<char>> {
    match o {
        Some(s) => Some(s@),
        None => None,
    }
}

/// The command a `command` row decodes to, given what its JSON columns
/// decoded to (`None` for a column that is absent or did not decode): an
/// origin other than `custom` reads as prebuilt, and a missing list or map
/// reads as empty.
pub fn command_from_decoded(
    id: String,
    name: String,
    origin: &str,
    cli: String,
    args: Option<Vec<String>>,
    env: Option<Vec<(String, String)>>,
) -> (c: Command)
    ensures
        c.id@ == id@,
        c.name == name,
        c.origin == spec_row_origin(origin@),
        c.cli == cli,
        c.args@ == match args {
            Some(v) => v@,
            None => Seq::<String>::empty(),
        },
        c.env@ == match env {
            Some(v) => v@,
            None => Seq::<(String, String)>::empty(),
        },
        !c.pinned,
{
    let origin = if str_equal(origin, "custom") {
        CommandOrigin::Custom
    } else {
        CommandOrigin::Prebuilt
    };
    let args: Vec<String> = match args {
        Some(v) => v,
        None => Vec::new(),
    };
    let env: Vec<(String, String)> = match env {
        Some(v) => v,
        None => Vec::new(),
    };
    Command { id: CommandId::from_string(id.as_str()), name, origin, cli, args, env, pinned: false }
}

/// The command a `command` row decodes to: its JSON columns decoded through
/// `serde_json`, then [`command_from_decoded`].
pub fn command_from_row(
    id: String,
    name: String,
    origin: &str,
    cli: String,
    args_json: Option<String>,
    env_json: Option<String>,
) -> (c: Command)
    ensures
        c.id@ == id@,
        c.name == name,
        c.origin == spec_row_origin(origin@),
        c.cli == cli,
        views(c.args@) == spec_row_args(opt_view(args_json)),
        pair_views(c.env@) == spec_row_env(opt_view(env_json)),
        !c.pinned,
        c.wf(),
{
    let args = match &args_json {
        Some(j) => parse_string_list(j.as_str()),
        None => None,
    };
    let env = match &env_json {
        Some(j) => parse_string_map(j.as_str()),
        None => None,
    };
    proof {
        assert(views(Seq::<String>::empty()) =~= Seq::<Seq<char>>::empty());
        assert(pair_views(Seq::<(String, String)>::empty()) =~= Seq::<(Seq<char>, Seq<char>)>::empty());
    }
    let c = command_from_decoded(id, name, origin, cli, args, env);
    proof {
        assert forall|i: int, j: int| 0 <= i < j < c.env@.len() implies #[trigger] env_keys(c.env@)[i]
            != #[trigger] env_keys(c.env@)[j] by {
            assert(env_keys(c.env@)[i] == c.env@[i].0@);
            assert(env_keys(c.env@)[j] == c.env@[j].0@);
        }
    }
    c
}

/// The launch template a `launch_template` row decodes to.
pub fn launch_template_from_row(id: &str, project_id: &str, spec_version: u32, spec_json: String) -> (t:
    LaunchTemplate)
    ensures
        t.id@ == id@,
        t.project_id@ == project_id@,
        t.spec_version == spec_version,
        t.spec_json == spec_json,
{
    LaunchTemplate {
        id: LaunchTemplateId::from_string(id),
        project_id: ProjectId::new(project_id),
        spec_version,
        spec_json,
    }
}

/// Decoding a session row's title source undoes its stored name: the row whose
/// column holds the stored name of `t` decodes to `t`, for every title source.
pub proof fn law_row_title_source_round_trip(t: TitleSource)
    ensures
        spec_row_title_source(title_source_name(t)) == t,
{
    reveal_strlit("agent-title");
    reveal_strlit("branch");
    reveal_strlit("both");
    reveal_strlit("custom");
    assert("agent-title"@.len() == 11 && "branch"@.len() == 6 && "both"@.len() == 4 && "custom"@.len() == 6);
    assert("custom"@[0] != "branch"@[0]);
}

/// A session decoded from a row whose title-source column holds the stored
/// name of `t` has title source `t`; it is archived exactly when the row
/// records an archive time.
pub proof fn law_session_row_decodes_stored_names(r: SessionRow, s: Session, t: TitleSource)
    requires
        r.title_source@ == title_source_name(t),
        s.title_source == spec_row_title_source(r.title_source@),
        s.status == if r.archived_at is Some {
            SessionStatus::Archived
        } else {
            SessionStatus::Active
        },
    ensures
        s.title_source == t,
        (s.status == SessionStatus::Archived) <==> r.archived_at is Some,
{
    law_row_title_source_round_trip(t);
}

/// Decoding a command row's origin undoes its stored name.
pub proof fn law_row_origin_round_trip(o: CommandOrigin)
    ensures
        spec_row_origin(command_origin_name(o)) == o,
{
    reveal_strlit("custom");
    reveal_strlit("prebuilt");
    assert("prebuilt"@.len() != "custom"@.len());
}

/// Decoding a surface row's kind and status undoes their stored names.
pub proof fn law_row_surface_round_trip(k: SurfaceKind, st: SurfaceStatus)
    ensures
        spec_row_kind(surface_kind_name(k)) == Some(k),
        spec_row_status(surface_status_name(st)) == Some(st),
{
    reveal_strlit("terminal");
    reveal_strlit("diff");
    reveal_strlit("pending");
    reveal_strlit("live");
    reveal_strlit("failed");
    reveal_strlit("idle");
    assert("terminal"@.len() == 8 && "diff"@.len() == 4);
    assert("pending"@.len() == 7 && "live"@.len() == 4 && "failed"@.len() == 6 && "idle"@.len() == 4);
    assert("idle"@[0] != "live"@[0]);
}

/// Decoding a project row's source kind undoes its stored name.
pub proof fn law_row_source_kind_round_trip(k: SourceKind)
    ensures
        spec_source_kind_of(source_kind_name(k)) == Some(k),
{
    reveal_strlit("blank");
    reveal_strlit("local_dir");
    reveal_strlit("git_repo");
    assert("blank"@.len() == 5 && "local_dir"@.len() == 9 && "git_repo"@.len() == 8);
}

} // verus!
