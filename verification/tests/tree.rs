use orchestrator::entities::{
    NewProject, NewSession, NewWorkspace, ProjectId, SessionId, SourceKind, SurfaceId,
    SurfaceKind, TitleSource, WorkspaceId,
};
use orchestrator::error::OrchestratorError;
use orchestrator::tree::{
    attach_binding, binding_for_placement, binding_surface, binds_live, check_placement,
    check_workspace_delete, days_to_ymd, format_iso8601, is_archived, is_leap, new_binding,
    next_sort_order, now_iso8601, plan_project, plan_relocation, plan_session, plan_workspace,
    record_binding_status, renamed_slug, slugify, soft_delete_binding, source_kind_from_str,
    source_kind_str, surface_kind_from_str, title_source_from_str, unbind, unique_slug_among,
    TreeState, FileCache, FileStamp, is_live_name, listing_order, check_attach, check_project_archive,
    check_project_hard_delete, check_session_archive, check_session_hard_delete, kept_panel_tree,
};

fn names(v: &[&str]) -> Vec<String> {
    v.iter().map(|s| s.to_string()).collect()
}

#[test]
fn slugify_lowercases_and_collapses() {
    assert_eq!(slugify("My Workspace", "id"), "my-workspace");
    assert_eq!(slugify("  --Hello,,  World!!  ", "id"), "hello-world");
    assert_eq!(slugify("a_b", "id"), "a-b");
}

#[test]
fn slugify_falls_back_to_the_id_prefix() {
    assert_eq!(slugify("!!!", "0123456789abcdef"), "01234567");
    assert_eq!(slugify("", "abc"), "abc");
}

#[test]
fn unique_slug_suffixes_collisions() {
    assert_eq!(unique_slug_among(&names(&[]), "proj"), "proj");
    assert_eq!(unique_slug_among(&names(&["proj"]), "proj"), "proj-2");
    assert_eq!(unique_slug_among(&names(&["proj", "proj-2", "proj-3"]), "proj"), "proj-4");
    assert_eq!(unique_slug_among(&names(&["proj-2"]), "proj"), "proj");
}

#[test]
fn relocation_names_do_not_collide() {
    let out = plan_relocation(&names(&["a", "b"]), &names(&["a", "a-2"]));
    assert_eq!(out, names(&["a-3", "b"]));
    let out = plan_relocation(&names(&["x", "x"]), &names(&[]));
    assert_eq!(out, names(&["x", "x-2"]));
}

#[test]
fn leap_years_follow_the_gregorian_rule() {
    assert!(is_leap(2000));
    assert!(is_leap(2024));
    assert!(!is_leap(1900));
    assert!(!is_leap(2023));
}

#[test]
fn days_map_to_calendar_dates() {
    assert_eq!(days_to_ymd(0), (1970, 1, 1));
    assert_eq!(days_to_ymd(31), (1970, 2, 1));
    assert_eq!(days_to_ymd(365), (1971, 1, 1));
    assert_eq!(days_to_ymd(789), (1972, 2, 29));
    assert_eq!(days_to_ymd(19723), (2024, 1, 1));
}

#[test]
fn iso8601_stamps_are_formatted() {
    assert_eq!(format_iso8601(0), "1970-01-01T00:00:00Z");
    assert_eq!(format_iso8601(1_700_000_000), "2023-11-14T22:13:20Z");
    let now = now_iso8601();
    assert_eq!(now.len(), 20);
    assert!(now.ends_with('Z'));
}

#[test]
fn archive_components_are_detected() {
    assert!(is_archived("/data/workspaces/w/projects/.archive/p"));
    assert!(is_archived(".archive"));
    assert!(!is_archived("/data/workspaces/w/projects/p"));
    assert!(!is_archived("/data/x.archive/p"));
    assert!(!is_archived("/data/.archived/p"));
}

#[test]
fn stored_kind_names_round_trip() {
    for k in [SourceKind::Blank, SourceKind::LocalDir, SourceKind::GitRepo] {
        assert_eq!(source_kind_from_str(source_kind_str(k)).unwrap(), k);
    }
    assert_eq!(
        source_kind_from_str("svn").unwrap_err(),
        OrchestratorError::Persistence("unknown source_kind: svn".to_string())
    );
    assert_eq!(title_source_from_str("agent-title").unwrap(), TitleSource::AgentTitle);
    assert_eq!(
        title_source_from_str("x").unwrap_err(),
        OrchestratorError::Persistence("unknown title_source: x".to_string())
    );
    assert_eq!(surface_kind_from_str("diff").unwrap(), SurfaceKind::Diff);
    assert_eq!(
        surface_kind_from_str("web").unwrap_err(),
        OrchestratorError::UnsupportedSurfaceKind("web".to_string())
    );
}

#[test]
fn next_sort_order_follows_the_largest() {
    assert_eq!(next_sort_order(&vec![]), 0);
    assert_eq!(next_sort_order(&vec![None]), 1);
    assert_eq!(next_sort_order(&vec![Some(3), None, Some(7)]), 8);
}

#[test]
fn tree_index_records_and_forgets() {
    let mut t = TreeState::new();
    t.insert("a", "/x/a");
    t.insert("a", "/y/a");
    assert_eq!(t.get("a").map(String::as_str), Some("/y/a"));
    t.remove("a");
    assert!(t.get("a").is_none());
}

#[test]
fn bindings_enforce_placement_and_track_status() {
    let s1 = SurfaceId::from_string("s1");
    let s2 = SurfaceId::from_string("s2");
    let mut b = vec![new_binding(&s1, SurfaceKind::Terminal, Some("main".to_string()), None)];
    assert_eq!(b[0].kind, "terminal");
    assert_eq!(
        check_placement(&b, Some("main"), &s2).unwrap_err(),
        OrchestratorError::SurfaceConflict("s2".to_string())
    );
    assert!(check_placement(&b, Some("side"), &s2).is_ok());
    assert_eq!(binding_for_placement(&b, "main"), Some(0));
    assert!(record_binding_status(&mut b, "s1", "live"));
    assert_eq!(b[0].last_status.as_deref(), Some("live"));
    let sess = SessionId::from_string("sess");
    let surface = binding_surface(&b[0], &sess).unwrap();
    assert_eq!(surface.id, s1);
    assert_eq!(surface.session_id, sess);
    assert!(soft_delete_binding(&mut b, "s1"));
    assert!(!soft_delete_binding(&mut b, "s1"));
    assert!(!binds_live(&b, "s1"));
    assert!(check_placement(&b, Some("main"), &s2).is_ok());
    attach_binding(&mut b, &s2);
    assert!(binds_live(&b, "s2"));
    let n = b.len();
    attach_binding(&mut b, &s2);
    assert_eq!(b.len(), n);
    unbind(&mut b, "s2");
    assert!(!binds_live(&b, "s2"));
}

#[test]
fn planned_entries_get_orders_and_free_slugs() {
    let (ws, slug) = plan_workspace(
        NewWorkspace { name: "Team Space".to_string() },
        &vec![Some(0), Some(4)],
        &names(&["default", "team-space"]),
    );
    assert_eq!(ws.sort_order, 5);
    assert_eq!(slug, "team-space-2");

    let (p, pslug) = plan_project(
        NewProject {
            name: None,
            source_kind: SourceKind::GitRepo,
            root_path: Some("/src/repo".to_string()),
            workspace_id: None,
        },
        &vec![],
        &names(&[]),
    );
    assert_eq!(p.name, "repo");
    assert_eq!(p.workspace_id, WorkspaceId::default_id());
    assert_eq!(p.sort_order, 0);
    assert_eq!(pslug, "repo");

    let (unnamed, _) = plan_project(
        NewProject { name: None, source_kind: SourceKind::Blank, root_path: None, workspace_id: None },
        &vec![],
        &names(&[]),
    );
    assert_eq!(unnamed.name, "Unnamed Project");

    let (s, sslug) = plan_session(
        NewSession::default(),
        None,
        &vec![Some(2)],
        &names(&["untitled"]),
        "2024-01-01T00:00:00Z".to_string(),
    );
    assert_eq!(s.title, "Untitled");
    assert_eq!(s.project_id, ProjectId::unfiled());
    assert_eq!(s.sort_order, 3);
    assert_eq!(sslug, "untitled-2");
}

#[test]
fn renaming_moves_only_when_the_slug_changes() {
    assert_eq!(renamed_slug("alpha", "Alpha", "id", &names(&["alpha"])), None);
    assert_eq!(
        renamed_slug("alpha", "Beta", "id", &names(&["alpha", "beta"])),
        Some("beta-2".to_string())
    );
}

#[test]
fn workspace_delete_checks_come_in_order() {
    assert_eq!(
        check_workspace_delete(&WorkspaceId::default_id(), true, true).unwrap_err(),
        OrchestratorError::WorkspaceIsDefault
    );
    let w = WorkspaceId::new("w");
    assert_eq!(
        check_workspace_delete(&w, false, true).unwrap_err(),
        OrchestratorError::WorkspaceNotFound("w".to_string())
    );
    assert_eq!(
        check_workspace_delete(&w, true, false).unwrap_err(),
        OrchestratorError::WorkspaceNotFound(WorkspaceId::DEFAULT.to_string())
    );
    assert!(check_workspace_delete(&w, true, true).is_ok());
}

#[test]
fn cache_reuses_only_unchanged_files() {
    let mut c = FileCache::new();
    let t1 = FileStamp { secs: 10, nanos: 0 };
    let t2 = FileStamp { secs: 10, nanos: 5 };
    assert!(c.lookup("/a/session.json", t1).is_none());
    c.store("/a/session.json", t1, "{\"v\":1}");
    assert_eq!(c.lookup("/a/session.json", t1).map(String::as_str), Some("{\"v\":1}"));
    assert!(c.lookup("/a/session.json", t2).is_none());
    c.store("/a/session.json", t2, "{\"v\":2}");
    assert_eq!(c.lookup("/a/session.json", t2).map(String::as_str), Some("{\"v\":2}"));
    c.invalidate("/a/session.json");
    assert!(c.lookup("/a/session.json", t2).is_none());
}

#[test]
fn listings_skip_dot_entries_and_sort_by_order() {
    assert!(is_live_name("proj"));
    assert!(!is_live_name(".archive"));
    assert_eq!(listing_order(&vec![Some(2), None, Some(0), Some(2)]), vec![2, 0, 3, 1]);
}

#[test]
fn ascii_slugs_are_lowercase_alphanumeric_runs_and_stable() {
    assert_eq!(slugify("foo", "fallback-id"), "foo");
    assert_eq!(slugify("Hello, World! 42", "x"), "hello-world-42");
    let once = slugify("--My  Big__Project--", "x");
    assert_eq!(once, "my-big-project");
    assert_eq!(slugify(&once, "x"), once);
    assert!(once.chars().all(|c| c.is_ascii_lowercase() || c.is_ascii_digit() || c == '-'));
    assert_eq!(slugify("!!!", "abcdef0123"), "abcdef01");
}

#[test]
fn the_day_after_is_the_next_calendar_day() {
    assert_eq!(days_to_ymd(58), (1970, 2, 28));
    assert_eq!(days_to_ymd(59), (1970, 3, 1));
    assert_eq!(days_to_ymd(364), (1970, 12, 31));
    assert_eq!(days_to_ymd(365), (1971, 1, 1));
    assert_eq!(days_to_ymd(789), (1972, 2, 29));
    assert_eq!(days_to_ymd(790), (1972, 3, 1));
}

#[test]
fn archive_and_delete_guards_follow_the_archive_directory() {
    let p = ProjectId::new("p1");
    assert_eq!(check_project_archive(&ProjectId::unfiled(), Some("/w/projects/unfiled")).unwrap_err(), OrchestratorError::ProjectIsUnfiled);
    assert!(check_project_archive(&p, Some("/w/projects/a")).is_ok());
    assert_eq!(check_project_archive(&p, Some("/w/projects/.archive/a")).unwrap_err(), OrchestratorError::ProjectNotFound("p1".to_string()));
    assert_eq!(check_project_archive(&p, None).unwrap_err(), OrchestratorError::ProjectNotFound("p1".to_string()));
    assert_eq!(check_project_hard_delete(&p, Some("/w/projects/a")).unwrap_err(), OrchestratorError::ProjectNotArchived);
    assert!(check_project_hard_delete(&p, Some("/w/projects/.archive/a")).is_ok());
    let s = SessionId::from_string("s1");
    assert!(check_session_archive(&s, Some("/p/sessions/x")).is_ok());
    assert_eq!(check_session_archive(&s, Some("/p/sessions/.archive/x")).unwrap_err(), OrchestratorError::SessionNotFound("s1".to_string()));
    assert_eq!(check_session_hard_delete(&s, Some("/p/sessions/x")).unwrap_err(), OrchestratorError::SessionNotArchived);
    assert_eq!(check_session_hard_delete(&s, None).unwrap_err(), OrchestratorError::SessionNotFound("s1".to_string()));
    let surf = SurfaceId::from_string("t1");
    assert!(check_attach(&s, None, &surf).is_ok());
    assert!(check_attach(&s, Some("s1"), &surf).is_ok());
    assert_eq!(check_attach(&s, Some("s2"), &surf).unwrap_err(), OrchestratorError::SurfaceConflict("t1".to_string()));
}

#[test]
fn only_json_panel_trees_are_kept() {
    assert_eq!(kept_panel_tree(r#"{"split":"h"}"#).as_deref(), Some(r#"{"split":"h"}"#));
    assert_eq!(kept_panel_tree("{ not json"), None);
}

#[test]
fn archived_subtrees_and_live_listings() {
    assert!(is_archived("/w/projects/.archive/p"));
    assert!(is_archived("/w/projects/.archive/p/sessions/s"));
    assert!(!is_archived("/w/projects/p/sessions/s"));
    assert!(!is_live_name(".archive"));
    assert!(is_live_name("s"));
}

#[test]
fn tests_siblings_list_in_sort_order() {
    let proj = ProjectId::unfiled();
    let mut orders: Vec<Option<u32>> = Vec::new();
    let mut dirs: Vec<String> = Vec::new();
    let mut sessions = Vec::new();
    for title in ["A", "B", "C"] {
        let (s, slug) = plan_session(
            NewSession {
                project_id: Some(proj.clone()),
                title: Some(title.into()),
                title_source: TitleSource::Custom,
                template_id: None,
            },
            None,
            &orders,
            &dirs,
            "2026-01-01T00:00:00Z".to_string(),
        );
        orders.push(Some(s.sort_order));
        dirs.push(slug);
        sessions.push(s);
    }
    let (s0, s1, s2) = (&sessions[0], &sessions[1], &sessions[2]);

    // Reorder: C=0, A=1, B=2
    let reordered: Vec<Option<u32>> = vec![Some(1), Some(2), Some(0)];
    let listed: Vec<_> = listing_order(&reordered).into_iter().map(|i| sessions[i].id.clone()).collect();
    assert_eq!(listed.len(), 3);
    assert_eq!(listed[0], s2.id);
    assert_eq!(listed[1], s0.id);
    assert_eq!(listed[2], s1.id);
}

#[test]
fn tests_duplicate_placement_is_rejected_with_surface_conflict() {
    let first = SurfaceId::mint();
    let mut bindings = Vec::new();
    check_placement(&bindings, Some("panel-1"), &first).unwrap();
    bindings.push(new_binding(&first, SurfaceKind::Terminal, Some("panel-1".into()), None));

    // Second surface at the same placement must fail
    let result = check_placement(&bindings, Some("panel-1"), &SurfaceId::mint());

    assert!(
        matches!(result, Err(OrchestratorError::SurfaceConflict(_))),
        "expected SurfaceConflict, got {:?}",
        result
    );
}

#[test]
fn ascii_slugs_are_runs_joined_by_dashes_or_the_fallback() {
    assert_eq!(slugify("--", "0123456789"), "01234567");
    assert_eq!(slugify("  Tab\tSep  ", "x"), "tab-sep");
    assert_eq!(slugify("a..b..c", "x"), "a-b-c");
}
