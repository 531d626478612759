use orchestrator::json::{pairs_to_json, string_list_to_json};
use orchestrator::entities::{
    CommandOrigin, ProjectStatus, SessionStatus, SourceKind, SurfaceKind, SurfaceStatus, TitleSource,
    WorkspaceStatus,
};
use orchestrator::entities::Session;
use orchestrator::rows::{
    command_from_row, finish_keyset_page, finish_offset_page, launch_template_from_row, Listing,
    Page, SessionRow, surface_from_row, project_from_row, workspace_from_row,
};

#[test]
fn offset_page_offers_the_next_offset() {
    let page: Listing<u32> = finish_offset_page(vec![1, 2, 3, 4], 3, 0);
    assert_eq!(page.items, vec![1, 2, 3]);
    assert!(page.has_next());
    assert_eq!(page.next.as_deref(), Some("3"));
    let last: Listing<u32> = finish_offset_page(vec![4, 5], 3, 3);
    assert_eq!(last.items, vec![4, 5]);
    assert!(!last.has_next());
    assert_eq!(Page::offset(3, 3), Page::Offset { limit: 3, offset: 3 });
}

#[test]
fn keyset_page_continues_after_the_last_item() {
    let keys: Vec<String> = ["k1", "k2", "k3"].iter().map(|s| s.to_string()).collect();
    let page = finish_keyset_page(vec!['a', 'b', 'c'], &keys, 2);
    assert_eq!(page.items, vec!['a', 'b']);
    assert_eq!(page.next.as_deref(), Some("k2"));
    let all = finish_keyset_page(vec!['a', 'b', 'c'], &keys, 5);
    assert_eq!(all.items.len(), 3);
    assert!(all.next.is_none());
}

fn row(title_source: &str, archived_at: Option<&str>) -> SessionRow {
    SessionRow {
        id: "s1".to_string(),
        project_id: "p1".to_string(),
        title: "T".to_string(),
        title_source: title_source.to_string(),
        spec_version: Some(2),
        spec_json: Some("{}".to_string()),
        sort_order: 4,
        pinned: 1,
        archived_at: archived_at.map(str::to_string),
        created_at: "2024-01-01T00:00:00Z".to_string(),
    }
}

#[test]
fn session_rows_decode() {
    let s = Session::from_row(row("branch", None));
    assert_eq!(s.id.as_str(), "s1");
    assert_eq!(s.title_source, TitleSource::Branch);
    assert_eq!(s.status, SessionStatus::Active);
    assert_eq!(s.spec_version, Some(2));
    assert_eq!(s.sort_order, 4);
    assert!(s.pinned);
    let a = Session::from_row(row("mystery", Some("2024-02-02")));
    assert_eq!(a.title_source, TitleSource::AgentTitle);
    assert_eq!(a.status, SessionStatus::Archived);
}

#[test]
fn command_rows_decode_their_json_columns() {
    let c = command_from_row(
        "c1".to_string(),
        "build".to_string(),
        "custom",
        "make".to_string(),
        Some(r#"["-j","4"]"#.to_string()),
        Some(r#"{"B":"2","A":"1"}"#.to_string()),
    );
    assert_eq!(c.origin, CommandOrigin::Custom);
    assert_eq!(c.args, vec!["-j".to_string(), "4".to_string()]);
    assert_eq!(
        c.env,
        vec![("A".to_string(), "1".to_string()), ("B".to_string(), "2".to_string())]
    );
    let bad = command_from_row(
        "c2".to_string(),
        "x".to_string(),
        "prebuilt",
        "sh".to_string(),
        Some("not json".to_string()),
        None,
    );
    assert_eq!(bad.origin, CommandOrigin::Prebuilt);
    assert!(bad.args.is_empty());
    assert!(bad.env.is_empty());
}

#[test]
fn launch_template_rows_decode() {
    let t = launch_template_from_row("t1", "p1", 3, "{}".to_string());
    assert_eq!(t.id.as_str(), "t1");
    assert_eq!(t.project_id.as_str(), "p1");
    assert_eq!(t.spec_version, 3);
}

#[test]
fn surface_rows_decode_known_kinds_and_statuses() {
    let s = surface_from_row("s1", "sess", "diff", Some("/w".to_string()), "live", None).unwrap();
    assert_eq!(s.id.as_str(), "s1");
    assert_eq!(s.session_id.as_str(), "sess");
    assert_eq!(s.kind, SurfaceKind::Diff);
    assert_eq!(s.status, SurfaceStatus::Live);
    assert_eq!(s.cwd.as_deref(), Some("/w"));
    assert_eq!(s.placement, None);
    assert_eq!(s.last_status, None);
    let idle = surface_from_row("s2", "sess", "terminal", None, "idle", Some("main".to_string())).unwrap();
    assert_eq!(idle.kind, SurfaceKind::Terminal);
    assert_eq!(idle.status, SurfaceStatus::Idle);
    assert_eq!(idle.placement.as_deref(), Some("main"));
    assert!(surface_from_row("s3", "sess", "browser", None, "live", None).is_none());
    assert!(surface_from_row("s4", "sess", "terminal", None, "zombie", None).is_none());
}

#[test]
fn workspace_rows_decode_with_their_archive_state() {
    let w = workspace_from_row("w1", "Work".to_string(), 3, true, false);
    assert_eq!(w.id.as_str(), "w1");
    assert_eq!(w.name, "Work");
    assert_eq!(w.sort_order, 3);
    assert!(w.pinned);
    assert_eq!(w.status, WorkspaceStatus::Active);
    let a = workspace_from_row("w2", "Old".to_string(), 0, false, true);
    assert_eq!(a.status, WorkspaceStatus::Archived);
}

#[test]
fn project_rows_decode_known_source_kinds() {
    let p = project_from_row("p1", "w1", "Repo".to_string(), "git_repo", Some("/src".to_string()), 2, false, true)
        .unwrap();
    assert_eq!(p.id.as_str(), "p1");
    assert_eq!(p.workspace_id.as_str(), "w1");
    assert_eq!(p.name, "Repo");
    assert_eq!(p.source_kind, SourceKind::GitRepo);
    assert_eq!(p.root_path.as_deref(), Some("/src"));
    assert_eq!(p.sort_order, 2);
    assert!(!p.pinned);
    assert_eq!(p.status, ProjectStatus::Archived);
    let b = project_from_row("p2", "w1", "B".to_string(), "blank", None, 0, true, false).unwrap();
    assert_eq!(b.source_kind, SourceKind::Blank);
    assert_eq!(b.status, ProjectStatus::Active);
    assert!(project_from_row("p3", "w1", "X".to_string(), "svn", None, 0, false, false).is_none());
}

#[test]
fn command_json_columns_encode_and_decode() {
    let args = vec!["-j".to_string(), "4".to_string()];
    let env = vec![("B".to_string(), "2".to_string()), ("A".to_string(), "1".to_string())];
    assert_eq!(string_list_to_json(&args), r#"["-j","4"]"#);
    assert_eq!(pairs_to_json(&env), r#"{"A":"1","B":"2"}"#);
    let c = command_from_row(
        "c".to_string(),
        "n".to_string(),
        "custom",
        "make".to_string(),
        Some(string_list_to_json(&args)),
        Some(pairs_to_json(&env)),
    );
    assert_eq!(c.args, args);
    assert_eq!(c.env, vec![("A".to_string(), "1".to_string()), ("B".to_string(), "2".to_string())]);
}

#[test]
fn offset_pages_past_the_u32_range_still_offer_a_continuation() {
    let page: Listing<u32> = finish_offset_page(vec![1, 2], 1, u32::MAX);
    assert_eq!(page.next.as_deref(), Some("4294967296"));
}

#[test]
fn keyset_pages_visit_every_row_once() {
    let all: Vec<String> = ["a", "b", "c", "d", "e"].iter().map(|s| s.to_string()).collect();
    let mut seen: Vec<String> = Vec::new();
    let mut start = 0usize;
    loop {
        let end = (start + 3).min(all.len());
        let window: Vec<String> = all[start..end].to_vec();
        let page = finish_keyset_page(window.clone(), &window, 2);
        seen.extend(page.items.iter().cloned());
        match page.next {
            Some(cursor) => start = all.iter().position(|k| *k == cursor).unwrap() + 1,
            None => break,
        }
    }
    assert_eq!(seen, all);
}
