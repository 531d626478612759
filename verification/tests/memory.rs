use orchestrator::entities::{
    LaunchTemplateId, NewLaunchTemplate, NewProject, NewSession, NewSurface, NewWorkspace,
    NotificationRecord, ProjectId, SettingEntry, SettingScope, SourceKind, Surface, SurfaceKind,
    WorkspaceId,
};
use orchestrator::error::OrchestratorError;
use orchestrator::memory::MemoryBackend;
use orchestrator::schema::current_version;

#[test]
fn fake_reports_current_schema_version() {
    let store = MemoryBackend::new();
    assert_eq!(store.schema_version().unwrap(), current_version());
}

#[test]
fn fake_seeds_unfiled_and_resolves_sessions_to_it() {
    let mut store = MemoryBackend::new();
    assert!(store.get_project(&ProjectId::unfiled()).unwrap().is_some());

    let session = store
        .create_session_inner(NewSession::default(), None)
        .unwrap();
    assert_eq!(session.project_id, ProjectId::unfiled());
}

fn make_surface(store: &mut MemoryBackend) -> Surface {
    let session = store
        .create_session_inner(NewSession::default(), None)
        .unwrap();
    store
        .create_surface(NewSurface {
            id: None,
            session_id: session.id,
            kind: SurfaceKind::Terminal,
            cwd: None,
            placement: None,
        })
        .unwrap()
}

#[test]
fn create_then_get_surface_round_trips_including_last_status_none() {
    let mut store = MemoryBackend::new();

    let created = make_surface(&mut store);
    let fetched = store.get_surface(&created.id).unwrap().unwrap();

    assert_eq!(fetched, created);
    assert!(fetched.last_status.is_none());
}

#[test]
fn list_resumable_surfaces_includes_a_created_surface() {
    let mut store = MemoryBackend::new();

    let created = make_surface(&mut store);
    let list = store.list_resumable_surfaces().unwrap();

    assert!(list.iter().any(|s| s.id == created.id));
}

#[test]
fn soft_delete_excludes_surface_from_list_and_get() {
    let mut store = MemoryBackend::new();

    let surface = make_surface(&mut store);
    store.soft_delete_surface(&surface.id).unwrap();

    assert!(store.get_surface(&surface.id).unwrap().is_none());
    let list = store.list_resumable_surfaces().unwrap();
    assert!(!list.iter().any(|s| s.id == surface.id));
}

#[test]
fn update_surface_status_is_reflected_by_get_surface() {
    let mut store = MemoryBackend::new();

    let surface = make_surface(&mut store);
    store.update_surface_status(&surface.id, "running").unwrap();

    let fetched = store.get_surface(&surface.id).unwrap().unwrap();
    assert_eq!(fetched.last_status.as_deref(), Some("running"));
}

#[test]
fn tests_set_launch_template_spec_on_absent_template_is_not_found() {
    let mut store = MemoryBackend::new();
    let err = store
        .set_launch_template_spec(
            &LaunchTemplateId::from_string("no-such-template"),
            2,
            r#"{"version":2,"items":[]}"#,
        )
        .unwrap_err();
    assert!(matches!(err, OrchestratorError::LaunchTemplateNotFound(_)));
}

#[test]
fn global_setting_round_trips() {
    let mut store = MemoryBackend::new();
    store
        .set_setting(&SettingScope::Global, "theme", r#""dark""#)
        .unwrap();
    let got = store.get_setting(&SettingScope::Global, "theme").unwrap();
    assert_eq!(got.as_deref(), Some(r#""dark""#));
}

#[test]
fn project_scoped_setting_round_trips() {
    let mut store = MemoryBackend::new();
    let scope = SettingScope::Project(ProjectId::unfiled());
    store
        .set_setting(&scope, "env", r#"{"FOO":"bar"}"#)
        .unwrap();
    let got = store.get_setting(&scope, "env").unwrap();
    assert_eq!(got.as_deref(), Some(r#"{"FOO":"bar"}"#));
    // The same key under global is independent.
    assert!(store
        .get_setting(&SettingScope::Global, "env")
        .unwrap()
        .is_none());
}

#[test]
fn overwriting_a_setting_replaces_the_value() {
    let mut store = MemoryBackend::new();
    store
        .set_setting(&SettingScope::Global, "k", r#"1"#)
        .unwrap();
    store
        .set_setting(&SettingScope::Global, "k", r#"2"#)
        .unwrap();
    assert_eq!(
        store
            .get_setting(&SettingScope::Global, "k")
            .unwrap()
            .as_deref(),
        Some("2")
    );
    // No duplicate rows: exactly one entry for the key.
    let listed = store.list_settings(&SettingScope::Global).unwrap();
    assert_eq!(listed.iter().filter(|e| e.key == "k").count(), 1);
}

#[test]
fn project_value_takes_precedence_over_global() {
    let mut store = MemoryBackend::new();
    let pid = ProjectId::unfiled();
    store
        .set_setting(&SettingScope::Global, "template", r#""g""#)
        .unwrap();
    store
        .set_setting(&SettingScope::Project(pid.clone()), "template", r#""p""#)
        .unwrap();
    let resolved = store.resolve_setting(&pid, "template").unwrap();
    assert_eq!(resolved.as_deref(), Some(r#""p""#));
}

#[test]
fn resolve_falls_back_to_global_on_project_miss() {
    let mut store = MemoryBackend::new();
    let pid = ProjectId::unfiled();
    store
        .set_setting(&SettingScope::Global, "template", r#""g""#)
        .unwrap();
    let resolved = store.resolve_setting(&pid, "template").unwrap();
    assert_eq!(resolved.as_deref(), Some(r#""g""#));
}

#[test]
fn unknown_key_resolves_to_absent() {
    let store = MemoryBackend::new();
    let resolved = store
        .resolve_setting(&ProjectId::unfiled(), "never-set")
        .unwrap();
    assert!(resolved.is_none());
}

#[test]
fn list_returns_written_entries() {
    let mut store = MemoryBackend::new();
    store.set_setting(&SettingScope::Global, "a", "1").unwrap();
    store.set_setting(&SettingScope::Global, "b", "2").unwrap();
    let listed = store.list_settings(&SettingScope::Global).unwrap();
    assert_eq!(
        listed,
        vec![
            SettingEntry {
                key: "a".to_string(),
                value_json: "1".to_string()
            },
            SettingEntry {
                key: "b".to_string(),
                value_json: "2".to_string()
            },
        ]
    );
}

#[test]
fn suppression_choice_is_recorded_and_read() {
    let mut store = MemoryBackend::new();
    store
        .set_setting(&SettingScope::Global, "confirm.close-surface", "true")
        .unwrap();
    let got = store
        .get_setting(&SettingScope::Global, "confirm.close-surface")
        .unwrap();
    assert_eq!(got.as_deref(), Some("true"));
}

#[test]
fn unset_confirmation_reads_as_absent() {
    let store = MemoryBackend::new();
    let got = store
        .get_setting(&SettingScope::Global, "confirm.never-shown")
        .unwrap();
    assert!(got.is_none(), "absent confirmation is not suppressed");
}

// ── further behaviour of the store ─────────────────────────────────────────

fn notif(id: &str, ts: i64) -> NotificationRecord {
    NotificationRecord {
        id: id.to_string(),
        category: "c".to_string(),
        severity: "info".to_string(),
        title: None,
        message: "m".to_string(),
        detail: None,
        ts,
        session_id: None,
        surface_id: None,
        actions_json: None,
    }
}

#[test]
fn memory_notifications_list_newest_first_up_to_the_limit() {
    let mut store = MemoryBackend::new();
    for (i, id) in ["a", "b", "c"].iter().enumerate() {
        store.insert_notification(&notif(id, i as i64)).unwrap();
    }
    let ids: Vec<String> = store
        .list_notifications(2)
        .unwrap()
        .into_iter()
        .map(|n| n.id)
        .collect();
    assert_eq!(ids, vec!["c".to_string(), "b".to_string()]);
}

#[test]
fn memory_prune_keeps_the_newest() {
    let mut store = MemoryBackend::new();
    for (i, id) in ["a", "b", "c", "d"].iter().enumerate() {
        store.insert_notification(&notif(id, i as i64)).unwrap();
    }
    store.prune_notifications(2).unwrap();
    let ids: Vec<String> = store
        .list_notifications(10)
        .unwrap()
        .into_iter()
        .map(|n| n.id)
        .collect();
    assert_eq!(ids, vec!["d".to_string(), "c".to_string()]);
}

#[test]
fn memory_placement_clash_is_a_conflict_naming_the_placement() {
    let mut store = MemoryBackend::new();
    let session = store
        .create_session_inner(NewSession::default(), None)
        .unwrap();
    let draft = |id: Option<&str>| NewSurface {
        id: id.map(orchestrator::entities::SurfaceId::from_string),
        session_id: session.id.clone(),
        kind: SurfaceKind::Terminal,
        cwd: None,
        placement: Some("main".to_string()),
    };
    store.create_surface(draft(None)).unwrap();
    let err = store.create_surface(draft(None)).unwrap_err();
    assert_eq!(err, OrchestratorError::SurfaceConflict("main".to_string()));
    let found = store
        .find_session_surface_by_placement(&session.id, "main")
        .unwrap();
    assert!(found.is_some());
}

#[test]
fn memory_default_workspace_cannot_be_deleted() {
    let mut store = MemoryBackend::new();
    let err = store
        .delete_workspace(&WorkspaceId::default_id())
        .unwrap_err();
    assert_eq!(err, OrchestratorError::WorkspaceIsDefault);
}

#[test]
fn memory_deleting_a_workspace_moves_its_projects_to_default() {
    let mut store = MemoryBackend::new();
    let ws = store
        .create_workspace(NewWorkspace { name: "W".to_string() })
        .unwrap();
    assert_eq!(ws.sort_order, 1);
    let proj = store
        .create_project(NewProject {
            name: Some("P".to_string()),
            source_kind: SourceKind::Blank,
            root_path: None,
            workspace_id: Some(ws.id.clone()),
        })
        .unwrap();
    store.delete_workspace(&ws.id).unwrap();
    let moved = store.get_project(&proj.id).unwrap().unwrap();
    assert_eq!(moved.workspace_id, WorkspaceId::default_id());
    assert_eq!(store.list_workspaces().unwrap().len(), 1);
}

#[test]
fn memory_unfiled_project_is_protected() {
    let mut store = MemoryBackend::new();
    assert_eq!(
        store.rename_project(&ProjectId::unfiled(), "x").unwrap_err(),
        OrchestratorError::ProjectIsUnfiled
    );
    assert_eq!(
        store.archive_project(&ProjectId::unfiled()).unwrap_err(),
        OrchestratorError::ProjectIsUnfiled
    );
    assert_eq!(
        store.hard_delete_project(&ProjectId::unfiled()).unwrap_err(),
        OrchestratorError::ProjectIsUnfiled
    );
}

#[test]
fn memory_archiving_a_project_archives_its_sessions_and_surfaces() {
    let mut store = MemoryBackend::new();
    let proj = store
        .create_project(NewProject {
            name: None,
            source_kind: SourceKind::LocalDir,
            root_path: Some("/work/alpha".to_string()),
            workspace_id: None,
        })
        .unwrap();
    assert_eq!(proj.name, "alpha");
    let session = store
        .create_session_inner(
            NewSession {
                project_id: Some(proj.id.clone()),
                ..NewSession::default()
            },
            Some((2, "{}".to_string())),
        )
        .unwrap();
    assert_eq!(session.spec_version, Some(2));
    assert!(session.created_at.chars().all(|c| c.is_ascii_digit()));
    let surface = store
        .create_surface(NewSurface {
            id: None,
            session_id: session.id.clone(),
            kind: SurfaceKind::Terminal,
            cwd: None,
            placement: None,
        })
        .unwrap();
    // Hard delete needs the project archived first.
    assert_eq!(
        store.hard_delete_project(&proj.id).unwrap_err(),
        OrchestratorError::ProjectNotArchived
    );
    store.archive_project(&proj.id).unwrap();
    assert!(store.get_project(&proj.id).unwrap().is_none());
    assert!(store.get_session(&session.id).unwrap().is_none());
    assert!(store.get_surface(&surface.id).unwrap().is_none());
    store.hard_delete_project(&proj.id).unwrap();
    assert!(matches!(
        store.hard_delete_project(&proj.id).unwrap_err(),
        OrchestratorError::ProjectNotFound(_)
    ));
}

#[test]
fn memory_session_lifecycle() {
    let mut store = MemoryBackend::new();
    let session = store
        .create_session_inner(NewSession::default(), None)
        .unwrap();
    assert_eq!(session.title, "");
    store.rename_session(&session.id, "  raw  ").unwrap();
    assert_eq!(store.get_session(&session.id).unwrap().unwrap().title, "  raw  ");
    store.set_session_layout(&session.id, "{\"a\":1}").unwrap();
    assert_eq!(
        store.get_session_layout(&session.id).unwrap().as_deref(),
        Some("{\"a\":1}")
    );
    assert_eq!(
        store.hard_delete_session(&session.id).unwrap_err(),
        OrchestratorError::SessionNotArchived
    );
    store.archive_session(&session.id).unwrap();
    assert!(matches!(
        store.get_session_layout(&session.id).unwrap_err(),
        OrchestratorError::SessionNotFound(_)
    ));
    store.hard_delete_session(&session.id).unwrap();
    assert!(matches!(
        store.reorder_session(&session.id, 1).unwrap_err(),
        OrchestratorError::SessionNotFound(_)
    ));
}

#[test]
fn memory_commands_seed_create_delete() {
    let mut store = MemoryBackend::new();
    let listed = store.list_commands().unwrap();
    assert_eq!(listed.len(), 1);
    assert_eq!(listed[0].name, "login-shell");
    let cmd = store
        .create_command(orchestrator::entities::NewCommand {
            name: "build".to_string(),
            origin: orchestrator::entities::CommandOrigin::Custom,
            cli: "make".to_string(),
            args: vec!["all".to_string()],
            env: vec![],
        })
        .unwrap();
    assert!(store.get_command(cmd.id.as_str()).unwrap().is_some());
    store.delete_command(cmd.id.as_str()).unwrap();
    assert!(store.get_command(cmd.id.as_str()).unwrap().is_none());
    // Seeding again does not bring back a removed command or duplicate one.
    store.seed_commands().unwrap();
    assert_eq!(store.list_commands().unwrap().len(), 1);
}

#[test]
fn memory_launch_template_round_trips() {
    let mut store = MemoryBackend::new();
    let t = store
        .create_launch_template(NewLaunchTemplate {
            project_id: ProjectId::unfiled(),
            spec_version: 1,
            spec_json: "{}".to_string(),
        })
        .unwrap();
    store.set_launch_template_spec(&t.id, 3, "[]").unwrap();
    let got = store.get_launch_template(&t.id).unwrap().unwrap();
    assert_eq!(got.spec_version, 3);
    assert_eq!(got.spec_json, "[]");
}
