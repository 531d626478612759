use orchestrator::entities::{
    Command, CommandId, CommandOrigin, Project, ProjectId, ProjectStatus, Session, SessionId,
    SessionStatus, SourceKind, Surface, SurfaceId, SurfaceKind, SurfaceStatus, Template,
    TemplateId, TemplateOrigin, TitleSource, Workspace, WorkspaceId, WorkspaceStatus,
};

fn custom_command(id: &str) -> Command {
    Command {
        id: CommandId::from_string(id),
        name: "my-cmd".to_owned(),
        origin: CommandOrigin::Custom,
        cli: "/bin/bash".to_owned(),
        args: vec![],
        env: vec![],
        pinned: false,
    }
}

#[test]
fn command_rename_trims_whitespace() {
    let mut cmd = custom_command("cmd-1");
    cmd.rename("  new name  ");
    assert_eq!(cmd.name, "new name");
}

fn active_project(id: &str) -> Project {
    Project {
        id: ProjectId::new(id),
        name: "Test".to_owned(),
        source_kind: SourceKind::Blank,
        root_path: None,
        workspace_id: WorkspaceId::new("ws-1"),
        sort_order: 0,
        pinned: false,
        status: ProjectStatus::Active,
    }
}

fn unfiled_project() -> Project {
    Project {
        id: ProjectId::unfiled(),
        name: "Unfiled".to_owned(),
        source_kind: SourceKind::Blank,
        root_path: None,
        workspace_id: WorkspaceId::default_id(),
        sort_order: 0,
        pinned: false,
        status: ProjectStatus::Active,
    }
}

#[test]
fn project_rename_trims_whitespace() {
    let mut p = active_project("p-1");
    p.rename("  new name  ");
    assert_eq!(p.name, "new name");
}

#[test]
fn guard_not_unfiled_allows_normal_project() {
    let p = active_project("p-1");
    assert!(p.guard_not_unfiled().is_ok());
}

#[test]
fn guard_not_unfiled_rejects_unfiled_project() {
    let p = unfiled_project();
    assert!(p.guard_not_unfiled().is_err());
}

#[test]
fn guard_archived_allows_archived_project() {
    let p = Project {
        status: ProjectStatus::Archived,
        ..active_project("p-1")
    };
    assert!(p.guard_archived().is_ok());
}

#[test]
fn guard_archived_rejects_active_project() {
    let p = active_project("p-1");
    assert!(p.guard_archived().is_err());
}

#[test]
fn guard_active_allows_active_project() {
    let p = active_project("p-1");
    assert!(p.guard_active().is_ok());
}

#[test]
fn guard_active_rejects_already_archived_project() {
    let p = Project {
        status: ProjectStatus::Archived,
        ..active_project("p-1")
    };
    assert!(p.guard_active().is_err());
}

fn active_session(id: &str) -> Session {
    Session {
        id: SessionId::from_string(id),
        project_id: ProjectId::new("p-1"),
        title: "My session".to_owned(),
        title_source: TitleSource::Branch,
        created_at: "2026-01-01T00:00:00Z".to_owned(),
        spec_version: None,
        spec_json: None,
        sort_order: 0,
        pinned: false,
        status: SessionStatus::Active,
    }
}

#[test]
fn rename_updates_title_and_sets_title_source_to_custom() {
    let mut s = active_session("s-1");
    s.rename("My custom title");
    assert_eq!(s.title, "My custom title");
    assert_eq!(s.title_source, TitleSource::Custom);
}

#[test]
fn session_rename_trims_whitespace() {
    let mut s = active_session("s-1");
    s.rename("  spaced  ");
    assert_eq!(s.title, "spaced");
}

#[test]
fn rename_sets_custom_even_when_previously_branch_title() {
    let mut s = active_session("s-1");
    assert_eq!(s.title_source, TitleSource::Branch);
    s.rename("override");
    assert_eq!(s.title_source, TitleSource::Custom);
}

fn pending_surface() -> Surface {
    Surface {
        id: SurfaceId::from_string("surf-1"),
        session_id: SessionId::from_string("sess-1"),
        kind: SurfaceKind::Terminal,
        cwd: None,
        status: SurfaceStatus::Pending,
        placement: None,
        last_status: None,
    }
}

#[test]
fn surface_status_pending_is_not_live() {
    let s = pending_surface();
    assert!(!s.is_live());
}

#[test]
fn surface_status_live_is_live() {
    let s = Surface {
        status: SurfaceStatus::Live,
        ..pending_surface()
    };
    assert!(s.is_live());
}

#[test]
fn surface_status_idle_is_not_live() {
    let s = Surface {
        status: SurfaceStatus::Idle,
        ..pending_surface()
    };
    assert!(!s.is_live());
}

#[test]
fn surface_status_failed_is_not_live() {
    let s = Surface {
        status: SurfaceStatus::Failed,
        ..pending_surface()
    };
    assert!(!s.is_live());
}

#[test]
fn correlation_id_matches_surface_id() {
    let s = pending_surface();
    assert_eq!(s.correlation_id(), &s.id);
}

fn custom_template() -> Template {
    Template {
        id: TemplateId::mint(),
        name: "my-template".to_owned(),
        origin: TemplateOrigin::Custom,
        pinned: false,
        spec_version: 1,
        spec_json: r#"{"items":[]}"#.to_owned(),
    }
}

fn prebuilt_template() -> Template {
    Template {
        origin: TemplateOrigin::Prebuilt,
        ..custom_template()
    }
}

#[test]
fn guard_not_prebuilt_allows_custom_template() {
    let tmpl = custom_template();
    assert!(tmpl.guard_not_prebuilt().is_ok());
}

#[test]
fn guard_not_prebuilt_rejects_prebuilt_template() {
    let tmpl = prebuilt_template();
    let err = tmpl.guard_not_prebuilt().unwrap_err();
    assert_eq!(err.code(), "prebuilt.immutable");
}

fn active_workspace(id: &str) -> Workspace {
    Workspace {
        id: WorkspaceId::new(id),
        name: "Test".to_owned(),
        sort_order: 0,
        pinned: false,
        status: WorkspaceStatus::Active,
    }
}

fn default_workspace() -> Workspace {
    Workspace {
        id: WorkspaceId::default_id(),
        name: "Default".to_owned(),
        sort_order: 0,
        pinned: false,
        status: WorkspaceStatus::Active,
    }
}

#[test]
fn workspace_rename_trims_whitespace() {
    let mut ws = active_workspace("ws-1");
    ws.rename("  trimmed  ");
    assert_eq!(ws.name, "trimmed");
}

#[test]
fn guard_not_default_allows_non_default() {
    let ws = active_workspace("ws-1");
    assert!(ws.guard_not_default().is_ok());
}

#[test]
fn guard_not_default_rejects_default_workspace() {
    let ws = default_workspace();
    assert!(ws.guard_not_default().is_err());
}

#[test]
fn guard_active_allows_active_workspace() {
    let ws = active_workspace("ws-1");
    assert!(ws.guard_active().is_ok());
}

#[test]
fn guard_active_rejects_already_archived_workspace() {
    let ws = Workspace {
        status: WorkspaceStatus::Archived,
        ..active_workspace("ws-1")
    };
    assert!(ws.guard_active().is_err());
}

#[test]
fn guard_archived_allows_archived_workspace() {
    let ws = Workspace {
        status: WorkspaceStatus::Archived,
        ..active_workspace("ws-1")
    };
    assert!(ws.guard_archived().is_ok());
}

#[test]
fn guard_archived_rejects_active_workspace() {
    let ws = active_workspace("ws-1");
    assert!(ws.guard_archived().is_err());
}

fn assert_uuid_v4_text(s: &str) {
    let c: Vec<char> = s.chars().collect();
    assert_eq!(c.len(), 36);
    for (i, ch) in c.iter().enumerate() {
        if i == 8 || i == 13 || i == 18 || i == 23 {
            assert_eq!(*ch, '-');
        } else {
            assert!(ch.is_ascii_digit() || ('a'..='f').contains(ch), "{s}");
        }
    }
    assert_eq!(c[14], '4');
    assert!(matches!(c[19], '8' | '9' | 'a' | 'b'));
}

#[test]
fn minted_ids_are_random_uuid_text() {
    assert_uuid_v4_text(SessionId::mint().as_str());
    assert_uuid_v4_text(SurfaceId::mint().as_str());
    assert_uuid_v4_text(CommandId::mint().as_str());
    assert_uuid_v4_text(TemplateId::mint().as_str());
    assert_ne!(SessionId::mint().as_str(), SessionId::mint().as_str());
}
