use orchestrator::entities::{SurfaceId, SurfaceKind};
use orchestrator::error::OrchestratorError;
use orchestrator::runtime::{
    attach_reply_check, handle_frame, launch_check, proxy_input, DaemonFrame, FakeRuntime,
    Geometry, Output, ProxyState, RuntimeCall, SpawnRequest,
};

fn request(surface: &str) -> SpawnRequest {
    SpawnRequest {
        surface: SurfaceId::from_string(surface),
        kind: SurfaceKind::Terminal,
        command: None,
        token: "t".into(),
        geometry: Geometry { cols: 80, rows: 24 },
        cwd: "/".into(),
    }
}

#[test]
fn spawn_marks_a_surface_running_and_list_reports_it() {
    let mut rt = FakeRuntime::new();
    rt.spawn(request("a")).unwrap();

    assert!(rt.is_running(&SurfaceId::from_string("a")));
    assert_eq!(rt.list().unwrap(), vec![SurfaceId::from_string("a")]);
}

#[test]
fn stop_removes_a_surface_from_the_running_set() {
    let mut rt = FakeRuntime::new();
    let id = SurfaceId::from_string("a");
    rt.spawn(request("a")).unwrap();
    rt.stop(&id).unwrap();

    assert!(!rt.is_running(&id));
    assert!(rt.list().unwrap().is_empty());
}

#[test]
fn a_seeded_surface_with_no_spawn_is_an_orphan_for_reconcile() {
    let mut rt = FakeRuntime::new();
    let id = SurfaceId::from_string("orphan");
    rt.seed_running(id.clone());

    assert_eq!(rt.list().unwrap(), vec![id]);
}

#[test]
fn fail_next_spawn_makes_the_spawn_error_and_leaves_it_not_running() {
    let mut rt = FakeRuntime::new();
    rt.fail_next_spawn();
    let result = rt.spawn(request("a"));

    assert!(matches!(result, Err(OrchestratorError::SurfaceRuntime { .. })));
    assert!(!rt.is_running(&SurfaceId::from_string("a")));
    // Only the next spawn fails.
    rt.spawn(request("a")).unwrap();
    assert!(rt.is_running(&SurfaceId::from_string("a")));
}

#[test]
fn input_is_recorded_in_call_order() {
    let mut rt = FakeRuntime::new();
    let id = SurfaceId::from_string("a");
    rt.input(&id, b"ls\n").unwrap();

    assert_eq!(
        rt.calls(),
        vec![RuntimeCall::Input {
            surface: id,
            bytes: b"ls\n".to_vec(),
        }]
    );
}

#[test]
fn list_is_sorted_by_id() {
    let mut rt = FakeRuntime::new();
    rt.spawn(request("b")).unwrap();
    rt.spawn(request("a")).unwrap();
    rt.spawn(request("b")).unwrap();
    assert_eq!(
        rt.list().unwrap(),
        vec![SurfaceId::from_string("a"), SurfaceId::from_string("b")]
    );
    rt.close(&SurfaceId::from_string("a")).unwrap();
    assert_eq!(rt.list().unwrap(), vec![SurfaceId::from_string("b")]);
}

#[test]
fn enqueued_output_is_received_in_order() {
    let mut rt = FakeRuntime::new();
    assert!(rt.recv().is_none());
    rt.enqueue_output("s", Output::Status("live".into()));
    rt.enqueue_output("s", Output::Exit("0".into()));
    assert_eq!(rt.recv().unwrap().output, Output::Status("live".into()));
    assert_eq!(rt.recv().unwrap().output, Output::Exit("0".into()));
    assert!(rt.recv().is_none());
}

#[test]
fn input_queued_while_attaching_is_flushed_on_spawn_ack() {
    let id = SurfaceId::from_string("s");
    let mut state = ProxyState::Attaching(Vec::new());
    assert_eq!(proxy_input(&mut state, &id, b"a").unwrap(), false);
    assert_eq!(proxy_input(&mut state, &id, b"b").unwrap(), false);
    let effect = handle_frame(&mut state, DaemonFrame::SpawnAck);
    assert_eq!(effect.flush, vec![b"a".to_vec(), b"b".to_vec()]);
    assert!(matches!(state, ProxyState::Live));
    assert_eq!(proxy_input(&mut state, &id, b"c").unwrap(), true);
}

#[test]
fn data_is_acknowledged_and_exit_closes() {
    let id = SurfaceId::from_string("s");
    let mut state = ProxyState::Live;
    let effect = handle_frame(&mut state, DaemonFrame::Data(b"xyz".to_vec()));
    assert_eq!(effect.ack, Some(3));
    assert_eq!(effect.event, Some(Output::Bytes(b"xyz".to_vec())));
    assert!(effect.keep_reading);
    let effect = handle_frame(&mut state, DaemonFrame::Exit("0".into()));
    assert!(!effect.keep_reading);
    assert!(matches!(state, ProxyState::Closed));
    // A late spawn ack does not reopen a closed proxy.
    handle_frame(&mut state, DaemonFrame::SpawnAck);
    assert!(matches!(state, ProxyState::Closed));
    assert_eq!(
        proxy_input(&mut state, &id, b"x").unwrap_err(),
        OrchestratorError::SurfaceRuntime { surface: "s".into(), reason: "surface is closed".into() }
    );
}

#[test]
fn launch_and_attach_checks() {
    let id = SurfaceId::from_string("s");
    assert!(launch_check(false, &id, SurfaceKind::Terminal).is_ok());
    assert_eq!(
        launch_check(true, &id, SurfaceKind::Terminal).unwrap_err(),
        OrchestratorError::SurfaceRuntime { surface: "s".into(), reason: "surface already has a proxy".into() }
    );
    assert_eq!(
        launch_check(false, &id, SurfaceKind::Diff).unwrap_err(),
        OrchestratorError::SurfaceRuntime {
            surface: "s".into(),
            reason: "unsupported surface kind for launch: diff".into()
        }
    );
    let err = attach_reply_check(
        &id,
        &DaemonFrame::Error { code: "404".into(), message: "gone".into() },
    )
    .unwrap_err();
    assert_eq!(
        err,
        OrchestratorError::SurfaceRuntime { surface: "s".into(), reason: "session not resumable: 404 gone".into() }
    );
    assert!(attach_reply_check(&id, &DaemonFrame::Status("live".into())).is_ok());
}
