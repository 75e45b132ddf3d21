use herdr_gui::bootstrap::{
    BootstrapAction, BootstrapEvent, BootstrapStep, HerdrClient, SOCKET_CHECKS, SOCKET_POLL_MILLIS,
};
use herdr_gui::herdr::{
    api_result, socket_path, Agent, ApiError, HerdrError, HerdrRequest, HerdrState, Pane, Tab,
    Workspace,
};

fn pane(id: &str) -> Pane {
    Pane {
        pane_id: id.to_string(),
        terminal_id: None,
        workspace_id: None,
        tab_id: None,
        label: None,
        title: None,
        terminal_title: None,
        cwd: None,
        agent_status: None,
        agent: None,
        focused: false,
    }
}

fn workspace(id: &str, focused: bool) -> Workspace {
    Workspace {
        workspace_id: id.to_string(),
        label: None,
        cwd: None,
        agent_status: None,
        active_tab_id: None,
        focused,
    }
}

fn tab(id: &str, focused: bool) -> Tab {
    Tab {
        tab_id: id.to_string(),
        workspace_id: None,
        label: None,
        title: None,
        terminal_title: None,
        agent_status: None,
        focused,
    }
}

#[test]
fn socket_path_should_default_to_config_dir() {
    let path = socket_path(None, Some("/home/me".to_string()), None);
    assert!(path.ends_with(".config/herdr/herdr.sock") || path.ends_with("herdr.sock"));
    assert_eq!(path, "/home/me/.config/herdr/herdr.sock");
}

#[test]
fn socket_path_honours_override_and_session() {
    assert_eq!(
        socket_path(Some("/tmp/x.sock".to_string()), Some("/home/me".to_string()), None),
        "/tmp/x.sock"
    );
    assert_eq!(
        socket_path(None, Some("/home/me".to_string()), Some("work".to_string())),
        "/home/me/.config/herdr/sessions/work/herdr.sock"
    );
    assert_eq!(socket_path(None, None, None), "./.config/herdr/herdr.sock");
}

#[test]
fn agent_from_pane_copies_what_a_row_needs() {
    let mut p = pane("w1:p1");
    p.terminal_id = Some("term_1".to_string());
    p.agent = Some("pi".to_string());
    p.agent_status = Some("working".to_string());
    p.cwd = Some("/src/repo".to_string());
    p.focused = true;
    let a = Agent::from_pane(&p);
    assert_eq!(a.terminal_id, "term_1");
    assert_eq!(a.agent.as_deref(), Some("pi"));
    assert_eq!(a.name.as_deref(), Some("pi"));
    assert_eq!(a.agent_status.as_deref(), Some("working"));
    assert_eq!(a.pane_id.as_deref(), Some("w1:p1"));
    assert_eq!(a.cwd.as_deref(), Some("/src/repo"));
    assert!(a.focused);
    assert!(a.custom_status.is_none());
    let bare = Agent::from_pane(&pane("w1:p2"));
    assert_eq!(bare.terminal_id, "");
}

#[test]
fn state_focus_falls_back_to_first_item() {
    let state = HerdrState::from_lists(
        vec![workspace("w1", false), workspace("w2", true)],
        vec![tab("t1", false), tab("t2", false)],
        Vec::new(),
        None,
    );
    assert_eq!(state.focused_workspace_id.as_deref(), Some("w2"));
    assert_eq!(state.focused_tab_id.as_deref(), Some("t1"));
    assert_eq!(state.focused_pane_id, None);
    assert!(state.agents.is_empty());
}

#[test]
fn api_result_maps_each_reply_shape() {
    assert_eq!(api_result(Some(5), None), Ok(5));
    assert_eq!(
        api_result::<u8>(None, Some(ApiError { message: Some("bad".to_string()) })),
        Err(HerdrError::Api("bad".to_string()))
    );
    assert_eq!(
        api_result(Some(1), Some(ApiError { message: None })),
        Err(HerdrError::Api("unknown error".to_string()))
    );
    assert_eq!(api_result::<u8>(None, None), Err(HerdrError::Api("missing result".to_string())));
}

#[test]
fn error_messages_name_their_cause() {
    assert_eq!(
        HerdrError::InstallFailed("no wax".to_string()).message(),
        "herdr is not installed and `wax install herdr` failed: no wax"
    );
    assert_eq!(
        HerdrError::SocketUnavailable("/s".to_string(), "refused".to_string()).message(),
        "herdr socket unavailable at /s: refused"
    );
    assert_eq!(HerdrError::Io("eof".to_string()).message(), "io: eof");
    assert_eq!(HerdrError::Json("bad".to_string()).message(), "json: bad");
    assert_eq!(HerdrError::Api("nope".to_string()).message(), "herdr api: nope");
}

#[test]
fn requests_name_their_methods() {
    assert_eq!(HerdrRequest::Ping.method(), "ping");
    assert_eq!(HerdrRequest::WorkspaceList.method(), "workspace.list");
    assert_eq!(
        HerdrRequest::SendKey { pane_id: "p".to_string(), key: "enter".to_string() }.method(),
        "pane.send_keys"
    );
    assert_eq!(HerdrRequest::ReloadConfig.method(), "server.reload_config");
}

fn expect_continue(step: BootstrapStep) -> (herdr_gui::bootstrap::Bootstrap, BootstrapAction) {
    match step {
        BootstrapStep::Continue(b, a) => (b, a),
        other => panic!("expected to continue, got {other:?}"),
    }
}

#[test]
fn bootstrap_installs_starts_and_confirms() {
    let (b, a) = expect_continue(HerdrClient::bootstrap("/s".to_string()));
    assert!(matches!(a, BootstrapAction::CheckCommand { ref name } if name == "herdr"));
    let (b, a) = expect_continue(b.step(BootstrapEvent::CommandExists(false)));
    match a {
        BootstrapAction::RunInstall { program, args } => {
            assert_eq!(program, "wax");
            assert_eq!(args, vec!["install".to_string(), "herdr".to_string()]);
        }
        other => panic!("{other:?}"),
    }
    let (b, _) = expect_continue(
        b.step(BootstrapEvent::InstallFinished { success: true, stderr: String::new() }),
    );
    let (b, a) = expect_continue(b.step(BootstrapEvent::CommandExists(true)));
    assert!(matches!(a, BootstrapAction::CheckSocket { ref path } if path == "/s"));
    let (b, a) = expect_continue(b.step(BootstrapEvent::SocketExists(false)));
    match a {
        BootstrapAction::StartServer { program, args } => {
            assert_eq!(program, "herdr");
            assert_eq!(args, vec!["server".to_string()]);
        }
        other => panic!("{other:?}"),
    }
    let (b, _) = expect_continue(b.step(BootstrapEvent::ServerSpawned(Ok(()))));
    let (b, a) = expect_continue(b.step(BootstrapEvent::SocketExists(false)));
    assert!(matches!(a, BootstrapAction::Sleep { millis } if millis == SOCKET_POLL_MILLIS));
    let (b, _) = expect_continue(b.step(BootstrapEvent::Slept));
    let (b, a) = expect_continue(b.step(BootstrapEvent::SocketExists(true)));
    assert!(matches!(a, BootstrapAction::Ping { .. }));
    match b.step(BootstrapEvent::PingReplied(Ok(()))) {
        BootstrapStep::Connected(client) => assert_eq!(client.socket_path(), "/s"),
        other => panic!("{other:?}"),
    }
}

#[test]
fn bootstrap_reports_a_failed_install() {
    let (b, _) = expect_continue(HerdrClient::bootstrap("/s".to_string()));
    let (b, _) = expect_continue(b.step(BootstrapEvent::CommandExists(false)));
    match b.step(BootstrapEvent::InstallFinished { success: false, stderr: "boom".to_string() }) {
        BootstrapStep::Failed(err) => assert_eq!(err, HerdrError::InstallFailed("boom".to_string())),
        other => panic!("{other:?}"),
    }
}

#[test]
fn bootstrap_gives_up_after_the_last_socket_check() {
    let (b, _) = expect_continue(HerdrClient::bootstrap("/s".to_string()));
    let (b, _) = expect_continue(b.step(BootstrapEvent::CommandExists(true)));
    let (b, _) = expect_continue(b.step(BootstrapEvent::SocketExists(false)));
    let (mut b, _) = expect_continue(b.step(BootstrapEvent::ServerSpawned(Ok(()))));
    let mut looks = 0;
    loop {
        looks += 1;
        assert!(looks <= SOCKET_CHECKS);
        let (sleeping, a) = expect_continue(b.step(BootstrapEvent::SocketExists(false)));
        assert!(matches!(a, BootstrapAction::Sleep { .. }));
        match sleeping.step(BootstrapEvent::Slept) {
            BootstrapStep::Continue(next, BootstrapAction::CheckSocket { .. }) => b = next,
            BootstrapStep::Failed(err) => {
                assert_eq!(
                    err,
                    HerdrError::SocketUnavailable(
                        "/s".to_string(),
                        "timed out waiting for herdr server".to_string()
                    )
                );
                break;
            }
            other => panic!("{other:?}"),
        }
    }
    assert_eq!(looks, SOCKET_CHECKS);
}

#[test]
fn bootstrap_reports_io_failures_and_a_silent_server() {
    let (b, _) = expect_continue(HerdrClient::bootstrap("/s".to_string()));
    let (b, _) = expect_continue(b.step(BootstrapEvent::CommandExists(false)));
    match b.step(BootstrapEvent::InstallCouldNotRun("no wax".to_string())) {
        BootstrapStep::Failed(err) => assert_eq!(err, HerdrError::Io("no wax".to_string())),
        other => panic!("{other:?}"),
    }
    let (b, _) = expect_continue(HerdrClient::bootstrap("/s".to_string()));
    let (b, _) = expect_continue(b.step(BootstrapEvent::CommandExists(true)));
    let (b, _) = expect_continue(b.step(BootstrapEvent::SocketExists(true)));
    let (b, a) = expect_continue(b.step(BootstrapEvent::PingReplied(Err(HerdrError::Api("x".to_string())))));
    assert!(matches!(a, BootstrapAction::StartServer { .. }));
    match b.step(BootstrapEvent::ServerSpawned(Err("denied".to_string()))) {
        BootstrapStep::Failed(err) => assert_eq!(err, HerdrError::Io("denied".to_string())),
        other => panic!("{other:?}"),
    }
    let (b, _) = expect_continue(HerdrClient::bootstrap("/s".to_string()));
    let (b, _) = expect_continue(b.step(BootstrapEvent::CommandExists(true)));
    let (b, _) = expect_continue(b.step(BootstrapEvent::SocketExists(true)));
    let (b, a) = expect_continue(b.step(BootstrapEvent::PingReplied(Ok(()))));
    assert!(matches!(a, BootstrapAction::Ping { .. }));
    let refused = HerdrError::SocketUnavailable("/s".to_string(), "refused".to_string());
    match b.step(BootstrapEvent::PingReplied(Err(refused.clone()))) {
        BootstrapStep::Failed(err) => assert_eq!(err, refused),
        other => panic!("{other:?}"),
    }
}
