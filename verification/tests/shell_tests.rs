use herdr_gui::herdr::{Agent, HerdrState, Pane, Tab, Workspace};
use herdr_gui::shell::{
    active_tab, active_workspace, active_workspace_id, agent_rows, cycle_index, focused_pane,
    tab_at_offset, tab_detail, tab_focused, tab_title, terminal_target, visible_panes,
    visible_tabs, workspace_at_offset, workspace_focused, workspace_title,
    workspace_to_close_after_exit, workspace_to_close_if_empty, AgentSource,
};
use herdr_gui::shell::{pane_view, space_name, PaneView};

fn ws(id: &str) -> Workspace {
    Workspace {
        workspace_id: id.to_string(),
        label: None,
        cwd: None,
        agent_status: None,
        active_tab_id: None,
        focused: false,
    }
}

fn tab(id: &str, wid: Option<&str>) -> Tab {
    Tab {
        tab_id: id.to_string(),
        workspace_id: wid.map(|s| s.to_string()),
        label: None,
        title: None,
        terminal_title: None,
        agent_status: None,
        focused: false,
    }
}

fn pane(id: &str, wid: Option<&str>, tid: Option<&str>) -> Pane {
    Pane {
        pane_id: id.to_string(),
        terminal_id: None,
        workspace_id: wid.map(|s| s.to_string()),
        tab_id: tid.map(|s| s.to_string()),
        label: None,
        title: None,
        terminal_title: None,
        cwd: None,
        agent_status: None,
        agent: None,
        focused: false,
    }
}

fn agent(pane_id: Option<&str>, cwd: Option<&str>) -> Agent {
    Agent {
        terminal_id: String::new(),
        name: None,
        agent: Some("pi".to_string()),
        title: None,
        display_agent: None,
        agent_status: Some("working".to_string()),
        custom_status: None,
        workspace_id: None,
        tab_id: None,
        pane_id: pane_id.map(|s| s.to_string()),
        focused: false,
        cwd: cwd.map(|s| s.to_string()),
        foreground_cwd: None,
    }
}

fn state() -> HerdrState {
    HerdrState {
        focused_workspace_id: Some("w2".to_string()),
        focused_tab_id: Some("w2:t2".to_string()),
        focused_pane_id: Some("w2:p2".to_string()),
        workspaces: vec![ws("w1"), ws("w2"), ws("w3")],
        tabs: vec![
            tab("w1:t1", Some("w1")),
            tab("w2:t1", Some("w2")),
            tab("w2:t2", Some("w2")),
        ],
        panes: vec![
            pane("w1:p1", Some("w1"), Some("w1:t1")),
            pane("w2:p1", Some("w2"), Some("w2:t1")),
            pane("w2:p2", Some("w2"), Some("w2:t2")),
            pane("w2:p3", Some("w2"), Some("w2:t2")),
        ],
        agents: Vec::new(),
    }
}

#[test]
fn focus_follows_the_state_ids() {
    let s = state();
    assert_eq!(active_workspace(&s), Some(1));
    assert_eq!(active_tab(&s), Some(2));
    assert_eq!(focused_pane(&s), Some(2));
    assert_eq!(active_workspace_id(&s).as_deref(), Some("w2"));
}

#[test]
fn unknown_focus_falls_back_to_flags_then_first() {
    let mut s = state();
    s.focused_workspace_id = Some("gone".to_string());
    assert_eq!(active_workspace(&s), Some(0));
    s.workspaces[2].focused = true;
    assert_eq!(active_workspace(&s), Some(2));
    s.workspaces.clear();
    assert_eq!(active_workspace(&s), None);
}

#[test]
fn terminal_target_prefers_the_terminal_id() {
    let mut s = state();
    assert_eq!(terminal_target(&s).as_deref(), Some("w2:p2"));
    s.panes[2].terminal_id = Some("term_7".to_string());
    assert_eq!(terminal_target(&s).as_deref(), Some("term_7"));
}

#[test]
fn visible_tabs_and_panes_follow_the_active_workspace_and_tab() {
    let s = state();
    assert_eq!(visible_tabs(&s), vec![1, 2]);
    assert_eq!(visible_panes(&s), vec![2, 3]);
    let mut lonely = state();
    lonely.focused_workspace_id = Some("w3".to_string());
    assert_eq!(visible_tabs(&lonely), vec![0, 1, 2]);
}

#[test]
fn tab_and_workspace_offsets_wrap_around() {
    let s = state();
    assert_eq!(tab_at_offset(&s, 1), Some(1));
    assert_eq!(tab_at_offset(&s, -1), Some(1));
    assert_eq!(workspace_at_offset(&s, 1), Some(2));
    assert_eq!(workspace_at_offset(&s, 2), Some(0));
    assert_eq!(workspace_at_offset(&s, -2), Some(2));
}

#[test]
fn cycle_index_is_euclidean() {
    assert_eq!(cycle_index(0, -1, 3), 2);
    assert_eq!(cycle_index(2, 1, 3), 0);
    assert_eq!(cycle_index(1, 7, 3), 2);
    let forward = cycle_index(1, 5, 4);
    assert_eq!(cycle_index(forward, -5, 4), 1);
}

#[test]
fn empty_workspace_is_closed_after_its_last_pane() {
    let mut s = state();
    assert_eq!(workspace_to_close_if_empty(&s), None);
    s.panes.retain(|p| p.workspace_id.as_deref() != Some("w2"));
    assert_eq!(workspace_to_close_if_empty(&s).as_deref(), Some("w2"));
}

#[test]
fn workspace_closes_when_its_only_terminal_exits() {
    let mut s = state();
    assert_eq!(workspace_to_close_after_exit(&s, "w2:p2"), None);
    s.panes = vec![pane("w1:p1", Some("w1"), None), pane("w2:p2", Some("w2"), None)];
    assert_eq!(workspace_to_close_after_exit(&s, "w2:p2").as_deref(), Some("w2"));
    assert_eq!(workspace_to_close_after_exit(&s, "w1:p1"), None);
}

#[test]
fn tab_titles_fall_back_through_panes_to_the_id() {
    let mut s = state();
    let mut t = tab("w2:t2", Some("w2"));
    assert_eq!(tab_title(&s, &t), "w2:t2");
    s.panes[3].title = Some("vim".to_string());
    assert_eq!(tab_title(&s, &t), "w2:t2");
    s.panes[2].label = Some("shell".to_string());
    assert_eq!(tab_title(&s, &t), "shell");
    t.title = Some("mine".to_string());
    assert_eq!(tab_title(&s, &t), "mine");
    t.terminal_title = Some("term".to_string());
    assert_eq!(tab_title(&s, &t), "term");
}

#[test]
fn tab_and_workspace_rows_show_their_state() {
    let mut t = tab("w2:t2", Some("w2"));
    assert!(tab_focused(&t, &Some("w2:t2".to_string())));
    assert!(!tab_focused(&t, &None));
    assert_eq!(tab_detail(&t, true), "active");
    assert_eq!(tab_detail(&t, false), "idle");
    t.agent_status = Some("blocked".to_string());
    assert_eq!(tab_detail(&t, true), "blocked");
    let mut w = ws("w1");
    assert_eq!(workspace_title(&w), "w1");
    w.label = Some("repo".to_string());
    assert_eq!(workspace_title(&w), "repo");
    assert!(workspace_focused(&w, &Some("w1".to_string())));
    assert!(!workspace_focused(&w, &Some("w2".to_string())));
}

#[test]
fn agent_rows_number_rows_that_share_a_project() {
    let mut s = state();
    s.agents = vec![
        agent(Some("w2:p1"), Some("/src/repo")),
        agent(None, Some("/src/other/")),
        agent(Some("w2:p9"), Some("/work/repo")),
    ];
    s.panes[1].agent = Some("aider".to_string());
    s.panes[2].agent = Some("goose".to_string());
    s.panes[2].cwd = None;
    let rows = agent_rows(&s);
    let titles: Vec<&str> = rows.iter().map(|r| r.title.as_str()).collect();
    assert_eq!(titles, vec!["repo \u{b7} 1", "other", "repo \u{b7} 2", "~"]);
    assert_eq!(rows[3].source, AgentSource::Pane(2));
    assert_eq!(rows[3].subtitle, "goose");
    assert_eq!(rows[3].status_key, "unknown");
    assert!(rows[3].focused);
    assert!(!rows[0].focused);
    assert_eq!(rows[0].subtitle, "pi");
}

#[test]
fn a_pane_listed_twice_gets_one_agent_row() {
    let mut s = state();
    let mut twin = pane("w2:p3", Some("w2"), Some("w2:t2"));
    twin.agent = Some("pi".to_string());
    s.panes[3].agent = Some("pi".to_string());
    s.panes.push(twin);
    s.agents = vec![agent(Some("w2:p1"), None)];
    s.panes[1].agent = Some("pi".to_string());
    let rows = agent_rows(&s);
    let sources: Vec<AgentSource> = rows.iter().map(|r| r.source).collect();
    assert_eq!(sources, vec![AgentSource::Listed(0), AgentSource::Pane(3)]);
}

#[test]
fn terminal_area_shows_the_focused_visible_pane() {
    let mut s = state();
    assert_eq!(pane_view(&s, true), PaneView::Pane(2));
    s.panes[3].focused = true;
    assert_eq!(pane_view(&s, true), PaneView::Pane(3));
    let empty = HerdrState::default();
    assert_eq!(pane_view(&empty, true), PaneView::Empty);
    assert_eq!(pane_view(&empty, false), PaneView::TerminalOnly);
    assert_eq!(space_name(&s), "w2");
    s.workspaces[1].label = Some("repo".to_string());
    assert_eq!(space_name(&s), "repo");
    assert_eq!(space_name(&empty), "space");
}
