use herdr_gui::agent::{
    chat_view, closing_events, event_of_update, message_style, AgentChatMessage, AgentChatState,
    AgentEvent, AgentRole, AgentUpdate, ERROR_TEXT,
};
use herdr_gui::theme::default_theme;

#[test]
fn updates_become_events() {
    assert_eq!(
        event_of_update(AgentUpdate::MessageText("hi".to_string())),
        Some(AgentEvent::Text("hi".to_string()))
    );
    assert_eq!(
        event_of_update(AgentUpdate::ToolCall("grep".to_string())),
        Some(AgentEvent::ToolCall { title: "grep".to_string() })
    );
    assert_eq!(event_of_update(AgentUpdate::Other), None);
}

#[test]
fn sessions_close_with_done_unless_the_runtime_failed() {
    assert_eq!(closing_events(None, None), vec![AgentEvent::Done]);
    assert_eq!(
        closing_events(None, Some("lost".to_string())),
        vec![AgentEvent::Error("lost".to_string()), AgentEvent::Done]
    );
    assert_eq!(
        closing_events(Some("no threads".to_string()), None),
        vec![AgentEvent::Error("tokio: no threads".to_string())]
    );
}

#[test]
fn message_styles_by_role() {
    let t = default_theme();
    let user = message_style(AgentRole::User, t);
    assert_eq!((user.bg, user.text, user.label.as_str(), user.label_color), (t.hover, t.text, "You", t.active));
    let agent = message_style(AgentRole::Agent, t);
    assert_eq!((agent.bg, agent.label.as_str()), (t.bg, "Agent"));
    let tool = message_style(AgentRole::ToolCall, t);
    assert_eq!((tool.text, tool.label.as_str(), tool.label_color), (t.muted, "Tool", t.label));
    let err = message_style(AgentRole::Error, t);
    assert_eq!((err.text, err.label.as_str(), err.label_color), (ERROR_TEXT, "Error", ERROR_TEXT));
}

#[test]
fn chat_panel_shows_state() {
    let t = default_theme();
    let mut state: AgentChatState<()> = AgentChatState::new();
    assert!(chat_view(&state, t).is_none());
    state.visible = true;
    let empty = chat_view(&state, t).unwrap();
    assert!(empty.empty_hint);
    assert!(!empty.thinking);
    assert_eq!(empty.composer_text, "Ask an agent\u{2026}");
    assert_eq!(empty.composer_color, t.muted);
    assert_eq!(empty.count_label, "0 messages");
    state.messages.push(AgentChatMessage { role: AgentRole::User, text: "help".to_string() });
    state.is_working = true;
    state.input_text = "more".to_string();
    let busy = chat_view(&state, t).unwrap();
    assert!(!busy.empty_hint);
    assert!(busy.thinking);
    assert_eq!(busy.messages.len(), 1);
    assert_eq!(busy.messages[0].1, "help");
    assert_eq!(busy.messages[0].0.label, "You");
    assert_eq!(busy.composer_text, "more");
    assert_eq!(busy.composer_color, t.text);
    assert_eq!(busy.count_label, "1 messages");
}
