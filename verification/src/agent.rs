//! The agent chat panel: what an ACP agent session reports, the messages of
//! the conversation, and what the panel shows of them.
//!
//! Running the agent process and drawing the panel are the caller's part;
//! here are the events, the state, and the choices the panel makes.
use vstd::prelude::*;

use crate::text::{decimal, decimal_string};
use crate::theme::UiTheme;

verus! {

broadcast use vstd::string::group_string_axioms;

/// Colour of error text in the panel.
pub const ERROR_TEXT: u32 = 0xfca5a5;

/// What an agent session reports to the panel.
#[derive(Clone, Debug, PartialEq, Eq)]
pub enum AgentEvent {
    /// A piece of the agent's reply.
    Text(String),
    /// The agent called a tool.
    ToolCall { title: String },
    /// The session ended.
    Done,
    /// The session failed.
    Error(String),
}

pub enum AgentEventView {
    Text(Seq<char>),
    ToolCall { title: Seq<char> },
    Done,
    Error(Seq<char>),
}

impl View for AgentEvent {
    type V = AgentEventView;

    open spec fn view(&self) -> AgentEventView {
        match self {
            AgentEvent::Text(t) => AgentEventView::Text(t@),
            AgentEvent::ToolCall { title } => AgentEventView::ToolCall { title: title@ },
            AgentEvent::Done => AgentEventView::Done,
            AgentEvent::Error(e) => AgentEventView::Error(e@),
        }
    }
}

/// What the panel reads of a session notification from the agent.
#[derive(Clone, Debug, PartialEq, Eq)]
pub enum AgentUpdate {
    /// A chunk of the agent's message that holds text.
    MessageText(String),
    /// A tool call, by its title.
    ToolCall(String),
    /// Anything else the protocol reports.
    Other,
}

/// Text chunks and tool calls become events; the panel ignores the rest.
pub open spec fn event_of_update_spec(u: AgentUpdate) -> Option<AgentEventView> {
    match u {
        AgentUpdate::MessageText(t) => Some(AgentEventView::Text(t@)),
        AgentUpdate::ToolCall(t) => Some(AgentEventView::ToolCall { title: t@ }),
        AgentUpdate::Other => None,
    }
}

pub open spec fn opt_event_view(e: Option<AgentEvent>) -> Option<AgentEventView> {
    match e {
        Some(x) => Some(x@),
        None => None,
    }
}

pub fn event_of_update(u: AgentUpdate) -> (e: Option<AgentEvent>)
    ensures
        opt_event_view(e) == event_of_update_spec(u),
{
    match u {
        AgentUpdate::MessageText(t) => Some(AgentEvent::Text(t)),
        AgentUpdate::ToolCall(t) => Some(AgentEvent::ToolCall { title: t }),
        AgentUpdate::Other => None,
    }
}

/// The events that close a session: when its runtime could not start, only
/// that error; otherwise the session's error, if it failed, then `Done`.
pub open spec fn closing_events_spec(
    runtime_error: Option<Seq<char>>,
    session_error: Option<Seq<char>>,
) -> Seq<AgentEventView> {
    match runtime_error {
        Some(e) => seq![AgentEventView::Error("tokio: "@ + e)],
        None => match session_error {
            Some(e) => seq![AgentEventView::Error(e), AgentEventView::Done],
            None => seq![AgentEventView::Done],
        },
    }
}

pub open spec fn events_view(v: Seq<AgentEvent>) -> Seq<AgentEventView> {
    v.map_values(|e: AgentEvent| e@)
}

pub fn closing_events(runtime_error: Option<String>, session_error: Option<String>) -> (v: Vec<
    AgentEvent,
>)
    ensures
        events_view(v@) == closing_events_spec(
            match runtime_error {
                Some(e) => Some(e@),
                None => None,
            },
            match session_error {
                Some(e) => Some(e@),
                None => None,
            },
        ),
{
    let mut v: Vec<AgentEvent> = Vec::new();
    match runtime_error {
        Some(e) => {
            let mut m = String::from_str("tokio: ");
            m.append(e.as_str());
            v.push(AgentEvent::Error(m));
        },
        None => {
            match session_error {
                Some(e) => v.push(AgentEvent::Error(e)),
                None => {},
            }
            v.push(AgentEvent::Done);
        },
    }
    assert(events_view(v@) =~= closing_events_spec(
        match runtime_error {
            Some(e) => Some(e@),
            None => None,
        },
        match session_error {
            Some(e) => Some(e@),
            None => None,
        },
    ));
    v
}

/// Who a chat message comes from.
#[derive(Clone, Copy, Debug, PartialEq, Eq, Structural)]
pub enum AgentRole {
    User,
    Agent,
    ToolCall,
    Error,
}

/// One message of the conversation.
#[derive(Clone, Debug)]
pub struct AgentChatMessage {
    pub role: AgentRole,
    pub text: String,
}

/// The chat panel: whether it shows, the conversation, the text being
/// typed, the session it talks to (of whatever type the caller runs), and
/// whether the agent is at work.
pub struct AgentChatState<S> {
    pub visible: bool,
    pub messages: Vec<AgentChatMessage>,
    pub input_text: String,
    pub session: Option<S>,
    pub is_working: bool,
}

impl<S> AgentChatState<S> {
    /// A hidden panel with no conversation and no session.
    pub fn new() -> (s: Self)
        ensures
            !s.visible,
            s.messages@.len() == 0,
            s.input_text@.len() == 0,
            s.session is None,
            !s.is_working,
    {
        AgentChatState {
            visible: false,
            messages: Vec::new(),
            input_text: String::new(),
            session: None,
            is_working: false,
        }
    }
}

/// How a message is drawn: its background, text colour, label and label
/// colour.
#[derive(Clone, Debug, PartialEq, Eq)]
pub struct MessageStyle {
    pub bg: u32,
    pub text: u32,
    pub label: String,
    pub label_color: u32,
}

pub struct MessageStyleView {
    pub bg: u32,
    pub text: u32,
    pub label: Seq<char>,
    pub label_color: u32,
}

impl View for MessageStyle {
    type V = MessageStyleView;

    open spec fn view(&self) -> MessageStyleView {
        MessageStyleView { bg: self.bg, text: self.text, label: self.label@, label_color: self.label_color }
    }
}

pub open spec fn message_style_spec(role: AgentRole, theme: UiTheme) -> MessageStyleView {
    match role {
        AgentRole::User => MessageStyleView { bg: theme.hover, text: theme.text, label: "You"@, label_color: theme.active },
        AgentRole::Agent => MessageStyleView { bg: theme.bg, text: theme.text, label: "Agent"@, label_color: theme.active },
        AgentRole::ToolCall => MessageStyleView { bg: theme.hover, text: theme.muted, label: "Tool"@, label_color: theme.label },
        AgentRole::Error => MessageStyleView { bg: theme.hover, text: ERROR_TEXT, label: "Error"@, label_color: ERROR_TEXT },
    }
}

pub fn message_style(role: AgentRole, theme: UiTheme) -> (s: MessageStyle)
    ensures
        s@ == message_style_spec(role, theme),
{
    match role {
        AgentRole::User => MessageStyle { bg: theme.hover, text: theme.text, label: String::from_str("You"), label_color: theme.active },
        AgentRole::Agent => MessageStyle { bg: theme.bg, text: theme.text, label: String::from_str("Agent"), label_color: theme.active },
        AgentRole::ToolCall => MessageStyle { bg: theme.hover, text: theme.muted, label: String::from_str("Tool"), label_color: theme.label },
        AgentRole::Error => MessageStyle { bg: theme.hover, text: ERROR_TEXT, label: String::from_str("Error"), label_color: ERROR_TEXT },
    }
}

/// What the composer shows: the text being typed in the text colour, or a
/// prompt in the muted colour when nothing is typed.
pub open spec fn composer_spec(input: Seq<char>, theme: UiTheme) -> (Seq<char>, u32) {
    if input.len() == 0 {
        ("Ask an agent\u{2026}"@, theme.muted)
    } else {
        (input, theme.text)
    }
}

/// Everything the open panel shows, top to bottom.
#[derive(Clone, Debug)]
pub struct ChatView {
    /// Each message with its style.
    pub messages: Vec<(MessageStyle, String)>,
    /// The "thinking" line under the messages.
    pub thinking: bool,
    /// The hint that no agent is connected.
    pub empty_hint: bool,
    pub composer_text: String,
    pub composer_color: u32,
    /// The message count in the footer, as `N messages`.
    pub count_label: String,
}

/// The panel of a chat state: nothing while hidden; otherwise its messages,
/// the thinking line while the agent works, the hint when there is neither
/// a message nor work, the composer and the message count.
pub open spec fn chat_view_ok<S>(state: AgentChatState<S>, theme: UiTheme, r: Option<ChatView>) -> bool {
    if !state.visible {
        r is None
    } else {
        r matches Some(v) && {
            &&& v.messages@.len() == state.messages@.len()
            &&& forall|i: int|
                0 <= i < v.messages@.len() ==> (#[trigger] v.messages@[i]).0@ == message_style_spec(
                    state.messages@[i].role,
                    theme,
                ) && v.messages@[i].1@ == state.messages@[i].text@
            &&& v.thinking == state.is_working
            &&& v.empty_hint == (state.messages@.len() == 0 && !state.is_working)
            &&& (v.composer_text@, v.composer_color) == composer_spec(state.input_text@, theme)
            &&& v.count_label@ == decimal(state.messages@.len()) + " messages"@
        }
    }
}

pub fn chat_view<S>(state: &AgentChatState<S>, theme: UiTheme) -> (r: Option<ChatView>)
    ensures
        chat_view_ok(*state, theme, r),
{
    if !state.visible {
        return None;
    }
    let mut messages: Vec<(MessageStyle, String)> = Vec::new();
    let mut i: usize = 0;
    while i < state.messages.len()
        invariant
            i <= state.messages.len(),
            messages@.len() == i,
            forall|j: int|
                0 <= j < i ==> (#[trigger] messages@[j]).0@ == message_style_spec(
                    state.messages@[j].role,
                    theme,
                ) && messages@[j].1@ == state.messages@[j].text@,
        decreases state.messages.len() - i,
    {
        let m = &state.messages[i];
        messages.push((message_style(m.role, theme), m.text.clone()));
        i = i + 1;
    }
    let (composer_text, composer_color) = if state.input_text.as_str().unicode_len() == 0 {
        (String::from_str("Ask an agent\u{2026}"), theme.muted)
    } else {
        (state.input_text.clone(), theme.text)
    };
    let mut count_label = decimal_string(state.messages.len());
    count_label.append(" messages");
    Some(
        ChatView {
            messages,
            thinking: state.is_working,
            empty_hint: state.messages.len() == 0 && !state.is_working,
            composer_text,
            composer_color,
            count_label,
        },
    )
}

} // verus!
