//! The Herdr server's data model and the client-side rules around it: which
//! workspace, tab and pane are focused, how replies turn into results, where
//! the socket lives, and the requests the client sends.
use vstd::prelude::*;

use crate::paths::{join_path, join_spec};

verus! {

broadcast use vstd::string::group_string_axioms;

/// A copy of an optional string.
pub fn clone_opt(o: &Option<String>) -> (c: Option<String>)
    ensures
        c == *o,
{
    match o {
        Some(s) => Some(s.clone()),
        None => None,
    }
}

pub open spec fn opt_view(o: Option<String>) -> Option<Seq<char>> {
    match o {
        Some(s) => Some(s@),
        None => None,
    }
}

#[derive(Clone, Debug)]
pub struct Workspace {
    pub workspace_id: String,
    pub label: Option<String>,
    pub cwd: Option<String>,
    pub agent_status: Option<String>,
    pub active_tab_id: Option<String>,
    pub focused: bool,
}

#[derive(Clone, Debug)]
pub struct Tab {
    pub tab_id: String,
    pub workspace_id: Option<String>,
    pub label: Option<String>,
    pub title: Option<String>,
    pub terminal_title: Option<String>,
    pub agent_status: Option<String>,
    pub focused: bool,
}

#[derive(Clone, Debug)]
pub struct Pane {
    pub pane_id: String,
    pub terminal_id: Option<String>,
    pub workspace_id: Option<String>,
    pub tab_id: Option<String>,
    pub label: Option<String>,
    pub title: Option<String>,
    pub terminal_title: Option<String>,
    pub cwd: Option<String>,
    pub agent_status: Option<String>,
    pub agent: Option<String>,
    pub focused: bool,
}

#[derive(Clone, Debug)]
pub struct Agent {
    pub terminal_id: String,
    pub name: Option<String>,
    pub agent: Option<String>,
    pub title: Option<String>,
    pub display_agent: Option<String>,
    pub agent_status: Option<String>,
    pub custom_status: Option<String>,
    pub workspace_id: Option<String>,
    pub tab_id: Option<String>,
    pub pane_id: Option<String>,
    pub focused: bool,
    pub cwd: Option<String>,
    pub foreground_cwd: Option<String>,
}

impl Agent {
    /// The agent entry shown for a pane that runs an agent but has no entry
    /// of its own in the server's agent list.
    pub fn from_pane(pane: &Pane) -> (agent: Agent)
        ensures
            agent.terminal_id@ == match pane.terminal_id {
                Some(t) => t@,
                None => Seq::<char>::empty(),
            },
            agent.agent == pane.agent,
            agent.name == pane.agent,
            agent.display_agent == pane.agent,
            agent.title == pane.title,
            agent.agent_status == pane.agent_status,
            agent.workspace_id == pane.workspace_id,
            agent.tab_id == pane.tab_id,
            agent.pane_id == Some(pane.pane_id),
            agent.focused == pane.focused,
            agent.cwd == pane.cwd,
            agent.custom_status is None,
            agent.foreground_cwd is None,
    {
        Agent {
            terminal_id: match &pane.terminal_id {
                Some(t) => t.clone(),
                None => String::new(),
            },
            name: clone_opt(&pane.agent),
            agent: clone_opt(&pane.agent),
            title: clone_opt(&pane.title),
            display_agent: clone_opt(&pane.agent),
            agent_status: clone_opt(&pane.agent_status),
            custom_status: None,
            workspace_id: clone_opt(&pane.workspace_id),
            tab_id: clone_opt(&pane.tab_id),
            pane_id: Some(pane.pane_id.clone()),
            focused: pane.focused,
            cwd: clone_opt(&pane.cwd),
            foreground_cwd: None,
        }
    }
}

/// Everything the client knows of the server at one moment.
#[derive(Clone, Debug)]
pub struct HerdrState {
    pub focused_workspace_id: Option<String>,
    pub focused_tab_id: Option<String>,
    pub focused_pane_id: Option<String>,
    pub workspaces: Vec<Workspace>,
    pub tabs: Vec<Tab>,
    pub panes: Vec<Pane>,
    pub agents: Vec<Agent>,
}

impl Default for HerdrState {
    fn default() -> (state: Self)
        ensures
            state.focused_workspace_id is None,
            state.focused_tab_id is None,
            state.focused_pane_id is None,
            state.workspaces@.len() == 0,
            state.tabs@.len() == 0,
            state.panes@.len() == 0,
            state.agents@.len() == 0,
    {
        HerdrState {
            focused_workspace_id: None,
            focused_tab_id: None,
            focused_pane_id: None,
            workspaces: Vec::new(),
            tabs: Vec::new(),
            panes: Vec::new(),
            agents: Vec::new(),
        }
    }
}

/// The index of the first `true`, or the length when there is none.
pub open spec fn first_true(flags: Seq<bool>) -> int
    decreases flags.len(),
{
    if flags.len() == 0 {
        0
    } else if flags[0] {
        0
    } else {
        1 + first_true(flags.drop_first())
    }
}

pub proof fn lemma_first_true(flags: Seq<bool>)
    ensures
        0 <= first_true(flags) <= flags.len(),
        forall|j: int| 0 <= j < first_true(flags) ==> !flags[j],
        first_true(flags) < flags.len() ==> flags[first_true(flags)],
    decreases flags.len(),
{
    if flags.len() > 0 && !flags[0] {
        lemma_first_true(flags.drop_first());
        assert forall|j: int| 0 <= j < first_true(flags) implies !flags[j] by {
            if j > 0 {
                assert(flags[j] == flags.drop_first()[j - 1]);
            }
        }
    }
}

/// Which of a list counts as focused: the first item flagged focused, else
/// the first item; none for an empty list.
pub open spec fn focus_index(flags: Seq<bool>) -> Option<int> {
    if first_true(flags) < flags.len() {
        Some(first_true(flags))
    } else if flags.len() > 0 {
        Some(0)
    } else {
        None
    }
}

/// Finds the focus index of a list of flags.
pub fn focus_position(flags: &Vec<bool>) -> (pos: Option<usize>)
    ensures
        match pos {
            Some(i) => focus_index(flags@) == Some(i as int),
            None => focus_index(flags@) is None,
        },
{
    proof {
        lemma_first_true(flags@);
    }
    let mut i: usize = 0;
    while i < flags.len()
        invariant
            i <= flags.len(),
            forall|j: int| 0 <= j < i ==> !flags@[j],
            0 <= first_true(flags@) <= flags@.len(),
            forall|j: int| 0 <= j < first_true(flags@) ==> !flags@[j],
            first_true(flags@) < flags@.len() ==> flags@[first_true(flags@)],
        decreases flags.len() - i,
    {
        if flags[i] {
            return Some(i);
        }
        i = i + 1;
    }
    if flags.len() > 0 {
        Some(0)
    } else {
        None
    }
}

pub open spec fn workspace_flags(ws: Seq<Workspace>) -> Seq<bool> {
    ws.map_values(|w: Workspace| w.focused)
}

pub open spec fn tab_flags(ts: Seq<Tab>) -> Seq<bool> {
    ts.map_values(|t: Tab| t.focused)
}

pub open spec fn pane_flags(ps: Seq<Pane>) -> Seq<bool> {
    ps.map_values(|p: Pane| p.focused)
}

/// The id of the focused item of a list, under `focus_index`.
pub open spec fn focused_id_spec(ids: Seq<String>, flags: Seq<bool>) -> Option<String> {
    match focus_index(flags) {
        Some(i) => Some(ids[i]),
        None => None,
    }
}

impl HerdrState {
    /// The state assembled from the server's four lists. A failed agent list
    /// leaves the agents empty.
    pub fn from_lists(
        workspaces: Vec<Workspace>,
        tabs: Vec<Tab>,
        panes: Vec<Pane>,
        agents: Option<Vec<Agent>>,
    ) -> (state: HerdrState)
        ensures
            state.workspaces == workspaces,
            state.tabs == tabs,
            state.panes == panes,
            state.agents@ == match agents {
                Some(a) => a@,
                None => Seq::<Agent>::empty(),
            },
            state.focused_workspace_id == focused_id_spec(
                workspaces@.map_values(|w: Workspace| w.workspace_id),
                workspace_flags(workspaces@),
            ),
            state.focused_tab_id == focused_id_spec(
                tabs@.map_values(|t: Tab| t.tab_id),
                tab_flags(tabs@),
            ),
            state.focused_pane_id == focused_id_spec(
                panes@.map_values(|p: Pane| p.pane_id),
                pane_flags(panes@),
            ),
    {
        let mut wf: Vec<bool> = Vec::new();
        let mut i: usize = 0;
        while i < workspaces.len()
            invariant
                i <= workspaces.len(),
                wf@ == workspace_flags(workspaces@).take(i as int),
            decreases workspaces.len() - i,
        {
            wf.push(workspaces[i].focused);
            assert(wf@ =~= workspace_flags(workspaces@).take(i + 1));
            i = i + 1;
        }
        assert(wf@ =~= workspace_flags(workspaces@));
        let focused_workspace_id = match focus_position(&wf) {
            Some(k) => Some(workspaces[k].workspace_id.clone()),
            None => None,
        };
        let mut tf: Vec<bool> = Vec::new();
        let mut i: usize = 0;
        while i < tabs.len()
            invariant
                i <= tabs.len(),
                tf@ == tab_flags(tabs@).take(i as int),
            decreases tabs.len() - i,
        {
            tf.push(tabs[i].focused);
            assert(tf@ =~= tab_flags(tabs@).take(i + 1));
            i = i + 1;
        }
        assert(tf@ =~= tab_flags(tabs@));
        let focused_tab_id = match focus_position(&tf) {
            Some(k) => Some(tabs[k].tab_id.clone()),
            None => None,
        };
        let mut pf: Vec<bool> = Vec::new();
        let mut i: usize = 0;
        while i < panes.len()
            invariant
                i <= panes.len(),
                pf@ == pane_flags(panes@).take(i as int),
            decreases panes.len() - i,
        {
            pf.push(panes[i].focused);
            assert(pf@ =~= pane_flags(panes@).take(i + 1));
            i = i + 1;
        }
        assert(pf@ =~= pane_flags(panes@));
        let focused_pane_id = match focus_position(&pf) {
            Some(k) => Some(panes[k].pane_id.clone()),
            None => None,
        };
        let agents = match agents {
            Some(a) => a,
            None => Vec::new(),
        };
        HerdrState {
            focused_workspace_id,
            focused_tab_id,
            focused_pane_id,
            workspaces,
            tabs,
            panes,
            agents,
        }
    }
}

/// A list's focus always names one of its items, and a focused item when
/// there is one; only an empty list has no focus.
pub proof fn law_focus_names_focused_item(flags: Seq<bool>)
    ensures
        focus_index(flags) is None <==> flags.len() == 0,
        focus_index(flags) matches Some(i) ==> 0 <= i < flags.len(),
        (exists|j: int| 0 <= j < flags.len() && flags[j]) ==> (focus_index(flags) matches Some(i)
            && flags[i]),
        focus_index(flags) matches Some(i) ==> forall|j: int| 0 <= j < i ==> !flags[j],
{
    lemma_first_true(flags);
}


/// Why talking to Herdr failed.
#[derive(Clone, Debug, PartialEq, Eq)]
pub enum HerdrError {
    InstallFailed(String),
    SocketUnavailable(String, String),
    Io(String),
    Json(String),
    Api(String),
}

pub enum ErrorView {
    InstallFailed(Seq<char>),
    SocketUnavailable(Seq<char>, Seq<char>),
    Io(Seq<char>),
    Json(Seq<char>),
    Api(Seq<char>),
}

impl View for HerdrError {
    type V = ErrorView;

    open spec fn view(&self) -> ErrorView {
        match self {
            HerdrError::InstallFailed(s) => ErrorView::InstallFailed(s@),
            HerdrError::SocketUnavailable(p, why) => ErrorView::SocketUnavailable(p@, why@),
            HerdrError::Io(s) => ErrorView::Io(s@),
            HerdrError::Json(s) => ErrorView::Json(s@),
            HerdrError::Api(s) => ErrorView::Api(s@),
        }
    }
}

/// The text an error is shown as.
pub open spec fn error_message_spec(e: ErrorView) -> Seq<char> {
    match e {
        ErrorView::InstallFailed(s) => "herdr is not installed and `wax install herdr` failed: "@ + s,
        ErrorView::SocketUnavailable(p, why) => "herdr socket unavailable at "@ + p + ": "@ + why,
        ErrorView::Io(s) => "io: "@ + s,
        ErrorView::Json(s) => "json: "@ + s,
        ErrorView::Api(s) => "herdr api: "@ + s,
    }
}

impl HerdrError {
    pub fn message(&self) -> (text: String)
        ensures
            text@ == error_message_spec(self@),
    {
        match self {
            HerdrError::InstallFailed(s) => {
                let mut t = String::from_str("herdr is not installed and `wax install herdr` failed: ");
                t.append(s.as_str());
                t
            },
            HerdrError::SocketUnavailable(p, why) => {
                let mut t = String::from_str("herdr socket unavailable at ");
                t.append(p.as_str());
                t.append(": ");
                t.append(why.as_str());
                t
            },
            HerdrError::Io(s) => {
                let mut t = String::from_str("io: ");
                t.append(s.as_str());
                t
            },
            HerdrError::Json(s) => {
                let mut t = String::from_str("json: ");
                t.append(s.as_str());
                t
            },
            HerdrError::Api(s) => {
                let mut t = String::from_str("herdr api: ");
                t.append(s.as_str());
                t
            },
        }
    }
}

/// The error object of a reply.
#[derive(Clone, Debug)]
pub struct ApiError {
    pub message: Option<String>,
}

/// What a reply means: its error when it carries one (with a stand-in text
/// when the error has no message), else its result, else a complaint that
/// the result is missing.
pub fn api_result<T>(result: Option<T>, error: Option<ApiError>) -> (out: Result<T, HerdrError>)
    ensures
        match error {
            Some(e) => out matches Err(err) && err@ == ErrorView::Api(
                match e.message {
                    Some(m) => m@,
                    None => "unknown error"@,
                },
            ),
            None => match result {
                Some(r) => out == Ok::<T, HerdrError>(r),
                None => out matches Err(err) && err@ == ErrorView::Api("missing result"@),
            },
        },
{
    if let Some(error) = error {
        Err(
            HerdrError::Api(
                match error.message {
                    Some(m) => m,
                    None => String::from_str("unknown error"),
                },
            ),
        )
    } else if let Some(result) = result {
        Ok(result)
    } else {
        Err(HerdrError::Api(String::from_str("missing result")))
    }
}

/// Where the server's socket is: the `HERDR_SOCKET_PATH` override, else a
/// session's socket when `HERDR_SESSION` names one, else the default under
/// the home directory (the working directory when `HOME` is unset).
pub open spec fn socket_path_spec(
    env_path: Option<Seq<char>>,
    home: Option<Seq<char>>,
    session: Option<Seq<char>>,
) -> Seq<char> {
    match env_path {
        Some(p) => p,
        None => {
            let home = match home {
                Some(h) => h,
                None => "."@,
            };
            match session {
                Some(s) => join_spec(
                    join_spec(join_spec(home, ".config/herdr/sessions"@), s),
                    "herdr.sock"@,
                ),
                None => join_spec(home, ".config/herdr/herdr.sock"@),
            }
        },
    }
}

pub fn socket_path(env_path: Option<String>, home: Option<String>, session: Option<String>) -> (path:
    String)
    ensures
        path@ == socket_path_spec(opt_view(env_path), opt_view(home), opt_view(session)),
{
    if let Some(p) = env_path {
        return p;
    }
    let home = match home {
        Some(h) => h,
        None => String::from_str("."),
    };
    match session {
        Some(s) => {
            let sessions = join_path(home.as_str(), ".config/herdr/sessions");
            let dir = join_path(sessions.as_str(), s.as_str());
            join_path(dir.as_str(), "herdr.sock")
        },
        None => join_path(home.as_str(), ".config/herdr/herdr.sock"),
    }
}

/// The direction of a pane split.
#[derive(Clone, Copy, Debug, PartialEq, Eq)]
pub enum SplitDirection {
    Right,
    Down,
}

/// The requests the client sends to the server.
#[derive(Clone, Debug)]
pub enum HerdrRequest {
    Ping,
    WorkspaceList,
    TabList,
    PaneList,
    AgentList,
    SplitPane { pane_id: String, direction: SplitDirection },
    ClosePane { pane_id: String },
    ReadPaneAnsi { pane_id: String },
    FocusWorkspace { workspace_id: String },
    FocusTab { tab_id: String },
    CreateTab { workspace_id: Option<String> },
    CloseTab { tab_id: String },
    CreateWorkspace,
    CloseWorkspace { workspace_id: String },
    FocusPane { pane_id: String },
    SendKey { pane_id: String, key: String },
    SendText { pane_id: String, text: String },
    ResizeRight { pane_id: String },
    FocusRight,
    ReloadConfig,
}

pub open spec fn method_spec(r: HerdrRequest) -> Seq<char> {
    match r {
        HerdrRequest::Ping => "ping"@,
        HerdrRequest::WorkspaceList => "workspace.list"@,
        HerdrRequest::TabList => "tab.list"@,
        HerdrRequest::PaneList => "pane.list"@,
        HerdrRequest::AgentList => "agent.list"@,
        HerdrRequest::SplitPane { .. } => "pane.split"@,
        HerdrRequest::ClosePane { .. } => "pane.close"@,
        HerdrRequest::ReadPaneAnsi { .. } => "pane.read"@,
        HerdrRequest::FocusWorkspace { .. } => "workspace.focus"@,
        HerdrRequest::FocusTab { .. } => "tab.focus"@,
        HerdrRequest::CreateTab { .. } => "tab.create"@,
        HerdrRequest::CloseTab { .. } => "tab.close"@,
        HerdrRequest::CreateWorkspace => "workspace.create"@,
        HerdrRequest::CloseWorkspace { .. } => "workspace.close"@,
        HerdrRequest::FocusPane { .. } => "pane.focus"@,
        HerdrRequest::SendKey { .. } => "pane.send_keys"@,
        HerdrRequest::SendText { .. } => "pane.send_text"@,
        HerdrRequest::ResizeRight { .. } => "pane.resize"@,
        HerdrRequest::FocusRight => "pane.focus_direction"@,
        HerdrRequest::ReloadConfig => "server.reload_config"@,
    }
}

/// Which kind of request `r` is, one number per kind.
pub open spec fn request_kind(r: HerdrRequest) -> int {
    match r {
        HerdrRequest::Ping => 0,
        HerdrRequest::WorkspaceList => 1,
        HerdrRequest::TabList => 2,
        HerdrRequest::PaneList => 3,
        HerdrRequest::AgentList => 4,
        HerdrRequest::SplitPane { .. } => 5,
        HerdrRequest::ClosePane { .. } => 6,
        HerdrRequest::ReadPaneAnsi { .. } => 7,
        HerdrRequest::FocusWorkspace { .. } => 8,
        HerdrRequest::FocusTab { .. } => 9,
        HerdrRequest::CreateTab { .. } => 10,
        HerdrRequest::CloseTab { .. } => 11,
        HerdrRequest::CreateWorkspace => 12,
        HerdrRequest::CloseWorkspace { .. } => 13,
        HerdrRequest::FocusPane { .. } => 14,
        HerdrRequest::SendKey { .. } => 15,
        HerdrRequest::SendText { .. } => 16,
        HerdrRequest::ResizeRight { .. } => 17,
        HerdrRequest::FocusRight => 18,
        HerdrRequest::ReloadConfig => 19,
    }
}

/// The object a request acts on, as the server's method names begin with
/// it: a workspace, a tab, a pane, the agent list or the server; a ping is
/// just `ping`.
pub open spec fn object_prefix(r: HerdrRequest) -> Seq<char> {
    match r {
        HerdrRequest::Ping => "ping"@,
        HerdrRequest::WorkspaceList => "workspace."@,
        HerdrRequest::TabList => "tab."@,
        HerdrRequest::PaneList => "pane."@,
        HerdrRequest::AgentList => "agent."@,
        HerdrRequest::SplitPane { .. } => "pane."@,
        HerdrRequest::ClosePane { .. } => "pane."@,
        HerdrRequest::ReadPaneAnsi { .. } => "pane."@,
        HerdrRequest::FocusWorkspace { .. } => "workspace."@,
        HerdrRequest::FocusTab { .. } => "tab."@,
        HerdrRequest::CreateTab { .. } => "tab."@,
        HerdrRequest::CloseTab { .. } => "tab."@,
        HerdrRequest::CreateWorkspace => "workspace."@,
        HerdrRequest::CloseWorkspace { .. } => "workspace."@,
        HerdrRequest::FocusPane { .. } => "pane."@,
        HerdrRequest::SendKey { .. } => "pane."@,
        HerdrRequest::SendText { .. } => "pane."@,
        HerdrRequest::ResizeRight { .. } => "pane."@,
        HerdrRequest::FocusRight => "pane."@,
        HerdrRequest::ReloadConfig => "server."@,
    }
}

/// Each request calls a method of the object it acts on: tab requests call
/// `tab.` methods, workspace requests `workspace.` methods, and so on.
pub proof fn law_request_method_names_its_object(r: HerdrRequest)
    ensures
        object_prefix(r).len() <= method_spec(r).len(),
        method_spec(r).take(object_prefix(r).len() as int) == object_prefix(r),
{
    reveal_strlit("ping");
    reveal_strlit("workspace.list");
    reveal_strlit("tab.list");
    reveal_strlit("pane.list");
    reveal_strlit("agent.list");
    reveal_strlit("pane.split");
    reveal_strlit("pane.close");
    reveal_strlit("pane.read");
    reveal_strlit("workspace.focus");
    reveal_strlit("tab.focus");
    reveal_strlit("tab.create");
    reveal_strlit("tab.close");
    reveal_strlit("workspace.create");
    reveal_strlit("workspace.close");
    reveal_strlit("pane.focus");
    reveal_strlit("pane.send_keys");
    reveal_strlit("pane.send_text");
    reveal_strlit("pane.resize");
    reveal_strlit("pane.focus_direction");
    reveal_strlit("server.reload_config");
    reveal_strlit("agent.");
    reveal_strlit("pane.");
    reveal_strlit("ping");
    reveal_strlit("server.");
    reveal_strlit("tab.");
    reveal_strlit("workspace.");
    assert(method_spec(r).take(object_prefix(r).len() as int) =~= object_prefix(r));
}

/// The length, first and last character of the method each request calls.
spec fn method_marks(r: HerdrRequest) -> (nat, char, char) {
    match r {
        HerdrRequest::Ping => (4, 'p', 'g'),
        HerdrRequest::WorkspaceList => (14, 'w', 't'),
        HerdrRequest::TabList => (8, 't', 't'),
        HerdrRequest::PaneList => (9, 'p', 't'),
        HerdrRequest::AgentList => (10, 'a', 't'),
        HerdrRequest::SplitPane { .. } => (10, 'p', 't'),
        HerdrRequest::ClosePane { .. } => (10, 'p', 'e'),
        HerdrRequest::ReadPaneAnsi { .. } => (9, 'p', 'd'),
        HerdrRequest::FocusWorkspace { .. } => (15, 'w', 's'),
        HerdrRequest::FocusTab { .. } => (9, 't', 's'),
        HerdrRequest::CreateTab { .. } => (10, 't', 'e'),
        HerdrRequest::CloseTab { .. } => (9, 't', 'e'),
        HerdrRequest::CreateWorkspace => (16, 'w', 'e'),
        HerdrRequest::CloseWorkspace { .. } => (15, 'w', 'e'),
        HerdrRequest::FocusPane { .. } => (10, 'p', 's'),
        HerdrRequest::SendKey { .. } => (14, 'p', 's'),
        HerdrRequest::SendText { .. } => (14, 'p', 't'),
        HerdrRequest::ResizeRight { .. } => (11, 'p', 'e'),
        HerdrRequest::FocusRight => (20, 'p', 'n'),
        HerdrRequest::ReloadConfig => (20, 's', 'g'),
    }
}

proof fn lemma_method_marks(r: HerdrRequest)
    ensures
        method_spec(r).len() > 0,
        (method_spec(r).len(), method_spec(r)[0], method_spec(r).last()) == method_marks(r),
{
    reveal_strlit("ping");
    reveal_strlit("workspace.list");
    reveal_strlit("tab.list");
    reveal_strlit("pane.list");
    reveal_strlit("agent.list");
    reveal_strlit("pane.split");
    reveal_strlit("pane.close");
    reveal_strlit("pane.read");
    reveal_strlit("workspace.focus");
    reveal_strlit("tab.focus");
    reveal_strlit("tab.create");
    reveal_strlit("tab.close");
    reveal_strlit("workspace.create");
    reveal_strlit("workspace.close");
    reveal_strlit("pane.focus");
    reveal_strlit("pane.send_keys");
    reveal_strlit("pane.send_text");
    reveal_strlit("pane.resize");
    reveal_strlit("pane.focus_direction");
    reveal_strlit("server.reload_config");
}

/// Different kinds of request call different methods, so the server never
/// takes one request for another.
pub proof fn law_request_methods_distinct(a: HerdrRequest, b: HerdrRequest)
    ensures
        request_kind(a) != request_kind(b) ==> method_spec(a) != method_spec(b),
{
    lemma_method_marks(a);
    lemma_method_marks(b);
}

impl HerdrRequest {
    /// The API method a request calls.
    pub fn method(&self) -> (m: &'static str)
        ensures
            m@ == method_spec(*self),
    {
        match self {
            HerdrRequest::Ping => "ping",
            HerdrRequest::WorkspaceList => "workspace.list",
            HerdrRequest::TabList => "tab.list",
            HerdrRequest::PaneList => "pane.list",
            HerdrRequest::AgentList => "agent.list",
            HerdrRequest::SplitPane { .. } => "pane.split",
            HerdrRequest::ClosePane { .. } => "pane.close",
            HerdrRequest::ReadPaneAnsi { .. } => "pane.read",
            HerdrRequest::FocusWorkspace { .. } => "workspace.focus",
            HerdrRequest::FocusTab { .. } => "tab.focus",
            HerdrRequest::CreateTab { .. } => "tab.create",
            HerdrRequest::CloseTab { .. } => "tab.close",
            HerdrRequest::CreateWorkspace => "workspace.create",
            HerdrRequest::CloseWorkspace { .. } => "workspace.close",
            HerdrRequest::FocusPane { .. } => "pane.focus",
            HerdrRequest::SendKey { .. } => "pane.send_keys",
            HerdrRequest::SendText { .. } => "pane.send_text",
            HerdrRequest::ResizeRight { .. } => "pane.resize",
            HerdrRequest::FocusRight => "pane.focus_direction",
            HerdrRequest::ReloadConfig => "server.reload_config",
        }
    }
}

} // verus!
