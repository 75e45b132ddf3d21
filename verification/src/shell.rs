//! The rules of the client's shell: which workspace, tab and pane are
//! active, which tabs and panes are shown, where the next and previous tab
//! are, when a workspace is closed, and what the sidebar rows say.
use vstd::prelude::*;

use crate::paths::{dir_name, dir_name_spec};
use crate::text::{decimal, decimal_string, lemma_decimal_injective, str_eq, strs};
use crate::herdr::{
    clone_opt, focus_index, focus_position, lemma_first_true, opt_view, pane_flags, tab_flags,
    workspace_flags, Agent, HerdrState, Pane, Tab, Workspace,
};

verus! {

broadcast use vstd::string::group_string_axioms;

/// The first position of `id` in `ids`.
pub open spec fn index_of(ids: Seq<Seq<char>>, id: Seq<char>) -> Option<int>
    decreases ids.len(),
{
    if ids.len() == 0 {
        None
    } else if ids[0] == id {
        Some(0)
    } else {
        match index_of(ids.drop_first(), id) {
            Some(i) => Some(i + 1),
            None => None,
        }
    }
}

pub proof fn lemma_index_of(ids: Seq<Seq<char>>, id: Seq<char>)
    ensures
        index_of(ids, id) matches Some(i) ==> 0 <= i < ids.len() && ids[i] == id && forall|j: int|
            0 <= j < i ==> ids[j] != id,
        index_of(ids, id) is None ==> forall|j: int| 0 <= j < ids.len() ==> ids[j] != id,
    decreases ids.len(),
{
    if ids.len() > 0 && ids[0] != id {
        lemma_index_of(ids.drop_first(), id);
        assert forall|j: int| 1 <= j < ids.len() implies ids[j] == ids.drop_first()[j - 1] by {}
    }
}

pub open spec fn workspace_ids(s: HerdrState) -> Seq<Seq<char>> {
    s.workspaces@.map_values(|w: Workspace| w.workspace_id@)
}

pub open spec fn tab_ids(s: HerdrState) -> Seq<Seq<char>> {
    s.tabs@.map_values(|t: Tab| t.tab_id@)
}

pub open spec fn pane_ids(s: HerdrState) -> Seq<Seq<char>> {
    s.panes@.map_values(|p: Pane| p.pane_id@)
}

/// The item an id points at when it names one, else the list's focus.
pub open spec fn resolve(focused: Option<Seq<char>>, ids: Seq<Seq<char>>, flags: Seq<bool>) -> Option<
    int,
> {
    match focused {
        Some(id) => match index_of(ids, id) {
            Some(i) => Some(i),
            None => focus_index(flags),
        },
        None => focus_index(flags),
    }
}

pub open spec fn active_workspace_spec(s: HerdrState) -> Option<int> {
    resolve(opt_view(s.focused_workspace_id), workspace_ids(s), workspace_flags(s.workspaces@))
}

pub open spec fn active_tab_spec(s: HerdrState) -> Option<int> {
    resolve(opt_view(s.focused_tab_id), tab_ids(s), tab_flags(s.tabs@))
}

pub open spec fn focused_pane_spec(s: HerdrState) -> Option<int> {
    resolve(opt_view(s.focused_pane_id), pane_ids(s), pane_flags(s.panes@))
}

pub open spec fn as_int(o: Option<usize>) -> Option<int> {
    match o {
        Some(i) => Some(i as int),
        None => None,
    }
}

fn flags_of_workspaces(ws: &Vec<Workspace>) -> (f: Vec<bool>)
    ensures
        f@ == workspace_flags(ws@),
{
    let mut f: Vec<bool> = Vec::new();
    let mut i: usize = 0;
    while i < ws.len()
        invariant
            i <= ws.len(),
            f@ == workspace_flags(ws@).take(i as int),
        decreases ws.len() - i,
    {
        f.push(ws[i].focused);
        assert(f@ =~= workspace_flags(ws@).take(i + 1));
        i = i + 1;
    }
    assert(f@ =~= workspace_flags(ws@));
    f
}

fn flags_of_tabs(ts: &Vec<Tab>) -> (f: Vec<bool>)
    ensures
        f@ == tab_flags(ts@),
{
    let mut f: Vec<bool> = Vec::new();
    let mut i: usize = 0;
    while i < ts.len()
        invariant
            i <= ts.len(),
            f@ == tab_flags(ts@).take(i as int),
        decreases ts.len() - i,
    {
        f.push(ts[i].focused);
        assert(f@ =~= tab_flags(ts@).take(i + 1));
        i = i + 1;
    }
    assert(f@ =~= tab_flags(ts@));
    f
}

fn flags_of_panes(ps: &Vec<Pane>) -> (f: Vec<bool>)
    ensures
        f@ == pane_flags(ps@),
{
    let mut f: Vec<bool> = Vec::new();
    let mut i: usize = 0;
    while i < ps.len()
        invariant
            i <= ps.len(),
            f@ == pane_flags(ps@).take(i as int),
        decreases ps.len() - i,
    {
        f.push(ps[i].focused);
        assert(f@ =~= pane_flags(ps@).take(i + 1));
        i = i + 1;
    }
    assert(f@ =~= pane_flags(ps@));
    f
}

fn find_workspace(ws: &Vec<Workspace>, id: &String) -> (r: Option<usize>)
    ensures
        as_int(r) == index_of(ws@.map_values(|w: Workspace| w.workspace_id@), id@),
        r matches Some(i) ==> i < ws@.len(),
{
    let ghost ids = ws@.map_values(|w: Workspace| w.workspace_id@);
    proof {
        lemma_index_of(ids, id@);
    }
    let mut i: usize = 0;
    while i < ws.len()
        invariant
            i <= ws.len(),
            ids == ws@.map_values(|w: Workspace| w.workspace_id@),
            forall|j: int| 0 <= j < i ==> ids[j] != id@,
            index_of(ids, id@) matches Some(k) ==> 0 <= k < ids.len() && ids[k] == id@ && forall|
                j: int,
            | 0 <= j < k ==> ids[j] != id@,
            index_of(ids, id@) is None ==> forall|j: int| 0 <= j < ids.len() ==> ids[j] != id@,
        decreases ws.len() - i,
    {
        if ws[i].workspace_id == *id {
            assert(ids[i as int] == id@);
            return Some(i);
        }
        i = i + 1;
    }
    None
}

fn find_tab(ts: &Vec<Tab>, id: &String) -> (r: Option<usize>)
    ensures
        as_int(r) == index_of(ts@.map_values(|t: Tab| t.tab_id@), id@),
        r matches Some(i) ==> i < ts@.len(),
{
    let ghost ids = ts@.map_values(|t: Tab| t.tab_id@);
    proof {
        lemma_index_of(ids, id@);
    }
    let mut i: usize = 0;
    while i < ts.len()
        invariant
            i <= ts.len(),
            ids == ts@.map_values(|t: Tab| t.tab_id@),
            forall|j: int| 0 <= j < i ==> ids[j] != id@,
            index_of(ids, id@) matches Some(k) ==> 0 <= k < ids.len() && ids[k] == id@ && forall|
                j: int,
            | 0 <= j < k ==> ids[j] != id@,
            index_of(ids, id@) is None ==> forall|j: int| 0 <= j < ids.len() ==> ids[j] != id@,
        decreases ts.len() - i,
    {
        if ts[i].tab_id == *id {
            assert(ids[i as int] == id@);
            return Some(i);
        }
        i = i + 1;
    }
    None
}

fn find_pane(ps: &Vec<Pane>, id: &String) -> (r: Option<usize>)
    ensures
        as_int(r) == index_of(ps@.map_values(|p: Pane| p.pane_id@), id@),
        r matches Some(i) ==> i < ps@.len(),
{
    let ghost ids = ps@.map_values(|p: Pane| p.pane_id@);
    proof {
        lemma_index_of(ids, id@);
    }
    let mut i: usize = 0;
    while i < ps.len()
        invariant
            i <= ps.len(),
            ids == ps@.map_values(|p: Pane| p.pane_id@),
            forall|j: int| 0 <= j < i ==> ids[j] != id@,
            index_of(ids, id@) matches Some(k) ==> 0 <= k < ids.len() && ids[k] == id@ && forall|
                j: int,
            | 0 <= j < k ==> ids[j] != id@,
            index_of(ids, id@) is None ==> forall|j: int| 0 <= j < ids.len() ==> ids[j] != id@,
        decreases ps.len() - i,
    {
        if ps[i].pane_id == *id {
            assert(ids[i as int] == id@);
            return Some(i);
        }
        i = i + 1;
    }
    None
}

/// The active workspace: the one the server reports focused, else the
/// first one flagged focused, else the first.
pub fn active_workspace(state: &HerdrState) -> (r: Option<usize>)
    ensures
        as_int(r) == active_workspace_spec(*state),
        r matches Some(i) ==> i < state.workspaces@.len(),
{
    proof {
        crate::herdr::law_focus_names_focused_item(workspace_flags(state.workspaces@));
    }
    if let Some(id) = &state.focused_workspace_id {
        if let Some(i) = find_workspace(&state.workspaces, id) {
            return Some(i);
        }
    }
    focus_position(&flags_of_workspaces(&state.workspaces))
}

/// The active tab, chosen the same way.
pub fn active_tab(state: &HerdrState) -> (r: Option<usize>)
    ensures
        as_int(r) == active_tab_spec(*state),
        r matches Some(i) ==> i < state.tabs@.len(),
{
    proof {
        crate::herdr::law_focus_names_focused_item(tab_flags(state.tabs@));
    }
    if let Some(id) = &state.focused_tab_id {
        if let Some(i) = find_tab(&state.tabs, id) {
            return Some(i);
        }
    }
    focus_position(&flags_of_tabs(&state.tabs))
}

/// The focused pane, chosen the same way.
pub fn focused_pane(state: &HerdrState) -> (r: Option<usize>)
    ensures
        as_int(r) == focused_pane_spec(*state),
        r matches Some(i) ==> i < state.panes@.len(),
{
    proof {
        crate::herdr::law_focus_names_focused_item(pane_flags(state.panes@));
    }
    if let Some(id) = &state.focused_pane_id {
        if let Some(i) = find_pane(&state.panes, id) {
            return Some(i);
        }
    }
    focus_position(&flags_of_panes(&state.panes))
}

/// The id of the active workspace: the focused id the server reported, even
/// when no workspace carries it, else the id of the active workspace.
pub open spec fn active_workspace_id_spec(s: HerdrState) -> Option<Seq<char>> {
    match s.focused_workspace_id {
        Some(id) => Some(id@),
        None => match active_workspace_spec(s) {
            Some(i) => Some(s.workspaces@[i].workspace_id@),
            None => None,
        },
    }
}

pub fn active_workspace_id(state: &HerdrState) -> (r: Option<String>)
    ensures
        opt_view(r) == active_workspace_id_spec(*state),
{
    match &state.focused_workspace_id {
        Some(id) => Some(id.clone()),
        None => match active_workspace(state) {
            Some(i) => Some(state.workspaces[i].workspace_id.clone()),
            None => None,
        },
    }
}

/// The id of the active tab: the focused id the server reported, else the
/// id of the active tab.
pub open spec fn active_tab_id_spec(s: HerdrState) -> Option<Seq<char>> {
    match s.focused_tab_id {
        Some(id) => Some(id@),
        None => match active_tab_spec(s) {
            Some(i) => Some(s.tabs@[i].tab_id@),
            None => None,
        },
    }
}

pub fn active_tab_id(state: &HerdrState) -> (r: Option<String>)
    ensures
        opt_view(r) == active_tab_id_spec(*state),
{
    match &state.focused_tab_id {
        Some(id) => Some(id.clone()),
        None => match active_tab(state) {
            Some(i) => Some(state.tabs[i].tab_id.clone()),
            None => None,
        },
    }
}

/// What the terminal view attaches to: the focused pane's terminal, or the
/// pane itself when it names no terminal.
pub open spec fn terminal_target_spec(s: HerdrState) -> Option<Seq<char>> {
    match focused_pane_spec(s) {
        Some(i) => match s.panes@[i].terminal_id {
            Some(t) => Some(t@),
            None => Some(s.panes@[i].pane_id@),
        },
        None => None,
    }
}

pub fn terminal_target(state: &HerdrState) -> (r: Option<String>)
    ensures
        opt_view(r) == terminal_target_spec(*state),
{
    match focused_pane(state) {
        Some(i) => match &state.panes[i].terminal_id {
            Some(t) => Some(t.clone()),
            None => Some(state.panes[i].pane_id.clone()),
        },
        None => None,
    }
}

pub open spec fn pane_in_workspace(p: Pane, wid: Seq<char>) -> bool {
    opt_view(p.workspace_id) == Some(wid)
}

/// After a pane closes, its workspace is closed too when no pane is left
/// in it.
pub open spec fn close_if_empty_spec(s: HerdrState) -> Option<Seq<char>> {
    match active_workspace_id_spec(s) {
        Some(wid) => if exists|i: int| 0 <= i < s.panes@.len() && pane_in_workspace(s.panes@[i], wid) {
            None
        } else {
            Some(wid)
        },
        None => None,
    }
}

fn in_workspace(p: &Pane, wid: &String) -> (b: bool)
    ensures
        b == pane_in_workspace(*p, wid@),
{
    match &p.workspace_id {
        Some(w) => *w == *wid,
        None => false,
    }
}

/// The workspace to close once a pane was closed, if any.
pub fn workspace_to_close_if_empty(state: &HerdrState) -> (r: Option<String>)
    ensures
        opt_view(r) == close_if_empty_spec(*state),
{
    let wid = match active_workspace_id(state) {
        Some(w) => w,
        None => return None,
    };
    let mut i: usize = 0;
    while i < state.panes.len()
        invariant
            i <= state.panes.len(),
            forall|j: int| 0 <= j < i ==> !pane_in_workspace(#[trigger] state.panes@[j], wid@),
            active_workspace_id_spec(*state) == Some(wid@),
        decreases state.panes.len() - i,
    {
        if in_workspace(&state.panes[i], &wid) {
            assert(pane_in_workspace(state.panes@[i as int], wid@));
            return None;
        }
        i = i + 1;
    }
    Some(wid)
}

pub open spec fn pane_shows(p: Pane, target: Seq<char>) -> bool {
    opt_view(p.terminal_id) == Some(target) || p.pane_id@ == target
}

/// How many panes of the list belong to a workspace.
pub open spec fn count_in_workspace(panes: Seq<Pane>, wid: Seq<char>) -> int
    decreases panes.len(),
{
    if panes.len() == 0 {
        0
    } else {
        count_in_workspace(panes.drop_last(), wid) + if pane_in_workspace(panes.last(), wid) {
            1int
        } else {
            0int
        }
    }
}

/// When a terminal exits, its workspace is closed when that terminal was the
/// workspace's only pane.
pub open spec fn close_after_exit_spec(s: HerdrState, target: Seq<char>) -> Option<Seq<char>> {
    match active_workspace_id_spec(s) {
        Some(wid) => if (exists|i: int|
            0 <= i < s.panes@.len() && pane_in_workspace(s.panes@[i], wid) && pane_shows(
                s.panes@[i],
                target,
            )) && count_in_workspace(s.panes@, wid) <= 1 {
            Some(wid)
        } else {
            None
        },
        None => None,
    }
}

/// The workspace to close after the terminal `target` exited, if any.
pub fn workspace_to_close_after_exit(state: &HerdrState, target: &str) -> (r: Option<String>)
    ensures
        opt_view(r) == close_after_exit_spec(*state, target@),
{
    let wid = match active_workspace_id(state) {
        Some(w) => w,
        None => return None,
    };
    let mut count: usize = 0;
    let mut shown = false;
    let mut i: usize = 0;
    while i < state.panes.len()
        invariant
            i <= state.panes.len(),
            count == count_in_workspace(state.panes@.take(i as int), wid@),
            count <= i,
            shown == exists|j: int|
                0 <= j < i && pane_in_workspace(state.panes@[j], wid@) && pane_shows(
                    state.panes@[j],
                    target@,
                ),
        decreases state.panes.len() - i,
    {
        let p = &state.panes[i];
        assert(state.panes@.take(i + 1).drop_last() =~= state.panes@.take(i as int));
        if in_workspace(p, &wid) {
            count = count + 1;
            let t = match &p.terminal_id {
                Some(t) => crate::text::str_eq(t.as_str(), target),
                None => false,
            };
            if t || crate::text::str_eq(p.pane_id.as_str(), target) {
                shown = true;
            }
        }
        i = i + 1;
    }
    assert(state.panes@.take(state.panes.len() as int) =~= state.panes@);
    if shown && count <= 1 {
        Some(wid)
    } else {
        None
    }
}


/// A tab belongs to a workspace when it names that workspace or none.
pub open spec fn tab_in_workspace(t: Tab, wid: Seq<char>) -> bool {
    match t.workspace_id {
        Some(w) => w@ == wid,
        None => true,
    }
}

/// The indices, in order, of the first `n` tabs that belong to `wid`.
pub open spec fn tabs_of_workspace(tabs: Seq<Tab>, wid: Seq<char>, n: int) -> Seq<usize>
    decreases n,
{
    if n <= 0 {
        Seq::empty()
    } else {
        let prev = tabs_of_workspace(tabs, wid, n - 1);
        if tab_in_workspace(tabs[n - 1], wid) {
            prev.push((n - 1) as usize)
        } else {
            prev
        }
    }
}

pub open spec fn all_indices(n: nat) -> Seq<usize> {
    Seq::new(n, |i: int| i as usize)
}

/// The tabs shown: those of the active workspace, or all tabs when none
/// belongs to it; none without an active workspace.
pub open spec fn visible_tabs_spec(s: HerdrState) -> Seq<usize> {
    match active_workspace_id_spec(s) {
        Some(wid) => {
            let own = tabs_of_workspace(s.tabs@, wid, s.tabs@.len() as int);
            if own.len() == 0 {
                all_indices(s.tabs@.len())
            } else {
                own
            }
        },
        None => Seq::empty(),
    }
}

fn indices(n: usize) -> (v: Vec<usize>)
    ensures
        v@ == all_indices(n as nat),
{
    let mut v: Vec<usize> = Vec::new();
    let mut i: usize = 0;
    while i < n
        invariant
            i <= n,
            v@ == all_indices(i as nat),
        decreases n - i,
    {
        v.push(i);
        assert(v@ =~= all_indices((i + 1) as nat));
        i = i + 1;
    }
    v
}

pub fn visible_tabs(state: &HerdrState) -> (v: Vec<usize>)
    ensures
        v@ == visible_tabs_spec(*state),
        forall|k: int| 0 <= k < v@.len() ==> v@[k] < state.tabs@.len(),
{
    let wid = match active_workspace_id(state) {
        Some(w) => w,
        None => return Vec::new(),
    };
    let mut own: Vec<usize> = Vec::new();
    let mut i: usize = 0;
    while i < state.tabs.len()
        invariant
            i <= state.tabs.len(),
            own@ == tabs_of_workspace(state.tabs@, wid@, i as int),
            forall|k: int| 0 <= k < own@.len() ==> own@[k] < i,
        decreases state.tabs.len() - i,
    {
        let belongs = match &state.tabs[i].workspace_id {
            Some(w) => *w == wid,
            None => true,
        };
        if belongs {
            own.push(i);
        }
        i = i + 1;
    }
    if own.len() == 0 {
        indices(state.tabs.len())
    } else {
        own
    }
}

/// A pane is shown when it belongs to the active tab and workspace; a pane
/// that names no tab (or no workspace) belongs to every one.
pub open spec fn pane_shown(p: Pane, tab: Option<Seq<char>>, wid: Option<Seq<char>>) -> bool {
    (match tab {
        Some(t) => match p.tab_id {
            Some(pt) => pt@ == t,
            None => true,
        },
        None => true,
    }) && (match wid {
        Some(w) => match p.workspace_id {
            Some(pw) => pw@ == w,
            None => true,
        },
        None => true,
    })
}

pub open spec fn shown_panes(
    panes: Seq<Pane>,
    tab: Option<Seq<char>>,
    wid: Option<Seq<char>>,
    n: int,
) -> Seq<usize>
    decreases n,
{
    if n <= 0 {
        Seq::empty()
    } else {
        let prev = shown_panes(panes, tab, wid, n - 1);
        if pane_shown(panes[n - 1], tab, wid) {
            prev.push((n - 1) as usize)
        } else {
            prev
        }
    }
}

/// The panes shown: those of the active tab in the active workspace, or
/// all panes when none qualifies.
pub open spec fn visible_panes_spec(s: HerdrState) -> Seq<usize> {
    let own = shown_panes(
        s.panes@,
        active_tab_id_spec(s),
        active_workspace_id_spec(s),
        s.panes@.len() as int,
    );
    if own.len() == 0 {
        all_indices(s.panes@.len())
    } else {
        own
    }
}

fn opt_matches(field: &Option<String>, want: &Option<String>) -> (b: bool)
    ensures
        b == (match opt_view(*want) {
            Some(w) => match *field {
                Some(f) => f@ == w,
                None => true,
            },
            None => true,
        }),
{
    match want {
        Some(w) => match field {
            Some(f) => *f == *w,
            None => true,
        },
        None => true,
    }
}

pub fn visible_panes(state: &HerdrState) -> (v: Vec<usize>)
    ensures
        v@ == visible_panes_spec(*state),
        forall|k: int| 0 <= k < v@.len() ==> v@[k] < state.panes@.len(),
{
    let tab = active_tab_id(state);
    let wid = active_workspace_id(state);
    let mut own: Vec<usize> = Vec::new();
    let mut i: usize = 0;
    while i < state.panes.len()
        invariant
            i <= state.panes.len(),
            own@ == shown_panes(state.panes@, opt_view(tab), opt_view(wid), i as int),
            forall|k: int| 0 <= k < own@.len() ==> own@[k] < i,
        decreases state.panes.len() - i,
    {
        let p = &state.panes[i];
        if opt_matches(&p.tab_id, &tab) && opt_matches(&p.workspace_id, &wid) {
            own.push(i);
        }
        i = i + 1;
    }
    if own.len() == 0 {
        indices(state.panes.len())
    } else {
        own
    }
}

/// What the terminal area shows.
#[derive(Clone, Copy, Debug, PartialEq, Eq, Structural)]
pub enum PaneView {
    /// No pane and no frame: the status message.
    Empty,
    /// No pane, but a frame to show.
    TerminalOnly,
    /// The terminal of this pane.
    Pane(usize),
}

/// Among the shown panes, the first one flagged focused, else the first.
pub open spec fn pane_view_spec(s: HerdrState, frame_empty: bool) -> PaneView {
    let shown = visible_panes_spec(s);
    if shown.len() == 0 {
        if frame_empty {
            PaneView::Empty
        } else {
            PaneView::TerminalOnly
        }
    } else {
        match focus_index(shown.map_values(|k: usize| s.panes@[k as int].focused)) {
            Some(i) => PaneView::Pane(shown[i]),
            None => PaneView::Pane(shown[0]),
        }
    }
}

pub fn pane_view(state: &HerdrState, frame_empty: bool) -> (v: PaneView)
    ensures
        v == pane_view_spec(*state, frame_empty),
        v matches PaneView::Pane(k) ==> k < state.panes@.len(),
{
    let shown = visible_panes(state);
    if shown.len() == 0 {
        return if frame_empty {
            PaneView::Empty
        } else {
            PaneView::TerminalOnly
        };
    }
    let mut flags: Vec<bool> = Vec::new();
    let mut i: usize = 0;
    while i < shown.len()
        invariant
            i <= shown.len(),
            forall|k: int| 0 <= k < shown@.len() ==> shown@[k] < state.panes@.len(),
            flags@ == shown@.map_values(|k: usize| state.panes@[k as int].focused).take(i as int),
        decreases shown.len() - i,
    {
        flags.push(state.panes[shown[i]].focused);
        assert(flags@ =~= shown@.map_values(|k: usize| state.panes@[k as int].focused).take(i + 1));
        i = i + 1;
    }
    assert(flags@ =~= shown@.map_values(|k: usize| state.panes@[k as int].focused));
    match focus_position(&flags) {
        Some(p) => {
            proof {
                lemma_first_true(flags@);
            }
            PaneView::Pane(shown[p])
        },
        None => PaneView::Pane(shown[0]),
    }
}

/// The name on the space switcher: the active workspace's label, else its
/// id, else `space`.
pub open spec fn space_name_spec(s: HerdrState) -> Seq<char> {
    match active_workspace_spec(s) {
        Some(i) => match s.workspaces@[i].label {
            Some(l) => l@,
            None => s.workspaces@[i].workspace_id@,
        },
        None => "space"@,
    }
}

pub fn space_name(state: &HerdrState) -> (name: String)
    ensures
        name@ == space_name_spec(*state),
{
    match active_workspace(state) {
        Some(i) => workspace_title(&state.workspaces[i]),
        None => String::from_str("space"),
    }
}

/// Stepping `offset` places from position `from` in a ring of `len`.
pub open spec fn cycle_spec(from: int, offset: int, len: int) -> int {
    (from + offset) % len
}

pub fn cycle_index(from: usize, offset: isize, len: usize) -> (i: usize)
    requires
        len > 0,
    ensures
        i == cycle_spec(from as int, offset as int, len as int),
        i < len,
{
    let sum: i128 = from as i128 + offset as i128;
    let m = sum.checked_rem_euclid(len as i128).unwrap();
    m as usize
}

/// Stepping forward and then back by the same amount returns to the start.
pub proof fn law_cycle_round_trip(from: int, offset: int, len: int)
    requires
        len > 0,
        0 <= from < len,
    ensures
        0 <= cycle_spec(from, offset, len) < len,
        cycle_spec(cycle_spec(from, offset, len), -offset, len) == from,
{
    let there = (from + offset) % len;
    vstd::arithmetic::div_mod::lemma_mod_bound(from + offset, len);
    vstd::arithmetic::div_mod::lemma_add_mod_noop(from + offset, -offset, len);
    vstd::arithmetic::div_mod::lemma_mod_twice(from + offset, len);
    vstd::arithmetic::div_mod::lemma_small_mod(from as nat, len as nat);
    assert((there + (-offset) % len) % len == ((from + offset) % len + (-offset) % len) % len);
    vstd::arithmetic::div_mod::lemma_add_mod_noop(there, -offset, len);
}

/// The position of the first tab among `shown` whose id is `id`.
pub open spec fn position_of_tab(tabs: Seq<Tab>, shown: Seq<usize>, id: Seq<char>) -> Option<int> {
    index_of(shown.map_values(|k: usize| tabs[k as int].tab_id@), id)
}

/// The tab `offset` places from the active one among the shown tabs
/// (counting from the first when the active tab is not shown).
pub open spec fn tab_at_offset_spec(s: HerdrState, offset: int) -> Option<usize> {
    let shown = visible_tabs_spec(s);
    if shown.len() == 0 {
        None
    } else {
        let from = match active_tab_id_spec(s) {
            Some(id) => match position_of_tab(s.tabs@, shown, id) {
                Some(p) => p,
                None => 0,
            },
            None => 0,
        };
        Some(shown[cycle_spec(from, offset, shown.len() as int)])
    }
}

/// Stepping walks the shown tabs in their order and wraps around: with the
/// active tab first found at position `p` of the `n` shown tabs, offset `k`
/// lands on the shown tab at position `(p + k) mod n`, so the next tab is
/// the one after it and the previous tab the one before it.
pub proof fn law_tab_offset_steps_in_order(s: HerdrState, k: int, p: int)
    requires
        0 <= p < visible_tabs_spec(s).len(),
        active_tab_id_spec(s) == Some(s.tabs@[visible_tabs_spec(s)[p] as int].tab_id@),
        forall|q: int|
            0 <= q < p ==> s.tabs@[visible_tabs_spec(s)[q] as int].tab_id@ != s.tabs@[visible_tabs_spec(
                s,
            )[p] as int].tab_id@,
    ensures
        tab_at_offset_spec(s, k) == Some(
            visible_tabs_spec(s)[(p + k) % (visible_tabs_spec(s).len() as int)],
        ),
{
    let shown = visible_tabs_spec(s);
    let id = s.tabs@[shown[p] as int].tab_id@;
    let ids = shown.map_values(|t: usize| s.tabs@[t as int].tab_id@);
    lemma_index_of(ids, id);
    assert(ids[p] == id);
    match index_of(ids, id) {
        Some(i) => {
            assert(!(i < p)) by {
                if i < p {
                    assert(ids[i] == s.tabs@[shown[i] as int].tab_id@);
                }
            }
            assert(!(p < i));
        },
        None => {},
    }
}

/// When the active tab is not among the shown tabs, stepping counts from
/// the first shown tab: offset `k` lands on position `k mod n`.
pub proof fn law_tab_offset_from_first_when_active_hidden(s: HerdrState, k: int)
    requires
        visible_tabs_spec(s).len() > 0,
        forall|q: int|
            0 <= q < visible_tabs_spec(s).len() ==> active_tab_id_spec(s) != Some(
                s.tabs@[visible_tabs_spec(s)[q] as int].tab_id@,
            ),
    ensures
        tab_at_offset_spec(s, k) == Some(
            visible_tabs_spec(s)[k % (visible_tabs_spec(s).len() as int)],
        ),
{
    let shown = visible_tabs_spec(s);
    match active_tab_id_spec(s) {
        Some(id) => {
            let ids = shown.map_values(|t: usize| s.tabs@[t as int].tab_id@);
            lemma_index_of(ids, id);
            match index_of(ids, id) {
                Some(i) => {
                    assert(ids[i] == s.tabs@[shown[i] as int].tab_id@);
                },
                None => {},
            }
        },
        None => {},
    }
}

pub fn tab_at_offset(state: &HerdrState, offset: isize) -> (r: Option<usize>)
    ensures
        r == tab_at_offset_spec(*state, offset as int),
        r matches Some(k) ==> k < state.tabs@.len(),
{
    let shown = visible_tabs(state);
    if shown.len() == 0 {
        return None;
    }
    let ghost ids = shown@.map_values(|k: usize| state.tabs@[k as int].tab_id@);
    let from: usize = match active_tab_id(state) {
        Some(id) => {
            proof {
                lemma_index_of(ids, id@);
            }
            let mut p: usize = 0;
            let mut found: Option<usize> = None;
            while p < shown.len()
                invariant_except_break
                    found is None,
                invariant
                    p <= shown.len(),
                    ids == shown@.map_values(|k: usize| state.tabs@[k as int].tab_id@),
                    forall|k: int| 0 <= k < shown@.len() ==> shown@[k] < state.tabs@.len(),
                    forall|j: int| 0 <= j < p ==> ids[j] != id@,
                    index_of(ids, id@) matches Some(k) ==> 0 <= k < ids.len() && ids[k] == id@
                        && forall|j: int| 0 <= j < k ==> ids[j] != id@,
                    index_of(ids, id@) is None ==> forall|j: int| 0 <= j < ids.len() ==> ids[j] != id@,
                ensures
                    found matches Some(q) ==> index_of(ids, id@) == Some(q as int),
                    found is None ==> index_of(ids, id@) is None,
                decreases shown.len() - p,
            {
                if state.tabs[shown[p]].tab_id == id {
                    assert(ids[p as int] == id@);
                    found = Some(p);
                    break;
                }
                p = p + 1;
            }
            match found {
                Some(q) => q,
                None => 0,
            }
        },
        None => 0,
    };
    let next = cycle_index(from, offset, shown.len());
    Some(shown[next])
}

/// The workspace `offset` places from the active one, in server order
/// (counting from the first when the active one is not listed).
pub open spec fn workspace_at_offset_spec(s: HerdrState, offset: int) -> Option<usize> {
    if s.workspaces@.len() == 0 {
        None
    } else {
        let from = match active_workspace_id_spec(s) {
            Some(id) => match index_of(workspace_ids(s), id) {
                Some(p) => p,
                None => 0,
            },
            None => 0,
        };
        Some(cycle_spec(from, offset, s.workspaces@.len() as int) as usize)
    }
}

pub fn workspace_at_offset(state: &HerdrState, offset: isize) -> (r: Option<usize>)
    ensures
        r == workspace_at_offset_spec(*state, offset as int),
        r matches Some(k) ==> k < state.workspaces@.len(),
{
    if state.workspaces.len() == 0 {
        return None;
    }
    let from: usize = match active_workspace_id(state) {
        Some(id) => match find_workspace(&state.workspaces, &id) {
            Some(p) => p,
            None => 0,
        },
        None => 0,
    };
    Some(cycle_index(from, offset, state.workspaces.len()))
}


/// The first of three optional texts that is present.
pub open spec fn first_of(a: Option<String>, b: Option<String>, c: Option<String>) -> Option<
    Seq<char>,
> {
    match a {
        Some(x) => Some(x@),
        None => match b {
            Some(y) => Some(y@),
            None => opt_view(c),
        },
    }
}

fn first_of_exec(a: &Option<String>, b: &Option<String>, c: &Option<String>) -> (r: Option<String>)
    ensures
        opt_view(r) == first_of(*a, *b, *c),
{
    match a {
        Some(x) => Some(x.clone()),
        None => match b {
            Some(y) => Some(y.clone()),
            None => clone_opt(c),
        },
    }
}

pub open spec fn pane_tab_ids(panes: Seq<Pane>) -> Seq<Option<Seq<char>>> {
    panes.map_values(|p: Pane| opt_view(p.tab_id))
}

/// The first position holding `Some(id)`.
pub open spec fn index_of_some(ids: Seq<Option<Seq<char>>>, id: Seq<char>) -> Option<int>
    decreases ids.len(),
{
    if ids.len() == 0 {
        None
    } else if ids[0] == Some(id) {
        Some(0)
    } else {
        match index_of_some(ids.drop_first(), id) {
            Some(i) => Some(i + 1),
            None => None,
        }
    }
}

pub proof fn lemma_index_of_some(ids: Seq<Option<Seq<char>>>, id: Seq<char>)
    ensures
        index_of_some(ids, id) matches Some(i) ==> 0 <= i < ids.len() && ids[i] == Some(id)
            && forall|j: int| 0 <= j < i ==> ids[j] != Some(id),
        index_of_some(ids, id) is None ==> forall|j: int| 0 <= j < ids.len() ==> ids[j] != Some(id),
    decreases ids.len(),
{
    if ids.len() > 0 && ids[0] != Some(id) {
        lemma_index_of_some(ids.drop_first(), id);
        assert forall|j: int| 1 <= j < ids.len() implies ids[j] == ids.drop_first()[j - 1] by {}
    }
}

/// The title of a tab: its terminal title, title or label, else those of
/// its first pane, else its id.
pub open spec fn tab_title_spec(s: HerdrState, tab: Tab) -> Seq<char> {
    match first_of(tab.terminal_title, tab.title, tab.label) {
        Some(t) => t,
        None => match index_of_some(pane_tab_ids(s.panes@), tab.tab_id@) {
            Some(i) => match first_of(
                s.panes@[i].terminal_title,
                s.panes@[i].title,
                s.panes@[i].label,
            ) {
                Some(t) => t,
                None => tab.tab_id@,
            },
            None => tab.tab_id@,
        },
    }
}

pub fn tab_title(state: &HerdrState, tab: &Tab) -> (title: String)
    ensures
        title@ == tab_title_spec(*state, *tab),
{
    if let Some(t) = first_of_exec(&tab.terminal_title, &tab.title, &tab.label) {
        return t;
    }
    let ghost ids = pane_tab_ids(state.panes@);
    proof {
        lemma_index_of_some(ids, tab.tab_id@);
    }
    let mut i: usize = 0;
    while i < state.panes.len()
        invariant
            i <= state.panes.len(),
            ids == pane_tab_ids(state.panes@),
            first_of(tab.terminal_title, tab.title, tab.label) is None,
            forall|j: int| 0 <= j < i ==> ids[j] != Some(tab.tab_id@),
            index_of_some(ids, tab.tab_id@) matches Some(k) ==> 0 <= k < ids.len() && ids[k] == Some(
                tab.tab_id@,
            ) && forall|j: int| 0 <= j < k ==> ids[j] != Some(tab.tab_id@),
            index_of_some(ids, tab.tab_id@) is None ==> forall|j: int|
                0 <= j < ids.len() ==> ids[j] != Some(tab.tab_id@),
        decreases state.panes.len() - i,
    {
        let p = &state.panes[i];
        let same = match &p.tab_id {
            Some(t) => *t == tab.tab_id,
            None => false,
        };
        if same {
            assert(ids[i as int] == Some(tab.tab_id@));
            assert(index_of_some(ids, tab.tab_id@) == Some(i as int));
            return match first_of_exec(&p.terminal_title, &p.title, &p.label) {
                Some(t) => t,
                None => tab.tab_id.clone(),
            };
        }
        assert(ids[i as int] != Some(tab.tab_id@));
        i = i + 1;
    }
    tab.tab_id.clone()
}

/// A tab is highlighted when it is flagged focused or is the focused tab.
pub open spec fn tab_focused_spec(tab: Tab, focused_tab_id: Option<Seq<char>>) -> bool {
    tab.focused || focused_tab_id == Some(tab.tab_id@)
}

pub fn tab_focused(tab: &Tab, focused_tab_id: &Option<String>) -> (b: bool)
    ensures
        b == tab_focused_spec(*tab, opt_view(*focused_tab_id)),
{
    tab.focused || match focused_tab_id {
        Some(f) => *f == tab.tab_id,
        None => false,
    }
}

/// The second line of a tab row: its agent state, else whether it is the
/// active tab.
pub open spec fn tab_detail_spec(tab: Tab, focused: bool) -> Seq<char> {
    match tab.agent_status {
        Some(st) => st@,
        None => if focused {
            "active"@
        } else {
            "idle"@
        },
    }
}

pub fn tab_detail(tab: &Tab, focused: bool) -> (d: String)
    ensures
        d@ == tab_detail_spec(*tab, focused),
{
    match &tab.agent_status {
        Some(st) => st.clone(),
        None => if focused {
            String::from_str("active")
        } else {
            String::from_str("idle")
        },
    }
}

/// The title of a workspace row: its label, else its id.
pub fn workspace_title(ws: &Workspace) -> (t: String)
    ensures
        t@ == match ws.label {
            Some(l) => l@,
            None => ws.workspace_id@,
        },
{
    match &ws.label {
        Some(l) => l.clone(),
        None => ws.workspace_id.clone(),
    }
}

/// A workspace row is highlighted when it is flagged focused or is the
/// active workspace.
pub fn workspace_focused(ws: &Workspace, active_id: &Option<String>) -> (b: bool)
    ensures
        b == (ws.focused || opt_view(*active_id) == Some(ws.workspace_id@)),
{
    ws.focused || match active_id {
        Some(a) => *a == ws.workspace_id,
        None => false,
    }
}

/// What an agent row is drawn from: an entry of the server's agent list, or
/// a pane that runs an agent the list does not mention.
#[derive(Clone, Copy, Debug, PartialEq, Eq)]
pub enum AgentSource {
    Listed(usize),
    Pane(usize),
}

/// One row of the agents section.
#[derive(Clone, Debug)]
pub struct AgentRow {
    pub source: AgentSource,
    pub title: String,
    pub subtitle: String,
    pub status_key: String,
    pub focused: bool,
}

/// What an agent row reads of its agent.
pub struct AgentFacts {
    pub cwd: Option<Seq<char>>,
    pub agent: Option<Seq<char>>,
    pub name: Option<Seq<char>>,
    pub status: Option<Seq<char>>,
    pub focused: bool,
    pub pane_id: Option<Seq<char>>,
}

pub open spec fn listed_facts(a: Agent) -> AgentFacts {
    AgentFacts {
        cwd: opt_view(a.cwd),
        agent: opt_view(a.agent),
        name: opt_view(a.name),
        status: opt_view(a.agent_status),
        focused: a.focused,
        pane_id: opt_view(a.pane_id),
    }
}

/// The facts of the agent `Agent::from_pane` makes of a pane.
pub open spec fn pane_facts(p: Pane) -> AgentFacts {
    AgentFacts {
        cwd: opt_view(p.cwd),
        agent: opt_view(p.agent),
        name: opt_view(p.agent),
        status: opt_view(p.agent_status),
        focused: p.focused,
        pane_id: Some(p.pane_id@),
    }
}

/// Whether some listed agent sits in the pane `id`.
pub open spec fn listed_in_pane(agents: Seq<Agent>, id: Seq<char>) -> bool {
    exists|i: int| 0 <= i < agents.len() && opt_view(agents[i].pane_id) == Some(id)
}

/// The panes, among the first `n`, that add a row: they run an agent, no
/// listed agent sits in them, and no earlier pane with the same id added
/// one.
pub open spec fn extra_panes(agents: Seq<Agent>, panes: Seq<Pane>, n: int) -> Seq<usize>
    decreases n,
{
    if n <= 0 {
        Seq::empty()
    } else {
        let prev = extra_panes(agents, panes, n - 1);
        let p = panes[n - 1];
        if p.agent is Some && !listed_in_pane(agents, p.pane_id@) && !(exists|j: int|
            0 <= j < prev.len() && panes[prev[j] as int].pane_id@ == p.pane_id@) {
            prev.push((n - 1) as usize)
        } else {
            prev
        }
    }
}

pub open spec fn row_sources(s: HerdrState) -> Seq<AgentSource> {
    Seq::new(s.agents@.len(), |i: int| AgentSource::Listed(i as usize)) + extra_panes(
        s.agents@,
        s.panes@,
        s.panes@.len() as int,
    ).map_values(|k: usize| AgentSource::Pane(k))
}

pub open spec fn source_facts(s: HerdrState, src: AgentSource) -> AgentFacts {
    match src {
        AgentSource::Listed(i) => listed_facts(s.agents@[i as int]),
        AgentSource::Pane(k) => pane_facts(s.panes@[k as int]),
    }
}

proof fn lemma_extra_panes(agents: Seq<Agent>, panes: Seq<Pane>, n: int)
    requires
        0 <= n <= panes.len() <= usize::MAX,
    ensures
        forall|k: int|
            0 <= k < extra_panes(agents, panes, n).len() ==> {
                let p = #[trigger] extra_panes(agents, panes, n)[k];
                &&& p < n
                &&& panes[p as int].agent is Some
                &&& !listed_in_pane(agents, panes[p as int].pane_id@)
            },
        forall|a: int, b: int|
            0 <= a < b < extra_panes(agents, panes, n).len() ==> panes[extra_panes(
                agents,
                panes,
                n,
            )[a] as int].pane_id@ != panes[extra_panes(agents, panes, n)[b] as int].pane_id@,
    decreases n,
{
    if n > 0 {
        lemma_extra_panes(agents, panes, n - 1);
        let prev = extra_panes(agents, panes, n - 1);
        let cur = extra_panes(agents, panes, n);
        let p = panes[n - 1];
        if p.agent is Some && !listed_in_pane(agents, p.pane_id@) && !(exists|j: int|
            0 <= j < prev.len() && panes[prev[j] as int].pane_id@ == p.pane_id@) {
            assert(cur == prev.push((n - 1) as usize));
            assert forall|k: int| 0 <= k < cur.len() implies {
                let q = #[trigger] cur[k];
                &&& q < n
                &&& panes[q as int].agent is Some
                &&& !listed_in_pane(agents, panes[q as int].pane_id@)
            } by {
                if k < prev.len() {
                    assert(cur[k] == prev[k]);
                }
            }
            assert forall|a: int, b: int| 0 <= a < b < cur.len() implies panes[cur[a] as int].pane_id@
                != panes[cur[b] as int].pane_id@ by {
                assert(cur[a] == prev[a]);
                if b < prev.len() {
                    assert(cur[b] == prev[b]);
                } else {
                    assert(cur[b] == (n - 1) as usize);
                }
            }
        } else {
            assert(cur == prev);
        }
    }
}

/// Whether the pane at `k` gets a row of its own: it runs an agent, no
/// listed agent sits in it, and no earlier pane that runs an agent has its id.
pub open spec fn pane_gets_row(agents: Seq<Agent>, panes: Seq<Pane>, k: int) -> bool {
    &&& panes[k].agent is Some
    &&& !listed_in_pane(agents, panes[k].pane_id@)
    &&& forall|j: int|
        #![trigger panes[j]]
        0 <= j < k ==> !(panes[j].agent is Some && panes[j].pane_id@ == panes[k].pane_id@)
}

/// Whether `k` is among `e`.
pub open spec fn holds_index(e: Seq<usize>, k: int) -> bool {
    exists|a: int| 0 <= a < e.len() && e[a] as int == k
}

proof fn lemma_extra_panes_complete(agents: Seq<Agent>, panes: Seq<Pane>, n: int)
    requires
        0 <= n <= panes.len() <= usize::MAX,
    ensures
        forall|a: int, b: int|
            0 <= a < b < extra_panes(agents, panes, n).len() ==> extra_panes(agents, panes, n)[a]
                < extra_panes(agents, panes, n)[b],
        forall|k: int|
            #![trigger panes[k]]
            0 <= k < n && panes[k].agent is Some && !listed_in_pane(agents, panes[k].pane_id@)
                ==> exists|a: int|
                0 <= a < extra_panes(agents, panes, n).len() && extra_panes(agents, panes, n)[a] <= k
                    && panes[extra_panes(agents, panes, n)[a] as int].pane_id@ == panes[k].pane_id@,
        forall|k: int|
            0 <= k < n ==> (holds_index(extra_panes(agents, panes, n), k) <==> pane_gets_row(
                agents,
                panes,
                k,
            )),
    decreases n,
{
    lemma_extra_panes(agents, panes, n);
    if n > 0 {
        lemma_extra_panes_complete(agents, panes, n - 1);
        lemma_extra_panes(agents, panes, n - 1);
        let prev = extra_panes(agents, panes, n - 1);
        let cur = extra_panes(agents, panes, n);
        let m = n - 1;
        let p = panes[m];
        let added = p.agent is Some && !listed_in_pane(agents, p.pane_id@) && !(exists|j: int|
            0 <= j < prev.len() && panes[prev[j] as int].pane_id@ == p.pane_id@);
        if added {
            assert(cur == prev.push(m as usize));
        } else {
            assert(cur == prev);
        }
        // Elements of `prev` stay, at the same positions.
        assert forall|a: int| 0 <= a < prev.len() implies cur[a] == prev[a] by {}
        // Ordering.
        assert forall|a: int, b: int| 0 <= a < b < cur.len() implies cur[a] < cur[b] by {
            if b >= prev.len() {
                assert(cur[b] == m as usize);
            }
        }
        // Every pane with an agent and not listed has a row with its id, no later than itself.
        assert forall|k: int|
            #![trigger panes[k]]
            0 <= k < n && panes[k].agent is Some && !listed_in_pane(agents, panes[k].pane_id@)
                implies exists|a: int|
            0 <= a < cur.len() && cur[a] <= k && panes[cur[a] as int].pane_id@
                == panes[k].pane_id@ by {
            if k < m {
                let a = choose|a: int|
                    0 <= a < prev.len() && prev[a] <= k && panes[prev[a] as int].pane_id@
                        == panes[k].pane_id@;
                assert(cur[a] == prev[a]);
            } else if added {
                assert(cur[prev.len() as int] == m as usize);
            } else {
                let j = choose|j: int|
                    0 <= j < prev.len() && panes[prev[j] as int].pane_id@ == p.pane_id@;
                assert(cur[j] == prev[j]);
            }
        }
        // Membership.
        assert forall|k: int| 0 <= k < n implies (holds_index(cur, k) <==> pane_gets_row(
            agents,
            panes,
            k,
        )) by {
            if k < m {
                if holds_index(cur, k) {
                    let a = choose|a: int| 0 <= a < cur.len() && cur[a] as int == k;
                    if a >= prev.len() {
                        assert(cur[a] == m as usize);
                    }
                    assert(holds_index(prev, k));
                }
                if holds_index(prev, k) {
                    let a = choose|a: int| 0 <= a < prev.len() && prev[a] as int == k;
                    assert(cur[a] == prev[a]);
                }
            } else {
                if added {
                    assert(cur[prev.len() as int] == m as usize);
                    assert(holds_index(cur, k));
                    assert forall|j: int|
                        #![trigger panes[j]]
                        0 <= j < k implies !(panes[j].agent is Some && panes[j].pane_id@
                            == panes[k].pane_id@) by {
                        if panes[j].agent is Some && panes[j].pane_id@ == panes[k].pane_id@ {
                            let a = choose|a: int|
                                0 <= a < prev.len() && prev[a] <= j && panes[prev[a] as int].pane_id@
                                    == panes[j].pane_id@;
                            assert(panes[prev[a] as int].pane_id@ == p.pane_id@);
                        }
                    }
                } else {
                    if holds_index(cur, k) {
                        let a = choose|a: int| 0 <= a < cur.len() && cur[a] as int == k;
                        assert(cur[a] < m);
                    }
                    if p.agent is Some && !listed_in_pane(agents, p.pane_id@) {
                        let j = choose|j: int|
                            0 <= j < prev.len() && panes[prev[j] as int].pane_id@ == p.pane_id@;
                        let q = prev[j] as int;
                        assert(q < m);
                        assert(panes[q].agent is Some);
                        assert(!pane_gets_row(agents, panes, k)) by {
                            assert(panes[q].agent is Some && panes[q].pane_id@ == panes[k].pane_id@);
                        }
                    }
                }
            }
        }
    }
}

/// Every pane that runs an agent gets a row, unless a listed agent already
/// sits in it or an earlier pane that runs an agent has the same id; and no
/// other pane gets one.
pub proof fn law_pane_rows_complete(s: HerdrState, k: int)
    requires
        0 <= k < s.panes@.len(),
    ensures
        (exists|r: int|
            0 <= r < row_sources(s).len() && row_sources(s)[r] == AgentSource::Pane(k as usize))
            <==> pane_gets_row(s.agents@, s.panes@, k),
{
    let n = s.agents@.len() as int;
    let extra = extra_panes(s.agents@, s.panes@, s.panes@.len() as int);
    assert(s.panes@.len() == s.panes.len());
    lemma_extra_panes_complete(s.agents@, s.panes@, s.panes@.len() as int);
    let rs = row_sources(s);
    assert(rs.len() == n + extra.len());
    if holds_index(extra, k) {
        let a = choose|a: int| 0 <= a < extra.len() && extra[a] as int == k;
        assert(rs[n + a] == AgentSource::Pane(extra[a]));
    }
    if exists|r: int| 0 <= r < rs.len() && rs[r] == AgentSource::Pane(k as usize) {
        let r = choose|r: int| 0 <= r < rs.len() && rs[r] == AgentSource::Pane(k as usize);
        if r < n {
            assert(rs[r] == AgentSource::Listed(r as usize));
        } else {
            assert(rs[r] == AgentSource::Pane(extra[r - n]));
            assert(extra[r - n] as int == k);
            assert(holds_index(extra, k));
        }
    }
}

/// The listed agents come first, in list order, then the panes, in pane
/// order.
pub proof fn law_agent_rows_in_order(s: HerdrState, a: int, b: int)
    requires
        0 <= a < b < row_sources(s).len(),
    ensures
        match (row_sources(s)[a], row_sources(s)[b]) {
            (AgentSource::Listed(i), AgentSource::Listed(j)) => i < j,
            (AgentSource::Pane(i), AgentSource::Pane(j)) => i < j,
            (AgentSource::Pane(_), AgentSource::Listed(_)) => false,
            (AgentSource::Listed(_), AgentSource::Pane(_)) => true,
        },
{
    let n = s.agents@.len() as int;
    let extra = extra_panes(s.agents@, s.panes@, s.panes@.len() as int);
    assert(s.panes@.len() == s.panes.len());
    assert(s.agents@.len() == s.agents.len());
    lemma_extra_panes_complete(s.agents@, s.panes@, s.panes@.len() as int);
    let rs = row_sources(s);
    if a < n {
        assert(rs[a] == AgentSource::Listed(a as usize));
    } else {
        assert(rs[a] == AgentSource::Pane(extra[a - n]));
    }
    if b < n {
        assert(rs[b] == AgentSource::Listed(b as usize));
    } else {
        assert(rs[b] == AgentSource::Pane(extra[b - n]));
    }
}

/// The rows taken from panes are for distinct panes: a pane id that shows
/// up twice in the pane list still gets one row.
pub proof fn law_pane_rows_are_distinct(s: HerdrState, a: int, b: int)
    requires
        0 <= a < b < row_sources(s).len(),
    ensures
        match (row_sources(s)[a], row_sources(s)[b]) {
            (AgentSource::Pane(i), AgentSource::Pane(j)) => s.panes@[i as int].pane_id@
                != s.panes@[j as int].pane_id@,
            _ => true,
        },
{
    let n = s.agents@.len() as int;
    let extra = extra_panes(s.agents@, s.panes@, s.panes@.len() as int);
    assert(s.panes@.len() == s.panes.len());
    lemma_extra_panes(s.agents@, s.panes@, s.panes@.len() as int);
    if a >= n {
        assert(row_sources(s)[a] == AgentSource::Pane(extra[a - n]));
        assert(row_sources(s)[b] == AgentSource::Pane(extra[b - n]));
    } else {
        assert(row_sources(s)[a] == AgentSource::Listed(a as usize));
    }
}

/// A pane gets a row only when it runs an agent that the server's agent
/// list does not already place in it.
pub proof fn law_pane_rows_skip_listed_agents(s: HerdrState, k: int)
    requires
        0 <= k < row_sources(s).len(),
    ensures
        match row_sources(s)[k] {
            AgentSource::Pane(i) => s.panes@[i as int].agent is Some && !listed_in_pane(
                s.agents@,
                s.panes@[i as int].pane_id@,
            ),
            AgentSource::Listed(i) => i < s.agents@.len(),
        },
{
    let n = s.agents@.len() as int;
    let extra = extra_panes(s.agents@, s.panes@, s.panes@.len() as int);
    assert(s.panes@.len() == s.panes.len());
    lemma_extra_panes(s.agents@, s.panes@, s.panes@.len() as int);
    if k >= n {
        assert(row_sources(s)[k] == AgentSource::Pane(extra[k - n]));
    } else {
        assert(row_sources(s)[k] == AgentSource::Listed(k as usize));
    }
}

/// The project an agent works on: the last component of its directory, or
/// `~`.
pub open spec fn project_spec(cwd: Option<Seq<char>>) -> Seq<char> {
    match cwd {
        Some(c) => dir_name_spec(c),
        None => "~"@,
    }
}

/// How many of the projects are `p`.
pub open spec fn count_of(ps: Seq<Seq<char>>, p: Seq<char>) -> nat
    decreases ps.len(),
{
    if ps.len() == 0 {
        0
    } else {
        count_of(ps.drop_last(), p) + if ps.last() == p {
            1nat
        } else {
            0nat
        }
    }
}

/// A row is titled by its project; when several rows share a project they
/// are numbered in order, as `project · n`.
pub open spec fn row_title(projects: Seq<Seq<char>>, k: int) -> Seq<char> {
    let p = projects[k];
    if count_of(projects, p) > 1 {
        p + " \u{00b7} "@ + decimal(count_of(projects.take(k + 1), p))
    } else {
        p
    }
}

/// A project counts no more in a prefix than in a longer one, and counts
/// more when the longer one adds an occurrence.
proof fn lemma_count_of_prefix(ps: Seq<Seq<char>>, p: Seq<char>, i: int, j: int)
    requires
        0 <= i < j <= ps.len(),
    ensures
        count_of(ps.take(i), p) <= count_of(ps.take(j - 1), p),
        count_of(ps.take(j), p) == count_of(ps.take(j - 1), p) + if ps[j - 1] == p {
            1int
        } else {
            0int
        },
    decreases j - i,
{
    assert(ps.take(j).drop_last() =~= ps.take(j - 1));
    if i < j - 1 {
        lemma_count_of_prefix(ps, p, i, j - 1);
    }
}

/// When several agent rows share a project, each gets its own number, so
/// no two rows of one project carry the same title.
pub proof fn law_numbered_rows_are_distinct(projects: Seq<Seq<char>>, a: int, b: int)
    requires
        0 <= a < b < projects.len(),
        projects[a] == projects[b],
    ensures
        row_title(projects, a) != row_title(projects, b),
{
    let p = projects[a];
    lemma_count_of_prefix(projects, p, a + 1, b + 1);
    lemma_count_of_prefix(projects, p, 0, a + 1);
    if b + 1 < projects.len() {
        lemma_count_of_prefix(projects, p, b + 1, projects.len() as int);
    }
    assert(projects.take(projects.len() as int) =~= projects);
    let na = count_of(projects.take(a + 1), p);
    let nb = count_of(projects.take(b + 1), p);
    assert(1 <= na < nb);
    assert(count_of(projects, p) > 1);
    let sep = " \u{00b7} "@;
    if row_title(projects, a) == row_title(projects, b) {
        let ta = p + sep + decimal(na);
        let tb = p + sep + decimal(nb);
        assert(ta.skip((p + sep).len() as int) =~= decimal(na));
        assert(tb.skip((p + sep).len() as int) =~= decimal(nb));
        lemma_decimal_injective(na, nb);
    }
}

pub open spec fn row_subtitle(f: AgentFacts) -> Seq<char> {
    match f.agent {
        Some(a) => a,
        None => match f.name {
            Some(n) => n,
            None => "agent"@,
        },
    }
}

pub open spec fn row_status(f: AgentFacts) -> Seq<char> {
    match f.status {
        Some(st) => st,
        None => "unknown"@,
    }
}

pub open spec fn row_focused(f: AgentFacts, focused_pane_id: Option<Seq<char>>) -> bool {
    f.focused || (f.pane_id matches Some(p) && focused_pane_id == Some(p))
}

pub open spec fn row_projects(s: HerdrState) -> Seq<Seq<char>> {
    row_sources(s).map_values(|src: AgentSource| project_spec(source_facts(s, src).cwd))
}

/// The rows of the agents section, in order.
pub open spec fn agent_rows_ok(s: HerdrState, rows: Seq<AgentRow>) -> bool {
    &&& rows.len() == row_sources(s).len()
    &&& forall|k: int|
        0 <= k < rows.len() ==> {
            let f = source_facts(s, row_sources(s)[k]);
            &&& #[trigger] rows[k].source == row_sources(s)[k]
            &&& rows[k].title@ == row_title(row_projects(s), k)
            &&& rows[k].subtitle@ == row_subtitle(f)
            &&& rows[k].status_key@ == row_status(f)
            &&& rows[k].focused == row_focused(f, opt_view(s.focused_pane_id))
        }
}

fn listed_pane(agents: &Vec<Agent>, id: &String) -> (b: bool)
    ensures
        b == listed_in_pane(agents@, id@),
{
    let mut i: usize = 0;
    while i < agents.len()
        invariant
            i <= agents.len(),
            forall|j: int| 0 <= j < i ==> opt_view(agents@[j].pane_id) != Some(id@),
        decreases agents.len() - i,
    {
        let hit = match &agents[i].pane_id {
            Some(p) => *p == *id,
            None => false,
        };
        if hit {
            assert(opt_view(agents@[i as int].pane_id) == Some(id@));
            return true;
        }
        i = i + 1;
    }
    false
}

fn sources(state: &HerdrState) -> (v: Vec<AgentSource>)
    ensures
        v@ == row_sources(*state),
        forall|k: int|
            0 <= k < v@.len() ==> match #[trigger] v@[k] {
                AgentSource::Listed(i) => i < state.agents@.len(),
                AgentSource::Pane(j) => j < state.panes@.len(),
            },
{
    let mut v: Vec<AgentSource> = Vec::new();
    let mut i: usize = 0;
    while i < state.agents.len()
        invariant
            i <= state.agents.len(),
            v@ == Seq::new(i as nat, |k: int| AgentSource::Listed(k as usize)),
        decreases state.agents.len() - i,
    {
        v.push(AgentSource::Listed(i));
        assert(v@ =~= Seq::new((i + 1) as nat, |k: int| AgentSource::Listed(k as usize)));
        i = i + 1;
    }
    let mut extra: Vec<usize> = Vec::new();
    let mut j: usize = 0;
    while j < state.panes.len()
        invariant
            j <= state.panes.len(),
            extra@ == extra_panes(state.agents@, state.panes@, j as int),
            forall|k: int| 0 <= k < extra@.len() ==> extra@[k] < j,
        decreases state.panes.len() - j,
    {
        let p = &state.panes[j];
        if p.agent.is_some() && !listed_pane(&state.agents, &p.pane_id) {
            let mut dup = false;
            let mut k: usize = 0;
            while k < extra.len()
                invariant
                    k <= extra.len(),
                    extra@ == extra_panes(state.agents@, state.panes@, j as int),
                    forall|m: int| 0 <= m < extra@.len() ==> extra@[m] < j,
                    j < state.panes@.len(),
                    dup == exists|m: int|
                        0 <= m < k && state.panes@[extra@[m] as int].pane_id@ == state.panes@[j as int].pane_id@,
                decreases extra.len() - k,
            {
                if state.panes[extra[k]].pane_id == state.panes[j].pane_id {
                    dup = true;
                }
                k = k + 1;
            }
            if !dup {
                extra.push(j);
            }
        }
        j = j + 1;
    }
    let mut k: usize = 0;
    let ghost base = v@;
    while k < extra.len()
        invariant
            k <= extra.len(),
            extra@ == extra_panes(state.agents@, state.panes@, state.panes@.len() as int),
            forall|m: int| 0 <= m < extra@.len() ==> extra@[m] < state.panes@.len(),
            base == Seq::new(state.agents@.len(), |k: int| AgentSource::Listed(k as usize)),
            v@ == base + extra@.take(k as int).map_values(|x: usize| AgentSource::Pane(x)),
        decreases extra.len() - k,
    {
        v.push(AgentSource::Pane(extra[k]));
        assert(v@ =~= base + extra@.take(k + 1).map_values(|x: usize| AgentSource::Pane(x)));
        k = k + 1;
    }
    assert(extra@.take(extra.len() as int) =~= extra@);
    v
}

fn project_of(cwd: &Option<String>) -> (p: String)
    ensures
        p@ == project_spec(opt_view(*cwd)),
{
    match cwd {
        Some(c) => dir_name(c.as_str()),
        None => String::from_str("~"),
    }
}

/// How many of the projects equal the one at `k`: in all, and among the
/// first `k + 1`.
fn project_counts(projects: &Vec<String>, k: usize) -> (r: (usize, usize))
    requires
        k < projects.len(),
    ensures
        r.0 == count_of(strs(projects@), projects@[k as int]@),
        r.1 == count_of(strs(projects@).take(k + 1), projects@[k as int]@),
{
    let ghost pv = strs(projects@);
    let mine = &projects[k];
    let mut total: usize = 0;
    let mut upto: usize = 0;
    let mut m: usize = 0;
    while m < projects.len()
        invariant
            m <= projects.len(),
            k < projects.len(),
            pv == strs(projects@),
            mine@ == pv[k as int],
            total == count_of(pv.take(m as int), mine@),
            total <= m,
            upto == count_of(pv.take(if m <= k + 1 { m as int } else { k + 1 }), mine@),
        decreases projects.len() - m,
    {
        assert(pv.take(m + 1).drop_last() =~= pv.take(m as int));
        assert(pv[m as int] == projects@[m as int]@);
        if projects[m] == *mine {
            total = total + 1;
            if m <= k {
                upto = upto + 1;
            }
        }
        m = m + 1;
    }
    assert(pv.take(projects.len() as int) =~= pv);
    (total, upto)
}

/// The title of row `k`, given the projects of all rows.
fn row_title_exec(projects: &Vec<String>, k: usize) -> (t: String)
    requires
        k < projects.len(),
    ensures
        t@ == row_title(strs(projects@), k as int),
{
    let (total, upto) = project_counts(projects, k);
    if total > 1 {
        let mut t = projects[k].clone();
        t.append(" \u{00b7} ");
        let n = decimal_string(upto);
        t.append(n.as_str());
        t
    } else {
        projects[k].clone()
    }
}

pub open spec fn source_in_range(s: HerdrState, src: AgentSource) -> bool {
    match src {
        AgentSource::Listed(i) => i < s.agents@.len(),
        AgentSource::Pane(j) => j < s.panes@.len(),
    }
}

/// The row drawn from `src` under the given title.
fn row_of(state: &HerdrState, src: AgentSource, title: String) -> (row: AgentRow)
    requires
        source_in_range(*state, src),
    ensures
        row.source == src,
        row.title@ == title@,
        row.subtitle@ == row_subtitle(source_facts(*state, src)),
        row.status_key@ == row_status(source_facts(*state, src)),
        row.focused == row_focused(source_facts(*state, src), opt_view(state.focused_pane_id)),
{
    let (agent, name, status, focused, pane_id) = match src {
        AgentSource::Listed(a) => {
            let ag = &state.agents[a];
            (&ag.agent, &ag.name, &ag.agent_status, ag.focused, clone_opt(&ag.pane_id))
        },
        AgentSource::Pane(q) => {
            let p = &state.panes[q];
            (&p.agent, &p.agent, &p.agent_status, p.focused, Some(p.pane_id.clone()))
        },
    };
    let subtitle = match agent {
        Some(a) => a.clone(),
        None => match name {
            Some(n) => n.clone(),
            None => String::from_str("agent"),
        },
    };
    let status_key = match status {
        Some(st) => st.clone(),
        None => String::from_str("unknown"),
    };
    let on_focus = focused || match (&pane_id, &state.focused_pane_id) {
        (Some(p), Some(f)) => *p == *f,
        _ => false,
    };
    AgentRow { source: src, title, subtitle, status_key, focused: on_focus }
}

/// The rows of the agents section: every listed agent, then every pane
/// that runs an agent the list misses.
pub fn agent_rows(state: &HerdrState) -> (rows: Vec<AgentRow>)
    ensures
        agent_rows_ok(*state, rows@),
{
    let srcs = sources(state);
    let mut projects: Vec<String> = Vec::new();
    let mut i: usize = 0;
    while i < srcs.len()
        invariant
            i <= srcs.len(),
            srcs@ == row_sources(*state),
            forall|k: int| 0 <= k < srcs@.len() ==> source_in_range(*state, #[trigger] srcs@[k]),
            projects@.len() == i,
            forall|k: int| 0 <= k < i ==> #[trigger] projects@[k]@ == row_projects(*state)[k],
        decreases srcs.len() - i,
    {
        assert(source_in_range(*state, srcs@[i as int]));
        let p = match srcs[i] {
            AgentSource::Listed(a) => project_of(&state.agents[a].cwd),
            AgentSource::Pane(q) => project_of(&state.panes[q].cwd),
        };
        assert(p@ == row_projects(*state)[i as int]);
        projects.push(p);
        i = i + 1;
    }
    assert(strs(projects@) =~= row_projects(*state));
    let mut rows: Vec<AgentRow> = Vec::new();
    let mut k: usize = 0;
    while k < srcs.len()
        invariant
            k <= srcs.len() == projects.len(),
            srcs@ == row_sources(*state),
            forall|m: int| 0 <= m < srcs@.len() ==> source_in_range(*state, #[trigger] srcs@[m]),
            strs(projects@) == row_projects(*state),
            rows@.len() == k,
            forall|m: int|
                0 <= m < k ==> {
                    let f = source_facts(*state, row_sources(*state)[m]);
                    &&& #[trigger] rows@[m].source == row_sources(*state)[m]
                    &&& rows@[m].title@ == row_title(row_projects(*state), m)
                    &&& rows@[m].subtitle@ == row_subtitle(f)
                    &&& rows@[m].status_key@ == row_status(f)
                    &&& rows@[m].focused == row_focused(f, opt_view(state.focused_pane_id))
                },
        decreases srcs.len() - k,
    {
        assert(source_in_range(*state, srcs@[k as int]));
        let title = row_title_exec(&projects, k);
        let row = row_of(state, srcs[k], title);
        rows.push(row);
        k = k + 1;
    }
    rows
}

} // verus!
