use herdr_gui::ghostty::{TerminalFrame, TerminalLine, TerminalRun};
use herdr_gui::herdr::{HerdrState, Pane};
use herdr_gui::viewer::{
    attach_command, attach_plan, run_text, same_frame, AttachPlan, FrameScheduler, TerminalPane,
    TerminalSize, FRAME_MIN_INTERVAL_MILLIS, TERMINAL_BG,
};

fn size(cols: u16) -> TerminalSize {
    TerminalSize { cols, rows: 24, width: cols * 8, height: 24 * 18 }
}

fn one_pane_state(terminal_id: Option<&str>) -> HerdrState {
    let mut s = HerdrState::default();
    s.panes.push(Pane {
        pane_id: "w1:p1".to_string(),
        terminal_id: terminal_id.map(|t| t.to_string()),
        workspace_id: None,
        tab_id: None,
        label: None,
        title: None,
        terminal_title: None,
        cwd: None,
        agent_status: None,
        agent: None,
        focused: true,
    });
    s
}

fn frame(text: &str) -> TerminalFrame {
    TerminalFrame {
        lines: vec![TerminalLine {
            runs: vec![TerminalRun { text: text.to_string(), fg: 1, bg: None }],
        }],
    }
}

#[test]
fn attach_plan_keeps_resizes_or_attaches() {
    let s = one_pane_state(Some("term_1"));
    assert_eq!(attach_plan(&HerdrState::default(), &None, None, size(80)), AttachPlan::Nothing);
    assert_eq!(attach_plan(&s, &None, None, size(80)), AttachPlan::Attach("term_1".to_string()));
    let current = Some("term_1".to_string());
    assert_eq!(attach_plan(&s, &current, Some(size(80)), size(80)), AttachPlan::Keep);
    assert_eq!(attach_plan(&s, &current, Some(size(80)), size(100)), AttachPlan::Resize);
    let other = Some("term_0".to_string());
    assert_eq!(
        attach_plan(&s, &other, Some(size(80)), size(80)),
        AttachPlan::Attach("term_1".to_string())
    );
    let bare = one_pane_state(None);
    assert_eq!(attach_plan(&bare, &None, None, size(80)), AttachPlan::Attach("w1:p1".to_string()));
}

#[test]
fn frame_requests_are_paced_and_never_overlap() {
    let mut s = FrameScheduler::new();
    assert!(!s.request(false, 0, true));
    assert!(s.request(true, 1_000, false));
    assert!(s.in_flight);
    assert!(!s.request(true, 2_000, true));
    assert!(s.pending);
    assert!(s.finish(s.token));
    assert!(!s.in_flight);
    assert!(!s.request(true, 1_000 + FRAME_MIN_INTERVAL_MILLIS - 1, false));
    assert!(s.pending);
    assert!(s.request(true, 1_000 + FRAME_MIN_INTERVAL_MILLIS, false));
    assert!(!s.pending);
    assert_eq!(s.last_frame_at, Some(1_050));
}

#[test]
fn clock_going_backwards_is_not_due() {
    let mut s = FrameScheduler::new();
    s.last_frame_at = Some(500);
    assert!(!s.request(true, 100, false));
    assert!(s.request(true, 100, true));
}

#[test]
fn output_of_an_old_session_is_ignored() {
    let mut s = FrameScheduler::new();
    let old = s.token;
    let new = s.attach();
    assert_ne!(old, new);
    assert!(!s.output(old, true, true));
    assert!(!s.pending);
    assert!(s.output(new, true, true));
    assert!(s.pending);
    assert!(!s.finish(old));
    let mut top = FrameScheduler { token: u64::MAX, in_flight: false, pending: false, last_frame_at: None };
    assert_eq!(top.attach(), 0);
}

#[test]
fn showing_a_frame_settles_what_was_pending() {
    let mut s = FrameScheduler::new();
    s.pending = true;
    assert!(!s.show(false, 10));
    assert!(s.pending);
    assert!(s.show(true, 10));
    assert!(!s.pending);
    assert_eq!(s.last_frame_at, Some(10));
}

#[test]
fn frames_compare_by_content() {
    assert!(same_frame(&frame("a"), &frame("a")));
    assert!(!same_frame(&frame("a"), &frame("b")));
    assert!(!same_frame(&frame("a"), &TerminalFrame::default()));
}

#[test]
fn terminal_pane_redraws_only_on_change() {
    let mut pane = TerminalPane::new();
    assert_eq!(pane.bg(), TERMINAL_BG);
    assert!(pane.frame().lines.is_empty());
    assert!(pane.set_frame(frame("x")));
    assert!(!pane.set_frame(frame("x")));
    assert_eq!(pane.frame(), &frame("x"));
    assert!(!pane.set_bg(TERMINAL_BG));
    assert!(pane.set_bg(0x123456));
    assert_eq!(pane.bg(), 0x123456);
}

#[test]
fn run_text_keeps_spaces_as_no_break_spaces() {
    assert_eq!(run_text("a b  c"), "a\u{a0}b\u{a0}\u{a0}c");
    assert_eq!(run_text(""), "");
}

#[test]
fn attach_command_names_the_terminal() {
    let (program, args) = attach_command("term_1");
    assert_eq!(program, "herdr");
    assert_eq!(args, vec!["terminal".to_string(), "attach".to_string(), "term_1".to_string()]);
}
