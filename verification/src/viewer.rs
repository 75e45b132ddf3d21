//! Keeping the terminal view in step with Herdr: which session to attach for
//! the focused pane, and the pacing of frame extraction from the attached
//! session, so that a busy agent cannot flood the window with repaints.
//!
//! The caller owns the session, the clock and the executor; these functions
//! decide what to do next from plain values.
use vstd::prelude::*;

use crate::ghostty::{RunView, TerminalFrame, TerminalLine, TerminalRun};
use crate::text::{chars_of, string_from_chars, strs};
use crate::herdr::{opt_view, HerdrState};
use crate::shell::{terminal_target, terminal_target_spec};

verus! {

/// The shortest gap, in milliseconds, between the starts of two frame
/// extractions that no caller forced.
pub const FRAME_MIN_INTERVAL_MILLIS: u64 = 50;

/// The size of the terminal area: cells, then pixels.
#[derive(Clone, Copy, Debug, PartialEq, Eq, Structural)]
pub struct TerminalSize {
    pub cols: u16,
    pub rows: u16,
    pub width: u16,
    pub height: u16,
}

/// What to do about the terminal session when the focus or the window changes.
#[derive(Clone, Debug, PartialEq, Eq)]
pub enum AttachPlan {
    /// No pane has the focus: leave everything as it is.
    Nothing,
    /// The attached session already shows the focused pane at this size.
    Keep,
    /// The attached session shows the focused pane; resize it.
    Resize,
    /// Attach a new session to this target.
    Attach(String),
}

pub enum AttachPlanView {
    Nothing,
    Keep,
    Resize,
    Attach(Seq<char>),
}

impl View for AttachPlan {
    type V = AttachPlanView;

    open spec fn view(&self) -> AttachPlanView {
        match self {
            AttachPlan::Nothing => AttachPlanView::Nothing,
            AttachPlan::Keep => AttachPlanView::Keep,
            AttachPlan::Resize => AttachPlanView::Resize,
            AttachPlan::Attach(t) => AttachPlanView::Attach(t@),
        }
    }
}

/// The target of the focused pane decides: a session already on it is kept,
/// and resized when the size changed; any other target gets a new session.
pub open spec fn attach_plan_spec(
    s: HerdrState,
    attached: Option<Seq<char>>,
    attached_size: Option<TerminalSize>,
    size: TerminalSize,
) -> AttachPlanView {
    match terminal_target_spec(s) {
        None => AttachPlanView::Nothing,
        Some(t) => if attached == Some(t) {
            if attached_size == Some(size) {
                AttachPlanView::Keep
            } else {
                AttachPlanView::Resize
            }
        } else {
            AttachPlanView::Attach(t)
        },
    }
}

pub fn attach_plan(
    state: &HerdrState,
    attached: &Option<String>,
    attached_size: Option<TerminalSize>,
    size: TerminalSize,
) -> (plan: AttachPlan)
    ensures
        plan@ == attach_plan_spec(*state, opt_view(*attached), attached_size, size),
{
    match terminal_target(state) {
        None => AttachPlan::Nothing,
        Some(t) => {
            let same = match attached {
                Some(a) => *a == t,
                None => false,
            };
            if same {
                let same_size = match attached_size {
                    Some(z) => z == size,
                    None => false,
                };
                if same_size {
                    AttachPlan::Keep
                } else {
                    AttachPlan::Resize
                }
            } else {
                AttachPlan::Attach(t)
            }
        },
    }
}

/// Whether two runs draw the same.
fn same_run(a: &TerminalRun, b: &TerminalRun) -> (r: bool)
    ensures
        r == (a@ == b@),
{
    a.text == b.text && a.fg == b.fg && a.bg == b.bg
}

/// Whether two lines draw the same.
fn same_line(a: &TerminalLine, b: &TerminalLine) -> (r: bool)
    ensures
        r == (a@ == b@),
{
    if a.runs.len() != b.runs.len() {
        proof {
            assert(a@.len() != b@.len());
        }
        return false;
    }
    let mut i: usize = 0;
    while i < a.runs.len()
        invariant
            i <= a.runs.len() == b.runs.len(),
            forall|j: int| 0 <= j < i ==> a@[j] == b@[j],
        decreases a.runs.len() - i,
    {
        if !same_run(&a.runs[i], &b.runs[i]) {
            assert(a@[i as int] != b@[i as int]);
            return false;
        }
        i = i + 1;
    }
    assert(a@ =~= b@);
    true
}

/// Whether two frames draw the same; a frame equal to the one shown is not
/// shown again.
pub fn same_frame(a: &TerminalFrame, b: &TerminalFrame) -> (r: bool)
    ensures
        r == (a@ == b@),
{
    if a.lines.len() != b.lines.len() {
        proof {
            assert(a@.len() != b@.len());
        }
        return false;
    }
    let mut i: usize = 0;
    while i < a.lines.len()
        invariant
            i <= a.lines.len() == b.lines.len(),
            forall|j: int| 0 <= j < i ==> a@[j] == b@[j],
        decreases a.lines.len() - i,
    {
        if !same_line(&a.lines[i], &b.lines[i]) {
            assert(a@[i as int] != b@[i as int]);
            return false;
        }
        i = i + 1;
    }
    assert(a@ =~= b@);
    true
}

/// Where frame extraction stands for the attached terminal session. Times
/// are milliseconds on a monotonic clock that the caller reads.
#[derive(Clone, Copy, Debug, PartialEq, Eq, Structural)]
pub struct FrameScheduler {
    /// Generation of the attached session: output and frames that carry an
    /// older one are ignored.
    pub token: u64,
    /// An extraction has started and has not reported back.
    pub in_flight: bool,
    /// Output arrived, or a request was turned down, since the last frame
    /// was shown.
    pub pending: bool,
    /// When the last frame was shown or its extraction started.
    pub last_frame_at: Option<u64>,
}

/// Whether a frame may be extracted at `now`: when forced, when none was
/// taken yet, or when the interval has passed since the last one. A clock
/// reading before the last one counts as no time passed.
pub open spec fn is_due(last: Option<u64>, now: u64, force: bool) -> bool {
    force || match last {
        None => true,
        Some(at) => now >= at && now - at >= FRAME_MIN_INTERVAL_MILLIS,
    }
}

/// A request for a frame: nothing happens without a session; one that is
/// not due, or comes while an extraction runs, is remembered as pending;
/// otherwise an extraction starts now.
pub open spec fn request_spec(s: FrameScheduler, attached: bool, now: u64, force: bool) -> (
    FrameScheduler,
    bool,
) {
    if !attached {
        (s, false)
    } else if !is_due(s.last_frame_at, now, force) || s.in_flight {
        (FrameScheduler { token: s.token, in_flight: s.in_flight, pending: true, last_frame_at: s.last_frame_at }, false)
    } else {
        (FrameScheduler { token: s.token, in_flight: true, pending: false, last_frame_at: Some(now) }, true)
    }
}

/// A frame that differs from the one on screen is shown, which settles what
/// was pending.
pub open spec fn show_spec(s: FrameScheduler, changed: bool, now: u64) -> FrameScheduler {
    if changed {
        FrameScheduler { token: s.token, in_flight: s.in_flight, pending: false, last_frame_at: Some(now) }
    } else {
        s
    }
}

/// An extraction reported back: nothing is in flight any more.
pub open spec fn finish_spec(s: FrameScheduler) -> FrameScheduler {
    FrameScheduler { token: s.token, in_flight: false, pending: s.pending, last_frame_at: s.last_frame_at }
}

/// Output read from the session of generation `token`: it is ignored when
/// that session is gone; otherwise, when a session is attached and bytes
/// came, a frame becomes pending.
pub open spec fn output_spec(s: FrameScheduler, token: u64, got_bytes: bool, attached: bool) -> FrameScheduler {
    if token == s.token && got_bytes && attached {
        FrameScheduler { token: s.token, in_flight: s.in_flight, pending: true, last_frame_at: s.last_frame_at }
    } else {
        s
    }
}

/// A new session is attached: its generation follows the last one,
/// wrapping around.
pub open spec fn next_token(t: u64) -> u64 {
    if t == u64::MAX {
        0
    } else {
        (t + 1) as u64
    }
}

pub open spec fn attach_spec(s: FrameScheduler) -> FrameScheduler {
    FrameScheduler { token: next_token(s.token), in_flight: s.in_flight, pending: s.pending, last_frame_at: s.last_frame_at }
}

impl FrameScheduler {
    /// No session yet: generation zero, nothing in flight or pending.
    pub fn new() -> (s: Self)
        ensures
            s == (FrameScheduler { token: 0, in_flight: false, pending: false, last_frame_at: None }),
    {
        FrameScheduler { token: 0, in_flight: false, pending: false, last_frame_at: None }
    }

    /// Asks for a frame at `now`; true when an extraction should start,
    /// for the current generation.
    pub fn request(&mut self, attached: bool, now: u64, force: bool) -> (start: bool)
        ensures
            (*final(self), start) == request_spec(*old(self), attached, now, force),
    {
        if !attached {
            return false;
        }
        let due = force || match self.last_frame_at {
            None => true,
            Some(at) => now >= at && now - at >= FRAME_MIN_INTERVAL_MILLIS,
        };
        if !due || self.in_flight {
            self.pending = true;
            return false;
        }
        self.in_flight = true;
        self.pending = false;
        self.last_frame_at = Some(now);
        true
    }

    /// A frame is about to be shown; `changed` tells whether it differs
    /// from the one on screen, and is returned.
    pub fn show(&mut self, changed: bool, now: u64) -> (shown: bool)
        ensures
            *final(self) == show_spec(*old(self), changed, now),
            shown == changed,
    {
        if changed {
            self.pending = false;
            self.last_frame_at = Some(now);
        }
        changed
    }

    /// The extraction started for generation `token` reported back; true
    /// when its frame belongs to the current session and may be shown.
    pub fn finish(&mut self, token: u64) -> (current: bool)
        ensures
            *final(self) == finish_spec(*old(self)),
            current == (token == old(self).token),
    {
        self.in_flight = false;
        token == self.token
    }

    /// Output from the session of generation `token` was read; true when a
    /// frame should be requested.
    pub fn output(&mut self, token: u64, got_bytes: bool, attached: bool) -> (refresh: bool)
        ensures
            *final(self) == output_spec(*old(self), token, got_bytes, attached),
            refresh == (token == old(self).token && final(self).pending),
    {
        if token != self.token {
            return false;
        }
        if got_bytes && attached {
            self.pending = true;
        }
        self.pending
    }

    /// A new session was attached; returns its generation.
    pub fn attach(&mut self) -> (token: u64)
        ensures
            *final(self) == attach_spec(*old(self)),
            token == final(self).token,
    {
        self.token = self.token.wrapping_add(1);
        self.token
    }
}

/// At most one extraction runs at a time: a request starts one only when
/// none is in flight, and one is in flight after it.
pub proof fn law_one_extraction_at_a_time(s: FrameScheduler, attached: bool, now: u64, force: bool)
    ensures
        request_spec(s, attached, now, force).1 ==> !s.in_flight && request_spec(
            s,
            attached,
            now,
            force,
        ).0.in_flight,
        s.in_flight ==> !request_spec(s, attached, now, force).1,
{
}

/// Unforced extractions start at least the minimum interval apart.
pub proof fn law_extractions_are_paced(s: FrameScheduler, attached: bool, now: u64)
    ensures
        request_spec(s, attached, now, false).1 ==> match s.last_frame_at {
            None => true,
            Some(at) => at <= now && now - at >= FRAME_MIN_INTERVAL_MILLIS,
        },
{
}

/// No frame is lost: a request that a session could serve but that starts
/// nothing leaves a frame pending.
pub proof fn law_declined_request_stays_pending(s: FrameScheduler, now: u64, force: bool)
    ensures
        !request_spec(s, true, now, force).1 ==> request_spec(s, true, now, force).0.pending,
{
}

/// A forced request on an idle session always starts an extraction.
pub proof fn law_forced_request_starts_when_idle(s: FrameScheduler, now: u64)
    requires
        !s.in_flight,
    ensures
        request_spec(s, true, now, true).1,
{
}

/// Once a new session is attached, what carries the generation of the old
/// one is ignored: its output changes nothing and its frame is not shown.
pub proof fn law_new_session_ignores_old_generation(s: FrameScheduler, got_bytes: bool, attached: bool)
    ensures
        attach_spec(s).token != s.token,
        output_spec(attach_spec(s), s.token, got_bytes, attached) == attach_spec(s),
{
}

/// After an extraction reports back, the next request can start another.
pub proof fn law_finish_frees_the_extractor(s: FrameScheduler, now: u64)
    ensures
        request_spec(finish_spec(s), true, now, true).1,
{
}

/// Background of the terminal area before a theme sets one.
pub const TERMINAL_BG: u32 = 0x0a0a0a;

/// What the terminal area draws: the last frame shown and the background.
pub struct TerminalPane {
    frame: TerminalFrame,
    bg: u32,
}

impl View for TerminalPane {
    type V = (Seq<Seq<RunView>>, u32);

    closed spec fn view(&self) -> (Seq<Seq<RunView>>, u32) {
        (self.frame@, self.bg)
    }
}

impl TerminalPane {
    /// An empty frame on the default background.
    pub fn new() -> (p: Self)
        ensures
            p@ == (Seq::<Seq<RunView>>::empty(), TERMINAL_BG),
    {
        TerminalPane { frame: TerminalFrame::default(), bg: TERMINAL_BG }
    }

    /// Takes `frame` when it differs from the one drawn; true when the
    /// area must be drawn again.
    pub fn set_frame(&mut self, frame: TerminalFrame) -> (changed: bool)
        ensures
            changed == (old(self)@.0 != frame@),
            final(self)@ == (frame@, old(self)@.1),
    {
        if same_frame(&self.frame, &frame) {
            return false;
        }
        self.frame = frame;
        true
    }

    /// Takes the background `bg`; true when it changed.
    pub fn set_bg(&mut self, bg: u32) -> (changed: bool)
        ensures
            changed == (old(self)@.1 != bg),
            final(self)@ == (old(self)@.0, bg),
    {
        if self.bg == bg {
            return false;
        }
        self.bg = bg;
        true
    }

    pub fn frame(&self) -> (f: &TerminalFrame)
        ensures
            f@ == self@.0,
    {
        &self.frame
    }

    pub fn bg(&self) -> (c: u32)
        ensures
            c == self@.1,
    {
        self.bg
    }
}

/// A run's text as drawn: spaces become no-break spaces, so that the text
/// layout keeps every column.
pub open spec fn run_text_spec(text: Seq<char>) -> Seq<char> {
    text.map_values(|c: char| if c == ' ' { '\u{a0}' } else { c })
}

pub fn run_text(text: &str) -> (out: String)
    ensures
        out@ == run_text_spec(text@),
{
    let cs = chars_of(text);
    let mut out: Vec<char> = Vec::new();
    let mut i: usize = 0;
    while i < cs.len()
        invariant
            i <= cs.len(),
            cs@ == text@,
            out@ == run_text_spec(text@).take(i as int),
        decreases cs.len() - i,
    {
        let c = cs[i];
        out.push(if c == ' ' { '\u{a0}' } else { c });
        assert(run_text_spec(text@).take(i + 1) =~= run_text_spec(text@).take(i as int).push(
            run_text_spec(text@)[i as int],
        ));
        i = i + 1;
    }
    assert(run_text_spec(text@).take(cs.len() as int) =~= run_text_spec(text@));
    string_from_chars(&out)
}

/// The program and arguments that attach a pseudo-terminal to the Herdr
/// terminal `terminal_id`: `herdr terminal attach <terminal_id>`.
pub fn attach_command(terminal_id: &str) -> (r: (String, Vec<String>))
    ensures
        r.0@ == "herdr"@,
        strs(r.1@) == seq!["terminal"@, "attach"@, terminal_id@],
{
    let mut args: Vec<String> = Vec::new();
    args.push(String::from_str("terminal"));
    args.push(String::from_str("attach"));
    args.push(String::from_str(terminal_id));
    assert(strs(args@) =~= seq!["terminal"@, "attach"@, terminal_id@]);
    (String::from_str("herdr"), args)
}

} // verus!
