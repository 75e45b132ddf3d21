//! Terminal frames: styled runs of text, line trimming, colours, and the
//! assembly of a frame from the cells that the VT emulator reports.
use vstd::prelude::*;

use crate::paths::{join_path, join_spec};
use crate::text::{
    all_spaces, is_all_spaces, push_char, strs, trim_end_spaces, trimmed_end_spaces,
};

verus! {

/// Foreground used for cells that report no colour of their own.
pub const DEFAULT_FG: u32 = 0xc5ceda;

/// Foreground of error message frames.
pub const MESSAGE_FG: u32 = 0xfca5a5;

/// Foreground and background of the cell under the cursor.
pub const CURSOR_FG: u32 = 0x0a0a0a;

pub const CURSOR_BG: u32 = 0xf4f4f4;

/// A maximal piece of a line drawn in one style.
#[derive(Clone, Debug, PartialEq, Eq)]
pub struct TerminalRun {
    pub text: String,
    pub fg: u32,
    pub bg: Option<u32>,
}

/// The mathematical content of a run.
pub struct RunView {
    pub text: Seq<char>,
    pub fg: u32,
    pub bg: Option<u32>,
}

impl View for TerminalRun {
    type V = RunView;

    open spec fn view(&self) -> RunView {
        RunView { text: self.text@, fg: self.fg, bg: self.bg }
    }
}

pub open spec fn runs_view(runs: Seq<TerminalRun>) -> Seq<RunView> {
    runs.map_values(|r: TerminalRun| r@)
}

/// One row of a terminal frame.
#[derive(Clone, Debug, PartialEq, Eq)]
pub struct TerminalLine {
    pub runs: Vec<TerminalRun>,
}

impl View for TerminalLine {
    type V = Seq<RunView>;

    open spec fn view(&self) -> Seq<RunView> {
        runs_view(self.runs@)
    }
}

impl Default for TerminalLine {
    fn default() -> (line: Self)
        ensures
            line@ == Seq::<RunView>::empty(),
    {
        let line = TerminalLine { runs: Vec::new() };
        assert(line@ =~= Seq::<RunView>::empty());
        line
    }
}

/// Whether a run is drawn in the given style.
pub open spec fn has_style(r: RunView, fg: u32, bg: Option<u32>) -> bool {
    r.fg == fg && r.bg == bg
}

/// Appending `text` in a style: it joins the last run when that run has the
/// same style, and starts a new run otherwise.
pub open spec fn push_run_spec(runs: Seq<RunView>, text: Seq<char>, fg: u32, bg: Option<u32>) -> Seq<
    RunView,
> {
    if runs.len() > 0 && has_style(runs.last(), fg, bg) {
        runs.update(runs.len() - 1, RunView { text: runs.last().text + text, fg, bg })
    } else {
        runs.push(RunView { text, fg, bg })
    }
}

fn same_color(a: Option<u32>, b: Option<u32>) -> (r: bool)
    ensures
        r == (a == b),
{
    match (a, b) {
        (Some(x), Some(y)) => x == y,
        (None, None) => true,
        _ => false,
    }
}

/// Appends `text` drawn in `fg`/`bg` to `runs`, merging with the last run when
/// its style matches.
pub fn push_run(runs: &mut Vec<TerminalRun>, text: String, fg: u32, bg: Option<u32>)
    ensures
        runs_view(final(runs)@) == push_run_spec(runs_view(old(runs)@), text@, fg, bg),
{
    let n = runs.len();
    if n > 0 && runs[n - 1].fg == fg && same_color(runs[n - 1].bg, bg) {
        let ghost before = runs_view(runs@);
        let mut last = runs.pop().unwrap();
        last.text.append(text.as_str());
        runs.push(last);
        assert(runs_view(runs@) =~= push_run_spec(before, text@, fg, bg));
    } else {
        let ghost before = runs_view(runs@);
        runs.push(TerminalRun { text, fg, bg });
        assert(runs_view(runs@) =~= push_run_spec(before, text@, fg, bg));
    }
}

/// A run that `trim_line` removes from the end of a line: no background and
/// nothing but spaces.
pub open spec fn is_blank_run(r: RunView) -> bool {
    r.bg is None && all_spaces(r.text)
}

/// `runs` without its trailing blank runs.
pub open spec fn drop_blank_tail(runs: Seq<RunView>) -> Seq<RunView>
    decreases runs.len(),
{
    if runs.len() > 0 && is_blank_run(runs.last()) {
        drop_blank_tail(runs.drop_last())
    } else {
        runs
    }
}

/// The runs of a trimmed line: trailing blank runs dropped, then trailing
/// spaces cut from the last run when it has no background.
pub open spec fn trim_runs(runs: Seq<RunView>) -> Seq<RunView> {
    let kept = drop_blank_tail(runs);
    if kept.len() > 0 && kept.last().bg is None {
        kept.update(
            kept.len() - 1,
            RunView { text: trim_end_spaces(kept.last().text), fg: kept.last().fg, bg: None },
        )
    } else {
        kept
    }
}

/// Removes trailing plain whitespace from a line.
pub fn trim_line(line: &mut TerminalLine)
    ensures
        final(line)@ == trim_runs(old(line)@),
{
    let ghost untrimmed = line@;
    loop
        invariant
            drop_blank_tail(line@) == drop_blank_tail(untrimmed),
        ensures
            line@ == drop_blank_tail(untrimmed),
        decreases line.runs.len(),
    {
        let n = line.runs.len();
        if n == 0 {
            break;
        }
        if !(line.runs[n - 1].bg.is_none() && is_all_spaces(line.runs[n - 1].text.as_str())) {
            assert(line@.last() == line.runs@[n - 1]@);
            break;
        }
        let ghost before = line@;
        line.runs.pop();
        assert(line@ =~= before.drop_last());
    }
    let n = line.runs.len();
    if n > 0 && line.runs[n - 1].bg.is_none() {
        let ghost before = line@;
        let mut last = line.runs.pop().unwrap();
        let trimmed = trimmed_end_spaces(last.text.as_str());
        last.text = trimmed;
        line.runs.push(last);
        assert(line@ =~= trim_runs(untrimmed));
    }
}


/// All text of a sequence of runs, in order.
pub open spec fn runs_text(runs: Seq<RunView>) -> Seq<char>
    decreases runs.len(),
{
    if runs.len() == 0 {
        Seq::empty()
    } else {
        runs_text(runs.drop_last()) + runs.last().text
    }
}

/// No two neighbouring runs share a style.
pub open spec fn styles_alternate(runs: Seq<RunView>) -> bool {
    forall|i: int| 0 < i < runs.len() ==> !has_style(#[trigger] runs[i], runs[i - 1].fg, runs[i - 1].bg)
}

/// Pushing text onto a line never loses or reorders characters: the line's
/// text afterwards is its text before followed by the pushed text.
pub proof fn law_push_run_appends_text(runs: Seq<RunView>, text: Seq<char>, fg: u32, bg: Option<u32>)
    ensures
        runs_text(push_run_spec(runs, text, fg, bg)) == runs_text(runs) + text,
{
    let out = push_run_spec(runs, text, fg, bg);
    if runs.len() > 0 && has_style(runs.last(), fg, bg) {
        assert(out.drop_last() =~= runs.drop_last());
        assert(runs_text(runs) == runs_text(runs.drop_last()) + runs.last().text);
        assert(runs_text(out) =~= runs_text(runs.drop_last()) + (runs.last().text + text));
    } else {
        assert(out.drop_last() =~= runs);
    }
}

/// Runs built by pushing are maximal: if neighbouring runs differ in style
/// before a push, they still do after it.
pub proof fn law_push_run_keeps_styles_alternating(
    runs: Seq<RunView>,
    text: Seq<char>,
    fg: u32,
    bg: Option<u32>,
)
    requires
        styles_alternate(runs),
    ensures
        styles_alternate(push_run_spec(runs, text, fg, bg)),
{
    let out = push_run_spec(runs, text, fg, bg);
    assert forall|i: int| 0 < i < out.len() implies !has_style(#[trigger] out[i], out[i - 1].fg, out[i - 1].bg) by {
        if i < runs.len() {
            assert(out[i].fg == runs[i].fg && out[i].bg == runs[i].bg);
            assert(out[i - 1].fg == runs[i - 1].fg && out[i - 1].bg == runs[i - 1].bg);
        }
    }
}

proof fn lemma_drop_blank_tail_last(runs: Seq<RunView>)
    ensures
        drop_blank_tail(runs).len() <= runs.len(),
        drop_blank_tail(runs) == runs.take(drop_blank_tail(runs).len() as int),
        drop_blank_tail(runs).len() > 0 ==> !is_blank_run(drop_blank_tail(runs).last()),
    decreases runs.len(),
{
    if runs.len() > 0 && is_blank_run(runs.last()) {
        lemma_drop_blank_tail_last(runs.drop_last());
        let k = drop_blank_tail(runs.drop_last()).len();
        assert(runs.drop_last().take(k as int) =~= runs.take(k as int));
    } else {
        assert(runs.take(runs.len() as int) =~= runs);
    }
}

proof fn lemma_trim_end_keeps_non_blank(s: Seq<char>)
    requires
        !all_spaces(s),
    ensures
        !all_spaces(trim_end_spaces(s)),
    decreases s.len(),
{
    if s.len() > 0 && s.last() == ' ' {
        assert(!all_spaces(s.drop_last())) by {
            let i = choose|i: int| 0 <= i < s.len() && s[i] != ' ';
            assert(s.drop_last()[i] == s[i]);
        }
        lemma_trim_end_keeps_non_blank(s.drop_last());
    }
}

/// A trimmed line ends in a run worth drawing: never in a blank run, and a
/// last run without background never ends in a space.
pub proof fn law_trim_runs_leaves_no_trailing_blank(runs: Seq<RunView>)
    ensures
        trim_runs(runs).len() > 0 ==> !is_blank_run(trim_runs(runs).last()),
        trim_runs(runs).len() > 0 && trim_runs(runs).last().bg is None && trim_runs(
            runs,
        ).last().text.len() > 0 ==> trim_runs(runs).last().text.last() != ' ',
{
    lemma_drop_blank_tail_last(runs);
    let kept = drop_blank_tail(runs);
    if kept.len() > 0 && kept.last().bg is None {
        lemma_trim_end_keeps_non_blank(kept.last().text);
        crate::text::lemma_trim_end_spaces_shape(kept.last().text);
    }
}

/// Trimming a line twice is trimming it once.
pub proof fn law_trim_runs_idempotent(runs: Seq<RunView>)
    ensures
        trim_runs(trim_runs(runs)) == trim_runs(runs),
{
    lemma_drop_blank_tail_last(runs);
    let kept = drop_blank_tail(runs);
    let once = trim_runs(runs);
    if kept.len() > 0 && kept.last().bg is None {
        lemma_trim_end_keeps_non_blank(kept.last().text);
        assert(!is_blank_run(once.last()));
        assert(drop_blank_tail(once) == once);
        crate::text::lemma_trim_end_spaces_idempotent(kept.last().text);
        assert(trim_runs(once) =~= once);
    } else {
        assert(drop_blank_tail(kept) == kept);
    }
}

/// An RGB triple as the VT emulator reports it.
#[derive(Clone, Copy, Debug, PartialEq, Eq)]
pub struct ColorRgb {
    pub r: u8,
    pub g: u8,
    pub b: u8,
}

pub open spec fn red(c: u32) -> int {
    (c / 0x10000) as int % 0x100
}

pub open spec fn green(c: u32) -> int {
    (c / 0x100) as int % 0x100
}

pub open spec fn blue(c: u32) -> int {
    c as int % 0x100
}

/// Packs a colour as `0xRRGGBB`.
pub fn rgb_u32(color: ColorRgb) -> (v: u32)
    ensures
        v == color.r * 0x10000 + color.g * 0x100 + color.b,
{
    let r = color.r;
    let g = color.g;
    let b = color.b;
    assert(((r as u32) << 16u32) | ((g as u32) << 8u32) | (b as u32) == (r as u32) * 0x10000u32 + (
    g as u32) * 0x100u32 + (b as u32)) by (bit_vector);
    ((r as u32) << 16u32) | ((g as u32) << 8u32) | (b as u32)
}

/// Packing and unpacking agree on every channel.
pub proof fn law_rgb_channels_round_trip(color: ColorRgb)
    ensures
        color.r * 0x10000 + color.g * 0x100 + color.b <= 0xffffff,
        red((color.r * 0x10000 + color.g * 0x100 + color.b) as u32) == color.r,
        green((color.r * 0x10000 + color.g * 0x100 + color.b) as u32) == color.g,
        blue((color.r * 0x10000 + color.g * 0x100 + color.b) as u32) == color.b,
{
    let r = color.r;
    let g = color.g;
    let b = color.b;
    let v: u32 = (r * 0x10000 + g * 0x100 + b) as u32;
    assert(v / 0x10000 == r && (v / 0x100) % 0x100 == g && v % 0x100 == b) by (nonlinear_arith)
        requires
            v == r * 0x10000 + g * 0x100 + b,
            r < 256,
            g < 256,
            b < 256,
    ;
}

pub open spec fn max3(a: int, b: int, c: int) -> int {
    if a >= b && a >= c {
        a
    } else if b >= c {
        b
    } else {
        c
    }
}

pub open spec fn min3(a: int, b: int, c: int) -> int {
    if a <= b && a <= c {
        a
    } else if b <= c {
        b
    } else {
        c
    }
}

/// A dark grey close to the terminal's own background: drawing it would only
/// add noise.
pub open spec fn is_neutral_dark(c: u32) -> bool {
    let hi = max3(red(c), green(c), blue(c));
    let lo = min3(red(c), green(c), blue(c));
    hi < 120 && hi - lo < 35
}

pub open spec fn terminal_bg_spec(color: Option<u32>) -> Option<u32> {
    match color {
        Some(c) => if is_neutral_dark(c) {
            None
        } else {
            Some(c)
        },
        None => None,
    }
}

/// The background to draw for a cell: neutral dark greys are dropped.
pub fn terminal_bg(color: Option<u32>) -> (out: Option<u32>)
    ensures
        out == terminal_bg_spec(color),
{
    let color = match color {
        Some(c) => c,
        None => return None,
    };
    let r = (color >> 16u32) & 0xffu32;
    let g = (color >> 8u32) & 0xffu32;
    let b = color & 0xffu32;
    assert(r == (color / 0x10000) % 0x100 && g == (color / 0x100) % 0x100 && b == color % 0x100)
        by (bit_vector)
        requires
            r == (color >> 16u32) & 0xffu32,
            g == (color >> 8u32) & 0xffu32,
            b == color & 0xffu32,
    ;
    let max = if r >= g && r >= b {
        r
    } else if g >= b {
        g
    } else {
        b
    };
    let min = if r <= g && r <= b {
        r
    } else if g <= b {
        g
    } else {
        b
    };
    if max < 120 && max - min < 35 {
        None
    } else {
        Some(color)
    }
}

/// Filtering a background twice filters it once; a kept background is the
/// reported one, unchanged.
pub proof fn law_terminal_bg_idempotent(color: Option<u32>)
    ensures
        terminal_bg_spec(terminal_bg_spec(color)) == terminal_bg_spec(color),
        terminal_bg_spec(color) is Some ==> terminal_bg_spec(color) == color,
{
}


/// A whole frame: one line per terminal row.
#[derive(Clone, Debug, PartialEq, Eq)]
pub struct TerminalFrame {
    pub lines: Vec<TerminalLine>,
}

impl View for TerminalFrame {
    type V = Seq<Seq<RunView>>;

    open spec fn view(&self) -> Seq<Seq<RunView>> {
        self.lines@.map_values(|l: TerminalLine| l@)
    }
}

impl Default for TerminalFrame {
    fn default() -> (frame: Self)
        ensures
            frame@ == Seq::<Seq<RunView>>::empty(),
    {
        let frame = TerminalFrame { lines: Vec::new() };
        assert(frame@ =~= Seq::<Seq<RunView>>::empty());
        frame
    }
}

/// What the VT emulator reports for one cell of a row: its text (empty for
/// the spacer half of a wide character) and its colours, if any.
#[derive(Clone, Debug, PartialEq, Eq)]
pub struct TerminalCell {
    pub text: String,
    pub fg: Option<u32>,
    pub bg: Option<u32>,
}

pub struct CellView {
    pub text: Seq<char>,
    pub fg: Option<u32>,
    pub bg: Option<u32>,
}

impl View for TerminalCell {
    type V = CellView;

    open spec fn view(&self) -> CellView {
        CellView { text: self.text@, fg: self.fg, bg: self.bg }
    }
}

pub open spec fn cells_view(cells: Seq<TerminalCell>) -> Seq<CellView> {
    cells.map_values(|c: TerminalCell| c@)
}

/// Column and row counters stop at the largest `u16`.
pub open spec fn saturated(i: int) -> u16 {
    if i < 0xffff {
        i as u16
    } else {
        0xffff
    }
}

/// The style a cell is drawn in: the cursor cell is inverted, every other
/// cell keeps its colours (default foreground, filtered background).
pub open spec fn cell_style(cell: CellView, under_cursor: bool) -> (u32, Option<u32>) {
    if under_cursor {
        (CURSOR_FG, Some(CURSOR_BG))
    } else {
        (
            match cell.fg {
                Some(fg) => fg,
                None => DEFAULT_FG,
            },
            terminal_bg_spec(cell.bg),
        )
    }
}

/// The runs of a row before trimming: every non-empty cell pushed in order,
/// the cell at column `x` of row `y` being the cursor cell when the cursor
/// sits at `(x, y)`.
pub open spec fn runs_of_cells(cells: Seq<CellView>, cursor: Option<(u16, u16)>, y: u16) -> Seq<
    RunView,
>
    decreases cells.len(),
{
    if cells.len() == 0 {
        Seq::empty()
    } else {
        let prev = runs_of_cells(cells.drop_last(), cursor, y);
        let cell = cells.last();
        if cell.text.len() == 0 {
            prev
        } else {
            let style = cell_style(cell, cursor == Some((saturated(cells.len() - 1), y)));
            push_run_spec(prev, cell.text, style.0, style.1)
        }
    }
}

pub open spec fn line_of_cells(cells: Seq<CellView>, cursor: Option<(u16, u16)>, y: u16) -> Seq<
    RunView,
> {
    trim_runs(runs_of_cells(cells, cursor, y))
}

/// The text of a row of cells, left to right.
pub open spec fn cells_text(cells: Seq<CellView>) -> Seq<char>
    decreases cells.len(),
{
    if cells.len() == 0 {
        Seq::empty()
    } else {
        cells_text(cells.drop_last()) + cells.last().text
    }
}

/// `s` is `t` followed by nothing but spaces.
pub open spec fn pads(s: Seq<char>, t: Seq<char>) -> bool {
    &&& t.len() <= s.len()
    &&& s.take(t.len() as int) == t
    &&& all_spaces(s.skip(t.len() as int))
}

proof fn lemma_pads_refl(s: Seq<char>)
    ensures
        pads(s, s),
{
    assert(s.take(s.len() as int) =~= s);
}

proof fn lemma_pads_append(p: Seq<char>, s: Seq<char>, t: Seq<char>)
    requires
        pads(s, t),
    ensures
        pads(p + s, p + t),
{
    assert((p + s).take((p + t).len() as int) =~= p + s.take(t.len() as int));
    assert((p + s).skip((p + t).len() as int) =~= s.skip(t.len() as int));
}

proof fn lemma_pads_spaces(x: Seq<char>, sp: Seq<char>)
    requires
        all_spaces(sp),
    ensures
        pads(x + sp, x),
{
    assert((x + sp).take(x.len() as int) =~= x);
    assert((x + sp).skip(x.len() as int) =~= sp);
}

proof fn lemma_pads_trans(a: Seq<char>, b: Seq<char>, c: Seq<char>)
    requires
        pads(a, b),
        pads(b, c),
    ensures
        pads(a, c),
{
    assert(a.take(c.len() as int) =~= b.take(c.len() as int)) by {
        assert forall|i: int| 0 <= i < c.len() implies a.take(c.len() as int)[i] == b.take(
            c.len() as int,
        )[i] by {
            assert(a.take(b.len() as int)[i] == a[i]);
        }
    }
    assert forall|i: int| 0 <= i < a.skip(c.len() as int).len() implies a.skip(c.len() as int)[i]
        == ' ' by {
        let k = c.len() + i;
        if k < b.len() {
            assert(a.take(b.len() as int)[k] == a[k]);
            assert(b.skip(c.len() as int)[i] == b[k]);
        } else {
            assert(a.skip(b.len() as int)[k - b.len()] == a[k]);
        }
    }
}

proof fn lemma_runs_of_cells_text(cells: Seq<CellView>, cursor: Option<(u16, u16)>, y: u16)
    ensures
        runs_text(runs_of_cells(cells, cursor, y)) == cells_text(cells),
    decreases cells.len(),
{
    if cells.len() > 0 {
        lemma_runs_of_cells_text(cells.drop_last(), cursor, y);
        let prev = runs_of_cells(cells.drop_last(), cursor, y);
        let cell = cells.last();
        if cell.text.len() == 0 {
            assert(cells_text(cells) =~= cells_text(cells.drop_last()));
        } else {
            let style = cell_style(cell, cursor == Some((saturated(cells.len() - 1), y)));
            law_push_run_appends_text(prev, cell.text, style.0, style.1);
        }
    }
}

proof fn lemma_drop_blank_tail_text(runs: Seq<RunView>)
    ensures
        pads(runs_text(runs), runs_text(drop_blank_tail(runs))),
    decreases runs.len(),
{
    if runs.len() > 0 && is_blank_run(runs.last()) {
        lemma_drop_blank_tail_text(runs.drop_last());
        lemma_pads_spaces(runs_text(runs.drop_last()), runs.last().text);
        lemma_pads_trans(
            runs_text(runs),
            runs_text(runs.drop_last()),
            runs_text(drop_blank_tail(runs)),
        );
    } else {
        lemma_pads_refl(runs_text(runs));
    }
}

proof fn lemma_trim_runs_text(runs: Seq<RunView>)
    ensures
        pads(runs_text(runs), runs_text(trim_runs(runs))),
{
    lemma_drop_blank_tail_text(runs);
    let kept = drop_blank_tail(runs);
    if kept.len() > 0 && kept.last().bg is None {
        let last = kept.last();
        let out = trim_runs(runs);
        crate::text::lemma_trim_end_spaces_shape(last.text);
        let t = trim_end_spaces(last.text);
        assert(pads(last.text, t));
        assert(out.drop_last() =~= kept.drop_last());
        lemma_pads_append(runs_text(kept.drop_last()), last.text, t);
        lemma_pads_trans(runs_text(runs), runs_text(kept), runs_text(out));
    }
}

/// A row shows exactly what its cells hold, left to right: every cell adds
/// its own text, so the empty spacer half of a wide character adds nothing,
/// and trimming takes away trailing spaces only.
pub proof fn law_line_text_is_cell_text(cells: Seq<CellView>, cursor: Option<(u16, u16)>, y: u16)
    ensures
        runs_text(runs_of_cells(cells, cursor, y)) == cells_text(cells),
        pads(cells_text(cells), runs_text(line_of_cells(cells, cursor, y))),
{
    lemma_runs_of_cells_text(cells, cursor, y);
    lemma_trim_runs_text(runs_of_cells(cells, cursor, y));
}

pub open spec fn frame_of_rows(rows: Seq<Seq<CellView>>, cursor: Option<(u16, u16)>) -> Seq<
    Seq<RunView>,
> {
    Seq::new(rows.len(), |i: int| line_of_cells(rows[i], cursor, saturated(i)))
}

impl TerminalLine {
    /// Builds row `y` of a frame from its cells.
    pub fn from_cells(cells: &Vec<TerminalCell>, cursor: Option<(u16, u16)>, y: u16) -> (line:
        TerminalLine)
        ensures
            line@ == line_of_cells(cells_view(cells@), cursor, y),
    {
        let mut line = TerminalLine { runs: Vec::new() };
        let mut x: u16 = 0;
        let mut i: usize = 0;
        assert(cells_view(cells@).take(0) =~= Seq::<CellView>::empty());
        while i < cells.len()
            invariant
                i <= cells.len(),
                x == saturated(i as int),
                line@ == runs_of_cells(cells_view(cells@).take(i as int), cursor, y),
            decreases cells.len() - i,
        {
            let cell = &cells[i];
            let here = match cursor {
                Some((cx, cy)) => cx == x && cy == y,
                None => false,
            };
            if x < 0xffff {
                x = x + 1;
            }
            let ghost cs = cells_view(cells@).take(i + 1);
            assert(cs.drop_last() =~= cells_view(cells@).take(i as int));
            assert(cs.last() == cells@[i as int]@);
            if !cell.text.as_str().is_empty() {
                let (fg, bg) = if here {
                    (CURSOR_FG, Some(CURSOR_BG))
                } else {
                    (
                        match cell.fg {
                            Some(fg) => fg,
                            None => DEFAULT_FG,
                        },
                        terminal_bg(cell.bg),
                    )
                };
                push_run(&mut line.runs, cell.text.clone(), fg, bg);
            }
            i = i + 1;
        }
        assert(cells_view(cells@).take(cells.len() as int) =~= cells_view(cells@));
        trim_line(&mut line);
        line
    }
}

impl TerminalFrame {
    /// Builds a frame from the cells of its rows, top row first.
    pub fn from_cells(rows: &Vec<Vec<TerminalCell>>, cursor: Option<(u16, u16)>) -> (frame:
        TerminalFrame)
        ensures
            frame@ == frame_of_rows(rows@.map_values(|r: Vec<TerminalCell>| cells_view(r@)), cursor),
    {
        let ghost rv = rows@.map_values(|r: Vec<TerminalCell>| cells_view(r@));
        let mut lines: Vec<TerminalLine> = Vec::new();
        let mut y: u16 = 0;
        let mut i: usize = 0;
        while i < rows.len()
            invariant
                i <= rows.len(),
                y == saturated(i as int),
                rv == rows@.map_values(|r: Vec<TerminalCell>| cells_view(r@)),
                lines@.len() == i,
                forall|j: int|
                    0 <= j < i ==> #[trigger] lines@[j]@ == line_of_cells(rv[j], cursor, saturated(j)),
            decreases rows.len() - i,
        {
            let line = TerminalLine::from_cells(&rows[i], cursor, y);
            lines.push(line);
            if y < 0xffff {
                y = y + 1;
            }
            i = i + 1;
        }
        let frame = TerminalFrame { lines };
        assert(frame@ =~= frame_of_rows(rv, cursor));
        frame
    }

    /// A frame showing one line of text: how errors are reported in place of
    /// terminal output.
    pub fn message(text: String) -> (frame: TerminalFrame)
        ensures
            frame@ == seq![seq![RunView { text: text@, fg: MESSAGE_FG, bg: None }]],
    {
        let mut runs: Vec<TerminalRun> = Vec::new();
        runs.push(TerminalRun { text, fg: MESSAGE_FG, bg: None });
        let mut lines: Vec<TerminalLine> = Vec::new();
        lines.push(TerminalLine { runs });
        let frame = TerminalFrame { lines };
        assert(frame@[0] =~= seq![RunView { text: text@, fg: MESSAGE_FG, bg: None }]);
        assert(frame@ =~= seq![seq![RunView { text: text@, fg: MESSAGE_FG, bg: None }]]);
        frame
    }
}


/// The `wide` values of the two halves of a wide character that carry no
/// text of their own.
pub const CELL_WIDE_SPACER_TAIL: u32 = 2;

pub const CELL_WIDE_SPACER_HEAD: u32 = 3;

/// A `u32` that names a `char`: not a surrogate, at most `0x10FFFF`.
pub open spec fn is_unicode_scalar(v: u32) -> bool {
    v < 0xD800 || (0xE000 <= v && v <= 0x10FFFF)
}

/// The character a code point is drawn as: itself, or U+FFFD when it names
/// no character.
pub open spec fn decoded_char(v: u32) -> char {
    if is_unicode_scalar(v) {
        v as char
    } else {
        '\u{FFFD}'
    }
}

/// std `char::from_u32`.
///
/// Trusted: std documents that it returns the `char` with code point `v`
/// when `v` is a valid `char` value (not a surrogate, at most `char::MAX`,
/// which is U+10FFFF) and `None` otherwise; the contract claims that.
#[verifier::external_body]
fn char_from_u32(v: u32) -> (c: Option<char>)
    ensures
        c is Some <==> is_unicode_scalar(v),
        c matches Some(ch) ==> ch == v as char,
{
    char::from_u32(v)
}

pub fn decode_codepoint(v: u32) -> (c: char)
    ensures
        c == decoded_char(v),
{
    match char_from_u32(v) {
        Some(c) => c,
        None => '\u{FFFD}',
    }
}

/// The text of a cell from what the emulator reports of it: nothing for the
/// spacer half of a wide character, its grapheme code points when it has
/// any, a space when it holds no text, else its single code point.
pub open spec fn cell_text_spec(wide: u32, graphemes: Seq<u32>, has_text: bool, codepoint: u32) -> Seq<
    char,
> {
    if wide == CELL_WIDE_SPACER_TAIL || wide == CELL_WIDE_SPACER_HEAD {
        Seq::empty()
    } else if graphemes.len() > 0 {
        graphemes.map_values(|v: u32| decoded_char(v))
    } else if !has_text {
        seq![' ']
    } else {
        seq![decoded_char(codepoint)]
    }
}

pub fn cell_text(wide: u32, graphemes: &Vec<u32>, has_text: bool, codepoint: u32) -> (text: String)
    ensures
        text@ == cell_text_spec(wide, graphemes@, has_text, codepoint),
{
    let mut out = String::new();
    if wide == CELL_WIDE_SPACER_TAIL || wide == CELL_WIDE_SPACER_HEAD {
        return out;
    }
    if graphemes.len() > 0 {
        let mut i: usize = 0;
        while i < graphemes.len()
            invariant
                i <= graphemes.len(),
                out@ == graphemes@.take(i as int).map_values(|v: u32| decoded_char(v)),
            decreases graphemes.len() - i,
        {
            let c = decode_codepoint(graphemes[i]);
            push_char(&mut out, c);
            assert(graphemes@.take(i + 1).map_values(|v: u32| decoded_char(v)) =~= graphemes@.take(
                i as int,
            ).map_values(|v: u32| decoded_char(v)).push(c));
            i = i + 1;
        }
        assert(graphemes@.take(graphemes.len() as int) == graphemes@);
        return out;
    }
    if !has_text {
        push_char(&mut out, ' ');
    } else {
        push_char(&mut out, decode_codepoint(codepoint));
    }
    out
}

/// Where a checkout or bundle of libghostty-vt was found.
#[derive(Clone, Debug, PartialEq, Eq)]
pub struct GhosttyRuntime {
    pub root: String,
}

/// The files under a root any one of which marks it as holding libghostty-vt.
pub open spec fn vt_markers() -> Seq<Seq<char>> {
    seq![
        "lib/libghostty-vt.dylib"@,
        "zig-out/lib/libghostty-vt.dylib"@,
        "zig-out/lib/libghostty-vt.a"@,
    ]
}

pub open spec fn has_vt_spec(root: Seq<char>, files: Seq<Seq<char>>) -> bool {
    exists|i: int| 0 <= i < vt_markers().len() && files.contains(join_spec(root, vt_markers()[i]))
}

/// The marker files to look for under `root`, in the order they are checked.
pub fn vt_marker_paths(root: &str) -> (paths: Vec<String>)
    ensures
        strs(paths@) == vt_markers().map_values(|rel: Seq<char>| join_spec(root@, rel)),
{
    let mut paths: Vec<String> = Vec::new();
    paths.push(join_path(root, "lib/libghostty-vt.dylib"));
    paths.push(join_path(root, "zig-out/lib/libghostty-vt.dylib"));
    paths.push(join_path(root, "zig-out/lib/libghostty-vt.a"));
    assert(strs(paths@) =~= vt_markers().map_values(|rel: Seq<char>| join_spec(root@, rel)));
    paths
}

/// Whether `path` is one of `files`.
pub fn contains_path(files: &Vec<String>, path: &String) -> (b: bool)
    ensures
        b == strs(files@).contains(path@),
{
    let mut i: usize = 0;
    while i < files.len()
        invariant
            i <= files.len(),
            forall|j: int| 0 <= j < i ==> files@[j]@ != path@,
        decreases files.len() - i,
    {
        if files[i] == *path {
            assert(strs(files@)[i as int] == path@);
            return true;
        }
        i = i + 1;
    }
    assert forall|j: int| 0 <= j < strs(files@).len() implies strs(files@)[j]
        != path@ by {
        assert(strs(files@)[j] == files@[j]@);
    }
    false
}

/// Whether `root` holds libghostty-vt, given the files known to exist.
pub fn has_vt(root: &str, existing_files: &Vec<String>) -> (b: bool)
    ensures
        b == has_vt_spec(root@, strs(existing_files@)),
{
    let paths = vt_marker_paths(root);
    assert(vt_markers().len() == 3);
    assert(strs(paths@).len() == paths@.len());
    let mut i: usize = 0;
    while i < paths.len()
        invariant
            i <= paths.len(),
            strs(paths@) == vt_markers().map_values(|rel: Seq<char>| join_spec(root@, rel)),
            paths@.len() == vt_markers().len(),
            forall|j: int|
                0 <= j < i ==> !strs(existing_files@).contains(
                    #[trigger] join_spec(root@, vt_markers()[j]),
                ),
        decreases paths.len() - i,
    {
        assert(strs(paths@)[i as int] == paths@[i as int]@);
        assert(paths@[i as int]@ == join_spec(root@, vt_markers()[i as int]));
        if contains_path(existing_files, &paths[i]) {
            return true;
        }
        i = i + 1;
    }
    false
}

pub open spec fn not_found_message() -> Seq<char> {
    "libghostty-vt not found. Bundle vendor/ghostty-vt/lib/libghostty-vt.dylib or set GHOSTTY_VT_ROOT."@
}

impl GhosttyRuntime {
    /// The first of `roots` that holds libghostty-vt, given the files known
    /// to exist.
    pub fn detect(roots: &Vec<String>, existing_files: &Vec<String>) -> (found: Result<
        GhosttyRuntime,
        String,
    >)
        ensures
            found is Err <==> forall|i: int|
                0 <= i < roots@.len() ==> !has_vt_spec(
                    #[trigger] roots@[i]@,
                    strs(existing_files@),
                ),
            found matches Err(msg) ==> msg@ == not_found_message(),
            found matches Ok(rt) ==> exists|i: int|
                0 <= i < roots@.len() && rt.root@ == roots@[i]@ && has_vt_spec(
                    roots@[i]@,
                    strs(existing_files@),
                ) && forall|j: int|
                    0 <= j < i ==> !has_vt_spec(
                        #[trigger] roots@[j]@,
                        strs(existing_files@),
                    ),
    {
        let mut i: usize = 0;
        while i < roots.len()
            invariant
                i <= roots.len(),
                forall|j: int|
                    0 <= j < i ==> !has_vt_spec(
                        #[trigger] roots@[j]@,
                        strs(existing_files@),
                    ),
            decreases roots.len() - i,
        {
            if has_vt(roots[i].as_str(), existing_files) {
                return Ok(GhosttyRuntime { root: roots[i].clone() });
            }
            i = i + 1;
        }
        Err(String::from_str(
            "libghostty-vt not found. Bundle vendor/ghostty-vt/lib/libghostty-vt.dylib or set GHOSTTY_VT_ROOT.",
        ))
    }
}

/// The roots searched for libghostty-vt, in order: the `GHOSTTY_VT_ROOT`
/// override, the app bundle's resources, the checkout next to the crate, and
/// the two vendor directories relative to the working directory.
pub open spec fn ghostty_roots_spec(
    env_root: Option<Seq<char>>,
    bundle_contents: Option<Seq<char>>,
    manifest_dir: Seq<char>,
) -> Seq<Seq<char>> {
    let first = match env_root {
        Some(r) => seq![r],
        None => Seq::empty(),
    };
    let bundled = match bundle_contents {
        Some(c) => seq![join_spec(c, "Resources/ghostty"@)],
        None => Seq::empty(),
    };
    first + bundled + seq![
        join_spec(join_spec(manifest_dir, "../.."@), "vendor/ghostty-vt"@),
        "vendor/ghostty-vt"@,
        "vendor/ghostty"@,
    ]
}

pub fn ghostty_roots(
    env_root: Option<String>,
    bundle_contents: Option<String>,
    manifest_dir: &str,
) -> (roots: Vec<String>)
    ensures
        strs(roots@) == ghostty_roots_spec(
            match env_root {
                Some(r) => Some(r@),
                None => None,
            },
            match bundle_contents {
                Some(c) => Some(c@),
                None => None,
            },
            manifest_dir@,
        ),
{
    let mut roots: Vec<String> = Vec::new();
    if let Some(root) = env_root {
        roots.push(root);
    }
    if let Some(contents) = bundle_contents {
        roots.push(join_path(contents.as_str(), "Resources/ghostty"));
    }
    let up = join_path(manifest_dir, "../..");
    roots.push(join_path(up.as_str(), "vendor/ghostty-vt"));
    roots.push(String::from_str("vendor/ghostty-vt"));
    roots.push(String::from_str("vendor/ghostty"));
    assert(strs(roots@) =~= ghostty_roots_spec(
        match env_root {
            Some(r) => Some(r@),
            None => None,
        },
        match bundle_contents {
            Some(c) => Some(c@),
            None => None,
        },
        manifest_dir@,
    ));
    roots
}


/// The dynamic library to load for a runtime: the `GHOSTTY_VT_LIB`
/// override, else the first of the two build outputs under the root that
/// exists, else the bundled location.
pub open spec fn library_candidate(env_lib: Option<Seq<char>>, root: Seq<char>, files: Seq<Seq<char>>) -> Seq<
    char,
> {
    match env_lib {
        Some(p) => p,
        None => {
            let bundled = join_spec(root, "lib/libghostty-vt.dylib"@);
            let built = join_spec(root, "zig-out/lib/libghostty-vt.dylib"@);
            if files.contains(bundled) {
                bundled
            } else if files.contains(built) {
                built
            } else {
                bundled
            }
        },
    }
}

pub open spec fn library_missing_message(path: Seq<char>) -> Seq<char> {
    "libghostty-vt dylib not found at "@ + path
        + ". Bundle vendor/ghostty-vt/lib/libghostty-vt.dylib or set GHOSTTY_VT_LIB."@
}

/// The library path for `root`, or the error reported when that file is
/// missing.
pub fn library_path(env_lib: Option<String>, root: &str, existing_files: &Vec<String>) -> (path:
    Result<String, String>)
    ensures
        ({
            let candidate = library_candidate(
                match env_lib {
                    Some(p) => Some(p@),
                    None => None,
                },
                root@,
                strs(existing_files@),
            );
            &&& path is Ok <==> strs(existing_files@).contains(candidate)
            &&& path matches Ok(p) ==> p@ == candidate
            &&& path matches Err(msg) ==> msg@ == library_missing_message(candidate)
        }),
{
    let candidate = match env_lib {
        Some(p) => p,
        None => {
            let bundled = join_path(root, "lib/libghostty-vt.dylib");
            let built = join_path(root, "zig-out/lib/libghostty-vt.dylib");
            if contains_path(existing_files, &bundled) {
                bundled
            } else if contains_path(existing_files, &built) {
                built
            } else {
                bundled
            }
        },
    };
    if contains_path(existing_files, &candidate) {
        Ok(candidate)
    } else {
        let mut msg = String::from_str("libghostty-vt dylib not found at ");
        msg.append(candidate.as_str());
        msg.append(". Bundle vendor/ghostty-vt/lib/libghostty-vt.dylib or set GHOSTTY_VT_LIB.");
        Err(msg)
    }
}

} // verus!
