//! The terminal state machine: two screens (primary and alternate), the
//! scrollback, cursor, modes, tab stops and the damage set, driven one
//! [`Action`] at a time.  Every mutation is pinned by [`apply_spec`]; the
//! damage a step adds is a function of the grid state alone, so no pull
//! between steps can lose a mutation.

use crate::action::Action;
use crate::action::ActionV;
use crate::cell::blank_line;
use crate::cell::blank_line_spec;
use crate::cell::charset_map;
use crate::cell::charset_map_spec;
use crate::cell::Cell;
use crate::cell::Charset;
use crate::cell::Color;
use crate::cell::Line;
use crate::cell::LineV;
use crate::cell::Pen;
use crate::cell::StyleFlags;
use crate::util::copy_vec;
use crate::util::dec_digits;
use crate::util::push_decimal;
use vstd::prelude::*;
use vstd::assert_seqs_equal;
use vstd::assert_sets_equal;
use vstd::pervasive::VecAdditionalExecFns;

verus! {

/// Largest number of rows or columns a terminal may be given.
pub const MAX_DIM: usize = 4096;

/// Largest scrollback bound a terminal may be given.
pub const MAX_SCROLLBACK: usize = 100000;

/// A cursor position, always inside the grid.
#[derive(Debug, Clone, Copy, PartialEq, Eq, Structural)]
pub struct CursorPos {
    pub row: usize,
    pub col: usize,
}

/// The snapshot kept by save-cursor and brought back by restore-cursor.
#[derive(Debug, Clone, Copy, PartialEq, Eq, Structural)]
pub struct SavedCursor {
    pub pos: CursorPos,
    pub pen: Pen,
}

/// The independently settable terminal modes.
#[derive(Debug, Clone, Copy, PartialEq, Eq, Structural)]
pub struct ModeSet {
    pub autowrap: bool,
    pub origin: bool,
    pub show_cursor: bool,
    pub bracketed_paste: bool,
    pub app_cursor: bool,
    pub app_keypad: bool,
    pub mouse_click: bool,
    pub mouse_motion: bool,
    pub mouse_sgr: bool,
}

impl ModeSet {
    /// The reset-state modes: auto-wrap on, cursor visible, the rest off.
    pub open spec fn reset_spec() -> ModeSet {
        ModeSet {
            autowrap: true,
            origin: false,
            show_cursor: true,
            bracketed_paste: false,
            app_cursor: false,
            app_keypad: false,
            mouse_click: false,
            mouse_motion: false,
            mouse_sgr: false,
        }
    }

    /// The reset-state modes.
    pub fn reset() -> (r: ModeSet)
        ensures
            r == ModeSet::reset_spec(),
    {
        ModeSet {
            autowrap: true,
            origin: false,
            show_cursor: true,
            bracketed_paste: false,
            app_cursor: false,
            app_keypad: false,
            mouse_click: false,
            mouse_motion: false,
            mouse_sgr: false,
        }
    }
}

/// Mathematical view of one screen.
#[verifier::ext_equal]
pub struct ScreenV {
    pub lines: Seq<LineV>,
    pub cursor: CursorPos,
    pub saved: SavedCursor,
}

/// One screen: its grid lines, cursor, and saved-cursor snapshot.
pub struct Screen {
    pub lines: Vec<Line>,
    pub cursor: CursorPos,
    pub saved: SavedCursor,
}

/// The views of a sequence of concrete lines, element by element.
pub open spec fn lviews(s: Seq<Line>) -> Seq<LineV> {
    s.map_values(|l: Line| l@)
}

impl View for Screen {
    type V = ScreenV;

    open spec fn view(&self) -> ScreenV {
        ScreenV { lines: lviews(self.lines@), cursor: self.cursor, saved: self.saved }
    }
}

/// A notification the state machine hands outward instead of mutating the
/// grid: these have no cell representation.
#[derive(Debug, Clone, PartialEq, Eq)]
pub enum TermEvent {
    /// The window title was set to this payload.
    Title(Vec<u8>),
    /// The bell rang.
    Bell,
    /// A hyperlink annotation with this payload.
    Hyperlink(Vec<u8>),
    /// A colour-palette set or query with this payload.
    Palette(Vec<u8>),
}

/// Mathematical view of a [`TermEvent`].
pub enum EventV {
    Title(Seq<u8>),
    Bell,
    Hyperlink(Seq<u8>),
    Palette(Seq<u8>),
}

impl View for TermEvent {
    type V = EventV;

    open spec fn view(&self) -> EventV {
        match self {
            TermEvent::Title(p) => EventV::Title(p@),
            TermEvent::Bell => EventV::Bell,
            TermEvent::Hyperlink(p) => EventV::Hyperlink(p@),
            TermEvent::Palette(p) => EventV::Palette(p@),
        }
    }
}

/// The view of an optional event.
pub open spec fn ev_view(o: Option<TermEvent>) -> Option<EventV> {
    match o {
        Option::None => Option::<EventV>::None,
        Option::Some(e) => Option::Some(e@),
    }
}

/// Mathematical view of the whole terminal but its damage.
#[verifier::ext_equal]
pub struct CoreV {
    pub rows: int,
    pub cols: int,
    pub primary: ScreenV,
    pub alt: ScreenV,
    pub alt_active: bool,
    pub modes: ModeSet,
    pub pen: Pen,
    pub scroll_top: int,
    pub scroll_bot: int,
    pub tabs: Seq<bool>,
    pub sb: Seq<LineV>,
    pub sb_cap: int,
    pub g0: Charset,
    pub g1: Charset,
    pub g2: Charset,
    pub g3: Charset,
    pub active_charset: u8,
    pub replies: Seq<u8>,
    pub display_offset: int,
    pub sel: Option<(CursorPos, CursorPos)>,
}

/// Mathematical view of the terminal: its core plus the damage set, the set
/// of dirty row indices accumulated since the last pull.
#[verifier::ext_equal]
pub struct TermV {
    pub core: CoreV,
    pub dirty: Set<int>,
}

/// The terminal state machine.
pub struct Term {
    rows: usize,
    cols: usize,
    primary: Screen,
    alt: Screen,
    alt_active: bool,
    modes: ModeSet,
    pen: Pen,
    scroll_top: usize,
    scroll_bot: usize,
    tabs: Vec<bool>,
    sb: Vec<Line>,
    sb_cap: usize,
    g0: Charset,
    g1: Charset,
    g2: Charset,
    g3: Charset,
    active_charset: u8,
    replies: Vec<u8>,
    display_offset: usize,
    sel: Option<(CursorPos, CursorPos)>,
    dirty: Vec<bool>,
}

impl View for Term {
    type V = TermV;

    closed spec fn view(&self) -> TermV {
        TermV {
            core: CoreV {
                rows: self.rows as int,
                cols: self.cols as int,
                primary: self.primary@,
                alt: self.alt@,
                alt_active: self.alt_active,
                modes: self.modes,
                pen: self.pen,
                scroll_top: self.scroll_top as int,
                scroll_bot: self.scroll_bot as int,
                tabs: self.tabs@,
                sb: lviews(self.sb@),
                sb_cap: self.sb_cap as int,
                g0: self.g0,
                g1: self.g1,
                g2: self.g2,
                g3: self.g3,
                active_charset: self.active_charset,
                replies: self.replies@,
                display_offset: self.display_offset as int,
                sel: self.sel,
            },
            dirty: Set::new(|i: int| 0 <= i < self.rows as int && self.dirty@[i]),
        }
    }
}

// ---------------------------------------------------------------------------
// Well-formedness.
// ---------------------------------------------------------------------------

/// A screen fits the given dimensions: the right number of lines, every line
/// of the right width, cursor and saved cursor inside the grid.
pub open spec fn wf_screen(s: ScreenV, rows: int, cols: int) -> bool {
    &&& s.lines.len() == rows
    &&& forall|i: int| 0 <= i < rows ==> (#[trigger] s.lines[i]).cells.len() == cols
    &&& 0 <= s.cursor.row < rows
    &&& 0 <= s.cursor.col < cols
    &&& 0 <= s.saved.pos.row < rows
    &&& 0 <= s.saved.pos.col < cols
}

/// The terminal's structural invariant: dimensions in range, both screens
/// well-formed, a valid scroll region, tab stops one per column, scrollback
/// within its bound with every kept line at the grid width.
pub open spec fn wf_core(c: CoreV) -> bool {
    &&& 1 <= c.rows <= MAX_DIM as int
    &&& 1 <= c.cols <= MAX_DIM as int
    &&& wf_screen(c.primary, c.rows, c.cols)
    &&& wf_screen(c.alt, c.rows, c.cols)
    &&& 0 <= c.scroll_top < c.scroll_bot <= c.rows
    &&& c.tabs.len() == c.cols
    &&& 0 <= c.sb_cap <= MAX_SCROLLBACK as int
    &&& c.sb.len() <= c.sb_cap
    &&& forall|i: int| 0 <= i < c.sb.len() ==> (#[trigger] c.sb[i]).cells.len() == c.cols
    &&& c.active_charset < 4
}

impl Term {
    /// The terminal's invariant, tied to its representation.
    pub closed spec fn wf(&self) -> bool {
        &&& wf_core(self@.core)
        &&& self.dirty@.len() == self.rows as int
    }
}

/// The screen actions act on.
pub open spec fn cur_screen(c: CoreV) -> ScreenV {
    if c.alt_active {
        c.alt
    } else {
        c.primary
    }
}

/// The core with its active screen replaced.
pub open spec fn with_screen(c: CoreV, s: ScreenV) -> CoreV {
    if c.alt_active {
        CoreV { alt: s, ..c }
    } else {
        CoreV { primary: s, ..c }
    }
}

/// The character set the active slot selects.
pub open spec fn active_cs(c: CoreV) -> Charset {
    if c.active_charset == 0 {
        c.g0
    } else if c.active_charset == 1 {
        c.g1
    } else if c.active_charset == 2 {
        c.g2
    } else {
        c.g3
    }
}

/// The set of row indices in `a..b`.
pub open spec fn row_set(a: int, b: int) -> Set<int> {
    Set::new(|i: int| a <= i < b)
}

// ---------------------------------------------------------------------------
// Spec-level grid edits.
// ---------------------------------------------------------------------------

/// `cells` with the range `a..b` replaced by `cell`.
pub open spec fn filled_cells(cells: Seq<Cell>, a: int, b: int, cell: Cell) -> Seq<Cell> {
    Seq::new(cells.len(), |i: int| if a <= i < b { cell } else { cells[i] })
}

/// `lines` with one cell replaced.
pub open spec fn write_cell_spec(lines: Seq<LineV>, r: int, col: int, cell: Cell) -> Seq<LineV> {
    lines.update(r, LineV { cells: lines[r].cells.update(col, cell), wrapped: lines[r].wrapped })
}

/// `lines` with row `r`'s cell range `a..b` replaced by `cell`.
pub open spec fn fill_row_spec(lines: Seq<LineV>, r: int, a: int, b: int, cell: Cell) -> Seq<
    LineV,
> {
    lines.update(r, LineV { cells: filled_cells(lines[r].cells, a, b, cell), wrapped: lines[r].wrapped })
}

/// `lines` with row `r`'s wrap flag set.
pub open spec fn set_wrapped_spec(lines: Seq<LineV>, r: int, w: bool) -> Seq<LineV> {
    lines.update(r, LineV { cells: lines[r].cells, wrapped: w })
}

/// `lines` with rows `a..b` made blank.
pub open spec fn blank_rows_spec(lines: Seq<LineV>, a: int, b: int, cols: int, pen: Pen) -> Seq<
    LineV,
> {
    Seq::new(lines.len(), |i: int| if a <= i < b { blank_line_spec(cols, pen) } else { lines[i] })
}

/// The scrollback after one line is pushed: the oldest entry drops silently
/// once the bound is reached; a zero bound keeps nothing.
pub open spec fn pushed_sb(sb: Seq<LineV>, cap: int, l: LineV) -> Seq<LineV> {
    if cap <= 0 {
        sb
    } else if sb.len() < cap {
        sb.push(l)
    } else {
        sb.drop_first().push(l)
    }
}

/// One upward scroll of the region `top..bot`: the top line leaves (into the
/// scrollback when `push` holds), the rest shift up, a blank line enters at
/// the bottom.
pub open spec fn scroll_up_one_spec(
    lines: Seq<LineV>,
    sb: Seq<LineV>,
    push: bool,
    cap: int,
    top: int,
    bot: int,
    cols: int,
    pen: Pen,
) -> (Seq<LineV>, Seq<LineV>) {
    let evicted = lines[top];
    let lines1 = lines.remove(top).insert(bot - 1, blank_line_spec(cols, pen));
    let sb1 = if push {
        pushed_sb(sb, cap, evicted)
    } else {
        sb
    };
    (lines1, sb1)
}

/// One downward scroll of the region `top..bot`: the bottom line leaves, the
/// rest shift down, a blank line enters at the top.
pub open spec fn scroll_down_one_spec(lines: Seq<LineV>, top: int, bot: int, cols: int, pen: Pen) -> Seq<
    LineV,
> {
    lines.remove(bot - 1).insert(top, blank_line_spec(cols, pen))
}

// ---------------------------------------------------------------------------
// Exec-level grid edits, each pinned to its spec twin.
// ---------------------------------------------------------------------------

proof fn lemma_lviews_push(s: Seq<Line>, x: Line)
    ensures
        lviews(s.push(x)) == lviews(s).push(x@),
{
    assert_seqs_equal!(lviews(s.push(x)) == lviews(s).push(x@));
}

proof fn lemma_lviews_update(s: Seq<Line>, i: int, x: Line)
    requires
        0 <= i < s.len(),
    ensures
        lviews(s.update(i, x)) == lviews(s).update(i, x@),
{
    assert_seqs_equal!(lviews(s.update(i, x)) == lviews(s).update(i, x@));
}

proof fn lemma_lviews_remove(s: Seq<Line>, i: int)
    requires
        0 <= i < s.len(),
    ensures
        lviews(s.remove(i)) == lviews(s).remove(i),
{
    assert_seqs_equal!(lviews(s.remove(i)) == lviews(s).remove(i));
}

proof fn lemma_lviews_insert(s: Seq<Line>, i: int, x: Line)
    requires
        0 <= i <= s.len(),
    ensures
        lviews(s.insert(i, x)) == lviews(s).insert(i, x@),
{
    assert_seqs_equal!(lviews(s.insert(i, x)) == lviews(s).insert(i, x@));
}

/// Replaces one cell of one line.
fn set_cell(lines: &mut Vec<Line>, r: usize, col: usize, cell: Cell)
    requires
        r < old(lines)@.len(),
        col < old(lines)@[r as int]@.cells.len(),
    ensures
        final(lines)@.len() == old(lines)@.len(),
        lviews(final(lines)@) == write_cell_spec(lviews(old(lines)@), r as int, col as int, cell),
{
    let mut tmp = Line { cells: Vec::new(), wrapped: false };
    lines.set_and_swap(r, &mut tmp);
    tmp.cells.set(col, cell);
    lines.set_and_swap(r, &mut tmp);
    proof {
        assert_seqs_equal!(lviews(lines@) == write_cell_spec(lviews(old(lines)@), r as int, col as int, cell));
    }
}

/// Sets one line's wrap flag.
fn set_wrapped(lines: &mut Vec<Line>, r: usize, w: bool)
    requires
        r < old(lines)@.len(),
    ensures
        final(lines)@.len() == old(lines)@.len(),
        lviews(final(lines)@) == set_wrapped_spec(lviews(old(lines)@), r as int, w),
{
    let mut tmp = Line { cells: Vec::new(), wrapped: false };
    lines.set_and_swap(r, &mut tmp);
    tmp.wrapped = w;
    lines.set_and_swap(r, &mut tmp);
    proof {
        assert_seqs_equal!(lviews(lines@) == set_wrapped_spec(lviews(old(lines)@), r as int, w));
    }
}

/// Replaces the cell range `a..b` of row `r` by `cell`.
fn fill_row(lines: &mut Vec<Line>, r: usize, a: usize, b: usize, cell: Cell)
    requires
        r < old(lines)@.len(),
        a <= b,
        b <= old(lines)@[r as int]@.cells.len(),
    ensures
        final(lines)@.len() == old(lines)@.len(),
        final(lines)@[r as int]@.cells.len() == old(lines)@[r as int]@.cells.len(),
        lviews(final(lines)@) == fill_row_spec(lviews(old(lines)@), r as int, a as int, b as int, cell),
{
    let mut tmp = Line { cells: Vec::new(), wrapped: false };
    lines.set_and_swap(r, &mut tmp);
    let ghost orig = tmp@;
    let mut i: usize = a;
    while i < b
        invariant
            a <= i <= b,
            b <= tmp@.cells.len(),
            tmp@.cells =~= filled_cells(orig.cells, a as int, i as int, cell),
            tmp@.cells.len() == orig.cells.len(),
            tmp@.wrapped == orig.wrapped,
        decreases b - i,
    {
        tmp.cells.set(i, cell);
        proof {
            assert(tmp@.cells =~= filled_cells(orig.cells, a as int, i + 1, cell));
        }
        i += 1;
    }
    lines.set_and_swap(r, &mut tmp);
    proof {
        assert_seqs_equal!(lviews(lines@) == fill_row_spec(lviews(old(lines)@), r as int, a as int, b as int, cell));
    }
}

/// Makes the rows `a..b` blank.
fn blank_rows(lines: &mut Vec<Line>, a: usize, b: usize, cols: usize, pen: Pen)
    requires
        a <= b,
        b <= old(lines)@.len(),
    ensures
        final(lines)@.len() == old(lines)@.len(),
        lviews(final(lines)@) == blank_rows_spec(lviews(old(lines)@), a as int, b as int, cols as int, pen),
{
    let mut i: usize = a;
    while i < b
        invariant
            a <= i <= b,
            b <= lines@.len(),
            lines@.len() == old(lines)@.len(),
            lviews(lines@) =~= blank_rows_spec(lviews(old(lines)@), a as int, i as int, cols as int, pen),
        decreases b - i,
    {
        let ghost prev = lines@;
        lines.set(i, blank_line(cols, pen));
        proof {
            assert(lines@ == prev.update(i as int, lines@[i as int]));
            assert_seqs_equal!(lviews(lines@) == blank_rows_spec(
                lviews(old(lines)@), a as int, i + 1, cols as int, pen), j => {
                assert(lviews(lines@)[j] == lines@[j]@);
                if j != i {
                    assert(lines@[j] == prev[j]);
                    assert(lviews(prev)[j] == prev[j]@);
                }
            });
        }
        i += 1;
    }
    proof {
        assert_seqs_equal!(lviews(lines@) == blank_rows_spec(
            lviews(old(lines)@), a as int, b as int, cols as int, pen));
    }
}

/// Scrolls the region `top..bot` up once, evicting into the scrollback when
/// `push` holds.
fn scroll_up_one(
    lines: &mut Vec<Line>,
    sb: &mut Vec<Line>,
    push: bool,
    cap: usize,
    top: usize,
    bot: usize,
    cols: usize,
    pen: Pen,
)
    requires
        top < bot,
        bot <= old(lines)@.len(),
    ensures
        ({
            let r = scroll_up_one_spec(
                lviews(old(lines)@),
                lviews(old(sb)@),
                push,
                cap as int,
                top as int,
                bot as int,
                cols as int,
                pen,
            );
            lviews(final(lines)@) == r.0 && lviews(final(sb)@) == r.1
        }),
{
    let ln = lines.remove(top);
    proof {
        lemma_lviews_remove(old(lines)@, top as int);
    }
    if push && cap > 0 {
        if sb.len() >= cap {
            let dropped = sb.remove(0);
            proof {
                lemma_lviews_remove(old(sb)@, 0);
                assert(lviews(old(sb)@).remove(0) =~= lviews(old(sb)@).drop_first());
            }
        }
        let ghost mid = sb@;
        sb.push(ln);
        proof {
            lemma_lviews_push(mid, ln);
        }
    }
    let ghost mid_lines = lines@;
    lines.insert(bot - 1, blank_line(cols, pen));
    proof {
        lemma_lviews_insert(mid_lines, bot - 1, lines@[bot - 1]);
        assert(lviews(lines@) =~= lviews(mid_lines).insert(
            bot - 1,
            blank_line_spec(cols as int, pen),
        ));
    }
}

/// Scrolls the region `top..bot` down once.
fn scroll_down_one(lines: &mut Vec<Line>, top: usize, bot: usize, cols: usize, pen: Pen)
    requires
        top < bot,
        bot <= old(lines)@.len(),
    ensures
        lviews(final(lines)@) == scroll_down_one_spec(
            lviews(old(lines)@),
            top as int,
            bot as int,
            cols as int,
            pen,
        ),
{
    let dropped = lines.remove(bot - 1);
    proof {
        lemma_lviews_remove(old(lines)@, bot - 1);
    }
    let ghost mid_lines = lines@;
    lines.insert(top, blank_line(cols, pen));
    proof {
        lemma_lviews_insert(mid_lines, top as int, lines@[top as int]);
        assert(lviews(lines@) =~= lviews(mid_lines).insert(
            top as int,
            blank_line_spec(cols as int, pen),
        ));
    }
}


// ---------------------------------------------------------------------------
// Spec-level operations: the meaning of every action.
// ---------------------------------------------------------------------------

/// A parameter with its default: index `i`, where 0 means "use the default".
pub open spec fn pval(ps: Seq<u16>, i: int, d: u16) -> u16 {
    if 0 <= i < ps.len() && ps[i] != 0 {
        ps[i]
    } else {
        d
    }
}

/// A parameter read literally, defaulting when absent.
pub open spec fn praw(ps: Seq<u16>, i: int, d: u16) -> u16 {
    if 0 <= i < ps.len() {
        ps[i]
    } else {
        d
    }
}

/// A whole grid of blank lines.
pub open spec fn blank_grid_spec(rows: int, cols: int, pen: Pen) -> Seq<LineV> {
    Seq::new(rows as nat, |i: int| blank_line_spec(cols, pen))
}

/// The default tab stops: one every eight columns.
pub open spec fn default_tabs_spec(cols: int) -> Seq<bool> {
    Seq::new(cols as nat, |i: int| i % 8 == 0)
}

/// The column the next horizontal tab lands on: the first later stop, or the
/// last column when none remains.
pub open spec fn next_tab_spec(tabs: Seq<bool>, col: int) -> int
    decreases tabs.len() - col,
{
    if col + 1 >= tabs.len() {
        if tabs.len() >= 1 {
            tabs.len() - 1
        } else {
            0
        }
    } else if tabs[col + 1] {
        col + 1
    } else {
        next_tab_spec(tabs, col + 1)
    }
}

proof fn lemma_next_tab_bounds(tabs: Seq<bool>, col: int)
    requires
        0 <= col < tabs.len(),
    ensures
        col <= next_tab_spec(tabs, col) < tabs.len(),
    decreases tabs.len() - col,
{
    if col + 1 >= tabs.len() || tabs[col + 1] {
    } else {
        lemma_next_tab_bounds(tabs, col + 1);
    }
}

/// `n` upward scrolls of the region.
pub open spec fn scroll_up_n_spec(
    lines: Seq<LineV>,
    sb: Seq<LineV>,
    push: bool,
    cap: int,
    top: int,
    bot: int,
    cols: int,
    pen: Pen,
    n: int,
) -> (Seq<LineV>, Seq<LineV>)
    decreases n,
{
    if n <= 0 {
        (lines, sb)
    } else {
        let r = scroll_up_one_spec(lines, sb, push, cap, top, bot, cols, pen);
        scroll_up_n_spec(r.0, r.1, push, cap, top, bot, cols, pen, n - 1)
    }
}

/// `n` downward scrolls of the region.
pub open spec fn scroll_down_n_spec(
    lines: Seq<LineV>,
    top: int,
    bot: int,
    cols: int,
    pen: Pen,
    n: int,
) -> Seq<LineV>
    decreases n,
{
    if n <= 0 {
        lines
    } else {
        scroll_down_n_spec(scroll_down_one_spec(lines, top, bot, cols, pen), top, bot, cols, pen, n - 1)
    }
}

/// A line feed: at the bottom margin the region scrolls, elsewhere the
/// cursor steps down, stopping at the last row.
pub open spec fn lf_spec(c: CoreV) -> (CoreV, Set<int>) {
    let scr = cur_screen(c);
    if scr.cursor.row + 1 == c.scroll_bot {
        let r = scroll_up_one_spec(
            scr.lines,
            c.sb,
            !c.alt_active,
            c.sb_cap,
            c.scroll_top,
            c.scroll_bot,
            c.cols,
            c.pen,
        );
        (
            CoreV { sb: r.1, ..with_screen(c, ScreenV { lines: r.0, ..scr }) },
            row_set(c.scroll_top, c.scroll_bot),
        )
    } else if scr.cursor.row + 1 < c.rows {
        (
            with_screen(
                c,
                ScreenV {
                    cursor: CursorPos { row: (scr.cursor.row + 1) as usize, col: scr.cursor.col },
                    ..scr
                },
            ),
            Set::empty(),
        )
    } else {
        (c, Set::empty())
    }
}

/// A reverse line feed: at the top margin the region scrolls down.
pub open spec fn ri_spec(c: CoreV) -> (CoreV, Set<int>) {
    let scr = cur_screen(c);
    if scr.cursor.row == c.scroll_top {
        (
            with_screen(
                c,
                ScreenV {
                    lines: scroll_down_one_spec(scr.lines, c.scroll_top, c.scroll_bot, c.cols, c.pen),
                    ..scr
                },
            ),
            row_set(c.scroll_top, c.scroll_bot),
        )
    } else if scr.cursor.row > 0 {
        (
            with_screen(
                c,
                ScreenV {
                    cursor: CursorPos { row: (scr.cursor.row - 1) as usize, col: scr.cursor.col },
                    ..scr
                },
            ),
            Set::empty(),
        )
    } else {
        (c, Set::empty())
    }
}

/// Printing one decoded code point at the cursor: the cell is written with
/// the pen, then the cursor advances, wrapping (and scrolling at the bottom
/// margin) when auto-wrap is on, staying on the last column otherwise.
pub open spec fn print_spec(c: CoreV, cp: u32) -> (CoreV, Set<int>) {
    let scr = cur_screen(c);
    let row = scr.cursor.row as int;
    let col = scr.cursor.col as int;
    let cell = Cell {
        ch: charset_map_spec(active_cs(c), cp),
        fg: c.pen.fg,
        bg: c.pen.bg,
        style: c.pen.style,
    };
    let lines1 = write_cell_spec(scr.lines, row, col, cell);
    if col + 1 < c.cols {
        (
            with_screen(
                c,
                ScreenV {
                    lines: lines1,
                    cursor: CursorPos { row: row as usize, col: (col + 1) as usize },
                    ..scr
                },
            ),
            row_set(row, row + 1),
        )
    } else if !c.modes.autowrap {
        (with_screen(c, ScreenV { lines: lines1, ..scr }), row_set(row, row + 1))
    } else {
        let lines2 = set_wrapped_spec(lines1, row, true);
        let c1 = with_screen(
            c,
            ScreenV { lines: lines2, cursor: CursorPos { row: row as usize, col: 0 }, ..scr },
        );
        let r = lf_spec(c1);
        (r.0, row_set(row, row + 1) + r.1)
    }
}

/// The column after a backspace.
pub open spec fn bs_spec(c: CoreV) -> CoreV {
    let scr = cur_screen(c);
    if scr.cursor.col > 0 {
        with_screen(
            c,
            ScreenV {
                cursor: CursorPos { row: scr.cursor.row, col: (scr.cursor.col - 1) as usize },
                ..scr
            },
        )
    } else {
        c
    }
}

/// One C0 control function applied to the grid.
pub open spec fn execute_spec(c: CoreV, b: u8) -> (CoreV, Set<int>) {
    let scr = cur_screen(c);
    if b == 0x08 {
        (bs_spec(c), Set::empty())
    } else if b == 0x09 {
        (
            with_screen(
                c,
                ScreenV {
                    cursor: CursorPos {
                        row: scr.cursor.row,
                        col: next_tab_spec(c.tabs, scr.cursor.col as int) as usize,
                    },
                    ..scr
                },
            ),
            Set::empty(),
        )
    } else if b == 0x0a || b == 0x0b || b == 0x0c {
        lf_spec(c)
    } else if b == 0x0d {
        (
            with_screen(c, ScreenV { cursor: CursorPos { row: scr.cursor.row, col: 0 }, ..scr }),
            Set::empty(),
        )
    } else if b == 0x0e {
        (CoreV { active_charset: 1, ..c }, Set::empty())
    } else if b == 0x0f {
        (CoreV { active_charset: 0, ..c }, Set::empty())
    } else {
        (c, Set::empty())
    }
}

/// An absolute cursor move from one-based parameters, honouring origin mode.
pub open spec fn goto_spec(c: CoreV, p_row: int, p_col: int) -> CoreV {
    let scr = cur_screen(c);
    let row = if c.modes.origin {
        if c.scroll_top + p_row - 1 < c.scroll_bot {
            c.scroll_top + p_row - 1
        } else {
            c.scroll_bot - 1
        }
    } else {
        if p_row - 1 < c.rows {
            p_row - 1
        } else {
            c.rows - 1
        }
    };
    let col = if p_col - 1 < c.cols {
        p_col - 1
    } else {
        c.cols - 1
    };
    with_screen(c, ScreenV { cursor: CursorPos { row: row as usize, col: col as usize }, ..scr })
}

/// A relative vertical move, stopping at the margin on the way.
pub open spec fn move_rows_spec(c: CoreV, n: int, down: bool) -> CoreV {
    let scr = cur_screen(c);
    let row = scr.cursor.row as int;
    let row2 = if down {
        let lim = if row < c.scroll_bot {
            c.scroll_bot - 1
        } else {
            c.rows - 1
        };
        if row + n > lim {
            lim
        } else {
            row + n
        }
    } else {
        let lim = if row >= c.scroll_top {
            c.scroll_top
        } else {
            0
        };
        if row - n < lim {
            lim
        } else {
            row - n
        }
    };
    with_screen(
        c,
        ScreenV { cursor: CursorPos { row: row2 as usize, col: scr.cursor.col }, ..scr },
    )
}

/// A relative horizontal move, clamped to the row.
pub open spec fn move_cols_spec(c: CoreV, n: int, right: bool) -> CoreV {
    let scr = cur_screen(c);
    let col = scr.cursor.col as int;
    let col2 = if right {
        if col + n > c.cols - 1 {
            c.cols - 1
        } else {
            col + n
        }
    } else {
        if col - n < 0 {
            0
        } else {
            col - n
        }
    };
    with_screen(
        c,
        ScreenV { cursor: CursorPos { row: scr.cursor.row, col: col2 as usize }, ..scr },
    )
}

/// Erase-in-display: erased cells become default cells (empty glyph, the
/// pen's background); parameter 3 clears the scrollback instead.
pub open spec fn ed_spec(c: CoreV, mode: u16) -> (CoreV, Set<int>) {
    let scr = cur_screen(c);
    let row = scr.cursor.row as int;
    let col = scr.cursor.col as int;
    let cell = Cell::erased_spec(c.pen);
    if mode == 0 {
        let lines1 = fill_row_spec(scr.lines, row, col, c.cols, cell);
        let lines2 = blank_rows_spec(lines1, row + 1, c.rows, c.cols, c.pen);
        (with_screen(c, ScreenV { lines: lines2, ..scr }), row_set(row, c.rows))
    } else if mode == 1 {
        let lines1 = fill_row_spec(scr.lines, row, 0, col + 1, cell);
        let lines2 = blank_rows_spec(lines1, 0, row, c.cols, c.pen);
        (with_screen(c, ScreenV { lines: lines2, ..scr }), row_set(0, row + 1))
    } else if mode == 2 {
        (
            with_screen(
                c,
                ScreenV { lines: blank_rows_spec(scr.lines, 0, c.rows, c.cols, c.pen), ..scr },
            ),
            row_set(0, c.rows),
        )
    } else if mode == 3 {
        (CoreV { sb: Seq::empty(), ..c }, Set::empty())
    } else {
        (c, Set::empty())
    }
}

/// Erase-in-line.
pub open spec fn el_spec(c: CoreV, mode: u16) -> (CoreV, Set<int>) {
    let scr = cur_screen(c);
    let row = scr.cursor.row as int;
    let col = scr.cursor.col as int;
    let cell = Cell::erased_spec(c.pen);
    if mode == 0 {
        (
            with_screen(c, ScreenV { lines: fill_row_spec(scr.lines, row, col, c.cols, cell), ..scr }),
            row_set(row, row + 1),
        )
    } else if mode == 1 {
        (
            with_screen(c, ScreenV { lines: fill_row_spec(scr.lines, row, 0, col + 1, cell), ..scr }),
            row_set(row, row + 1),
        )
    } else if mode == 2 {
        (
            with_screen(c, ScreenV { lines: fill_row_spec(scr.lines, row, 0, c.cols, cell), ..scr }),
            row_set(row, row + 1),
        )
    } else {
        (c, Set::empty())
    }
}

/// Erase `n` characters in place.
pub open spec fn ech_spec(c: CoreV, n: int) -> (CoreV, Set<int>) {
    let scr = cur_screen(c);
    let row = scr.cursor.row as int;
    let col = scr.cursor.col as int;
    let e = if col + n > c.cols {
        c.cols
    } else {
        col + n
    };
    (
        with_screen(
            c,
            ScreenV { lines: fill_row_spec(scr.lines, row, col, e, Cell::erased_spec(c.pen)), ..scr },
        ),
        row_set(row, row + 1),
    )
}

/// The cells of a row after `n` characters are deleted at `col`: the tail
/// shifts left and default cells enter at the end.
pub open spec fn dch_cells(cells: Seq<Cell>, col: int, n: int, fill: Cell) -> Seq<Cell> {
    Seq::new(
        cells.len(),
        |i: int|
            if i < col {
                cells[i]
            } else if i + n < cells.len() {
                cells[i + n]
            } else {
                fill
            },
    )
}

/// The cells of a row after `n` blanks are inserted at `col`: the tail
/// shifts right and falls off the end.
pub open spec fn ich_cells(cells: Seq<Cell>, col: int, n: int, fill: Cell) -> Seq<Cell> {
    Seq::new(
        cells.len(),
        |i: int|
            if i < col {
                cells[i]
            } else if i < col + n {
                fill
            } else {
                cells[i - n]
            },
    )
}

/// Replaces the cursor row's cells.
pub open spec fn with_row_cells(c: CoreV, cells: Seq<Cell>) -> CoreV {
    let scr = cur_screen(c);
    let row = scr.cursor.row as int;
    with_screen(
        c,
        ScreenV {
            lines: scr.lines.update(row, LineV { cells: cells, wrapped: scr.lines[row].wrapped }),
            ..scr
        },
    )
}

/// Delete-characters.
pub open spec fn dch_spec(c: CoreV, n: int) -> (CoreV, Set<int>) {
    let scr = cur_screen(c);
    let row = scr.cursor.row as int;
    let col = scr.cursor.col as int;
    (
        with_row_cells(c, dch_cells(scr.lines[row].cells, col, n, Cell::erased_spec(c.pen))),
        row_set(row, row + 1),
    )
}

/// Insert-characters.
pub open spec fn ich_spec(c: CoreV, n: int) -> (CoreV, Set<int>) {
    let scr = cur_screen(c);
    let row = scr.cursor.row as int;
    let col = scr.cursor.col as int;
    (
        with_row_cells(c, ich_cells(scr.lines[row].cells, col, n, Cell::erased_spec(c.pen))),
        row_set(row, row + 1),
    )
}

/// Insert-lines at the cursor, inside the scroll region only.
pub open spec fn il_spec(c: CoreV, n: int) -> (CoreV, Set<int>) {
    let scr = cur_screen(c);
    let row = scr.cursor.row as int;
    if c.scroll_top <= row < c.scroll_bot {
        let m = if n > c.scroll_bot - row {
            c.scroll_bot - row
        } else {
            n
        };
        (
            with_screen(
                c,
                ScreenV {
                    lines: scroll_down_n_spec(scr.lines, row, c.scroll_bot, c.cols, c.pen, m),
                    ..scr
                },
            ),
            row_set(row, c.scroll_bot),
        )
    } else {
        (c, Set::empty())
    }
}

/// Delete-lines at the cursor, inside the scroll region only; deleted lines
/// do not enter the scrollback.
pub open spec fn dl_spec(c: CoreV, n: int) -> (CoreV, Set<int>) {
    let scr = cur_screen(c);
    let row = scr.cursor.row as int;
    if c.scroll_top <= row < c.scroll_bot {
        let m = if n > c.scroll_bot - row {
            c.scroll_bot - row
        } else {
            n
        };
        let r = scroll_up_n_spec(
            scr.lines,
            c.sb,
            false,
            c.sb_cap,
            row,
            c.scroll_bot,
            c.cols,
            c.pen,
            m,
        );
        (with_screen(c, ScreenV { lines: r.0, ..scr }), row_set(row, c.scroll_bot))
    } else {
        (c, Set::empty())
    }
}

/// Scroll-up by `n` lines, evicting into the scrollback on the primary
/// screen.
pub open spec fn su_spec(c: CoreV, n: int) -> (CoreV, Set<int>) {
    let scr = cur_screen(c);
    let r = scroll_up_n_spec(
        scr.lines,
        c.sb,
        !c.alt_active,
        c.sb_cap,
        c.scroll_top,
        c.scroll_bot,
        c.cols,
        c.pen,
        n,
    );
    (
        CoreV { sb: r.1, ..with_screen(c, ScreenV { lines: r.0, ..scr }) },
        row_set(c.scroll_top, c.scroll_bot),
    )
}

/// Scroll-down by `n` lines.
pub open spec fn sd_spec(c: CoreV, n: int) -> (CoreV, Set<int>) {
    let scr = cur_screen(c);
    (
        with_screen(
            c,
            ScreenV {
                lines: scroll_down_n_spec(scr.lines, c.scroll_top, c.scroll_bot, c.cols, c.pen, n),
                ..scr
            },
        ),
        row_set(c.scroll_top, c.scroll_bot),
    )
}

/// One graphic-rendition parameter applied to the pen.
pub open spec fn sgr_one_spec(pen: Pen, p: u16) -> Pen {
    if p == 0 {
        Pen::plain_spec()
    } else if p == 1 {
        Pen { style: StyleFlags { bold: true, ..pen.style }, ..pen }
    } else if p == 3 {
        Pen { style: StyleFlags { italic: true, ..pen.style }, ..pen }
    } else if p == 4 {
        Pen { style: StyleFlags { underline: true, ..pen.style }, ..pen }
    } else if p == 5 {
        Pen { style: StyleFlags { blink: true, ..pen.style }, ..pen }
    } else if p == 7 {
        Pen { style: StyleFlags { inverse: true, ..pen.style }, ..pen }
    } else if p == 8 {
        Pen { style: StyleFlags { hidden: true, ..pen.style }, ..pen }
    } else if p == 9 {
        Pen { style: StyleFlags { strikethrough: true, ..pen.style }, ..pen }
    } else if p == 22 {
        Pen { style: StyleFlags { bold: false, ..pen.style }, ..pen }
    } else if p == 23 {
        Pen { style: StyleFlags { italic: false, ..pen.style }, ..pen }
    } else if p == 24 {
        Pen { style: StyleFlags { underline: false, ..pen.style }, ..pen }
    } else if p == 25 {
        Pen { style: StyleFlags { blink: false, ..pen.style }, ..pen }
    } else if p == 27 {
        Pen { style: StyleFlags { inverse: false, ..pen.style }, ..pen }
    } else if p == 28 {
        Pen { style: StyleFlags { hidden: false, ..pen.style }, ..pen }
    } else if p == 29 {
        Pen { style: StyleFlags { strikethrough: false, ..pen.style }, ..pen }
    } else if 30 <= p <= 37 {
        Pen { fg: Color::Indexed((p - 30) as u8), ..pen }
    } else if p == 39 {
        Pen { fg: Color::Default, ..pen }
    } else if 40 <= p <= 47 {
        Pen { bg: Color::Indexed((p - 40) as u8), ..pen }
    } else if p == 49 {
        Pen { bg: Color::Default, ..pen }
    } else if 90 <= p <= 97 {
        Pen { fg: Color::Indexed((p - 90 + 8) as u8), ..pen }
    } else if 100 <= p <= 107 {
        Pen { bg: Color::Indexed((p - 100 + 8) as u8), ..pen }
    } else {
        pen
    }
}

/// A palette index clamped into a byte.
pub open spec fn clamp_u8(p: u16) -> u8 {
    if p > 255 {
        255
    } else {
        p as u8
    }
}

/// The select-graphic-rendition fold over a parameter list, including the
/// 256-colour and direct-colour extended forms.
pub open spec fn sgr_spec(pen: Pen, ps: Seq<u16>) -> Pen
    decreases ps.len(),
{
    if ps.len() == 0 {
        pen
    } else if ps[0] == 38 && ps.len() >= 3 && ps[1] == 5 {
        sgr_spec(Pen { fg: Color::Indexed(clamp_u8(ps[2])), ..pen }, ps.skip(3))
    } else if ps[0] == 48 && ps.len() >= 3 && ps[1] == 5 {
        sgr_spec(Pen { bg: Color::Indexed(clamp_u8(ps[2])), ..pen }, ps.skip(3))
    } else if ps[0] == 38 && ps.len() >= 5 && ps[1] == 2 {
        sgr_spec(
            Pen { fg: Color::Rgb(clamp_u8(ps[2]), clamp_u8(ps[3]), clamp_u8(ps[4])), ..pen },
            ps.skip(5),
        )
    } else if ps[0] == 48 && ps.len() >= 5 && ps[1] == 2 {
        sgr_spec(
            Pen { bg: Color::Rgb(clamp_u8(ps[2]), clamp_u8(ps[3]), clamp_u8(ps[4])), ..pen },
            ps.skip(5),
        )
    } else {
        sgr_spec(sgr_one_spec(pen, ps[0]), ps.skip(1))
    }
}

/// Entering the alternate screen: the secondary grid is cleared and
/// activated; the primary grid and its cursor stay untouched.
pub open spec fn alt_enter_spec(c: CoreV) -> (CoreV, Set<int>) {
    if !c.alt_active {
        (
            CoreV {
                alt: ScreenV {
                    lines: blank_grid_spec(c.rows, c.cols, c.pen),
                    cursor: CursorPos { row: 0, col: 0 },
                    saved: c.alt.saved,
                },
                alt_active: true,
                ..c
            },
            row_set(0, c.rows),
        )
    } else {
        (c, Set::empty())
    }
}

/// Leaving the alternate screen: the primary grid reappears exactly as it
/// was.
pub open spec fn alt_leave_spec(c: CoreV) -> (CoreV, Set<int>) {
    if c.alt_active {
        (CoreV { alt_active: false, ..c }, row_set(0, c.rows))
    } else {
        (c, Set::empty())
    }
}

/// Save-cursor: position and pen.
pub open spec fn save_cursor_spec(c: CoreV) -> CoreV {
    let scr = cur_screen(c);
    with_screen(c, ScreenV { saved: SavedCursor { pos: scr.cursor, pen: c.pen }, ..scr })
}

/// Restore-cursor: position and pen come back.
pub open spec fn restore_cursor_spec(c: CoreV) -> CoreV {
    let scr = cur_screen(c);
    CoreV { pen: scr.saved.pen, ..with_screen(c, ScreenV { cursor: scr.saved.pos, ..scr }) }
}

/// One private mode set or reset.
pub open spec fn set_mode_spec(c: CoreV, p: u16, on: bool) -> (CoreV, Set<int>) {
    if p == 1 {
        (CoreV { modes: ModeSet { app_cursor: on, ..c.modes }, ..c }, Set::empty())
    } else if p == 6 {
        let c1 = CoreV { modes: ModeSet { origin: on, ..c.modes }, ..c };
        (goto_spec(c1, 1, 1), Set::empty())
    } else if p == 7 {
        (CoreV { modes: ModeSet { autowrap: on, ..c.modes }, ..c }, Set::empty())
    } else if p == 25 {
        (CoreV { modes: ModeSet { show_cursor: on, ..c.modes }, ..c }, Set::empty())
    } else if p == 47 || p == 1047 || p == 1049 {
        if on {
            alt_enter_spec(c)
        } else {
            alt_leave_spec(c)
        }
    } else if p == 1048 {
        if on {
            (save_cursor_spec(c), Set::empty())
        } else {
            (restore_cursor_spec(c), Set::empty())
        }
    } else if p == 1000 {
        (CoreV { modes: ModeSet { mouse_click: on, ..c.modes }, ..c }, Set::empty())
    } else if p == 1002 {
        (CoreV { modes: ModeSet { mouse_motion: on, ..c.modes }, ..c }, Set::empty())
    } else if p == 1006 {
        (CoreV { modes: ModeSet { mouse_sgr: on, ..c.modes }, ..c }, Set::empty())
    } else if p == 2004 {
        (CoreV { modes: ModeSet { bracketed_paste: on, ..c.modes }, ..c }, Set::empty())
    } else {
        (c, Set::empty())
    }
}

/// The fold of [`set_mode_spec`] over a parameter list.
pub open spec fn set_modes_spec(c: CoreV, ps: Seq<u16>, on: bool) -> (CoreV, Set<int>)
    decreases ps.len(),
{
    if ps.len() == 0 {
        (c, Set::empty())
    } else {
        let r = set_mode_spec(c, ps[0], on);
        let rr = set_modes_spec(r.0, ps.drop_first(), on);
        (rr.0, r.1 + rr.1)
    }
}

/// The bytes of a cursor-position report.
pub open spec fn cpr_bytes(row: int, col: int) -> Seq<u8> {
    seq![0x1bu8, 0x5bu8] + dec_digits((row + 1) as nat) + seq![0x3bu8] + dec_digits(
        (col + 1) as nat,
    ) + seq![0x52u8]
}

/// Device-status reports: an OK report or a cursor-position report, appended
/// to the reply channel in order.
pub open spec fn dsr_spec(c: CoreV, p: u16) -> CoreV {
    if p == 5 {
        CoreV { replies: c.replies + seq![0x1bu8, 0x5bu8, 0x30u8, 0x6eu8], ..c }
    } else if p == 6 {
        let scr = cur_screen(c);
        CoreV {
            replies: c.replies + cpr_bytes(scr.cursor.row as int, scr.cursor.col as int),
            ..c
        }
    } else {
        c
    }
}

/// The primary-device-attributes reply.
pub open spec fn da_spec(c: CoreV) -> CoreV {
    CoreV { replies: c.replies + seq![0x1bu8, 0x5bu8, 0x3fu8, 0x36u8, 0x63u8], ..c }
}

/// Set-scroll-region; out-of-range parameters reset it to the full grid.
/// The cursor homes.
pub open spec fn decstbm_spec(c: CoreV, p1: u16, p2: u16) -> CoreV {
    let top = p1 as int - 1;
    let bot = if p2 as int > c.rows {
        c.rows
    } else {
        p2 as int
    };
    if 0 <= top < bot {
        goto_spec(CoreV { scroll_top: top, scroll_bot: bot, ..c }, 1, 1)
    } else {
        goto_spec(CoreV { scroll_top: 0, scroll_bot: c.rows, ..c }, 1, 1)
    }
}

/// The freshly reset core for the given geometry: blank screens, default
/// modes, full scroll region, default tab stops, plain pen.
pub open spec fn init_core(rows: int, cols: int, cap: int) -> CoreV {
    CoreV {
        rows: rows,
        cols: cols,
        primary: ScreenV {
            lines: blank_grid_spec(rows, cols, Pen::plain_spec()),
            cursor: CursorPos { row: 0, col: 0 },
            saved: SavedCursor { pos: CursorPos { row: 0, col: 0 }, pen: Pen::plain_spec() },
        },
        alt: ScreenV {
            lines: blank_grid_spec(rows, cols, Pen::plain_spec()),
            cursor: CursorPos { row: 0, col: 0 },
            saved: SavedCursor { pos: CursorPos { row: 0, col: 0 }, pen: Pen::plain_spec() },
        },
        alt_active: false,
        modes: ModeSet::reset_spec(),
        pen: Pen::plain_spec(),
        scroll_top: 0,
        scroll_bot: rows,
        tabs: default_tabs_spec(cols),
        sb: Seq::empty(),
        sb_cap: cap,
        g0: Charset::Ascii,
        g1: Charset::Ascii,
        g2: Charset::Ascii,
        g3: Charset::Ascii,
        active_charset: 0,
        replies: Seq::empty(),
        display_offset: 0,
        sel: Option::None,
    }
}

/// A full reset keeps only the geometry, the scrollback and the pending
/// replies.
pub open spec fn ris_spec(c: CoreV) -> (CoreV, Set<int>) {
    (
        CoreV { sb: c.sb, replies: c.replies, ..init_core(c.rows, c.cols, c.sb_cap) },
        row_set(0, c.rows),
    )
}

/// The meaning of a complete CSI sequence.
pub open spec fn csi_spec(c: CoreV, fb: u8, ps: Seq<u16>, inters: Seq<u8>, marker: u8) -> (
    CoreV,
    Set<int>,
) {
    if inters.len() > 0 {
        (c, Set::empty())
    } else if marker == 0x3f {
        if fb == 0x68 {
            set_modes_spec(c, ps, true)
        } else if fb == 0x6c {
            set_modes_spec(c, ps, false)
        } else {
            (c, Set::empty())
        }
    } else if marker != 0 {
        (c, Set::empty())
    } else if fb == 0x41 {
        (move_rows_spec(c, pval(ps, 0, 1) as int, false), Set::empty())
    } else if fb == 0x42 || fb == 0x65 {
        (move_rows_spec(c, pval(ps, 0, 1) as int, true), Set::empty())
    } else if fb == 0x43 {
        (move_cols_spec(c, pval(ps, 0, 1) as int, true), Set::empty())
    } else if fb == 0x44 {
        (move_cols_spec(c, pval(ps, 0, 1) as int, false), Set::empty())
    } else if fb == 0x45 {
        let c1 = move_rows_spec(c, pval(ps, 0, 1) as int, true);
        let scr = cur_screen(c1);
        (
            with_screen(c1, ScreenV { cursor: CursorPos { row: scr.cursor.row, col: 0 }, ..scr }),
            Set::empty(),
        )
    } else if fb == 0x46 {
        let c1 = move_rows_spec(c, pval(ps, 0, 1) as int, false);
        let scr = cur_screen(c1);
        (
            with_screen(c1, ScreenV { cursor: CursorPos { row: scr.cursor.row, col: 0 }, ..scr }),
            Set::empty(),
        )
    } else if fb == 0x47 {
        let scr = cur_screen(c);
        let col = if pval(ps, 0, 1) as int - 1 < c.cols {
            pval(ps, 0, 1) as int - 1
        } else {
            c.cols - 1
        };
        (
            with_screen(
                c,
                ScreenV { cursor: CursorPos { row: scr.cursor.row, col: col as usize }, ..scr },
            ),
            Set::empty(),
        )
    } else if fb == 0x48 || fb == 0x66 {
        (goto_spec(c, pval(ps, 0, 1) as int, pval(ps, 1, 1) as int), Set::empty())
    } else if fb == 0x64 {
        (goto_spec(c, pval(ps, 0, 1) as int, cur_screen(c).cursor.col as int + 1), Set::empty())
    } else if fb == 0x4a {
        ed_spec(c, praw(ps, 0, 0))
    } else if fb == 0x4b {
        el_spec(c, praw(ps, 0, 0))
    } else if fb == 0x4c {
        il_spec(c, pval(ps, 0, 1) as int)
    } else if fb == 0x4d {
        dl_spec(c, pval(ps, 0, 1) as int)
    } else if fb == 0x40 {
        ich_spec(c, pval(ps, 0, 1) as int)
    } else if fb == 0x50 {
        dch_spec(c, pval(ps, 0, 1) as int)
    } else if fb == 0x58 {
        ech_spec(c, pval(ps, 0, 1) as int)
    } else if fb == 0x53 {
        su_spec(c, pval(ps, 0, 1) as int)
    } else if fb == 0x54 {
        sd_spec(c, pval(ps, 0, 1) as int)
    } else if fb == 0x6d {
        (
            CoreV {
                pen: if ps.len() == 0 {
                    Pen::plain_spec()
                } else {
                    sgr_spec(c.pen, ps)
                },
                ..c
            },
            Set::empty(),
        )
    } else if fb == 0x72 {
        (decstbm_spec(c, pval(ps, 0, 1), pval(ps, 1, c.rows as u16)), Set::empty())
    } else if fb == 0x73 {
        (save_cursor_spec(c), Set::empty())
    } else if fb == 0x75 {
        (restore_cursor_spec(c), Set::empty())
    } else if fb == 0x6e {
        (dsr_spec(c, praw(ps, 0, 0)), Set::empty())
    } else if fb == 0x63 {
        if praw(ps, 0, 0) == 0 {
            (da_spec(c), Set::empty())
        } else {
            (c, Set::empty())
        }
    } else if fb == 0x67 {
        let p = praw(ps, 0, 0);
        if p == 0 {
            (
                CoreV { tabs: c.tabs.update(cur_screen(c).cursor.col as int, false), ..c },
                Set::empty(),
            )
        } else if p == 3 {
            (CoreV { tabs: Seq::new(c.tabs.len(), |i: int| false), ..c }, Set::empty())
        } else {
            (c, Set::empty())
        }
    } else {
        (c, Set::empty())
    }
}

/// Designating a character set into one of the four slots.
pub open spec fn designate_spec(c: CoreV, slot: u8, fb: u8) -> CoreV {
    let cs = if fb == 0x42 {
        Charset::Ascii
    } else if fb == 0x30 {
        Charset::SpecialGraphics
    } else {
        if slot == 0 {
            c.g0
        } else if slot == 1 {
            c.g1
        } else if slot == 2 {
            c.g2
        } else {
            c.g3
        }
    };
    if slot == 0 {
        CoreV { g0: cs, ..c }
    } else if slot == 1 {
        CoreV { g1: cs, ..c }
    } else if slot == 2 {
        CoreV { g2: cs, ..c }
    } else {
        CoreV { g3: cs, ..c }
    }
}

/// The meaning of a plain escape sequence.
pub open spec fn esc_spec(c: CoreV, fb: u8, inters: Seq<u8>) -> (CoreV, Set<int>) {
    if inters.len() == 0 {
        if fb == 0x37 {
            (save_cursor_spec(c), Set::empty())
        } else if fb == 0x38 {
            (restore_cursor_spec(c), Set::empty())
        } else if fb == 0x44 {
            lf_spec(c)
        } else if fb == 0x45 {
            let r = lf_spec(c);
            let scr = cur_screen(r.0);
            (
                with_screen(r.0, ScreenV { cursor: CursorPos { row: scr.cursor.row, col: 0 }, ..scr }),
                r.1,
            )
        } else if fb == 0x4d {
            ri_spec(c)
        } else if fb == 0x48 {
            (
                CoreV { tabs: c.tabs.update(cur_screen(c).cursor.col as int, true), ..c },
                Set::empty(),
            )
        } else if fb == 0x63 {
            ris_spec(c)
        } else if fb == 0x3d {
            (CoreV { modes: ModeSet { app_keypad: true, ..c.modes }, ..c }, Set::empty())
        } else if fb == 0x3e {
            (CoreV { modes: ModeSet { app_keypad: false, ..c.modes }, ..c }, Set::empty())
        } else {
            (c, Set::empty())
        }
    } else if inters.len() == 1 && 0x28 <= inters[0] <= 0x2b {
        (designate_spec(c, (inters[0] - 0x28) as u8, fb), Set::empty())
    } else {
        (c, Set::empty())
    }
}

/// The notification an OSC string produces: a title change for codes 0 and
/// 2, a hyperlink annotation for code 8, a colour-palette set or query for
/// code 4.  No OSC touches the grid.
pub open spec fn osc_event_spec(p: Seq<u8>) -> Option<EventV> {
    if p.len() >= 2 && p[1] == 0x3b && (p[0] == 0x30 || p[0] == 0x32) {
        Option::Some(EventV::Title(p.skip(2)))
    } else if p.len() >= 2 && p[1] == 0x3b && p[0] == 0x38 {
        Option::Some(EventV::Hyperlink(p.skip(2)))
    } else if p.len() >= 2 && p[1] == 0x3b && p[0] == 0x34 {
        Option::Some(EventV::Palette(p.skip(2)))
    } else {
        Option::None
    }
}

/// What one action does: the next core, the damage it adds, and the
/// notification it raises.
pub open spec fn apply_spec(c: CoreV, a: ActionV) -> (CoreV, Set<int>, Option<EventV>) {
    match a {
        ActionV::Print(cp) => {
            let r = print_spec(c, cp);
            (r.0, r.1, Option::None)
        },
        ActionV::Execute(b) => {
            let r = execute_spec(c, b);
            (r.0, r.1, if b == 0x07 { Option::Some(EventV::Bell) } else { Option::None })
        },
        ActionV::Csi { final_byte, params, inters, marker } => {
            let r = csi_spec(c, final_byte, params, inters, marker);
            (r.0, r.1, Option::None)
        },
        ActionV::Esc { final_byte, inters } => {
            let r = esc_spec(c, final_byte, inters);
            (r.0, r.1, Option::None)
        },
        ActionV::Osc { payload } => (c, Set::empty(), osc_event_spec(payload)),
        ActionV::DcsHook { final_byte, params, inters, marker } => (c, Set::empty(), Option::None),
        ActionV::DcsPut(b) => (c, Set::empty(), Option::None),
        ActionV::DcsUnhook => (c, Set::empty(), Option::None),
    }
}


// ---------------------------------------------------------------------------
// Executable terminal, pinned to the spec operations.
// ---------------------------------------------------------------------------

/// A parameter with its default, as [`pval`].
fn pval_exec(ps: &Vec<u16>, i: usize, d: u16) -> (r: u16)
    ensures
        r == pval(ps@, i as int, d),
{
    if i < ps.len() && ps[i] != 0 {
        ps[i]
    } else {
        d
    }
}

/// A parameter read literally, as [`praw`].
fn praw_exec(ps: &Vec<u16>, i: usize, d: u16) -> (r: u16)
    ensures
        r == praw(ps@, i as int, d),
{
    if i < ps.len() {
        ps[i]
    } else {
        d
    }
}

/// The next tab stop, as [`next_tab_spec`].
fn next_tab(tabs: &Vec<bool>, col: usize) -> (r: usize)
    requires
        col < tabs@.len(),
    ensures
        r == next_tab_spec(tabs@, col as int),
        col <= r < tabs@.len(),
    decreases tabs@.len() - col,
{
    proof {
        lemma_next_tab_bounds(tabs@, col as int);
    }
    let n = tabs.len();
    if col >= n - 1 {
        n - 1
    } else if tabs[col + 1] {
        col + 1
    } else {
        next_tab(tabs, col + 1)
    }
}

/// One graphic-rendition parameter, as [`sgr_one_spec`].
fn sgr_one(pen: Pen, p: u16) -> (r: Pen)
    ensures
        r == sgr_one_spec(pen, p),
{
    if p == 0 {
        Pen::plain()
    } else if p == 1 {
        Pen { style: StyleFlags { bold: true, ..pen.style }, ..pen }
    } else if p == 3 {
        Pen { style: StyleFlags { italic: true, ..pen.style }, ..pen }
    } else if p == 4 {
        Pen { style: StyleFlags { underline: true, ..pen.style }, ..pen }
    } else if p == 5 {
        Pen { style: StyleFlags { blink: true, ..pen.style }, ..pen }
    } else if p == 7 {
        Pen { style: StyleFlags { inverse: true, ..pen.style }, ..pen }
    } else if p == 8 {
        Pen { style: StyleFlags { hidden: true, ..pen.style }, ..pen }
    } else if p == 9 {
        Pen { style: StyleFlags { strikethrough: true, ..pen.style }, ..pen }
    } else if p == 22 {
        Pen { style: StyleFlags { bold: false, ..pen.style }, ..pen }
    } else if p == 23 {
        Pen { style: StyleFlags { italic: false, ..pen.style }, ..pen }
    } else if p == 24 {
        Pen { style: StyleFlags { underline: false, ..pen.style }, ..pen }
    } else if p == 25 {
        Pen { style: StyleFlags { blink: false, ..pen.style }, ..pen }
    } else if p == 27 {
        Pen { style: StyleFlags { inverse: false, ..pen.style }, ..pen }
    } else if p == 28 {
        Pen { style: StyleFlags { hidden: false, ..pen.style }, ..pen }
    } else if p == 29 {
        Pen { style: StyleFlags { strikethrough: false, ..pen.style }, ..pen }
    } else if 30 <= p && p <= 37 {
        Pen { fg: Color::Indexed((p - 30) as u8), ..pen }
    } else if p == 39 {
        Pen { fg: Color::Default, ..pen }
    } else if 40 <= p && p <= 47 {
        Pen { bg: Color::Indexed((p - 40) as u8), ..pen }
    } else if p == 49 {
        Pen { bg: Color::Default, ..pen }
    } else if 90 <= p && p <= 97 {
        Pen { fg: Color::Indexed((p - 90 + 8) as u8), ..pen }
    } else if 100 <= p && p <= 107 {
        Pen { bg: Color::Indexed((p - 100 + 8) as u8), ..pen }
    } else {
        pen
    }
}

/// A palette index clamped into a byte, as [`clamp_u8`].
fn clamp_u8_exec(p: u16) -> (r: u8)
    ensures
        r == clamp_u8(p),
{
    if p > 255 {
        255
    } else {
        p as u8
    }
}

/// The graphic-rendition fold from index `i`, as [`sgr_spec`].
fn sgr_exec(pen: Pen, ps: &Vec<u16>, i: usize) -> (r: Pen)
    requires
        i <= ps@.len(),
    ensures
        r == sgr_spec(pen, ps@.skip(i as int)),
    decreases ps@.len() - i,
{
    let ghost tail = ps@.skip(i as int);
    if i >= ps.len() {
        proof {
            assert(tail.len() == 0);
        }
        pen
    } else {
        proof {
            assert(tail[0] == ps@[i as int]);
            assert(tail.len() == ps@.len() - i);
            if tail.len() >= 2 {
                assert(tail[1] == ps@[i + 1]);
            }
            if tail.len() >= 3 {
                assert(tail[2] == ps@[i + 2]);
            }
            if tail.len() >= 4 {
                assert(tail[3] == ps@[i + 3]);
            }
            if tail.len() >= 5 {
                assert(tail[4] == ps@[i + 4]);
            }
        }
        let p = ps[i];
        let n = ps.len();
        if p == 38 && n - i > 2 && ps[i + 1] == 5 {
            let pen2 = Pen { fg: Color::Indexed(clamp_u8_exec(ps[i + 2])), ..pen };
            let r = sgr_exec(pen2, ps, i + 3);
            proof {
                assert(tail.skip(3) =~= ps@.skip(i + 3));
            }
            r
        } else if p == 48 && n - i > 2 && ps[i + 1] == 5 {
            let pen2 = Pen { bg: Color::Indexed(clamp_u8_exec(ps[i + 2])), ..pen };
            let r = sgr_exec(pen2, ps, i + 3);
            proof {
                assert(tail.skip(3) =~= ps@.skip(i + 3));
            }
            r
        } else if p == 38 && n - i > 4 && ps[i + 1] == 2 {
            let pen2 = Pen {
                fg: Color::Rgb(
                    clamp_u8_exec(ps[i + 2]),
                    clamp_u8_exec(ps[i + 3]),
                    clamp_u8_exec(ps[i + 4]),
                ),
                ..pen
            };
            let r = sgr_exec(pen2, ps, i + 5);
            proof {
                assert(tail.skip(5) =~= ps@.skip(i + 5));
            }
            r
        } else if p == 48 && n - i > 4 && ps[i + 1] == 2 {
            let pen2 = Pen {
                bg: Color::Rgb(
                    clamp_u8_exec(ps[i + 2]),
                    clamp_u8_exec(ps[i + 3]),
                    clamp_u8_exec(ps[i + 4]),
                ),
                ..pen
            };
            let r = sgr_exec(pen2, ps, i + 5);
            proof {
                assert(tail.skip(5) =~= ps@.skip(i + 5));
            }
            r
        } else {
            let r = sgr_exec(sgr_one(pen, p), ps, i + 1);
            proof {
                assert(tail.skip(1) =~= ps@.skip(i + 1));
                assert(tail.drop_first() =~= tail.skip(1));
            }
            r
        }
    }
}

/// Rebuilds the cells of row `r` by the delete-characters shift.
fn rebuild_dch(lines: &mut Vec<Line>, r: usize, col: usize, n: usize, fill: Cell)
    requires
        r < old(lines)@.len(),
    ensures
        lviews(final(lines)@) == lviews(old(lines)@).update(
            r as int,
            LineV {
                cells: dch_cells(old(lines)@[r as int]@.cells, col as int, n as int, fill),
                wrapped: old(lines)@[r as int]@.wrapped,
            },
        ),
{
    let mut tmp = Line { cells: Vec::new(), wrapped: false };
    lines.set_and_swap(r, &mut tmp);
    let ghost orig = tmp@;
    let w = tmp.cells.len();
    let mut nc: Vec<Cell> = Vec::new();
    let mut i: usize = 0;
    while i < w
        invariant
            i <= w,
            w == tmp@.cells.len(),
            tmp@ == orig,
            nc@.len() == i,
            forall|j: int|
                0 <= j < i ==> nc@[j] == dch_cells(orig.cells, col as int, n as int, fill)[j],
        decreases w - i,
    {
        let v = if i < col {
            tmp.cells[i]
        } else if n < w && i < w - n {
            tmp.cells[i + n]
        } else {
            fill
        };
        nc.push(v);
        i += 1;
    }
    proof {
        assert_seqs_equal!(nc@ == dch_cells(orig.cells, col as int, n as int, fill));
    }
    tmp.cells = nc;
    lines.set_and_swap(r, &mut tmp);
    proof {
        assert_seqs_equal!(lviews(lines@) == lviews(old(lines)@).update(
            r as int,
            LineV {
                cells: dch_cells(old(lines)@[r as int]@.cells, col as int, n as int, fill),
                wrapped: old(lines)@[r as int]@.wrapped,
            },
        ));
    }
}

/// Rebuilds the cells of row `r` by the insert-characters shift.
fn rebuild_ich(lines: &mut Vec<Line>, r: usize, col: usize, n: usize, fill: Cell)
    requires
        r < old(lines)@.len(),
    ensures
        lviews(final(lines)@) == lviews(old(lines)@).update(
            r as int,
            LineV {
                cells: ich_cells(old(lines)@[r as int]@.cells, col as int, n as int, fill),
                wrapped: old(lines)@[r as int]@.wrapped,
            },
        ),
{
    let mut tmp = Line { cells: Vec::new(), wrapped: false };
    lines.set_and_swap(r, &mut tmp);
    let ghost orig = tmp@;
    let w = tmp.cells.len();
    let mut nc: Vec<Cell> = Vec::new();
    let mut i: usize = 0;
    while i < w
        invariant
            i <= w,
            w == tmp@.cells.len(),
            tmp@ == orig,
            nc@.len() == i,
            forall|j: int|
                0 <= j < i ==> nc@[j] == ich_cells(orig.cells, col as int, n as int, fill)[j],
        decreases w - i,
    {
        let v = if i < col {
            tmp.cells[i]
        } else if i - col < n {
            fill
        } else {
            tmp.cells[i - n]
        };
        nc.push(v);
        i += 1;
    }
    proof {
        assert_seqs_equal!(nc@ == ich_cells(orig.cells, col as int, n as int, fill));
    }
    tmp.cells = nc;
    lines.set_and_swap(r, &mut tmp);
    proof {
        assert_seqs_equal!(lviews(lines@) == lviews(old(lines)@).update(
            r as int,
            LineV {
                cells: ich_cells(old(lines)@[r as int]@.cells, col as int, n as int, fill),
                wrapped: old(lines)@[r as int]@.wrapped,
            },
        ));
    }
}

/// A whole grid of blank lines.
fn blank_grid(rows: usize, cols: usize, pen: Pen) -> (r: Vec<Line>)
    ensures
        lviews(r@) == blank_grid_spec(rows as int, cols as int, pen),
{
    let mut r: Vec<Line> = Vec::new();
    let mut i: usize = 0;
    while i < rows
        invariant
            i <= rows,
            r@.len() == i,
            forall|j: int| 0 <= j < i ==> r@[j]@ == blank_line_spec(cols as int, pen),
        decreases rows - i,
    {
        r.push(blank_line(cols, pen));
        i += 1;
    }
    proof {
        assert_seqs_equal!(lviews(r@) == blank_grid_spec(rows as int, cols as int, pen));
    }
    r
}

/// The default tab stops.
fn default_tabs(cols: usize) -> (r: Vec<bool>)
    ensures
        r@ == default_tabs_spec(cols as int),
{
    let mut r: Vec<bool> = Vec::new();
    let mut i: usize = 0;
    while i < cols
        invariant
            i <= cols,
            r@.len() == i,
            forall|j: int| 0 <= j < i ==> r@[j] == (j % 8 == 0),
        decreases cols - i,
    {
        r.push(i % 8 == 0);
        i += 1;
    }
    proof {
        assert_seqs_equal!(r@ == default_tabs_spec(cols as int));
    }
    r
}

/// A vector of `n` equal flags.
fn bool_row(n: usize, v: bool) -> (r: Vec<bool>)
    ensures
        r@ == Seq::new(n as nat, |i: int| v),
{
    let mut r: Vec<bool> = Vec::new();
    let mut i: usize = 0;
    while i < n
        invariant
            i <= n,
            r@.len() == i,
            forall|j: int| 0 <= j < i ==> r@[j] == v,
        decreases n - i,
    {
        r.push(v);
        i += 1;
    }
    proof {
        assert_seqs_equal!(r@ == Seq::new(n as nat, |i: int| v));
    }
    r
}


/// Width and bound facts about one upward scroll.
proof fn lemma_scroll_up_wf(
    lines: Seq<LineV>,
    sb: Seq<LineV>,
    push: bool,
    cap: int,
    top: int,
    bot: int,
    cols: int,
    pen: Pen,
)
    requires
        0 <= cols,
        0 <= top < bot <= lines.len(),
        forall|i: int| 0 <= i < lines.len() ==> (#[trigger] lines[i]).cells.len() == cols,
        sb.len() <= cap,
        forall|i: int| 0 <= i < sb.len() ==> (#[trigger] sb[i]).cells.len() == cols,
    ensures
        ({
            let r = scroll_up_one_spec(lines, sb, push, cap, top, bot, cols, pen);
            &&& r.0.len() == lines.len()
            &&& forall|i: int| 0 <= i < r.0.len() ==> (#[trigger] r.0[i]).cells.len() == cols
            &&& r.1.len() <= cap
            &&& forall|i: int| 0 <= i < r.1.len() ==> (#[trigger] r.1[i]).cells.len() == cols
        }),
{
    let r = scroll_up_one_spec(lines, sb, push, cap, top, bot, cols, pen);
    lines.remove_ensures(top);
    let rm = lines.remove(top);
    let bl = blank_line_spec(cols, pen);
    rm.insert_ensures(bot - 1, bl);
    assert(bl.cells.len() == cols);
    assert forall|i: int| 0 <= i < r.0.len() implies (#[trigger] r.0[i]).cells.len() == cols by {
        if i < bot - 1 {
            assert(rm.insert(bot - 1, bl)[i] == rm[i]);
        } else if i == bot - 1 {
            assert(rm.insert(bot - 1, bl)[bot - 1] == bl);
        } else {
            assert(rm.insert(bot - 1, bl)[(i - 1) + 1] == rm[i - 1]);
        }
    }
    assert forall|i: int| 0 <= i < r.1.len() implies (#[trigger] r.1[i]).cells.len() == cols by {
        if push && cap > 0 && sb.len() >= cap {
            assert(r.1 == sb.drop_first().push(bl_evicted_helper(lines, top)));
            if i < r.1.len() - 1 {
                assert(sb.drop_first().push(lines[top])[i] == sb.drop_first()[i]);
                assert(sb.drop_first()[i] == sb[i + 1]);
            }
        }
    }
}

/// With eviction off, repeated upward scrolls leave the scrollback alone.
proof fn lemma_scroll_up_n_nopush(
    lines: Seq<LineV>,
    sb: Seq<LineV>,
    cap: int,
    top: int,
    bot: int,
    cols: int,
    pen: Pen,
    n: int,
)
    ensures
        scroll_up_n_spec(lines, sb, false, cap, top, bot, cols, pen, n).1 == sb,
    decreases n,
{
    if n > 0 {
        let r = scroll_up_one_spec(lines, sb, false, cap, top, bot, cols, pen);
        lemma_scroll_up_n_nopush(r.0, r.1, cap, top, bot, cols, pen, n - 1);
    }
}

/// The line an upward scroll evicts.
pub open spec fn bl_evicted_helper(lines: Seq<LineV>, top: int) -> LineV {
    lines[top]
}

/// Width facts about one downward scroll.
proof fn lemma_scroll_down_wf(lines: Seq<LineV>, top: int, bot: int, cols: int, pen: Pen)
    requires
        0 <= cols,
        0 <= top < bot <= lines.len(),
        forall|i: int| 0 <= i < lines.len() ==> (#[trigger] lines[i]).cells.len() == cols,
    ensures
        ({
            let r = scroll_down_one_spec(lines, top, bot, cols, pen);
            &&& r.len() == lines.len()
            &&& forall|i: int| 0 <= i < r.len() ==> (#[trigger] r[i]).cells.len() == cols
        }),
{
    let r = scroll_down_one_spec(lines, top, bot, cols, pen);
    lines.remove_ensures(bot - 1);
    let rm = lines.remove(bot - 1);
    let bl = blank_line_spec(cols, pen);
    rm.insert_ensures(top, bl);
    assert(bl.cells.len() == cols);
    assert forall|i: int| 0 <= i < r.len() implies (#[trigger] r[i]).cells.len() == cols by {
        if i < top {
            assert(rm.insert(top, bl)[i] == rm[i]);
        } else if i == top {
            assert(rm.insert(top, bl)[top] == bl);
        } else {
            assert(rm.insert(top, bl)[(i - 1) + 1] == rm[i - 1]);
        }
    }
}

impl Term {
    /// Marks the rows `a..b` damaged.
    fn mark_rows(&mut self, a: usize, b: usize)
        requires
            old(self).wf(),
            a <= b,
            (b as int) <= old(self)@.core.rows,
        ensures
            final(self).wf(),
            final(self)@.core == old(self)@.core,
            final(self)@.dirty == old(self)@.dirty + row_set(a as int, b as int),
    {
        let mut i: usize = a;
        while i < b
            invariant
                a <= i <= b,
                b <= self.rows,
                self.wf(),
                self@.core == old(self)@.core,
                self@.dirty =~= old(self)@.dirty + row_set(a as int, i as int),
            decreases b - i,
        {
            let ghost prevd = self.dirty@;
            let ghost prevset = self@.dirty;
            self.dirty.set(i, true);
            proof {
                assert(self.dirty@ == prevd.update(i as int, true));
                assert_sets_equal!(self@.dirty == old(self)@.dirty + row_set(a as int, i + 1), j => {
                    assert(self@.dirty.contains(j) == (0 <= j < self.rows as int && self.dirty@[j]));
                    assert(prevset.contains(j) == (0 <= j < self.rows as int && prevd[j]));
                    if 0 <= j < self.rows as int && j != i as int {
                        assert(self.dirty@[j] == prevd[j]);
                    }
                });
            }
            i += 1;
        }
    }

    /// Moves the cursor of the active screen.
    fn t_set_cursor(&mut self, r: usize, col: usize)
        requires
            old(self).wf(),
            (r as int) < old(self)@.core.rows,
            (col as int) < old(self)@.core.cols,
        ensures
            final(self).wf(),
            final(self)@.core == with_screen(
                old(self)@.core,
                ScreenV {
                    cursor: CursorPos { row: r, col: col },
                    ..cur_screen(old(self)@.core)
                },
            ),
            final(self)@.dirty == old(self)@.dirty,
    {
        if self.alt_active {
            self.alt.cursor = CursorPos { row: r, col: col };
        } else {
            self.primary.cursor = CursorPos { row: r, col: col };
        }
    }

    /// The cursor of the active screen.
    pub fn cursor_pos(&self) -> (r: CursorPos)
        ensures
            r == cur_screen(self@.core).cursor,
    {
        if self.alt_active {
            self.alt.cursor
        } else {
            self.primary.cursor
        }
    }

    /// A line feed, as [`lf_spec`].
    fn op_lf(&mut self)
        requires
            old(self).wf(),
        ensures
            final(self).wf(),
            final(self)@.core == lf_spec(old(self)@.core).0,
            final(self)@.dirty == old(self)@.dirty + lf_spec(old(self)@.core).1,
    {
        let ghost c0 = self@.core;
        let cur = self.cursor_pos();
        if cur.row + 1 == self.scroll_bot {
            proof {
                lemma_scroll_up_wf(
                    cur_screen(c0).lines,
                    c0.sb,
                    !c0.alt_active,
                    c0.sb_cap,
                    c0.scroll_top as int,
                    c0.scroll_bot as int,
                    c0.cols,
                    c0.pen,
                );
            }
            let top = self.scroll_top;
            let bot = self.scroll_bot;
            let cols = self.cols;
            let cap = self.sb_cap;
            let pen = self.pen;
            if self.alt_active {
                scroll_up_one(&mut self.alt.lines, &mut self.sb, false, cap, top, bot, cols, pen);
            } else {
                scroll_up_one(&mut self.primary.lines, &mut self.sb, true, cap, top, bot, cols, pen);
            }
            proof {
                assert(self@.core =~= lf_spec(c0).0);
            }
            self.mark_rows(top, bot);
            proof {
                assert(self@.dirty =~= old(self)@.dirty + lf_spec(c0).1);
            }
        } else if cur.row + 1 < self.rows {
            self.t_set_cursor(cur.row + 1, cur.col);
            proof {
                assert(self@.core =~= lf_spec(c0).0);
                assert(self@.dirty =~= old(self)@.dirty + lf_spec(c0).1);
            }
        } else {
            proof {
                assert(self@.dirty =~= old(self)@.dirty + lf_spec(c0).1);
            }
        }
    }

    /// A reverse line feed, as [`ri_spec`].
    fn op_ri(&mut self)
        requires
            old(self).wf(),
        ensures
            final(self).wf(),
            final(self)@.core == ri_spec(old(self)@.core).0,
            final(self)@.dirty == old(self)@.dirty + ri_spec(old(self)@.core).1,
    {
        let ghost c0 = self@.core;
        let cur = self.cursor_pos();
        if cur.row == self.scroll_top {
            proof {
                lemma_scroll_down_wf(
                    cur_screen(c0).lines,
                    c0.scroll_top as int,
                    c0.scroll_bot as int,
                    c0.cols,
                    c0.pen,
                );
            }
            let top = self.scroll_top;
            let bot = self.scroll_bot;
            let cols = self.cols;
            let pen = self.pen;
            if self.alt_active {
                scroll_down_one(&mut self.alt.lines, top, bot, cols, pen);
            } else {
                scroll_down_one(&mut self.primary.lines, top, bot, cols, pen);
            }
            proof {
                assert(self@.core =~= ri_spec(c0).0);
            }
            self.mark_rows(top, bot);
            proof {
                assert(self@.dirty =~= old(self)@.dirty + ri_spec(c0).1);
            }
        } else if cur.row > 0 {
            self.t_set_cursor(cur.row - 1, cur.col);
            proof {
                assert(self@.core =~= ri_spec(c0).0);
                assert(self@.dirty =~= old(self)@.dirty + ri_spec(c0).1);
            }
        } else {
            proof {
                assert(self@.dirty =~= old(self)@.dirty + ri_spec(c0).1);
            }
        }
    }

    /// Prints one decoded code point, as [`print_spec`].
    #[verifier::rlimit(100)]
    fn op_print(&mut self, cp: u32)
        requires
            old(self).wf(),
        ensures
            final(self).wf(),
            final(self)@.core == print_spec(old(self)@.core, cp).0,
            final(self)@.dirty == old(self)@.dirty + print_spec(old(self)@.core, cp).1,
    {
        let ghost c0 = self@.core;
        let cur = self.cursor_pos();
        let cs = if self.active_charset == 0 {
            self.g0
        } else if self.active_charset == 1 {
            self.g1
        } else if self.active_charset == 2 {
            self.g2
        } else {
            self.g3
        };
        proof {
            assert(cs == active_cs(c0));
        }
        let cell = Cell {
            ch: charset_map(cs, cp),
            fg: self.pen.fg,
            bg: self.pen.bg,
            style: self.pen.style,
        };
        proof {
            assert(cur_screen(c0).lines[cur.row as int].cells.len() == c0.cols);
            assert(lviews(if c0.alt_active {
                self.alt.lines@
            } else {
                self.primary.lines@
            })[cur.row as int]
                == (if c0.alt_active {
                self.alt.lines@
            } else {
                self.primary.lines@
            })[cur.row as int]@);
        }
        if self.alt_active {
            set_cell(&mut self.alt.lines, cur.row, cur.col, cell);
        } else {
            set_cell(&mut self.primary.lines, cur.row, cur.col, cell);
        }
        proof {
            assert(self@.core =~= with_screen(
                c0,
                ScreenV {
                    lines: write_cell_spec(
                        cur_screen(c0).lines,
                        cur.row as int,
                        cur.col as int,
                        cell,
                    ),
                    ..cur_screen(c0)
                },
            ));
        }
        let ghost c_wr = self@.core;
        if cur.col + 1 < self.cols {
            self.t_set_cursor(cur.row, cur.col + 1);
            self.mark_rows(cur.row, cur.row + 1);
            proof {
                assert(self@.core =~= print_spec(c0, cp).0);
                assert(self@.dirty =~= old(self)@.dirty + print_spec(c0, cp).1);
            }
        } else if !self.modes.autowrap {
            self.mark_rows(cur.row, cur.row + 1);
            proof {
                assert(self@.core =~= print_spec(c0, cp).0);
                assert(self@.dirty =~= old(self)@.dirty + print_spec(c0, cp).1);
            }
        } else {
            if self.alt_active {
                set_wrapped(&mut self.alt.lines, cur.row, true);
            } else {
                set_wrapped(&mut self.primary.lines, cur.row, true);
            }
            self.t_set_cursor(cur.row, 0);
            proof {
                assert(self@.core =~= ({
                    let scr = cur_screen(c0);
                    let lines1 = write_cell_spec(scr.lines, cur.row as int, cur.col as int, cell);
                    let lines2 = set_wrapped_spec(lines1, cur.row as int, true);
                    with_screen(
                        c0,
                        ScreenV { lines: lines2, cursor: CursorPos { row: cur.row, col: 0 }, ..scr },
                    )
                }));
            }
            let ghost c1 = self@.core;
            self.mark_rows(cur.row, cur.row + 1);
            self.op_lf();
            proof {
                assert(self@.core == lf_spec(c1).0);
                assert(self@.core =~= print_spec(c0, cp).0);
                assert(self@.dirty =~= old(self)@.dirty + print_spec(c0, cp).1);
            }
        }
    }

    /// One C0 control function, as [`execute_spec`].
    #[verifier::rlimit(100)]
    fn op_execute(&mut self, b: u8)
        requires
            old(self).wf(),
        ensures
            final(self).wf(),
            final(self)@.core == execute_spec(old(self)@.core, b).0,
            final(self)@.dirty == old(self)@.dirty + execute_spec(old(self)@.core, b).1,
    {
        let ghost c0 = self@.core;
        let cur = self.cursor_pos();
        if b == 0x08 {
            if cur.col > 0 {
                self.t_set_cursor(cur.row, cur.col - 1);
            }
        } else if b == 0x09 {
            let t = next_tab(&self.tabs, cur.col);
            self.t_set_cursor(cur.row, t);
        } else if b == 0x0a || b == 0x0b || b == 0x0c {
            self.op_lf();
        } else if b == 0x0d {
            self.t_set_cursor(cur.row, 0);
        } else if b == 0x0e {
            self.active_charset = 1;
        } else if b == 0x0f {
            self.active_charset = 0;
        }
        proof {
            assert(self@.core =~= execute_spec(c0, b).0);
            assert(self@.dirty =~= old(self)@.dirty + execute_spec(c0, b).1);
        }
    }
}


impl Term {
    /// Scrolls the region up `n` times, as [`scroll_up_n_spec`].
    fn t_scroll_up_n(&mut self, top: usize, bot: usize, n: usize, push: bool)
        requires
            old(self).wf(),
            top < bot,
            (bot as int) <= old(self)@.core.rows,
        ensures
            final(self).wf(),
            final(self)@.core == ({
                let c0 = old(self)@.core;
                let r = scroll_up_n_spec(
                    cur_screen(c0).lines,
                    c0.sb,
                    push,
                    c0.sb_cap,
                    top as int,
                    bot as int,
                    c0.cols,
                    c0.pen,
                    n as int,
                );
                CoreV { sb: r.1, ..with_screen(c0, ScreenV { lines: r.0, ..cur_screen(c0) }) }
            }),
            final(self)@.dirty == old(self)@.dirty,
    {
        let ghost c0 = self@.core;
        let mut k: usize = 0;
        while k < n
            invariant
                k <= n,
                self.wf(),
                top < bot,
                (bot as int) <= self@.core.rows,
                self@.dirty == old(self)@.dirty,
                scroll_up_n_spec(
                    cur_screen(c0).lines,
                    c0.sb,
                    push,
                    c0.sb_cap,
                    top as int,
                    bot as int,
                    c0.cols,
                    c0.pen,
                    n as int,
                ) == scroll_up_n_spec(
                    cur_screen(self@.core).lines,
                    self@.core.sb,
                    push,
                    self@.core.sb_cap,
                    top as int,
                    bot as int,
                    self@.core.cols,
                    self@.core.pen,
                    (n - k) as int,
                ),
                self@.core == (CoreV {
                    sb: self@.core.sb,
                    ..with_screen(c0, ScreenV { lines: cur_screen(self@.core).lines, ..cur_screen(c0) })
                }),
            decreases n - k,
        {
            let ghost cm = self@.core;
            proof {
                lemma_scroll_up_wf(
                    cur_screen(cm).lines,
                    cm.sb,
                    push,
                    cm.sb_cap,
                    top as int,
                    bot as int,
                    cm.cols,
                    cm.pen,
                );
            }
            let cols = self.cols;
            let cap = self.sb_cap;
            let pen = self.pen;
            if self.alt_active {
                scroll_up_one(&mut self.alt.lines, &mut self.sb, push, cap, top, bot, cols, pen);
            } else {
                scroll_up_one(&mut self.primary.lines, &mut self.sb, push, cap, top, bot, cols, pen);
            }
            proof {
                assert(self@.core =~= (CoreV {
                    sb: self@.core.sb,
                    ..with_screen(c0, ScreenV { lines: cur_screen(self@.core).lines, ..cur_screen(c0) })
                }));
            }
            k += 1;
        }
        proof {
            assert(final(self)@.core =~= ({
                let r = scroll_up_n_spec(
                    cur_screen(c0).lines,
                    c0.sb,
                    push,
                    c0.sb_cap,
                    top as int,
                    bot as int,
                    c0.cols,
                    c0.pen,
                    n as int,
                );
                CoreV { sb: r.1, ..with_screen(c0, ScreenV { lines: r.0, ..cur_screen(c0) }) }
            }));
        }
    }

    /// Scrolls the region down `n` times, as [`scroll_down_n_spec`].
    fn t_scroll_down_n(&mut self, top: usize, bot: usize, n: usize)
        requires
            old(self).wf(),
            top < bot,
            (bot as int) <= old(self)@.core.rows,
        ensures
            final(self).wf(),
            final(self)@.core == ({
                let c0 = old(self)@.core;
                with_screen(
                    c0,
                    ScreenV {
                        lines: scroll_down_n_spec(
                            cur_screen(c0).lines,
                            top as int,
                            bot as int,
                            c0.cols,
                            c0.pen,
                            n as int,
                        ),
                        ..cur_screen(c0)
                    },
                )
            }),
            final(self)@.dirty == old(self)@.dirty,
    {
        let ghost c0 = self@.core;
        let mut k: usize = 0;
        while k < n
            invariant
                k <= n,
                self.wf(),
                top < bot,
                (bot as int) <= self@.core.rows,
                self@.dirty == old(self)@.dirty,
                scroll_down_n_spec(
                    cur_screen(c0).lines,
                    top as int,
                    bot as int,
                    c0.cols,
                    c0.pen,
                    n as int,
                ) == scroll_down_n_spec(
                    cur_screen(self@.core).lines,
                    top as int,
                    bot as int,
                    self@.core.cols,
                    self@.core.pen,
                    (n - k) as int,
                ),
                self@.core == with_screen(
                    c0,
                    ScreenV { lines: cur_screen(self@.core).lines, ..cur_screen(c0) },
                ),
            decreases n - k,
        {
            let ghost cm = self@.core;
            proof {
                lemma_scroll_down_wf(
                    cur_screen(cm).lines,
                    top as int,
                    bot as int,
                    cm.cols,
                    cm.pen,
                );
            }
            let cols = self.cols;
            let pen = self.pen;
            if self.alt_active {
                scroll_down_one(&mut self.alt.lines, top, bot, cols, pen);
            } else {
                scroll_down_one(&mut self.primary.lines, top, bot, cols, pen);
            }
            proof {
                assert(self@.core =~= with_screen(
                    c0,
                    ScreenV { lines: cur_screen(self@.core).lines, ..cur_screen(c0) },
                ));
            }
            k += 1;
        }
        proof {
            assert(final(self)@.core =~= with_screen(
                c0,
                ScreenV {
                    lines: scroll_down_n_spec(
                        cur_screen(c0).lines,
                        top as int,
                        bot as int,
                        c0.cols,
                        c0.pen,
                        n as int,
                    ),
                    ..cur_screen(c0)
                },
            ));
        }
    }
}


impl Term {
    /// Links the view of the active screen's row to the vector behind it.
    proof fn lemma_row_views(&self, r: int)
        requires
            self.wf(),
            0 <= r < self@.core.rows,
        ensures
            lviews(self.primary.lines@)[r] == self.primary.lines@[r]@,
            lviews(self.alt.lines@)[r] == self.alt.lines@[r]@,
            self.primary.lines@[r]@.cells.len() == self@.core.cols,
            self.alt.lines@[r]@.cells.len() == self@.core.cols,
            self.primary.lines@.len() == self@.core.rows,
            self.alt.lines@.len() == self@.core.rows,
    {
        assert(self@.core.primary.lines[r].cells.len() == self@.core.cols);
        assert(self@.core.alt.lines[r].cells.len() == self@.core.cols);
    }

    /// An absolute cursor move, as [`goto_spec`].
    fn op_goto(&mut self, p1: u16, p2: u16)
        requires
            old(self).wf(),
            p1 >= 1,
            p2 >= 1,
        ensures
            final(self).wf(),
            final(self)@.core == goto_spec(old(self)@.core, p1 as int, p2 as int),
            final(self)@.dirty == old(self)@.dirty,
    {
        let ghost c0 = self@.core;
        let row: usize = if self.modes.origin {
            let r = self.scroll_top + (p1 as usize) - 1;
            if r < self.scroll_bot {
                r
            } else {
                self.scroll_bot - 1
            }
        } else {
            if (p1 as usize) - 1 < self.rows {
                (p1 as usize) - 1
            } else {
                self.rows - 1
            }
        };
        let col: usize = if (p2 as usize) - 1 < self.cols {
            (p2 as usize) - 1
        } else {
            self.cols - 1
        };
        self.t_set_cursor(row, col);
        proof {
            assert(self@.core =~= goto_spec(c0, p1 as int, p2 as int));
        }
    }

    /// Erase-in-display, as [`ed_spec`].
    /// Erase-in-display below the cursor.
    #[verifier::rlimit(100)]
    fn op_ed0(&mut self)
        requires
            old(self).wf(),
        ensures
            final(self).wf(),
            final(self)@.core == ed_spec(old(self)@.core, 0).0,
            final(self)@.dirty == old(self)@.dirty + ed_spec(old(self)@.core, 0).1,
    {
        let ghost c0 = self@.core;
        let cur = self.cursor_pos();
        let rows = self.rows;
        let cols = self.cols;
        let pen = self.pen;
        let cell = Cell::erased(pen);
        proof {
            self.lemma_row_views(cur.row as int);
        }
        if self.alt_active {
            fill_row(&mut self.alt.lines, cur.row, cur.col, cols, cell);
            blank_rows(&mut self.alt.lines, cur.row + 1, rows, cols, pen);
        } else {
            fill_row(&mut self.primary.lines, cur.row, cur.col, cols, cell);
            blank_rows(&mut self.primary.lines, cur.row + 1, rows, cols, pen);
        }
        proof {
            assert(self@.core =~= ed_spec(c0, 0).0);
        }
        self.mark_rows(cur.row, rows);
        proof {
            assert(self@.dirty =~= old(self)@.dirty + ed_spec(c0, 0).1);
        }
    }

    /// Erase-in-display above the cursor.
    #[verifier::rlimit(100)]
    fn op_ed1(&mut self)
        requires
            old(self).wf(),
        ensures
            final(self).wf(),
            final(self)@.core == ed_spec(old(self)@.core, 1).0,
            final(self)@.dirty == old(self)@.dirty + ed_spec(old(self)@.core, 1).1,
    {
        let ghost c0 = self@.core;
        let cur = self.cursor_pos();
        let cols = self.cols;
        let pen = self.pen;
        let cell = Cell::erased(pen);
        proof {
            self.lemma_row_views(cur.row as int);
        }
        if self.alt_active {
            fill_row(&mut self.alt.lines, cur.row, 0, cur.col + 1, cell);
            blank_rows(&mut self.alt.lines, 0, cur.row, cols, pen);
        } else {
            fill_row(&mut self.primary.lines, cur.row, 0, cur.col + 1, cell);
            blank_rows(&mut self.primary.lines, 0, cur.row, cols, pen);
        }
        proof {
            assert(self@.core =~= ed_spec(c0, 1).0);
        }
        self.mark_rows(0, cur.row + 1);
        proof {
            assert(self@.dirty =~= old(self)@.dirty + ed_spec(c0, 1).1);
        }
    }

    /// Erase the whole display.
    #[verifier::rlimit(100)]
    fn op_ed2(&mut self)
        requires
            old(self).wf(),
        ensures
            final(self).wf(),
            final(self)@.core == ed_spec(old(self)@.core, 2).0,
            final(self)@.dirty == old(self)@.dirty + ed_spec(old(self)@.core, 2).1,
    {
        let ghost c0 = self@.core;
        let rows = self.rows;
        let cols = self.cols;
        let pen = self.pen;
        proof {
            self.lemma_row_views(0);
        }
        if self.alt_active {
            blank_rows(&mut self.alt.lines, 0, rows, cols, pen);
        } else {
            blank_rows(&mut self.primary.lines, 0, rows, cols, pen);
        }
        proof {
            assert(self@.core =~= ed_spec(c0, 2).0);
        }
        self.mark_rows(0, rows);
        proof {
            assert(self@.dirty =~= old(self)@.dirty + ed_spec(c0, 2).1);
        }
    }

    /// Erase-in-display, as [`ed_spec`].
    #[verifier::rlimit(100)]
    fn op_ed(&mut self, m: u16)
        requires
            old(self).wf(),
        ensures
            final(self).wf(),
            final(self)@.core == ed_spec(old(self)@.core, m).0,
            final(self)@.dirty == old(self)@.dirty + ed_spec(old(self)@.core, m).1,
    {
        let ghost c0 = self@.core;
        if m == 0 {
            self.op_ed0();
        } else if m == 1 {
            self.op_ed1();
        } else if m == 2 {
            self.op_ed2();
        } else if m == 3 {
            self.sb.clear();
            proof {
                assert(lviews(self.sb@) =~= Seq::<LineV>::empty());
                assert(self@.core =~= ed_spec(c0, m).0);
                assert(self@.dirty =~= old(self)@.dirty + ed_spec(c0, m).1);
            }
        } else {
            proof {
                assert(self@.dirty =~= old(self)@.dirty + ed_spec(c0, m).1);
            }
        }
    }

    /// Erase-in-line, as [`el_spec`].
    fn op_el(&mut self, m: u16)
        requires
            old(self).wf(),
        ensures
            final(self).wf(),
            final(self)@.core == el_spec(old(self)@.core, m).0,
            final(self)@.dirty == old(self)@.dirty + el_spec(old(self)@.core, m).1,
    {
        let ghost c0 = self@.core;
        let cur = self.cursor_pos();
        let cols = self.cols;
        let cell = Cell::erased(self.pen);
        proof {
            self.lemma_row_views(cur.row as int);
        }
        if m == 0 {
            if self.alt_active {
                fill_row(&mut self.alt.lines, cur.row, cur.col, cols, cell);
            } else {
                fill_row(&mut self.primary.lines, cur.row, cur.col, cols, cell);
            }
            self.mark_rows(cur.row, cur.row + 1);
        } else if m == 1 {
            if self.alt_active {
                fill_row(&mut self.alt.lines, cur.row, 0, cur.col + 1, cell);
            } else {
                fill_row(&mut self.primary.lines, cur.row, 0, cur.col + 1, cell);
            }
            self.mark_rows(cur.row, cur.row + 1);
        } else if m == 2 {
            if self.alt_active {
                fill_row(&mut self.alt.lines, cur.row, 0, cols, cell);
            } else {
                fill_row(&mut self.primary.lines, cur.row, 0, cols, cell);
            }
            self.mark_rows(cur.row, cur.row + 1);
        }
        proof {
            assert(self@.core =~= el_spec(c0, m).0);
            assert(self@.dirty =~= old(self)@.dirty + el_spec(c0, m).1);
        }
    }

    /// Erase-characters, as [`ech_spec`].
    fn op_ech(&mut self, n: u16)
        requires
            old(self).wf(),
        ensures
            final(self).wf(),
            final(self)@.core == ech_spec(old(self)@.core, n as int).0,
            final(self)@.dirty == old(self)@.dirty + ech_spec(old(self)@.core, n as int).1,
    {
        let ghost c0 = self@.core;
        let cur = self.cursor_pos();
        let cols = self.cols;
        let cell = Cell::erased(self.pen);
        proof {
            self.lemma_row_views(cur.row as int);
        }
        let e: usize = if cols - cur.col > n as usize {
            cur.col + n as usize
        } else {
            cols
        };
        if self.alt_active {
            fill_row(&mut self.alt.lines, cur.row, cur.col, e, cell);
        } else {
            fill_row(&mut self.primary.lines, cur.row, cur.col, e, cell);
        }
        self.mark_rows(cur.row, cur.row + 1);
        proof {
            assert(self@.core =~= ech_spec(c0, n as int).0);
            assert(self@.dirty =~= old(self)@.dirty + ech_spec(c0, n as int).1);
        }
    }

    /// Delete-characters, as [`dch_spec`].
    fn op_dch(&mut self, n: u16)
        requires
            old(self).wf(),
        ensures
            final(self).wf(),
            final(self)@.core == dch_spec(old(self)@.core, n as int).0,
            final(self)@.dirty == old(self)@.dirty + dch_spec(old(self)@.core, n as int).1,
    {
        let ghost c0 = self@.core;
        let cur = self.cursor_pos();
        let cell = Cell::erased(self.pen);
        proof {
            self.lemma_row_views(cur.row as int);
        }
        if self.alt_active {
            rebuild_dch(&mut self.alt.lines, cur.row, cur.col, n as usize, cell);
        } else {
            rebuild_dch(&mut self.primary.lines, cur.row, cur.col, n as usize, cell);
        }
        self.mark_rows(cur.row, cur.row + 1);
        proof {
            assert(self@.core =~= dch_spec(c0, n as int).0);
            assert(self@.dirty =~= old(self)@.dirty + dch_spec(c0, n as int).1);
        }
    }

    /// Insert-characters, as [`ich_spec`].
    fn op_ich(&mut self, n: u16)
        requires
            old(self).wf(),
        ensures
            final(self).wf(),
            final(self)@.core == ich_spec(old(self)@.core, n as int).0,
            final(self)@.dirty == old(self)@.dirty + ich_spec(old(self)@.core, n as int).1,
    {
        let ghost c0 = self@.core;
        let cur = self.cursor_pos();
        let cell = Cell::erased(self.pen);
        proof {
            self.lemma_row_views(cur.row as int);
        }
        if self.alt_active {
            rebuild_ich(&mut self.alt.lines, cur.row, cur.col, n as usize, cell);
        } else {
            rebuild_ich(&mut self.primary.lines, cur.row, cur.col, n as usize, cell);
        }
        self.mark_rows(cur.row, cur.row + 1);
        proof {
            assert(self@.core =~= ich_spec(c0, n as int).0);
            assert(self@.dirty =~= old(self)@.dirty + ich_spec(c0, n as int).1);
        }
    }

    /// Insert-lines, as [`il_spec`].
    fn op_il(&mut self, n: u16)
        requires
            old(self).wf(),
        ensures
            final(self).wf(),
            final(self)@.core == il_spec(old(self)@.core, n as int).0,
            final(self)@.dirty == old(self)@.dirty + il_spec(old(self)@.core, n as int).1,
    {
        let ghost c0 = self@.core;
        let cur = self.cursor_pos();
        if self.scroll_top <= cur.row && cur.row < self.scroll_bot {
            let m: usize = if (n as usize) > self.scroll_bot - cur.row {
                self.scroll_bot - cur.row
            } else {
                n as usize
            };
            let bot = self.scroll_bot;
            self.t_scroll_down_n(cur.row, bot, m);
            self.mark_rows(cur.row, bot);
            proof {
                assert(self@.core =~= il_spec(c0, n as int).0);
                assert(self@.dirty =~= old(self)@.dirty + il_spec(c0, n as int).1);
            }
        } else {
            proof {
                assert(self@.dirty =~= old(self)@.dirty + il_spec(c0, n as int).1);
            }
        }
    }

    /// Delete-lines, as [`dl_spec`].
    fn op_dl(&mut self, n: u16)
        requires
            old(self).wf(),
        ensures
            final(self).wf(),
            final(self)@.core == dl_spec(old(self)@.core, n as int).0,
            final(self)@.dirty == old(self)@.dirty + dl_spec(old(self)@.core, n as int).1,
    {
        let ghost c0 = self@.core;
        let cur = self.cursor_pos();
        if self.scroll_top <= cur.row && cur.row < self.scroll_bot {
            let m: usize = if (n as usize) > self.scroll_bot - cur.row {
                self.scroll_bot - cur.row
            } else {
                n as usize
            };
            let bot = self.scroll_bot;
            self.t_scroll_up_n(cur.row, bot, m, false);
            self.mark_rows(cur.row, bot);
            proof {
                lemma_scroll_up_n_nopush(
                    cur_screen(c0).lines,
                    c0.sb,
                    c0.sb_cap,
                    cur.row as int,
                    bot as int,
                    c0.cols,
                    c0.pen,
                    m as int,
                );
                assert(self@.core =~= dl_spec(c0, n as int).0);
                assert(self@.dirty =~= old(self)@.dirty + dl_spec(c0, n as int).1);
            }
        } else {
            proof {
                assert(self@.dirty =~= old(self)@.dirty + dl_spec(c0, n as int).1);
            }
        }
    }

    /// Scroll-up, as [`su_spec`].
    fn op_su(&mut self, n: u16)
        requires
            old(self).wf(),
        ensures
            final(self).wf(),
            final(self)@.core == su_spec(old(self)@.core, n as int).0,
            final(self)@.dirty == old(self)@.dirty + su_spec(old(self)@.core, n as int).1,
    {
        let ghost c0 = self@.core;
        let top = self.scroll_top;
        let bot = self.scroll_bot;
        let push = !self.alt_active;
        self.t_scroll_up_n(top, bot, n as usize, push);
        self.mark_rows(top, bot);
        proof {
            assert(self@.core =~= su_spec(c0, n as int).0);
            assert(self@.dirty =~= old(self)@.dirty + su_spec(c0, n as int).1);
        }
    }

    /// Scroll-down, as [`sd_spec`].
    fn op_sd(&mut self, n: u16)
        requires
            old(self).wf(),
        ensures
            final(self).wf(),
            final(self)@.core == sd_spec(old(self)@.core, n as int).0,
            final(self)@.dirty == old(self)@.dirty + sd_spec(old(self)@.core, n as int).1,
    {
        let ghost c0 = self@.core;
        let top = self.scroll_top;
        let bot = self.scroll_bot;
        self.t_scroll_down_n(top, bot, n as usize);
        self.mark_rows(top, bot);
        proof {
            assert(self@.core =~= sd_spec(c0, n as int).0);
            assert(self@.dirty =~= old(self)@.dirty + sd_spec(c0, n as int).1);
        }
    }

    /// Save-cursor, as [`save_cursor_spec`].
    fn op_save(&mut self)
        requires
            old(self).wf(),
        ensures
            final(self).wf(),
            final(self)@.core == save_cursor_spec(old(self)@.core),
            final(self)@.dirty == old(self)@.dirty,
    {
        let ghost c0 = self@.core;
        let pen = self.pen;
        if self.alt_active {
            let cur = self.alt.cursor;
            self.alt.saved = SavedCursor { pos: cur, pen: pen };
        } else {
            let cur = self.primary.cursor;
            self.primary.saved = SavedCursor { pos: cur, pen: pen };
        }
        proof {
            assert(self@.core =~= save_cursor_spec(c0));
        }
    }

    /// Restore-cursor, as [`restore_cursor_spec`].
    fn op_restore(&mut self)
        requires
            old(self).wf(),
        ensures
            final(self).wf(),
            final(self)@.core == restore_cursor_spec(old(self)@.core),
            final(self)@.dirty == old(self)@.dirty,
    {
        let ghost c0 = self@.core;
        if self.alt_active {
            let sv = self.alt.saved;
            self.alt.cursor = sv.pos;
            self.pen = sv.pen;
        } else {
            let sv = self.primary.saved;
            self.primary.cursor = sv.pos;
            self.pen = sv.pen;
        }
        proof {
            assert(self@.core =~= restore_cursor_spec(c0));
        }
    }

    /// A device-status report, as [`dsr_spec`].
    fn op_dsr(&mut self, p: u16)
        requires
            old(self).wf(),
        ensures
            final(self).wf(),
            final(self)@.core == dsr_spec(old(self)@.core, p),
            final(self)@.dirty == old(self)@.dirty,
    {
        let ghost c0 = self@.core;
        if p == 5 {
            self.replies.push(0x1b);
            self.replies.push(0x5b);
            self.replies.push(0x30);
            self.replies.push(0x6e);
            proof {
                assert(self.replies@ =~= c0.replies + seq![0x1bu8, 0x5bu8, 0x30u8, 0x6eu8]);
                assert(self@.core =~= dsr_spec(c0, p));
            }
        } else if p == 6 {
            let cur = self.cursor_pos();
            self.replies.push(0x1b);
            self.replies.push(0x5b);
            push_decimal(&mut self.replies, cur.row + 1);
            self.replies.push(0x3b);
            push_decimal(&mut self.replies, cur.col + 1);
            self.replies.push(0x52);
            proof {
                assert(self.replies@ =~= c0.replies + cpr_bytes(
                    cur.row as int,
                    cur.col as int,
                ));
                assert(self@.core =~= dsr_spec(c0, p));
            }
        }
    }

    /// The device-attributes reply, as [`da_spec`].
    fn op_da(&mut self)
        requires
            old(self).wf(),
        ensures
            final(self).wf(),
            final(self)@.core == da_spec(old(self)@.core),
            final(self)@.dirty == old(self)@.dirty,
    {
        let ghost c0 = self@.core;
        self.replies.push(0x1b);
        self.replies.push(0x5b);
        self.replies.push(0x3f);
        self.replies.push(0x36);
        self.replies.push(0x63);
        proof {
            assert(self.replies@ =~= c0.replies + seq![0x1bu8, 0x5bu8, 0x3fu8, 0x36u8, 0x63u8]);
            assert(self@.core =~= da_spec(c0));
        }
    }

    /// Tab-clear, as the `g` branch of [`csi_spec`].
    fn op_tbc(&mut self, p: u16)
        requires
            old(self).wf(),
        ensures
            final(self).wf(),
            final(self)@.core == ({
                let c = old(self)@.core;
                if p == 0 {
                    CoreV { tabs: c.tabs.update(cur_screen(c).cursor.col as int, false), ..c }
                } else if p == 3 {
                    CoreV { tabs: Seq::new(c.tabs.len(), |i: int| false), ..c }
                } else {
                    c
                }
            }),
            final(self)@.dirty == old(self)@.dirty,
    {
        let ghost c0 = self@.core;
        if p == 0 {
            let cur = self.cursor_pos();
            self.tabs.set(cur.col, false);
        } else if p == 3 {
            let cols = self.tabs.len();
            self.tabs = bool_row(cols, false);
            proof {
                assert(self.tabs@ =~= Seq::new(c0.tabs.len(), |i: int| false));
            }
        }
    }

    /// Horizontal-tab-set at the cursor column.
    fn op_hts(&mut self)
        requires
            old(self).wf(),
        ensures
            final(self).wf(),
            final(self)@.core == (CoreV {
                tabs: old(self)@.core.tabs.update(
                    cur_screen(old(self)@.core).cursor.col as int,
                    true,
                ),
                ..old(self)@.core
            }),
            final(self)@.dirty == old(self)@.dirty,
    {
        let cur = self.cursor_pos();
        self.tabs.set(cur.col, true);
    }

    /// Entering the alternate screen, as [`alt_enter_spec`].
    fn op_alt_enter(&mut self)
        requires
            old(self).wf(),
        ensures
            final(self).wf(),
            final(self)@.core == alt_enter_spec(old(self)@.core).0,
            final(self)@.dirty == old(self)@.dirty + alt_enter_spec(old(self)@.core).1,
    {
        let ghost c0 = self@.core;
        if !self.alt_active {
            let rows = self.rows;
            let cols = self.cols;
            let pen = self.pen;
            self.alt.lines = blank_grid(rows, cols, pen);
            self.alt.cursor = CursorPos { row: 0, col: 0 };
            self.alt_active = true;
            self.mark_rows(0, rows);
            proof {
                assert(self@.core =~= alt_enter_spec(c0).0);
                assert(self@.dirty =~= old(self)@.dirty + alt_enter_spec(c0).1);
            }
        } else {
            proof {
                assert(self@.dirty =~= old(self)@.dirty + alt_enter_spec(c0).1);
            }
        }
    }

    /// Leaving the alternate screen, as [`alt_leave_spec`].
    fn op_alt_leave(&mut self)
        requires
            old(self).wf(),
        ensures
            final(self).wf(),
            final(self)@.core == alt_leave_spec(old(self)@.core).0,
            final(self)@.dirty == old(self)@.dirty + alt_leave_spec(old(self)@.core).1,
    {
        let ghost c0 = self@.core;
        if self.alt_active {
            let rows = self.rows;
            self.alt_active = false;
            self.mark_rows(0, rows);
            proof {
                assert(self@.core =~= alt_leave_spec(c0).0);
                assert(self@.dirty =~= old(self)@.dirty + alt_leave_spec(c0).1);
            }
        } else {
            proof {
                assert(self@.dirty =~= old(self)@.dirty + alt_leave_spec(c0).1);
            }
        }
    }

    /// One pure flag mode, the branches of [`set_mode_spec`] that only touch
    /// the mode set.
    #[verifier::rlimit(100)]
    fn op_mode_flag(&mut self, p: u16, on: bool)
        requires
            old(self).wf(),
            p == 1 || p == 7 || p == 25 || p == 1000 || p == 1002 || p == 1006 || p == 2004,
        ensures
            final(self).wf(),
            final(self)@.core == set_mode_spec(old(self)@.core, p, on).0,
            final(self)@.dirty == old(self)@.dirty + set_mode_spec(old(self)@.core, p, on).1,
    {
        let ghost c0 = self@.core;
        if p == 1 {
            self.modes = ModeSet { app_cursor: on, ..self.modes };
        } else if p == 7 {
            self.modes = ModeSet { autowrap: on, ..self.modes };
        } else if p == 25 {
            self.modes = ModeSet { show_cursor: on, ..self.modes };
        } else if p == 1000 {
            self.modes = ModeSet { mouse_click: on, ..self.modes };
        } else if p == 1002 {
            self.modes = ModeSet { mouse_motion: on, ..self.modes };
        } else if p == 1006 {
            self.modes = ModeSet { mouse_sgr: on, ..self.modes };
        } else {
            self.modes = ModeSet { bracketed_paste: on, ..self.modes };
        }
        proof {
            assert(self@.core =~= set_mode_spec(c0, p, on).0);
            assert(self@.dirty =~= old(self)@.dirty + set_mode_spec(c0, p, on).1);
        }
    }

    /// One private mode set or reset, as [`set_mode_spec`].
    #[verifier::rlimit(100)]
    fn op_mode_one(&mut self, p: u16, on: bool)
        requires
            old(self).wf(),
        ensures
            final(self).wf(),
            final(self)@.core == set_mode_spec(old(self)@.core, p, on).0,
            final(self)@.dirty == old(self)@.dirty + set_mode_spec(old(self)@.core, p, on).1,
    {
        let ghost c0 = self@.core;
        if p == 1 || p == 7 || p == 25 || p == 1000 || p == 1002 || p == 1006 || p == 2004 {
            self.op_mode_flag(p, on);
        } else if p == 6 {
            self.modes = ModeSet { origin: on, ..self.modes };
            self.op_goto(1, 1);
            proof {
                assert(self@.core =~= set_mode_spec(c0, p, on).0);
                assert(self@.dirty =~= old(self)@.dirty + set_mode_spec(c0, p, on).1);
            }
        } else if p == 47 || p == 1047 || p == 1049 {
            if on {
                self.op_alt_enter();
            } else {
                self.op_alt_leave();
            }
        } else if p == 1048 {
            if on {
                self.op_save();
            } else {
                self.op_restore();
            }
        } else {
            proof {
                assert(self@.dirty =~= old(self)@.dirty + set_mode_spec(c0, p, on).1);
            }
        }
    }

    /// The mode fold from index `i`, as [`set_modes_spec`].
    fn op_modes(&mut self, ps: &Vec<u16>, i: usize, on: bool)
        requires
            old(self).wf(),
            i <= ps@.len(),
        ensures
            final(self).wf(),
            final(self)@.core == set_modes_spec(old(self)@.core, ps@.skip(i as int), on).0,
            final(self)@.dirty == old(self)@.dirty + set_modes_spec(
                old(self)@.core,
                ps@.skip(i as int),
                on,
            ).1,
        decreases ps@.len() - i,
    {
        let ghost c0 = self@.core;
        let ghost tail = ps@.skip(i as int);
        if i >= ps.len() {
            proof {
                assert(tail.len() == 0);
                assert(self@.dirty =~= old(self)@.dirty + set_modes_spec(c0, tail, on).1);
            }
        } else {
            proof {
                assert(tail[0] == ps@[i as int]);
                assert(tail.drop_first() =~= ps@.skip(i + 1));
            }
            let p = ps[i];
            self.op_mode_one(p, on);
            self.op_modes(ps, i + 1, on);
            proof {
                assert(self@.dirty =~= old(self)@.dirty + set_modes_spec(c0, tail, on).1);
            }
        }
    }
}

} // verus!
