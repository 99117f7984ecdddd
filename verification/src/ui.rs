//! What the screen shows, short of drawing it: which screen fits the
//! terminal, how the on-screen keyboard and the exercise strip are laid out
//! and marked, the footer's step dots and status line, and the texts of the
//! header, the toasts and the course-complete recap.  Drawing itself is the
//! terminal front end's job.

use vstd::prelude::*;
use vstd::string::StringExecFns;
use crate::app::{
    App, CellStatus, Stage, Stats, Toast, ToastKind, STAGE_GATE_MIN_ACCURACY,
    STAGE_GATE_MIN_WPM,
};
use crate::layout::{key_table, Finger, GlyphLocation};
use crate::text::{decimal, digit_char, digit_to_char, lemma_decimal, push_char, push_decimal};

verus! {

/// The narrowest terminal anything is drawn in.
pub const MIN_WIDTH: u16 = 66;
pub const HEADER_HEIGHT: u16 = 4;
pub const KEYBOARD_HEIGHT: u16 = 19;
pub const FOOTER_HEIGHT: u16 = 5;
/// Width of a cell of the exercise strip: the key label or glyph and a
/// one-column border on each side.
pub const CELL_W: u16 = 5;
/// Width of a key of the on-screen keyboard.
pub const KB_CELL_W: u16 = 5;
/// How far each drawn row of keys is indented, like the stagger of a real
/// keyboard from the number row down.
pub const NUMBER_ROW_OFFSET: u16 = 0;
pub const TOP_ROW_OFFSET: u16 = 2;
pub const HOME_ROW_OFFSET: u16 = 4;
pub const BOTTOM_ROW_OFFSET: u16 = 6;
pub const SPACEBAR_OFFSET: u16 = 8;
pub const SPACEBAR_W: u16 = 30;

// ------------------------------------------------------- exercise strip ---

/// How many cells fit in a row of the exercise strip `inner_width` columns
/// wide (at least one).
pub open spec fn cells_per_row(inner_width: u16) -> nat {
    if inner_width / CELL_W >= 1 {
        (inner_width / CELL_W) as nat
    } else {
        1
    }
}

/// How many cells fit in a row of the exercise strip.
pub fn cells_in_row(inner_width: u16) -> (n: usize)
    ensures
        n == cells_per_row(inner_width),
{
    if inner_width / CELL_W >= 1 {
        (inner_width / CELL_W) as usize
    } else {
        1
    }
}

/// Rows of the exercise strip for `num_cells` cells: as few as hold them
/// all, and at least one.
pub open spec fn spec_exercise_row_count(num_cells: nat, inner_width: u16) -> nat {
    let per = cells_per_row(inner_width);
    let rows = num_cells / per + if num_cells % per == 0 {
        0nat
    } else {
        1nat
    };
    if rows >= 1 {
        rows
    } else {
        1
    }
}

/// How many rows the exercise strip needs to wrap `num_cells` cells into,
/// given the width inside its border.
pub fn exercise_row_count(num_cells: usize, inner_width: u16) -> (rows: usize)
    ensures
        rows == spec_exercise_row_count(num_cells as nat, inner_width),
{
    let per_row = cells_in_row(inner_width);
    let extra: usize = if num_cells % per_row == 0 {
        0
    } else {
        assert(num_cells / per_row < num_cells) by (nonlinear_arith)
            requires
                per_row >= 1,
                num_cells % per_row != 0,
        ;
        1
    };
    let rows = num_cells / per_row + extra;
    if rows >= 1 {
        rows
    } else {
        1
    }
}

/// The rows hold every cell, and no row is left empty but the one row of
/// an empty line: `rows - 1` rows would not hold them.
pub proof fn lemma_exercise_rows_hold_cells(num_cells: nat, inner_width: u16)
    ensures
        spec_exercise_row_count(num_cells, inner_width) >= 1,
        spec_exercise_row_count(num_cells, inner_width) * cells_per_row(inner_width) >= num_cells,
        num_cells > 0 ==> (spec_exercise_row_count(num_cells, inner_width) - 1) * cells_per_row(
            inner_width,
        ) < num_cells,
{
    let per = cells_per_row(inner_width);
    let q = num_cells / per;
    let r = num_cells % per;
    assert(num_cells == q * per + r && r < per) by (nonlinear_arith)
        requires
            per >= 1,
            q == num_cells / per,
            r == num_cells % per,
    ;
    let rows = spec_exercise_row_count(num_cells, inner_width);
    if r == 0 {
        if q == 0 {
            assert(num_cells == 0) by (nonlinear_arith)
                requires
                    num_cells == q * per + r,
                    q == 0,
                    r == 0,
            ;
            assert(rows == 1);
            assert(rows * per >= num_cells) by (nonlinear_arith)
                requires
                    rows == 1,
                    per >= 1,
                    num_cells == 0,
            ;
        } else {
            assert(rows == q);
            assert(rows * per >= num_cells && (rows - 1) * per < num_cells) by (nonlinear_arith)
                requires
                    rows == q,
                    num_cells == q * per,
                    per >= 1,
                    q >= 1,
            ;
        }
    } else {
        assert(rows == q + 1);
        assert(rows * per >= num_cells && (rows - 1) * per < num_cells) by (nonlinear_arith)
            requires
                rows == q + 1,
                num_cells == q * per + r,
                0 < r < per,
        ;
    }
}

/// The height of the exercise panel: three lines per row and its border.
pub open spec fn exercise_height(num_cells: nat, width: u16) -> nat {
    let inner = if width >= 2 {
        (width - 2) as u16
    } else {
        0u16
    };
    spec_exercise_row_count(num_cells, inner) * 3 + 2
}

/// The height the practice screen needs for a line of `num_cells` cells.
pub open spec fn practice_height(num_cells: nat, width: u16) -> nat {
    (HEADER_HEIGHT + KEYBOARD_HEIGHT + exercise_height(num_cells, width) + FOOTER_HEIGHT) as nat
}

/// The height of the course-complete screen: its border, title, subtitle,
/// one line per step, the controls and the blank lines between.
pub open spec fn spec_complete_screen_height(num_lessons: nat) -> nat {
    2 + 1 + 1 + 1 + 1 + num_lessons + 1 + 1
}

/// The height the course-complete screen needs.
pub fn complete_screen_height(app: &App) -> (h: u16)
    requires
        app.lessons@.len() + 8 <= u16::MAX,
    ensures
        h == spec_complete_screen_height(app.lessons@.len()),
{
    2 + 1 + 1 + 1 + 1 + app.lessons.len() as u16 + 1 + 1
}

/// Which screen is drawn.
#[derive(Debug, Clone, Copy, PartialEq, Eq, Structural)]
pub enum Screen {
    /// The terminal is too small: ask for a resize, naming the height
    /// needed.
    TooSmall(u16),
    /// The course-complete recap.
    Complete,
    /// The practice screen, with the exercise panel this many lines high.
    Practice(u16),
}

pub open spec fn spec_screen_for(app: &App, width: u16, height: u16) -> Screen {
    if app.course_complete {
        let required = spec_complete_screen_height(app.lessons@.len());
        if width < MIN_WIDTH || height < required {
            Screen::TooSmall(required as u16)
        } else {
            Screen::Complete
        }
    } else {
        let required = practice_height(app.line_view().len(), width);
        if width < MIN_WIDTH || height < required {
            Screen::TooSmall(required as u16)
        } else {
            Screen::Practice(exercise_height(app.line_view().len(), width) as u16)
        }
    }
}

/// The screen chosen fits the terminal: the recap and the practice screen
/// are only drawn in a terminal at least `MIN_WIDTH` wide and as high as
/// they need, the practice screen's exercise panel has room for every cell
/// of the line in rows of three lines, and a request to resize names a
/// height the terminal lacks (or comes of too narrow a terminal).
pub proof fn lemma_screen_fits(app: &App, width: u16, height: u16)
    requires
        app.wf(),
        app.lessons@.len() + 8 <= u16::MAX,
    ensures
        spec_screen_for(app, width, height) is Complete ==> app.course_complete && width
            >= MIN_WIDTH && height >= app.lessons@.len() + 8,
        spec_screen_for(app, width, height) is Practice ==> ({
            let h = spec_screen_for(app, width, height)->Practice_0 as int;
            let rows = (h - 2) / 3;
            &&& !app.course_complete
            &&& width >= MIN_WIDTH
            &&& HEADER_HEIGHT + KEYBOARD_HEIGHT + h + FOOTER_HEIGHT <= height
            &&& h == 3 * rows + 2
            &&& rows >= 1
            &&& rows * cells_per_row((width - 2) as u16) >= app.line_view().len()
        }),
        spec_screen_for(app, width, height) is TooSmall ==> width < MIN_WIDTH || height
            < spec_screen_for(app, width, height)->TooSmall_0,
        app.course_complete ==> !(spec_screen_for(app, width, height) is Practice),
        !app.course_complete ==> !(spec_screen_for(app, width, height) is Complete),
{
    let n = app.line_view().len();
    assert(app.lesson_view().well_formed());
    assert(app.line_view() == app.lesson_view().lines@[app.line_idx as int]@);
    let inner: u16 = if width >= 2 {
        (width - 2) as u16
    } else {
        0u16
    };
    lemma_exercise_rows_hold_cells(n, inner);
    let rows = spec_exercise_row_count(n, inner);
    if n > 0 {
        assert((rows - 1) * cells_per_row(inner) >= rows - 1) by (nonlinear_arith)
            requires
                rows >= 1,
                cells_per_row(inner) >= 1,
        ;
    }
    assert(rows <= 36);
}

/// The screen for a terminal `width` by `height`: the recap once the course
/// is complete, else the practice screen; either only if the terminal is at
/// least `MIN_WIDTH` wide and as high as that screen needs.
pub fn screen_for(app: &App, width: u16, height: u16) -> (s: Screen)
    requires
        app.wf(),
        app.lessons@.len() + 8 <= u16::MAX,
    ensures
        s == spec_screen_for(app, width, height),
{
    if app.course_complete {
        let required = complete_screen_height(app);
        if width < MIN_WIDTH || height < required {
            return Screen::TooSmall(required);
        }
        return Screen::Complete;
    }
    let n = app.current_line().len();
    proof {
        assert(app.lesson_view().well_formed());
        assert(app.line_view() == app.lesson_view().lines@[app.line_idx as int]@);
    }
    let inner = if width >= 2 {
        width - 2
    } else {
        0
    };
    let rows = exercise_row_count(n, inner);
    proof {
        lemma_exercise_rows_hold_cells(n as nat, inner);
        if n > 0 {
            assert((rows - 1) * cells_per_row(inner) >= rows - 1) by (nonlinear_arith)
                requires
                    rows >= 1,
                    cells_per_row(inner) >= 1,
            ;
        }
    }
    let exercise = rows as u16 * 3 + 2;
    let required = HEADER_HEIGHT + KEYBOARD_HEIGHT + exercise + FOOTER_HEIGHT;
    if width < MIN_WIDTH || height < required {
        Screen::TooSmall(required)
    } else {
        Screen::Practice(exercise)
    }
}

// -------------------------------------------------------------- keyboard ---

/// The width of each drawn row of keys with its indent: twelve number-row
/// keys, eleven top-row keys, nine home-row keys, ten bottom-row keys and the
/// space bar.
pub open spec fn row_widths() -> Seq<int> {
    seq![
        NUMBER_ROW_OFFSET + 12 * KB_CELL_W,
        TOP_ROW_OFFSET + 11 * KB_CELL_W,
        HOME_ROW_OFFSET + 9 * KB_CELL_W,
        BOTTOM_ROW_OFFSET + 10 * KB_CELL_W,
        SPACEBAR_OFFSET + SPACEBAR_W,
    ]
}

/// The width of the whole key grid: that of its widest row, so the grid can
/// be centred as one block.
pub fn keyboard_content_width() -> (w: u16)
    ensures
        forall|i: int| 0 <= i < row_widths().len() ==> w >= #[trigger] row_widths()[i],
        exists|i: int| 0 <= i < row_widths().len() && w == #[trigger] row_widths()[i],
{
    let widths: [u16; 5] = [
        NUMBER_ROW_OFFSET + 12 * KB_CELL_W,
        TOP_ROW_OFFSET + 11 * KB_CELL_W,
        HOME_ROW_OFFSET + 9 * KB_CELL_W,
        BOTTOM_ROW_OFFSET + 10 * KB_CELL_W,
        SPACEBAR_OFFSET + SPACEBAR_W,
    ];
    let mut w = widths[0];
    let mut i: usize = 1;
    while i < 5
        invariant
            1 <= i <= 5,
            widths@ == row_widths().map_values(|x: int| x as u16),
            forall|j: int| 0 <= j < i ==> w >= #[trigger] row_widths()[j],
            exists|j: int| 0 <= j < i && w == #[trigger] row_widths()[j],
        decreases 5 - i,
    {
        if widths[i] > w {
            w = widths[i];
        }
        i += 1;
    }
    w
}

/// Where the key grid starts inside a keyboard panel `inner_width` wide, and
/// how wide it is drawn: centred, and never wider than the panel.
pub fn keyboard_placement(inner_width: u16) -> (r: (u16, u16))
    ensures
        r.1 == (if 60 < inner_width {
            60
        } else {
            inner_width
        }),
        r.0 == (inner_width - r.1) / 2,
{
    let grid = keyboard_content_width();
    assert(grid == 60) by {
        assert(row_widths()[0] == 60);
    }
    let content_w = if grid < inner_width {
        grid
    } else {
        inner_width
    };
    ((inner_width - content_w) / 2, content_w)
}

/// The drawn rows of keys, as ranges of the key table (which lists the keys
/// in physical order), with their indents: the number row `1`..`0`, `-`,
/// `=`; the top row `q`..`p`, `[`; the home row `a`..`l`; and the bottom
/// row `z`..`m`, `,`, `.`, `/`.
pub open spec fn spec_key_row(row: int) -> (int, int, u16) {
    if row == 0 {
        (0, 12, NUMBER_ROW_OFFSET)
    } else if row == 1 {
        (12, 23, TOP_ROW_OFFSET)
    } else if row == 2 {
        (23, 32, HOME_ROW_OFFSET)
    } else {
        (32, 42, BOTTOM_ROW_OFFSET)
    }
}

/// Row `row` of the drawn keyboard: the keys from the first index up to the
/// second, and the row's indent.
pub fn key_row(row: usize) -> (r: (usize, usize, u16))
    requires
        row < 4,
    ensures
        (r.0 as int, r.1 as int, r.2) == spec_key_row(row as int),
{
    if row == 0 {
        (0, 12, NUMBER_ROW_OFFSET)
    } else if row == 1 {
        (12, 23, TOP_ROW_OFFSET)
    } else if row == 2 {
        (23, 32, HOME_ROW_OFFSET)
    } else {
        (32, 42, BOTTOM_ROW_OFFSET)
    }
}

/// The four drawn rows take every key of the table once, in order, and
/// each row's width with its indent is the width given for it in
/// `row_widths`.
pub proof fn lemma_key_rows_cover_the_table()
    ensures
        spec_key_row(0).0 == 0,
        spec_key_row(3).1 == key_table().len(),
        key_table()[11].0 == '=' && key_table()[12].0 == 'q',
        key_table()[22].0 == '[' && key_table()[23].0 == 'a',
        key_table()[31].0 == 'l' && key_table()[32].0 == 'z',
        key_table()[41].0 == '/',
        forall|r: int| 0 <= r < 3 ==> #[trigger] spec_key_row(r).1 == spec_key_row(r + 1).0,
        forall|r: int|
            0 <= r < 4 ==> #[trigger] row_widths()[r] == spec_key_row(r).2 + (spec_key_row(r).1
                - spec_key_row(r).0) * KB_CELL_W,
{
    assert(key_table().len() == 42);
}

pub open spec fn spec_shift_active(loc: Option<GlyphLocation>) -> bool {
    match loc {
        Some(l) => l.shifted,
        None => false,
    }
}

/// Whether the keyboard shows its Shift layer: the next glyph needs Shift.
/// The whole board flips together, the way a real keyboard's alternate
/// characters read once Shift is held.
pub fn shift_active(loc: Option<GlyphLocation>) -> (b: bool)
    ensures
        b == spec_shift_active(loc),
{
    match loc {
        Some(l) => l.shifted,
        None => false,
    }
}

/// The glyph a key shows: its Shift glyph while Shift is held, when it has
/// one, and its plain glyph otherwise.
pub fn key_face(base: char, shift: Option<char>, shift_active: bool) -> (c: char)
    ensures
        c == (if shift_active && shift is Some {
            shift->0
        } else {
            base
        }),
{
    if shift_active {
        match shift {
            Some(s) => s,
            None => base,
        }
    } else {
        base
    }
}

/// How a key of the on-screen keyboard is marked.
#[derive(Debug, Clone, Copy, PartialEq, Eq, Structural)]
pub enum KeyLook {
    /// The key to press next.
    Current,
    /// `f` or `j`, the keys with the homing bumps.
    Bump,
    /// Another home-row key.
    Home,
    Plain,
}

pub open spec fn spec_key_look(key: char, is_home: bool, loc: Option<GlyphLocation>) -> KeyLook {
    if loc is Some && loc->0.key == key {
        KeyLook::Current
    } else if key == 'f' || key == 'j' {
        KeyLook::Bump
    } else if is_home {
        KeyLook::Home
    } else {
        KeyLook::Plain
    }
}

/// The marking of `key` when the next glyph is at `loc`.
pub fn key_look(key: char, is_home: bool, loc: Option<GlyphLocation>) -> (k: KeyLook)
    ensures
        k == spec_key_look(key, is_home, loc),
{
    let is_current = match loc {
        Some(l) => l.key == key,
        None => false,
    };
    if is_current {
        KeyLook::Current
    } else if key == 'f' || key == 'j' {
        KeyLook::Bump
    } else if is_home {
        KeyLook::Home
    } else {
        KeyLook::Plain
    }
}

/// The key the next glyph is on is always marked as the key to press,
/// homing bump or not; otherwise `f` and `j` show their bumps, other
/// home-row keys show as home, and the rest are plain.
pub proof fn lemma_next_key_is_marked(key: char, is_home: bool, loc: Option<GlyphLocation>)
    ensures
        loc is Some && loc->0.key == key ==> spec_key_look(key, is_home, loc) == KeyLook::Current,
        spec_key_look(key, is_home, loc) == KeyLook::Current ==> loc is Some && loc->0.key == key,
        !(loc is Some && loc->0.key == key) && (key == 'f' || key == 'j') ==> spec_key_look(
            key,
            is_home,
            loc,
        ) == KeyLook::Bump,
        spec_key_look(key, is_home, loc) == KeyLook::Bump ==> key == 'f' || key == 'j',
        spec_key_look(key, is_home, loc) == KeyLook::Home ==> is_home,
        spec_key_look(key, is_home, loc) == KeyLook::Plain ==> !is_home && key != 'f' && key != 'j',
{
}

/// The legend's hint for the next glyph: the finger, with "Shift + " in
/// front when Shift is needed, or the thumb for a space.
pub open spec fn spec_finger_hint(loc: Option<GlyphLocation>) -> Seq<char> {
    match loc {
        Some(l) => if l.shifted {
            "Shift + "@ + l.finger.spec_label()
        } else {
            l.finger.spec_label()
        },
        None => "thumb (space bar)"@,
    }
}

pub fn finger_hint(loc: Option<GlyphLocation>) -> (s: String)
    ensures
        s@ == spec_finger_hint(loc),
{
    let mut s = String::new();
    match loc {
        Some(l) => {
            if l.shifted {
                s.append("Shift + ");
            }
            s.append(l.finger.label());
        },
        None => s.append("thumb (space bar)"),
    }
    s
}

// ------------------------------------------------------ exercise cells ---

/// How the frame of a cell of the exercise strip is drawn.
#[derive(Debug, Clone, Copy, PartialEq, Eq, Structural)]
pub enum CellFrame {
    /// Flashed as a wrong keystroke.
    Error,
    /// Typed correctly.
    Done,
    /// The cell to type next.
    Current,
    /// A pending space.
    Space,
    Plain,
}

pub open spec fn spec_cell_frame(status: CellStatus, is_current: bool, is_space: bool) -> CellFrame {
    match status {
        CellStatus::Error => CellFrame::Error,
        CellStatus::Done => CellFrame::Done,
        CellStatus::Pending => if is_current {
            CellFrame::Current
        } else if is_space {
            CellFrame::Space
        } else {
            CellFrame::Plain
        },
    }
}

/// The frame of a cell: its status first, then whether it is next, then
/// whether it is a space.
pub fn cell_frame(status: CellStatus, is_current: bool, is_space: bool) -> (f: CellFrame)
    ensures
        f == spec_cell_frame(status, is_current, is_space),
{
    match status {
        CellStatus::Error => CellFrame::Error,
        CellStatus::Done => CellFrame::Done,
        CellStatus::Pending => if is_current {
            CellFrame::Current
        } else if is_space {
            CellFrame::Space
        } else {
            CellFrame::Plain
        },
    }
}

/// How the glyph inside a cell is drawn.
#[derive(Debug, Clone, Copy, PartialEq, Eq, Structural)]
pub enum CellInk {
    Done,
    Error,
    Current,
    Plain,
}

pub open spec fn spec_cell_ink(status: CellStatus, is_current: bool) -> CellInk {
    match status {
        CellStatus::Done => CellInk::Done,
        CellStatus::Error => CellInk::Error,
        CellStatus::Pending => if is_current {
            CellInk::Current
        } else {
            CellInk::Plain
        },
    }
}

/// The ink of a cell's glyph: by its status, and a pending cell is
/// highlighted when it is next.
pub fn cell_ink(status: CellStatus, is_current: bool) -> (i: CellInk)
    ensures
        i == spec_cell_ink(status, is_current),
{
    match status {
        CellStatus::Done => CellInk::Done,
        CellStatus::Error => CellInk::Error,
        CellStatus::Pending => if is_current {
            CellInk::Current
        } else {
            CellInk::Plain
        },
    }
}

/// What a cell shows for its glyph: a visible mark for a space.
pub fn cell_face(glyph: char) -> (c: char)
    ensures
        c == (if glyph == ' ' {
            '\u{2423}'
        } else {
            glyph
        }),
{
    if glyph == ' ' {
        '\u{2423}'
    } else {
        glyph
    }
}

/// A cell's marks follow its status first: a wrong keystroke is flashed
/// with error marks and a typed cell shows as done, whether or not it is the
/// current cell; only a pending cell is marked as the next one to type, and
/// the current pending cell always is.
pub proof fn lemma_cell_marks_follow_status(status: CellStatus, is_current: bool, is_space: bool)
    ensures
        status == CellStatus::Error ==> spec_cell_ink(status, is_current) == CellInk::Error
            && spec_cell_frame(status, is_current, is_space) == CellFrame::Error,
        status == CellStatus::Done ==> spec_cell_ink(status, is_current) == CellInk::Done
            && spec_cell_frame(status, is_current, is_space) == CellFrame::Done,
        status == CellStatus::Pending && is_current ==> spec_cell_ink(status, is_current)
            == CellInk::Current && spec_cell_frame(status, is_current, is_space) == CellFrame::Current,
        spec_cell_ink(status, is_current) == CellInk::Current ==> status == CellStatus::Pending
            && is_current,
        spec_cell_frame(status, is_current, is_space) == CellFrame::Current ==> status
            == CellStatus::Pending && is_current,
        spec_cell_ink(status, is_current) == CellInk::Error ==> status == CellStatus::Error,
        spec_cell_frame(status, is_current, is_space) == CellFrame::Error ==> status
            == CellStatus::Error,
        spec_cell_frame(status, is_current, is_space) == CellFrame::Space ==> status
            == CellStatus::Pending && !is_current && is_space,
{
}

// ---------------------------------------------------------------- footer ---

/// The footer's dot for a step.
#[derive(Debug, Clone, Copy, PartialEq, Eq, Structural)]
pub enum StepDot {
    Current,
    Done,
    NotDone,
}

pub open spec fn spec_step_dot(i: int, step: int, done: bool) -> StepDot {
    if i == step {
        StepDot::Current
    } else if done {
        StepDot::Done
    } else {
        StepDot::NotDone
    }
}

/// The current step's dot stands out whether or not the step is done;
/// every other step shows whether it is done.
pub proof fn lemma_step_dots(i: int, step: int, done: bool)
    ensures
        i == step ==> spec_step_dot(i, step, done) == StepDot::Current,
        i != step && done ==> spec_step_dot(i, step, done) == StepDot::Done,
        i != step && !done ==> spec_step_dot(i, step, done) == StepDot::NotDone,
{
}

/// Step `i`'s dot: the current step stands out whether or not it is done.
pub fn step_dot(i: usize, step: usize, done: bool) -> (d: StepDot)
    ensures
        d == spec_step_dot(i as int, step as int, done),
{
    if i == step {
        StepDot::Current
    } else if done {
        StepDot::Done
    } else {
        StepDot::NotDone
    }
}

/// The key bindings listed in the footer.
pub const FOOTER_HINTS: &'static str = "[ ] step \u{b7} r restart \u{b7} h labels \u{b7} ctrl+s save & quit \u{b7} q quit";

/// The key bindings listed under the course-complete recap.
pub const RECAP_CONTROLS: &'static str = "r restart \u{b7} ctrl+s save & quit \u{b7} [ ] browse steps \u{b7} q quit";

/// Both lists of key bindings fit on one line inside the border of a
/// terminal `MIN_WIDTH` columns wide, so neither is ever cut short (every
/// character of them takes one column).
pub proof fn lemma_controls_fit()
    ensures
        FOOTER_HINTS@.len() + 2 <= MIN_WIDTH,
        RECAP_CONTROLS@.len() + 2 <= MIN_WIDTH,
{
    reveal_strlit("[ ] step \u{b7} r restart \u{b7} h labels \u{b7} ctrl+s save & quit \u{b7} q quit");
    reveal_strlit("r restart \u{b7} ctrl+s save & quit \u{b7} [ ] browse steps \u{b7} q quit");
}

/// The footer's status line.
#[derive(Debug, Clone, Copy, PartialEq, Eq, Structural)]
pub enum StatusLine {
    /// The toast on screen, of this kind.
    Toast(ToastKind),
    /// The hint to switch the system layout on.
    LayoutWarning,
    Blank,
}

pub open spec fn spec_status_line(toast: Option<Toast>, layout_warning: bool) -> StatusLine {
    match toast {
        Some(t) => StatusLine::Toast(t.kind),
        None => if layout_warning {
            StatusLine::LayoutWarning
        } else {
            StatusLine::Blank
        },
    }
}

/// A toast on screen is always shown, of its own kind, over the layout
/// warning; the warning shows whenever it is raised and no toast is up; the
/// line is blank only when there is neither.
pub proof fn lemma_status_line(toast: Option<Toast>, layout_warning: bool)
    ensures
        toast is Some ==> spec_status_line(toast, layout_warning) == StatusLine::Toast(
            toast->0.kind,
        ),
        toast is None && layout_warning ==> spec_status_line(toast, layout_warning)
            == StatusLine::LayoutWarning,
        spec_status_line(toast, layout_warning) == StatusLine::Blank <==> toast is None
            && !layout_warning,
{
}

/// The status line: a toast first, else the layout warning, else nothing.
pub fn status_line(app: &App) -> (l: StatusLine)
    ensures
        l == spec_status_line(app.toast, app.layout_warning),
{
    match app.toast {
        Some(t) => StatusLine::Toast(t.kind),
        None => if app.layout_warning {
            StatusLine::LayoutWarning
        } else {
            StatusLine::Blank
        },
    }
}

// ----------------------------------------------------------------- texts ---

/// `a / b` rounded to the nearest whole number, an exact half to the even
/// neighbour (the way a number is printed to a fixed number of decimals).
pub open spec fn div_round_even(a: nat, b: nat) -> nat
    recommends
        b > 0,
{
    let q = a / b;
    let r = a % b;
    if 2 * r > b {
        q + 1
    } else if 2 * r < b {
        q
    } else if q % 2 == 0 {
        q
    } else {
        q + 1
    }
}

/// Words per minute, to the nearest whole number, of `correct` keystrokes
/// in `elapsed` nanoseconds: nothing when no time has passed.
pub open spec fn wpm_whole(correct: nat, elapsed: nat) -> nat {
    if elapsed > 0 {
        div_round_even(correct * 12_000_000_000, elapsed)
    } else {
        0
    }
}

/// Words per minute in tenths, to the nearest.
pub open spec fn wpm_tenths(correct: nat, elapsed: nat) -> nat {
    if elapsed > 0 {
        div_round_even(correct * 120_000_000_000, elapsed)
    } else {
        0
    }
}

/// Accuracy in percent, to the nearest whole number: 100% before the first
/// keystroke.
pub open spec fn accuracy_whole(correct: nat, total: nat) -> nat {
    if total > 0 {
        div_round_even(correct * 100, total)
    } else {
        100
    }
}

/// Accuracy in tenths of a percent, to the nearest.
pub open spec fn accuracy_tenths(correct: nat, total: nat) -> nat {
    if total > 0 {
        div_round_even(correct * 1000, total)
    } else {
        1000
    }
}

/// A number of tenths written with one decimal.
pub open spec fn tenths_text(t: nat) -> Seq<char> {
    decimal(t / 10) + seq!['.', digit_char(t % 10)]
}

/// `s` right-aligned in `width` columns.
pub open spec fn pad_left(s: Seq<char>, width: nat) -> Seq<char> {
    if s.len() >= width {
        s
    } else {
        Seq::new((width - s.len()) as nat, |_i: int| ' ')
            + s
    }
}

/// `a / b` rounded, an exact half to even.
fn round_even(a: u128, b: u128) -> (r: u128)
    requires
        b > 0,
    ensures
        r == div_round_even(a as nat, b as nat),
{
    let q = a / b;
    let rem = a % b;
    assert(rem < b && (b == 1 ==> rem == 0)) by (nonlinear_arith)
        requires
            rem == a % b,
            b > 0,
    ;
    if rem > b - rem {
        assert(q < u128::MAX) by (nonlinear_arith)
            requires
                q == a / b,
                b >= 2,
        ;
        q + 1
    } else if rem < b - rem {
        q
    } else if q % 2 == 0 {
        q
    } else {
        assert(q < u128::MAX) by (nonlinear_arith)
            requires
                q == a / b,
                b >= 2,
        ;
        q + 1
    }
}

proof fn lemma_decimal_len(n: nat)
    ensures
        n < 10 ==> decimal(n).len() == 1,
        10 <= n < 100 ==> decimal(n).len() == 2,
        n >= 100 ==> decimal(n).len() >= 3,
{
    if n >= 10 {
        assert(decimal(n).len() == decimal(n / 10).len() + 1);
        if n >= 100 {
            assert(decimal(n / 10).len() == decimal(n / 100).len() + 1);
            lemma_decimal(n / 100);
        }
    }
}

/// Append a number of tenths with one decimal, right-aligned in five
/// columns.
fn push_tenths5(s: &mut String, t: u128)
    ensures
        final(s)@ == old(s)@ + pad_left(tenths_text(t as nat), 5),
{
    let ip = t / 10;
    proof {
        lemma_decimal_len(ip as nat);
    }
    let ghost text = tenths_text(t as nat);
    if ip < 10 {
        push_char(s, ' ');
        push_char(s, ' ');
        assert(Seq::new(2, |_i: int| ' ') =~= seq![' ', ' ']);
    } else if ip < 100 {
        push_char(s, ' ');
        assert(Seq::new(1, |_i: int| ' ') =~= seq![' ']);
    }
    push_decimal(s, ip);
    push_char(s, '.');
    push_char(s, digit_to_char((t % 10) as u64));
    assert(final(s)@ =~= old(s)@ + pad_left(text, 5));
}

/// Words per minute to the nearest whole number.
fn wpm_whole_of(correct: u32, elapsed: u64) -> (w: u128)
    ensures
        w == wpm_whole(correct as nat, elapsed as nat),
{
    if elapsed > 0 {
        round_even(correct as u128 * 12_000_000_000, elapsed as u128)
    } else {
        0
    }
}

/// Accuracy in percent to the nearest whole number.
fn accuracy_whole_of(correct: u32, total: u32) -> (a: u128)
    ensures
        a == accuracy_whole(correct as nat, total as nat),
{
    if total > 0 {
        round_even(correct as u128 * 100, total as u128)
    } else {
        100
    }
}

/// The stage's name, where there is one.
pub open spec fn stage_name(stage: Option<Stage>) -> Seq<char> {
    match stage {
        Some(st) => st.spec_label(),
        None => seq![],
    }
}

/// A toast's message: the speed and accuracy of the finished step, to whole
/// numbers from its counts, and for a retry the bar that was missed and the
/// stage to go through again.
pub open spec fn spec_toast_text(t: Toast) -> Seq<char> {
    let wpm = decimal(wpm_whole(t.correct as nat, t.elapsed as nat));
    let acc = decimal(accuracy_whole(t.correct as nat, t.total as nat));
    match t.kind {
        ToastKind::Success => "step done \u{2014} "@ + wpm + " wpm \u{b7} "@ + acc + "% acc"@,
        ToastKind::Retry => "not quite yet \u{2014} need "@ + decimal(STAGE_GATE_MIN_ACCURACY as nat)
            + "%/"@ + decimal(STAGE_GATE_MIN_WPM as nat) + "wpm, got "@ + acc + "%/"@ + wpm
            + " \u{2014} retry "@ + stage_name(t.stage),
    }
}

pub fn toast_text(t: &Toast) -> (s: String)
    ensures
        s@ == spec_toast_text(*t),
{
    let wpm = wpm_whole_of(t.correct, t.elapsed);
    let acc = accuracy_whole_of(t.correct, t.total);
    let mut s = String::new();
    match t.kind {
        ToastKind::Success => {
            s.append("step done \u{2014} ");
            push_decimal(&mut s, wpm);
            s.append(" wpm \u{b7} ");
            push_decimal(&mut s, acc);
            s.append("% acc");
        },
        ToastKind::Retry => {
            s.append("not quite yet \u{2014} need ");
            push_decimal(&mut s, STAGE_GATE_MIN_ACCURACY as u128);
            s.append("%/");
            push_decimal(&mut s, STAGE_GATE_MIN_WPM as u128);
            s.append("wpm, got ");
            push_decimal(&mut s, acc);
            s.append("%/");
            push_decimal(&mut s, wpm);
            s.append(" \u{2014} retry ");
            match t.stage {
                Some(st) => s.append(st.label()),
                None => {},
            }
        },
    }
    assert(s@ =~= spec_toast_text(*t));
    s
}

/// The header's statistics, each to one decimal in five columns: speed and
/// accuracy from the counts behind them, and how much of the step is done
/// as a percentage.
pub open spec fn spec_stats_text(st: Stats) -> Seq<char> {
    "wpm "@ + pad_left(tenths_text(wpm_tenths(st.correct as nat, st.elapsed as nat)), 5)
        + "  \u{b7}  acc "@ + pad_left(tenths_text(accuracy_tenths(st.correct as nat, st.total as nat)), 5)
        + "%  \u{b7}  done "@ + pad_left(
        tenths_text(div_round_even((st.done_chars * 1000) as nat, st.total_chars as nat)),
        5,
    ) + "%"@
}

pub fn stats_text(st: &Stats) -> (s: String)
    requires
        st.total_chars > 0,
    ensures
        s@ == spec_stats_text(*st),
{
    let mut s = String::new();
    s.append("wpm ");
    let wpm: u128 = if st.elapsed > 0 {
        round_even(st.correct as u128 * 120_000_000_000, st.elapsed as u128)
    } else {
        0
    };
    push_tenths5(&mut s, wpm);
    s.append("  \u{b7}  acc ");
    let acc: u128 = if st.total > 0 {
        round_even(st.correct as u128 * 1000, st.total as u128)
    } else {
        1000
    };
    push_tenths5(&mut s, acc);
    s.append("%  \u{b7}  done ");
    let done = round_even(st.done_chars as u128 * 1000, st.total_chars as u128);
    push_tenths5(&mut s, done);
    s.append("%");
    assert(s@ =~= spec_stats_text(*st));
    s
}

/// The header's title: the step's title and its number out of all steps.
pub open spec fn spec_header_title(title: Seq<char>, step: nat, num_steps: nat) -> Seq<char> {
    title + "  ["@ + decimal(step + 1) + "/"@ + decimal(num_steps) + "]"@
}

pub fn header_title(app: &App) -> (s: String)
    requires
        app.wf(),
    ensures
        s@ == spec_header_title(app.lesson_view().title@, app.step as nat, app.lessons@.len()),
{
    let num_steps = app.lessons.len();
    let mut s = String::new();
    s.append(app.lessons[app.step].title);
    s.append("  [");
    push_decimal(&mut s, (app.step + 1) as u128);
    s.append("/");
    push_decimal(&mut s, num_steps as u128);
    s.append("]");
    assert(s@ =~= spec_header_title(app.lesson_view().title@, app.step as nat, app.lessons@.len()));
    s
}

/// A step's line on the course-complete recap: its recorded speed and
/// accuracy (held in hundredths), each to one decimal in five columns, or a
/// dash for a step never completed.
pub open spec fn spec_recap_text(best: Option<(u64, u64)>) -> Seq<char> {
    match best {
        Some((wpm, acc)) => pad_left(tenths_text(div_round_even(wpm as nat, 10)), 5)
            + " wpm \u{b7} "@ + pad_left(tenths_text(div_round_even(acc as nat, 10)), 5) + "% acc"@,
        None => "  \u{2014}  not completed"@,
    }
}

pub fn recap_text(best: Option<(u64, u64)>) -> (s: String)
    ensures
        s@ == spec_recap_text(best),
{
    let mut s = String::new();
    match best {
        Some((wpm, acc)) => {
            push_tenths5(&mut s, round_even(wpm as u128, 10));
            s.append(" wpm \u{b7} ");
            push_tenths5(&mut s, round_even(acc as u128, 10));
            s.append("% acc");
        },
        None => s.append("  \u{2014}  not completed"),
    }
    assert(s@ =~= spec_recap_text(best));
    s
}

/// The request to resize: the size needed and the size there is.
pub open spec fn spec_too_small_text(required_height: u16, width: u16, height: u16) -> Seq<char> {
    "terminal too small \u{2014} resize (need at least "@ + decimal(MIN_WIDTH as nat) + "x"@
        + decimal(required_height as nat) + ", have "@ + decimal(width as nat) + "x"@ + decimal(
        height as nat,
    ) + ")"@
}

pub fn too_small_text(required_height: u16, width: u16, height: u16) -> (s: String)
    ensures
        s@ == spec_too_small_text(required_height, width, height),
{
    let mut s = String::new();
    s.append("terminal too small \u{2014} resize (need at least ");
    push_decimal(&mut s, MIN_WIDTH as u128);
    s.append("x");
    push_decimal(&mut s, required_height as u128);
    s.append(", have ");
    push_decimal(&mut s, width as u128);
    s.append("x");
    push_decimal(&mut s, height as u128);
    s.append(")");
    assert(s@ =~= spec_too_small_text(required_height, width, height));
    s
}


/// The gap between the header's title and its statistics: what the width
/// leaves over, and at least one column.
pub fn header_gap(width: usize, title_len: usize, stats_len: usize) -> (gap: usize)
    requires
        title_len + stats_len <= usize::MAX,
    ensures
        gap == (if width > title_len + stats_len + 1 {
            width - (title_len + stats_len)
        } else {
            1
        }),
{
    let used = title_len + stats_len;
    if width > used && width - used > 1 {
        width - used
    } else {
        1
    }
}

/// `s` left-aligned in `width` columns.
pub open spec fn pad_right(s: Seq<char>, width: nat) -> Seq<char> {
    if s.len() >= width {
        s
    } else {
        s + Seq::new((width - s.len()) as nat, |_i: int| ' ')
    }
}

/// The number of step `i` (counting from one) on the recap, right-aligned
/// in two columns and followed by two spaces.
pub fn recap_number(i: usize) -> (s: String)
    requires
        i < u64::MAX,
    ensures
        s@ == pad_left(decimal((i + 1) as nat), 2) + "  "@,
{
    let n = (i as u64) + 1;
    let mut s = String::new();
    proof {
        lemma_decimal_len(n as nat);
    }
    if n < 10 {
        push_char(&mut s, ' ');
        assert(Seq::new(1, |_i: int| ' ') =~= seq![' ']);
    }
    push_decimal(&mut s, n as u128);
    s.append("  ");
    assert(s@ =~= pad_left(decimal((i + 1) as nat), 2) + "  "@);
    s
}

/// A step's title on the recap, left-aligned in 32 columns.
pub fn recap_title(title: &str) -> (s: String)
    ensures
        s@ == pad_right(title@, 32),
{
    let mut s = String::new();
    s.append(title);
    // The title's length in characters, up to 32.
    let mut count: usize = 0;
    for c in it: title.chars()
        invariant
            it.seq() == title@,
            count == (if it.index() < 32 {
                it.index() as int
            } else {
                32
            }),
    {
        if count < 32 {
            count += 1;
        }
    }
    let ghost base = s@;
    let mut k = count;
    while k < 32
        invariant
            count == (if title@.len() < 32 {
                title@.len() as int
            } else {
                32
            }),
            base == title@,
            count <= k <= 32,
            s@ == base + Seq::new((k - count) as nat, |_i: int| ' '),
        decreases 32 - k,
    {
        push_char(&mut s, ' ');
        assert(s@ =~= base + Seq::new((k + 1 - count) as nat, |_i: int| ' '));
        k += 1;
    }
    if count == 32 {
        assert(s@ =~= base);
    }
    assert(s@ =~= pad_right(title@, 32));
    s
}

} // verus!
