//! The practice state machine: the current step, line and cell, live
//! statistics, and input handling.  Rendering and the terminal loop live
//! outside the library; they hand every event in together with the time it
//! happened (nanoseconds on a monotonic clock), and read the state back.

use vstd::prelude::*;
use crate::layout::{locate_glyph, on_layout, spec_locate_glyph};
use crate::lessons::{
    all_lessons, glyphs_on_layout, lemma_total_cells_prefix, lesson_matches, lesson_source,
    total_cells, Cell, Lesson, NUM_LESSONS,
};
use crate::save::SaveData;

verus! {

/// How long a wrong keystroke stays flashed red before reverting to
/// pending, in nanoseconds.
pub const ERROR_FLASH_NS: u64 = 200_000_000;

/// How long a toast (step done, or stage retry) stays on screen, in
/// nanoseconds.
pub const TOAST_DURATION_NS: u64 = 2_500_000_000;

/// Minimum accuracy, in percent, required on a stage's final lesson to move
/// on to the next stage.  Strict on correctness: this teaches an unfamiliar
/// script, not a race.
pub const STAGE_GATE_MIN_ACCURACY: u64 = 90;

/// Minimum speed, in words per minute, required alongside the accuracy
/// floor: a sanity floor against "correct but agonizingly slow", not a speed
/// test.
pub const STAGE_GATE_MIN_WPM: u64 = 5;

/// A group of lessons the learner must clear together before unlocking the
/// next group.  Derived purely from the step index, so nothing about it is
/// stored in the progress file.
#[derive(Debug, Clone, Copy, PartialEq, Eq, Structural)]
pub enum Stage {
    Home,
    Top,
    Bottom,
    Advanced,
}

impl Stage {
    pub open spec fn spec_label(self) -> Seq<char> {
        match self {
            Stage::Home => "Home Row"@,
            Stage::Top => "Top Row"@,
            Stage::Bottom => "Bottom Row"@,
            Stage::Advanced => "Advanced"@,
        }
    }

    pub fn label(self) -> (s: &'static str)
        ensures
            s@ == self.spec_label(),
    {
        match self {
            Stage::Home => "Home Row",
            Stage::Top => "Top Row",
            Stage::Bottom => "Bottom Row",
            Stage::Advanced => "Advanced",
        }
    }
}

/// Steps 1-6 are the home row, step 7 the top row, steps 8-10 the bottom row
/// and the rest advanced.
pub open spec fn spec_stage_of(step: int) -> Stage {
    if step <= 5 {
        Stage::Home
    } else if step == 6 {
        Stage::Top
    } else if step <= 9 {
        Stage::Bottom
    } else {
        Stage::Advanced
    }
}

/// The first step of each stage.
pub open spec fn stage_start(stage: Stage) -> int {
    match stage {
        Stage::Home => 0,
        Stage::Top => 6,
        Stage::Bottom => 7,
        Stage::Advanced => 10,
    }
}

/// The stage that step index `step` belongs to.
pub fn stage_of(step: usize) -> (s: Stage)
    ensures
        s == spec_stage_of(step as int),
{
    if step <= 5 {
        Stage::Home
    } else if step == 6 {
        Stage::Top
    } else if step <= 9 {
        Stage::Bottom
    } else {
        Stage::Advanced
    }
}

/// The first step index of the stage `step` belongs to.
pub fn stage_start_step(step: usize) -> (s: usize)
    ensures
        s == stage_start(spec_stage_of(step as int)),
{
    match stage_of(step) {
        Stage::Home => 0,
        Stage::Top => 6,
        Stage::Bottom => 7,
        Stage::Advanced => 10,
    }
}

/// `stage_of` and `stage_start_step` agree: the start of a step's stage is
/// at or before the step, every step from there to the step is in that
/// stage, and the step before the start is not.  Stages are contiguous runs
/// of steps, and bouncing back to a stage's start never leaves the stage.
pub proof fn lemma_stage_start_in_stage(step: int)
    requires
        0 <= step,
    ensures
        stage_start(spec_stage_of(step)) <= step,
        forall|k: int|
            stage_start(spec_stage_of(step)) <= k <= step ==> #[trigger] spec_stage_of(k)
                == spec_stage_of(step),
        stage_start(spec_stage_of(step)) > 0 ==> spec_stage_of(stage_start(spec_stage_of(step)) - 1)
            != spec_stage_of(step),
{
}

/// The stages of the course: steps 1 to 6 (indices 0 to 5) are the home
/// row, step 7 the top row, steps 8 to 10 the bottom row and the rest
/// advanced; each stage starts at its first step, and the stage's last
/// step is where the stage gate stands before the next stage.
pub proof fn lemma_stage_table(step: int)
    requires
        0 <= step,
    ensures
        spec_stage_of(step) == Stage::Home <==> step <= 5,
        spec_stage_of(step) == Stage::Top <==> step == 6,
        spec_stage_of(step) == Stage::Bottom <==> 7 <= step <= 9,
        spec_stage_of(step) == Stage::Advanced <==> step >= 10,
        stage_start(Stage::Home) == 0,
        stage_start(Stage::Top) == 6,
        stage_start(Stage::Bottom) == 7,
        stage_start(Stage::Advanced) == 10,
        spec_stage_of(step) != spec_stage_of(step + 1) <==> step == 5 || step == 6 || step == 9,
{
}

#[derive(Debug, Clone, Copy, PartialEq, Eq, Structural)]
pub enum ToastKind {
    /// A lesson was completed and the stage's proficiency bar was cleared.
    Success,
    /// A stage's exit lesson was completed but proficiency was not met: back
    /// to the start of the stage for another pass.
    Retry,
}

#[derive(Debug, Clone, Copy, PartialEq, Eq, Structural)]
pub enum CellStatus {
    Pending,
    Done,
    Error,
}

/// A short message shown for a while after a lesson ends: what happened,
/// the counts behind the finished attempt's statistics, the stage to retry
/// (for a retry), and when it appeared.
#[derive(Debug, Clone, Copy)]
pub struct Toast {
    pub kind: ToastKind,
    /// Correct keystrokes of the attempt.
    pub correct: u32,
    /// All keystrokes of the attempt.
    pub total: u32,
    /// How long the attempt took, in nanoseconds.
    pub elapsed: u64,
    /// The stage to retry; `None` for a success.
    pub stage: Option<Stage>,
    /// When the toast appeared, in nanoseconds.
    pub at: u64,
}

/// Live statistics of the current attempt.  Speed and accuracy are given
/// exactly by the counts behind them (`correct` of `total` keystrokes in
/// `elapsed` nanoseconds) and in hundredths, rounded to the nearest;
/// progress is the fraction `done_chars / total_chars`.
#[derive(Debug, Clone, Copy)]
pub struct Stats {
    /// Words per minute (five correct keystrokes make a word), in hundredths.
    pub wpm_centi: u64,
    /// Correct keystrokes as a percentage of all keystrokes, in hundredths.
    pub accuracy_centi: u64,
    pub correct: u32,
    pub total: u32,
    pub elapsed: u64,
    pub done_chars: usize,
    pub total_chars: usize,
}

/// `a / b` rounded to the nearest integer, halves rounded up.
pub open spec fn div_round(a: nat, b: nat) -> nat
    recommends
        b > 0,
{
    (2 * a + b) / (2 * b)
}

/// Accuracy in hundredths of a percent, rounded to the nearest: 100% before
/// the first keystroke.
pub open spec fn accuracy_centi_of(correct: nat, total: nat) -> nat {
    if total > 0 {
        div_round(correct * 10000, total)
    } else {
        10000
    }
}

/// Words per minute in hundredths after `elapsed` nanoseconds, capped at the
/// largest `u64`: nothing when no time has passed.
pub open spec fn wpm_centi_of(correct: nat, elapsed: nat) -> nat {
    if elapsed > 0 {
        let w = div_round(correct * 1_200_000_000_000, elapsed);
        if w <= u64::MAX {
            w
        } else {
            u64::MAX as nat
        }
    } else {
        0
    }
}

/// The accuracy is at least `STAGE_GATE_MIN_ACCURACY` percent, compared
/// exactly.
pub open spec fn accuracy_gate_met(correct: nat, total: nat) -> bool {
    total == 0 || correct * 100 >= STAGE_GATE_MIN_ACCURACY * total
}

/// The speed is at least `STAGE_GATE_MIN_WPM` words per minute, compared
/// exactly: `(correct / 5) / (elapsed / 60e9) >= 5`.
pub open spec fn wpm_gate_met(correct: nat, elapsed: nat) -> bool {
    elapsed > 0 && correct * 12_000_000_000 >= STAGE_GATE_MIN_WPM * elapsed
}

/// Nanoseconds since `start` at time `now` (none when the clock is behind
/// `start`, or when the attempt has not started).
pub open spec fn elapsed_since(start: Option<u64>, now: u64) -> nat {
    match start {
        Some(s) => if now >= s {
            (now - s) as nat
        } else {
            0
        },
        None => 0,
    }
}

/// The stage gate tests the speed and accuracy that the statistics report,
/// compared exactly: the speed half holds when `correct / 5` words in
/// `elapsed / 60e9` minutes make at least `STAGE_GATE_MIN_WPM` words per
/// minute, and the accuracy half when `correct / total` is at least
/// `STAGE_GATE_MIN_ACCURACY` percent.  So the reported hundredths of a
/// passed gate are at least the bar, and those of a missed one at most.
pub proof fn lemma_gate_is_the_reported_speed_and_accuracy(correct: nat, total: nat, elapsed: nat)
    ensures
        wpm_gate_met(correct, elapsed) <==> elapsed > 0 && correct * 60_000_000_000 >= 5
            * STAGE_GATE_MIN_WPM * elapsed,
        accuracy_gate_met(correct, total) <==> total == 0 || correct * 100
            >= STAGE_GATE_MIN_ACCURACY * total,
        elapsed > 0 && wpm_gate_met(correct, elapsed) ==> wpm_centi_of(correct, elapsed) >= 100
            * STAGE_GATE_MIN_WPM,
        elapsed > 0 && !wpm_gate_met(correct, elapsed) ==> wpm_centi_of(correct, elapsed) <= 100
            * STAGE_GATE_MIN_WPM,
        total > 0 && accuracy_gate_met(correct, total) ==> accuracy_centi_of(correct, total) >= 100
            * STAGE_GATE_MIN_ACCURACY,
        total > 0 && !accuracy_gate_met(correct, total) ==> accuracy_centi_of(correct, total)
            <= 100 * STAGE_GATE_MIN_ACCURACY,
{
    if elapsed > 0 {
        let a = correct * 1_200_000_000_000;
        let w = (2 * a + elapsed) / (2 * elapsed);
        assert(a >= 500 * elapsed ==> w >= 500) by (nonlinear_arith)
            requires
                w == (2 * a + elapsed) / (2 * elapsed),
                elapsed > 0,
        ;
        assert(a < 500 * elapsed ==> w <= 500) by (nonlinear_arith)
            requires
                w == (2 * a + elapsed) / (2 * elapsed),
                elapsed > 0,
        ;
    }
    if total > 0 {
        let a = correct * 10000;
        let r = (2 * a + total) / (2 * total);
        assert(a >= 9000 * total ==> r >= 9000) by (nonlinear_arith)
            requires
                r == (2 * a + total) / (2 * total),
                total > 0,
        ;
        assert(a < 9000 * total ==> r <= 9000) by (nonlinear_arith)
            requires
                r == (2 * a + total) / (2 * total),
                total > 0,
        ;
    }
}

/// The recorded statistics are the exact ones to the nearest hundredth:
/// accuracy within half a hundredth of `correct / total` percent, and speed
/// (short of the `u64` cap) within half a hundredth of `correct / 5` words
/// per `elapsed / 60e9` minutes.
pub proof fn lemma_stats_are_nearest_hundredths(correct: nat, total: nat, elapsed: nat)
    ensures
        total > 0 ==> 2 * accuracy_centi_of(correct, total) * total <= 2 * correct * 10000 + total,
        total > 0 ==> 2 * correct * 10000 < 2 * accuracy_centi_of(correct, total) * total + total,
        total == 0 ==> accuracy_centi_of(correct, total) == 10000,
        elapsed > 0 && wpm_centi_of(correct, elapsed) < u64::MAX ==> 2 * wpm_centi_of(correct, elapsed)
            * elapsed <= 2 * correct * 1_200_000_000_000 + elapsed,
        elapsed > 0 ==> 2 * correct * 1_200_000_000_000 < 2 * wpm_centi_of(correct, elapsed)
            * elapsed + elapsed || wpm_centi_of(correct, elapsed) == u64::MAX,
        elapsed == 0 ==> wpm_centi_of(correct, elapsed) == 0,
{
    if total > 0 {
        let a = correct * 10000;
        let r = (2 * a + total) / (2 * total);
        assert(2 * r * total <= 2 * a + total && 2 * a < 2 * r * total + total) by (nonlinear_arith)
            requires
                r == (2 * a + total) / (2 * total),
                total > 0,
        ;
    }
    if elapsed > 0 {
        let a = correct * 1_200_000_000_000;
        let w = (2 * a + elapsed) / (2 * elapsed);
        assert(2 * w * elapsed <= 2 * a + elapsed && 2 * a < 2 * w * elapsed + elapsed) by (nonlinear_arith)
            requires
                w == (2 * a + elapsed) / (2 * elapsed),
                elapsed > 0,
        ;
    }
}

fn accuracy_centi(correct: u32, total: u32) -> (r: u64)
    requires
        correct <= total,
    ensures
        r == accuracy_centi_of(correct as nat, total as nat),
        r <= 10000,
{
    if total > 0 {
        let a: u64 = correct as u64 * 10000;
        let r = (2 * a + total as u64) / (2 * total as u64);
        assert(r <= 10000) by (nonlinear_arith)
            requires
                r == (2 * a + total) / (2 * total),
                a == correct * 10000,
                correct <= total,
                total > 0,
        ;
        r
    } else {
        10000
    }
}

fn wpm_centi(correct: u32, elapsed: u64) -> (r: u64)
    ensures
        r == wpm_centi_of(correct as nat, elapsed as nat),
{
    if elapsed > 0 {
        let a: u128 = correct as u128 * 1_200_000_000_000;
        assert(a <= 0xffff_ffff * 1_200_000_000_000) by (nonlinear_arith)
            requires
                a == correct * 1_200_000_000_000,
                correct <= 0xffff_ffff,
        ;
        let w: u128 = (2 * a + elapsed as u128) / (2 * elapsed as u128);
        if w <= u64::MAX as u128 {
            w as u64
        } else {
            u64::MAX
        }
    } else {
        0
    }
}

fn gate_met(correct: u32, total: u32, elapsed: u64) -> (b: bool)
    ensures
        b == (accuracy_gate_met(correct as nat, total as nat) && wpm_gate_met(
            correct as nat,
            elapsed as nat,
        )),
{
    let accuracy_ok = total == 0 || correct as u64 * 100 >= 90 * total as u64;
    let wpm_ok = elapsed > 0 && correct as u128 * 12_000_000_000 >= 5 * elapsed as u128;
    accuracy_ok && wpm_ok
}

fn elapsed(start: Option<u64>, now: u64) -> (r: u64)
    ensures
        r == elapsed_since(start, now),
{
    match start {
        Some(s) => if now >= s {
            now - s
        } else {
            0
        },
        None => 0,
    }
}

/// Every cell of a line of `n` cells still to be typed.
pub open spec fn all_pending(n: nat) -> Seq<CellStatus> {
    Seq::new(n, |_i: int| CellStatus::Pending)
}

fn pending_statuses(n: usize) -> (v: Vec<CellStatus>)
    ensures
        v@ == all_pending(n as nat),
{
    let mut v: Vec<CellStatus> = Vec::new();
    let mut i: usize = 0;
    while i < n
        invariant
            i <= n,
            v@ =~= all_pending(i as nat),
        decreases n - i,
    {
        v.push(CellStatus::Pending);
        i += 1;
    }
    v
}

/// What a key press asks for, as far as the state machine cares.
#[derive(Debug, Clone, Copy, PartialEq, Eq, Structural)]
pub enum KeyCode {
    Char(char),
    Backspace,
    Left,
    Right,
    Esc,
    Other,
}

/// A key event from the terminal: the key, whether it is a press (rather
/// than a release or a repeat), and whether Control was held.
#[derive(Debug, Clone, Copy)]
pub struct KeyInput {
    pub code: KeyCode,
    pub pressed: bool,
    pub ctrl: bool,
}

/// The whole state of a practice session.
pub struct App {
    pub lessons: Vec<Lesson>,
    pub step: usize,
    pub line_idx: usize,
    pub cell_idx: usize,
    pub cell_status: Vec<CellStatus>,
    pub error_since: Option<u64>,
    pub lesson_done: Vec<bool>,
    /// Words per minute and accuracy, in hundredths, recorded the last time
    /// each step was completed; `None` for a step never finished (skipped
    /// over, say).  Shown on the course-complete screen and kept across runs.
    pub best_stats: Vec<Option<(u64, u64)>>,
    pub show_key_labels: bool,
    pub quit: bool,
    /// Set by the save-and-quit key; the event loop checks it after it stops
    /// to decide whether to write the progress file.
    pub save_and_quit: bool,
    /// Set once the very last cell of the very last step has been typed
    /// correctly; all further input is ignored until a restart or a change
    /// of step.
    pub course_complete: bool,
    pub start_time: Option<u64>,
    pub correct_keystrokes: u32,
    pub total_keystrokes: u32,
    /// Cells in the lines before the current one, for this step.
    pub chars_done_prior_lines: usize,
    pub layout_warning: bool,
    pub toast: Option<Toast>,
}

/// The start of an attempt after a keystroke at `now`: the first keystroke
/// starts the clock.
pub open spec fn started(start: Option<u64>, now: u64) -> Option<u64> {
    match start {
        Some(s) => Some(s),
        None => Some(now),
    }
}

/// No step done yet.
pub open spec fn none_done(n: nat) -> Seq<bool> {
    Seq::new(n, |_i: int| false)
}

/// No statistics recorded yet.
pub open spec fn no_stats(n: nat) -> Seq<Option<(u64, u64)>> {
    Seq::new(n, |_i: int| None)
}

impl App {
    /// The lesson of the current step.
    pub open spec fn lesson_view(&self) -> Lesson {
        self.lessons@[self.step as int]
    }

    /// The cells of the current line.
    pub open spec fn line_view(&self) -> Seq<Cell> {
        self.lesson_view().lines@[self.line_idx as int]@
    }

    /// The cell the learner must type next.
    pub open spec fn target(&self) -> Cell {
        self.line_view()[self.cell_idx as int]
    }

    /// The state is consistent: the step, line and cell point into the
    /// lessons (the cell index never runs past the end of its line), there
    /// is one status per cell of the line and one record per step, and the
    /// counters agree with the position.
    pub open spec fn wf(&self) -> bool {
        &&& self.lessons@.len() > 0
        &&& forall|i: int| 0 <= i < self.lessons@.len() ==> (#[trigger] self.lessons@[i]).well_formed()
        &&& self.step < self.lessons@.len()
        &&& self.line_idx < self.lesson_view().lines@.len()
        &&& self.cell_idx < self.line_view().len()
        &&& self.cell_status@.len() == self.line_view().len()
        &&& self.lesson_done@.len() == self.lessons@.len()
        &&& self.best_stats@.len() == self.lessons@.len()
        &&& self.chars_done_prior_lines == total_cells(self.lesson_view().lines_view().take(self.line_idx as int))
        &&& self.correct_keystrokes <= self.total_keystrokes
    }

    /// A fresh attempt at step `step`: first line, first cell, nothing typed.
    pub open spec fn at_step_start(&self, step: int) -> bool {
        &&& self.step == step
        &&& self.line_idx == 0
        &&& self.cell_idx == 0
        &&& self.cell_status@ == all_pending(self.lessons@[step].lines@[0]@.len())
        &&& self.error_since is None
        &&& self.start_time is None
        &&& self.correct_keystrokes == 0
        &&& self.total_keystrokes == 0
        &&& self.chars_done_prior_lines == 0
        &&& !self.layout_warning
        &&& !self.course_complete
    }

    /// The lessons and the session flags are those of `o`.
    pub open spec fn same_settings(&self, o: &App) -> bool {
        &&& self.lessons@ == o.lessons@
        &&& self.show_key_labels == o.show_key_labels
        &&& self.quit == o.quit
        &&& self.save_and_quit == o.save_and_quit
    }

    /// Which steps are done, and their recorded statistics, are those of `o`.
    pub open spec fn same_record(&self, o: &App) -> bool {
        &&& self.lesson_done@ == o.lesson_done@
        &&& self.best_stats@ == o.best_stats@
    }

    /// Position, statuses, timers, counters and warnings are those of `o`.
    pub open spec fn same_attempt(&self, o: &App) -> bool {
        &&& self.step == o.step
        &&& self.line_idx == o.line_idx
        &&& self.cell_idx == o.cell_idx
        &&& self.cell_status@ == o.cell_status@
        &&& self.error_since == o.error_since
        &&& self.start_time == o.start_time
        &&& self.correct_keystrokes == o.correct_keystrokes
        &&& self.total_keystrokes == o.total_keystrokes
        &&& self.chars_done_prior_lines == o.chars_done_prior_lines
        &&& self.layout_warning == o.layout_warning
        &&& self.course_complete == o.course_complete
    }

    /// A new session on the full course, at the first cell of step 1, with
    /// nothing done.
    pub fn new() -> (app: App)
        ensures
            app.wf(),
            app.lessons@.len() == NUM_LESSONS,
            forall|i: int| 0 <= i < NUM_LESSONS ==> lesson_matches(#[trigger] app.lessons@[i], lesson_source(i)),
            forall|i: int| 0 <= i < NUM_LESSONS ==> glyphs_on_layout(#[trigger] app.lessons@[i]),
            app.at_step_start(0),
            app.lesson_done@ == none_done(NUM_LESSONS as nat),
            app.best_stats@ == no_stats(NUM_LESSONS as nat),
            app.show_key_labels,
            !app.quit,
            !app.save_and_quit,
            app.toast is None,
    {
        let lessons = all_lessons();
        let n = lessons.len();
        let mut lesson_done: Vec<bool> = Vec::new();
        let mut best_stats: Vec<Option<(u64, u64)>> = Vec::new();
        let mut i: usize = 0;
        while i < n
            invariant
                i <= n,
                lesson_done@ =~= none_done(i as nat),
                best_stats@ =~= no_stats(i as nat),
            decreases n - i,
        {
            lesson_done.push(false);
            best_stats.push(None);
            i += 1;
        }
        let cell_status = pending_statuses(lessons[0].lines[0].len());
        let app = App {
            lessons,
            step: 0,
            line_idx: 0,
            cell_idx: 0,
            cell_status,
            error_since: None,
            lesson_done,
            best_stats,
            show_key_labels: true,
            quit: false,
            save_and_quit: false,
            course_complete: false,
            start_time: None,
            correct_keystrokes: 0,
            total_keystrokes: 0,
            chars_done_prior_lines: 0,
            layout_warning: false,
            toast: None,
        };
        assert(app.lesson_view().lines_view().take(0) =~= Seq::<Seq<Cell>>::empty());
        app
    }

    /// Save-and-quit: stop the event loop and write the progress file.
    pub fn request_save_and_quit(&mut self)
        ensures
            final(self).save_and_quit,
            final(self).quit,
            final(self).lessons@ == old(self).lessons@,
            final(self).show_key_labels == old(self).show_key_labels,
            final(self).same_record(&*old(self)),
            final(self).same_attempt(&*old(self)),
            final(self).toast == old(self).toast,
    {
        self.save_and_quit = true;
        self.quit = true;
    }

    /// The lesson of the current step.
    pub fn lesson(&self) -> (l: &Lesson)
        requires
            self.wf(),
        ensures
            *l == self.lesson_view(),
    {
        &self.lessons[self.step]
    }

    /// The cells of the current line.
    pub fn current_line(&self) -> (line: &[Cell])
        requires
            self.wf(),
        ensures
            line@ == self.line_view(),
    {
        self.lessons[self.step].lines[self.line_idx].as_slice()
    }

    /// The cell the learner must type next.
    pub fn current_cell(&self) -> (cell: Cell)
        requires
            self.wf(),
        ensures
            cell == self.target(),
    {
        self.lessons[self.step].lines[self.line_idx][self.cell_idx]
    }

    fn reset_line_status(&mut self)
        requires
            old(self).step < old(self).lessons@.len(),
            old(self).line_idx < old(self).lesson_view().lines@.len(),
        ensures
            final(self).cell_status@ == all_pending(final(self).line_view().len()),
            final(self).cell_idx == 0,
            final(self).error_since is None,
            final(self).lessons == old(self).lessons,
            final(self).step == old(self).step,
            final(self).line_idx == old(self).line_idx,
            final(self).lesson_done == old(self).lesson_done,
            final(self).best_stats == old(self).best_stats,
            final(self).show_key_labels == old(self).show_key_labels,
            final(self).quit == old(self).quit,
            final(self).save_and_quit == old(self).save_and_quit,
            final(self).course_complete == old(self).course_complete,
            final(self).start_time == old(self).start_time,
            final(self).correct_keystrokes == old(self).correct_keystrokes,
            final(self).total_keystrokes == old(self).total_keystrokes,
            final(self).chars_done_prior_lines == old(self).chars_done_prior_lines,
            final(self).layout_warning == old(self).layout_warning,
            final(self).toast == old(self).toast,
    {
        let n = self.lessons[self.step].lines[self.line_idx].len();
        self.cell_status = pending_statuses(n);
        self.cell_idx = 0;
        self.error_since = None;
    }

    /// Reset all progress and statistics of the current step.
    fn reset_step(&mut self)
        requires
            old(self).step < old(self).lessons@.len(),
            old(self).lessons@[old(self).step as int].well_formed(),
        ensures
            final(self).at_step_start(old(self).step as int),
            final(self).same_settings(&*old(self)),
            final(self).same_record(&*old(self)),
            final(self).toast == old(self).toast,
    {
        self.line_idx = 0;
        self.chars_done_prior_lines = 0;
        self.start_time = None;
        self.correct_keystrokes = 0;
        self.total_keystrokes = 0;
        self.layout_warning = false;
        self.course_complete = false;
        self.reset_line_status();
    }

    proof fn lemma_step_start_wf(&self)
        requires
            self.lessons@.len() > 0,
            forall|i: int| 0 <= i < self.lessons@.len() ==> (#[trigger] self.lessons@[i]).well_formed(),
            self.step < self.lessons@.len(),
            self.at_step_start(self.step as int),
            self.lesson_done@.len() == self.lessons@.len(),
            self.best_stats@.len() == self.lessons@.len(),
        ensures
            self.wf(),
    {
        assert(self.lessons@[self.step as int].well_formed());
        assert(self.lessons@[self.step as int].lines@[0]@.len() > 0);
        assert(self.lesson_view().lines_view().take(0) =~= Seq::<Seq<Cell>>::empty());
    }

    /// Start the current step over.
    pub fn restart_step(&mut self)
        requires
            old(self).wf(),
        ensures
            final(self).wf(),
            final(self).at_step_start(old(self).step as int),
            final(self).same_settings(&*old(self)),
            final(self).same_record(&*old(self)),
            final(self).toast is None,
    {
        self.reset_step();
        self.toast = None;
        proof {
            self.lemma_step_start_wf();
        }
    }

    /// Jump to step `step` (clamped to the last step) and start it over.
    pub fn goto_step(&mut self, step: usize)
        requires
            old(self).wf(),
        ensures
            final(self).wf(),
            final(self).at_step_start(
                if step < old(self).lessons@.len() {
                    step as int
                } else {
                    old(self).lessons@.len() - 1
                },
            ),
            final(self).same_settings(&*old(self)),
            final(self).same_record(&*old(self)),
            final(self).toast is None,
    {
        let last = self.lessons.len() - 1;
        self.step = if step < last {
            step
        } else {
            last
        };
        self.reset_step();
        self.toast = None;
        proof {
            self.lemma_step_start_wf();
        }
    }

    /// This state is the end of the step of `o` once its last cell has been
    /// typed correctly at time `now`, where `status`, `correct`, `total` and
    /// `start` are the statuses, counters and start time after that
    /// keystroke.  The step is marked done and its statistics recorded; then
    /// - finishing a stage's last step without the accuracy and speed the
    ///   gate asks for goes back to the first step of that stage, with a
    ///   retry toast;
    /// - otherwise a step that has a next step moves on to it, with a success
    ///   toast;
    /// - and the last step of the course completes the course in place.
    pub open spec fn finished(
        &self,
        o: &App,
        status: Seq<CellStatus>,
        correct: nat,
        total: nat,
        start: Option<u64>,
        now: u64,
    ) -> bool {
        let elapsed = elapsed_since(start, now);
        let wpm = wpm_centi_of(correct, elapsed);
        let accuracy = accuracy_centi_of(correct, total);
        let has_next = o.step + 1 < o.lessons@.len();
        let stage = spec_stage_of(o.step as int);
        let crossing = has_next && stage != spec_stage_of(o.step + 1);
        let passed = accuracy_gate_met(correct, total) && wpm_gate_met(correct, elapsed);
        &&& self.same_settings(o)
        &&& self.lesson_done@ == o.lesson_done@.update(o.step as int, true)
        &&& self.best_stats@ == o.best_stats@.update(o.step as int, Some((wpm as u64, accuracy as u64)))
        &&& crossing && !passed ==> {
            &&& self.at_step_start(stage_start(stage))
            &&& self.toast == Some(
                Toast {
                    kind: ToastKind::Retry,
                    correct: correct as u32,
                    total: total as u32,
                    elapsed: elapsed as u64,
                    stage: Some(stage),
                    at: now,
                },
            )
        }
        &&& !(crossing && !passed) ==> self.toast == Some(
            Toast {
                kind: ToastKind::Success,
                correct: correct as u32,
                total: total as u32,
                elapsed: elapsed as u64,
                stage: None,
                at: now,
            },
        )
        &&& !(crossing && !passed) && has_next ==> self.at_step_start(o.step + 1)
        &&& !has_next ==> {
            &&& self.course_complete
            &&& self.step == o.step
            &&& self.line_idx == o.line_idx
            &&& self.cell_idx == o.cell_idx
            &&& self.cell_status@ == status
            &&& self.error_since is None
            &&& self.start_time == start
            &&& self.correct_keystrokes == correct
            &&& self.total_keystrokes == total
            &&& self.chars_done_prior_lines == o.chars_done_prior_lines
            &&& !self.layout_warning
        }
    }

    /// This state follows the state `o` once its current cell has been typed
    /// correctly at time `now` (`status`, `correct`, `total` and `start` as
    /// in `finished`): the next cell of the line, else the first cell of the
    /// next line, else the end of the step.
    pub open spec fn advanced(
        &self,
        o: &App,
        status: Seq<CellStatus>,
        correct: nat,
        total: nat,
        start: Option<u64>,
        now: u64,
    ) -> bool {
        let line_len = o.line_view().len();
        let lines = o.lesson_view().lines@.len();
        &&& o.cell_idx + 1 < line_len ==> {
            &&& self.same_settings(o)
            &&& self.same_record(o)
            &&& self.toast == o.toast
            &&& self.step == o.step
            &&& self.line_idx == o.line_idx
            &&& self.cell_idx == o.cell_idx + 1
            &&& self.cell_status@ == status
            &&& self.error_since is None
            &&& self.start_time == start
            &&& self.correct_keystrokes == correct
            &&& self.total_keystrokes == total
            &&& self.chars_done_prior_lines == o.chars_done_prior_lines
            &&& !self.layout_warning
            &&& !self.course_complete
        }
        &&& o.cell_idx + 1 >= line_len && o.line_idx + 1 < lines ==> {
            &&& self.same_settings(o)
            &&& self.same_record(o)
            &&& self.toast == o.toast
            &&& self.step == o.step
            &&& self.line_idx == o.line_idx + 1
            &&& self.cell_idx == 0
            &&& self.cell_status@ == all_pending(self.line_view().len())
            &&& self.error_since is None
            &&& self.start_time == start
            &&& self.correct_keystrokes == correct
            &&& self.total_keystrokes == total
            &&& self.chars_done_prior_lines == o.chars_done_prior_lines + line_len
            &&& !self.layout_warning
            &&& !self.course_complete
        }
        &&& o.cell_idx + 1 >= line_len && o.line_idx + 1 >= lines ==> self.finished(
            o,
            status,
            correct,
            total,
            start,
            now,
        )
    }

    /// This state is the state `o` with its current cell flashed as wrong at
    /// time `now`, after a keystroke that counts against accuracy; `warning`
    /// is the new layout warning and `start` the new start time.
    pub open spec fn flashed_error(&self, o: &App, warning: bool, start: Option<u64>, now: u64) -> bool {
        &&& self.same_settings(o)
        &&& self.same_record(o)
        &&& self.toast == o.toast
        &&& self.step == o.step
        &&& self.line_idx == o.line_idx
        &&& self.cell_idx == o.cell_idx
        &&& self.cell_status@ == o.cell_status@.update(o.cell_idx as int, CellStatus::Error)
        &&& self.error_since == Some(now)
        &&& self.start_time == start
        &&& self.correct_keystrokes == o.correct_keystrokes
        &&& self.total_keystrokes == o.total_keystrokes + 1
        &&& self.chars_done_prior_lines == o.chars_done_prior_lines
        &&& self.layout_warning == warning
        &&& self.course_complete == o.course_complete
    }

    proof fn lemma_next_line_prior(&self)
        requires
            self.wf(),
            self.line_idx + 1 < self.lesson_view().lines@.len(),
        ensures
            total_cells(self.lesson_view().lines_view().take(self.line_idx + 1)) == self.chars_done_prior_lines
                + self.line_view().len(),
    {
        let lines = self.lesson_view().lines_view();
        assert(lines.take(self.line_idx + 1).drop_last() =~= lines.take(self.line_idx as int));
        assert(lines[self.line_idx as int] == self.line_view());
    }

    /// The end of a step: record it, then gate, advance, or complete the
    /// course.
    fn finish_lesson(&mut self, now: u64)
        requires
            old(self).wf(),
            old(self).line_idx + 1 == old(self).lesson_view().lines@.len(),
            old(self).cell_idx + 1 == old(self).line_view().len(),
            old(self).error_since is None,
            !old(self).layout_warning,
            !old(self).course_complete,
        ensures
            final(self).wf(),
            final(self).finished(
                &*old(self),
                old(self).cell_status@,
                old(self).correct_keystrokes as nat,
                old(self).total_keystrokes as nat,
                old(self).start_time,
                now,
            ),
    {
        let el = elapsed(self.start_time, now);
        let correct = self.correct_keystrokes;
        let total = self.total_keystrokes;
        let wpm = wpm_centi(self.correct_keystrokes, el);
        let accuracy = accuracy_centi(self.correct_keystrokes, self.total_keystrokes);
        let passed = gate_met(self.correct_keystrokes, self.total_keystrokes, el);
        self.lesson_done.set(self.step, true);
        self.best_stats.set(self.step, Some((wpm, accuracy)));
        let has_next = self.step < self.lessons.len() - 1;
        let stage = stage_of(self.step);
        let crossing_stage = has_next && stage != stage_of(self.step + 1);
        if crossing_stage && !passed {
            // The stage's exit lesson was typed correctly but not proficiently
            // enough: back to the start of this stage for another pass.
            let restart_to = stage_start_step(self.step);
            self.goto_step(restart_to);
            self.toast = Some(
                Toast {
                    kind: ToastKind::Retry,
                    correct,
                    total,
                    elapsed: el,
                    stage: Some(stage),
                    at: now,
                },
            );
            return;
        }
        let toast = Some(
            Toast {
                kind: ToastKind::Success,
                correct,
                total,
                elapsed: el,
                stage: None,
                at: now,
            },
        );
        if has_next {
            self.goto_step(self.step + 1);
            self.toast = toast;
        } else {
            // No next step: stay on the last cell and stop taking input.
            self.toast = toast;
            self.course_complete = true;
        }
    }

    /// Move past the current cell, which has just been typed correctly.
    fn advance(&mut self, now: u64)
        requires
            old(self).wf(),
            old(self).error_since is None,
            !old(self).layout_warning,
            !old(self).course_complete,
        ensures
            final(self).wf(),
            final(self).advanced(
                &*old(self),
                old(self).cell_status@,
                old(self).correct_keystrokes as nat,
                old(self).total_keystrokes as nat,
                old(self).start_time,
                now,
            ),
    {
        let line_len = self.lessons[self.step].lines[self.line_idx].len();
        if self.cell_idx + 1 < line_len {
            self.cell_idx += 1;
            return;
        }
        // The line is finished.
        let num_lines = self.lessons[self.step].lines.len();
        if self.line_idx < num_lines - 1 {
            proof {
                self.lemma_next_line_prior();
                lemma_total_cells_prefix(self.lesson_view().lines_view(), self.line_idx + 1);
            }
            self.chars_done_prior_lines += line_len;
            self.line_idx += 1;
            self.reset_line_status();
            proof {
                assert(self.lesson_view().well_formed());
                assert(self.line_view().len() > 0);
            }
        } else {
            self.finish_lesson(now);
        }
    }

    fn mark_error(&mut self, now: u64)
        requires
            old(self).cell_idx < old(self).cell_status@.len(),
        ensures
            final(self).cell_status@ == old(self).cell_status@.update(
                old(self).cell_idx as int,
                CellStatus::Error,
            ),
            final(self).error_since == Some(now),
            final(self).lessons == old(self).lessons,
            final(self).step == old(self).step,
            final(self).line_idx == old(self).line_idx,
            final(self).cell_idx == old(self).cell_idx,
            final(self).lesson_done == old(self).lesson_done,
            final(self).best_stats == old(self).best_stats,
            final(self).show_key_labels == old(self).show_key_labels,
            final(self).quit == old(self).quit,
            final(self).save_and_quit == old(self).save_and_quit,
            final(self).course_complete == old(self).course_complete,
            final(self).start_time == old(self).start_time,
            final(self).correct_keystrokes == old(self).correct_keystrokes,
            final(self).total_keystrokes == old(self).total_keystrokes,
            final(self).chars_done_prior_lines == old(self).chars_done_prior_lines,
            final(self).layout_warning == old(self).layout_warning,
            final(self).toast == old(self).toast,
    {
        self.cell_status.set(self.cell_idx, CellStatus::Error);
        self.error_since = Some(now);
    }

    /// React to a typed character at time `now`.  Once the course is complete
    /// typing is ignored.  A character no key of the layout produces means
    /// the system layout is probably not active: it raises the layout
    /// warning and counts as a wrong keystroke.  Otherwise the keystroke
    /// starts the clock if it is the first; the expected glyph marks the cell
    /// done and moves on, anything else flashes the cell as wrong.
    pub fn handle_char(&mut self, c: char, now: u64)
        requires
            old(self).wf(),
            !old(self).course_complete ==> old(self).total_keystrokes < u32::MAX,
        ensures
            final(self).wf(),
            old(self).course_complete ==> *final(self) == *old(self),
            !old(self).course_complete && !on_layout(c) ==> final(self).flashed_error(
                &*old(self),
                true,
                old(self).start_time,
                now,
            ),
            !old(self).course_complete && on_layout(c) && c != old(self).target().glyph
                ==> final(self).flashed_error(&*old(self), false, started(old(self).start_time, now), now),
            !old(self).course_complete && on_layout(c) && c == old(self).target().glyph
                ==> final(self).advanced(
                &*old(self),
                old(self).cell_status@.update(old(self).cell_idx as int, CellStatus::Done),
                (old(self).correct_keystrokes + 1) as nat,
                (old(self).total_keystrokes + 1) as nat,
                started(old(self).start_time, now),
                now,
            ),
    {
        if self.course_complete {
            return;
        }
        // Every real key of the layout produces a syllabic, one of the plain
        // ASCII marks it also emits, or a space; anything else means the
        // system layout probably is not active.
        if c != ' ' && locate_glyph(c).is_none() {
            self.layout_warning = true;
            self.total_keystrokes += 1;
            self.mark_error(now);
            return;
        }
        self.layout_warning = false;
        if self.start_time.is_none() {
            self.start_time = Some(now);
        }
        let target = self.current_cell().glyph;
        self.total_keystrokes += 1;
        if c == target {
            self.correct_keystrokes += 1;
            self.cell_status.set(self.cell_idx, CellStatus::Done);
            self.error_since = None;
            self.advance(now);
        } else {
            self.mark_error(now);
        }
    }

    /// Step back one cell, making it pending again.  Ignored once the
    /// course is complete.
    pub fn handle_backspace(&mut self)
        requires
            old(self).wf(),
        ensures
            final(self).wf(),
            final(self).backspaced(&*old(self)),
    {
        if !self.course_complete && self.cell_idx > 0 {
            self.cell_idx -= 1;
            self.cell_status.set(self.cell_idx, CellStatus::Pending);
            self.error_since = None;
        }
    }

    /// This state is `o` at time `now` once an error flash older than
    /// `ERROR_FLASH_NS` has reverted its cell to pending and a toast older
    /// than `TOAST_DURATION_NS` has gone; younger ones stay.
    pub open spec fn expired(&self, o: &App, now: u64) -> bool {
        let flash_over = o.error_since is Some && elapsed_since(o.error_since, now) >= ERROR_FLASH_NS;
        let toast_over = o.toast is Some && elapsed_since(Some(o.toast.unwrap().at), now)
            >= TOAST_DURATION_NS;
        &&& flash_over ==> self.cell_status@ == o.cell_status@.update(
            o.cell_idx as int,
            CellStatus::Pending,
        ) && self.error_since is None
        &&& !flash_over ==> self.cell_status@ == o.cell_status@ && self.error_since == o.error_since
        &&& toast_over ==> self.toast is None
        &&& !toast_over ==> self.toast == o.toast
    }

    /// A wrong keystroke stays flashed for 200 ms and no longer, and a toast
    /// stays up for 2.5 s and no longer, measured from when each appeared.
    pub proof fn lemma_flash_and_toast_timing(&self, o: &App, now: u64)
        requires
            self.expired(o, now),
        ensures
            o.error_since is Some && now >= o.error_since->0 + 200_000_000 ==> self.error_since is None
                && self.cell_status@ == o.cell_status@.update(o.cell_idx as int, CellStatus::Pending),
            o.error_since is Some && now < o.error_since->0 + 200_000_000 ==> self.error_since
                == o.error_since && self.cell_status@ == o.cell_status@,
            o.error_since is None ==> self.error_since is None && self.cell_status@ == o.cell_status@,
            o.toast is Some && now >= o.toast->0.at + 2_500_000_000 ==> self.toast is None,
            o.toast is Some && now < o.toast->0.at + 2_500_000_000 ==> self.toast == o.toast,
            o.toast is None ==> self.toast is None,
    {
    }

    /// Periodic tick at time `now`, independent of key events: an error
    /// flash older than `ERROR_FLASH_NS` reverts its cell to pending, and a
    /// toast older than `TOAST_DURATION_NS` disappears.
    pub fn tick(&mut self, now: u64)
        requires
            old(self).wf(),
        ensures
            final(self).wf(),
            final(self).same_settings(&*old(self)),
            final(self).same_record(&*old(self)),
            final(self).step == old(self).step,
            final(self).line_idx == old(self).line_idx,
            final(self).cell_idx == old(self).cell_idx,
            final(self).start_time == old(self).start_time,
            final(self).correct_keystrokes == old(self).correct_keystrokes,
            final(self).total_keystrokes == old(self).total_keystrokes,
            final(self).chars_done_prior_lines == old(self).chars_done_prior_lines,
            final(self).layout_warning == old(self).layout_warning,
            final(self).course_complete == old(self).course_complete,
            final(self).expired(&*old(self), now),
    {
        if let Some(since) = self.error_since {
            if elapsed(Some(since), now) >= ERROR_FLASH_NS {
                self.cell_status.set(self.cell_idx, CellStatus::Pending);
                self.error_since = None;
            }
        }
        let expire_toast = match &self.toast {
            Some(t) => elapsed(Some(t.at), now) >= TOAST_DURATION_NS,
            None => false,
        };
        if expire_toast {
            self.toast = None;
        }
    }

    /// React to a key event at time `now`: only presses count; a character
    /// is typed, Backspace steps back, anything else is ignored.  Once the
    /// course is complete every key is ignored.
    pub fn handle_key(&mut self, key: KeyInput, now: u64)
        requires
            old(self).wf(),
            key.pressed && key.code is Char && !old(self).course_complete
                ==> old(self).total_keystrokes < u32::MAX,
        ensures
            final(self).wf(),
            !key.pressed ==> *final(self) == *old(self),
            old(self).course_complete ==> *final(self) == *old(self),
            key.pressed && key.code is Char ==> final(self).typed(&*old(self), key.code->Char_0, now),
            key.pressed && key.code is Backspace ==> final(self).backspaced(&*old(self)),
            key.pressed && !(key.code is Char) && !(key.code is Backspace) ==> *final(self)
                == *old(self),
    {
        if !key.pressed {
            return;
        }
        match key.code {
            KeyCode::Char(c) => self.handle_char(c, now),
            KeyCode::Backspace => self.handle_backspace(),
            _ => {},
        }
    }

    /// The live statistics at time `now`.  Progress counts the cells before
    /// the current one in this step, and is complete once the course is.
    pub fn stats(&self, now: u64) -> (s: Stats)
        requires
            self.wf(),
        ensures
            s.total_chars == if total_cells(self.lesson_view().lines_view()) > 0 {
                total_cells(self.lesson_view().lines_view())
            } else {
                1
            },
            s.done_chars == if self.course_complete {
                s.total_chars as int
            } else {
                self.chars_done_prior_lines + self.cell_idx
            },
            s.done_chars <= s.total_chars,
            s.accuracy_centi == accuracy_centi_of(
                self.correct_keystrokes as nat,
                self.total_keystrokes as nat,
            ),
            s.accuracy_centi <= 10000,
            s.correct == self.correct_keystrokes,
            s.total == self.total_keystrokes,
            s.elapsed == elapsed_since(self.start_time, now),
            s.wpm_centi == wpm_centi_of(
                self.correct_keystrokes as nat,
                elapsed_since(self.start_time, now),
            ),
    {
        let total = self.lessons[self.step].total_chars();
        let total_chars = if total > 0 {
            total
        } else {
            1
        };
        proof {
            let lines = self.lesson_view().lines_view();
            lemma_total_cells_prefix(lines, self.line_idx + 1);
            assert(lines.take(self.line_idx + 1).drop_last() =~= lines.take(self.line_idx as int));
            assert(lines[self.line_idx as int] == self.line_view());
        }
        let done_chars = if self.course_complete {
            total_chars
        } else {
            self.chars_done_prior_lines + self.cell_idx
        };
        let accuracy_centi = accuracy_centi(self.correct_keystrokes, self.total_keystrokes);
        let el = elapsed(self.start_time, now);
        let wpm_centi = wpm_centi(self.correct_keystrokes, el);
        Stats {
            wpm_centi,
            accuracy_centi,
            correct: self.correct_keystrokes,
            total: self.total_keystrokes,
            elapsed: el,
            done_chars,
            total_chars,
        }
    }

    /// The state after typing `c` at time `now` in the state `o`, as
    /// `handle_char` describes it.
    pub open spec fn typed(&self, o: &App, c: char, now: u64) -> bool {
        &&& o.course_complete ==> *self == *o
        &&& !o.course_complete && !on_layout(c) ==> self.flashed_error(o, true, o.start_time, now)
        &&& !o.course_complete && on_layout(c) && c != o.target().glyph ==> self.flashed_error(
            o,
            false,
            started(o.start_time, now),
            now,
        )
        &&& !o.course_complete && on_layout(c) && c == o.target().glyph ==> self.advanced(
            o,
            o.cell_status@.update(o.cell_idx as int, CellStatus::Done),
            (o.correct_keystrokes + 1) as nat,
            (o.total_keystrokes + 1) as nat,
            started(o.start_time, now),
            now,
        )
    }

    /// The state after Backspace in the state `o`, as `handle_backspace`
    /// describes it.
    pub open spec fn backspaced(&self, o: &App) -> bool {
        &&& o.course_complete ==> *self == *o
        &&& self.same_settings(o)
        &&& self.same_record(o)
        &&& self.toast == o.toast
        &&& o.cell_idx == 0 ==> self.same_attempt(o)
        &&& !o.course_complete && o.cell_idx > 0 ==> {
            &&& self.cell_idx == o.cell_idx - 1
            &&& self.cell_status@ == o.cell_status@.update(o.cell_idx - 1, CellStatus::Pending)
            &&& self.error_since is None
            &&& self.step == o.step
            &&& self.line_idx == o.line_idx
            &&& self.start_time == o.start_time
            &&& self.correct_keystrokes == o.correct_keystrokes
            &&& self.total_keystrokes == o.total_keystrokes
            &&& self.chars_done_prior_lines == o.chars_done_prior_lines
            &&& self.layout_warning == o.layout_warning
            &&& self.course_complete == o.course_complete
        }
    }

    /// Take up progress read from the progress file: which steps are done,
    /// their statistics, and the step to resume on (held to the last step),
    /// started afresh.
    pub fn apply_save(&mut self, data: SaveData)
        requires
            old(self).wf(),
            data.lesson_done@.len() == old(self).lessons@.len(),
            data.best_stats@.len() == old(self).lessons@.len(),
        ensures
            final(self).wf(),
            final(self).at_step_start(
                if data.step < old(self).lessons@.len() {
                    data.step as int
                } else {
                    old(self).lessons@.len() - 1
                },
            ),
            final(self).same_settings(&*old(self)),
            final(self).lesson_done@ == data.lesson_done@,
            final(self).best_stats@ == data.best_stats@,
            final(self).toast is None,
    {
        self.lesson_done = data.lesson_done;
        self.best_stats = data.best_stats;
        let last = self.lessons.len() - 1;
        self.step = if data.step < last {
            data.step
        } else {
            last
        };
        self.reset_step();
        self.toast = None;
        proof {
            self.lemma_step_start_wf();
        }
    }

    /// The progress to write to the progress file: the current step, which
    /// steps are done, and their statistics.
    pub fn save_data(&self) -> (data: SaveData)
        ensures
            data.step == self.step,
            data.lesson_done@ == self.lesson_done@,
            data.best_stats@ == self.best_stats@,
    {
        let mut best_stats: Vec<Option<(u64, u64)>> = Vec::new();
        let mut i: usize = 0;
        while i < self.best_stats.len()
            invariant
                i <= self.best_stats@.len(),
                best_stats@ == self.best_stats@.take(i as int),
            decreases self.best_stats.len() - i,
        {
            best_stats.push(self.best_stats[i]);
            assert(best_stats@ =~= self.best_stats@.take(i + 1));
            i += 1;
        }
        assert(self.best_stats@.take(i as int) =~= self.best_stats@);
        SaveData { step: self.step, lesson_done: self.lesson_done.clone(), best_stats }
    }

    /// Typing the glyph the current cell asks for always counts as right:
    /// every lesson glyph is one the layout types, so the keystroke moves on
    /// (to the next cell, line or step, or completes the course) and never
    /// flashes an error.
    pub proof fn lemma_typing_target_advances(&self, o: &App, now: u64)
        requires
            o.wf(),
            forall|i: int| 0 <= i < o.lessons@.len() ==> glyphs_on_layout(#[trigger] o.lessons@[i]),
            !o.course_complete,
            self.typed(o, o.target().glyph, now),
        ensures
            self.advanced(
                o,
                o.cell_status@.update(o.cell_idx as int, CellStatus::Done),
                (o.correct_keystrokes + 1) as nat,
                (o.total_keystrokes + 1) as nat,
                started(o.start_time, now),
                now,
            ),
    {
        assert(glyphs_on_layout(o.lessons@[o.step as int]));
        assert(o.line_view() == o.lessons@[o.step as int].lines@[o.line_idx as int]@);
        assert(on_layout(o.lessons@[o.step as int].lines@[o.line_idx as int]@[o.cell_idx as int].glyph));
    }

    /// Typing the last cell of a step's last line finishes the step: it is
    /// marked done and its statistics at that moment replace any recorded
    /// before; then a stage's last step typed below the stage gate goes back to
    /// the stage's first step with a retry toast, any other step with a next
    /// step moves on with a success toast, and the course's last step
    /// completes the course in place.
    pub proof fn lemma_last_cell_finishes_step(&self, o: &App, now: u64)
        requires
            o.wf(),
            forall|i: int| 0 <= i < o.lessons@.len() ==> glyphs_on_layout(#[trigger] o.lessons@[i]),
            !o.course_complete,
            o.line_idx + 1 == o.lesson_view().lines@.len(),
            o.cell_idx + 1 == o.line_view().len(),
            o.total_keystrokes < u32::MAX,
            self.typed(o, o.target().glyph, now),
        ensures
            self.finished(
                o,
                o.cell_status@.update(o.cell_idx as int, CellStatus::Done),
                (o.correct_keystrokes + 1) as nat,
                (o.total_keystrokes + 1) as nat,
                started(o.start_time, now),
                now,
            ),
            ({
                let c = (o.correct_keystrokes + 1) as nat;
                let t = (o.total_keystrokes + 1) as nat;
                let e = elapsed_since(started(o.start_time, now), now);
                let s = o.step as int;
                let has_next = s + 1 < o.lessons@.len();
                let exit = has_next && spec_stage_of(s) != spec_stage_of(s + 1);
                let fast = e > 0 && c * 60_000_000_000 >= 5 * STAGE_GATE_MIN_WPM * e;
                let accurate = c * 100 >= STAGE_GATE_MIN_ACCURACY * t;
                &&& self.lesson_done@ == o.lesson_done@.update(s, true)
                &&& self.best_stats@ == o.best_stats@.update(
                    s,
                    Some((wpm_centi_of(c, e) as u64, accuracy_centi_of(c, t) as u64)),
                )
                &&& self.best_stats@[s] is Some
                &&& self.lessons@ == o.lessons@
                &&& exit && !(fast && accurate) ==> {
                    &&& self.step == stage_start(spec_stage_of(s))
                    &&& self.toast is Some && self.toast->0.kind == ToastKind::Retry
                    &&& self.toast->0.stage == Some(spec_stage_of(s))
                    &&& !self.course_complete
                }
                &&& has_next && !(exit && !(fast && accurate)) ==> {
                    &&& self.step == s + 1
                    &&& self.toast is Some && self.toast->0.kind == ToastKind::Success
                    &&& !self.course_complete
                }
                &&& !has_next ==> {
                    &&& self.step == s
                    &&& self.course_complete
                    &&& self.toast is Some && self.toast->0.kind == ToastKind::Success
                }
                &&& self.toast is Some ==> self.toast->0.correct == c && self.toast->0.total == t
                    && self.toast->0.elapsed == e && self.toast->0.at == now
            }),
    {
        self.lemma_typing_target_advances(o, now);
        let c = (o.correct_keystrokes + 1) as nat;
        let t = (o.total_keystrokes + 1) as nat;
        let e = elapsed_since(started(o.start_time, now), now);
        lemma_gate_is_the_reported_speed_and_accuracy(c, t, e);
        assert(o.lessons@.len() > 0);
    }

    /// Backspace never changes the keystroke counts, the clock, the step or
    /// the record: it only moves the cursor back one cell (none once the
    /// course is complete, or at the first cell) and makes that cell
    /// pending again.  A right keystroke is never taken back from accuracy.
    pub proof fn lemma_backspace_keeps_the_counts(&self, o: &App)
        requires
            o.wf(),
            self.backspaced(o),
        ensures
            self.correct_keystrokes == o.correct_keystrokes,
            self.total_keystrokes == o.total_keystrokes,
            self.start_time == o.start_time,
            self.step == o.step,
            self.line_idx == o.line_idx,
            self.lesson_done@ == o.lesson_done@,
            self.best_stats@ == o.best_stats@,
            self.chars_done_prior_lines == o.chars_done_prior_lines,
            self.course_complete == o.course_complete,
            self.cell_idx == (if !o.course_complete && o.cell_idx > 0 {
                o.cell_idx - 1
            } else {
                o.cell_idx as int
            }),
            !o.course_complete && o.cell_idx > 0 ==> self.cell_status@[o.cell_idx - 1]
                == CellStatus::Pending,
            forall|j: int|
                0 <= j < o.cell_status@.len() && j != o.cell_idx - 1 ==> #[trigger] self.cell_status@[j]
                    == o.cell_status@[j],
            self.cell_status@.len() == o.cell_status@.len(),
    {
    }

    /// A keystroke that does not end a step counts once towards all
    /// keystrokes, and towards the correct ones exactly when it is the glyph
    /// the current cell asks for; once the course is complete it counts for
    /// nothing.
    pub proof fn lemma_typing_counts(&self, o: &App, c: char, now: u64)
        requires
            o.wf(),
            forall|i: int| 0 <= i < o.lessons@.len() ==> glyphs_on_layout(#[trigger] o.lessons@[i]),
            !(o.line_idx + 1 == o.lesson_view().lines@.len() && o.cell_idx + 1 == o.line_view().len()
                && c == o.target().glyph),
            self.typed(o, c, now),
        ensures
            o.course_complete ==> self.correct_keystrokes == o.correct_keystrokes
                && self.total_keystrokes == o.total_keystrokes,
            !o.course_complete ==> self.total_keystrokes == o.total_keystrokes + 1,
            !o.course_complete ==> self.correct_keystrokes == o.correct_keystrokes + (if c
                == o.target().glyph {
                1int
            } else {
                0int
            }),
            !o.course_complete ==> self.step == o.step && self.lesson_done@ == o.lesson_done@
                && self.best_stats@ == o.best_stats@,
    {
        if !o.course_complete && c == o.target().glyph {
            self.lemma_typing_target_advances(o, now);
        }
    }

    /// Move to the next step, if there is one.  Never gated on proficiency.
    pub fn next_step(&mut self)
        requires
            old(self).wf(),
        ensures
            final(self).wf(),
            final(self).same_settings(&*old(self)),
            final(self).same_record(&*old(self)),
            old(self).step + 1 < old(self).lessons@.len() ==> final(self).at_step_start(
                old(self).step + 1,
            ),
            old(self).step + 1 < old(self).lessons@.len() ==> final(self).toast is None,
            old(self).step + 1 >= old(self).lessons@.len() ==> final(self).same_attempt(&*old(self)),
            old(self).step + 1 >= old(self).lessons@.len() ==> final(self).toast == old(self).toast,
    {
        if self.step < self.lessons.len() - 1 {
            self.goto_step(self.step + 1);
        }
    }

    /// Move to the previous step, if there is one.
    pub fn prev_step(&mut self)
        requires
            old(self).wf(),
        ensures
            final(self).wf(),
            final(self).same_settings(&*old(self)),
            final(self).same_record(&*old(self)),
            old(self).step > 0 ==> final(self).at_step_start(old(self).step - 1),
            old(self).step > 0 ==> final(self).toast is None,
            old(self).step == 0 ==> final(self).same_attempt(&*old(self)),
            old(self).step == 0 ==> final(self).toast == old(self).toast,
    {
        if self.step > 0 {
            self.goto_step(self.step - 1);
        }
    }
}

} // verus!
