use inuktitut_tutor::app::{
    stage_of, stage_start_step, App, CellStatus, KeyCode, KeyInput, Stage, ToastKind,
    ERROR_FLASH_NS, TOAST_DURATION_NS,
};

/// A steady typist: one keystroke every tenth of a second (120 words per
/// minute when every keystroke is right).
struct Clock {
    now: u64,
}

impl Clock {
    fn new() -> Clock {
        Clock { now: 1_000_000_000 }
    }

    fn tick(&mut self) -> u64 {
        self.now += 100_000_000;
        self.now
    }
}

fn type_char(app: &mut App, clock: &mut Clock, c: char) {
    let now = clock.tick();
    app.handle_char(c, now);
}

/// Types the current lesson correctly, cell by cell, until the step changes
/// (advance or gate bounce) or the course completes.
fn type_lesson_correctly(app: &mut App, clock: &mut Clock) {
    let starting_step = app.step;
    while app.step == starting_step && !app.course_complete {
        let target = app.current_cell().glyph;
        type_char(app, clock, target);
    }
}

/// Types the current lesson with a wrong keystroke ('z' is never a target)
/// before every right one, which tanks accuracy under the stage gate.
fn type_lesson_with_errors(app: &mut App, clock: &mut Clock) {
    let starting_step = app.step;
    while app.step == starting_step && !app.course_complete {
        type_char(app, clock, 'z');
        let target = app.current_cell().glyph;
        type_char(app, clock, target);
    }
}

fn press(code: KeyCode) -> KeyInput {
    KeyInput { code, pressed: true, ctrl: false }
}

#[test]
fn plays_through_entire_course_without_panicking() {
    let mut app = App::new();
    let mut clock = Clock::new();
    let last_step = app.lessons.len() - 1;

    for _ in 0..100_000 {
        if app.course_complete {
            break;
        }
        let target = app.current_cell().glyph;
        type_char(&mut app, &mut clock, target);
        assert!(
            app.cell_idx < app.current_line().len(),
            "cell_idx {} out of range for a line of length {}",
            app.cell_idx,
            app.current_line().len()
        );
    }

    assert!(app.course_complete, "did not reach the end of the course");
    assert_eq!(app.step, last_step);
    let stats = app.stats(clock.now);
    let progress = stats.done_chars as f64 / stats.total_chars as f64;
    assert!(progress >= 1.0 && progress <= 1.0001);
}

#[test]
fn restart_after_course_complete_accepts_input_again() {
    let mut app = App::new();
    let mut clock = Clock::new();
    for _ in 0..100_000 {
        if app.course_complete {
            break;
        }
        let target = app.current_cell().glyph;
        type_char(&mut app, &mut clock, target);
    }
    assert!(app.course_complete);

    app.restart_step();
    assert!(!app.course_complete);
    let target = app.current_cell().glyph;
    type_char(&mut app, &mut clock, target);
    assert_eq!(app.cell_idx, 1);
}

#[test]
fn gate_blocks_low_proficiency_then_allows_high_proficiency() {
    let mut app = App::new();
    let mut clock = Clock::new();

    for _ in 0..5 {
        type_lesson_correctly(&mut app, &mut clock);
    }
    assert_eq!(app.step, 5, "should be on the Home Row Shift exit lesson");

    type_lesson_with_errors(&mut app, &mut clock);
    assert_eq!(app.step, 0, "should bounce back to the start of Home stage");
    assert!(
        app.lesson_done[5],
        "finishing the lesson should still mark it done, even though the stage gate wasn't cleared"
    );
    assert!(!app.course_complete);

    for _ in 0..6 {
        type_lesson_correctly(&mut app, &mut clock);
    }
    assert_eq!(app.step, 6, "should advance into Top Row now the bar is cleared");
}

#[test]
fn manual_navigation_ignores_the_gate() {
    let mut app = App::new();
    let mut clock = Clock::new();
    for _ in 0..5 {
        type_lesson_correctly(&mut app, &mut clock);
    }
    type_lesson_with_errors(&mut app, &mut clock);
    assert_eq!(app.step, 0, "gate should have bounced back to Home stage start");

    app.next_step();
    assert_eq!(app.step, 1, "manual next_step must work regardless of the stage gate");
}

// ---------------------------------------------------------------- more ---

#[test]
fn stages_cover_the_steps_and_start_where_they_say() {
    let expected = [
        Stage::Home,
        Stage::Home,
        Stage::Home,
        Stage::Home,
        Stage::Home,
        Stage::Home,
        Stage::Top,
        Stage::Bottom,
        Stage::Bottom,
        Stage::Bottom,
        Stage::Advanced,
        Stage::Advanced,
        Stage::Advanced,
        Stage::Advanced,
    ];
    for (step, stage) in expected.iter().enumerate() {
        assert_eq!(stage_of(step), *stage);
        let start = stage_start_step(step);
        assert!(start <= step);
        assert_eq!(stage_of(start), *stage);
    }
    assert_eq!(stage_start_step(3), 0);
    assert_eq!(stage_start_step(6), 6);
    assert_eq!(stage_start_step(9), 7);
    assert_eq!(stage_start_step(13), 10);
    assert_eq!(stage_of(1000), Stage::Advanced);
    assert_eq!(Stage::Bottom.label(), "Bottom Row");
}

#[test]
fn new_session_starts_on_step_one_with_nothing_done() {
    let app = App::new();
    assert_eq!(app.step, 0);
    assert_eq!(app.line_idx, 0);
    assert_eq!(app.cell_idx, 0);
    assert_eq!(app.lessons.len(), 14);
    assert!(app.lesson_done.iter().all(|d| !d));
    assert!(app.best_stats.iter().all(|b| b.is_none()));
    assert!(app.cell_status.iter().all(|s| *s == CellStatus::Pending));
    assert_eq!(app.cell_status.len(), app.current_line().len());
    assert!(app.show_key_labels);
    assert!(app.toast.is_none());
}

#[test]
fn wrong_key_flashes_and_tick_clears_the_flash() {
    let mut app = App::new();
    let target = app.current_cell().glyph;
    let other = if target == '\u{146f}' { '\u{14a7}' } else { '\u{146f}' };
    app.handle_char(other, 1_000);
    assert_eq!(app.cell_status[0], CellStatus::Error);
    assert_eq!(app.error_since, Some(1_000));
    assert_eq!(app.total_keystrokes, 1);
    assert_eq!(app.correct_keystrokes, 0);
    assert!(!app.layout_warning);
    app.tick(1_000 + ERROR_FLASH_NS - 1);
    assert_eq!(app.cell_status[0], CellStatus::Error);
    app.tick(1_000 + ERROR_FLASH_NS);
    assert_eq!(app.cell_status[0], CellStatus::Pending);
    assert_eq!(app.error_since, None);
}

#[test]
fn off_layout_character_raises_the_layout_warning() {
    let mut app = App::new();
    app.handle_char('z', 5);
    assert!(app.layout_warning);
    assert_eq!(app.cell_status[0], CellStatus::Error);
    assert_eq!(app.total_keystrokes, 1);
    assert_eq!(app.start_time, None);
    let target = app.current_cell().glyph;
    app.handle_char(target, 10);
    assert!(!app.layout_warning);
    assert_eq!(app.start_time, Some(10));
    assert_eq!(app.cell_idx, 1);
    assert_eq!(app.cell_status[0], CellStatus::Done);
}

#[test]
fn backspace_steps_back_and_makes_the_cell_pending() {
    let mut app = App::new();
    app.handle_backspace();
    assert_eq!(app.cell_idx, 0);
    let target = app.current_cell().glyph;
    app.handle_char(target, 10);
    assert_eq!(app.cell_idx, 1);
    app.handle_backspace();
    assert_eq!(app.cell_idx, 0);
    assert_eq!(app.cell_status[0], CellStatus::Pending);
}

#[test]
fn key_events_only_count_when_pressed() {
    let mut app = App::new();
    let target = app.current_cell().glyph;
    app.handle_key(KeyInput { code: KeyCode::Char(target), pressed: false, ctrl: false }, 10);
    assert_eq!(app.cell_idx, 0);
    app.handle_key(press(KeyCode::Char(target)), 10);
    assert_eq!(app.cell_idx, 1);
    app.handle_key(press(KeyCode::Backspace), 20);
    assert_eq!(app.cell_idx, 0);
    app.handle_key(press(KeyCode::Other), 30);
    assert_eq!(app.cell_idx, 0);
    assert_eq!(app.total_keystrokes, 1);
}

#[test]
fn stats_give_exact_speed_and_accuracy() {
    let mut app = App::new();
    let fresh = app.stats(0);
    assert_eq!(fresh.accuracy_centi, 10000);
    assert_eq!(fresh.wpm_centi, 0);
    assert_eq!(fresh.done_chars, 0);

    // Three right and one wrong over 1.5 s from the first keystroke.
    let t0 = 2_000_000_000u64;
    for i in 0..3u64 {
        let target = app.current_cell().glyph;
        app.handle_char(target, t0 + i * 500_000_000);
    }
    app.handle_char('\u{1403}', t0 + 1_500_000_000);
    let s = app.stats(t0 + 1_500_000_000);
    assert_eq!(s.accuracy_centi, 7500);
    // 3 / 5 words in 1.5 s = 24 words per minute.
    assert_eq!(s.wpm_centi, 2400);
    assert_eq!(s.done_chars, 3);
    assert_eq!(s.total_chars, app.lesson().total_chars());
}

#[test]
fn finishing_a_step_records_it_and_shows_a_success_toast() {
    let mut app = App::new();
    let mut clock = Clock::new();
    type_lesson_correctly(&mut app, &mut clock);
    assert_eq!(app.step, 1);
    assert!(app.lesson_done[0]);
    let (wpm, acc) = app.best_stats[0].expect("stats recorded");
    assert_eq!(acc, 10000);
    assert!(wpm > 0);
    let toast = app.toast.expect("a toast");
    assert_eq!(toast.kind, ToastKind::Success);
    assert_eq!(toast.at, clock.now);
    app.tick(clock.now + TOAST_DURATION_NS - 1);
    assert!(app.toast.is_some());
    app.tick(clock.now + TOAST_DURATION_NS);
    assert!(app.toast.is_none());
}

#[test]
fn a_missed_gate_shows_a_retry_toast_naming_the_stage() {
    let mut app = App::new();
    let mut clock = Clock::new();
    app.goto_step(5);
    type_lesson_with_errors(&mut app, &mut clock);
    assert_eq!(app.step, 0);
    let toast = app.toast.expect("a toast");
    assert_eq!(toast.kind, ToastKind::Retry);
    assert_eq!(toast.stage, Some(Stage::Home));
    assert_eq!(toast.correct * 2, toast.total);
}

#[test]
fn goto_step_clamps_and_prev_stops_at_the_first_step() {
    let mut app = App::new();
    app.goto_step(99);
    assert_eq!(app.step, 13);
    app.next_step();
    assert_eq!(app.step, 13);
    app.goto_step(0);
    app.prev_step();
    assert_eq!(app.step, 0);
    app.next_step();
    app.prev_step();
    assert_eq!(app.step, 0);
}

#[test]
fn save_and_quit_sets_both_flags() {
    let mut app = App::new();
    app.request_save_and_quit();
    assert!(app.quit);
    assert!(app.save_and_quit);
}

#[test]
fn apply_save_resumes_on_the_saved_step_with_its_record() {
    let mut app = App::new();
    let mut data = app.save_data();
    data.step = 4;
    data.lesson_done[2] = true;
    data.best_stats[2] = Some((1234, 9876));
    app.apply_save(data);
    assert_eq!(app.step, 4);
    assert!(app.lesson_done[2]);
    assert_eq!(app.best_stats[2], Some((1234, 9876)));
    assert_eq!(app.cell_idx, 0);

    let mut data = app.save_data();
    assert_eq!(data.step, 4);
    data.step = 500;
    app.apply_save(data);
    assert_eq!(app.step, 13);
}

#[test]
fn input_is_ignored_once_the_course_is_complete() {
    let mut app = App::new();
    let mut clock = Clock::new();
    for _ in 0..100_000 {
        if app.course_complete {
            break;
        }
        let target = app.current_cell().glyph;
        type_char(&mut app, &mut clock, target);
    }
    assert!(app.course_complete);
    let cell = app.cell_idx;
    let statuses = app.cell_status.clone();
    let total = app.total_keystrokes;
    app.handle_backspace();
    app.handle_key(press(KeyCode::Backspace), clock.tick());
    app.handle_key(press(KeyCode::Char('z')), clock.tick());
    assert_eq!(app.cell_idx, cell);
    assert_eq!(app.cell_status, statuses);
    assert_eq!(app.total_keystrokes, total);
    assert!(!app.layout_warning);
}

#[test]
fn accuracy_is_kept_exactly_and_rounded_to_the_nearest_hundredth() {
    let mut app = App::new();
    app.correct_keystrokes = 19_999;
    app.total_keystrokes = 20_000;
    let s = app.stats(0);
    // 99.995% rounds to 100.00, but the counts still show a miss.
    assert_eq!(s.accuracy_centi, 10_000);
    assert_eq!((s.correct, s.total), (19_999, 20_000));
    assert!(s.correct < s.total);
    app.correct_keystrokes = 2;
    app.total_keystrokes = 3;
    assert_eq!(app.stats(0).accuracy_centi, 6_667);
    app.correct_keystrokes = 1;
    assert_eq!(app.stats(0).accuracy_centi, 3_333);
}
