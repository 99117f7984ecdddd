use inuktitut_tutor::app::{App, CellStatus, Stage, Stats, Toast, ToastKind};
use inuktitut_tutor::layout::{keys, locate_glyph, Finger, GlyphLocation};
use inuktitut_tutor::ui::{
    cell_face, cell_frame, cells_in_row, header_gap, recap_number, recap_title, too_small_text, cell_ink, complete_screen_height, exercise_row_count, finger_hint,
    header_title, key_face, key_look, key_row, keyboard_content_width, keyboard_placement,
    recap_text, screen_for, shift_active, stats_text, status_line, step_dot, toast_text, CellFrame,
    CellInk, KeyLook, Screen, StatusLine, StepDot, FOOTER_HINTS, MIN_WIDTH, RECAP_CONTROLS,
};

fn complete_course(app: &mut App) {
    let mut now = 0u64;
    for _ in 0..100_000 {
        if app.course_complete {
            break;
        }
        let target = app.current_cell().glyph;
        now += 100_000_000;
        app.handle_char(target, now);
    }
    assert!(app.course_complete);
}

#[test]
fn exercise_rows_wrap_the_cells() {
    // 96 columns inside the border hold 19 cells per row.
    assert_eq!(exercise_row_count(19, 96), 1);
    assert_eq!(exercise_row_count(20, 96), 2);
    assert_eq!(exercise_row_count(38, 96), 2);
    assert_eq!(exercise_row_count(39, 96), 3);
    // An empty line still gets one row, and a panel narrower than a cell
    // still holds one cell per row.
    assert_eq!(exercise_row_count(0, 96), 1);
    assert_eq!(exercise_row_count(3, 2), 3);
    assert_eq!(exercise_row_count(usize::MAX, 0), usize::MAX);
}

#[test]
fn keyboard_grid_is_as_wide_as_its_widest_row() {
    // The number row: twelve keys, `1` to `=`.
    assert_eq!(keyboard_content_width(), 60);
    assert_eq!(keyboard_placement(100), (20, 60));
    assert_eq!(keyboard_placement(40), (0, 40));
    assert_eq!(key_row(0), (0, 12, 0));
    assert_eq!(key_row(1), (12, 23, 2));
    assert_eq!(key_row(2), (23, 32, 4));
    assert_eq!(key_row(3), (32, 42, 6));
}

#[test]
fn normal_screen_fits_a_large_terminal() {
    let app = App::new();
    // Step 1's first line has 19 cells: one row of the exercise strip.
    assert_eq!(screen_for(&app, 100, 45), Screen::Practice(5));
}

#[test]
fn too_small_terminal_asks_for_a_resize() {
    let app = App::new();
    // 38 columns inside the border hold seven cells a row: three rows.
    assert_eq!(screen_for(&app, 40, 15), Screen::TooSmall(39));
    assert_eq!(screen_for(&app, MIN_WIDTH - 1, 100), Screen::TooSmall(36));
    // At the minimum width 19 cells take two rows of twelve.
    assert_eq!(screen_for(&app, MIN_WIDTH, 35), Screen::TooSmall(36));
    assert_eq!(screen_for(&app, MIN_WIDTH, 36), Screen::Practice(8));
}

#[test]
fn course_complete_screen_needs_a_line_per_step() {
    let mut app = App::new();
    complete_course(&mut app);
    assert_eq!(complete_screen_height(&app), 22);
    assert_eq!(screen_for(&app, 100, 45), Screen::Complete);
    assert_eq!(screen_for(&app, 40, 15), Screen::TooSmall(22));
    assert_eq!(screen_for(&app, 100, 21), Screen::TooSmall(22));
}

#[test]
fn keys_are_marked_and_flip_with_shift() {
    let loc = locate_glyph('?');
    assert!(shift_active(loc));
    assert!(!shift_active(None));
    assert!(!shift_active(locate_glyph('\u{146f}')));
    assert_eq!(key_look('v', false, loc), KeyLook::Current);
    assert_eq!(key_look('f', true, loc), KeyLook::Bump);
    assert_eq!(key_look('j', true, None), KeyLook::Bump);
    assert_eq!(key_look('a', true, loc), KeyLook::Home);
    assert_eq!(key_look('q', false, loc), KeyLook::Plain);
    assert_eq!(key_face('a', Some('b'), true), 'b');
    assert_eq!(key_face('a', Some('b'), false), 'a');
    assert_eq!(key_face('a', None, true), 'a');
}

#[test]
fn legend_names_the_finger() {
    let loc = GlyphLocation { key: 'v', shifted: true, finger: Finger::LIndex };
    assert_eq!(finger_hint(Some(loc)), "Shift + left index");
    let loc = GlyphLocation { key: 'j', shifted: false, finger: Finger::RIndex };
    assert_eq!(finger_hint(Some(loc)), "right index");
    assert_eq!(finger_hint(None), "thumb (space bar)");
}

#[test]
fn exercise_cells_are_marked_by_status_first() {
    assert_eq!(cell_frame(CellStatus::Error, true, true), CellFrame::Error);
    assert_eq!(cell_frame(CellStatus::Done, true, false), CellFrame::Done);
    assert_eq!(cell_frame(CellStatus::Pending, true, true), CellFrame::Current);
    assert_eq!(cell_frame(CellStatus::Pending, false, true), CellFrame::Space);
    assert_eq!(cell_frame(CellStatus::Pending, false, false), CellFrame::Plain);
    assert_eq!(cell_ink(CellStatus::Done, true), CellInk::Done);
    assert_eq!(cell_ink(CellStatus::Error, false), CellInk::Error);
    assert_eq!(cell_ink(CellStatus::Pending, true), CellInk::Current);
    assert_eq!(cell_ink(CellStatus::Pending, false), CellInk::Plain);
    assert_eq!(cell_face(' '), '\u{2423}');
    assert_eq!(cell_face('\u{146f}'), '\u{146f}');
}

#[test]
fn footer_dots_and_status_line() {
    assert_eq!(step_dot(3, 3, true), StepDot::Current);
    assert_eq!(step_dot(2, 3, true), StepDot::Done);
    assert_eq!(step_dot(4, 3, false), StepDot::NotDone);
    let mut app = App::new();
    assert_eq!(status_line(&app), StatusLine::Blank);
    app.handle_char('z', 1);
    assert_eq!(status_line(&app), StatusLine::LayoutWarning);
    app.toast = Some(Toast {
        kind: ToastKind::Retry,
        correct: 0,
        total: 0,
        elapsed: 0,
        stage: Some(Stage::Home),
        at: 1,
    });
    assert_eq!(status_line(&app), StatusLine::Toast(ToastKind::Retry));
}

#[test]
fn toast_messages_round_the_statistics() {
    // 210 right of 210 in one minute: 42 words per minute.
    let ok = Toast {
        kind: ToastKind::Success,
        correct: 210,
        total: 210,
        elapsed: 60_000_000_000,
        stage: None,
        at: 0,
    };
    assert_eq!(toast_text(&ok), "step done — 42 wpm · 100% acc");
    // Exactly 12.5 wpm and 12.5%: an exact half goes to the even number.
    let half = Toast {
        kind: ToastKind::Success,
        correct: 1,
        total: 8,
        elapsed: 960_000_000,
        stage: None,
        at: 0,
    };
    assert_eq!(toast_text(&half), "step done — 12 wpm · 12% acc");
    let retry = Toast {
        kind: ToastKind::Retry,
        correct: 617,
        total: 1234,
        elapsed: 617_000_000_000,
        stage: Some(Stage::Bottom),
        at: 0,
    };
    assert_eq!(toast_text(&retry), "not quite yet — need 90%/5wpm, got 50%/12 — retry Bottom Row");
}

fn stats(correct: u32, total: u32, elapsed: u64, done_chars: usize, total_chars: usize) -> Stats {
    Stats { wpm_centi: 0, accuracy_centi: 0, correct, total, elapsed, done_chars, total_chars }
}

#[test]
fn header_texts() {
    let st = stats(457, 457, 120_000_000_000, 1, 3);
    assert_eq!(stats_text(&st), "wpm  45.7  ·  acc 100.0%  ·  done  33.3%");
    let st = stats(12_346, 12_346_000, 120_000_000_000, 0, 1);
    assert_eq!(stats_text(&st), "wpm 1234.6  ·  acc   0.1%  ·  done   0.0%");
    // 12.346 words per minute shows as 12.3, from the counts.
    let st = stats(12_346, 12_346, 12_000_000_000_000, 1, 1);
    assert_eq!(stats_text(&st), "wpm  12.3  ·  acc 100.0%  ·  done 100.0%");
    // Before the first keystroke.
    let st = stats(0, 0, 0, 0, 5);
    assert_eq!(stats_text(&st), "wpm   0.0  ·  acc 100.0%  ·  done   0.0%");
    let app = App::new();
    assert_eq!(header_title(&app), "STEP 1 — INDEX FINGERS  [1/14]");
}

#[test]
fn recap_lines() {
    assert_eq!(recap_text(Some((4567, 9999))), " 45.7 wpm · 100.0% acc");
    assert_eq!(recap_text(None), "  —  not completed");
    assert_eq!(recap_text(Some((1225, 1235))), " 12.2 wpm ·  12.4% acc");
}

#[test]
fn control_lists_fit_the_narrowest_terminal() {
    for text in [FOOTER_HINTS, RECAP_CONTROLS] {
        assert!(text.contains("ctrl+s save & quit"));
        assert!(text.chars().count() + 2 <= MIN_WIDTH as usize);
    }
}

#[test]
fn too_small_message_names_both_sizes() {
    let text = too_small_text(39, 40, 15);
    assert_eq!(text, "terminal too small — resize (need at least 66x39, have 40x15)");
    assert!(text.contains("too small"));
    assert_eq!(cells_in_row(96), 19);
    assert_eq!(cells_in_row(4), 1);
}

#[test]
fn drawn_rows_follow_the_physical_rows() {
    let table = keys();
    let labels: Vec<String> = (0..4)
        .map(|r| {
            let (lo, hi, _) = key_row(r);
            table[lo..hi].iter().map(|k| k.0).collect()
        })
        .collect();
    assert_eq!(labels[0], "1234567890-=");
    assert_eq!(labels[1], "qwertyuiop[");
    assert_eq!(labels[2], "asdfghjkl");
    assert_eq!(labels[3], "zxcvbnm,./");
}

#[test]
fn header_gap_keeps_at_least_one_column() {
    assert_eq!(header_gap(80, 30, 40), 10);
    assert_eq!(header_gap(70, 30, 40), 1);
    assert_eq!(header_gap(71, 30, 40), 1);
    assert_eq!(header_gap(72, 30, 40), 2);
    assert_eq!(header_gap(10, 30, 40), 1);
}

#[test]
fn recap_number_and_title_are_aligned() {
    assert_eq!(recap_number(0), " 1  ");
    assert_eq!(recap_number(13), "14  ");
    assert_eq!(recap_number(99), "100  ");
    let t = recap_title("STEP 1 — INDEX FINGERS");
    assert_eq!(t.chars().count(), 32);
    assert_eq!(t, format!("{:<32}", "STEP 1 — INDEX FINGERS"));
    let long = "x".repeat(40);
    assert_eq!(recap_title(&long), long);
}
