use inuktitut_tutor::app::App;
use inuktitut_tutor::save::{format_save, parse_save, SaveData};

fn data(step: usize, done: &[bool], best: &[Option<(u64, u64)>]) -> SaveData {
    SaveData { step, lesson_done: done.to_vec(), best_stats: best.to_vec() }
}

/// Completes step 1 for real, writes the progress file's text and reads it
/// back into a fresh session.
#[test]
fn round_trip_preserves_completed_step_and_stats() {
    let mut app = App::new();
    let mut now = 1_000_000_000u64;
    while app.step == 0 {
        let target = app.current_cell().glyph;
        now += 100_000_000;
        app.handle_char(target, now);
    }
    assert!(app.lesson_done[0]);
    let (saved_wpm, saved_acc) = app.best_stats[0].expect("step 1 should have recorded stats");
    assert_eq!(app.step, 1);

    let text = format_save(&app.save_data());
    let loaded = parse_save(&text, app.lessons.len());

    assert_eq!(loaded.step, 1);
    assert!(loaded.lesson_done[0], "step 1 should be marked done");
    assert!(!loaded.lesson_done[1], "step 2 shouldn't be marked done yet");
    let (loaded_wpm, loaded_acc) = loaded.best_stats[0].expect("step 1 stats should round-trip");
    assert_eq!(loaded_wpm, saved_wpm);
    assert_eq!(loaded_acc, saved_acc);
    assert!(loaded.best_stats[1].is_none());

    let mut fresh = App::new();
    fresh.apply_save(loaded);
    assert_eq!(fresh.step, 1);
    assert!(fresh.lesson_done[0]);
}

#[test]
fn format_writes_three_lines() {
    let d = data(2, &[true, false, true], &[Some((12345, 9850)), None, Some((7, 10000))]);
    assert_eq!(format_save(&d), "step=2\ndone=101\nbest=123.45:98.50,-,0.07:100.00\n");
    let empty = data(0, &[], &[]);
    assert_eq!(format_save(&empty), "step=0\ndone=\nbest=\n");
}

#[test]
fn parse_reads_what_format_wrote() {
    let d = data(
        3,
        &[true, true, false, false],
        &[Some((0, 0)), Some((u64::MAX, 1)), None, Some((100, 5))],
    );
    let back = parse_save(&format_save(&d), 4);
    assert_eq!(back.step, 3);
    assert_eq!(back.lesson_done, d.lesson_done);
    assert_eq!(back.best_stats, d.best_stats);
}

#[test]
fn parse_of_nothing_is_fresh_progress() {
    let p = parse_save("", 3);
    assert_eq!(p.step, 0);
    assert_eq!(p.lesson_done, vec![false, false, false]);
    assert_eq!(p.best_stats, vec![None, None, None]);
}

#[test]
fn parse_holds_the_step_to_the_last_step() {
    assert_eq!(parse_save("step=9\n", 3).step, 2);
    assert_eq!(parse_save("step=9\n", 0).step, 0);
    assert_eq!(parse_save("step=+2", 3).step, 2);
}

#[test]
fn parse_gives_step_zero_for_a_bad_number() {
    assert_eq!(parse_save("step=1\nstep=x\n", 5).step, 0);
    assert_eq!(parse_save("step=-1\n", 5).step, 0);
    assert_eq!(parse_save("step=\n", 5).step, 0);
    assert_eq!(parse_save("step=+\n", 5).step, 0);
    assert_eq!(parse_save("step=99999999999999999999999\n", 5).step, 0);
    // The last step line wins.
    assert_eq!(parse_save("step=x\nstep=3\n", 5).step, 3);
}

#[test]
fn parse_accepts_crlf_and_ignores_unknown_lines() {
    let p = parse_save("# progress\r\nstep=1\r\ncolour=blue\r\ndone=01\r\nno equals sign\r\n", 3);
    assert_eq!(p.step, 1);
    assert_eq!(p.lesson_done, vec![false, true, false]);
}

#[test]
fn parse_done_keeps_steps_past_the_value() {
    let p = parse_save("done=111\ndone=0", 4);
    assert_eq!(p.lesson_done, vec![false, true, true, false]);
    let p = parse_save("done=1x1111", 3);
    assert_eq!(p.lesson_done, vec![true, false, true]);
}

#[test]
fn parse_best_skips_entries_that_do_not_read() {
    let p = parse_save("best=1.5:2,bad,-,3:.25,4:5:6,+7.891:8.", 6);
    assert_eq!(
        p.best_stats,
        vec![Some((150, 200)), None, None, Some((300, 25)), None, Some((789, 800))]
    );
    // A later line only replaces the entries that read.
    let p = parse_save("best=1:1,2:2\nbest=-,3:3", 2);
    assert_eq!(p.best_stats, vec![Some((100, 100)), Some((300, 300))]);
    // A minus sign and a lone point are not numbers here; an exponent is.
    let p = parse_save("best=-1:1,1e2:1,.:1", 3);
    assert_eq!(p.best_stats, vec![None, Some((10_000, 100)), None]);
}

#[test]
fn parse_only_reads_as_many_entries_as_there_are_steps() {
    let p = parse_save("done=1111\nbest=1:1,2:2,3:3", 2);
    assert_eq!(p.lesson_done, vec![true, true]);
    assert_eq!(p.best_stats, vec![Some((100, 100)), Some((200, 200))]);
}

#[test]
fn parse_last_line_needs_no_line_break() {
    let p = parse_save("step=2\ndone=11", 3);
    assert_eq!(p.step, 2);
    assert_eq!(p.lesson_done, vec![true, true, false]);
}

#[test]
fn parse_best_reads_exponents_and_rounds_to_hundredths() {
    let p = parse_save("best=1E-1:2.345e1,1.005:0.004,5.:+1e+0,12.3456:0e999999999999999999999", 4);
    assert_eq!(
        p.best_stats,
        vec![Some((10, 2345)), Some((101, 0)), Some((500, 100)), Some((1235, 0))]
    );
    // Too large for hundredths in a u64, or an exponent without digits.
    let p = parse_save("best=1e400:1,1e:1,2e-999999999999999999999999:1", 3);
    assert_eq!(p.best_stats, vec![None, None, Some((0, 100))]);
}
