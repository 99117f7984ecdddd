use inuktitut_tutor::layout::{keys, locate_glyph};
use inuktitut_tutor::lessons::{all_lessons, Cell, Lesson, MAX_LINE_LEN};
use std::collections::HashSet;

fn glyphs(cells: &[Cell]) -> String {
    cells.iter().map(|c| c.glyph).collect()
}

fn lesson_by_title_prefix<'a>(lessons: &'a [Lesson], prefix: &str) -> &'a Lesson {
    lessons
        .iter()
        .find(|l| l.title.starts_with(prefix))
        .unwrap_or_else(|| panic!("no lesson titled {prefix:?}"))
}

#[test]
fn step1_line1_is_ku_mu() {
    let lessons = all_lessons();
    let line = &lesson_by_title_prefix(&lessons, "STEP 1 —").lines[0];
    assert_eq!(glyphs(line), "ᑯᑯᑯᑯ ᒧᒧᒧᒧ ᑯᑯᑯᑯ ᒧᒧᒧᒧ");
    let labels: String = line.iter().map(|c| c.key_label).collect();
    assert_eq!(labels, "ffff jjjj ffff jjjj");
}

#[test]
fn home_row_is_u_series() {
    let lessons = all_lessons();
    let line = &lesson_by_title_prefix(&lessons, "STEP 5 —").lines[1]; // "asdfghjkl"
    assert_eq!(glyphs(line), "ᖑᐅᖁᑯᑐᓱᒧᓄᓗ");
}

#[test]
fn step13_line1_targets_shift_glyphs() {
    let lessons = all_lessons();
    let line = &lesson_by_title_prefix(&lessons, "STEP 13 —").lines[0]; // "WSX WSX"
    assert_eq!(glyphs(line), "ᐱᐳᐸ ᐱᐳᐸ");
    for cell in line {
        if cell.glyph == ' ' {
            continue;
        }
        let loc = locate_glyph(cell.glyph).expect("glyph should be on the keyboard");
        assert!(loc.shifted, "expected {:?} to require Shift", cell.glyph);
    }
}

#[test]
fn punctuation_lesson_targets_real_keys() {
    let lessons = all_lessons();
    let lesson = lesson_by_title_prefix(&lessons, "STEP 10 —");
    // Line 1 is a literal comma/period drill.
    assert_eq!(glyphs(&lesson.lines[0]), ",,,, .... ,,,, ....");
    // Line 3 alternates ᑲ (v) and a literal ? (V).
    assert_eq!(glyphs(&lesson.lines[2]), "ᑲᑲ ?? ᑲᑲ ?? ᑲ??ᑲ ?ᑲᑲ?");
}

#[test]
fn all_lesson_glyphs_are_locatable_or_space() {
    for lesson in all_lessons() {
        for line in &lesson.lines {
            for cell in line {
                if cell.glyph != ' ' {
                    assert!(
                        locate_glyph(cell.glyph).is_some(),
                        "unlocatable glyph {:?} in {}",
                        cell.glyph,
                        lesson.title
                    );
                }
            }
        }
    }
}

/// Unified Canadian Aboriginal Syllabics.
fn is_syllabic(c: char) -> bool {
    ('\u{1400}'..='\u{167f}').contains(&c)
}

#[test]
fn every_syllabic_in_the_layout_is_drilled() {
    let drilled: HashSet<char> = all_lessons()
        .iter()
        .flat_map(|l| l.lines.iter())
        .flatten()
        .map(|c| c.glyph)
        .collect();

    let mut missing = Vec::new();
    for &(key, base, shift, _, _) in keys().iter() {
        if is_syllabic(base) && !drilled.contains(&base) {
            missing.push(format!("{base} (base of {key:?})"));
        }
        if let Some(s) = shift {
            if is_syllabic(s) && !drilled.contains(&s) {
                missing.push(format!("{s} (Shift+{})", key.to_ascii_uppercase()));
            }
        }
    }
    assert!(
        missing.is_empty(),
        "{} syllabic(s) never appear in any lesson: {}",
        missing.len(),
        missing.join(", ")
    );
}

#[test]
fn no_line_exceeds_the_authoring_budget() {
    assert_eq!(MAX_LINE_LEN, 36);
    for lesson in all_lessons() {
        for line in &lesson.lines {
            assert!(
                line.len() <= MAX_LINE_LEN,
                "{}: a line has {} cells, over the {MAX_LINE_LEN}-char budget",
                lesson.title,
                line.len()
            );
        }
    }
}

// ---------------------------------------------------------------- more ---

#[test]
fn course_has_fourteen_steps_in_order() {
    let lessons = all_lessons();
    assert_eq!(lessons.len(), 14);
    for (i, lesson) in lessons.iter().enumerate() {
        assert!(lesson.title.starts_with(&format!("STEP {} —", i + 1)));
        assert!(!lesson.lines.is_empty());
        for line in &lesson.lines {
            assert!(!line.is_empty());
        }
    }
}

#[test]
fn total_chars_counts_every_cell() {
    for lesson in all_lessons() {
        let count: usize = lesson.lines.iter().map(|l| l.len()).sum();
        assert_eq!(lesson.total_chars(), count);
    }
    let lessons = all_lessons();
    // "ffff jjjj ffff jjjj" and its four companions in step 1.
    assert!(lessons[0].total_chars() >= 19);
}
