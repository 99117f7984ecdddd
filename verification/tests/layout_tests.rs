use inuktitut_tutor::layout::{key_notation_to_glyph, keys, locate_glyph, translate_line, Finger};

#[test]
fn question_mark_is_retired_as_a_notation_alias() {
    // There is no physical key labelled '?': it is Shift+V, written 'V'.
    assert_eq!(key_notation_to_glyph('?'), None);
}

#[test]
fn pipe_is_the_shift_slash_alias() {
    assert_eq!(key_notation_to_glyph('|'), Some(('\u{1559}', true)));
}

#[test]
fn brace_is_the_shift_bracket_alias() {
    // Shift+[ is the s-final; `[` has no uppercase form, so it needs an
    // explicit alias the way `/` does.
    assert_eq!(key_notation_to_glyph('{'), Some(('\u{1505}', true)));
    // The unshifted key still gives its base glyph.
    assert_eq!(key_notation_to_glyph('['), Some(('\u{14a1}', false)));
}

#[test]
fn shift_v_produces_a_real_question_mark() {
    assert_eq!(key_notation_to_glyph('V'), Some(('?', true)));
    let loc = locate_glyph('?').expect("? should be locatable");
    assert_eq!(loc.key, 'v');
    assert!(loc.shifted);
}

/// Syllabics the real `ca(ike)` layout can produce that the key table
/// deliberately does not model.
const KNOWN_UNTAUGHT_SYLLABICS: [(char, &str); 5] = [
    ('\u{157b}', "Nunavik H, backtick key; Nunavik dialect, not requested"),
    ('\u{1575}', "Nunavik HI, backtick key; Nunavik dialect, not requested"),
    ('\u{1579}', "Nunavik HA, ISO-only key, absent from US/ANSI keyboards"),
    ('\u{1577}', "Nunavik HO, ISO-only key, absent from US/ANSI keyboards"),
    ('\u{141e}', "glottal stop, base level is a dead key on stock ca(ike)"),
];

#[test]
fn known_untaught_syllabics_are_genuinely_absent() {
    let table = keys();
    for &(g, why) in KNOWN_UNTAUGHT_SYLLABICS.iter() {
        let present = table.iter().any(|&(_, b, s, _, _)| b == g || s == Some(g));
        assert!(!present, "{g} is now in the key table ({why})");
    }
}

#[test]
fn equals_key_produces_the_f_final() {
    assert_eq!(key_notation_to_glyph('='), Some(('\u{155d}', false)));
    let loc = locate_glyph('\u{155d}').expect("ᕝ should be on the keyboard");
    assert_eq!(loc.key, '=');
    assert!(!loc.shifted);
}

#[test]
fn comma_and_period_are_plain_ascii_passthrough() {
    assert_eq!(key_notation_to_glyph(','), Some((',', false)));
    assert_eq!(key_notation_to_glyph('.'), Some(('.', false)));
}

#[test]
fn punctuation_line_round_trips_with_no_dropped_characters() {
    let line = ",.V ,.V";
    let translated = translate_line(line);
    assert_eq!(translated.len(), line.chars().count());
    let glyphs: String = translated.iter().map(|(_, g)| *g).collect();
    assert_eq!(glyphs, ",.? ,.?");
}

// ---------------------------------------------------------------- more ---

#[test]
fn key_table_has_forty_two_keys_and_unique_labels() {
    let table = keys();
    assert_eq!(table.len(), 42);
    for i in 0..table.len() {
        for j in (i + 1)..table.len() {
            assert_ne!(table[i].0, table[j].0);
        }
    }
}

#[test]
fn space_is_located_nowhere_and_translates_to_itself() {
    assert!(locate_glyph(' ').is_none());
    assert_eq!(key_notation_to_glyph(' '), Some((' ', false)));
}

/// The key a notation character names: itself, or the key it is the Shift
/// form of.
fn named_key(c: char) -> char {
    match c {
        '|' => '/',
        '{' => '[',
        _ => c.to_ascii_lowercase(),
    }
}

#[test]
fn notation_then_locate_finds_the_same_key() {
    let table = keys();
    let notation = "abcdefghijklmnopqrstuvwxyz0123456789-=[,./ABCDEFIJKLMNOPQRSTUVWXYZ|{";
    for c in notation.chars() {
        let (glyph, shifted) = key_notation_to_glyph(c).expect("notation translates");
        let key = named_key(c);
        let finger = table.iter().find(|d| d.0 == key).expect("named key exists").3;
        let loc = locate_glyph(glyph).expect("a typed glyph is on the keyboard");
        assert_eq!(loc.key, key, "notation {c:?}");
        assert_eq!(loc.shifted, shifted, "notation {c:?}");
        assert_eq!(loc.finger, finger, "notation {c:?}");
    }
}

#[test]
fn unknown_notation_is_dropped_from_a_line() {
    assert_eq!(key_notation_to_glyph('~'), None);
    let translated = translate_line("f~j");
    assert_eq!(translated.len(), 2);
    assert_eq!(translated[0].0, 'f');
    assert_eq!(translated[1].0, 'j');
}

#[test]
fn finger_labels_are_human_readable() {
    assert_eq!(Finger::LPinky.label(), "left pinky");
    assert_eq!(Finger::RIndex.label(), "right index");
}
