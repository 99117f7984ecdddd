//! The graded lesson steps.  Lines are written in *key notation* (see
//! `layout::translate_line`) and translated into glyph sequences when the
//! lessons are built; the key-notation strings are the single source of
//! truth.
//!
//! Line-length policy: every line stays at or under 36 key-notation
//! characters (spaces included), so that at the narrowest supported
//! terminal the exercise strip wraps into at most three rows.

use vstd::prelude::*;
use crate::layout::{
    is_notation_char, key_table, lemma_key_def_of_entry, lemma_notation_char_translates,
    lemma_notation_glyph_locates_its_key, on_layout, shift_notation_key,
    spec_key_notation_to_glyph, translate_chars, translate_line,
};

verus! {

/// One cell of an exercise line: the key label shown on top, and the target
/// syllabic (or space) the learner must produce underneath.
#[derive(Debug, Clone, Copy)]
pub struct Cell {
    pub key_label: char,
    pub glyph: char,
}

/// One lesson step: its title, a one-line hint, and its exercise lines.
pub struct Lesson {
    pub title: &'static str,
    pub hint: &'static str,
    pub lines: Vec<Vec<Cell>>,
}

/// The cell that a translated `(key_label, glyph)` pair becomes.
pub open spec fn cell_of(p: (char, char)) -> Cell {
    Cell { key_label: p.0, glyph: p.1 }
}

/// The cells a line of key notation becomes.
pub open spec fn cells_of(s: Seq<char>) -> Seq<Cell> {
    translate_chars(s).map_values(|p: (char, char)| cell_of(p))
}

/// The number of cells in all of `lines`.
pub open spec fn total_cells(lines: Seq<Seq<Cell>>) -> nat
    decreases lines.len(),
{
    if lines.len() == 0 {
        0
    } else {
        total_cells(lines.drop_last()) + lines.last().len()
    }
}

impl Lesson {
    pub open spec fn lines_view(&self) -> Seq<Seq<Cell>> {
        self.lines@.map_values(|l: Vec<Cell>| l@)
    }

    /// A lesson the practice state machine can run: at least one line, no
    /// line empty or over the authoring budget, and a cell count that fits a
    /// `usize`.
    pub open spec fn well_formed(&self) -> bool {
        &&& self.lines@.len() > 0
        &&& forall|j: int|
            0 <= j < self.lines@.len() ==> #[trigger] self.lines@[j]@.len() > 0
                && self.lines@[j]@.len() <= MAX_LINE_LEN
        &&& total_cells(self.lines_view()) <= usize::MAX
    }
}

/// Every character of `s` is key notation.
pub open spec fn alphabet_only(s: Seq<char>) -> bool {
    forall|i: int| 0 <= i < s.len() ==> is_notation_char(#[trigger] s[i])
}

/// Every character of `s` from index `i` on is key notation (the same check
/// as `alphabet_only`, in a form that unfolds on a literal).
spec fn alphabet_from(s: Seq<char>, i: int) -> bool
    decreases s.len() - i,
{
    i >= s.len() || (is_notation_char(s[i]) && alphabet_from(s, i + 1))
}

proof fn lemma_alphabet_from(s: Seq<char>, i: int)
    requires
        0 <= i,
        alphabet_from(s, i),
    ensures
        forall|k: int| i <= k < s.len() ==> is_notation_char(#[trigger] s[k]),
    decreases s.len() - i,
{
    if i < s.len() {
        lemma_alphabet_from(s, i + 1);
    }
}

/// The authoring budget for one lesson line, in key-notation characters.
pub const MAX_LINE_LEN: usize = 36;

/// A lesson line as written: not empty, within the authoring budget, and
/// every character translates.
pub open spec fn line_ok(s: Seq<char>) -> bool {
    0 < s.len() <= MAX_LINE_LEN && alphabet_only(s)
}

pub open spec fn all_lines_ok(lines: Seq<&'static str>) -> bool {
    forall|j: int| 0 <= j < lines.len() ==> line_ok(#[trigger] lines[j]@)
}

/// A line whose characters are all key notation translates character for
/// character: one cell per character, the character as label and its glyph
/// underneath.
pub proof fn lemma_translate_alphabet_line(s: Seq<char>)
    requires
        alphabet_only(s),
    ensures
        translate_chars(s).len() == s.len(),
        forall|i: int|
            0 <= i < s.len() ==> #[trigger] translate_chars(s)[i] == (
                s[i],
                spec_key_notation_to_glyph(s[i]).unwrap().0,
            ),
    decreases s.len(),
{
    if s.len() > 0 {
        assert(alphabet_only(s.drop_last())) by {
            assert forall|i: int| 0 <= i < s.drop_last().len() implies is_notation_char(#[trigger] s.drop_last()[i]) by {
                assert(s.drop_last()[i] == s[i]);
            }
        }
        lemma_translate_alphabet_line(s.drop_last());
        lemma_notation_char_translates(s.last());
        assert forall|i: int| 0 <= i < s.len() implies #[trigger] translate_chars(s)[i] == (
            s[i],
            spec_key_notation_to_glyph(s[i]).unwrap().0,
        ) by {
            if i < s.len() - 1 {
                assert(s.drop_last()[i] == s[i]);
            }
        }
    }
}

impl Lesson {
    /// Build a lesson from lines written in key notation.  Every line must
    /// translate character for character: a character without meaning in
    /// key notation would silently vanish from the exercise.
    fn new(title: &'static str, hint: &'static str, raw_lines: &[&'static str]) -> (l: Lesson)
        requires
            forall|j: int| 0 <= j < raw_lines@.len() ==> alphabet_only(#[trigger] raw_lines@[j]@),
        ensures
            l.title == title,
            l.hint == hint,
            l.lines_view() == raw_lines@.map_values(|r: &'static str| cells_of(r@)),
            forall|j: int| 0 <= j < raw_lines@.len() ==> #[trigger] l.lines@[j]@.len() == raw_lines@[j]@.len(),
    {
        let mut lines: Vec<Vec<Cell>> = Vec::new();
        let mut j: usize = 0;
        while j < raw_lines.len()
            invariant
                0 <= j <= raw_lines@.len(),
                lines@.len() == j,
                forall|k: int| 0 <= k < j ==> #[trigger] lines@[k]@ == cells_of(raw_lines@[k]@),
            decreases raw_lines.len() - j,
        {
            let pairs = translate_line(raw_lines[j]);
            let ghost target = cells_of(raw_lines@[j as int]@);
            assert(target.len() == pairs@.len());
            let mut cells: Vec<Cell> = Vec::new();
            let mut i: usize = 0;
            while i < pairs.len()
                invariant
                    0 <= i <= pairs@.len(),
                    target.len() == pairs@.len(),
                    forall|k: int| 0 <= k < pairs@.len() ==> #[trigger] target[k] == cell_of(pairs@[k]),
                    cells@ == target.take(i as int),
                decreases pairs.len() - i,
            {
                let (key_label, glyph) = pairs[i];
                assert(target[i as int] == cell_of(pairs@[i as int]));
                cells.push(Cell { key_label, glyph });
                assert(cells@ =~= target.take(i + 1));
                i += 1;
            }
            assert(cells@ =~= target);
            lines.push(cells);
            j += 1;
        }
        let l = Lesson { title, hint, lines };
        assert(l.lines_view() =~= raw_lines@.map_values(|r: &'static str| cells_of(r@)));
        assert forall|j: int| 0 <= j < raw_lines@.len() implies #[trigger] l.lines@[j]@.len() == raw_lines@[j]@.len() by {
            lemma_translate_alphabet_line(raw_lines@[j]@);
            assert(l.lines@[j]@ == cells_of(raw_lines@[j]@));
        }
        l
    }

    /// Total number of typed cells across every line of this lesson.
    pub fn total_chars(&self) -> (n: usize)
        requires
            total_cells(self.lines_view()) <= usize::MAX,
        ensures
            n == total_cells(self.lines_view()),
    {
        let mut n: usize = 0;
        let mut j: usize = 0;
        while j < self.lines.len()
            invariant
                0 <= j <= self.lines@.len(),
                total_cells(self.lines_view()) <= usize::MAX,
                n == total_cells(self.lines_view().take(j as int)),
            decreases self.lines.len() - j,
        {
            assert(self.lines_view().take(j + 1).drop_last() =~= self.lines_view().take(j as int));
            proof { lemma_total_cells_prefix(self.lines_view(), j + 1); }
            n = n + self.lines[j].len();
            j += 1;
        }
        assert(self.lines_view().take(j as int) =~= self.lines_view());
        n
    }
}

/// A prefix of the lines has no more cells than all of them.
pub proof fn lemma_total_cells_prefix(lines: Seq<Seq<Cell>>, k: int)
    requires
        0 <= k <= lines.len(),
    ensures
        total_cells(lines.take(k)) <= total_cells(lines),
    decreases lines.len() - k,
{
    if k < lines.len() {
        lemma_total_cells_prefix(lines, k + 1);
        assert(lines.take(k + 1).drop_last() =~= lines.take(k));
    } else {
        assert(lines.take(k) =~= lines);
    }
}

/// Every cell of a line of key notation targets a glyph the layout can
/// type.
proof fn lemma_line_on_layout(s: Seq<char>)
    requires
        alphabet_only(s),
    ensures
        forall|k: int| 0 <= k < cells_of(s).len() ==> on_layout(#[trigger] cells_of(s)[k].glyph),
{
    lemma_translate_alphabet_line(s);
    assert forall|k: int| 0 <= k < cells_of(s).len() implies on_layout(#[trigger] cells_of(s)[k].glyph) by {
        let c = s[k];
        assert(is_notation_char(c));
        lemma_notation_char_translates(c);
        assert(cells_of(s)[k] == cell_of(translate_chars(s)[k]));
        if spec_key_notation_to_glyph(c).unwrap().0 != ' ' {
            lemma_notation_glyph_locates_its_key(c);
        }
    }
}

/// Every glyph of a lesson is one the layout can type.
pub open spec fn glyphs_on_layout(l: Lesson) -> bool {
    forall|j: int, k: int|
        0 <= j < l.lines@.len() && 0 <= k < l.lines@[j]@.len() ==> on_layout(
            #[trigger] l.lines@[j]@[k].glyph,
        )
}

/// The lines of a lesson built from well-authored key notation are the
/// cells of those lines, none empty and none over the authoring budget.
proof fn lemma_built_lesson(l: Lesson, raw: Seq<&'static str>)
    requires
        0 < raw.len() <= 6,
        all_lines_ok(raw),
        l.lines_view() == raw.map_values(|r: &'static str| cells_of(r@)),
        forall|j: int| 0 <= j < raw.len() ==> #[trigger] l.lines@[j]@.len() == raw[j]@.len(),
    ensures
        l.well_formed(),
        forall|j: int| 0 <= j < l.lines@.len() ==> #[trigger] l.lines@[j]@.len() <= MAX_LINE_LEN,
        glyphs_on_layout(l),
{
    assert(l.lines_view().len() == l.lines@.len());
    assert(raw.map_values(|r: &'static str| cells_of(r@)).len() == raw.len());
    assert(l.lines@.len() == raw.len());
    assert forall|j: int| 0 <= j < l.lines@.len() implies #[trigger] l.lines@[j]@.len() > 0 && l.lines@[j]@.len() <= MAX_LINE_LEN by {
        assert(line_ok(raw[j]@));
    }
    assert forall|j: int| 0 <= j < l.lines_view().len() implies #[trigger] l.lines_view()[j].len() <= MAX_LINE_LEN by {
        assert(l.lines_view()[j] == l.lines@[j]@);
    }
    lemma_total_cells_bound(l.lines_view());
    assert forall|j: int, k: int|
        0 <= j < l.lines@.len() && 0 <= k < l.lines@[j]@.len() implies on_layout(
            #[trigger] l.lines@[j]@[k].glyph,
        ) by {
        assert(line_ok(raw[j]@));
        lemma_line_on_layout(raw[j]@);
        assert(l.lines@[j]@ == l.lines_view()[j]);
        assert(l.lines_view()[j] == cells_of(raw[j]@));
    }
}

/// Lines of at most `MAX_LINE_LEN` cells hold at most that many cells each
/// in total.
proof fn lemma_total_cells_bound(lines: Seq<Seq<Cell>>)
    requires
        forall|j: int| 0 <= j < lines.len() ==> #[trigger] lines[j].len() <= MAX_LINE_LEN,
    ensures
        total_cells(lines) <= lines.len() * MAX_LINE_LEN,
    decreases lines.len(),
{
    if lines.len() > 0 {
        assert forall|j: int| 0 <= j < lines.drop_last().len() implies #[trigger] lines.drop_last()[j].len() <= MAX_LINE_LEN by {
            assert(lines.drop_last()[j] == lines[j]);
        }
        lemma_total_cells_bound(lines.drop_last());
        assert(lines.last().len() <= MAX_LINE_LEN);
    }
}

pub const STEP_1_TITLE: &'static str = "STEP 1 — INDEX FINGERS";
pub const STEP_1_HINT: &'static str = "F J · the home-row anchors";
pub const STEP_1_LINES: [&'static str; 5] = [
    "ffff jjjj ffff jjjj",
    "ffjj jjff fjfj jfjf",
    "fff jjj fjf jfj ffjj",
    "ffjj jjff fjfj jfjf ffjj jjff",
    "fjfj jfjf ffjj jjff fjjf jffj",
];

pub const STEP_2_TITLE: &'static str = "STEP 2 — INDEX REACHES";
pub const STEP_2_HINT: &'static str = "G H · reach in from F and J";
pub const STEP_2_LINES: [&'static str; 4] = [
    "gggg hhhh gghh hhgg",
    "fghj jhgf fgfg hjhj",
    "gh gh hg hg gghh hhgg ghgh hghg",
    "fghj jhgf ghfj jfhg fgjh hjfg",
];

pub const STEP_3_TITLE: &'static str = "STEP 3 — MIDDLE FINGERS";
pub const STEP_3_HINT: &'static str = "D K";
pub const STEP_3_LINES: [&'static str; 4] = [
    "dddd kkkk ddkk kkdd",
    "dkdk fjdk kjfd ddfk",
    "dk dk kd kd ddkk kkdd dkdk kdkd",
    "fjdk kjfd dkfj jkdf fdjk kdjf",
];

pub const STEP_4_TITLE: &'static str = "STEP 4 — RING FINGERS";
pub const STEP_4_HINT: &'static str = "S L";
pub const STEP_4_LINES: [&'static str; 4] = [
    "ssss llll ssll llss",
    "slsl dksl asdf jkl",
    "sl sl ls ls ssll llss slsl lsls",
    "dksl slkd asdf jkl fjsl lskj",
];

pub const STEP_5_TITLE: &'static str = "STEP 5 — WHOLE HOME ROW";
pub const STEP_5_HINT: &'static str = "the u-series · a s d f g h j k l";
pub const STEP_5_LINES: [&'static str; 6] = [
    "aaaa asdf ghjkl",
    "asdfghjkl",
    "lkjhgfdsa",
    "asdf jkl asdf jkl ghjk fdsa",
    "asdfghjkl lkjhgfdsa asdfghjkl",
    "fghj jhgf asdfjkl lkjfdsagh",
];

pub const STEP_6_TITLE: &'static str = "STEP 6 — HOME ROW SHIFT";
pub const STEP_6_HINT: &'static str = "hold Shift · the u-series again, one octave up";
pub const STEP_6_LINES: [&'static str; 4] = [
    "FF JJ FF JJ FJFJ JFJF",
    "AA SS DD FF JJ KK LL",
    "ASDF JKL ASDF JKL",
    "FJ FJ FJ AS DK JL",
];

pub const STEP_7_TITLE: &'static str = "STEP 7 — TOP ROW (i-series)";
pub const STEP_7_HINT: &'static str = "reach up from home";
pub const STEP_7_LINES: [&'static str; 4] = [
    "rrrr uuuu ffrr jjuu",
    "tttt yyyy eeee iiii",
    "wwww oooo qqqq pppp",
    "qwert yuiop",
];

pub const STEP_8_TITLE: &'static str = "STEP 8 — BOTTOM ROW (a-series)";
pub const STEP_8_HINT: &'static str = "reach down from home";
pub const STEP_8_LINES: [&'static str; 4] = [
    "vvvv mmmm ffvv jjmm",
    "bbbb nnnn cccc xxxx",
    "zzzz zxcvb nm",
    "zxcvbnm",
];

pub const STEP_9_TITLE: &'static str = "STEP 9 — NUMBER ROW (finals)";
pub const STEP_9_HINT: &'static str = "naniit · these end syllables & words · = is ᕝ";
pub const STEP_9_LINES: [&'static str; 4] = [
    "4444 7777 2222 5555",
    "6666 8888 1111 3333 9999 0000",
    "==== ==== ==== ====",
    "4= 7= 2= 5= 6= 8= 1=",
];

pub const STEP_10_TITLE: &'static str = "STEP 10 — PUNCTUATION";
pub const STEP_10_HINT: &'static str = "comma · period · Shift+V = ?";
pub const STEP_10_LINES: [&'static str; 5] = [
    ",,,, .... ,,,, ....",
    ",. ., ,. ., ,,.. ..,,",
    "vv VV vv VV vVVv VvvV",
    "zx, cv. bn, m.",
    "v, V. v, V. vV Vv",
];

pub const STEP_11_TITLE: &'static str = "STEP 11 — COLUMNS = CONSONANTS";
pub const STEP_11_HINT: &'static str = "three vowels i / u / a per consonant · last row needs Shift";
pub const STEP_11_LINES: [&'static str; 4] = [
    "qaz wsx edc rfv",
    "tgb yhn ujm",
    "olM ikN pJ/",
    "olM olM ikN ikN pJ/ pJ/",
];

pub const STEP_12_TITLE: &'static str = "STEP 12 — REAL WORDS";
pub const STEP_12_HINT: &'static str = "all on base keys — no Shift";
pub const STEP_12_LINES: [&'static str; 3] = [
    "wk4 wkw5 w[l yf",
    "wu6 vu4 c/6 sux6",
    "xuh5 wclw5 tr wu6",
];

pub const STEP_13_TITLE: &'static str = "STEP 13 — SHIFT LAYER";
pub const STEP_13_HINT: &'static str = "hold Shift · W/S/X · Q/A/Z · E/D/C · F/K/|";
pub const STEP_13_LINES: [&'static str; 4] = [
    "WSX WSX",
    "QAZ QAZ",
    "EDC EDC",
    "FK| FK|",
];

pub const STEP_14_TITLE: &'static str = "STEP 14 — THE REST OF THE SHIFT LAYER";
pub const STEP_14_HINT: &'static str = "ᙱᙳᙵᖖ nng · ᖠᖢᖤᖦ lh · ᔅ and ᕼ finals";
pub const STEP_14_LINES: [&'static str; 6] = [
    "TT YY UU RR",
    "TYU TYU RRRR",
    "OO LL II PP",
    "OLI OLI PPPP",
    "{{ BB {{ BB",
    "TYUR OLIP {B",
];

proof fn lemma_step_1_lines_ok()
    ensures
        all_lines_ok(STEP_1_LINES@),
{
    assert(0 < STEP_1_LINES@[0]@.len() <= MAX_LINE_LEN && alphabet_from(STEP_1_LINES@[0]@, 0)) by {
        reveal_strlit("ffff jjjj ffff jjjj");
        reveal_with_fuel(alphabet_from, 20);
    }
    lemma_alphabet_from(STEP_1_LINES@[0]@, 0);
    assert(0 < STEP_1_LINES@[1]@.len() <= MAX_LINE_LEN && alphabet_from(STEP_1_LINES@[1]@, 0)) by {
        reveal_strlit("ffjj jjff fjfj jfjf");
        reveal_with_fuel(alphabet_from, 20);
    }
    lemma_alphabet_from(STEP_1_LINES@[1]@, 0);
    assert(0 < STEP_1_LINES@[2]@.len() <= MAX_LINE_LEN && alphabet_from(STEP_1_LINES@[2]@, 0)) by {
        reveal_strlit("fff jjj fjf jfj ffjj");
        reveal_with_fuel(alphabet_from, 21);
    }
    lemma_alphabet_from(STEP_1_LINES@[2]@, 0);
    assert(0 < STEP_1_LINES@[3]@.len() <= MAX_LINE_LEN && alphabet_from(STEP_1_LINES@[3]@, 0)) by {
        reveal_strlit("ffjj jjff fjfj jfjf ffjj jjff");
        reveal_with_fuel(alphabet_from, 30);
    }
    lemma_alphabet_from(STEP_1_LINES@[3]@, 0);
    assert(0 < STEP_1_LINES@[4]@.len() <= MAX_LINE_LEN && alphabet_from(STEP_1_LINES@[4]@, 0)) by {
        reveal_strlit("fjfj jfjf ffjj jjff fjjf jffj");
        reveal_with_fuel(alphabet_from, 30);
    }
    lemma_alphabet_from(STEP_1_LINES@[4]@, 0);
    assert forall|j: int| 0 <= j < STEP_1_LINES@.len() implies line_ok(#[trigger] STEP_1_LINES@[j]@) by {
        if j == 0 {
        } else if j == 1 {
        } else if j == 2 {
        } else if j == 3 {
        }
    }
}

proof fn lemma_step_2_lines_ok()
    ensures
        all_lines_ok(STEP_2_LINES@),
{
    assert(0 < STEP_2_LINES@[0]@.len() <= MAX_LINE_LEN && alphabet_from(STEP_2_LINES@[0]@, 0)) by {
        reveal_strlit("gggg hhhh gghh hhgg");
        reveal_with_fuel(alphabet_from, 20);
    }
    lemma_alphabet_from(STEP_2_LINES@[0]@, 0);
    assert(0 < STEP_2_LINES@[1]@.len() <= MAX_LINE_LEN && alphabet_from(STEP_2_LINES@[1]@, 0)) by {
        reveal_strlit("fghj jhgf fgfg hjhj");
        reveal_with_fuel(alphabet_from, 20);
    }
    lemma_alphabet_from(STEP_2_LINES@[1]@, 0);
    assert(0 < STEP_2_LINES@[2]@.len() <= MAX_LINE_LEN && alphabet_from(STEP_2_LINES@[2]@, 0)) by {
        reveal_strlit("gh gh hg hg gghh hhgg ghgh hghg");
        reveal_with_fuel(alphabet_from, 32);
    }
    lemma_alphabet_from(STEP_2_LINES@[2]@, 0);
    assert(0 < STEP_2_LINES@[3]@.len() <= MAX_LINE_LEN && alphabet_from(STEP_2_LINES@[3]@, 0)) by {
        reveal_strlit("fghj jhgf ghfj jfhg fgjh hjfg");
        reveal_with_fuel(alphabet_from, 30);
    }
    lemma_alphabet_from(STEP_2_LINES@[3]@, 0);
    assert forall|j: int| 0 <= j < STEP_2_LINES@.len() implies line_ok(#[trigger] STEP_2_LINES@[j]@) by {
        if j == 0 {
        } else if j == 1 {
        } else if j == 2 {
        }
    }
}

proof fn lemma_step_3_lines_ok()
    ensures
        all_lines_ok(STEP_3_LINES@),
{
    assert(0 < STEP_3_LINES@[0]@.len() <= MAX_LINE_LEN && alphabet_from(STEP_3_LINES@[0]@, 0)) by {
        reveal_strlit("dddd kkkk ddkk kkdd");
        reveal_with_fuel(alphabet_from, 20);
    }
    lemma_alphabet_from(STEP_3_LINES@[0]@, 0);
    assert(0 < STEP_3_LINES@[1]@.len() <= MAX_LINE_LEN && alphabet_from(STEP_3_LINES@[1]@, 0)) by {
        reveal_strlit("dkdk fjdk kjfd ddfk");
        reveal_with_fuel(alphabet_from, 20);
    }
    lemma_alphabet_from(STEP_3_LINES@[1]@, 0);
    assert(0 < STEP_3_LINES@[2]@.len() <= MAX_LINE_LEN && alphabet_from(STEP_3_LINES@[2]@, 0)) by {
        reveal_strlit("dk dk kd kd ddkk kkdd dkdk kdkd");
        reveal_with_fuel(alphabet_from, 32);
    }
    lemma_alphabet_from(STEP_3_LINES@[2]@, 0);
    assert(0 < STEP_3_LINES@[3]@.len() <= MAX_LINE_LEN && alphabet_from(STEP_3_LINES@[3]@, 0)) by {
        reveal_strlit("fjdk kjfd dkfj jkdf fdjk kdjf");
        reveal_with_fuel(alphabet_from, 30);
    }
    lemma_alphabet_from(STEP_3_LINES@[3]@, 0);
    assert forall|j: int| 0 <= j < STEP_3_LINES@.len() implies line_ok(#[trigger] STEP_3_LINES@[j]@) by {
        if j == 0 {
        } else if j == 1 {
        } else if j == 2 {
        }
    }
}

proof fn lemma_step_4_lines_ok()
    ensures
        all_lines_ok(STEP_4_LINES@),
{
    assert(0 < STEP_4_LINES@[0]@.len() <= MAX_LINE_LEN && alphabet_from(STEP_4_LINES@[0]@, 0)) by {
        reveal_strlit("ssss llll ssll llss");
        reveal_with_fuel(alphabet_from, 20);
    }
    lemma_alphabet_from(STEP_4_LINES@[0]@, 0);
    assert(0 < STEP_4_LINES@[1]@.len() <= MAX_LINE_LEN && alphabet_from(STEP_4_LINES@[1]@, 0)) by {
        reveal_strlit("slsl dksl asdf jkl");
        reveal_with_fuel(alphabet_from, 19);
    }
    lemma_alphabet_from(STEP_4_LINES@[1]@, 0);
    assert(0 < STEP_4_LINES@[2]@.len() <= MAX_LINE_LEN && alphabet_from(STEP_4_LINES@[2]@, 0)) by {
        reveal_strlit("sl sl ls ls ssll llss slsl lsls");
        reveal_with_fuel(alphabet_from, 32);
    }
    lemma_alphabet_from(STEP_4_LINES@[2]@, 0);
    assert(0 < STEP_4_LINES@[3]@.len() <= MAX_LINE_LEN && alphabet_from(STEP_4_LINES@[3]@, 0)) by {
        reveal_strlit("dksl slkd asdf jkl fjsl lskj");
        reveal_with_fuel(alphabet_from, 29);
    }
    lemma_alphabet_from(STEP_4_LINES@[3]@, 0);
    assert forall|j: int| 0 <= j < STEP_4_LINES@.len() implies line_ok(#[trigger] STEP_4_LINES@[j]@) by {
        if j == 0 {
        } else if j == 1 {
        } else if j == 2 {
        }
    }
}

proof fn lemma_step_5_lines_ok()
    ensures
        all_lines_ok(STEP_5_LINES@),
{
    assert(0 < STEP_5_LINES@[0]@.len() <= MAX_LINE_LEN && alphabet_from(STEP_5_LINES@[0]@, 0)) by {
        reveal_strlit("aaaa asdf ghjkl");
        reveal_with_fuel(alphabet_from, 16);
    }
    lemma_alphabet_from(STEP_5_LINES@[0]@, 0);
    assert(0 < STEP_5_LINES@[1]@.len() <= MAX_LINE_LEN && alphabet_from(STEP_5_LINES@[1]@, 0)) by {
        reveal_strlit("asdfghjkl");
        reveal_with_fuel(alphabet_from, 10);
    }
    lemma_alphabet_from(STEP_5_LINES@[1]@, 0);
    assert(0 < STEP_5_LINES@[2]@.len() <= MAX_LINE_LEN && alphabet_from(STEP_5_LINES@[2]@, 0)) by {
        reveal_strlit("lkjhgfdsa");
        reveal_with_fuel(alphabet_from, 10);
    }
    lemma_alphabet_from(STEP_5_LINES@[2]@, 0);
    assert(0 < STEP_5_LINES@[3]@.len() <= MAX_LINE_LEN && alphabet_from(STEP_5_LINES@[3]@, 0)) by {
        reveal_strlit("asdf jkl asdf jkl ghjk fdsa");
        reveal_with_fuel(alphabet_from, 28);
    }
    lemma_alphabet_from(STEP_5_LINES@[3]@, 0);
    assert(0 < STEP_5_LINES@[4]@.len() <= MAX_LINE_LEN && alphabet_from(STEP_5_LINES@[4]@, 0)) by {
        reveal_strlit("asdfghjkl lkjhgfdsa asdfghjkl");
        reveal_with_fuel(alphabet_from, 30);
    }
    lemma_alphabet_from(STEP_5_LINES@[4]@, 0);
    assert(0 < STEP_5_LINES@[5]@.len() <= MAX_LINE_LEN && alphabet_from(STEP_5_LINES@[5]@, 0)) by {
        reveal_strlit("fghj jhgf asdfjkl lkjfdsagh");
        reveal_with_fuel(alphabet_from, 28);
    }
    lemma_alphabet_from(STEP_5_LINES@[5]@, 0);
    assert forall|j: int| 0 <= j < STEP_5_LINES@.len() implies line_ok(#[trigger] STEP_5_LINES@[j]@) by {
        if j == 0 {
        } else if j == 1 {
        } else if j == 2 {
        } else if j == 3 {
        } else if j == 4 {
        }
    }
}

proof fn lemma_step_6_lines_ok()
    ensures
        all_lines_ok(STEP_6_LINES@),
{
    assert(0 < STEP_6_LINES@[0]@.len() <= MAX_LINE_LEN && alphabet_from(STEP_6_LINES@[0]@, 0)) by {
        reveal_strlit("FF JJ FF JJ FJFJ JFJF");
        reveal_with_fuel(alphabet_from, 22);
    }
    lemma_alphabet_from(STEP_6_LINES@[0]@, 0);
    assert(0 < STEP_6_LINES@[1]@.len() <= MAX_LINE_LEN && alphabet_from(STEP_6_LINES@[1]@, 0)) by {
        reveal_strlit("AA SS DD FF JJ KK LL");
        reveal_with_fuel(alphabet_from, 21);
    }
    lemma_alphabet_from(STEP_6_LINES@[1]@, 0);
    assert(0 < STEP_6_LINES@[2]@.len() <= MAX_LINE_LEN && alphabet_from(STEP_6_LINES@[2]@, 0)) by {
        reveal_strlit("ASDF JKL ASDF JKL");
        reveal_with_fuel(alphabet_from, 18);
    }
    lemma_alphabet_from(STEP_6_LINES@[2]@, 0);
    assert(0 < STEP_6_LINES@[3]@.len() <= MAX_LINE_LEN && alphabet_from(STEP_6_LINES@[3]@, 0)) by {
        reveal_strlit("FJ FJ FJ AS DK JL");
        reveal_with_fuel(alphabet_from, 18);
    }
    lemma_alphabet_from(STEP_6_LINES@[3]@, 0);
    assert forall|j: int| 0 <= j < STEP_6_LINES@.len() implies line_ok(#[trigger] STEP_6_LINES@[j]@) by {
        if j == 0 {
        } else if j == 1 {
        } else if j == 2 {
        }
    }
}

proof fn lemma_step_7_lines_ok()
    ensures
        all_lines_ok(STEP_7_LINES@),
{
    assert(0 < STEP_7_LINES@[0]@.len() <= MAX_LINE_LEN && alphabet_from(STEP_7_LINES@[0]@, 0)) by {
        reveal_strlit("rrrr uuuu ffrr jjuu");
        reveal_with_fuel(alphabet_from, 20);
    }
    lemma_alphabet_from(STEP_7_LINES@[0]@, 0);
    assert(0 < STEP_7_LINES@[1]@.len() <= MAX_LINE_LEN && alphabet_from(STEP_7_LINES@[1]@, 0)) by {
        reveal_strlit("tttt yyyy eeee iiii");
        reveal_with_fuel(alphabet_from, 20);
    }
    lemma_alphabet_from(STEP_7_LINES@[1]@, 0);
    assert(0 < STEP_7_LINES@[2]@.len() <= MAX_LINE_LEN && alphabet_from(STEP_7_LINES@[2]@, 0)) by {
        reveal_strlit("wwww oooo qqqq pppp");
        reveal_with_fuel(alphabet_from, 20);
    }
    lemma_alphabet_from(STEP_7_LINES@[2]@, 0);
    assert(0 < STEP_7_LINES@[3]@.len() <= MAX_LINE_LEN && alphabet_from(STEP_7_LINES@[3]@, 0)) by {
        reveal_strlit("qwert yuiop");
        reveal_with_fuel(alphabet_from, 12);
    }
    lemma_alphabet_from(STEP_7_LINES@[3]@, 0);
    assert forall|j: int| 0 <= j < STEP_7_LINES@.len() implies line_ok(#[trigger] STEP_7_LINES@[j]@) by {
        if j == 0 {
        } else if j == 1 {
        } else if j == 2 {
        }
    }
}

proof fn lemma_step_8_lines_ok()
    ensures
        all_lines_ok(STEP_8_LINES@),
{
    assert(0 < STEP_8_LINES@[0]@.len() <= MAX_LINE_LEN && alphabet_from(STEP_8_LINES@[0]@, 0)) by {
        reveal_strlit("vvvv mmmm ffvv jjmm");
        reveal_with_fuel(alphabet_from, 20);
    }
    lemma_alphabet_from(STEP_8_LINES@[0]@, 0);
    assert(0 < STEP_8_LINES@[1]@.len() <= MAX_LINE_LEN && alphabet_from(STEP_8_LINES@[1]@, 0)) by {
        reveal_strlit("bbbb nnnn cccc xxxx");
        reveal_with_fuel(alphabet_from, 20);
    }
    lemma_alphabet_from(STEP_8_LINES@[1]@, 0);
    assert(0 < STEP_8_LINES@[2]@.len() <= MAX_LINE_LEN && alphabet_from(STEP_8_LINES@[2]@, 0)) by {
        reveal_strlit("zzzz zxcvb nm");
        reveal_with_fuel(alphabet_from, 14);
    }
    lemma_alphabet_from(STEP_8_LINES@[2]@, 0);
    assert(0 < STEP_8_LINES@[3]@.len() <= MAX_LINE_LEN && alphabet_from(STEP_8_LINES@[3]@, 0)) by {
        reveal_strlit("zxcvbnm");
        reveal_with_fuel(alphabet_from, 8);
    }
    lemma_alphabet_from(STEP_8_LINES@[3]@, 0);
    assert forall|j: int| 0 <= j < STEP_8_LINES@.len() implies line_ok(#[trigger] STEP_8_LINES@[j]@) by {
        if j == 0 {
        } else if j == 1 {
        } else if j == 2 {
        }
    }
}

proof fn lemma_step_9_lines_ok()
    ensures
        all_lines_ok(STEP_9_LINES@),
{
    assert(0 < STEP_9_LINES@[0]@.len() <= MAX_LINE_LEN && alphabet_from(STEP_9_LINES@[0]@, 0)) by {
        reveal_strlit("4444 7777 2222 5555");
        reveal_with_fuel(alphabet_from, 20);
    }
    lemma_alphabet_from(STEP_9_LINES@[0]@, 0);
    assert(0 < STEP_9_LINES@[1]@.len() <= MAX_LINE_LEN && alphabet_from(STEP_9_LINES@[1]@, 0)) by {
        reveal_strlit("6666 8888 1111 3333 9999 0000");
        reveal_with_fuel(alphabet_from, 30);
    }
    lemma_alphabet_from(STEP_9_LINES@[1]@, 0);
    assert(0 < STEP_9_LINES@[2]@.len() <= MAX_LINE_LEN && alphabet_from(STEP_9_LINES@[2]@, 0)) by {
        reveal_strlit("==== ==== ==== ====");
        reveal_with_fuel(alphabet_from, 20);
    }
    lemma_alphabet_from(STEP_9_LINES@[2]@, 0);
    assert(0 < STEP_9_LINES@[3]@.len() <= MAX_LINE_LEN && alphabet_from(STEP_9_LINES@[3]@, 0)) by {
        reveal_strlit("4= 7= 2= 5= 6= 8= 1=");
        reveal_with_fuel(alphabet_from, 21);
    }
    lemma_alphabet_from(STEP_9_LINES@[3]@, 0);
    assert forall|j: int| 0 <= j < STEP_9_LINES@.len() implies line_ok(#[trigger] STEP_9_LINES@[j]@) by {
        if j == 0 {
        } else if j == 1 {
        } else if j == 2 {
        }
    }
}

proof fn lemma_step_10_lines_ok()
    ensures
        all_lines_ok(STEP_10_LINES@),
{
    assert(0 < STEP_10_LINES@[0]@.len() <= MAX_LINE_LEN && alphabet_from(STEP_10_LINES@[0]@, 0)) by {
        reveal_strlit(",,,, .... ,,,, ....");
        reveal_with_fuel(alphabet_from, 20);
    }
    lemma_alphabet_from(STEP_10_LINES@[0]@, 0);
    assert(0 < STEP_10_LINES@[1]@.len() <= MAX_LINE_LEN && alphabet_from(STEP_10_LINES@[1]@, 0)) by {
        reveal_strlit(",. ., ,. ., ,,.. ..,,");
        reveal_with_fuel(alphabet_from, 22);
    }
    lemma_alphabet_from(STEP_10_LINES@[1]@, 0);
    assert(0 < STEP_10_LINES@[2]@.len() <= MAX_LINE_LEN && alphabet_from(STEP_10_LINES@[2]@, 0)) by {
        reveal_strlit("vv VV vv VV vVVv VvvV");
        reveal_with_fuel(alphabet_from, 22);
    }
    lemma_alphabet_from(STEP_10_LINES@[2]@, 0);
    assert(0 < STEP_10_LINES@[3]@.len() <= MAX_LINE_LEN && alphabet_from(STEP_10_LINES@[3]@, 0)) by {
        reveal_strlit("zx, cv. bn, m.");
        reveal_with_fuel(alphabet_from, 15);
    }
    lemma_alphabet_from(STEP_10_LINES@[3]@, 0);
    assert(0 < STEP_10_LINES@[4]@.len() <= MAX_LINE_LEN && alphabet_from(STEP_10_LINES@[4]@, 0)) by {
        reveal_strlit("v, V. v, V. vV Vv");
        reveal_with_fuel(alphabet_from, 18);
    }
    lemma_alphabet_from(STEP_10_LINES@[4]@, 0);
    assert forall|j: int| 0 <= j < STEP_10_LINES@.len() implies line_ok(#[trigger] STEP_10_LINES@[j]@) by {
        if j == 0 {
        } else if j == 1 {
        } else if j == 2 {
        } else if j == 3 {
        }
    }
}

proof fn lemma_step_11_lines_ok()
    ensures
        all_lines_ok(STEP_11_LINES@),
{
    assert(0 < STEP_11_LINES@[0]@.len() <= MAX_LINE_LEN && alphabet_from(STEP_11_LINES@[0]@, 0)) by {
        reveal_strlit("qaz wsx edc rfv");
        reveal_with_fuel(alphabet_from, 16);
    }
    lemma_alphabet_from(STEP_11_LINES@[0]@, 0);
    assert(0 < STEP_11_LINES@[1]@.len() <= MAX_LINE_LEN && alphabet_from(STEP_11_LINES@[1]@, 0)) by {
        reveal_strlit("tgb yhn ujm");
        reveal_with_fuel(alphabet_from, 12);
    }
    lemma_alphabet_from(STEP_11_LINES@[1]@, 0);
    assert(0 < STEP_11_LINES@[2]@.len() <= MAX_LINE_LEN && alphabet_from(STEP_11_LINES@[2]@, 0)) by {
        reveal_strlit("olM ikN pJ/");
        reveal_with_fuel(alphabet_from, 12);
    }
    lemma_alphabet_from(STEP_11_LINES@[2]@, 0);
    assert(0 < STEP_11_LINES@[3]@.len() <= MAX_LINE_LEN && alphabet_from(STEP_11_LINES@[3]@, 0)) by {
        reveal_strlit("olM olM ikN ikN pJ/ pJ/");
        reveal_with_fuel(alphabet_from, 24);
    }
    lemma_alphabet_from(STEP_11_LINES@[3]@, 0);
    assert forall|j: int| 0 <= j < STEP_11_LINES@.len() implies line_ok(#[trigger] STEP_11_LINES@[j]@) by {
        if j == 0 {
        } else if j == 1 {
        } else if j == 2 {
        }
    }
}

proof fn lemma_step_12_lines_ok()
    ensures
        all_lines_ok(STEP_12_LINES@),
{
    assert(0 < STEP_12_LINES@[0]@.len() <= MAX_LINE_LEN && alphabet_from(STEP_12_LINES@[0]@, 0)) by {
        reveal_strlit("wk4 wkw5 w[l yf");
        reveal_with_fuel(alphabet_from, 16);
    }
    lemma_alphabet_from(STEP_12_LINES@[0]@, 0);
    assert(0 < STEP_12_LINES@[1]@.len() <= MAX_LINE_LEN && alphabet_from(STEP_12_LINES@[1]@, 0)) by {
        reveal_strlit("wu6 vu4 c/6 sux6");
        reveal_with_fuel(alphabet_from, 17);
    }
    lemma_alphabet_from(STEP_12_LINES@[1]@, 0);
    assert(0 < STEP_12_LINES@[2]@.len() <= MAX_LINE_LEN && alphabet_from(STEP_12_LINES@[2]@, 0)) by {
        reveal_strlit("xuh5 wclw5 tr wu6");
        reveal_with_fuel(alphabet_from, 18);
    }
    lemma_alphabet_from(STEP_12_LINES@[2]@, 0);
    assert forall|j: int| 0 <= j < STEP_12_LINES@.len() implies line_ok(#[trigger] STEP_12_LINES@[j]@) by {
        if j == 0 {
        } else if j == 1 {
        }
    }
}

proof fn lemma_step_13_lines_ok()
    ensures
        all_lines_ok(STEP_13_LINES@),
{
    assert(0 < STEP_13_LINES@[0]@.len() <= MAX_LINE_LEN && alphabet_from(STEP_13_LINES@[0]@, 0)) by {
        reveal_strlit("WSX WSX");
        reveal_with_fuel(alphabet_from, 8);
    }
    lemma_alphabet_from(STEP_13_LINES@[0]@, 0);
    assert(0 < STEP_13_LINES@[1]@.len() <= MAX_LINE_LEN && alphabet_from(STEP_13_LINES@[1]@, 0)) by {
        reveal_strlit("QAZ QAZ");
        reveal_with_fuel(alphabet_from, 8);
    }
    lemma_alphabet_from(STEP_13_LINES@[1]@, 0);
    assert(0 < STEP_13_LINES@[2]@.len() <= MAX_LINE_LEN && alphabet_from(STEP_13_LINES@[2]@, 0)) by {
        reveal_strlit("EDC EDC");
        reveal_with_fuel(alphabet_from, 8);
    }
    lemma_alphabet_from(STEP_13_LINES@[2]@, 0);
    assert(0 < STEP_13_LINES@[3]@.len() <= MAX_LINE_LEN && alphabet_from(STEP_13_LINES@[3]@, 0)) by {
        reveal_strlit("FK| FK|");
        reveal_with_fuel(alphabet_from, 8);
    }
    lemma_alphabet_from(STEP_13_LINES@[3]@, 0);
    assert forall|j: int| 0 <= j < STEP_13_LINES@.len() implies line_ok(#[trigger] STEP_13_LINES@[j]@) by {
        if j == 0 {
        } else if j == 1 {
        } else if j == 2 {
        }
    }
}

proof fn lemma_step_14_lines_ok()
    ensures
        all_lines_ok(STEP_14_LINES@),
{
    assert(0 < STEP_14_LINES@[0]@.len() <= MAX_LINE_LEN && alphabet_from(STEP_14_LINES@[0]@, 0)) by {
        reveal_strlit("TT YY UU RR");
        reveal_with_fuel(alphabet_from, 12);
    }
    lemma_alphabet_from(STEP_14_LINES@[0]@, 0);
    assert(0 < STEP_14_LINES@[1]@.len() <= MAX_LINE_LEN && alphabet_from(STEP_14_LINES@[1]@, 0)) by {
        reveal_strlit("TYU TYU RRRR");
        reveal_with_fuel(alphabet_from, 13);
    }
    lemma_alphabet_from(STEP_14_LINES@[1]@, 0);
    assert(0 < STEP_14_LINES@[2]@.len() <= MAX_LINE_LEN && alphabet_from(STEP_14_LINES@[2]@, 0)) by {
        reveal_strlit("OO LL II PP");
        reveal_with_fuel(alphabet_from, 12);
    }
    lemma_alphabet_from(STEP_14_LINES@[2]@, 0);
    assert(0 < STEP_14_LINES@[3]@.len() <= MAX_LINE_LEN && alphabet_from(STEP_14_LINES@[3]@, 0)) by {
        reveal_strlit("OLI OLI PPPP");
        reveal_with_fuel(alphabet_from, 13);
    }
    lemma_alphabet_from(STEP_14_LINES@[3]@, 0);
    assert(0 < STEP_14_LINES@[4]@.len() <= MAX_LINE_LEN && alphabet_from(STEP_14_LINES@[4]@, 0)) by {
        reveal_strlit("{{ BB {{ BB");
        reveal_with_fuel(alphabet_from, 12);
    }
    lemma_alphabet_from(STEP_14_LINES@[4]@, 0);
    assert(0 < STEP_14_LINES@[5]@.len() <= MAX_LINE_LEN && alphabet_from(STEP_14_LINES@[5]@, 0)) by {
        reveal_strlit("TYUR OLIP {B");
        reveal_with_fuel(alphabet_from, 13);
    }
    lemma_alphabet_from(STEP_14_LINES@[5]@, 0);
    assert forall|j: int| 0 <= j < STEP_14_LINES@.len() implies line_ok(#[trigger] STEP_14_LINES@[j]@) by {
        if j == 0 {
        } else if j == 1 {
        } else if j == 2 {
        } else if j == 3 {
        } else if j == 4 {
        }
    }
}

/// The number of lesson steps in the course.
pub const NUM_LESSONS: usize = 14;

/// Lesson step `i` as written: its title, its hint and its lines in key
/// notation.
pub open spec fn lesson_source(i: int) -> (&'static str, &'static str, Seq<&'static str>) {
    if i == 0 {
        (STEP_1_TITLE, STEP_1_HINT, STEP_1_LINES@)
    } else if i == 1 {
        (STEP_2_TITLE, STEP_2_HINT, STEP_2_LINES@)
    } else if i == 2 {
        (STEP_3_TITLE, STEP_3_HINT, STEP_3_LINES@)
    } else if i == 3 {
        (STEP_4_TITLE, STEP_4_HINT, STEP_4_LINES@)
    } else if i == 4 {
        (STEP_5_TITLE, STEP_5_HINT, STEP_5_LINES@)
    } else if i == 5 {
        (STEP_6_TITLE, STEP_6_HINT, STEP_6_LINES@)
    } else if i == 6 {
        (STEP_7_TITLE, STEP_7_HINT, STEP_7_LINES@)
    } else if i == 7 {
        (STEP_8_TITLE, STEP_8_HINT, STEP_8_LINES@)
    } else if i == 8 {
        (STEP_9_TITLE, STEP_9_HINT, STEP_9_LINES@)
    } else if i == 9 {
        (STEP_10_TITLE, STEP_10_HINT, STEP_10_LINES@)
    } else if i == 10 {
        (STEP_11_TITLE, STEP_11_HINT, STEP_11_LINES@)
    } else if i == 11 {
        (STEP_12_TITLE, STEP_12_HINT, STEP_12_LINES@)
    } else if i == 12 {
        (STEP_13_TITLE, STEP_13_HINT, STEP_13_LINES@)
    } else {
        (STEP_14_TITLE, STEP_14_HINT, STEP_14_LINES@)
    }
}

/// `l` is the lesson built from `source`: same title and hint, and each
/// line the cells of the corresponding line of key notation.
pub open spec fn lesson_matches(l: Lesson, source: (&'static str, &'static str, Seq<&'static str>)) -> bool {
    &&& l.title == source.0
    &&& l.hint == source.1
    &&& l.lines_view() == source.2.map_values(|r: &'static str| cells_of(r@))
}

/// The graded lesson steps of the course, in order.  Every line translates
/// character for character (no key-notation character is lost), no line is
/// empty or longer than the authoring budget, and every lesson has lines.
pub fn all_lessons() -> (r: Vec<Lesson>)
    ensures
        r@.len() == NUM_LESSONS,
        forall|i: int| 0 <= i < NUM_LESSONS ==> lesson_matches(#[trigger] r@[i], lesson_source(i)),
        forall|i: int| 0 <= i < NUM_LESSONS ==> (#[trigger] r@[i]).well_formed(),
        forall|i: int, j: int|
            0 <= i < NUM_LESSONS && 0 <= j < r@[i].lines@.len() ==> #[trigger] r@[i].lines@[j]@.len()
                <= MAX_LINE_LEN,
        forall|i: int| 0 <= i < NUM_LESSONS ==> glyphs_on_layout(#[trigger] r@[i]),
{
    let mut lessons: Vec<Lesson> = Vec::new();
    proof {
        lemma_step_1_lines_ok();
    }
    let lesson = Lesson::new(STEP_1_TITLE, STEP_1_HINT, &STEP_1_LINES);
    proof {
        lemma_built_lesson(lesson, STEP_1_LINES@);
    }
    lessons.push(lesson);
    proof {
        lemma_step_2_lines_ok();
    }
    let lesson = Lesson::new(STEP_2_TITLE, STEP_2_HINT, &STEP_2_LINES);
    proof {
        lemma_built_lesson(lesson, STEP_2_LINES@);
    }
    lessons.push(lesson);
    proof {
        lemma_step_3_lines_ok();
    }
    let lesson = Lesson::new(STEP_3_TITLE, STEP_3_HINT, &STEP_3_LINES);
    proof {
        lemma_built_lesson(lesson, STEP_3_LINES@);
    }
    lessons.push(lesson);
    proof {
        lemma_step_4_lines_ok();
    }
    let lesson = Lesson::new(STEP_4_TITLE, STEP_4_HINT, &STEP_4_LINES);
    proof {
        lemma_built_lesson(lesson, STEP_4_LINES@);
    }
    lessons.push(lesson);
    proof {
        lemma_step_5_lines_ok();
    }
    let lesson = Lesson::new(STEP_5_TITLE, STEP_5_HINT, &STEP_5_LINES);
    proof {
        lemma_built_lesson(lesson, STEP_5_LINES@);
    }
    lessons.push(lesson);
    proof {
        lemma_step_6_lines_ok();
    }
    let lesson = Lesson::new(STEP_6_TITLE, STEP_6_HINT, &STEP_6_LINES);
    proof {
        lemma_built_lesson(lesson, STEP_6_LINES@);
    }
    lessons.push(lesson);
    proof {
        lemma_step_7_lines_ok();
    }
    let lesson = Lesson::new(STEP_7_TITLE, STEP_7_HINT, &STEP_7_LINES);
    proof {
        lemma_built_lesson(lesson, STEP_7_LINES@);
    }
    lessons.push(lesson);
    proof {
        lemma_step_8_lines_ok();
    }
    let lesson = Lesson::new(STEP_8_TITLE, STEP_8_HINT, &STEP_8_LINES);
    proof {
        lemma_built_lesson(lesson, STEP_8_LINES@);
    }
    lessons.push(lesson);
    proof {
        lemma_step_9_lines_ok();
    }
    let lesson = Lesson::new(STEP_9_TITLE, STEP_9_HINT, &STEP_9_LINES);
    proof {
        lemma_built_lesson(lesson, STEP_9_LINES@);
    }
    lessons.push(lesson);
    proof {
        lemma_step_10_lines_ok();
    }
    let lesson = Lesson::new(STEP_10_TITLE, STEP_10_HINT, &STEP_10_LINES);
    proof {
        lemma_built_lesson(lesson, STEP_10_LINES@);
    }
    lessons.push(lesson);
    proof {
        lemma_step_11_lines_ok();
    }
    let lesson = Lesson::new(STEP_11_TITLE, STEP_11_HINT, &STEP_11_LINES);
    proof {
        lemma_built_lesson(lesson, STEP_11_LINES@);
    }
    lessons.push(lesson);
    proof {
        lemma_step_12_lines_ok();
    }
    let lesson = Lesson::new(STEP_12_TITLE, STEP_12_HINT, &STEP_12_LINES);
    proof {
        lemma_built_lesson(lesson, STEP_12_LINES@);
    }
    lessons.push(lesson);
    proof {
        lemma_step_13_lines_ok();
    }
    let lesson = Lesson::new(STEP_13_TITLE, STEP_13_HINT, &STEP_13_LINES);
    proof {
        lemma_built_lesson(lesson, STEP_13_LINES@);
    }
    lessons.push(lesson);
    proof {
        lemma_step_14_lines_ok();
    }
    let lesson = Lesson::new(STEP_14_TITLE, STEP_14_HINT, &STEP_14_LINES);
    proof {
        lemma_built_lesson(lesson, STEP_14_LINES@);
    }
    lessons.push(lesson);
    assert forall|i: int| 0 <= i < NUM_LESSONS implies lesson_matches(#[trigger] lessons@[i], lesson_source(i))
        && lessons@[i].well_formed()
        && forall|j: int| 0 <= j < lessons@[i].lines@.len() ==> #[trigger] lessons@[i].lines@[j]@.len() <= MAX_LINE_LEN by {
        if i == 0 {
        } else if i == 1 {
        } else if i == 2 {
        } else if i == 3 {
        } else if i == 4 {
        } else if i == 5 {
        } else if i == 6 {
        } else if i == 7 {
        } else if i == 8 {
        } else if i == 9 {
        } else if i == 10 {
        } else if i == 11 {
        } else if i == 12 {
        }
    }
    lessons
}


// ------------------------------------------------------ what is drilled ---

/// A syllabic of the Unified Canadian Aboriginal Syllabics block.
pub open spec fn is_syllabic(c: char) -> bool {
    '\u{1400}' <= c && c <= '\u{167f}'
}

/// Some line of some lesson of the course targets glyph `g`.
pub open spec fn drilled(g: char) -> bool {
    exists|i: int, j: int, k: int|
        0 <= i < NUM_LESSONS && 0 <= j < lesson_source(i).2.len() && 0 <= k < cells_of(
            lesson_source(i).2[j]@,
        ).len() && (#[trigger] cells_of(lesson_source(i).2[j]@)[k]).glyph == g
}

/// Every line of every lesson is well authored.
proof fn lemma_source_lines_ok(i: int)
    requires
        0 <= i < NUM_LESSONS,
    ensures
        all_lines_ok(lesson_source(i).2),
{
    if i == 0 {
        lemma_step_1_lines_ok();
    } else if i == 1 {
        lemma_step_2_lines_ok();
    } else if i == 2 {
        lemma_step_3_lines_ok();
    } else if i == 3 {
        lemma_step_4_lines_ok();
    } else if i == 4 {
        lemma_step_5_lines_ok();
    } else if i == 5 {
        lemma_step_6_lines_ok();
    } else if i == 6 {
        lemma_step_7_lines_ok();
    } else if i == 7 {
        lemma_step_8_lines_ok();
    } else if i == 8 {
        lemma_step_9_lines_ok();
    } else if i == 9 {
        lemma_step_10_lines_ok();
    } else if i == 10 {
        lemma_step_11_lines_ok();
    } else if i == 11 {
        lemma_step_12_lines_ok();
    } else if i == 12 {
        lemma_step_13_lines_ok();
    } else {
        lemma_step_14_lines_ok();
    }
}

/// The glyph that character `k` of line `j` of lesson `i` asks for is
/// drilled.
proof fn lemma_drilled_at(i: int, j: int, k: int)
    requires
        0 <= i < NUM_LESSONS,
        0 <= j < lesson_source(i).2.len(),
        0 <= k < lesson_source(i).2[j]@.len(),
    ensures
        drilled(spec_key_notation_to_glyph(lesson_source(i).2[j]@[k]).unwrap().0),
{
    lemma_source_lines_ok(i);
    let s = lesson_source(i).2[j]@;
    assert(line_ok(s));
    lemma_translate_alphabet_line(s);
    assert(cells_of(s)[k] == cell_of(translate_chars(s)[k]));
    assert(cells_of(s)[k].glyph == spec_key_notation_to_glyph(s[k]).unwrap().0);
}

/// Key `e`'s base glyph is drilled where a line names key `e`.
proof fn lemma_base_drilled(e: int, i: int, j: int, k: int)
    requires
        0 <= e < key_table().len(),
        0 <= i < NUM_LESSONS,
        0 <= j < lesson_source(i).2.len(),
        0 <= k < lesson_source(i).2[j]@.len(),
        lesson_source(i).2[j]@[k] == key_table()[e].0,
        key_table()[e].0 != ' ',
        shift_notation_key(key_table()[e].0) is None,
    ensures
        drilled(key_table()[e].1),
{
    lemma_key_def_of_entry(e);
    lemma_drilled_at(i, j, k);
}

/// Key `e`'s Shift glyph is drilled where a line holds the Shift notation
/// for key `e`.
proof fn lemma_shift_drilled(e: int, i: int, j: int, k: int)
    requires
        0 <= e < key_table().len(),
        key_table()[e].2 is Some,
        0 <= i < NUM_LESSONS,
        0 <= j < lesson_source(i).2.len(),
        0 <= k < lesson_source(i).2[j]@.len(),
        lesson_source(i).2[j]@[k] != ' ',
        shift_notation_key(lesson_source(i).2[j]@[k]) == Some(key_table()[e].0),
    ensures
        drilled(key_table()[e].2.unwrap()),
{
    lemma_key_def_of_entry(e);
    lemma_drilled_at(i, j, k);
}

/// Every syllabic the layout can type, on any key and at either level, is
/// the target of some lesson: no syllabic goes untaught.
#[verifier::spinoff_prover]
#[verifier::rlimit(100)]
pub proof fn lemma_every_syllabic_is_drilled(e: int)
    requires
        0 <= e < key_table().len(),
    ensures
        is_syllabic(key_table()[e].1) ==> drilled(key_table()[e].1),
        key_table()[e].2 is Some && is_syllabic(key_table()[e].2.unwrap()) ==> drilled(
            key_table()[e].2.unwrap(),
        ),
{
    if e == 0 {
        reveal_strlit("6666 8888 1111 3333 9999 0000");
        lemma_base_drilled(0, 8, 1, 10);
    } else if e == 1 {
        reveal_strlit("4444 7777 2222 5555");
        lemma_base_drilled(1, 8, 0, 10);
    } else if e == 2 {
        reveal_strlit("6666 8888 1111 3333 9999 0000");
        lemma_base_drilled(2, 8, 1, 15);
    } else if e == 3 {
        reveal_strlit("4444 7777 2222 5555");
        lemma_base_drilled(3, 8, 0, 0);
    } else if e == 4 {
        reveal_strlit("4444 7777 2222 5555");
        lemma_base_drilled(4, 8, 0, 15);
    } else if e == 5 {
        reveal_strlit("6666 8888 1111 3333 9999 0000");
        lemma_base_drilled(5, 8, 1, 0);
    } else if e == 6 {
        reveal_strlit("4444 7777 2222 5555");
        lemma_base_drilled(6, 8, 0, 5);
    } else if e == 7 {
        reveal_strlit("6666 8888 1111 3333 9999 0000");
        lemma_base_drilled(7, 8, 1, 5);
    } else if e == 8 {
        reveal_strlit("6666 8888 1111 3333 9999 0000");
        lemma_base_drilled(8, 8, 1, 20);
    } else if e == 9 {
        reveal_strlit("6666 8888 1111 3333 9999 0000");
        lemma_base_drilled(9, 8, 1, 25);
    } else if e == 10 {
    } else if e == 11 {
        reveal_strlit("==== ==== ==== ====");
        lemma_base_drilled(11, 8, 2, 0);
    } else if e == 12 {
        reveal_strlit("wwww oooo qqqq pppp");
        lemma_base_drilled(12, 6, 2, 10);
        reveal_strlit("QAZ QAZ");
        lemma_shift_drilled(12, 12, 1, 0);
    } else if e == 13 {
        reveal_strlit("wwww oooo qqqq pppp");
        lemma_base_drilled(13, 6, 2, 0);
        reveal_strlit("WSX WSX");
        lemma_shift_drilled(13, 12, 0, 0);
    } else if e == 14 {
        reveal_strlit("tttt yyyy eeee iiii");
        lemma_base_drilled(14, 6, 1, 10);
        reveal_strlit("EDC EDC");
        lemma_shift_drilled(14, 12, 2, 0);
    } else if e == 15 {
        reveal_strlit("rrrr uuuu ffrr jjuu");
        lemma_base_drilled(15, 6, 0, 0);
        reveal_strlit("TT YY UU RR");
        lemma_shift_drilled(15, 13, 0, 9);
    } else if e == 16 {
        reveal_strlit("tttt yyyy eeee iiii");
        lemma_base_drilled(16, 6, 1, 0);
        reveal_strlit("TT YY UU RR");
        lemma_shift_drilled(16, 13, 0, 0);
    } else if e == 17 {
        reveal_strlit("tttt yyyy eeee iiii");
        lemma_base_drilled(17, 6, 1, 5);
        reveal_strlit("TT YY UU RR");
        lemma_shift_drilled(17, 13, 0, 3);
    } else if e == 18 {
        reveal_strlit("rrrr uuuu ffrr jjuu");
        lemma_base_drilled(18, 6, 0, 5);
        reveal_strlit("TT YY UU RR");
        lemma_shift_drilled(18, 13, 0, 6);
    } else if e == 19 {
        reveal_strlit("tttt yyyy eeee iiii");
        lemma_base_drilled(19, 6, 1, 15);
        reveal_strlit("OO LL II PP");
        lemma_shift_drilled(19, 13, 2, 6);
    } else if e == 20 {
        reveal_strlit("wwww oooo qqqq pppp");
        lemma_base_drilled(20, 6, 2, 5);
        reveal_strlit("OO LL II PP");
        lemma_shift_drilled(20, 13, 2, 0);
    } else if e == 21 {
        reveal_strlit("wwww oooo qqqq pppp");
        lemma_base_drilled(21, 6, 2, 15);
        reveal_strlit("OO LL II PP");
        lemma_shift_drilled(21, 13, 2, 9);
    } else if e == 22 {
        reveal_strlit("wk4 wkw5 w[l yf");
        lemma_base_drilled(22, 11, 0, 10);
        reveal_strlit("{{ BB {{ BB");
        lemma_shift_drilled(22, 13, 4, 0);
    } else if e == 23 {
        reveal_strlit("slsl dksl asdf jkl");
        lemma_base_drilled(23, 3, 1, 10);
        reveal_strlit("AA SS DD FF JJ KK LL");
        lemma_shift_drilled(23, 5, 1, 0);
    } else if e == 24 {
        reveal_strlit("ssss llll ssll llss");
        lemma_base_drilled(24, 3, 0, 0);
        reveal_strlit("AA SS DD FF JJ KK LL");
        lemma_shift_drilled(24, 5, 1, 3);
    } else if e == 25 {
        reveal_strlit("dddd kkkk ddkk kkdd");
        lemma_base_drilled(25, 2, 0, 0);
        reveal_strlit("AA SS DD FF JJ KK LL");
        lemma_shift_drilled(25, 5, 1, 6);
    } else if e == 26 {
        reveal_strlit("ffff jjjj ffff jjjj");
        lemma_base_drilled(26, 0, 0, 0);
        reveal_strlit("FF JJ FF JJ FJFJ JFJF");
        lemma_shift_drilled(26, 5, 0, 0);
    } else if e == 27 {
        reveal_strlit("gggg hhhh gghh hhgg");
        lemma_base_drilled(27, 1, 0, 0);
    } else if e == 28 {
        reveal_strlit("gggg hhhh gghh hhgg");
        lemma_base_drilled(28, 1, 0, 5);
    } else if e == 29 {
        reveal_strlit("ffff jjjj ffff jjjj");
        lemma_base_drilled(29, 0, 0, 5);
        reveal_strlit("FF JJ FF JJ FJFJ JFJF");
        lemma_shift_drilled(29, 5, 0, 3);
    } else if e == 30 {
        reveal_strlit("dddd kkkk ddkk kkdd");
        lemma_base_drilled(30, 2, 0, 5);
        reveal_strlit("AA SS DD FF JJ KK LL");
        lemma_shift_drilled(30, 5, 1, 15);
    } else if e == 31 {
        reveal_strlit("ssss llll ssll llss");
        lemma_base_drilled(31, 3, 0, 5);
        reveal_strlit("AA SS DD FF JJ KK LL");
        lemma_shift_drilled(31, 5, 1, 18);
    } else if e == 32 {
        reveal_strlit("zzzz zxcvb nm");
        lemma_base_drilled(32, 7, 2, 0);
        reveal_strlit("QAZ QAZ");
        lemma_shift_drilled(32, 12, 1, 2);
    } else if e == 33 {
        reveal_strlit("bbbb nnnn cccc xxxx");
        lemma_base_drilled(33, 7, 1, 15);
        reveal_strlit("WSX WSX");
        lemma_shift_drilled(33, 12, 0, 2);
    } else if e == 34 {
        reveal_strlit("bbbb nnnn cccc xxxx");
        lemma_base_drilled(34, 7, 1, 10);
        reveal_strlit("EDC EDC");
        lemma_shift_drilled(34, 12, 2, 2);
    } else if e == 35 {
        reveal_strlit("vvvv mmmm ffvv jjmm");
        lemma_base_drilled(35, 7, 0, 0);
    } else if e == 36 {
        reveal_strlit("bbbb nnnn cccc xxxx");
        lemma_base_drilled(36, 7, 1, 0);
        reveal_strlit("{{ BB {{ BB");
        lemma_shift_drilled(36, 13, 4, 3);
    } else if e == 37 {
        reveal_strlit("bbbb nnnn cccc xxxx");
        lemma_base_drilled(37, 7, 1, 5);
        reveal_strlit("olM ikN pJ/");
        lemma_shift_drilled(37, 10, 2, 6);
    } else if e == 38 {
        reveal_strlit("vvvv mmmm ffvv jjmm");
        lemma_base_drilled(38, 7, 0, 5);
        reveal_strlit("olM ikN pJ/");
        lemma_shift_drilled(38, 10, 2, 2);
    } else if e == 39 {
    } else if e == 40 {
    } else if e == 41 {
        reveal_strlit("olM ikN pJ/");
        lemma_base_drilled(41, 10, 2, 10);
        reveal_strlit("FK| FK|");
        lemma_shift_drilled(41, 12, 3, 2);
    }
}

} // verus!
