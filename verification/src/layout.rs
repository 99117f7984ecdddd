//! The `ca(ike)` keyboard layout: physical keys, their base and Shift
//! syllabics, which finger types them, and whether they sit on the home row.
//!
//! The key table is the single source of truth: the on-screen keyboard and
//! the translation of lesson lines from key notation to glyphs both derive
//! from it.

use vstd::prelude::*;

verus! {

/// The finger that types a key.
#[derive(Debug, Clone, Copy, PartialEq, Eq, Structural)]
pub enum Finger {
    LPinky,
    LRing,
    LMiddle,
    LIndex,
    RIndex,
    RMiddle,
    RRing,
    RPinky,
}

impl Finger {
    /// The human-readable name of the finger.
    pub open spec fn spec_label(self) -> Seq<char> {
        match self {
            Finger::LPinky => "left pinky"@,
            Finger::LRing => "left ring"@,
            Finger::LMiddle => "left middle"@,
            Finger::LIndex => "left index"@,
            Finger::RIndex => "right index"@,
            Finger::RMiddle => "right middle"@,
            Finger::RRing => "right ring"@,
            Finger::RPinky => "right pinky"@,
        }
    }

    pub fn label(self) -> (s: &'static str)
        ensures
            s@ == self.spec_label(),
    {
        match self {
            Finger::LPinky => "left pinky",
            Finger::LRing => "left ring",
            Finger::LMiddle => "left middle",
            Finger::LIndex => "left index",
            Finger::RIndex => "right index",
            Finger::RMiddle => "right middle",
            Finger::RRing => "right ring",
            Finger::RPinky => "right pinky",
        }
    }
}

/// One physical key: `(key, base_glyph, shift_glyph, finger, is_home_row)`.
pub type KeyDef = (char, char, Option<char>, Finger, bool);

/// The keys in physical order: number row (`1`..`0`, `-`, `=`), top
/// row (QWERTY plus `[`), home row (`a`..`l`, the whole u-series) and
/// bottom row (`z`..`m`, comma, period, `/`).
///
/// Comma, period and minus are plain ASCII on the real layout, so their base
/// glyph is the character itself; `-` carries no syllabic and is listed only
/// for its physical position.  Not listed, and therefore never taught: the
/// backtick key's ᕻ/ᕵ, the ISO-only key's ᕹ/ᕷ, and ᐞ (a dead key on the
/// base level).
pub open spec fn key_table() -> Seq<KeyDef> {
    seq![
        ('1', '\u{1595}', None, Finger::LPinky, false),
        ('2', '\u{1449}', None, Finger::LRing, false),
        ('3', '\u{1550}', None, Finger::LMiddle, false),
        ('4', '\u{1483}', None, Finger::LIndex, false),
        ('5', '\u{1466}', None, Finger::LIndex, false),
        ('6', '\u{1585}', None, Finger::RIndex, false),
        ('7', '\u{14bb}', None, Finger::RIndex, false),
        ('8', '\u{14d0}', None, Finger::RMiddle, false),
        ('9', '\u{14ea}', None, Finger::RRing, false),
        ('0', '\u{153e}', None, Finger::RPinky, false),
        ('-', '-', Some('_'), Finger::RPinky, false),
        ('=', '\u{155d}', Some('='), Finger::RPinky, false),
        ('q', '\u{158f}', Some('\u{148b}'), Finger::LPinky, false),
        ('w', '\u{1403}', Some('\u{1431}'), Finger::LRing, false),
        ('e', '\u{157f}', Some('\u{1546}'), Finger::LMiddle, false),
        ('r', '\u{146d}', Some('\u{1596}'), Finger::LIndex, false),
        ('t', '\u{144e}', Some('\u{1671}'), Finger::LIndex, false),
        ('y', '\u{14ef}', Some('\u{1673}'), Finger::RIndex, false),
        ('u', '\u{14a5}', Some('\u{1675}'), Finger::RIndex, false),
        ('i', '\u{14c2}', Some('\u{15a4}'), Finger::RMiddle, false),
        ('o', '\u{14d5}', Some('\u{15a0}'), Finger::RRing, false),
        ('p', '\u{1528}', Some('\u{15a6}'), Finger::RPinky, false),
        ('[', '\u{14a1}', Some('\u{1505}'), Finger::RPinky, false),
        ('a', '\u{1591}', Some('\u{148d}'), Finger::LPinky, true),
        ('s', '\u{1405}', Some('\u{1433}'), Finger::LRing, true),
        ('d', '\u{1581}', Some('\u{1548}'), Finger::LMiddle, true),
        ('f', '\u{146f}', Some('\u{1555}'), Finger::LIndex, true),
        ('g', '\u{1450}', None, Finger::LIndex, true),
        ('h', '\u{14f1}', None, Finger::RIndex, true),
        ('j', '\u{14a7}', Some('\u{152a}'), Finger::RIndex, true),
        ('k', '\u{14c4}', Some('\u{1557}'), Finger::RMiddle, true),
        ('l', '\u{14d7}', Some('\u{15a2}'), Finger::RRing, true),
        ('z', '\u{1593}', Some('\u{1490}'), Finger::LPinky, false),
        ('x', '\u{140a}', Some('\u{1438}'), Finger::LRing, false),
        ('c', '\u{1583}', Some('\u{154b}'), Finger::LMiddle, false),
        ('v', '\u{1472}', Some('?'), Finger::LIndex, false),
        ('b', '\u{1455}', Some('\u{157c}'), Finger::LIndex, false),
        ('n', '\u{14f4}', Some('\u{14c7}'), Finger::RIndex, false),
        ('m', '\u{14aa}', Some('\u{14da}'), Finger::RIndex, false),
        (',', ',', None, Finger::RMiddle, false),
        ('.', '.', None, Finger::RRing, false),
        ('/', '\u{152d}', Some('\u{1559}'), Finger::RPinky, false),
    ]
}

/// The key table as a vector, in physical order.
pub fn keys() -> (r: Vec<KeyDef>)
    ensures
        r@ == key_table(),
{
    vec![
        ('1', '\u{1595}', None, Finger::LPinky, false),
        ('2', '\u{1449}', None, Finger::LRing, false),
        ('3', '\u{1550}', None, Finger::LMiddle, false),
        ('4', '\u{1483}', None, Finger::LIndex, false),
        ('5', '\u{1466}', None, Finger::LIndex, false),
        ('6', '\u{1585}', None, Finger::RIndex, false),
        ('7', '\u{14bb}', None, Finger::RIndex, false),
        ('8', '\u{14d0}', None, Finger::RMiddle, false),
        ('9', '\u{14ea}', None, Finger::RRing, false),
        ('0', '\u{153e}', None, Finger::RPinky, false),
        ('-', '-', Some('_'), Finger::RPinky, false),
        ('=', '\u{155d}', Some('='), Finger::RPinky, false),
        ('q', '\u{158f}', Some('\u{148b}'), Finger::LPinky, false),
        ('w', '\u{1403}', Some('\u{1431}'), Finger::LRing, false),
        ('e', '\u{157f}', Some('\u{1546}'), Finger::LMiddle, false),
        ('r', '\u{146d}', Some('\u{1596}'), Finger::LIndex, false),
        ('t', '\u{144e}', Some('\u{1671}'), Finger::LIndex, false),
        ('y', '\u{14ef}', Some('\u{1673}'), Finger::RIndex, false),
        ('u', '\u{14a5}', Some('\u{1675}'), Finger::RIndex, false),
        ('i', '\u{14c2}', Some('\u{15a4}'), Finger::RMiddle, false),
        ('o', '\u{14d5}', Some('\u{15a0}'), Finger::RRing, false),
        ('p', '\u{1528}', Some('\u{15a6}'), Finger::RPinky, false),
        ('[', '\u{14a1}', Some('\u{1505}'), Finger::RPinky, false),
        ('a', '\u{1591}', Some('\u{148d}'), Finger::LPinky, true),
        ('s', '\u{1405}', Some('\u{1433}'), Finger::LRing, true),
        ('d', '\u{1581}', Some('\u{1548}'), Finger::LMiddle, true),
        ('f', '\u{146f}', Some('\u{1555}'), Finger::LIndex, true),
        ('g', '\u{1450}', None, Finger::LIndex, true),
        ('h', '\u{14f1}', None, Finger::RIndex, true),
        ('j', '\u{14a7}', Some('\u{152a}'), Finger::RIndex, true),
        ('k', '\u{14c4}', Some('\u{1557}'), Finger::RMiddle, true),
        ('l', '\u{14d7}', Some('\u{15a2}'), Finger::RRing, true),
        ('z', '\u{1593}', Some('\u{1490}'), Finger::LPinky, false),
        ('x', '\u{140a}', Some('\u{1438}'), Finger::LRing, false),
        ('c', '\u{1583}', Some('\u{154b}'), Finger::LMiddle, false),
        ('v', '\u{1472}', Some('?'), Finger::LIndex, false),
        ('b', '\u{1455}', Some('\u{157c}'), Finger::LIndex, false),
        ('n', '\u{14f4}', Some('\u{14c7}'), Finger::RIndex, false),
        ('m', '\u{14aa}', Some('\u{14da}'), Finger::RIndex, false),
        (',', ',', None, Finger::RMiddle, false),
        ('.', '.', None, Finger::RRing, false),
        ('/', '\u{152d}', Some('\u{1559}'), Finger::RPinky, false),
    ]
}

/// Where a glyph lives on the keyboard: which key, whether Shift is needed,
/// and which finger to use.
#[derive(Debug, Clone, Copy)]
pub struct GlyphLocation {
    pub key: char,
    pub shifted: bool,
    pub finger: Finger,
}

/// The location of `glyph` found by scanning `keys` in order: the first
/// key whose base glyph is `glyph` (unshifted) or whose Shift glyph is
/// `glyph` (shifted).
pub open spec fn locate_in(keys: Seq<KeyDef>, glyph: char) -> Option<GlyphLocation>
    decreases keys.len(),
{
    if keys.len() == 0 {
        None
    } else if keys[0].1 == glyph {
        Some(GlyphLocation { key: keys[0].0, shifted: false, finger: keys[0].3 })
    } else if keys[0].2 == Some(glyph) {
        Some(GlyphLocation { key: keys[0].0, shifted: true, finger: keys[0].3 })
    } else {
        locate_in(keys.drop_first(), glyph)
    }
}

/// A space is typed with the thumb and has no key in the table.
pub open spec fn spec_locate_glyph(glyph: char) -> Option<GlyphLocation> {
    if glyph == ' ' {
        None
    } else {
        locate_in(key_table(), glyph)
    }
}

/// Reverse lookup: which key produces `glyph` and whether Shift is
/// required.  Used for display (keyboard highlighting, finger hints) and to
/// tell whether a typed character belongs to the layout at all.
pub fn locate_glyph(glyph: char) -> (r: Option<GlyphLocation>)
    ensures
        r == spec_locate_glyph(glyph),
{
    if glyph == ' ' {
        return None;
    }
    let table = keys();
    let mut i: usize = 0;
    assert(key_table().skip(0) =~= key_table());
    while i < table.len()
        invariant
            0 <= i <= table.len(),
            table@ == key_table(),
            locate_in(key_table(), glyph) == locate_in(key_table().skip(i as int), glyph),
        decreases table.len() - i,
    {
        let (key, base, shift, finger, _) = table[i];
        if base == glyph {
            return Some(GlyphLocation { key, shifted: false, finger });
        }
        if shift == Some(glyph) {
            return Some(GlyphLocation { key, shifted: true, finger });
        }
        assert(key_table().skip(i as int).drop_first() =~= key_table().skip(i + 1));
        i += 1;
    }
    assert(key_table().skip(i as int) =~= Seq::<KeyDef>::empty());
    None
}

/// The first entry of `keys` whose key is `key`.
pub open spec fn key_def_in(keys: Seq<KeyDef>, key: char) -> Option<KeyDef>
    decreases keys.len(),
{
    if keys.len() == 0 {
        None
    } else if keys[0].0 == key {
        Some(keys[0])
    } else {
        key_def_in(keys.drop_first(), key)
    }
}

fn key_def(key: char) -> (r: Option<KeyDef>)
    ensures
        r == key_def_in(key_table(), key),
{
    let table = keys();
    let mut i: usize = 0;
    assert(key_table().skip(0) =~= key_table());
    while i < table.len()
        invariant
            0 <= i <= table.len(),
            table@ == key_table(),
            key_def_in(key_table(), key) == key_def_in(key_table().skip(i as int), key),
        decreases table.len() - i,
    {
        if table[i].0 == key {
            return Some(table[i]);
        }
        assert(key_table().skip(i as int).drop_first() =~= key_table().skip(i + 1));
        i += 1;
    }
    assert(key_table().skip(i as int) =~= Seq::<KeyDef>::empty());
    None
}

pub open spec fn is_ascii_upper(c: char) -> bool {
    'A' <= c && c <= 'Z'
}

/// The lowercase letter of an ASCII uppercase letter.
pub open spec fn ascii_lower(c: char) -> char {
    ((c as u32) + 32) as char
}

/// The key that key-notation character `c` asks for with Shift held, if it
/// is a Shift notation: `|` is Shift + `/`, `{` is Shift + `[`, and an
/// uppercase letter is Shift + its lowercase key.
pub open spec fn shift_notation_key(c: char) -> Option<char> {
    if c == '|' {
        Some('/')
    } else if c == '{' {
        Some('[')
    } else if is_ascii_upper(c) {
        Some(ascii_lower(c))
    } else {
        None
    }
}

/// What one character of key notation produces, and whether Shift is needed:
/// a space is a literal space; a Shift notation gives its key's Shift glyph
/// (nothing when that key has none); any other character gives the base
/// glyph of the key with that name (nothing when there is no such key).
pub open spec fn spec_key_notation_to_glyph(c: char) -> Option<(char, bool)> {
    if c == ' ' {
        Some((' ', false))
    } else if let Some(key) = shift_notation_key(c) {
        match key_def_in(key_table(), key) {
            Some(def) => match def.2 {
                Some(s) => Some((s, true)),
                None => None,
            },
            None => None,
        }
    } else {
        match key_def_in(key_table(), c) {
            Some(def) => Some((def.1, false)),
            None => None,
        }
    }
}

fn ascii_to_lower(c: char) -> (r: char)
    requires
        is_ascii_upper(c),
    ensures
        r == ascii_lower(c),
{
    let v: u8 = c as u8 + 32;
    v as char
}

/// Translate one character of key notation into the glyph it produces and
/// whether pressing it requires Shift (for display):
///
/// - lowercase letter, digit, `[`, `/`, `,`, `.`, `-`, `=`: that key's
///   base glyph;
/// - uppercase letter: that key's Shift glyph (a real `?`, Shift+V, is
///   written `V`);
/// - `|` is Shift + `/` and `{` is Shift + `[`, since those keys have no
///   uppercase form;
/// - space: a literal space.
pub fn key_notation_to_glyph(c: char) -> (r: Option<(char, bool)>)
    ensures
        r == spec_key_notation_to_glyph(c),
{
    if c == ' ' {
        return Some((' ', false));
    }
    let shift_key = if c == '|' {
        Some('/')
    } else if c == '{' {
        Some('[')
    } else if 'A' <= c && c <= 'Z' {
        Some(ascii_to_lower(c))
    } else {
        None
    };
    match shift_key {
        Some(key) => match key_def(key) {
            Some(def) => match def.2 {
                Some(s) => Some((s, true)),
                None => None,
            },
            None => None,
        },
        None => match key_def(c) {
            Some(def) => Some((def.1, false)),
            None => None,
        },
    }
}

/// The cells of a line of key notation: one `(key_label, glyph)` pair for
/// each character that translates, in order; characters that do not
/// translate are left out.
pub open spec fn translate_chars(s: Seq<char>) -> Seq<(char, char)>
    decreases s.len(),
{
    if s.len() == 0 {
        seq![]
    } else {
        let rest = translate_chars(s.drop_last());
        match spec_key_notation_to_glyph(s.last()) {
            Some(p) => rest.push((s.last(), p.0)),
            None => rest,
        }
    }
}

/// Translate a whole line written in key notation into `(key_label,
/// target_glyph)` pairs, one per cell the learner will see: the key label as
/// written (case preserved, so Shift needs are visible) beside the glyph it
/// produces.
pub fn translate_line(line: &str) -> (r: Vec<(char, char)>)
    ensures
        r@ == translate_chars(line@),
{
    let mut out: Vec<(char, char)> = Vec::new();
    for label in it: line.chars()
        invariant
            it.seq() == line@,
            out@ == translate_chars(line@.take(it.index() as int)),
    {
        let ghost i = it.index();
        assert(line@.take(i + 1).drop_last() =~= line@.take(i));
        match key_notation_to_glyph(label) {
            Some((glyph, _)) => out.push((label, glyph)),
            None => {},
        }
    }
    assert(line@.take(line@.len() as int) =~= line@);
    out
}

/// The key that a key-notation character names: the key of its Shift
/// notation, or the character itself.
pub open spec fn notation_key(c: char) -> char {
    match shift_notation_key(c) {
        Some(k) => k,
        None => c,
    }
}

/// The entry found for a key carries that key.
proof fn lemma_key_def_in_found(keys: Seq<KeyDef>, key: char)
    ensures
        key_def_in(keys, key) matches Some(d) ==> d.0 == key,
    decreases keys.len(),
{
    if keys.len() > 0 && keys[0].0 != key {
        lemma_key_def_in_found(keys.drop_first(), key);
    }
}

/// The key an entry of `keys` names is found at some index of `keys`.
proof fn lemma_key_def_in_index(keys: Seq<KeyDef>, key: char)
    requires
        key_def_in(keys, key) is Some,
    ensures
        exists|i: int| 0 <= i < keys.len() && keys[i] == key_def_in(keys, key).unwrap(),
    decreases keys.len(),
{
    if keys[0].0 != key {
        lemma_key_def_in_index(keys.drop_first(), key);
        let i = choose|i: int| 0 <= i < keys.drop_first().len() && keys.drop_first()[i] == key_def_in(keys, key).unwrap();
        assert(keys[i + 1] == keys.drop_first()[i]);
    } else {
        assert(keys[0] == key_def_in(keys, key).unwrap());
    }
}

/// Every key of the table is found by its name.
#[verifier::spinoff_prover]
#[verifier::rlimit(100)]
pub proof fn lemma_key_def_of_entry(i: int)
    requires
        0 <= i < key_table().len(),
    ensures
        key_def_in(key_table(), key_table()[i].0) == Some(key_table()[i]),
{
    reveal_with_fuel(key_def_in, 43);
    if i == 0 {
        assert(key_def_in(key_table(), key_table()[0].0) == Some(key_table()[0]));
    } else if i == 1 {
        assert(key_def_in(key_table(), key_table()[1].0) == Some(key_table()[1]));
    } else if i == 2 {
        assert(key_def_in(key_table(), key_table()[2].0) == Some(key_table()[2]));
    } else if i == 3 {
        assert(key_def_in(key_table(), key_table()[3].0) == Some(key_table()[3]));
    } else if i == 4 {
        assert(key_def_in(key_table(), key_table()[4].0) == Some(key_table()[4]));
    } else if i == 5 {
        assert(key_def_in(key_table(), key_table()[5].0) == Some(key_table()[5]));
    } else if i == 6 {
        assert(key_def_in(key_table(), key_table()[6].0) == Some(key_table()[6]));
    } else if i == 7 {
        assert(key_def_in(key_table(), key_table()[7].0) == Some(key_table()[7]));
    } else if i == 8 {
        assert(key_def_in(key_table(), key_table()[8].0) == Some(key_table()[8]));
    } else if i == 9 {
        assert(key_def_in(key_table(), key_table()[9].0) == Some(key_table()[9]));
    } else if i == 10 {
        assert(key_def_in(key_table(), key_table()[10].0) == Some(key_table()[10]));
    } else if i == 11 {
        assert(key_def_in(key_table(), key_table()[11].0) == Some(key_table()[11]));
    } else if i == 12 {
        assert(key_def_in(key_table(), key_table()[12].0) == Some(key_table()[12]));
    } else if i == 13 {
        assert(key_def_in(key_table(), key_table()[13].0) == Some(key_table()[13]));
    } else if i == 14 {
        assert(key_def_in(key_table(), key_table()[14].0) == Some(key_table()[14]));
    } else if i == 15 {
        assert(key_def_in(key_table(), key_table()[15].0) == Some(key_table()[15]));
    } else if i == 16 {
        assert(key_def_in(key_table(), key_table()[16].0) == Some(key_table()[16]));
    } else if i == 17 {
        assert(key_def_in(key_table(), key_table()[17].0) == Some(key_table()[17]));
    } else if i == 18 {
        assert(key_def_in(key_table(), key_table()[18].0) == Some(key_table()[18]));
    } else if i == 19 {
        assert(key_def_in(key_table(), key_table()[19].0) == Some(key_table()[19]));
    } else if i == 20 {
        assert(key_def_in(key_table(), key_table()[20].0) == Some(key_table()[20]));
    } else if i == 21 {
        assert(key_def_in(key_table(), key_table()[21].0) == Some(key_table()[21]));
    } else if i == 22 {
        assert(key_def_in(key_table(), key_table()[22].0) == Some(key_table()[22]));
    } else if i == 23 {
        assert(key_def_in(key_table(), key_table()[23].0) == Some(key_table()[23]));
    } else if i == 24 {
        assert(key_def_in(key_table(), key_table()[24].0) == Some(key_table()[24]));
    } else if i == 25 {
        assert(key_def_in(key_table(), key_table()[25].0) == Some(key_table()[25]));
    } else if i == 26 {
        assert(key_def_in(key_table(), key_table()[26].0) == Some(key_table()[26]));
    } else if i == 27 {
        assert(key_def_in(key_table(), key_table()[27].0) == Some(key_table()[27]));
    } else if i == 28 {
        assert(key_def_in(key_table(), key_table()[28].0) == Some(key_table()[28]));
    } else if i == 29 {
        assert(key_def_in(key_table(), key_table()[29].0) == Some(key_table()[29]));
    } else if i == 30 {
        assert(key_def_in(key_table(), key_table()[30].0) == Some(key_table()[30]));
    } else if i == 31 {
        assert(key_def_in(key_table(), key_table()[31].0) == Some(key_table()[31]));
    } else if i == 32 {
        assert(key_def_in(key_table(), key_table()[32].0) == Some(key_table()[32]));
    } else if i == 33 {
        assert(key_def_in(key_table(), key_table()[33].0) == Some(key_table()[33]));
    } else if i == 34 {
        assert(key_def_in(key_table(), key_table()[34].0) == Some(key_table()[34]));
    } else if i == 35 {
        assert(key_def_in(key_table(), key_table()[35].0) == Some(key_table()[35]));
    } else if i == 36 {
        assert(key_def_in(key_table(), key_table()[36].0) == Some(key_table()[36]));
    } else if i == 37 {
        assert(key_def_in(key_table(), key_table()[37].0) == Some(key_table()[37]));
    } else if i == 38 {
        assert(key_def_in(key_table(), key_table()[38].0) == Some(key_table()[38]));
    } else if i == 39 {
        assert(key_def_in(key_table(), key_table()[39].0) == Some(key_table()[39]));
    } else if i == 40 {
        assert(key_def_in(key_table(), key_table()[40].0) == Some(key_table()[40]));
    } else if i == 41 {
        assert(key_def_in(key_table(), key_table()[41].0) == Some(key_table()[41]));
    }
}

/// Every glyph of the table is located at the key that carries it.
proof fn lemma_table_entry_locates(i: int)
    requires
        0 <= i < key_table().len(),
    ensures
        key_table()[i].1 != ' ',
        locate_in(key_table(), key_table()[i].1) == Some(
            GlyphLocation { key: key_table()[i].0, shifted: false, finger: key_table()[i].3 },
        ),
        key_table()[i].2 is Some ==> key_table()[i].2.unwrap() != ' ' && locate_in(key_table(), key_table()[i].2.unwrap()) == Some(
            GlyphLocation { key: key_table()[i].0, shifted: true, finger: key_table()[i].3 },
        ),
{
    reveal_with_fuel(locate_in, 43);
    if i == 0 {
        assert(locate_in(key_table(), key_table()[0].1) == Some(GlyphLocation { key: key_table()[0].0, shifted: false, finger: key_table()[0].3 }));
    } else if i == 1 {
        assert(locate_in(key_table(), key_table()[1].1) == Some(GlyphLocation { key: key_table()[1].0, shifted: false, finger: key_table()[1].3 }));
    } else if i == 2 {
        assert(locate_in(key_table(), key_table()[2].1) == Some(GlyphLocation { key: key_table()[2].0, shifted: false, finger: key_table()[2].3 }));
    } else if i == 3 {
        assert(locate_in(key_table(), key_table()[3].1) == Some(GlyphLocation { key: key_table()[3].0, shifted: false, finger: key_table()[3].3 }));
    } else if i == 4 {
        assert(locate_in(key_table(), key_table()[4].1) == Some(GlyphLocation { key: key_table()[4].0, shifted: false, finger: key_table()[4].3 }));
    } else if i == 5 {
        assert(locate_in(key_table(), key_table()[5].1) == Some(GlyphLocation { key: key_table()[5].0, shifted: false, finger: key_table()[5].3 }));
    } else if i == 6 {
        assert(locate_in(key_table(), key_table()[6].1) == Some(GlyphLocation { key: key_table()[6].0, shifted: false, finger: key_table()[6].3 }));
    } else if i == 7 {
        assert(locate_in(key_table(), key_table()[7].1) == Some(GlyphLocation { key: key_table()[7].0, shifted: false, finger: key_table()[7].3 }));
    } else if i == 8 {
        assert(locate_in(key_table(), key_table()[8].1) == Some(GlyphLocation { key: key_table()[8].0, shifted: false, finger: key_table()[8].3 }));
    } else if i == 9 {
        assert(locate_in(key_table(), key_table()[9].1) == Some(GlyphLocation { key: key_table()[9].0, shifted: false, finger: key_table()[9].3 }));
    } else if i == 10 {
        assert(locate_in(key_table(), key_table()[10].1) == Some(GlyphLocation { key: key_table()[10].0, shifted: false, finger: key_table()[10].3 }));
    } else if i == 11 {
        assert(locate_in(key_table(), key_table()[11].1) == Some(GlyphLocation { key: key_table()[11].0, shifted: false, finger: key_table()[11].3 }));
    } else if i == 12 {
        assert(locate_in(key_table(), key_table()[12].1) == Some(GlyphLocation { key: key_table()[12].0, shifted: false, finger: key_table()[12].3 }));
    } else if i == 13 {
        assert(locate_in(key_table(), key_table()[13].1) == Some(GlyphLocation { key: key_table()[13].0, shifted: false, finger: key_table()[13].3 }));
    } else if i == 14 {
        assert(locate_in(key_table(), key_table()[14].1) == Some(GlyphLocation { key: key_table()[14].0, shifted: false, finger: key_table()[14].3 }));
    } else if i == 15 {
        assert(locate_in(key_table(), key_table()[15].1) == Some(GlyphLocation { key: key_table()[15].0, shifted: false, finger: key_table()[15].3 }));
    } else if i == 16 {
        assert(locate_in(key_table(), key_table()[16].1) == Some(GlyphLocation { key: key_table()[16].0, shifted: false, finger: key_table()[16].3 }));
    } else if i == 17 {
        assert(locate_in(key_table(), key_table()[17].1) == Some(GlyphLocation { key: key_table()[17].0, shifted: false, finger: key_table()[17].3 }));
    } else if i == 18 {
        assert(locate_in(key_table(), key_table()[18].1) == Some(GlyphLocation { key: key_table()[18].0, shifted: false, finger: key_table()[18].3 }));
    } else if i == 19 {
        assert(locate_in(key_table(), key_table()[19].1) == Some(GlyphLocation { key: key_table()[19].0, shifted: false, finger: key_table()[19].3 }));
    } else if i == 20 {
        assert(locate_in(key_table(), key_table()[20].1) == Some(GlyphLocation { key: key_table()[20].0, shifted: false, finger: key_table()[20].3 }));
    } else if i == 21 {
        assert(locate_in(key_table(), key_table()[21].1) == Some(GlyphLocation { key: key_table()[21].0, shifted: false, finger: key_table()[21].3 }));
    } else if i == 22 {
        assert(locate_in(key_table(), key_table()[22].1) == Some(GlyphLocation { key: key_table()[22].0, shifted: false, finger: key_table()[22].3 }));
    } else if i == 23 {
        assert(locate_in(key_table(), key_table()[23].1) == Some(GlyphLocation { key: key_table()[23].0, shifted: false, finger: key_table()[23].3 }));
    } else if i == 24 {
        assert(locate_in(key_table(), key_table()[24].1) == Some(GlyphLocation { key: key_table()[24].0, shifted: false, finger: key_table()[24].3 }));
    } else if i == 25 {
        assert(locate_in(key_table(), key_table()[25].1) == Some(GlyphLocation { key: key_table()[25].0, shifted: false, finger: key_table()[25].3 }));
    } else if i == 26 {
        assert(locate_in(key_table(), key_table()[26].1) == Some(GlyphLocation { key: key_table()[26].0, shifted: false, finger: key_table()[26].3 }));
    } else if i == 27 {
        assert(locate_in(key_table(), key_table()[27].1) == Some(GlyphLocation { key: key_table()[27].0, shifted: false, finger: key_table()[27].3 }));
    } else if i == 28 {
        assert(locate_in(key_table(), key_table()[28].1) == Some(GlyphLocation { key: key_table()[28].0, shifted: false, finger: key_table()[28].3 }));
    } else if i == 29 {
        assert(locate_in(key_table(), key_table()[29].1) == Some(GlyphLocation { key: key_table()[29].0, shifted: false, finger: key_table()[29].3 }));
    } else if i == 30 {
        assert(locate_in(key_table(), key_table()[30].1) == Some(GlyphLocation { key: key_table()[30].0, shifted: false, finger: key_table()[30].3 }));
    } else if i == 31 {
        assert(locate_in(key_table(), key_table()[31].1) == Some(GlyphLocation { key: key_table()[31].0, shifted: false, finger: key_table()[31].3 }));
    } else if i == 32 {
        assert(locate_in(key_table(), key_table()[32].1) == Some(GlyphLocation { key: key_table()[32].0, shifted: false, finger: key_table()[32].3 }));
    } else if i == 33 {
        assert(locate_in(key_table(), key_table()[33].1) == Some(GlyphLocation { key: key_table()[33].0, shifted: false, finger: key_table()[33].3 }));
    } else if i == 34 {
        assert(locate_in(key_table(), key_table()[34].1) == Some(GlyphLocation { key: key_table()[34].0, shifted: false, finger: key_table()[34].3 }));
    } else if i == 35 {
        assert(locate_in(key_table(), key_table()[35].1) == Some(GlyphLocation { key: key_table()[35].0, shifted: false, finger: key_table()[35].3 }));
    } else if i == 36 {
        assert(locate_in(key_table(), key_table()[36].1) == Some(GlyphLocation { key: key_table()[36].0, shifted: false, finger: key_table()[36].3 }));
    } else if i == 37 {
        assert(locate_in(key_table(), key_table()[37].1) == Some(GlyphLocation { key: key_table()[37].0, shifted: false, finger: key_table()[37].3 }));
    } else if i == 38 {
        assert(locate_in(key_table(), key_table()[38].1) == Some(GlyphLocation { key: key_table()[38].0, shifted: false, finger: key_table()[38].3 }));
    } else if i == 39 {
        assert(locate_in(key_table(), key_table()[39].1) == Some(GlyphLocation { key: key_table()[39].0, shifted: false, finger: key_table()[39].3 }));
    } else if i == 40 {
        assert(locate_in(key_table(), key_table()[40].1) == Some(GlyphLocation { key: key_table()[40].0, shifted: false, finger: key_table()[40].3 }));
    } else {
    }
}

/// Translating a key-notation character and then locating the glyph it
/// produces finds the very key the notation names, with the same need for
/// Shift and the finger of that key: the display lookup never disagrees
/// with what a lesson asks for.
pub proof fn lemma_notation_glyph_locates_its_key(c: char)
    requires
        spec_key_notation_to_glyph(c) is Some,
        spec_key_notation_to_glyph(c).unwrap().0 != ' ',
    ensures
        ({
            let (g, shifted) = spec_key_notation_to_glyph(c).unwrap();
            let key = notation_key(c);
            spec_locate_glyph(g) == Some(
                GlyphLocation { key, shifted, finger: key_def_in(key_table(), key).unwrap().3 },
            )
        }),
{
    let key = notation_key(c);
    let def = key_def_in(key_table(), key).unwrap();
    lemma_key_def_in_index(key_table(), key);
    let i = choose|i: int| 0 <= i < key_table().len() && key_table()[i] == def;
    lemma_table_entry_locates(i);
    lemma_key_def_in_found(key_table(), key);
}

/// A character the layout can produce: a space, or a glyph of some key.
pub open spec fn on_layout(c: char) -> bool {
    c == ' ' || spec_locate_glyph(c) is Some
}

/// The characters that key notation gives a meaning to: space, every key of
/// the table by name, the uppercase form of each key that has a Shift glyph,
/// and the Shift aliases `|` and `{`.
pub open spec fn is_notation_char(c: char) -> bool {
    ||| c == ' '
    ||| ('a' <= c && c <= 'z')
    ||| ('0' <= c && c <= '9')
    ||| c == '-' || c == '=' || c == '[' || c == ',' || c == '.' || c == '/'
    ||| (is_ascii_upper(c) && c != 'G' && c != 'H')
    ||| c == '|' || c == '{'
}

/// Every key-notation character translates to a glyph.
#[verifier::spinoff_prover]
#[verifier::rlimit(100)]
pub proof fn lemma_notation_char_translates(c: char)
    requires
        is_notation_char(c),
    ensures
        spec_key_notation_to_glyph(c) is Some,
{
    if c == ' ' {
        assert(spec_key_notation_to_glyph(' ') is Some) by {
            reveal_with_fuel(key_def_in, 43);
        }
    } else if c == 'a' {
        assert(spec_key_notation_to_glyph('a') is Some) by {
            reveal_with_fuel(key_def_in, 43);
        }
    } else if c == 'b' {
        assert(spec_key_notation_to_glyph('b') is Some) by {
            reveal_with_fuel(key_def_in, 43);
        }
    } else if c == 'c' {
        assert(spec_key_notation_to_glyph('c') is Some) by {
            reveal_with_fuel(key_def_in, 43);
        }
    } else if c == 'd' {
        assert(spec_key_notation_to_glyph('d') is Some) by {
            reveal_with_fuel(key_def_in, 43);
        }
    } else if c == 'e' {
        assert(spec_key_notation_to_glyph('e') is Some) by {
            reveal_with_fuel(key_def_in, 43);
        }
    } else if c == 'f' {
        assert(spec_key_notation_to_glyph('f') is Some) by {
            reveal_with_fuel(key_def_in, 43);
        }
    } else if c == 'g' {
        assert(spec_key_notation_to_glyph('g') is Some) by {
            reveal_with_fuel(key_def_in, 43);
        }
    } else if c == 'h' {
        assert(spec_key_notation_to_glyph('h') is Some) by {
            reveal_with_fuel(key_def_in, 43);
        }
    } else if c == 'i' {
        assert(spec_key_notation_to_glyph('i') is Some) by {
            reveal_with_fuel(key_def_in, 43);
        }
    } else if c == 'j' {
        assert(spec_key_notation_to_glyph('j') is Some) by {
            reveal_with_fuel(key_def_in, 43);
        }
    } else if c == 'k' {
        assert(spec_key_notation_to_glyph('k') is Some) by {
            reveal_with_fuel(key_def_in, 43);
        }
    } else if c == 'l' {
        assert(spec_key_notation_to_glyph('l') is Some) by {
            reveal_with_fuel(key_def_in, 43);
        }
    } else if c == 'm' {
        assert(spec_key_notation_to_glyph('m') is Some) by {
            reveal_with_fuel(key_def_in, 43);
        }
    } else if c == 'n' {
        assert(spec_key_notation_to_glyph('n') is Some) by {
            reveal_with_fuel(key_def_in, 43);
        }
    } else if c == 'o' {
        assert(spec_key_notation_to_glyph('o') is Some) by {
            reveal_with_fuel(key_def_in, 43);
        }
    } else if c == 'p' {
        assert(spec_key_notation_to_glyph('p') is Some) by {
            reveal_with_fuel(key_def_in, 43);
        }
    } else if c == 'q' {
        assert(spec_key_notation_to_glyph('q') is Some) by {
            reveal_with_fuel(key_def_in, 43);
        }
    } else if c == 'r' {
        assert(spec_key_notation_to_glyph('r') is Some) by {
            reveal_with_fuel(key_def_in, 43);
        }
    } else if c == 's' {
        assert(spec_key_notation_to_glyph('s') is Some) by {
            reveal_with_fuel(key_def_in, 43);
        }
    } else if c == 't' {
        assert(spec_key_notation_to_glyph('t') is Some) by {
            reveal_with_fuel(key_def_in, 43);
        }
    } else if c == 'u' {
        assert(spec_key_notation_to_glyph('u') is Some) by {
            reveal_with_fuel(key_def_in, 43);
        }
    } else if c == 'v' {
        assert(spec_key_notation_to_glyph('v') is Some) by {
            reveal_with_fuel(key_def_in, 43);
        }
    } else if c == 'w' {
        assert(spec_key_notation_to_glyph('w') is Some) by {
            reveal_with_fuel(key_def_in, 43);
        }
    } else if c == 'x' {
        assert(spec_key_notation_to_glyph('x') is Some) by {
            reveal_with_fuel(key_def_in, 43);
        }
    } else if c == 'y' {
        assert(spec_key_notation_to_glyph('y') is Some) by {
            reveal_with_fuel(key_def_in, 43);
        }
    } else if c == 'z' {
        assert(spec_key_notation_to_glyph('z') is Some) by {
            reveal_with_fuel(key_def_in, 43);
        }
    } else if c == '0' {
        assert(spec_key_notation_to_glyph('0') is Some) by {
            reveal_with_fuel(key_def_in, 43);
        }
    } else if c == '1' {
        assert(spec_key_notation_to_glyph('1') is Some) by {
            reveal_with_fuel(key_def_in, 43);
        }
    } else if c == '2' {
        assert(spec_key_notation_to_glyph('2') is Some) by {
            reveal_with_fuel(key_def_in, 43);
        }
    } else if c == '3' {
        assert(spec_key_notation_to_glyph('3') is Some) by {
            reveal_with_fuel(key_def_in, 43);
        }
    } else if c == '4' {
        assert(spec_key_notation_to_glyph('4') is Some) by {
            reveal_with_fuel(key_def_in, 43);
        }
    } else if c == '5' {
        assert(spec_key_notation_to_glyph('5') is Some) by {
            reveal_with_fuel(key_def_in, 43);
        }
    } else if c == '6' {
        assert(spec_key_notation_to_glyph('6') is Some) by {
            reveal_with_fuel(key_def_in, 43);
        }
    } else if c == '7' {
        assert(spec_key_notation_to_glyph('7') is Some) by {
            reveal_with_fuel(key_def_in, 43);
        }
    } else if c == '8' {
        assert(spec_key_notation_to_glyph('8') is Some) by {
            reveal_with_fuel(key_def_in, 43);
        }
    } else if c == '9' {
        assert(spec_key_notation_to_glyph('9') is Some) by {
            reveal_with_fuel(key_def_in, 43);
        }
    } else if c == '-' {
        assert(spec_key_notation_to_glyph('-') is Some) by {
            reveal_with_fuel(key_def_in, 43);
        }
    } else if c == '=' {
        assert(spec_key_notation_to_glyph('=') is Some) by {
            reveal_with_fuel(key_def_in, 43);
        }
    } else if c == '[' {
        assert(spec_key_notation_to_glyph('[') is Some) by {
            reveal_with_fuel(key_def_in, 43);
        }
    } else if c == ',' {
        assert(spec_key_notation_to_glyph(',') is Some) by {
            reveal_with_fuel(key_def_in, 43);
        }
    } else if c == '.' {
        assert(spec_key_notation_to_glyph('.') is Some) by {
            reveal_with_fuel(key_def_in, 43);
        }
    } else if c == '/' {
        assert(spec_key_notation_to_glyph('/') is Some) by {
            reveal_with_fuel(key_def_in, 43);
        }
    } else if c == 'A' {
        assert(spec_key_notation_to_glyph('A') is Some) by {
            reveal_with_fuel(key_def_in, 43);
        }
    } else if c == 'B' {
        assert(spec_key_notation_to_glyph('B') is Some) by {
            reveal_with_fuel(key_def_in, 43);
        }
    } else if c == 'C' {
        assert(spec_key_notation_to_glyph('C') is Some) by {
            reveal_with_fuel(key_def_in, 43);
        }
    } else if c == 'D' {
        assert(spec_key_notation_to_glyph('D') is Some) by {
            reveal_with_fuel(key_def_in, 43);
        }
    } else if c == 'E' {
        assert(spec_key_notation_to_glyph('E') is Some) by {
            reveal_with_fuel(key_def_in, 43);
        }
    } else if c == 'F' {
        assert(spec_key_notation_to_glyph('F') is Some) by {
            reveal_with_fuel(key_def_in, 43);
        }
    } else if c == 'I' {
        assert(spec_key_notation_to_glyph('I') is Some) by {
            reveal_with_fuel(key_def_in, 43);
        }
    } else if c == 'J' {
        assert(spec_key_notation_to_glyph('J') is Some) by {
            reveal_with_fuel(key_def_in, 43);
        }
    } else if c == 'K' {
        assert(spec_key_notation_to_glyph('K') is Some) by {
            reveal_with_fuel(key_def_in, 43);
        }
    } else if c == 'L' {
        assert(spec_key_notation_to_glyph('L') is Some) by {
            reveal_with_fuel(key_def_in, 43);
        }
    } else if c == 'M' {
        assert(spec_key_notation_to_glyph('M') is Some) by {
            reveal_with_fuel(key_def_in, 43);
        }
    } else if c == 'N' {
        assert(spec_key_notation_to_glyph('N') is Some) by {
            reveal_with_fuel(key_def_in, 43);
        }
    } else if c == 'O' {
        assert(spec_key_notation_to_glyph('O') is Some) by {
            reveal_with_fuel(key_def_in, 43);
        }
    } else if c == 'P' {
        assert(spec_key_notation_to_glyph('P') is Some) by {
            reveal_with_fuel(key_def_in, 43);
        }
    } else if c == 'Q' {
        assert(spec_key_notation_to_glyph('Q') is Some) by {
            reveal_with_fuel(key_def_in, 43);
        }
    } else if c == 'R' {
        assert(spec_key_notation_to_glyph('R') is Some) by {
            reveal_with_fuel(key_def_in, 43);
        }
    } else if c == 'S' {
        assert(spec_key_notation_to_glyph('S') is Some) by {
            reveal_with_fuel(key_def_in, 43);
        }
    } else if c == 'T' {
        assert(spec_key_notation_to_glyph('T') is Some) by {
            reveal_with_fuel(key_def_in, 43);
        }
    } else if c == 'U' {
        assert(spec_key_notation_to_glyph('U') is Some) by {
            reveal_with_fuel(key_def_in, 43);
        }
    } else if c == 'V' {
        assert(spec_key_notation_to_glyph('V') is Some) by {
            reveal_with_fuel(key_def_in, 43);
        }
    } else if c == 'W' {
        assert(spec_key_notation_to_glyph('W') is Some) by {
            reveal_with_fuel(key_def_in, 43);
        }
    } else if c == 'X' {
        assert(spec_key_notation_to_glyph('X') is Some) by {
            reveal_with_fuel(key_def_in, 43);
        }
    } else if c == 'Y' {
        assert(spec_key_notation_to_glyph('Y') is Some) by {
            reveal_with_fuel(key_def_in, 43);
        }
    } else if c == 'Z' {
        assert(spec_key_notation_to_glyph('Z') is Some) by {
            reveal_with_fuel(key_def_in, 43);
        }
    } else if c == '|' {
        assert(spec_key_notation_to_glyph('|') is Some) by {
            reveal_with_fuel(key_def_in, 43);
        }
    } else if c == '{' {
        assert(spec_key_notation_to_glyph('{') is Some) by {
            reveal_with_fuel(key_def_in, 43);
        }
    }
}

} // verus!
