//! The progress file: which steps are done, each step's last completion
//! statistics, and which step to resume on.  It is three lines of plain
//! text,
//!
//! ```text
//! step=<step index>
//! done=<one '1' or '0' per step>
//! best=<per step "<wpm>:<accuracy>" with two decimals, or "-", comma-separated>
//! ```
//!
//! Finding the file and reading or writing it is left to the caller; this
//! module turns progress into text and text back into progress.

use vstd::prelude::*;
use vstd::string::StringExecFns;
use crate::app::{no_stats, none_done};
use crate::text::{
    all_digits, decimal, digit_char, digit_to_char, digit_value, digits_value, is_digit,
    has_no, lemma_decimal, lemma_digit_char, lemma_digits_have_no, push_char, push_decimal,
};

verus! {

/// Progress as stored between runs.  Statistics are words per minute and
/// accuracy in hundredths.
pub struct SaveData {
    pub step: usize,
    pub lesson_done: Vec<bool>,
    pub best_stats: Vec<Option<(u64, u64)>>,
}

/// What a progress file says: the step to resume on, which steps are done,
/// and the recorded statistics.
pub type Progress = (nat, Seq<bool>, Seq<Option<(u64, u64)>>);

impl SaveData {
    pub open spec fn progress(&self) -> Progress {
        (self.step as nat, self.lesson_done@, self.best_stats@)
    }
}

/// A value kept in hundredths, written with exactly two decimals.
pub open spec fn centi_text(v: nat) -> Seq<char> {
    decimal(v / 100) + seq!['.', digit_char((v % 100) / 10), digit_char(v % 10)]
}

// ------------------------------------------------------ writing the file ---

pub open spec fn step_key() -> Seq<char> {
    seq!['s', 't', 'e', 'p']
}

pub open spec fn done_key() -> Seq<char> {
    seq!['d', 'o', 'n', 'e']
}

pub open spec fn best_key() -> Seq<char> {
    seq!['b', 'e', 's', 't']
}

/// One `'1'` for each step done and one `'0'` for each step not done.
pub open spec fn done_text(done: Seq<bool>) -> Seq<char>
    decreases done.len(),
{
    if done.len() == 0 {
        seq![]
    } else {
        done_text(done.drop_last()).push(
            if done.last() {
                '1'
            } else {
                '0'
            },
        )
    }
}

/// One step's statistics: `<wpm>:<accuracy>`, or `-` when there are none.
pub open spec fn best_entry_text(e: Option<(u64, u64)>) -> Seq<char> {
    match e {
        Some((wpm, accuracy)) => centi_text(wpm as nat) + seq![':'] + centi_text(accuracy as nat),
        None => seq!['-'],
    }
}

/// All steps' statistics, separated by commas.
pub open spec fn best_text(best: Seq<Option<(u64, u64)>>) -> Seq<char>
    decreases best.len(),
{
    if best.len() == 0 {
        seq![]
    } else if best.len() == 1 {
        best_entry_text(best[0])
    } else {
        best_text(best.drop_last()) + seq![','] + best_entry_text(best.last())
    }
}

/// The whole file.
pub open spec fn save_text(p: Progress) -> Seq<char> {
    step_line(p.0) + seq!['\n'] + done_line(p.1) + seq!['\n'] + best_line(p.2) + seq!['\n']
}

/// `step=<step>`.
pub open spec fn step_line(step: nat) -> Seq<char> {
    step_key() + seq!['='] + decimal(step)
}

/// `done=<one digit per step>`.
pub open spec fn done_line(done: Seq<bool>) -> Seq<char> {
    done_key() + seq!['='] + done_text(done)
}

/// `best=<entries>`.
pub open spec fn best_line(best: Seq<Option<(u64, u64)>>) -> Seq<char> {
    best_key() + seq!['='] + best_text(best)
}

fn push_centi(s: &mut String, v: u64)
    ensures
        final(s)@ == old(s)@ + centi_text(v as nat),
{
    push_decimal(s, (v / 100) as u128);
    push_char(s, '.');
    push_char(s, digit_to_char((v % 100) / 10));
    push_char(s, digit_to_char(v % 10));
    assert(final(s)@ =~= old(s)@ + centi_text(v as nat));
}

/// The progress file for `data`.
pub fn format_save(data: &SaveData) -> (text: String)
    ensures
        text@ == save_text(data.progress()),
{
    let mut s = String::new();
    s.append("step=");
    proof {
        reveal_strlit("step=");
    }
    push_decimal(&mut s, data.step as u128);
    push_char(&mut s, '\n');
    s.append("done=");
    proof {
        reveal_strlit("done=");
    }
    let ghost head = s@;
    let mut i: usize = 0;
    while i < data.lesson_done.len()
        invariant
            i <= data.lesson_done@.len(),
            s@ == head + done_text(data.lesson_done@.take(i as int)),
        decreases data.lesson_done.len() - i,
    {
        push_char(
            &mut s,
            if data.lesson_done[i] {
                '1'
            } else {
                '0'
            },
        );
        assert(data.lesson_done@.take(i + 1).drop_last() =~= data.lesson_done@.take(i as int));
        assert(s@ =~= head + done_text(data.lesson_done@.take(i + 1)));
        i += 1;
    }
    assert(data.lesson_done@.take(i as int) =~= data.lesson_done@);
    push_char(&mut s, '\n');
    s.append("best=");
    proof {
        reveal_strlit("best=");
    }
    let ghost head = s@;
    let mut i: usize = 0;
    while i < data.best_stats.len()
        invariant
            i <= data.best_stats@.len(),
            s@ == head + best_text(data.best_stats@.take(i as int)),
        decreases data.best_stats.len() - i,
    {
        if i > 0 {
            push_char(&mut s, ',');
        }
        match data.best_stats[i] {
            Some((wpm, accuracy)) => {
                push_centi(&mut s, wpm);
                push_char(&mut s, ':');
                push_centi(&mut s, accuracy);
            },
            None => push_char(&mut s, '-'),
        }
        let ghost taken = data.best_stats@.take(i + 1);
        assert(taken.drop_last() =~= data.best_stats@.take(i as int));
        assert(taken.last() == data.best_stats@[i as int]);
        assert(s@ =~= head + best_text(taken));
        i += 1;
    }
    assert(data.best_stats@.take(i as int) =~= data.best_stats@);
    push_char(&mut s, '\n');
    assert(s@ =~= save_text(data.progress()));
    s
}

// ------------------------------------------------------ reading the file ---

/// Where `c` first occurs in `s`, or -1 if it does not.
pub open spec fn first_index(s: Seq<char>, c: char) -> int
    decreases s.len(),
{
    if s.len() == 0 {
        -1
    } else if s[0] == c {
        0
    } else {
        let r = first_index(s.drop_first(), c);
        if r < 0 {
            -1
        } else {
            r + 1
        }
    }
}

pub proof fn lemma_first_index(s: Seq<char>, c: char)
    ensures
        -1 <= first_index(s, c) < s.len(),
        first_index(s, c) == -1 <==> has_no(s, c),
        first_index(s, c) >= 0 ==> s[first_index(s, c)] == c && has_no(
            s.take(first_index(s, c)),
            c,
        ),
    decreases s.len(),
{
    if s.len() > 0 {
        lemma_first_index(s.drop_first(), c);
        let r = first_index(s.drop_first(), c);
        if s[0] != c {
            if r >= 0 {
                assert forall|i: int| 0 <= i < r + 1 implies #[trigger] s.take(r + 1)[i] != c by {
                    if i > 0 {
                        assert(s.take(r + 1)[i] == s.drop_first().take(r)[i - 1]);
                    }
                }
                assert(s[r + 1] == s.drop_first()[r]);
            } else {
                assert forall|i: int| 0 <= i < s.len() implies #[trigger] s[i] != c by {
                    if i > 0 {
                        assert(s[i] == s.drop_first()[i - 1]);
                    }
                }
            }
        }
    }
}

/// `first_index` of a string made of a part without `c`, then `c`, then
/// anything.
pub proof fn lemma_first_index_at(a: Seq<char>, c: char, rest: Seq<char>)
    requires
        has_no(a, c),
    ensures
        first_index(a + seq![c] + rest, c) == a.len(),
    decreases a.len(),
{
    let t = a + seq![c] + rest;
    if a.len() > 0 {
        assert(t.drop_first() =~= a.drop_first() + seq![c] + rest);
        assert(t[0] == a[0]);
        lemma_first_index_at(a.drop_first(), c, rest);
    } else {
        assert(t[0] == c);
    }
}

pub proof fn lemma_first_index_none(a: Seq<char>, c: char)
    requires
        has_no(a, c),
    ensures
        first_index(a, c) == -1,
{
    lemma_first_index(a, c);
}

/// The pieces of `s` between occurrences of `c` (one piece when there is
/// none), as `str::split` gives them.
pub open spec fn split_on(s: Seq<char>, c: char) -> Seq<Seq<char>>
    decreases s.len(),
{
    let k = first_index(s, c);
    if k < 0 || k >= s.len() {
        seq![s]
    } else {
        seq![s.take(k)] + split_on(s.skip(k + 1), c)
    }
}

/// A line as `str::lines` gives it: without its `'\n'`, and without a
/// `'\r'` just before that.
pub open spec fn strip_cr(s: Seq<char>) -> Seq<char> {
    if s.len() > 0 && s.last() == '\r' {
        s.drop_last()
    } else {
        s
    }
}

/// The lines of a text as `str::lines` gives them: a final line ending is
/// optional and makes no empty last line.
pub open spec fn lines_of(t: Seq<char>) -> Seq<Seq<char>>
    decreases t.len(),
{
    let k = first_index(t, '\n');
    if t.len() == 0 {
        seq![]
    } else if k < 0 || k >= t.len() {
        seq![t]
    } else {
        seq![strip_cr(t.take(k))] + lines_of(t.skip(k + 1))
    }
}

/// A number as `str::parse::<usize>` reads it: an optional `'+'`, then at
/// least one decimal digit and nothing else, within `usize`.
pub open spec fn unsigned_part(s: Seq<char>) -> Seq<char> {
    if s.len() > 0 && s[0] == '+' {
        s.drop_first()
    } else {
        s
    }
}

pub open spec fn parsed_usize(s: Seq<char>) -> Option<usize> {
    let d = unsigned_part(s);
    if d.len() > 0 && all_digits(d) && digits_value(d) <= usize::MAX {
        Some(digits_value(d) as usize)
    } else {
        None
    }
}

/// `n` zeros.
pub open spec fn zeros(n: nat) -> Seq<char> {
    Seq::new(n, |_i: int| '0')
}

/// Ten to the power `n`.
pub open spec fn pow10(n: nat) -> nat
    decreases n,
{
    if n == 0 {
        1
    } else {
        10 * pow10((n - 1) as nat)
    }
}

/// The whole number that the digits `d` spell once the decimal point after
/// them is moved `shift` places to the right (to the left for a negative
/// shift), rounded to the nearest, a half up: the digits dropped decide the
/// rounding by the first of them.
pub open spec fn shifted_value(d: Seq<char>, shift: int) -> nat {
    if shift >= 0 {
        digits_value(d + zeros(shift as nat))
    } else {
        let cut = d.len() + shift;
        if cut < 0 {
            0
        } else {
            digits_value(d.take(cut)) + if digit_value(d[cut]) >= 5 {
                1nat
            } else {
                0nat
            }
        }
    }
}

/// Where the exponent marker (`e` or `E`) first occurs in `u`, or -1.
pub open spec fn exp_marker(u: Seq<char>) -> int {
    let a = first_index(u, 'e');
    let b = first_index(u, 'E');
    if a < 0 {
        b
    } else if b < 0 || a < b {
        a
    } else {
        b
    }
}

/// Whether an exponent's text starts with a minus sign.
pub open spec fn exponent_negative(x: Seq<char>) -> bool {
    x.len() > 0 && x[0] == '-'
}

/// An exponent's digits: its text past an optional sign.
pub open spec fn exponent_digits(x: Seq<char>) -> Seq<char> {
    if x.len() > 0 && (x[0] == '+' || x[0] == '-') {
        x.drop_first()
    } else {
        x
    }
}

/// An exponent: an optional sign and at least one digit.
pub open spec fn parsed_exponent(x: Seq<char>) -> Option<int> {
    let d = exponent_digits(x);
    if d.len() > 0 && all_digits(d) {
        Some(
            if exponent_negative(x) {
                -(digits_value(d) as int)
            } else {
                digits_value(d) as int
            },
        )
    } else {
        None
    }
}

/// A decimal number in hundredths, rounded to the nearest (a half up): an
/// optional `'+'`, digits with an optional `'.'` among or around them (at
/// least one digit in all), and an optional exponent, `e` or `E` with an
/// optional sign and digits.  `None` for any other text and for a value
/// beyond `u64`.
pub open spec fn parsed_centi(s: Seq<char>) -> Option<u64> {
    let u = unsigned_part(s);
    let m = exp_marker(u);
    if m < 0 {
        mantissa_centi(u, 0)
    } else {
        match parsed_exponent(u.skip(m + 1)) {
            Some(e) => mantissa_centi(u.take(m), e),
            None => None,
        }
    }
}

/// The hundredths that a mantissa (digits with an optional `'.'` among
/// or around them, at least one digit in all) gives under exponent `e`.
pub open spec fn mantissa_centi(mant: Seq<char>, e: int) -> Option<u64> {
    let k = first_index(mant, '.');
    let int_part = if k < 0 {
        mant
    } else {
        mant.take(k)
    };
    let frac = if k < 0 {
        seq![]
    } else {
        mant.skip(k + 1)
    };
    let v = shifted_value(int_part + frac, e - frac.len() + 2);
    if all_digits(int_part) && all_digits(frac) && int_part.len() + frac.len() > 0 && v
        <= u64::MAX {
        Some(v as u64)
    } else {
        None
    }
}

/// One entry of the `best=` line: `<wpm>:<accuracy>`, split at the first
/// `':'`; `None` unless both halves read as numbers.
pub open spec fn parsed_entry(e: Seq<char>) -> Option<(u64, u64)> {
    let k = first_index(e, ':');
    if k < 0 {
        None
    } else {
        match (parsed_centi(e.take(k)), parsed_centi(e.skip(k + 1))) {
            (Some(w), Some(a)) => Some((w, a)),
            _ => None,
        }
    }
}

/// A `done=` value: its `i`-th character says whether step `i` is done
/// (`'1'`) or not; steps past its end keep what they had.
pub open spec fn apply_done(done: Seq<bool>, value: Seq<char>) -> Seq<bool> {
    Seq::new(done.len(), |i: int| if i < value.len() { value[i] == '1' } else { done[i] })
}

/// A `best=` value: its `i`-th comma-separated entry, where it reads as
/// statistics, replaces step `i`'s; the other steps keep theirs.
pub open spec fn apply_best(best: Seq<Option<(u64, u64)>>, value: Seq<char>) -> Seq<
    Option<(u64, u64)>,
> {
    let entries = split_on(value, ',');
    Seq::new(
        best.len(),
        |i: int|
            if i < entries.len() && parsed_entry(entries[i]) is Some {
                parsed_entry(entries[i])
            } else {
                best[i]
            },
    )
}

/// What reading one line does: a line is `<key>=<value>`, split at the
/// first `'='`; lines without `'='` and unknown keys change nothing, and a
/// `step=` value that does not read as a number gives step 0.
pub open spec fn apply_line(p: Progress, line: Seq<char>) -> Progress {
    let k = first_index(line, '=');
    if k < 0 {
        p
    } else {
        let key = line.take(k);
        let value = line.skip(k + 1);
        if key == step_key() {
            (
                match parsed_usize(value) {
                    Some(v) => v as nat,
                    None => 0,
                },
                p.1,
                p.2,
            )
        } else if key == done_key() {
            (p.0, apply_done(p.1, value), p.2)
        } else if key == best_key() {
            (p.0, p.1, apply_best(p.2, value))
        } else {
            p
        }
    }
}

pub open spec fn apply_lines(p: Progress, lines: Seq<Seq<char>>) -> Progress
    decreases lines.len(),
{
    if lines.len() == 0 {
        p
    } else {
        apply_line(apply_lines(p, lines.drop_last()), lines.last())
    }
}

/// Progress with nothing done and nothing recorded, on step 0.
pub open spec fn fresh_progress(num_lessons: nat) -> Progress {
    (0, none_done(num_lessons), no_stats(num_lessons))
}

/// What a progress file reads as, for `num_lessons` steps: its lines in
/// order, over fresh progress, with the step then held to the last step.
pub open spec fn parsed_save(t: Seq<char>, num_lessons: nat) -> Progress {
    let p = apply_lines(fresh_progress(num_lessons), lines_of(t));
    (if p.0 + 1 <= num_lessons {
        p.0
    } else if num_lessons == 0 {
        0
    } else {
        (num_lessons - 1) as nat
    }, p.1, p.2)
}

pub proof fn lemma_first_index_is(s: Seq<char>, c: char, m: int)
    requires
        0 <= m < s.len(),
        s[m] == c,
        has_no(s.take(m), c),
    ensures
        first_index(s, c) == m,
{
    lemma_first_index(s, c);
    let f = first_index(s, c);
    if f == -1 {
        assert(s[m] != c);
    } else if f < m {
        assert(s.take(m)[f] == s[f]);
    } else if f > m {
        assert(s.take(f)[m] == s[m]);
    }
}

proof fn lemma_digits_step(s: Seq<char>, i: int)
    requires
        0 <= i < s.len(),
    ensures
        digits_value(s.take(i + 1)) == digits_value(s.take(i)) * 10 + digit_value(s[i]),
{
    assert(s.take(i + 1).drop_last() =~= s.take(i));
}

/// A string of digits spells at least what any of its prefixes spells.
pub proof fn lemma_digits_prefix(s: Seq<char>, j: int)
    requires
        0 <= j <= s.len(),
        all_digits(s),
    ensures
        digits_value(s.take(j)) <= digits_value(s),
    decreases s.len(),
{
    if j == s.len() {
        assert(s.take(j) =~= s);
    } else {
        let d = s.drop_last();
        assert(all_digits(d)) by {
            assert forall|i: int| 0 <= i < d.len() implies is_digit(#[trigger] d[i]) by {
                assert(d[i] == s[i]);
            }
        }
        lemma_digits_prefix(d, j);
        assert(d.take(j) =~= s.take(j));
    }
}

/// The characters of `text`, one by one.
fn chars_of(text: &str) -> (v: Vec<char>)
    ensures
        v@ == text@,
{
    let mut v: Vec<char> = Vec::new();
    for c in it: text.chars()
        invariant
            it.seq() == text@,
            v@ == text@.take(it.index() as int),
    {
        let ghost i = it.index();
        v.push(c);
        assert(v@ =~= text@.take(i + 1));
    }
    assert(text@.take(text@.len() as int) =~= text@);
    v
}

/// Where `c` first occurs in `v[lo..hi]`, or `hi`.
fn find_char(v: &Vec<char>, lo: usize, hi: usize, c: char) -> (k: usize)
    requires
        lo <= hi <= v@.len(),
    ensures
        lo <= k <= hi,
        k < hi ==> first_index(v@.subrange(lo as int, hi as int), c) == k - lo,
        k == hi ==> first_index(v@.subrange(lo as int, hi as int), c) == -1,
{
    let ghost s = v@.subrange(lo as int, hi as int);
    let mut i = lo;
    while i < hi
        invariant
            lo <= i <= hi,
            hi <= v@.len(),
            s == v@.subrange(lo as int, hi as int),
            has_no(v@.subrange(lo as int, i as int), c),
        decreases hi - i,
    {
        if v[i] == c {
            proof {
                assert(s.take(i - lo) =~= v@.subrange(lo as int, i as int));
                assert(s[i - lo] == v@[i as int]);
                lemma_first_index_is(s, c, i - lo);
            }
            return i;
        }
        assert(has_no(v@.subrange(lo as int, i + 1), c)) by {
            assert forall|j: int| 0 <= j < i + 1 - lo implies #[trigger] v@.subrange(
                lo as int,
                i + 1,
            )[j] != c by {
                if j < i - lo {
                    assert(v@.subrange(lo as int, i + 1)[j] == v@.subrange(lo as int, i as int)[j]);
                }
            }
        }
        i += 1;
    }
    proof {
        assert(s =~= v@.subrange(lo as int, i as int));
        lemma_first_index_none(s, c);
    }
    hi
}

/// The value of a decimal digit.
fn digit_of(ch: char) -> (r: Option<u64>)
    ensures
        r is Some <==> is_digit(ch),
        r is Some ==> r->0 == digit_value(ch),
{
    if '0' <= ch && ch <= '9' {
        Some((ch as u32 - 48) as u64)
    } else {
        None
    }
}

/// The number spelt by the digits `v[lo..hi]`, if they are all digits and
/// it is at most `limit`.
fn digits_in(v: &Vec<char>, lo: usize, hi: usize, limit: u64) -> (r: Option<u64>)
    requires
        lo <= hi <= v@.len(),
    ensures
        r == (if all_digits(v@.subrange(lo as int, hi as int)) && digits_value(
            v@.subrange(lo as int, hi as int),
        ) <= limit {
            Some(digits_value(v@.subrange(lo as int, hi as int)) as u64)
        } else {
            None
        }),
{
    let ghost s = v@.subrange(lo as int, hi as int);
    let mut acc: u64 = 0;
    let mut i = lo;
    while i < hi
        invariant
            lo <= i <= hi,
            hi <= v@.len(),
            s == v@.subrange(lo as int, hi as int),
            all_digits(s.take(i - lo)),
            acc == digits_value(s.take(i - lo)),
            acc <= limit,
        decreases hi - i,
    {
        let ghost j = i - lo;
        assert(s[j] == v@[i as int]);
        proof {
            lemma_digits_step(s, j);
        }
        match digit_of(v[i]) {
            None => {
                assert(!all_digits(s));
                return None;
            },
            Some(d) => {
                if d > limit {
                    proof {
                        if all_digits(s) {
                            lemma_digits_prefix(s, j + 1);
                        }
                    }
                    return None;
                }
                if acc > (limit - d) / 10 {
                    proof {
                        assert(acc * 10 + d > limit) by (nonlinear_arith)
                            requires
                                acc > (limit - d) / 10,
                                d <= limit,
                        ;
                        if all_digits(s) {
                            lemma_digits_prefix(s, j + 1);
                        }
                    }
                    return None;
                }
                assert(acc * 10 + d <= limit) by (nonlinear_arith)
                    requires
                        acc <= (limit - d) / 10,
                        d <= limit,
                ;
                acc = acc * 10 + d;
                assert(all_digits(s.take(j + 1))) by {
                    assert forall|k: int| 0 <= k < j + 1 implies is_digit(#[trigger] s.take(j + 1)[k]) by {
                        if k < j {
                            assert(s.take(j + 1)[k] == s.take(j)[k]);
                        }
                    }
                }
            },
        }
        i += 1;
    }
    assert(s.take(i - lo) =~= s);
    Some(acc)
}

proof fn lemma_sub_split(v: Seq<char>, lo: int, k: int, hi: int)
    requires
        0 <= lo <= k < hi <= v.len(),
    ensures
        v.subrange(lo, hi).take(k - lo) == v.subrange(lo, k),
        v.subrange(lo, hi).skip(k - lo + 1) == v.subrange(k + 1, hi),
        v.subrange(lo, hi)[k - lo] == v[k],
{
    assert(v.subrange(lo, hi).take(k - lo) =~= v.subrange(lo, k));
    assert(v.subrange(lo, hi).skip(k - lo + 1) =~= v.subrange(k + 1, hi));
}

/// Where the unsigned part of `v[lo..hi]` starts: past a leading `'+'`.
fn unsigned_start(v: &Vec<char>, lo: usize, hi: usize) -> (start: usize)
    requires
        lo <= hi <= v@.len(),
    ensures
        lo <= start <= hi,
        unsigned_part(v@.subrange(lo as int, hi as int)) == v@.subrange(start as int, hi as int),
{
    if lo < hi && v[lo] == '+' {
        assert(v@.subrange(lo as int, hi as int).drop_first() =~= v@.subrange(lo + 1, hi as int));
        lo + 1
    } else {
        lo
    }
}

/// `str::parse::<usize>` on `v[lo..hi]`.
fn parse_usize_in(v: &Vec<char>, lo: usize, hi: usize) -> (r: Option<usize>)
    requires
        lo <= hi <= v@.len(),
    ensures
        r == parsed_usize(v@.subrange(lo as int, hi as int)),
{
    let start = unsigned_start(v, lo, hi);
    if start == hi {
        return None;
    }
    match digits_in(v, start, hi, usize::MAX as u64) {
        Some(n) => Some(n as usize),
        None => None,
    }
}

/// Whether `v[lo..hi]` is all decimal digits.
fn all_digits_in(v: &Vec<char>, lo: usize, hi: usize) -> (b: bool)
    requires
        lo <= hi <= v@.len(),
    ensures
        b == all_digits(v@.subrange(lo as int, hi as int)),
{
    let mut i = lo;
    while i < hi
        invariant
            lo <= i <= hi,
            hi <= v@.len(),
            forall|j: int| lo <= j < i ==> is_digit(#[trigger] v@[j]),
        decreases hi - i,
    {
        if !('0' <= v[i] && v[i] <= '9') {
            assert(v@.subrange(lo as int, hi as int)[i - lo] == v@[i as int]);
            return false;
        }
        i += 1;
    }
    assert forall|j: int| 0 <= j < hi - lo implies is_digit(
        #[trigger] v@.subrange(lo as int, hi as int)[j],
    ) by {
        assert(v@.subrange(lo as int, hi as int)[j] == v@[lo + j]);
    }
    true
}

/// Exponents are followed exactly up to this size; any larger one moves
/// the decimal point past every digit that a `u64` can hold.
pub const EXP_CAP: u128 = 1180591620717411303424;

/// `n`, or `EXP_CAP` if that is smaller.
pub open spec fn capped(n: nat) -> nat {
    if n < EXP_CAP {
        n
    } else {
        EXP_CAP as nat
    }
}

/// A string of digits followed by `n` zeros spells its number times ten to
/// the `n`.
proof fn lemma_zeros_value(s: Seq<char>, n: nat)
    ensures
        digits_value(s + zeros(n)) == digits_value(s) * pow10(n),
    decreases n,
{
    if n == 0 {
        assert(s + zeros(0) =~= s);
        assert(pow10(0) == 1);
        assert(digits_value(s) * 1 == digits_value(s));
    } else {
        lemma_zeros_value(s, (n - 1) as nat);
        let t = s + zeros(n);
        assert(t.drop_last() =~= s + zeros((n - 1) as nat));
        assert(t.last() == '0');
        assert(digit_value('0') == 0);
        assert(digits_value(t) == digits_value(t.drop_last()) * 10 + digit_value(t.last()));
        assert(pow10(n) == 10 * pow10((n - 1) as nat));
        let a = digits_value(s);
        let b = pow10((n - 1) as nat);
        assert(a * b * 10 == a * (10 * b)) by (nonlinear_arith);
        assert(digits_value(t.drop_last()) == a * b);
        assert(digits_value(t) == a * b * 10);
    }
}

proof fn lemma_pow10_grows(a: nat, b: nat)
    requires
        a <= b,
    ensures
        1 <= pow10(a) <= pow10(b),
    decreases b,
{
    if b > a {
        lemma_pow10_grows(a, (b - 1) as nat);
    } else if a > 0 {
        lemma_pow10_grows((a - 1) as nat, (a - 1) as nat);
    }
}

proof fn lemma_pow10_20()
    ensures
        pow10(20) > u64::MAX,
{
    reveal_with_fuel(pow10, 21);
}

/// The exponent read from `v[lo..hi]`: whether it is negative, and its size
/// held to `EXP_CAP`.
fn parse_exponent_in(v: &Vec<char>, lo: usize, hi: usize) -> (r: Option<(bool, u128)>)
    requires
        lo <= hi <= v@.len(),
    ensures
        r == (if parsed_exponent(v@.subrange(lo as int, hi as int)) is Some {
            Some(
                (
                    exponent_negative(v@.subrange(lo as int, hi as int)),
                    capped(digits_value(exponent_digits(v@.subrange(lo as int, hi as int))))
                        as u128,
                ),
            )
        } else {
            None::<(bool, u128)>
        }),
{
    let ghost x = v@.subrange(lo as int, hi as int);
    let signed = lo < hi && (v[lo] == '+' || v[lo] == '-');
    let neg = lo < hi && v[lo] == '-';
    let ds = if signed {
        lo + 1
    } else {
        lo
    };
    proof {
        if signed {
            assert(x.drop_first() =~= v@.subrange(ds as int, hi as int));
        }
    }
    let ghost d = v@.subrange(ds as int, hi as int);
    assert(exponent_digits(x) == d);
    assert(exponent_negative(x) == neg);
    if ds == hi {
        return None;
    }
    let mut mag: u128 = 0;
    let mut i = ds;
    while i < hi
        invariant
            ds <= i <= hi <= v@.len(),
            d == v@.subrange(ds as int, hi as int),
            x == v@.subrange(lo as int, hi as int),
            exponent_digits(x) == d,
            exponent_negative(x) == neg,
            d.len() > 0,
            all_digits(d.take(i - ds)),
            mag == capped(digits_value(d.take(i - ds))),
        decreases hi - i,
    {
        let ghost j = i - ds;
        assert(d[j] == v@[i as int]);
        proof {
            lemma_digits_step(d, j);
        }
        match digit_of(v[i]) {
            None => {
                assert(!all_digits(d));
                return None;
            },
            Some(dg) => {
                if mag >= EXP_CAP {
                    mag = EXP_CAP;
                } else {
                    let t = mag * 10 + dg as u128;
                    mag = if t > EXP_CAP {
                        EXP_CAP
                    } else {
                        t
                    };
                }
                assert(all_digits(d.take(j + 1))) by {
                    assert forall|k: int| 0 <= k < j + 1 implies is_digit(#[trigger] d.take(j + 1)[k]) by {
                        if k < j {
                            assert(d.take(j + 1)[k] == d.take(j)[k]);
                        }
                    }
                }
            },
        }
        i += 1;
    }
    assert(d.take(i - ds) =~= d);
    Some((neg, mag))
}

/// The characters `v[a_lo..a_hi]` followed by `v[b_lo..b_hi]`.
fn concat_ranges(v: &Vec<char>, a_lo: usize, a_hi: usize, b_lo: usize, b_hi: usize) -> (d: Vec<
    char,
>)
    requires
        a_lo <= a_hi <= v@.len(),
        b_lo <= b_hi <= v@.len(),
    ensures
        d@ == v@.subrange(a_lo as int, a_hi as int) + v@.subrange(b_lo as int, b_hi as int),
{
    let mut d: Vec<char> = Vec::new();
    let mut i = a_lo;
    while i < a_hi
        invariant
            a_lo <= i <= a_hi <= v@.len(),
            d@ == v@.subrange(a_lo as int, i as int),
        decreases a_hi - i,
    {
        d.push(v[i]);
        assert(d@ =~= v@.subrange(a_lo as int, i + 1));
        i += 1;
    }
    let ghost head = d@;
    let mut i = b_lo;
    while i < b_hi
        invariant
            b_lo <= i <= b_hi <= v@.len(),
            head == v@.subrange(a_lo as int, a_hi as int),
            d@ == head + v@.subrange(b_lo as int, i as int),
        decreases b_hi - i,
    {
        d.push(v[i]);
        assert(d@ =~= head + v@.subrange(b_lo as int, i + 1));
        i += 1;
    }
    d
}

/// The hundredths that the digits `d` make with the point moved by
/// `shift` (see `shifted_value`), where `shift` is `true_shift` itself or
/// agrees with it on what the value is: both at least 20, or both putting
/// the point before every digit.
fn shifted_in(d: &Vec<char>, shift: i128, Ghost(true_shift): Ghost<int>) -> (r: Option<u64>)
    requires
        all_digits(d@),
        true_shift == shift || (shift >= 20 && true_shift >= 20) || (shift + d@.len() < 0
            && true_shift + d@.len() < 0),
    ensures
        r == (if shifted_value(d@, true_shift) <= u64::MAX {
            Some(shifted_value(d@, true_shift) as u64)
        } else {
            None::<u64>
        }),
{
    let n = d.len();
    assert(d@.subrange(0, n as int) =~= d@);
    if shift >= 0 {
        let ghost ts = true_shift as nat;
        proof {
            lemma_zeros_value(d@, ts);
            lemma_pow10_grows(0, ts);
        }
        match digits_in(d, 0, n, u64::MAX) {
            None => {
                assert(digits_value(d@) * pow10(ts) >= digits_value(d@)) by (nonlinear_arith)
                    requires
                        pow10(ts) >= 1,
                ;
                None
            },
            Some(a) => {
                if a == 0 {
                    return Some(0);
                }
                if shift >= 20 {
                    proof {
                        lemma_pow10_grows(20, ts);
                        lemma_pow10_20();
                        assert(a * pow10(ts) >= pow10(ts)) by (nonlinear_arith)
                            requires
                                a >= 1,
                        ;
                    }
                    return None;
                }
                let k = shift as u64;
                let mut acc: u64 = a;
                let mut i: u64 = 0;
                while i < k
                    invariant
                        i <= k,
                        k == ts,
                        ts == true_shift,
                        ts < 20,
                        a >= 1,
                        a == digits_value(d@),
                        shifted_value(d@, true_shift) == a * pow10(ts),
                        acc == a * pow10(i as nat),
                    decreases k - i,
                {
                    assert(pow10((i + 1) as nat) == 10 * pow10(i as nat));
                    if acc > u64::MAX / 10 {
                        proof {
                            lemma_pow10_grows((i + 1) as nat, ts);
                            assert(a * pow10((i + 1) as nat) == acc * 10) by (nonlinear_arith)
                                requires
                                    acc == a * pow10(i as nat),
                                    pow10((i + 1) as nat) == 10 * pow10(i as nat),
                            ;
                            assert(a * pow10(ts) >= a * pow10((i + 1) as nat)) by (nonlinear_arith)
                                requires
                                    pow10(ts) >= pow10((i + 1) as nat),
                                    a >= 1,
                            ;
                        }
                        return None;
                    }
                    proof {
                        assert(a * pow10((i + 1) as nat) == acc * 10) by (nonlinear_arith)
                            requires
                                acc == a * pow10(i as nat),
                                pow10((i + 1) as nat) == 10 * pow10(i as nat),
                        ;
                    }
                    acc = acc * 10;
                    i += 1;
                }
                Some(acc)
            },
        }
    } else {
        let cut: i128 = n as i128 + shift;
        if cut < 0 {
            return Some(0);
        }
        let c = cut as usize;
        assert(true_shift == shift);
        assert(d@.subrange(0, c as int) =~= d@.take(c as int));
        assert(digit_value(d@[c as int]) == (d@[c as int] as u32 - 48));
        match digits_in(d, 0, c, u64::MAX) {
            None => {
                assert(all_digits(d@.take(c as int))) by {
                    assert forall|k: int| 0 <= k < c implies is_digit(#[trigger] d@.take(c as int)[k]) by {
                        assert(d@.take(c as int)[k] == d@[k]);
                    }
                }
                None
            },
            Some(p) => {
                let round = (d[c] as u32 - 48) >= 5;
                if round {
                    if p == u64::MAX {
                        return None;
                    }
                    Some(p + 1)
                } else {
                    Some(p)
                }
            },
        }
    }
}

/// The hundredths that the mantissa `v[lo..hi]` gives under an exponent
/// `e` that is known by its sign and its size held to `EXP_CAP`.
#[verifier::spinoff_prover]
fn mantissa_in(v: &Vec<char>, lo: usize, hi: usize, neg: bool, mag: u128, Ghost(e): Ghost<int>) -> (r:
    Option<u64>)
    requires
        lo <= hi <= v@.len(),
        mag <= EXP_CAP,
        mag < EXP_CAP ==> e == (if neg {
            -(mag as int)
        } else {
            mag as int
        }),
        mag == EXP_CAP ==> (if neg {
            e <= -(EXP_CAP as int)
        } else {
            e >= EXP_CAP
        }),
    ensures
        r == mantissa_centi(v@.subrange(lo as int, hi as int), e),
{
    let ghost mant = v@.subrange(lo as int, hi as int);
    let p = find_char(v, lo, hi, '.');
    let frac_lo = if p < hi {
        p + 1
    } else {
        hi
    };
    proof {
        if p < hi {
            lemma_sub_split(v@, lo as int, p as int, hi as int);
        } else {
            assert(mant =~= v@.subrange(lo as int, p as int));
            assert(v@.subrange(frac_lo as int, hi as int) =~= seq![]);
        }
    }
    let ghost int_part = v@.subrange(lo as int, p as int);
    let ghost frac = v@.subrange(frac_lo as int, hi as int);
    if !all_digits_in(v, lo, p) {
        return None;
    }
    if !all_digits_in(v, frac_lo, hi) {
        return None;
    }
    if p == lo && frac_lo == hi {
        return None;
    }
    let d = concat_ranges(v, lo, p, frac_lo, hi);
    assert(all_digits(d@)) by {
        assert forall|k: int| 0 <= k < d@.len() implies is_digit(#[trigger] d@[k]) by {
            if k < int_part.len() {
                assert(d@[k] == int_part[k]);
            } else {
                assert(d@[k] == frac[k - int_part.len()]);
            }
        }
    }
    let frac_len = hi - frac_lo;
    let signed: i128 = if neg {
        -(mag as i128)
    } else {
        mag as i128
    };
    let shift: i128 = signed - frac_len as i128 + 2;
    let ghost true_shift = e - frac.len() + 2;
    assert(d@.len() == int_part.len() + frac.len());
    assert(int_part.len() <= usize::MAX);
    shifted_in(&d, shift, Ghost(true_shift))
}

/// A decimal number in hundredths read from `v[lo..hi]` (see `parsed_centi`).
fn parse_centi_in(v: &Vec<char>, lo: usize, hi: usize) -> (r: Option<u64>)
    requires
        lo <= hi <= v@.len(),
    ensures
        r == parsed_centi(v@.subrange(lo as int, hi as int)),
{
    let start = unsigned_start(v, lo, hi);
    let ghost u = v@.subrange(start as int, hi as int);
    let ke = find_char(v, start, hi, 'e');
    let kc = find_char(v, start, hi, 'E');
    let m = if ke < kc {
        ke
    } else {
        kc
    };
    proof {
        lemma_first_index(u, 'e');
        lemma_first_index(u, 'E');
    }
    if m == hi {
        assert(exp_marker(u) == -1);
        assert(u =~= v@.subrange(start as int, m as int));
        return mantissa_in(v, start, hi, false, 0, Ghost(0));
    }
    assert(exp_marker(u) == m - start);
    proof {
        lemma_sub_split(v@, start as int, m as int, hi as int);
    }
    let ghost x = v@.subrange(m + 1, hi as int);
    match parse_exponent_in(v, m + 1, hi) {
        None => None,
        Some((neg, mag)) => {
            let ghost e = parsed_exponent(x)->0;
            mantissa_in(v, start, m, neg, mag, Ghost(e))
        },
    }
}

/// One `best=` entry read from `v[lo..hi]` (see `parsed_entry`).
fn parse_entry_in(v: &Vec<char>, lo: usize, hi: usize) -> (r: Option<(u64, u64)>)
    requires
        lo <= hi <= v@.len(),
    ensures
        r == parsed_entry(v@.subrange(lo as int, hi as int)),
{
    let k = find_char(v, lo, hi, ':');
    if k == hi {
        return None;
    }
    proof {
        lemma_sub_split(v@, lo as int, k as int, hi as int);
    }
    match (parse_centi_in(v, lo, k), parse_centi_in(v, k + 1, hi)) {
        (Some(w), Some(a)) => Some((w, a)),
        _ => None,
    }
}

/// Reads a `done=` value `v[lo..hi]` into `done` (see `apply_done`).
fn apply_done_in(done: &mut Vec<bool>, v: &Vec<char>, lo: usize, hi: usize)
    requires
        lo <= hi <= v@.len(),
    ensures
        final(done)@ == apply_done(old(done)@, v@.subrange(lo as int, hi as int)),
{
    let ghost value = v@.subrange(lo as int, hi as int);
    let ghost before = done@;
    let mut i: usize = 0;
    while i < done.len() && i < hi - lo
        invariant
            lo <= hi <= v@.len(),
            value == v@.subrange(lo as int, hi as int),
            done@.len() == before.len(),
            i <= done@.len(),
            i <= hi - lo,
            forall|j: int|
                0 <= j < done@.len() ==> #[trigger] done@[j] == (if j < i {
                    value[j] == '1'
                } else {
                    before[j]
                }),
        decreases done.len() - i,
    {
        assert(value[i as int] == v@[lo + i]);
        done.set(i, v[lo + i] == '1');
        i += 1;
    }
    let ghost want = apply_done(before, value);
    assert forall|j: int| 0 <= j < done@.len() implies #[trigger] done@[j] == want[j] by {
        if i == hi - lo {
            assert(value.len() == i);
        }
    }
    assert(done@ =~= want);
}

/// Reads a `best=` value `v[lo..hi]` into `best` (see `apply_best`).
fn apply_best_in(best: &mut Vec<Option<(u64, u64)>>, v: &Vec<char>, lo: usize, hi: usize)
    requires
        lo <= hi <= v@.len(),
    ensures
        final(best)@ == apply_best(old(best)@, v@.subrange(lo as int, hi as int)),
{
    let ghost value = v@.subrange(lo as int, hi as int);
    let ghost before = best@;
    let ghost entries = split_on(value, ',');
    let ghost want = apply_best(before, value);
    let ghost mut seen: Seq<Seq<char>> = seq![];
    let mut pos = lo;
    let mut i: usize = 0;
    assert(v@.subrange(lo as int, hi as int) == value);
    loop
        invariant
            lo <= pos <= hi <= v@.len(),
            value == v@.subrange(lo as int, hi as int),
            entries == split_on(value, ','),
            want == apply_best(before, value),
            before == old(best)@,
            best@.len() == before.len(),
            i == seen.len(),
            i <= best@.len(),
            entries == seen + split_on(v@.subrange(pos as int, hi as int), ','),
            forall|j: int|
                0 <= j < best@.len() ==> #[trigger] best@[j] == (if j < i && parsed_entry(
                    seen[j],
                ) is Some {
                    parsed_entry(seen[j])
                } else {
                    before[j]
                }),
        decreases hi - pos,
    {
        if i == best.len() {
            assert forall|j: int| 0 <= j < best@.len() implies #[trigger] best@[j] == want[j] by {
                assert(entries[j] == seen[j]);
            }
            assert(best@ =~= want);
            return;
        }
        let ghost rest = v@.subrange(pos as int, hi as int);
        let k = find_char(v, pos, hi, ',');
        let ghost entry = v@.subrange(pos as int, k as int);
        proof {
            if k < hi {
                lemma_sub_split(v@, pos as int, k as int, hi as int);
                assert(split_on(rest, ',') == seq![entry] + split_on(
                    v@.subrange(k + 1, hi as int),
                    ',',
                ));
            } else {
                assert(rest =~= entry);
                assert(split_on(rest, ',') == seq![entry]);
            }
        }
        match parse_entry_in(v, pos, k) {
            Some(e) => best.set(i, Some(e)),
            None => {},
        }
        proof {
            seen = seen.push(entry);
        }
        i = i + 1;
        if k == hi {
            assert(entries =~= seen);
            assert forall|j: int| 0 <= j < best@.len() implies #[trigger] best@[j] == want[j] by {
                if j < i {
                    assert(entries[j] == seen[j]);
                }
            }
            assert(best@ =~= want);
            return;
        }
        assert(entries =~= seen + split_on(v@.subrange(k + 1, hi as int), ','));
        pos = k + 1;
    }
}

/// Reads one line `v[lo..hi]` into `data` (see `apply_line`).
fn apply_line_in(data: &mut SaveData, v: &Vec<char>, lo: usize, hi: usize)
    requires
        lo <= hi <= v@.len(),
    ensures
        final(data).progress() == apply_line(old(data).progress(), v@.subrange(lo as int, hi as int)),
{
    let ghost line = v@.subrange(lo as int, hi as int);
    let k = find_char(v, lo, hi, '=');
    if k == hi {
        return;
    }
    proof {
        lemma_sub_split(v@, lo as int, k as int, hi as int);
    }
    let ghost key = line.take(k - lo);
    let is4 = k - lo == 4;
    if is4 {
        assert(key[0] == v@[lo as int] && key[1] == v@[lo + 1] && key[2] == v@[lo + 2] && key[3]
            == v@[lo + 3]);
    }
    if is4 && v[lo] == 's' && v[lo + 1] == 't' && v[lo + 2] == 'e' && v[lo + 3] == 'p' {
        assert(key =~= step_key());
        data.step = match parse_usize_in(v, k + 1, hi) {
            Some(n) => n,
            None => 0,
        };
    } else if is4 && v[lo] == 'd' && v[lo + 1] == 'o' && v[lo + 2] == 'n' && v[lo + 3] == 'e' {
        assert(key =~= done_key());
        assert(key != step_key()) by {
            assert(key[0] != step_key()[0]);
        }
        apply_done_in(&mut data.lesson_done, v, k + 1, hi);
    } else if is4 && v[lo] == 'b' && v[lo + 1] == 'e' && v[lo + 2] == 's' && v[lo + 3] == 't' {
        assert(key =~= best_key());
        assert(key != step_key()) by {
            assert(key[0] != step_key()[0]);
        }
        assert(key != done_key()) by {
            assert(key[0] != done_key()[0]);
        }
        apply_best_in(&mut data.best_stats, v, k + 1, hi);
    } else {
        assert(key != step_key() && key != done_key() && key != best_key()) by {
            if key.len() == 4 {
                if key == step_key() {
                    assert(key[0] == 's' && key[1] == 't' && key[2] == 'e' && key[3] == 'p');
                }
                if key == done_key() {
                    assert(key[0] == 'd' && key[1] == 'o' && key[2] == 'n' && key[3] == 'e');
                }
                if key == best_key() {
                    assert(key[0] == 'b' && key[1] == 'e' && key[2] == 's' && key[3] == 't');
                }
            }
        }
    }
}

/// Reads a progress file for `num_lessons` steps; text it does not
/// understand is passed over, as `parsed_save` says.
pub fn parse_save(text: &str, num_lessons: usize) -> (data: SaveData)
    ensures
        data.progress() == parsed_save(text@, num_lessons as nat),
        data.lesson_done@.len() == num_lessons,
        data.best_stats@.len() == num_lessons,
{
    let v = chars_of(text);
    let n = v.len();
    let mut data = SaveData { step: 0, lesson_done: Vec::new(), best_stats: Vec::new() };
    let mut i: usize = 0;
    while i < num_lessons
        invariant
            i <= num_lessons,
            data.step == 0,
            data.lesson_done@ == Seq::new(i as nat, |j: int| false),
            data.best_stats@ == Seq::new(i as nat, |j: int| None::<(u64, u64)>),
        decreases num_lessons - i,
    {
        data.lesson_done.push(false);
        data.best_stats.push(None);
        assert(data.lesson_done@ =~= Seq::new((i + 1) as nat, |j: int| false));
        assert(data.best_stats@ =~= Seq::new((i + 1) as nat, |j: int| None::<(u64, u64)>));
        i += 1;
    }
    assert(data.progress() =~= fresh_progress(num_lessons as nat));
    assert(v@.subrange(0, n as int) =~= v@);
    let ghost mut done_lines: Seq<Seq<char>> = seq![];
    let mut pos: usize = 0;
    while pos < n
        invariant
            pos <= n == v@.len(),
            v@ == text@,
            lines_of(v@) == done_lines + lines_of(v@.subrange(pos as int, n as int)),
            data.progress() == apply_lines(fresh_progress(num_lessons as nat), done_lines),
            data.lesson_done@.len() == num_lessons,
            data.best_stats@.len() == num_lessons,
        decreases n - pos,
    {
        let ghost rest = v@.subrange(pos as int, n as int);
        let k = find_char(&v, pos, n, '\n');
        let end = if k < n && k > pos && v[k - 1] == '\r' {
            k - 1
        } else {
            k
        };
        let ghost line = v@.subrange(pos as int, end as int);
        proof {
            if k < n {
                lemma_sub_split(v@, pos as int, k as int, n as int);
                let raw = v@.subrange(pos as int, k as int);
                if k > pos && v@[k - 1] == '\r' {
                    assert(raw.last() == v@[k - 1]);
                    assert(raw.drop_last() =~= line);
                }
                assert(strip_cr(raw) == line);
                assert(lines_of(rest) == seq![line] + lines_of(v@.subrange(k + 1, n as int)));
            } else {
                assert(lines_of(rest) == seq![line]);
            }
        }
        apply_line_in(&mut data, &v, pos, end);
        proof {
            let prev = done_lines;
            done_lines = done_lines.push(line);
            assert(done_lines.drop_last() =~= prev);
        }
        if k == n {
            proof {
                assert(lines_of(v@.subrange(n as int, n as int)) =~= seq![]);
                assert(lines_of(v@) =~= done_lines + lines_of(v@.subrange(n as int, n as int)));
            }
            pos = n;
        } else {
            proof {
                assert(lines_of(v@) =~= done_lines + lines_of(v@.subrange(k + 1, n as int)));
            }
            pos = k + 1;
        }
    }
    proof {
        assert(lines_of(v@.subrange(n as int, n as int)) =~= seq![]);
        assert(done_lines =~= lines_of(v@));
    }
    if num_lessons == 0 {
        data.step = 0;
    } else if data.step > num_lessons - 1 {
        data.step = num_lessons - 1;
    }
    data
}

// ------------------------------------------------- reading what was written ---

/// A value written in hundredths reads back as itself.
pub proof fn lemma_centi_text(v: u64)
    ensures
        parsed_centi(centi_text(v as nat)) == Some(v),
        centi_text(v as nat).len() > 0,
        is_digit(centi_text(v as nat)[0]),
{
    let n = v as nat;
    let hi = decimal(n / 100);
    let d1 = digit_char((n % 100) / 10);
    let d2 = digit_char(n % 10);
    let t = centi_text(n);
    lemma_decimal(n / 100);
    lemma_digit_char((n % 100) / 10);
    lemma_digit_char(n % 10);
    assert(t =~= hi + seq!['.'] + seq![d1, d2]);
    assert(t[0] == hi[0]);
    assert(unsigned_part(t) == t);
    lemma_digits_have_no(hi, '.');
    lemma_first_index_at(hi, '.', seq![d1, d2]);
    assert(t.take(hi.len() as int) =~= hi);
    assert(t.skip(hi.len() as int + 1) =~= seq![d1, d2]);
    let frac = seq![d1, d2];
    assert(all_digits(frac));
    lemma_centi_has_no(v, 'e');
    lemma_centi_has_no(v, 'E');
    lemma_first_index_none(t, 'e');
    lemma_first_index_none(t, 'E');
    assert(exp_marker(t) == -1);
    let dd = hi + frac;
    assert(dd + zeros(0) =~= dd);
    assert(dd.drop_last() =~= hi.push(d1));
    assert(hi.push(d1).drop_last() =~= hi);
    assert(dd.last() == d2);
    assert(digits_value(dd) == digits_value(hi.push(d1)) * 10 + digit_value(d2));
    assert(digits_value(hi.push(d1)) == digits_value(hi) * 10 + digit_value(d1));
    assert(digits_value(dd) == (digits_value(hi) * 10 + (n % 100) / 10) * 10 + n % 10);
    assert(((n / 100) * 10 + (n % 100) / 10) * 10 + n % 10 == n) by (nonlinear_arith);
}

/// A value written in hundredths holds digits and one `'.'` only.
pub proof fn lemma_centi_has_no(v: u64, c: char)
    requires
        !is_digit(c),
        c != '.',
    ensures
        has_no(centi_text(v as nat), c),
{
    let n = v as nat;
    let hi = decimal(n / 100);
    let t = centi_text(n);
    lemma_decimal(n / 100);
    lemma_digit_char((n % 100) / 10);
    lemma_digit_char(n % 10);
    lemma_digits_have_no(hi, c);
    assert forall|i: int| 0 <= i < t.len() implies #[trigger] t[i] != c by {
        if i < hi.len() {
            assert(t[i] == hi[i]);
        }
    }
}

/// One step's statistics, written and read back.
pub proof fn lemma_entry_round_trip(e: Option<(u64, u64)>)
    ensures
        parsed_entry(best_entry_text(e)) == e,
        has_no(best_entry_text(e), ','),
{
    match e {
        Some((w, a)) => {
            lemma_centi_text(w);
            lemma_centi_text(a);
            let tw = centi_text(w as nat);
            let ta = centi_text(a as nat);
            let t = best_entry_text(e);
            assert(t =~= tw + seq![':'] + ta);
            lemma_centi_has_no(w, ':');
            lemma_centi_has_no(w, ',');
            lemma_centi_has_no(a, ',');
            lemma_first_index_at(tw, ':', ta);
            assert(t.take(tw.len() as int) =~= tw);
            assert(t.skip(tw.len() as int + 1) =~= ta);
            assert forall|i: int| 0 <= i < t.len() implies #[trigger] t[i] != ',' by {
                if i < tw.len() {
                    assert(t[i] == tw[i]);
                } else if i > tw.len() {
                    assert(t[i] == ta[i - tw.len() - 1]);
                }
            }
        },
        None => {
            lemma_first_index_none(seq!['-'], ':');
        },
    }
}

proof fn lemma_has_no_concat(a: Seq<char>, b: Seq<char>, c: char)
    requires
        has_no(a, c),
        has_no(b, c),
    ensures
        has_no(a + b, c),
{
    assert forall|i: int| 0 <= i < (a + b).len() implies #[trigger] (a + b)[i] != c by {
        if i < a.len() {
            assert((a + b)[i] == a[i]);
        } else {
            assert((a + b)[i] == b[i - a.len()]);
        }
    }
}

/// Splitting a string that ends in `c` and a last piece without `c`.
pub proof fn lemma_split_append(x: Seq<char>, c: char, y: Seq<char>)
    requires
        has_no(y, c),
    ensures
        split_on(x + seq![c] + y, c) == split_on(x, c).push(y),
    decreases x.len(),
{
    let t = x + seq![c] + y;
    lemma_first_index(x, c);
    lemma_first_index_none(y, c);
    assert(split_on(y, c) == seq![y]);
    let k = first_index(x, c);
    if k < 0 {
        lemma_first_index_at(x, c, y);
        assert(t.take(x.len() as int) =~= x);
        assert(t.skip(x.len() as int + 1) =~= y);
        assert(split_on(x, c) == seq![x]);
        assert(split_on(t, c) =~= split_on(x, c).push(y));
    } else {
        let head = x.take(k);
        let tail = x.skip(k + 1);
        assert(x =~= head + seq![c] + tail);
        assert(t =~= head + seq![c] + (tail + seq![c] + y));
        lemma_first_index_at(head, c, tail + seq![c] + y);
        assert(t.take(k) =~= head);
        assert(t.skip(k + 1) =~= tail + seq![c] + y);
        lemma_split_append(tail, c, y);
        assert(split_on(x, c) == seq![head] + split_on(tail, c));
        assert(split_on(t, c) =~= split_on(x, c).push(y));
    }
}

/// Every entry of the `best=` line, split back apart.
pub proof fn lemma_split_best_text(b: Seq<Option<(u64, u64)>>)
    requires
        b.len() > 0,
    ensures
        split_on(best_text(b), ',') == Seq::new(b.len(), |i: int| best_entry_text(b[i])),
    decreases b.len(),
{
    lemma_entry_round_trip(b.last());
    if b.len() == 1 {
        lemma_first_index_none(best_entry_text(b[0]), ',');
        assert(split_on(best_text(b), ',') =~= Seq::new(b.len(), |i: int| best_entry_text(b[i])));
    } else {
        let d = b.drop_last();
        lemma_split_best_text(d);
        lemma_split_append(best_text(d), ',', best_entry_text(b.last()));
        assert(split_on(best_text(b), ',') =~= Seq::new(b.len(), |i: int| best_entry_text(b[i])));
    }
}

/// Which characters the `best=` line holds.
proof fn lemma_best_text_has_no(b: Seq<Option<(u64, u64)>>, c: char)
    requires
        !is_digit(c),
        c != '.' && c != ':' && c != '-' && c != ',',
    ensures
        has_no(best_text(b), c),
    decreases b.len(),
{
    if b.len() > 0 {
        let e = b.last();
        let t = best_entry_text(e);
        match e {
            Some((w, a)) => {
                lemma_centi_has_no(w, c);
                lemma_centi_has_no(a, c);
                lemma_has_no_concat(centi_text(w as nat), seq![':'], c);
                lemma_has_no_concat(centi_text(w as nat) + seq![':'], centi_text(a as nat), c);
            },
            None => {},
        }
        if b.len() == 1 {
            assert(best_text(b) == best_entry_text(b[0]));
        } else {
            lemma_best_text_has_no(b.drop_last(), c);
            lemma_has_no_concat(best_text(b.drop_last()), seq![','], c);
            lemma_has_no_concat(best_text(b.drop_last()) + seq![','], t, c);
        }
    }
}

/// The `done=` line holds one `'1'` or `'0'` per step.
pub proof fn lemma_done_text(d: Seq<bool>)
    ensures
        done_text(d).len() == d.len(),
        forall|i: int|
            0 <= i < d.len() ==> #[trigger] done_text(d)[i] == (if d[i] {
                '1'
            } else {
                '0'
            }),
    decreases d.len(),
{
    if d.len() > 0 {
        lemma_done_text(d.drop_last());
        assert forall|i: int| 0 <= i < d.len() implies #[trigger] done_text(d)[i] == (if d[i] {
            '1'
        } else {
            '0'
        }) by {
            if i < d.len() - 1 {
                assert(done_text(d)[i] == done_text(d.drop_last())[i]);
            }
        }
    }
}

proof fn lemma_lines_cons(a: Seq<char>, rest: Seq<char>)
    requires
        has_no(a, '\n'),
    ensures
        lines_of(a + seq!['\n'] + rest) == seq![strip_cr(a)] + lines_of(rest),
{
    let t = a + seq!['\n'] + rest;
    lemma_first_index_at(a, '\n', rest);
    assert(t.take(a.len() as int) =~= a);
    assert(t.skip(a.len() as int + 1) =~= rest);
}

proof fn lemma_strip_cr_none(a: Seq<char>)
    requires
        has_no(a, '\r'),
    ensures
        strip_cr(a) == a,
{
    if a.len() > 0 {
        assert(a[a.len() - 1] != '\r');
    }
}

/// The three lines of a written progress file.
#[verifier::spinoff_prover]
proof fn lemma_save_text_lines(p: Progress)
    ensures
        lines_of(save_text(p)) == seq![step_line(p.0), done_line(p.1), best_line(p.2)],
{
    let l1 = step_line(p.0);
    let l2 = done_line(p.1);
    let l3 = best_line(p.2);
    assert(save_text(p) =~= l1 + seq!['\n'] + (l2 + seq!['\n'] + (l3 + seq!['\n'] + seq![])));
    lemma_decimal(p.0);
    lemma_done_text(p.1);
    lemma_digits_have_no(decimal(p.0), '\n');
    lemma_digits_have_no(decimal(p.0), '\r');
    assert(has_no(done_text(p.1), '\n') && has_no(done_text(p.1), '\r')) by {
        assert forall|i: int| 0 <= i < done_text(p.1).len() implies #[trigger] done_text(p.1)[i]
            != '\n' && done_text(p.1)[i] != '\r' by {
            assert(done_text(p.1)[i] == (if p.1[i] {
                '1'
            } else {
                '0'
            }));
        }
    }
    lemma_best_text_has_no(p.2, '\n');
    lemma_best_text_has_no(p.2, '\r');
    assert(has_no(step_key() + seq!['='], '\n') && has_no(step_key() + seq!['='], '\r'));
    assert(has_no(done_key() + seq!['='], '\n') && has_no(done_key() + seq!['='], '\r'));
    assert(has_no(best_key() + seq!['='], '\n') && has_no(best_key() + seq!['='], '\r'));
    lemma_has_no_concat(step_key() + seq!['='], decimal(p.0), '\n');
    lemma_has_no_concat(step_key() + seq!['='], decimal(p.0), '\r');
    lemma_has_no_concat(done_key() + seq!['='], done_text(p.1), '\n');
    lemma_has_no_concat(done_key() + seq!['='], done_text(p.1), '\r');
    lemma_has_no_concat(best_key() + seq!['='], best_text(p.2), '\n');
    lemma_has_no_concat(best_key() + seq!['='], best_text(p.2), '\r');
    lemma_strip_cr_none(l1);
    lemma_strip_cr_none(l2);
    lemma_strip_cr_none(l3);
    lemma_lines_cons(l3, seq![]);
    lemma_lines_cons(l2, l3 + seq!['\n'] + seq![]);
    lemma_lines_cons(l1, l2 + seq!['\n'] + (l3 + seq!['\n'] + seq![]));
    assert(lines_of(seq![]) == Seq::<Seq<char>>::empty());
    assert(lines_of(save_text(p)) =~= seq![l1, l2, l3]);
}

/// Reading a `step=` line that was written for a step within `usize`.
#[verifier::spinoff_prover]
proof fn lemma_read_step_line(step: nat, q: Progress)
    requires
        step <= usize::MAX,
    ensures
        apply_line(q, step_line(step)) == (step, q.1, q.2),
{
    let l = step_line(step);
    lemma_decimal(step);
    assert(has_no(step_key(), '='));
    lemma_first_index_at(step_key(), '=', decimal(step));
    assert(l.take(4) =~= step_key());
    assert(l.skip(5) =~= decimal(step));
    assert(unsigned_part(decimal(step)) == decimal(step)) by {
        assert(is_digit(decimal(step)[0]));
    }
    assert(parsed_usize(decimal(step)) == Some(step as usize));
}

/// Reading a `done=` line written for as many steps as there are.
#[verifier::spinoff_prover]
proof fn lemma_read_done_line(done: Seq<bool>, q: Progress)
    requires
        q.1.len() == done.len(),
    ensures
        apply_line(q, done_line(done)) == (q.0, done, q.2),
{
    let l = done_line(done);
    lemma_done_text(done);
    assert(has_no(done_key(), '='));
    lemma_first_index_at(done_key(), '=', done_text(done));
    assert(l.take(4) =~= done_key());
    assert(l.skip(5) =~= done_text(done));
    assert(done_key() != step_key()) by {
        assert(done_key()[0] != step_key()[0]);
    }
    assert(apply_done(q.1, done_text(done)) =~= done);
}

/// Reading a `best=` line written for as many steps as there are, over
/// steps with nothing recorded.
#[verifier::spinoff_prover]
proof fn lemma_read_best_line(best: Seq<Option<(u64, u64)>>, q: Progress)
    requires
        best.len() > 0,
        q.2 == no_stats(best.len()),
    ensures
        apply_line(q, best_line(best)) == (q.0, q.1, best),
{
    let l = best_line(best);
    assert(has_no(best_key(), '='));
    lemma_first_index_at(best_key(), '=', best_text(best));
    assert(l.take(4) =~= best_key());
    assert(l.skip(5) =~= best_text(best));
    assert(best_key() != step_key()) by {
        assert(best_key()[0] != step_key()[0]);
    }
    assert(best_key() != done_key()) by {
        assert(best_key()[0] != done_key()[0]);
    }
    lemma_split_best_text(best);
    assert forall|i: int| 0 <= i < best.len() implies parsed_entry(
        #[trigger] best_entry_text(best[i]),
    ) == best[i] by {
        lemma_entry_round_trip(best[i]);
    }
    assert(apply_best(q.2, best_text(best)) =~= best);
}

/// Reading back a written progress file gives the progress that was
/// written: its step, which steps are done, and each step's statistics.
pub proof fn lemma_save_round_trip(data: SaveData)
    requires
        data.lesson_done@.len() == data.best_stats@.len(),
        data.step < data.lesson_done@.len(),
    ensures
        parsed_save(save_text(data.progress()), data.lesson_done@.len()) == data.progress(),
{
    let p = data.progress();
    let n = p.1.len();
    let l1 = step_line(p.0);
    let l2 = done_line(p.1);
    let l3 = best_line(p.2);
    lemma_save_text_lines(p);
    let lines = seq![l1, l2, l3];
    let fresh = fresh_progress(n);
    lemma_read_step_line(p.0, fresh);
    let q1 = apply_line(fresh, l1);
    lemma_read_done_line(p.1, q1);
    let q2 = apply_line(q1, l2);
    lemma_read_best_line(p.2, q2);
    let q3 = apply_line(q2, l3);
    assert(q3 == p);
    assert(seq![l1].drop_last() =~= Seq::<Seq<char>>::empty());
    assert(apply_lines(fresh, Seq::<Seq<char>>::empty()) == fresh);
    assert(apply_lines(fresh, seq![l1]) == q1);
    assert(seq![l1, l2].drop_last() =~= seq![l1]);
    assert(apply_lines(fresh, seq![l1, l2]) == q2);
    assert(lines.drop_last() =~= seq![l1, l2]);
    assert(apply_lines(fresh, lines) == q3);
}

} // verus!
