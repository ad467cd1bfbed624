//! Unicode-aware word boundaries for Ctrl+Arrow / Ctrl+Backspace /
//! Ctrl+Delete in the popup's text fields. A word character is an
//! alphanumeric character (in the Unicode sense) or `_`. Indices are
//! character indices, not byte indices.
use vstd::prelude::*;
use crate::text::{chars_of, string_of, unicode_alphanumeric};

verus! {

pub open spec fn is_word(c: char) -> bool {
    unicode_alphanumeric(c) || c == '_'
}

/// The end of the run of characters from `k` on whose word-ness is `w`.
pub open spec fn run_end(s: Seq<char>, w: bool, k: int) -> int
    decreases s.len() - k,
{
    if k >= s.len() || is_word(s[k]) != w {
        k
    } else {
        run_end(s, w, k + 1)
    }
}

/// The next word boundary at or after `i`: step over the character at `i`,
/// then over the whole run of characters that are like the one after it
/// (all word characters, or all non-word characters).
pub open spec fn next_boundary(s: Seq<char>, i: int) -> int {
    if i >= s.len() {
        i
    } else if i + 1 >= s.len() {
        i + 1
    } else {
        run_end(s, is_word(s[i + 1]), i + 2)
    }
}

/// The previous word boundary at or before `i`: the mirror image of
/// `next_boundary` on the reversed text.
pub open spec fn previous_boundary(s: Seq<char>, i: int) -> int {
    s.len() - next_boundary(s.reverse(), s.len() - i)
}

pub proof fn lemma_run_end_bounds(s: Seq<char>, w: bool, k: int)
    ensures
        run_end(s, w, k) >= k,
        k <= s.len() ==> run_end(s, w, k) <= s.len(),
    decreases s.len() - k,
{
    if !(k >= s.len() || is_word(s[k]) != w) {
        lemma_run_end_bounds(s, w, k + 1);
    }
}

/// The next boundary never moves backwards, moves forward from inside the
/// text, and never leaves the text.
pub proof fn lemma_next_boundary_bounds(s: Seq<char>, i: int)
    requires
        0 <= i,
    ensures
        next_boundary(s, i) >= i,
        i < s.len() ==> i < next_boundary(s, i) <= s.len(),
        i >= s.len() ==> next_boundary(s, i) == i,
{
    if i + 1 < s.len() {
        lemma_run_end_bounds(s, is_word(s[i + 1]), i + 2);
    }
}

proof fn lemma_run_end_run(s: Seq<char>, w: bool, k: int)
    requires
        0 <= k <= s.len(),
    ensures
        forall|j: int| k <= j < run_end(s, w, k) ==> #[trigger] is_word(s[j]) == w,
        run_end(s, w, k) < s.len() ==> is_word(s[run_end(s, w, k)]) != w,
    decreases s.len() - k,
{
    lemma_run_end_bounds(s, w, k);
    if !(k >= s.len() || is_word(s[k]) != w) {
        lemma_run_end_run(s, w, k + 1);
    }
}

/// Ctrl+Right from inside the text steps over the character at the cursor
/// and then over the whole run of characters that are word characters (or
/// are not) like the one after it, stopping where that run ends.
pub proof fn lemma_next_boundary_run(s: Seq<char>, i: int)
    requires
        0 <= i,
        i + 1 < s.len(),
    ensures
        i + 2 <= next_boundary(s, i) <= s.len(),
        forall|j: int|
            i + 1 <= j < next_boundary(s, i) ==> #[trigger] is_word(s[j]) == is_word(s[i + 1]),
        next_boundary(s, i) < s.len() ==> is_word(s[next_boundary(s, i)]) != is_word(s[i + 1]),
{
    lemma_run_end_bounds(s, is_word(s[i + 1]), i + 2);
    lemma_run_end_run(s, is_word(s[i + 1]), i + 2);
}

/// Ctrl+Left from at least two characters into the text steps back over the
/// character before the cursor and then over the whole run of characters
/// that are word characters (or are not) like the one before that, stopping
/// where that run begins.
pub proof fn lemma_previous_boundary_run(s: Seq<char>, i: int)
    requires
        2 <= i <= s.len(),
    ensures
        0 <= previous_boundary(s, i) <= i - 2,
        forall|j: int|
            previous_boundary(s, i) <= j < i - 1 ==> #[trigger] is_word(s[j]) == is_word(s[i - 2]),
        previous_boundary(s, i) > 0 ==> is_word(s[previous_boundary(s, i) - 1]) != is_word(
            s[i - 2],
        ),
{
    let r = s.reverse();
    let k = s.len() - i;
    lemma_next_boundary_run(r, k);
    let q = next_boundary(r, k);
    assert(r[k + 1] == s[i - 2]);
    assert forall|j: int| previous_boundary(s, i) <= j < i - 1 implies #[trigger] is_word(s[j])
        == is_word(s[i - 2]) by {
        let jj = s.len() - 1 - j;
        assert(r[jj] == s[j]);
        assert(k + 1 <= jj < q);
    }
    if previous_boundary(s, i) > 0 {
        assert(r[q] == s[previous_boundary(s, i) - 1]);
    }
}

/// Ctrl+Left one character into the text goes to its start.
pub proof fn lemma_previous_boundary_start(s: Seq<char>)
    requires
        s.len() >= 1,
    ensures
        previous_boundary(s, 1) == 0,
{
}

/// The previous boundary never moves forwards, moves back from inside the
/// text, and stays in the text.
pub proof fn lemma_previous_boundary_bounds(s: Seq<char>, i: int)
    requires
        0 <= i <= s.len(),
    ensures
        0 <= previous_boundary(s, i) <= i,
        i > 0 ==> previous_boundary(s, i) < i,
{
    lemma_next_boundary_bounds(s.reverse(), s.len() - i);
}

fn is_word_char(c: char) -> (r: bool)
    ensures
        r == is_word(c),
{
    c.is_alphanumeric() || c == '_'
}

fn next_boundary_in_iter(v: &[char], index: usize) -> (r: usize)
    ensures
        r == next_boundary(v@, index as int),
{
    let n = v.len();
    if index >= n {
        return index;
    }
    if index + 1 >= n {
        return index + 1;
    }
    let w = is_word_char(v[index + 1]);
    let mut k = index + 2;
    while k < n && is_word_char(v[k]) == w
        invariant
            index + 2 <= k <= n,
            n == v@.len(),
            w == is_word(v@[index + 1]),
            run_end(v@, w, k as int) == run_end(v@, w, index + 2),
        decreases n - k,
    {
        k = k + 1;
    }
    k
}

/// Char index of the next word boundary at or after `cursor`.
pub fn next_word_boundary(text: &str, cursor: usize) -> (r: usize)
    ensures
        r == next_boundary(text@, cursor as int),
        r >= cursor,
        cursor < text@.len() ==> cursor < r <= text@.len(),
        cursor >= text@.len() ==> r == cursor,
{
    let v = chars_of(text);
    proof {
        lemma_next_boundary_bounds(text@, cursor as int);
    }
    next_boundary_in_iter(v.as_slice(), cursor)
}

fn reversed(v: &[char]) -> (r: Vec<char>)
    ensures
        r@ == v@.reverse(),
{
    let mut r: Vec<char> = Vec::new();
    let mut i = v.len();
    while i > 0
        invariant
            i <= v@.len(),
            r@.len() == v@.len() - i,
            forall|j: int| 0 <= j < r@.len() ==> r@[j] == v@[v@.len() - 1 - j],
        decreases i,
    {
        i = i - 1;
        r.push(v[i]);
    }
    assert(r@ =~= v@.reverse());
    r
}

/// Char index of the previous word boundary at or before `cursor`.
pub fn previous_word_boundary(text: &str, cursor: usize) -> (r: usize)
    requires
        cursor <= text@.len(),
    ensures
        r == previous_boundary(text@, cursor as int),
        r <= cursor,
        cursor > 0 ==> r < cursor,
{
    let v = chars_of(text);
    let rev = reversed(v.as_slice());
    let n = v.len();
    proof {
        lemma_previous_boundary_bounds(text@, cursor as int);
        lemma_next_boundary_bounds(text@.reverse(), n - cursor);
    }
    let b = next_boundary_in_iter(rev.as_slice(), n - cursor);
    n - b
}

/// `s` with the characters from `a` to `b` removed, both indices clamped to
/// the text (as byte offsets past the end are clamped to its length).
pub open spec fn delete_range(s: Seq<char>, a: int, b: int) -> Seq<char> {
    let lo = if a < s.len() {
        a
    } else {
        s.len() as int
    };
    let hi = if b < s.len() {
        b
    } else {
        s.len() as int
    };
    s.subrange(0, lo) + s.subrange(hi, s.len() as int)
}

pub open spec fn clamp_len(s: Seq<char>, a: int) -> int {
    if a < s.len() {
        a
    } else {
        s.len() as int
    }
}

/// Remove the characters from `start_char` to `end_char` of `s`.
pub fn delete_char_range(s: &mut String, start_char: usize, end_char: usize)
    requires
        clamp_len(old(s)@, start_char as int) <= clamp_len(old(s)@, end_char as int),
    ensures
        final(s)@ == delete_range(old(s)@, start_char as int, end_char as int),
{
    let v = chars_of(s.as_str());
    let n = v.len();
    let lo = if start_char < n {
        start_char
    } else {
        n
    };
    let hi = if end_char < n {
        end_char
    } else {
        n
    };
    let mut out: Vec<char> = Vec::new();
    let mut i: usize = 0;
    while i < lo
        invariant
            i <= lo <= n,
            n == v@.len(),
            out@ == v@.subrange(0, i as int),
        decreases lo - i,
    {
        out.push(v[i]);
        i = i + 1;
        assert(out@ =~= v@.subrange(0, i as int));
    }
    let mut j: usize = hi;
    while j < n
        invariant
            hi <= j <= n,
            n == v@.len(),
            out@ == v@.subrange(0, lo as int) + v@.subrange(hi as int, j as int),
        decreases n - j,
    {
        out.push(v[j]);
        j = j + 1;
        assert(out@ =~= v@.subrange(0, lo as int) + v@.subrange(hi as int, j as int));
    }
    *s = string_of(out.as_slice());
}

/// A word-navigation key pressed with Ctrl (or Alt).
#[derive(Debug, Clone, Copy, PartialEq, Eq, Structural)]
pub enum WordKey {
    ArrowLeft,
    ArrowRight,
    Backspace,
    Delete,
}

/// A text selection by char indices: `primary` is the moving end.
#[derive(Debug, Clone, Copy, PartialEq, Eq, Structural)]
pub struct CharRange {
    pub primary: usize,
    pub secondary: usize,
}

impl CharRange {
    /// A collapsed selection at `index`.
    pub fn one(index: usize) -> (r: CharRange)
        ensures
            r.primary == index && r.secondary == index,
    {
        CharRange { primary: index, secondary: index }
    }

    pub open spec fn lo(self) -> int {
        if self.primary <= self.secondary {
            self.primary as int
        } else {
            self.secondary as int
        }
    }

    pub open spec fn hi(self) -> int {
        if self.primary <= self.secondary {
            self.secondary as int
        } else {
            self.primary as int
        }
    }
}

/// What the key needs of the text: moving left or deleting a word backwards
/// counts characters back from the cursor, which must lie within the text.
pub open spec fn word_key_fits(s: Seq<char>, range: CharRange, key: WordKey) -> bool {
    match key {
        WordKey::ArrowLeft => range.primary <= s.len(),
        WordKey::Backspace => range.lo() != range.hi() || range.lo() <= s.len(),
        _ => true,
    }
}

/// The text and selection after a Ctrl-word key.
pub open spec fn word_key_result(s: Seq<char>, range: CharRange, key: WordKey, shift: bool) -> (
    Seq<char>,
    int,
    int,
) {
    let lo = range.lo();
    let hi = range.hi();
    match key {
        WordKey::ArrowLeft => {
            let p = previous_boundary(s, range.primary as int);
            (s, p, if shift {
                range.secondary as int
            } else {
                p
            })
        },
        WordKey::ArrowRight => {
            let p = next_boundary(s, range.primary as int);
            (s, p, if shift {
                range.secondary as int
            } else {
                p
            })
        },
        WordKey::Backspace => if lo != hi {
            (delete_range(s, lo, hi), lo, lo)
        } else {
            let t = previous_boundary(s, lo);
            (delete_range(s, t, lo), t, t)
        },
        WordKey::Delete => if lo != hi {
            (delete_range(s, lo, hi), lo, lo)
        } else {
            let t = next_boundary(s, lo);
            (delete_range(s, lo, t), lo, lo)
        },
    }
}

/// Ctrl+Left and Ctrl+Right only move: the text stays as it was, the cursor
/// goes strictly left (right) unless already at the start (end), never past
/// the text, and with Shift held the selection anchor stays where it was,
/// while without Shift the selection collapses onto the new cursor.
pub proof fn lemma_word_moves(s: Seq<char>, range: CharRange, key: WordKey, shift: bool)
    requires
        key is ArrowLeft || key is ArrowRight,
        word_key_fits(s, range, key),
    ensures
        word_key_result(s, range, key, shift).0 == s,
        shift ==> word_key_result(s, range, key, shift).2 == range.secondary as int,
        !shift ==> word_key_result(s, range, key, shift).2 == word_key_result(s, range, key, shift).1,
        key is ArrowLeft ==> 0 <= word_key_result(s, range, key, shift).1 <= range.primary && (
        range.primary > 0 ==> word_key_result(s, range, key, shift).1 < range.primary),
        key is ArrowRight ==> word_key_result(s, range, key, shift).1 >= range.primary && (
        range.primary < s.len() ==> range.primary < word_key_result(s, range, key, shift).1
            <= s.len()),
{
    if key is ArrowLeft {
        lemma_previous_boundary_bounds(s, range.primary as int);
    } else {
        lemma_next_boundary_bounds(s, range.primary as int);
    }
}

/// Ctrl+Backspace and Ctrl+Delete cut out one stretch of the text and leave
/// a bare cursor where it began: a selection is removed whole; otherwise
/// Backspace removes the stretch from a word boundary before the cursor up to
/// it (at least one character unless at the start) and Delete the stretch
/// from the cursor up to a boundary after it (at least one character unless
/// at the end). Nothing else of the text changes.
pub proof fn lemma_word_deletes(s: Seq<char>, range: CharRange, key: WordKey, shift: bool)
    requires
        key is Backspace || key is Delete,
        range.primary <= s.len(),
        range.secondary <= s.len(),
    ensures
        ({
            let (t, p, q) = word_key_result(s, range, key, shift);
            let lo = range.lo();
            let hi = range.hi();
            &&& p == q
            &&& lo != hi ==> p == lo && t == s.subrange(0, lo) + s.subrange(hi, s.len() as int)
            &&& lo == hi && key is Backspace ==> 0 <= p <= lo && (lo > 0 ==> p < lo) && t
                == s.subrange(0, p) + s.subrange(lo, s.len() as int)
            &&& lo == hi && key is Delete ==> p == lo && exists|e: int|
                lo <= e <= s.len() && (lo < s.len() ==> lo < e) && t == s.subrange(0, lo)
                    + s.subrange(e, s.len() as int)
        }),
{
    let lo = range.lo();
    if lo == range.hi() {
        if key is Backspace {
            lemma_previous_boundary_bounds(s, lo);
        } else {
            lemma_next_boundary_bounds(s, lo);
            let e = next_boundary(s, lo);
            let t = word_key_result(s, range, key, shift).0;
            assert(t == s.subrange(0, lo) + s.subrange(e, s.len() as int));
        }
    }
}

/// Apply one Ctrl-word key to a text field: Ctrl+Left/Right move the cursor
/// by word (Shift extends the selection), Ctrl+Backspace/Delete remove the
/// selection, or else the word before/after the cursor.
pub fn apply_word_key(value: &mut String, range: CharRange, key: WordKey, shift: bool) -> (r:
    CharRange)
    requires
        word_key_fits(old(value)@, range, key),
    ensures
        final(value)@ == word_key_result(old(value)@, range, key, shift).0,
        r.primary == word_key_result(old(value)@, range, key, shift).1,
        r.secondary == word_key_result(old(value)@, range, key, shift).2,
{
    let lo = if range.primary <= range.secondary {
        range.primary
    } else {
        range.secondary
    };
    let hi = if range.primary <= range.secondary {
        range.secondary
    } else {
        range.primary
    };
    let has_selection = lo != hi;
    match key {
        WordKey::ArrowLeft => {
            let target = previous_word_boundary(value.as_str(), range.primary);
            CharRange {
                primary: target,
                secondary: if shift {
                    range.secondary
                } else {
                    target
                },
            }
        },
        WordKey::ArrowRight => {
            let target = next_word_boundary(value.as_str(), range.primary);
            CharRange {
                primary: target,
                secondary: if shift {
                    range.secondary
                } else {
                    target
                },
            }
        },
        WordKey::Backspace => {
            if has_selection {
                delete_char_range(value, lo, hi);
                CharRange::one(lo)
            } else {
                let target = previous_word_boundary(value.as_str(), lo);
                delete_char_range(value, target, lo);
                CharRange::one(target)
            }
        },
        WordKey::Delete => {
            if has_selection {
                delete_char_range(value, lo, hi);
                CharRange::one(lo)
            } else {
                let target = next_word_boundary(value.as_str(), lo);
                delete_char_range(value, lo, target);
                CharRange::one(lo)
            }
        },
    }
}

} // verus!
