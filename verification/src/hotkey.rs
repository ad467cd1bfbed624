//! Global hotkey labels: parsing user-readable strings ("Ctrl+Shift+Space")
//! into a modifier mask and a key, and rendering them back. The platform
//! registration itself lives with the application.
use vstd::prelude::*;
use crate::text::{
    all_ascii_digits, all_white_space, ascii_lower, ascii_upper, chars_eq, chars_of, copy_range, decimal, digit,
    digit_char, digits_value, is_ascii_alphanumeric, is_ascii_digit, is_ascii_lower, is_ascii_upper, digit_value,
    is_white_space, lemma_decimal, lemma_decimal_first, lemma_digit_char, lemma_trim_empty, lower_all, lower_char,
    push_chars, push_decimal, push_str, string_of, trim, trim_bounds, trim_end, trim_start,
    upper_all, upper_char,
};

verus! {

/// Modifier bit for Ctrl (bit 0).
pub const MOD_CTRL: u8 = 1;

/// Modifier bit for Alt (bit 1).
pub const MOD_ALT: u8 = 2;

/// Modifier bit for Shift (bit 2).
pub const MOD_SHIFT: u8 = 4;

/// Modifier bit for Win / Super / Meta / Cmd (bit 3).
pub const MOD_WIN: u8 = 8;

/// The "real" key part of a hotkey, everything that isn't a modifier, kept
/// as its canonical upper-case token ("A", "SPACE", "F5").
#[derive(Debug, Clone, PartialEq, Eq)]
pub struct HotkeyKey(String);

impl View for HotkeyKey {
    type V = Seq<char>;

    closed spec fn view(&self) -> Seq<char> {
        self.0@
    }
}

impl HotkeyKey {
    pub fn as_str(&self) -> (r: &str)
        ensures
            r@ == self@,
    {
        self.0.as_str()
    }
}

#[derive(Debug, Clone, PartialEq, Eq)]
pub struct Hotkey {
    pub modifiers: u8,
    pub key: HotkeyKey,
}

#[derive(Debug, Clone, PartialEq, Eq)]
pub enum ParseError {
    Empty,
    /// "Ctrl+Shift": nothing past the modifiers.
    MissingKey,
    /// "A+B": two non-modifier tokens.
    MultipleKeys,
    /// "Foo+Ctrl": a segment that is neither a modifier nor a known key.
    UnknownToken(String),
}

/// The outcome of parsing a label, as values.
pub enum HotkeyParse {
    Parsed(u8, Seq<char>),
    Empty,
    MissingKey,
    MultipleKeys,
    UnknownToken(Seq<char>),
}

impl ParseError {
    pub open spec fn outcome(&self) -> HotkeyParse {
        match self {
            ParseError::Empty => HotkeyParse::Empty,
            ParseError::MissingKey => HotkeyParse::MissingKey,
            ParseError::MultipleKeys => HotkeyParse::MultipleKeys,
            ParseError::UnknownToken(t) => HotkeyParse::UnknownToken(t@),
        }
    }

    /// The message shown for this error.
    pub fn message(&self) -> (r: String)
        ensures
            r@ == self.message_spec(),
    {
        let mut out = String::new();
        match self {
            ParseError::Empty => {
                push_chars(&mut out, &['h', 'o', 't', 'k', 'e', 'y', ' ', 's', 't', 'r', 'i', 'n', 'g', ' ', 'i', 's', ' ', 'e', 'm', 'p', 't', 'y']);
            },
            ParseError::MissingKey => {
                push_chars(&mut out, &['h', 'o', 't', 'k', 'e', 'y', ' ', 'h', 'a', 's', ' ', 'o', 'n', 'l', 'y', ' ', 'm', 'o', 'd', 'i', 'f', 'i', 'e', 'r', 's', ',', ' ', 'n', 'o', ' ', 'k', 'e', 'y']);
            },
            ParseError::MultipleKeys => {
                push_chars(&mut out, &['h', 'o', 't', 'k', 'e', 'y', ' ', 'h', 'a', 's', ' ', 'm', 'o', 'r', 'e', ' ', 't', 'h', 'a', 'n', ' ', 'o', 'n', 'e', ' ', 'k', 'e', 'y']);
            },
            ParseError::UnknownToken(t) => {
                push_chars(&mut out, &['u', 'n', 'k', 'n', 'o', 'w', 'n', ' ', 'h', 'o', 't', 'k', 'e', 'y', ' ', 't', 'o', 'k', 'e', 'n', ':', ' ', '"']);
                push_str(&mut out, t.as_str());
                push_chars(&mut out, &['"']);
            },
        }
        out
    }

    pub open spec fn message_spec(&self) -> Seq<char> {
        match self {
            ParseError::Empty => seq!['h', 'o', 't', 'k', 'e', 'y', ' ', 's', 't', 'r', 'i', 'n', 'g', ' ', 'i', 's', ' ', 'e', 'm', 'p', 't', 'y'],
            ParseError::MissingKey => seq!['h', 'o', 't', 'k', 'e', 'y', ' ', 'h', 'a', 's', ' ', 'o', 'n', 'l', 'y', ' ', 'm', 'o', 'd', 'i', 'f', 'i', 'e', 'r', 's', ',', ' ', 'n', 'o', ' ', 'k', 'e', 'y'],
            ParseError::MultipleKeys => seq!['h', 'o', 't', 'k', 'e', 'y', ' ', 'h', 'a', 's', ' ', 'm', 'o', 'r', 'e', ' ', 't', 'h', 'a', 'n', ' ', 'o', 'n', 'e', ' ', 'k', 'e', 'y'],
            ParseError::UnknownToken(t) => seq!['u', 'n', 'k', 'n', 'o', 'w', 'n', ' ', 'h', 'o', 't', 'k', 'e', 'y', ' ', 't', 'o', 'k', 'e', 'n', ':', ' ', '"'] + t@ + seq!['"'],
        }
    }
}

// ---- the label grammar, as values ----------------------------------------

pub open spec fn word_space() -> Seq<char> {
    seq!['S', 'P', 'A', 'C', 'E']
}

pub open spec fn word_enter() -> Seq<char> {
    seq!['E', 'N', 'T', 'E', 'R']
}

pub open spec fn word_return() -> Seq<char> {
    seq!['R', 'E', 'T', 'U', 'R', 'N']
}

pub open spec fn word_tab() -> Seq<char> {
    seq!['T', 'A', 'B']
}

pub open spec fn word_esc() -> Seq<char> {
    seq!['E', 'S', 'C']
}

pub open spec fn word_escape() -> Seq<char> {
    seq!['E', 'S', 'C', 'A', 'P', 'E']
}

pub open spec fn word_backspace() -> Seq<char> {
    seq!['B', 'A', 'C', 'K', 'S', 'P', 'A', 'C', 'E']
}

/// The modifier bit an upper-cased token names, or 0 when it names none.
/// Aliases: Control/Ctrl; Alt; Shift; Win/Super/Meta/Cmd.
pub open spec fn modifier_bit(up: Seq<char>) -> u8 {
    if up == seq!['C', 'T', 'R', 'L'] || up == seq!['C', 'O', 'N', 'T', 'R', 'O', 'L'] {
        1
    } else if up == seq!['A', 'L', 'T'] {
        2
    } else if up == seq!['S', 'H', 'I', 'F', 'T'] {
        4
    } else if up == seq!['W', 'I', 'N'] || up == seq!['S', 'U', 'P', 'E', 'R'] || up == seq![
        'M',
        'E',
        'T',
        'A',
    ] || up == seq!['C', 'M', 'D'] {
        8
    } else {
        0
    }
}

/// `u8::from_str`: an optional `+` followed by one or more ASCII digits whose
/// value fits in a byte.
pub open spec fn parse_u8_spec(s: Seq<char>) -> Option<nat> {
    let d = if s.len() > 0 && s[0] == '+' {
        s.drop_first()
    } else {
        s
    };
    if d.len() > 0 && all_ascii_digits(d) && digits_value(d) <= 255 {
        Some(digits_value(d))
    } else {
        None
    }
}

/// The function-key number of an upper-cased token "F1" .. "F24".
pub open spec fn function_key_number(u: Seq<char>) -> Option<nat> {
    if u.len() >= 1 && u[0] == 'F' {
        match parse_u8_spec(u.drop_first()) {
            Some(n) => if 1 <= n <= 24 {
                Some(n)
            } else {
                None
            },
            None => None,
        }
    } else {
        None
    }
}

/// The canonical form of an (already upper-cased) key token, or `None` for a
/// key that cannot be registered.
pub open spec fn canonical_key(u: Seq<char>) -> Option<Seq<char>> {
    if u.len() == 1 && is_ascii_alphanumeric(u[0]) {
        Some(u)
    } else if function_key_number(u) is Some {
        Some(seq!['F'] + decimal(function_key_number(u)->0))
    } else if u == word_space() || u == word_enter() || u == word_tab() || u == word_escape()
        || u == word_backspace() {
        Some(u)
    } else if u == word_return() {
        Some(word_enter())
    } else if u == word_esc() {
        Some(word_escape())
    } else {
        None
    }
}

/// `s.split(sep)`: the pieces between separators, from left to right.
pub open spec fn split_on(s: Seq<char>, sep: char) -> Seq<Seq<char>>
    decreases s.len(),
{
    if s.len() == 0 {
        seq![Seq::<char>::empty()]
    } else {
        let prev = split_on(s.drop_last(), sep);
        if s.last() == sep {
            prev.push(Seq::<char>::empty())
        } else {
            prev.update(prev.len() - 1, prev.last().push(s.last()))
        }
    }
}

/// Parsing state after some segments: the modifier mask and the key so far,
/// or the error that stopped parsing.
pub type ScanState = Result<(u8, Option<Seq<char>>), HotkeyParse>;

/// Fold one `+`-separated segment into the parsing state.
pub open spec fn scan_token(st: ScanState, seg: Seq<char>) -> ScanState {
    match st {
        Err(e) => Err(e),
        Ok((mods, key)) => {
            let tok = trim(seg);
            let up = ascii_upper(tok);
            if tok.len() == 0 {
                Err(HotkeyParse::UnknownToken(Seq::empty()))
            } else if modifier_bit(up) != 0 {
                Ok(((mods | modifier_bit(up)) as u8, key))
            } else {
                match canonical_key(up) {
                    None => Err(HotkeyParse::UnknownToken(tok)),
                    Some(c) => if key is Some {
                        Err(HotkeyParse::MultipleKeys)
                    } else {
                        Ok((mods, Some(c)))
                    },
                }
            }
        },
    }
}

/// Fold all segments, left to right.
pub open spec fn scan_all(segs: Seq<Seq<char>>) -> ScanState
    decreases segs.len(),
{
    if segs.len() == 0 {
        Ok((0u8, None))
    } else {
        scan_token(scan_all(segs.drop_last()), segs.last())
    }
}

/// What `parse` makes of a label: trimmed; empty is an error; otherwise the
/// `+`-separated segments are folded left to right, and exactly one key is
/// required.
pub open spec fn parse_hotkey(input: Seq<char>) -> HotkeyParse {
    let t = trim(input);
    if t.len() == 0 {
        HotkeyParse::Empty
    } else {
        match scan_all(split_on(t, '+')) {
            Err(e) => e,
            Ok((_, None)) => HotkeyParse::MissingKey,
            Ok((m, Some(k))) => HotkeyParse::Parsed(m, k),
        }
    }
}

/// A key token is in canonical form: upper case, and its own canonical form.
pub open spec fn key_is_canonical(k: Seq<char>) -> bool {
    ascii_upper(k) == k && canonical_key(k) == Some(k)
}

impl Hotkey {
    /// A hotkey `parse` can produce: modifier bits within the four known
    /// ones, and a canonical key.
    pub open spec fn wf(&self) -> bool {
        self.modifiers < 16 && key_is_canonical(self.key@)
    }
}

pub open spec fn is_f_key(u: Seq<char>) -> bool {
    u.len() >= 1 && u[0] == 'F' && all_ascii_digits(u.drop_first())
}

/// How a key token is rendered in a label: F-keys and single characters stay
/// upper case; longer names are title-cased ("Space", "Escape").
pub open spec fn title_case(u: Seq<char>) -> Seq<char> {
    if u.len() == 0 || is_f_key(u) {
        u
    } else {
        seq![u[0]] + ascii_lower(u.drop_first())
    }
}

pub open spec fn ctrl_label() -> Seq<char> {
    seq!['C', 't', 'r', 'l', '+']
}

pub open spec fn alt_label() -> Seq<char> {
    seq!['A', 'l', 't', '+']
}

pub open spec fn shift_label() -> Seq<char> {
    seq!['S', 'h', 'i', 'f', 't', '+']
}

pub open spec fn win_label() -> Seq<char> {
    seq!['W', 'i', 'n', '+']
}

/// The label of a hotkey: modifiers in the order Ctrl, Alt, Shift, Win,
/// each followed by `+`, then the key.
pub open spec fn format_spec(m: u8, key: Seq<char>) -> Seq<char> {
    (if m & 1 != 0 {
        ctrl_label()
    } else {
        Seq::empty()
    }) + (if m & 2 != 0 {
        alt_label()
    } else {
        Seq::empty()
    }) + (if m & 4 != 0 {
        shift_label()
    } else {
        Seq::empty()
    }) + (if m & 8 != 0 {
        win_label()
    } else {
        Seq::empty()
    }) + title_case(key)
}

// ---- executable parsing ---------------------------------------------------

type ExecState = Result<(u8, Option<Vec<char>>), ParseError>;

spec fn state_view(st: ExecState) -> ScanState {
    match st {
        Err(e) => Err(e.outcome()),
        Ok((m, None)) => Ok((m, None)),
        Ok((m, Some(k))) => Ok((m, Some(k@))),
    }
}

fn modifier_bit_of(up: &[char]) -> (r: u8)
    ensures
        r == modifier_bit(up@),
{
    if chars_eq(up, &['C', 'T', 'R', 'L']) || chars_eq(up, &['C', 'O', 'N', 'T', 'R', 'O', 'L']) {
        1
    } else if chars_eq(up, &['A', 'L', 'T']) {
        2
    } else if chars_eq(up, &['S', 'H', 'I', 'F', 'T']) {
        4
    } else if chars_eq(up, &['W', 'I', 'N']) || chars_eq(up, &['S', 'U', 'P', 'E', 'R'])
        || chars_eq(up, &['M', 'E', 'T', 'A']) || chars_eq(up, &['C', 'M', 'D']) {
        8
    } else {
        0
    }
}

/// `u8::from_str` on `v@.subrange(start, v@.len())`.
pub(crate) fn parse_u8_from(v: &[char], start: usize) -> (r: Option<u8>)
    requires
        start <= v@.len(),
    ensures
        r matches Some(n) ==> parse_u8_spec(v@.subrange(start as int, v@.len() as int)) == Some(
            n as nat,
        ),
        r is None ==> parse_u8_spec(v@.subrange(start as int, v@.len() as int)) is None,
{
    let ghost s = v@.subrange(start as int, v@.len() as int);
    let mut i = start;
    if i < v.len() && v[i] == '+' {
        i = i + 1;
    }
    let ghost d = v@.subrange(i as int, v@.len() as int);
    assert(d == (if s.len() > 0 && s[0] == '+' {
        s.drop_first()
    } else {
        s
    })) by {
        if s.len() > 0 && s[0] == '+' {
            assert(s.drop_first() =~= d);
        } else {
            assert(s =~= d);
        }
    }
    if i == v.len() {
        return None;
    }
    let first = i;
    let mut acc: u64 = 0;
    let mut all_digits = true;
    while i < v.len()
        invariant
            first <= i <= v@.len(),
            first < v@.len(),
            d == v@.subrange(first as int, v@.len() as int),
            all_digits == all_ascii_digits(v@.subrange(first as int, i as int)),
            all_digits ==> acc == (if digits_value(v@.subrange(first as int, i as int)) <= 256 {
                digits_value(v@.subrange(first as int, i as int))
            } else {
                256
            }),
            acc <= 256,
        decreases v@.len() - i,
    {
        let c = v[i];
        let ghost prefix = v@.subrange(first as int, i as int);
        let ghost next = v@.subrange(first as int, i + 1);
        assert(next.drop_last() =~= prefix);
        assert(next.last() == c);
        if '0' <= c && c <= '9' {
            let dv = (c as u32 - '0' as u32) as u64;
            acc = acc * 10 + dv;
            if acc > 256 {
                acc = 256;
            }
        } else {
            all_digits = false;
        }
        assert(all_digits == all_ascii_digits(next)) by {
            if all_digits {
                assert forall|j: int| 0 <= j < next.len() implies is_ascii_digit(
                    #[trigger] next[j],
                ) by {
                    if j < prefix.len() {
                        assert(next[j] == prefix[j]);
                    }
                }
            } else if !is_ascii_digit(c) {
                assert(!is_ascii_digit(next[next.len() - 1]));
            } else {
                let j = choose|j: int| 0 <= j < prefix.len() && !is_ascii_digit(#[trigger] prefix[j]);
                assert(next[j] == prefix[j]);
            }
        }
        i = i + 1;
    }
    assert(v@.subrange(first as int, i as int) =~= d);
    if all_digits && acc <= 255 {
        Some(acc as u8)
    } else {
        None
    }
}

fn named_key(up: &[char]) -> (r: Option<Vec<char>>)
    ensures
        r matches Some(k) ==> (k@ == up@ && (up@ == word_space() || up@ == word_enter() || up@
            == word_tab() || up@ == word_escape() || up@ == word_backspace())) || (up@
            == word_return() && k@ == word_enter()) || (up@ == word_esc() && k@ == word_escape()),
        r is None ==> !(up@ == word_space() || up@ == word_enter() || up@ == word_tab() || up@
            == word_escape() || up@ == word_backspace() || up@ == word_return() || up@
            == word_esc()),
{
    if chars_eq(up, &['S', 'P', 'A', 'C', 'E']) || chars_eq(up, &['E', 'N', 'T', 'E', 'R'])
        || chars_eq(up, &['T', 'A', 'B']) || chars_eq(up, &['E', 'S', 'C', 'A', 'P', 'E'])
        || chars_eq(up, &['B', 'A', 'C', 'K', 'S', 'P', 'A', 'C', 'E']) {
        Some(copy_range(up, 0, up.len()))
    } else if chars_eq(up, &['R', 'E', 'T', 'U', 'R', 'N']) {
        let v: Vec<char> = vec!['E', 'N', 'T', 'E', 'R'];
        Some(v)
    } else if chars_eq(up, &['E', 'S', 'C']) {
        let v: Vec<char> = vec!['E', 'S', 'C', 'A', 'P', 'E'];
        Some(v)
    } else {
        None
    }
}

/// The canonical form of an upper-cased key token.
fn canonicalize_key(up: &[char]) -> (r: Option<Vec<char>>)
    ensures
        r matches Some(k) ==> canonical_key(up@) == Some(k@),
        r is None ==> canonical_key(up@) is None,
{
    if up.len() == 1 && (('a' <= up[0] && up[0] <= 'z') || ('A' <= up[0] && up[0] <= 'Z') || (
    '0' <= up[0] && up[0] <= '9')) {
        return Some(copy_range(up, 0, 1));
    }
    if up.len() >= 1 && up[0] == 'F' {
        proof {
            assert(up@.drop_first() =~= up@.subrange(1, up@.len() as int));
        }
        match parse_u8_from(up, 1) {
            Some(n) => {
                if 1 <= n && n <= 24 {
                    let mut s = String::new();
                    s.push('F');
                    push_decimal(&mut s, n as u64);
                    let v = chars_of(s.as_str());
                    assert(v@ =~= seq!['F'] + decimal(n as nat));
                    return Some(v);
                }
            },
            None => {},
        }
    }
    named_key(up)
}

fn scan_token_exec(st: ExecState, seg: &[char]) -> (r: ExecState)
    ensures
        state_view(r) == scan_token(state_view(st), seg@),
{
    match st {
        Err(e) => Err(e),
        Ok((mods, key)) => {
            let (a, b) = trim_bounds(seg);
            if a == b {
                return Err(ParseError::UnknownToken(String::new()));
            }
            let tok = copy_range(seg, a, b);
            let up = upper_all(tok.as_slice());
            let bit = modifier_bit_of(up.as_slice());
            if bit != 0 {
                Ok((mods | bit, key))
            } else {
                match canonicalize_key(up.as_slice()) {
                    None => Err(ParseError::UnknownToken(string_of(tok.as_slice()))),
                    Some(c) => {
                        if key.is_some() {
                            Err(ParseError::MultipleKeys)
                        } else {
                            Ok((mods, Some(c)))
                        }
                    },
                }
            }
        },
    }
}

pub open spec fn parse_result_outcome(r: Result<Hotkey, ParseError>) -> HotkeyParse {
    match r {
        Ok(hk) => HotkeyParse::Parsed(hk.modifiers, hk.key@),
        Err(e) => e.outcome(),
    }
}

/// Parse a user-readable hotkey string like "Ctrl+Shift+Space".
///
/// Case-insensitive; whitespace around `+` and around the whole string is
/// ignored; modifier aliases Control/Ctrl, Alt, Shift, Win/Super/Meta/Cmd;
/// exactly one non-modifier token; duplicate modifiers are accepted.
pub fn parse(input: &str) -> (r: Result<Hotkey, ParseError>)
    ensures
        parse_result_outcome(r) == parse_hotkey(input@),
        r matches Ok(hk) ==> hk.wf(),
{
    proof {
        lemma_parse_wf(input@);
    }
    let v = chars_of(input);
    let (a, b) = trim_bounds(v.as_slice());
    if a == b {
        return Err(ParseError::Empty);
    }
    let ghost t = v@.subrange(a as int, b as int);
    let mut st: ExecState = Ok((0, None));
    let mut seg_start = a;
    let mut i = a;
    let ghost mut done: Seq<Seq<char>> = Seq::empty();
    assert(t.subrange(0, 0) =~= Seq::<char>::empty());
    assert(v@.subrange(a as int, a as int) =~= Seq::<char>::empty());
    while i < b
        invariant
            a <= seg_start <= i <= b,
            b <= v@.len(),
            t == v@.subrange(a as int, b as int),
            split_on(t.subrange(0, i - a), '+') == done.push(
                v@.subrange(seg_start as int, i as int),
            ),
            state_view(st) == scan_all(done),
        decreases b - i,
    {
        let c = v[i];
        let ghost pre = t.subrange(0, i - a);
        let ghost post = t.subrange(0, i + 1 - a);
        assert(post.drop_last() =~= pre);
        assert(post.last() == c);
        if c == '+' {
            let seg = copy_range(v.as_slice(), seg_start, i);
            st = scan_token_exec(st, seg.as_slice());
            proof {
                let old_done = done;
                done = done.push(v@.subrange(seg_start as int, i as int));
                assert(done.drop_last() =~= old_done);
                assert(v@.subrange(i + 1, i + 1) =~= Seq::<char>::empty());
            }
            seg_start = i + 1;
        } else {
            assert(v@.subrange(seg_start as int, i + 1) =~= v@.subrange(
                seg_start as int,
                i as int,
            ).push(c));
        }
        i = i + 1;
    }
    let seg = copy_range(v.as_slice(), seg_start, b);
    st = scan_token_exec(st, seg.as_slice());
    proof {
        assert(t.subrange(0, b - a) =~= t);
        let segs = done.push(v@.subrange(seg_start as int, b as int));
        assert(segs.drop_last() =~= done);
        lemma_scan_all_wf(segs);
    }
    match st {
        Err(e) => Err(e),
        Ok((m, None)) => Err(ParseError::MissingKey),
        Ok((m, Some(k))) => Ok(Hotkey { modifiers: m, key: HotkeyKey(string_of(k.as_slice())) }),
    }
}

// ---- well-formedness of parse results ------------------------------------

proof fn lemma_or_bit(m: u8, b: u8)
    requires
        m < 16,
        b == 1 || b == 2 || b == 4 || b == 8,
    ensures
        (m | b) < 16,
{
    assert((m | b) < 16) by (bit_vector)
        requires
            m < 16,
            b == 1 || b == 2 || b == 4 || b == 8,
    ;
}

proof fn lemma_upper_idempotent(s: Seq<char>)
    ensures
        ascii_upper(ascii_upper(s)) == ascii_upper(s),
{
    assert(ascii_upper(ascii_upper(s)) =~= ascii_upper(s));
}

proof fn lemma_decimal_upper(n: nat)
    ensures
        ascii_upper(decimal(n)) == decimal(n),
{
    lemma_decimal(n);
    assert(ascii_upper(decimal(n)) =~= decimal(n));
}

/// "F1" .. "F24" are canonical.
proof fn lemma_fkey_canonical(n: nat)
    requires
        1 <= n <= 24,
    ensures
        key_is_canonical(seq!['F'] + decimal(n)),
        function_key_number(seq!['F'] + decimal(n)) == Some(n),
{
    let c = seq!['F'] + decimal(n);
    lemma_decimal(n);
    lemma_decimal_upper(n);
    assert(c.drop_first() =~= decimal(n));
    assert(ascii_upper(c) =~= c) by {
        assert forall|i: int| 0 <= i < c.len() implies #[trigger] ascii_upper(c)[i] == c[i] by {
            if i > 0 {
                assert(c[i] == decimal(n)[i - 1]);
            }
        }
    }
    assert(is_ascii_digit(decimal(n)[0]));
    assert(parse_u8_spec(c.drop_first()) == Some(n));
    assert(function_key_number(c) == Some(n));
}

/// The canonical form of a token is itself canonical.
proof fn lemma_canonical_output(up: Seq<char>)
    requires
        ascii_upper(up) == up,
        canonical_key(up) is Some,
    ensures
        key_is_canonical(canonical_key(up)->0),
{
    let c = canonical_key(up)->0;
    if up.len() == 1 && is_ascii_alphanumeric(up[0]) {
    } else if function_key_number(up) is Some {
        lemma_fkey_canonical(function_key_number(up)->0);
    } else {
        assert(ascii_upper(word_space()) =~= word_space());
        assert(ascii_upper(word_enter()) =~= word_enter());
        assert(ascii_upper(word_tab()) =~= word_tab());
        assert(ascii_upper(word_escape()) =~= word_escape());
        assert(ascii_upper(word_backspace()) =~= word_backspace());
        assert(function_key_number(word_space()) is None);
        assert(function_key_number(word_enter()) is None);
        assert(function_key_number(word_tab()) is None);
        assert(function_key_number(word_escape()) is None);
        assert(function_key_number(word_backspace()) is None);
    }
}

proof fn lemma_scan_all_wf(segs: Seq<Seq<char>>)
    ensures
        scan_all(segs) is Ok ==> scan_all(segs)->Ok_0.0 < 16 && (scan_all(segs)->Ok_0.1 is Some
            ==> key_is_canonical(scan_all(segs)->Ok_0.1->Some_0)),
        scan_all(segs) is Err ==> !(scan_all(segs)->Err_0 is Parsed),
    decreases segs.len(),
{
    if segs.len() > 0 {
        lemma_scan_all_wf(segs.drop_last());
        let seg = segs.last();
        let tok = trim(seg);
        let up = ascii_upper(tok);
        lemma_upper_idempotent(tok);
        if let Ok((m, _)) = scan_all(segs.drop_last()) {
            if tok.len() != 0 && modifier_bit(up) != 0 {
                lemma_or_bit(m, modifier_bit(up));
            }
            if tok.len() != 0 && modifier_bit(up) == 0 && canonical_key(up) is Some {
                lemma_canonical_output(up);
            }
        }
    }
}

/// Every hotkey `parse` accepts is well formed.
pub proof fn lemma_parse_wf(input: Seq<char>)
    ensures
        parse_hotkey(input) matches HotkeyParse::Parsed(m, k) ==> m < 16 && key_is_canonical(k),
{
    let t = trim(input);
    if t.len() != 0 {
        lemma_scan_all_wf(split_on(t, '+'));
        match scan_all(split_on(t, '+')) {
            Ok((m, Some(k))) => {
                assert(parse_hotkey(input) == HotkeyParse::Parsed(m, k));
            },
            _ => {},
        }
    }
}

/// The `+`-separated segments of a trimmed label, as `parse` folds them.
pub open spec fn label_segments(input: Seq<char>) -> Seq<Seq<char>> {
    split_on(trim(input), '+')
}

/// Some segment of `segs`, trimmed and upper-cased, names modifier bit `b`.
pub open spec fn names_modifier(segs: Seq<Seq<char>>, b: u8) -> bool {
    exists|i: int| 0 <= i < segs.len() && modifier_bit(ascii_upper(trim(#[trigger] segs[i]))) == b
}

proof fn lemma_or_bit_test(m: u8, mb: u8, b: u8)
    requires
        mb == 1 || mb == 2 || mb == 4 || mb == 8,
        b == 1 || b == 2 || b == 4 || b == 8,
    ensures
        ((m | mb) & b != 0) == ((m & b != 0) || mb == b),
        (0u8 & b) == 0,
{
    assert(((m | mb) & b != 0) == ((m & b != 0) || mb == b)) by (bit_vector)
        requires
            mb == 1 || mb == 2 || mb == 4 || mb == 8,
            b == 1 || b == 2 || b == 4 || b == 8,
    ;
    assert((0u8 & b) == 0) by (bit_vector);
}

proof fn lemma_scan_all_mask(segs: Seq<Seq<char>>, b: u8)
    requires
        b == 1 || b == 2 || b == 4 || b == 8,
    ensures
        scan_all(segs) is Ok ==> ((scan_all(segs)->Ok_0.0 & b) != 0 <==> names_modifier(segs, b)),
    decreases segs.len(),
{
    lemma_or_bit_test(0, 1, b);
    if segs.len() > 0 {
        let prev = segs.drop_last();
        lemma_scan_all_mask(prev, b);
        let up = ascii_upper(trim(segs.last()));
        assert(names_modifier(segs, b) <==> (names_modifier(prev, b) || modifier_bit(up) == b)) by {
            if names_modifier(segs, b) {
                let i = choose|i: int|
                    0 <= i < segs.len() && modifier_bit(ascii_upper(trim(#[trigger] segs[i]))) == b;
                if i < segs.len() - 1 {
                    assert(prev[i] == segs[i]);
                }
            }
            if names_modifier(prev, b) {
                let i = choose|i: int|
                    0 <= i < prev.len() && modifier_bit(ascii_upper(trim(#[trigger] prev[i]))) == b;
                assert(prev[i] == segs[i]);
            }
            if modifier_bit(up) == b {
                assert(segs[segs.len() - 1] == segs.last());
            }
        }
        if let Ok((m, _)) = scan_all(prev) {
            let mb = modifier_bit(up);
            if mb != 0 {
                lemma_or_bit_test(m, mb, b);
            }
        }
    }
}

/// Each modifier bit of a parsed hotkey is set exactly when some
/// `+`-segment of the label, trimmed and ignoring ASCII case, is one of that
/// modifier's names (Ctrl/Control, Alt, Shift, Win/Super/Meta/Cmd).
pub proof fn lemma_parse_modifier_bits(input: Seq<char>, b: u8)
    requires
        b == 1 || b == 2 || b == 4 || b == 8,
    ensures
        parse_hotkey(input) matches HotkeyParse::Parsed(m, _) ==> ((m & b) != 0 <==> names_modifier(
            label_segments(input),
            b,
        )),
{
    let t = trim(input);
    if t.len() != 0 {
        lemma_scan_all_mask(split_on(t, '+'), b);
        lemma_scan_all_wf(split_on(t, '+'));
        match scan_all(split_on(t, '+')) {
            Ok((m, Some(k))) => {
                assert(parse_hotkey(input) == HotkeyParse::Parsed(m, k));
            },
            _ => {},
        }
    }
}

// ---- rendering ------------------------------------------------------------

fn is_f_key_exec(u: &[char]) -> (r: bool)
    ensures
        r == is_f_key(u@),
{
    if u.len() == 0 || u[0] != 'F' {
        return false;
    }
    let mut i: usize = 1;
    while i < u.len()
        invariant
            1 <= i <= u@.len(),
            u@[0] == 'F',
            forall|j: int| 1 <= j < i ==> is_ascii_digit(#[trigger] u@[j]),
        decreases u@.len() - i,
    {
        if !('0' <= u[i] && u[i] <= '9') {
            assert(!is_ascii_digit(u@.drop_first()[i - 1]));
            return false;
        }
        i = i + 1;
    }
    assert forall|j: int| 0 <= j < u@.drop_first().len() implies is_ascii_digit(
        #[trigger] u@.drop_first()[j],
    ) by {
        assert(u@.drop_first()[j] == u@[j + 1]);
    }
    true
}

/// Render a key token: F-keys and single characters unchanged, longer names
/// title-cased.
fn title_case_key(upper: &str) -> (r: String)
    ensures
        r@ == title_case(upper@),
{
    let u = chars_of(upper);
    if u.len() == 0 || is_f_key_exec(u.as_slice()) {
        return string_of(u.as_slice());
    }
    let rest = copy_range(u.as_slice(), 1, u.len());
    let lowered = lower_all(rest.as_slice());
    let mut out = String::new();
    out.push(u[0]);
    let tail = string_of(lowered.as_slice());
    push_str(&mut out, tail.as_str());
    assert(rest@ =~= u@.drop_first());
    assert(out@ =~= seq![u@[0]] + ascii_lower(u@.drop_first()));
    out
}

/// The canonical label for a hotkey ("Ctrl+Shift+Space").
pub fn format(hk: &Hotkey) -> (r: String)
    ensures
        r@ == format_spec(hk.modifiers, hk.key@),
{
    let mut out = String::new();
    let ghost m = hk.modifiers;
    if hk.modifiers & MOD_CTRL != 0 {
        push_chars(&mut out, &['C', 't', 'r', 'l', '+']);
    }
    let ghost s1 = out@;
    if hk.modifiers & MOD_ALT != 0 {
        push_chars(&mut out, &['A', 'l', 't', '+']);
    }
    let ghost s2 = out@;
    if hk.modifiers & MOD_SHIFT != 0 {
        push_chars(&mut out, &['S', 'h', 'i', 'f', 't', '+']);
    }
    let ghost s3 = out@;
    if hk.modifiers & MOD_WIN != 0 {
        push_chars(&mut out, &['W', 'i', 'n', '+']);
    }
    let label = title_case_key(hk.key.as_str());
    push_str(&mut out, label.as_str());
    assert(out@ =~= format_spec(m, hk.key@));
    out
}

// ---- the round trip --------------------------------------------------------

spec fn no_plus(s: Seq<char>) -> bool {
    forall|i: int| 0 <= i < s.len() ==> #[trigger] s[i] != '+'
}

proof fn lemma_split_no_plus(s: Seq<char>)
    requires
        no_plus(s),
    ensures
        split_on(s, '+') == seq![s],
    decreases s.len(),
{
    if s.len() > 0 {
        assert(no_plus(s.drop_last())) by {
            assert forall|i: int| 0 <= i < s.drop_last().len() implies #[trigger] s.drop_last()[i]
                != '+' by {
                assert(s.drop_last()[i] == s[i]);
            }
        }
        lemma_split_no_plus(s.drop_last());
        assert(s.last() != '+');
        assert(s.drop_last().push(s.last()) =~= s);
        assert(seq![s.drop_last()].update(0, s.drop_last().push(s.last())) =~= seq![s]);
    } else {
        assert(s =~= Seq::<char>::empty());
    }
}

/// Splitting at a separator splits the two sides independently.
proof fn lemma_split_join(a: Seq<char>, b: Seq<char>)
    ensures
        split_on(a.push('+') + b, '+') == split_on(a, '+') + split_on(b, '+'),
    decreases b.len(),
{
    lemma_split_nonempty(a);
    if b.len() == 0 {
        assert(a.push('+') + b =~= a.push('+'));
        assert(a.push('+').drop_last() =~= a);
        assert(split_on(a, '+').push(Seq::<char>::empty()) =~= split_on(a, '+') + seq![
            Seq::<char>::empty(),
        ]);
    } else {
        let b0 = b.drop_last();
        let c = b.last();
        lemma_split_join(a, b0);
        lemma_split_nonempty(b0);
        assert((a.push('+') + b).drop_last() =~= a.push('+') + b0);
        assert((a.push('+') + b).last() == c);
        let x = split_on(a, '+');
        let y = split_on(b0, '+');
        if c == '+' {
            assert((x + y).push(Seq::<char>::empty()) =~= x + y.push(Seq::<char>::empty()));
        } else {
            assert((x + y).update((x + y).len() - 1, (x + y).last().push(c)) =~= x + y.update(
                y.len() - 1,
                y.last().push(c),
            ));
        }
    }
}

proof fn lemma_split_nonempty(s: Seq<char>)
    ensures
        split_on(s, '+').len() >= 1,
    decreases s.len(),
{
    if s.len() > 0 {
        lemma_split_nonempty(s.drop_last());
    }
}

spec fn label_chars(s: Seq<char>) -> bool {
    forall|i: int| 0 <= i < s.len() ==> is_ascii_alphanumeric(#[trigger] s[i])
}

/// Facts about the characters of a canonical key token.
proof fn lemma_canonical_chars(k: Seq<char>)
    requires
        key_is_canonical(k),
    ensures
        k.len() >= 1,
        label_chars(k),
        forall|i: int| 0 <= i < k.len() ==> !is_ascii_lower(#[trigger] k[i]),
        modifier_bit(k) == 0,
{
    assert forall|i: int| 0 <= i < k.len() implies !is_ascii_lower(#[trigger] k[i]) by {
        assert(ascii_upper(k)[i] == k[i]);
    }
    if k.len() == 1 && is_ascii_alphanumeric(k[0]) {
    } else if function_key_number(k) is Some {
        let n = function_key_number(k)->0;
        lemma_decimal(n);
        assert(k == seq!['F'] + decimal(n));
        assert forall|i: int| 0 <= i < k.len() implies is_ascii_alphanumeric(#[trigger] k[i]) by {
            if i > 0 {
                assert(k[i] == decimal(n)[i - 1]);
            }
        }
    } else {
        assert(k == word_space() || k == word_enter() || k == word_tab() || k == word_escape() || k
            == word_backspace());
    }
}

proof fn lemma_title_case_chars(k: Seq<char>)
    requires
        key_is_canonical(k),
    ensures
        title_case(k).len() == k.len(),
        label_chars(title_case(k)),
        ascii_upper(title_case(k)) == k,
{
    lemma_canonical_chars(k);
    let t = title_case(k);
    if !(k.len() == 0 || is_f_key(k)) {
        assert forall|i: int| 0 <= i < t.len() implies is_ascii_alphanumeric(#[trigger] t[i]) by {
            if i > 0 {
                assert(t[i] == lower_char(k[i]));
            }
        }
        assert(ascii_upper(t) =~= k) by {
            assert forall|i: int| 0 <= i < k.len() implies #[trigger] ascii_upper(t)[i] == k[i] by {
                if i > 0 {
                    assert(t[i] == lower_char(k[i]));
                }
            }
        }
    } else {
        assert(ascii_upper(k) == k);
    }
}

proof fn lemma_trim_label(s: Seq<char>)
    requires
        s.len() >= 1,
        label_chars(s),
    ensures
        trim(s) == s,
{
    assert(!is_white_space(s[0]));
    assert(trim_start(s) == s);
    assert(!is_white_space(s.last()));
}

proof fn lemma_bits_roundtrip(m: u8)
    requires
        m < 16,
    ensures
        ((((0u8 | (if m & 1 != 0 {
            1u8
        } else {
            0u8
        })) | (if m & 2 != 0 {
            2u8
        } else {
            0u8
        })) | (if m & 4 != 0 {
            4u8
        } else {
            0u8
        })) | (if m & 8 != 0 {
            8u8
        } else {
            0u8
        })) == m,
{
    assert(((((0u8 | (if m & 1 != 0 {
        1u8
    } else {
        0u8
    })) | (if m & 2 != 0 {
        2u8
    } else {
        0u8
    })) | (if m & 4 != 0 {
        4u8
    } else {
        0u8
    })) | (if m & 8 != 0 {
        8u8
    } else {
        0u8
    })) == m) by (bit_vector)
        requires
            m < 16,
    ;
}

spec fn opt_label(present: bool, word: Seq<char>) -> Seq<Seq<char>> {
    if present {
        seq![word]
    } else {
        Seq::empty()
    }
}

spec fn opt_text(present: bool, text: Seq<char>) -> Seq<char> {
    if present {
        text
    } else {
        Seq::empty()
    }
}

spec fn opt_bit(present: bool, bit: u8) -> u8 {
    if present {
        bit
    } else {
        0
    }
}

spec fn ctrl_word() -> Seq<char> {
    seq!['C', 't', 'r', 'l']
}

spec fn alt_word() -> Seq<char> {
    seq!['A', 'l', 't']
}

spec fn shift_word() -> Seq<char> {
    seq!['S', 'h', 'i', 'f', 't']
}

spec fn win_word() -> Seq<char> {
    seq!['W', 'i', 'n']
}

/// The modifier part of a label.
spec fn mod_prefix(c: bool, a: bool, s: bool, w: bool) -> Seq<char> {
    opt_text(c, ctrl_label()) + opt_text(a, alt_label()) + opt_text(s, shift_label()) + opt_text(
        w,
        win_label(),
    )
}

/// The modifier segments of a label.
spec fn mod_segs(c: bool, a: bool, s: bool, w: bool) -> Seq<Seq<char>> {
    opt_label(c, ctrl_word()) + opt_label(a, alt_word()) + opt_label(s, shift_word()) + opt_label(
        w,
        win_word(),
    )
}

/// Scanning one more modifier segment (or none) ORs its bit in.
proof fn lemma_scan_modifier(
    segs: Seq<Seq<char>>,
    m: u8,
    present: bool,
    word: Seq<char>,
    bit: u8,
)
    requires
        scan_all(segs) == Ok::<(u8, Option<Seq<char>>), HotkeyParse>((m, None)),
        word.len() >= 1,
        label_chars(word),
        modifier_bit(ascii_upper(word)) == bit,
        bit != 0,
    ensures
        scan_all(segs + opt_label(present, word)) == Ok::<(u8, Option<Seq<char>>), HotkeyParse>(
            ((m | opt_bit(present, bit)) as u8, None),
        ),
{
    if present {
        let all = segs + seq![word];
        assert(all.drop_last() =~= segs);
        assert(all.last() == word);
        lemma_trim_label(word);
    } else {
        assert(segs + opt_label(present, word) =~= segs);
        assert((m | 0u8) == m) by (bit_vector);
    }
}

proof fn lemma_words()
    ensures
        label_chars(ctrl_word()),
        label_chars(alt_word()),
        label_chars(shift_word()),
        label_chars(win_word()),
        modifier_bit(ascii_upper(ctrl_word())) == 1,
        modifier_bit(ascii_upper(alt_word())) == 2,
        modifier_bit(ascii_upper(shift_word())) == 4,
        modifier_bit(ascii_upper(win_word())) == 8,
        no_plus(ctrl_word()),
        no_plus(alt_word()),
        no_plus(shift_word()),
        no_plus(win_word()),
        ctrl_label() == ctrl_word().push('+'),
        alt_label() == alt_word().push('+'),
        shift_label() == shift_word().push('+'),
        win_label() == win_word().push('+'),
{
    assert(ascii_upper(ctrl_word()) =~= seq!['C', 'T', 'R', 'L']);
    assert(ascii_upper(alt_word()) =~= seq!['A', 'L', 'T']);
    assert(ascii_upper(shift_word()) =~= seq!['S', 'H', 'I', 'F', 'T']);
    assert(ascii_upper(win_word()) =~= seq!['W', 'I', 'N']);
    assert(ctrl_label() =~= ctrl_word().push('+'));
    assert(alt_label() =~= alt_word().push('+'));
    assert(shift_label() =~= shift_word().push('+'));
    assert(win_label() =~= win_word().push('+'));
}

/// The modifier segments fold to the mask they came from.
proof fn lemma_scan_mod_segs(m: u8)
    requires
        m < 16,
    ensures
        scan_all(mod_segs(m & 1 != 0, m & 2 != 0, m & 4 != 0, m & 8 != 0)) == Ok::<
            (u8, Option<Seq<char>>),
            HotkeyParse,
        >((m, None)),
{
    let c = m & 1 != 0;
    let a = m & 2 != 0;
    let s = m & 4 != 0;
    let w = m & 8 != 0;
    lemma_words();
    let e: Seq<Seq<char>> = Seq::empty();
    lemma_scan_modifier(e, 0, c, ctrl_word(), 1);
    let s1 = e + opt_label(c, ctrl_word());
    let m1 = (0u8 | opt_bit(c, 1)) as u8;
    lemma_scan_modifier(s1, m1, a, alt_word(), 2);
    let s2 = s1 + opt_label(a, alt_word());
    let m2 = (m1 | opt_bit(a, 2)) as u8;
    lemma_scan_modifier(s2, m2, s, shift_word(), 4);
    let s3 = s2 + opt_label(s, shift_word());
    let m3 = (m2 | opt_bit(s, 4)) as u8;
    lemma_scan_modifier(s3, m3, w, win_word(), 8);
    let s4 = s3 + opt_label(w, win_word());
    assert(s4 =~= mod_segs(c, a, s, w));
    lemma_bits_roundtrip(m);
}

/// A label splits into its modifier words and the key label.
proof fn lemma_split_label(c: bool, a: bool, s: bool, w: bool, t: Seq<char>)
    requires
        no_plus(t),
    ensures
        split_on(mod_prefix(c, a, s, w) + t, '+') == mod_segs(c, a, s, w) + seq![t],
{
    lemma_words();
    lemma_split_no_plus(t);
    let rest_w = opt_text(w, win_label()) + t;
    lemma_prepend_label(w, win_word(), t);
    let split_w = opt_label(w, win_word()) + seq![t];
    assert(split_on(rest_w, '+') == split_w);
    let rest_s = opt_text(s, shift_label()) + rest_w;
    lemma_prepend_label(s, shift_word(), rest_w);
    let split_s = opt_label(s, shift_word()) + split_w;
    assert(split_on(rest_s, '+') == split_s);
    let rest_a = opt_text(a, alt_label()) + rest_s;
    lemma_prepend_label(a, alt_word(), rest_s);
    let split_a = opt_label(a, alt_word()) + split_s;
    assert(split_on(rest_a, '+') == split_a);
    let rest_c = opt_text(c, ctrl_label()) + rest_a;
    lemma_prepend_label(c, ctrl_word(), rest_a);
    let split_c = opt_label(c, ctrl_word()) + split_a;
    assert(split_on(rest_c, '+') == split_c);
    lemma_assoc_text(opt_text(c, ctrl_label()), opt_text(a, alt_label()), opt_text(s, shift_label()), opt_text(w, win_label()), t);
    lemma_assoc_segs(opt_label(c, ctrl_word()), opt_label(a, alt_word()), opt_label(s, shift_word()), opt_label(w, win_word()), seq![t]);
}

proof fn lemma_assoc_text(p: Seq<char>, q: Seq<char>, r: Seq<char>, u: Seq<char>, v: Seq<char>)
    ensures
        p + q + r + u + v == p + (q + (r + (u + v))),
{
    assert(p + q + r + u + v =~= p + (q + (r + (u + v))));
}

proof fn lemma_assoc_segs(
    p: Seq<Seq<char>>,
    q: Seq<Seq<char>>,
    r: Seq<Seq<char>>,
    u: Seq<Seq<char>>,
    v: Seq<Seq<char>>,
)
    ensures
        p + q + r + u + v == p + (q + (r + (u + v))),
{
    assert(p + q + r + u + v =~= p + (q + (r + (u + v))));
}

proof fn lemma_prepend_label(present: bool, word: Seq<char>, rest: Seq<char>)
    requires
        no_plus(word),
    ensures
        split_on(opt_text(present, word.push('+')) + rest, '+') == opt_label(present, word)
            + split_on(rest, '+'),
{
    if present {
        lemma_split_join(word, rest);
        lemma_split_no_plus(word);
    } else {
        assert(Seq::<char>::empty() + rest =~= rest);
        assert(opt_label(present, word) + split_on(rest, '+') =~= split_on(rest, '+'));
    }
}

/// A label is not changed by trimming.
proof fn lemma_trim_formatted(c: bool, a: bool, s: bool, w: bool, t: Seq<char>)
    requires
        t.len() >= 1,
        label_chars(t),
    ensures
        trim(mod_prefix(c, a, s, w) + t) == mod_prefix(c, a, s, w) + t,
{
    let prefix = mod_prefix(c, a, s, w);
    let label = prefix + t;
    assert(!is_white_space(label[0])) by {
        if prefix.len() > 0 {
            assert(label[0] == prefix[0]);
            assert(prefix[0] == 'C' || prefix[0] == 'A' || prefix[0] == 'S' || prefix[0] == 'W');
        } else {
            assert(label[0] == t[0]);
        }
    }
    assert(trim_start(label) == label);
    assert(label.last() == t.last());
    assert(is_ascii_alphanumeric(t[t.len() - 1]));
}

/// `parse` reads back every label that `format` writes: for a well-formed
/// hotkey, `parse(format(hk)) == Ok(hk)`.
pub proof fn lemma_format_parse_roundtrip(m: u8, key: Seq<char>)
    requires
        m < 16,
        key_is_canonical(key),
    ensures
        parse_hotkey(format_spec(m, key)) == HotkeyParse::Parsed(m, key),
{
    let c = m & 1 != 0;
    let a = m & 2 != 0;
    let s = m & 4 != 0;
    let w = m & 8 != 0;
    lemma_title_case_chars(key);
    lemma_canonical_chars(key);
    let t = title_case(key);
    let label = format_spec(m, key);
    assert(label =~= mod_prefix(c, a, s, w) + t);
    assert(no_plus(t)) by {
        assert forall|i: int| 0 <= i < t.len() implies #[trigger] t[i] != '+' by {
            assert(is_ascii_alphanumeric(t[i]));
        }
    }
    lemma_split_label(c, a, s, w, t);
    lemma_trim_formatted(c, a, s, w, t);
    lemma_scan_mod_segs(m);
    let segs = mod_segs(c, a, s, w);
    let all = segs + seq![t];
    assert(all.drop_last() =~= segs);
    assert(all.last() == t);
    lemma_trim_label(t);
}

// ---- case does not matter ---------------------------------------------------

proof fn lemma_upper_char_keeps_white_space(c: char)
    ensures
        is_white_space(upper_char(c)) == is_white_space(c),
        upper_char(c) == '+' <==> c == '+',
        upper_char(upper_char(c)) == upper_char(c),
{
}

proof fn lemma_upper_trim_start(s: Seq<char>)
    ensures
        trim_start(ascii_upper(s)) == ascii_upper(trim_start(s)),
    decreases s.len(),
{
    if s.len() > 0 {
        lemma_upper_char_keeps_white_space(s[0]);
        assert(ascii_upper(s)[0] == upper_char(s[0]));
        assert(ascii_upper(s).drop_first() =~= ascii_upper(s.drop_first()));
        lemma_upper_trim_start(s.drop_first());
    }
}

proof fn lemma_upper_trim_end(s: Seq<char>)
    ensures
        trim_end(ascii_upper(s)) == ascii_upper(trim_end(s)),
    decreases s.len(),
{
    if s.len() > 0 {
        lemma_upper_char_keeps_white_space(s.last());
        assert(ascii_upper(s).last() == upper_char(s.last()));
        assert(ascii_upper(s).drop_last() =~= ascii_upper(s.drop_last()));
        lemma_upper_trim_end(s.drop_last());
    }
}

proof fn lemma_upper_trim(s: Seq<char>)
    ensures
        trim(ascii_upper(s)) == ascii_upper(trim(s)),
{
    lemma_upper_trim_start(s);
    lemma_upper_trim_end(trim_start(s));
}

/// Each segment upper-cased.
spec fn upper_all_segments(segs: Seq<Seq<char>>) -> Seq<Seq<char>> {
    Seq::new(segs.len(), |i: int| ascii_upper(segs[i]))
}

proof fn lemma_upper_split(t: Seq<char>)
    ensures
        split_on(ascii_upper(t), '+') == upper_all_segments(split_on(t, '+')),
    decreases t.len(),
{
    if t.len() == 0 {
        assert(ascii_upper(t) =~= Seq::<char>::empty());
        assert(ascii_upper(Seq::<char>::empty()) =~= Seq::<char>::empty());
        assert(upper_all_segments(seq![Seq::<char>::empty()]) =~= seq![Seq::<char>::empty()]);
    } else {
        let u = ascii_upper(t);
        assert(u.drop_last() =~= ascii_upper(t.drop_last()));
        assert(u.last() == upper_char(t.last()));
        lemma_upper_char_keeps_white_space(t.last());
        lemma_upper_split(t.drop_last());
        let prev = split_on(t.drop_last(), '+');
        let uprev = split_on(u.drop_last(), '+');
        assert(uprev == upper_all_segments(prev));
        lemma_split_nonempty(t.drop_last());
        if t.last() == '+' {
            assert(ascii_upper(Seq::<char>::empty()) =~= Seq::<char>::empty());
            assert(upper_all_segments(prev.push(Seq::<char>::empty())) =~= uprev.push(
                Seq::<char>::empty(),
            ));
        } else {
            let lastseg = prev.last();
            assert(ascii_upper(lastseg.push(t.last())) =~= ascii_upper(lastseg).push(
                upper_char(t.last()),
            ));
            assert(upper_all_segments(prev.update(prev.len() - 1, lastseg.push(t.last())))
                =~= uprev.update(uprev.len() - 1, uprev.last().push(u.last())));
        }
    }
}

/// Two parsing states that are equal, or both failed on an unknown token
/// (whose text may differ in case).
pub open spec fn agree(a: ScanState, b: ScanState) -> bool {
    a == b || (a matches Err(HotkeyParse::UnknownToken(_)) && b matches Err(
        HotkeyParse::UnknownToken(_),
    ))
}

proof fn lemma_scan_token_upper(a: ScanState, b: ScanState, seg: Seq<char>)
    requires
        agree(a, b),
    ensures
        agree(scan_token(a, seg), scan_token(b, ascii_upper(seg))),
{
    lemma_upper_trim(seg);
    lemma_upper_idempotent(trim(seg));
    assert(ascii_upper(trim(seg)).len() == trim(seg).len());
}

proof fn lemma_scan_all_upper(segs: Seq<Seq<char>>)
    ensures
        agree(scan_all(segs), scan_all(upper_all_segments(segs))),
    decreases segs.len(),
{
    if segs.len() > 0 {
        let u = upper_all_segments(segs);
        assert(u.drop_last() =~= upper_all_segments(segs.drop_last()));
        assert(u.last() == ascii_upper(segs.last()));
        lemma_scan_all_upper(segs.drop_last());
        lemma_scan_token_upper(scan_all(segs.drop_last()), scan_all(u.drop_last()), segs.last());
    }
}

/// Two parse outcomes that are equal, or both an unknown token.
pub open spec fn same_parse(a: HotkeyParse, b: HotkeyParse) -> bool {
    a == b || (a is UnknownToken && b is UnknownToken)
}

/// Case does not matter: two labels that differ only in the case of ASCII
/// letters parse to the same hotkey, or to the same error (for an unknown
/// token, the error quotes the token as it was written).
pub proof fn lemma_parse_ignores_case(a: Seq<char>, b: Seq<char>)
    requires
        ascii_upper(a) == ascii_upper(b),
    ensures
        same_parse(parse_hotkey(a), parse_hotkey(b)),
{
    lemma_parse_matches_upper(a);
    lemma_parse_matches_upper(b);
}

proof fn lemma_parse_matches_upper(s: Seq<char>)
    ensures
        same_parse(parse_hotkey(s), parse_hotkey(ascii_upper(s))),
{
    let t = trim(s);
    lemma_upper_trim(s);
    assert(trim(ascii_upper(s)) == ascii_upper(t));
    assert(ascii_upper(t).len() == t.len());
    if t.len() > 0 {
        lemma_upper_split(t);
        lemma_scan_all_upper(split_on(t, '+'));
    }
}

// ---- whitespace around the separators does not matter ---------------------

proof fn lemma_ws_no_plus(w: Seq<char>)
    requires
        all_white_space(w),
    ensures
        no_plus(w),
{
    assert forall|i: int| 0 <= i < w.len() implies #[trigger] w[i] != '+' by {
        assert(is_white_space(w[i]));
    }
}

proof fn lemma_split_prepend(w: Seq<char>, y: Seq<char>)
    requires
        no_plus(w),
    ensures
        split_on(w + y, '+') == split_on(y, '+').update(0, w + split_on(y, '+')[0]),
    decreases y.len(),
{
    lemma_split_nonempty(y);
    if y.len() == 0 {
        assert(w + y =~= w);
        lemma_split_no_plus(w);
        assert(w + Seq::<char>::empty() =~= w);
    } else {
        let y0 = y.drop_last();
        let c = y.last();
        lemma_split_prepend(w, y0);
        lemma_split_nonempty(y0);
        assert((w + y).drop_last() =~= w + y0);
        assert((w + y).last() == c);
        let s0 = split_on(y0, '+');
        if c == '+' {
            assert(s0.update(0, w + s0[0]).push(Seq::<char>::empty()) =~= s0.push(
                Seq::<char>::empty(),
            ).update(0, w + s0.push(Seq::<char>::empty())[0]));
        } else {
            let s1 = s0.update(0, w + s0[0]);
            let t = s0.update(s0.len() - 1, s0.last().push(c));
            if s0.len() == 1 {
                assert((w + s0[0]).push(c) =~= w + s0[0].push(c));
            }
            assert(s1.update(s1.len() - 1, s1.last().push(c)) =~= t.update(0, w + t[0]));
        }
    }
}

proof fn lemma_split_append(x: Seq<char>, w: Seq<char>)
    requires
        no_plus(w),
    ensures
        split_on(x + w, '+') == split_on(x, '+').update(
            split_on(x, '+').len() - 1,
            split_on(x, '+').last() + w,
        ),
    decreases w.len(),
{
    lemma_split_nonempty(x);
    let sx = split_on(x, '+');
    if w.len() == 0 {
        assert(x + w =~= x);
        assert(sx.last() + w =~= sx.last());
        assert(sx.update(sx.len() - 1, sx.last()) =~= sx);
    } else {
        let w0 = w.drop_last();
        let c = w.last();
        assert(no_plus(w0)) by {
            assert forall|i: int| 0 <= i < w0.len() implies #[trigger] w0[i] != '+' by {
                assert(w0[i] == w[i]);
            }
        }
        assert(c != '+');
        lemma_split_append(x, w0);
        assert((x + w).drop_last() =~= x + w0);
        assert((x + w).last() == c);
        let s1 = sx.update(sx.len() - 1, sx.last() + w0);
        assert((sx.last() + w0).push(c) =~= sx.last() + w);
        assert(s1.update(s1.len() - 1, s1.last().push(c)) =~= sx.update(
            sx.len() - 1,
            sx.last() + w,
        ));
    }
}

proof fn lemma_trim_start_prefix(p: Seq<char>, y: Seq<char>)
    requires
        all_white_space(p),
    ensures
        trim_start(p + y) == trim_start(y),
    decreases p.len(),
{
    if p.len() > 0 {
        assert((p + y)[0] == p[0]);
        assert((p + y).drop_first() =~= p.drop_first() + y);
        assert(all_white_space(p.drop_first())) by {
            assert forall|i: int| 0 <= i < p.drop_first().len() implies is_white_space(
                #[trigger] p.drop_first()[i],
            ) by {
                assert(p.drop_first()[i] == p[i + 1]);
            }
        }
        lemma_trim_start_prefix(p.drop_first(), y);
    } else {
        assert(p + y =~= y);
    }
}

proof fn lemma_trim_end_suffix(y: Seq<char>, w: Seq<char>)
    requires
        all_white_space(w),
    ensures
        trim_end(y + w) == trim_end(y),
    decreases w.len(),
{
    if w.len() > 0 {
        assert((y + w).last() == w.last());
        assert((y + w).drop_last() =~= y + w.drop_last());
        assert(all_white_space(w.drop_last())) by {
            assert forall|i: int| 0 <= i < w.drop_last().len() implies is_white_space(
                #[trigger] w.drop_last()[i],
            ) by {
                assert(w.drop_last()[i] == w[i]);
            }
        }
        lemma_trim_end_suffix(y, w.drop_last());
    } else {
        assert(y + w =~= y);
    }
}

/// `trim_start` of `y + z` keeps all of `z` once `y` has a non-whitespace
/// character.
proof fn lemma_trim_start_concat(y: Seq<char>, z: Seq<char>)
    requires
        !all_white_space(y),
    ensures
        trim_start(y + z) == trim_start(y) + z,
    decreases y.len(),
{
    assert(y.len() > 0);
    assert((y + z)[0] == y[0]);
    if is_white_space(y[0]) {
        assert((y + z).drop_first() =~= y.drop_first() + z);
        assert(!all_white_space(y.drop_first())) by {
            let j = choose|j: int| 0 <= j < y.len() && !is_white_space(#[trigger] y[j]);
            assert(j > 0);
            assert(y.drop_first()[j - 1] == y[j]);
        }
        lemma_trim_start_concat(y.drop_first(), z);
    }
}

proof fn lemma_trim_prefix(p: Seq<char>, y: Seq<char>)
    requires
        all_white_space(p),
    ensures
        trim(p + y) == trim(y),
{
    lemma_trim_start_prefix(p, y);
}

proof fn lemma_trim_suffix(y: Seq<char>, w: Seq<char>)
    requires
        all_white_space(w),
    ensures
        trim(y + w) == trim(y),
{
    lemma_trim_empty(y);
    lemma_trim_empty(y + w);
    if all_white_space(y) {
        assert(all_white_space(y + w)) by {
            assert forall|i: int| 0 <= i < (y + w).len() implies is_white_space(
                #[trigger] (y + w)[i],
            ) by {
                if i < y.len() {
                    assert((y + w)[i] == y[i]);
                } else {
                    assert((y + w)[i] == w[i - y.len()]);
                }
            }
        }
    } else {
        lemma_trim_start_concat(y, w);
        lemma_trim_end_suffix(trim_start(y), w);
    }
}

/// Segment lists that agree once each segment is trimmed.
spec fn trims_agree(a: Seq<Seq<char>>, b: Seq<Seq<char>>) -> bool {
    a.len() == b.len() && forall|i: int| 0 <= i < a.len() ==> trim(#[trigger] a[i]) == trim(b[i])
}

proof fn lemma_scan_all_trims(a: Seq<Seq<char>>, b: Seq<Seq<char>>)
    requires
        trims_agree(a, b),
    ensures
        scan_all(a) == scan_all(b),
    decreases a.len(),
{
    if a.len() > 0 {
        assert(trims_agree(a.drop_last(), b.drop_last())) by {
            assert forall|i: int| 0 <= i < a.drop_last().len() implies trim(
                #[trigger] a.drop_last()[i],
            ) == trim(b.drop_last()[i]) by {
                assert(a.drop_last()[i] == a[i]);
                assert(b.drop_last()[i] == b[i]);
                assert(trim(a[i]) == trim(b[i]));
            }
        }
        lemma_scan_all_trims(a.drop_last(), b.drop_last());
        assert(trim(a.last()) == trim(b.last())) by {
            assert(trim(a[a.len() - 1]) == trim(b[a.len() - 1]));
        }
    }
}

/// Leading and trailing whitespace of the whole label only widen its first
/// and last segments, which are trimmed anyway.
proof fn lemma_scan_trimmed(x: Seq<char>)
    ensures
        scan_all(split_on(trim(x), '+')) == scan_all(split_on(x, '+')),
{
    let k = lemma_trim_start_split(x);
    let p = x.subrange(0, k as int);
    let y = trim_start(x);
    assert(p + y =~= x);
    lemma_ws_no_plus(p);
    lemma_split_prepend(p, y);
    lemma_split_nonempty(y);
    let sy = split_on(y, '+');
    assert(trims_agree(split_on(x, '+'), sy)) by {
        assert forall|i: int| 0 <= i < sy.len() implies trim(#[trigger] split_on(x, '+')[i]) == trim(
            sy[i],
        ) by {
            if i == 0 {
                lemma_trim_prefix(p, sy[0]);
            }
        }
    }
    lemma_scan_all_trims(split_on(x, '+'), sy);
    let j = lemma_trim_end_split(y);
    let q = trim_end(y);
    let w = y.subrange(j as int, y.len() as int);
    assert(q + w =~= y);
    lemma_ws_no_plus(w);
    lemma_split_append(q, w);
    lemma_split_nonempty(q);
    let sq = split_on(q, '+');
    assert(trims_agree(sy, sq)) by {
        assert forall|i: int| 0 <= i < sq.len() implies trim(#[trigger] sy[i]) == trim(sq[i]) by {
            if i == sq.len() - 1 {
                lemma_trim_suffix(sq.last(), w);
            }
        }
    }
    lemma_scan_all_trims(sy, sq);
}

/// The whitespace that `trim_start` drops, as a prefix length.
proof fn lemma_trim_start_split(x: Seq<char>) -> (k: nat)
    ensures
        k <= x.len(),
        all_white_space(x.subrange(0, k as int)),
        x.subrange(k as int, x.len() as int) == trim_start(x),
    decreases x.len(),
{
    if x.len() > 0 && is_white_space(x[0]) {
        let k0 = lemma_trim_start_split(x.drop_first());
        let k = k0 + 1;
        assert(x.subrange(k as int, x.len() as int) =~= x.drop_first().subrange(
            k0 as int,
            x.drop_first().len() as int,
        ));
        assert forall|i: int| 0 <= i < k implies is_white_space(#[trigger] x.subrange(0, k as int)[i]) by {
            if i > 0 {
                assert(x.subrange(0, k as int)[i] == x.drop_first().subrange(0, k0 as int)[i - 1]);
            }
        }
        k
    } else {
        assert(x.subrange(0, x.len() as int) =~= x);
        assert(x.subrange(0, 0) =~= Seq::<char>::empty());
        0
    }
}

/// The whitespace that `trim_end` drops, as the start of a suffix.
proof fn lemma_trim_end_split(x: Seq<char>) -> (j: nat)
    ensures
        j <= x.len(),
        all_white_space(x.subrange(j as int, x.len() as int)),
        x.subrange(0, j as int) == trim_end(x),
    decreases x.len(),
{
    if x.len() > 0 && is_white_space(x.last()) {
        let j = lemma_trim_end_split(x.drop_last());
        assert(x.subrange(0, j as int) =~= x.drop_last().subrange(0, j as int));
        assert forall|i: int| 0 <= i < x.len() - j implies is_white_space(
            #[trigger] x.subrange(j as int, x.len() as int)[i],
        ) by {
            if i < x.len() - 1 - j {
                assert(x.subrange(j as int, x.len() as int)[i] == x.drop_last().subrange(
                    j as int,
                    x.drop_last().len() as int,
                )[i]);
            }
        }
        j
    } else {
        assert(x.subrange(0, x.len() as int) =~= x);
        x.len()
    }
}

/// Whitespace around a `+` does not matter: inserting whitespace on either
/// side of a separator leaves the parse unchanged.
pub proof fn lemma_parse_ignores_space_around_plus(
    a: Seq<char>,
    w1: Seq<char>,
    w2: Seq<char>,
    b: Seq<char>,
)
    requires
        all_white_space(w1),
        all_white_space(w2),
    ensures
        parse_hotkey(a + w1 + seq!['+'] + w2 + b) == parse_hotkey(a + seq!['+'] + b),
{
    let l = a + w1 + seq!['+'] + w2 + b;
    let r = a + seq!['+'] + b;
    // Neither label is blank: both hold a '+'.
    lemma_trim_empty(l);
    lemma_trim_empty(r);
    assert(l[(a + w1).len() as int] == '+');
    assert(r[a.len() as int] == '+');
    lemma_scan_trimmed(l);
    lemma_scan_trimmed(r);
    lemma_ws_no_plus(w1);
    lemma_ws_no_plus(w2);
    assert(l =~= (a + w1).push('+') + (w2 + b));
    assert(r =~= a.push('+') + b);
    lemma_split_join(a + w1, w2 + b);
    lemma_split_join(a, b);
    lemma_split_append(a, w1);
    lemma_split_prepend(w2, b);
    lemma_split_nonempty(a);
    lemma_split_nonempty(b);
    let sa = split_on(a, '+');
    let sb = split_on(b, '+');
    let sl = split_on(a + w1, '+') + split_on(w2 + b, '+');
    let sr = sa + sb;
    assert(trims_agree(sl, sr)) by {
        assert forall|i: int| 0 <= i < sr.len() implies trim(#[trigger] sl[i]) == trim(sr[i]) by {
            if i < sa.len() {
                if i == sa.len() - 1 {
                    lemma_trim_suffix(sa.last(), w1);
                }
            } else {
                if i == sa.len() {
                    lemma_trim_prefix(w2, sb[0]);
                }
            }
        }
    }
    lemma_scan_all_trims(sl, sr);
}

/// Whitespace around the whole label does not matter either.
pub proof fn lemma_parse_ignores_outer_space(w1: Seq<char>, s: Seq<char>, w2: Seq<char>)
    requires
        all_white_space(w1),
        all_white_space(w2),
    ensures
        parse_hotkey(w1 + s + w2) == parse_hotkey(s),
{
    lemma_trim_prefix(w1, s + w2);
    lemma_trim_suffix(s, w2);
    assert(w1 + s + w2 =~= w1 + (s + w2));
}

// ---- defaults and the recorder -------------------------------------------

/// Default hotkey when no config exists yet: Ctrl+Shift+Space, the value
/// `parse` gives for that label.
pub fn default_hotkey() -> (r: Hotkey)
    ensures
        r.modifiers == MOD_CTRL | MOD_SHIFT,
        r.key@ == word_space(),
        r.wf(),
        parse_hotkey(format_spec(r.modifiers, r.key@)) == HotkeyParse::Parsed(
            r.modifiers,
            r.key@,
        ),
{
    let key = string_of(&['S', 'P', 'A', 'C', 'E']);
    let hk = Hotkey { modifiers: 5, key: HotkeyKey(key) };
    proof {
        assert((1u8 | 4u8) == 5u8) by (bit_vector);
        assert(ascii_upper(word_space()) =~= word_space());
        assert(function_key_number(word_space()) is None);
        lemma_format_parse_roundtrip(5, word_space());
    }
    hk
}

/// Modifier state reported by the key recorder.
#[derive(Debug, Clone, Copy, PartialEq, Eq, Structural)]
pub struct KeyModifiers {
    pub alt: bool,
    pub ctrl: bool,
    pub shift: bool,
    /// The raw Cmd key (mac only).
    pub mac_cmd: bool,
    /// The "primary" modifier: Cmd on mac, Ctrl elsewhere.
    pub command: bool,
}

impl KeyModifiers {
    pub fn none() -> (r: KeyModifiers)
        ensures
            !r.alt && !r.ctrl && !r.shift && !r.mac_cmd && !r.command,
    {
        KeyModifiers { alt: false, ctrl: false, shift: false, mac_cmd: false, command: false }
    }

    pub open spec fn any_held(&self) -> bool {
        self.ctrl || self.alt || self.shift || self.mac_cmd || self.command
    }
}

/// A key as the recorder reports it: letters A..Z by index, digits, function
/// keys by number, the named keys, and everything else.
#[derive(Debug, Clone, Copy, PartialEq, Eq, Structural)]
pub enum RecorderKey {
    /// `Letter(i)` is the i-th letter of A..Z.
    Letter(u8),
    /// `Digit(d)` is the top-row digit d.
    Digit(u8),
    /// `Function(n)` is Fn.
    Function(u8),
    Space,
    Enter,
    Tab,
    Escape,
    Backspace,
    Other,
}

/// The canonical token for a recorded key, or `None` for a key outside the
/// registrable set.
pub open spec fn recorder_token(key: RecorderKey) -> Option<Seq<char>> {
    match key {
        RecorderKey::Letter(i) => if i < 26 {
            Some(seq![(('A' as u32) + i) as char])
        } else {
            None
        },
        RecorderKey::Digit(d) => if d < 10 {
            Some(seq![digit_char(d as nat)])
        } else {
            None
        },
        RecorderKey::Function(n) => if 1 <= n <= 24 {
            Some(seq!['F'] + decimal(n as nat))
        } else {
            None
        },
        RecorderKey::Space => Some(word_space()),
        RecorderKey::Enter => Some(word_enter()),
        RecorderKey::Tab => Some(word_tab()),
        RecorderKey::Escape => Some(word_escape()),
        RecorderKey::Backspace => Some(word_backspace()),
        RecorderKey::Other => None,
    }
}

/// What the recorder writes for a key: letters `Letter(0)` .. `Letter(25)`
/// are the upper-case letters in alphabetical order from `A`, a digit key
/// is the digit of its value, and a function key is a token the parser reads
/// back as that function key.
pub proof fn lemma_recorder_tokens(i: u8, j: u8, d: u8, n: u8)
    ensures
        i < 26 ==> (recorder_token(RecorderKey::Letter(i)) matches Some(t) && t.len() == 1
            && is_ascii_upper(t[0])),
        i < j < 26 ==> recorder_token(RecorderKey::Letter(i))->0[0]
            < recorder_token(RecorderKey::Letter(j))->0[0],
        recorder_token(RecorderKey::Letter(0)) == Some(seq!['A']),
        d < 10 ==> (recorder_token(RecorderKey::Digit(d)) matches Some(t) && t.len() == 1
            && is_ascii_digit(t[0]) && digit_value(t[0]) == d),
        1 <= n <= 24 ==> (recorder_token(RecorderKey::Function(n)) matches Some(t)
            && function_key_number(t) == Some(n as nat) && canonical_key(t) == Some(t)),
{
    if d < 10 {
        lemma_digit_char(d as nat);
    }
    if 1 <= n <= 24 {
        lemma_fkey_canonical(n as nat);
    }
}

/// The modifier mask for recorder modifiers: Ctrl, Alt, Shift, and the raw
/// Cmd key folded into the Win bit.
pub open spec fn recorder_mask(m: KeyModifiers) -> u8 {
    ((((if m.ctrl {
        1u8
    } else {
        0u8
    }) | (if m.alt {
        2u8
    } else {
        0u8
    })) | (if m.shift {
        4u8
    } else {
        0u8
    })) | (if m.mac_cmd {
        8u8
    } else {
        0u8
    })) as u8
}

/// The recorded mask has exactly the bits of the held modifiers: Ctrl gives
/// bit 1, Alt bit 2, Shift bit 4, the Windows/Command key bit 8, and no other
/// bit is ever set.
pub proof fn lemma_recorder_mask_bits(m: KeyModifiers)
    ensures
        (recorder_mask(m) & 1u8 != 0) == m.ctrl,
        (recorder_mask(m) & 2u8 != 0) == m.alt,
        (recorder_mask(m) & 4u8 != 0) == m.shift,
        (recorder_mask(m) & 8u8 != 0) == m.mac_cmd,
        recorder_mask(m) < 16,
{
    let c: u8 = if m.ctrl { 1 } else { 0 };
    let a: u8 = if m.alt { 2 } else { 0 };
    let s: u8 = if m.shift { 4 } else { 0 };
    let w: u8 = if m.mac_cmd { 8 } else { 0 };
    let x: u8 = recorder_mask(m);
    assert(x == (((c | a) | s) | w));
    assert((x & 1u8 != 0) == (c == 1) && (x & 2u8 != 0) == (a == 2) && (x & 4u8 != 0) == (s == 4)
        && (x & 8u8 != 0) == (w == 8) && x < 16) by (bit_vector)
        requires
            c == 0 || c == 1,
            a == 0 || a == 2,
            s == 0 || s == 4,
            w == 0 || w == 8,
            x == (((c | a) | s) | w),
    ;
}

/// Translate a recorded `(modifiers, key)` into a hotkey in canonical form,
/// or `None` for a key outside the registrable set. Whatever it returns,
/// `format` renders a label that `parse` reads back.
pub fn hotkey_from_egui(modifiers: KeyModifiers, key: RecorderKey) -> (r: Option<Hotkey>)
    ensures
        r is None <==> recorder_token(key) is None,
        r matches Some(hk) ==> hk.modifiers == recorder_mask(modifiers) && Some(hk.key@)
            == recorder_token(key) && hk.wf(),
{
    let token: Vec<char> = match key {
        RecorderKey::Letter(i) => {
            if i >= 26 {
                return None;
            }
            let c = ((65u8 + i) as char);
            let v: Vec<char> = vec![c];
            v
        },
        RecorderKey::Digit(d) => {
            if d >= 10 {
                return None;
            }
            let v: Vec<char> = vec![digit(d as u64)];
            v
        },
        RecorderKey::Function(n) => {
            if n < 1 || n > 24 {
                return None;
            }
            let mut s = String::new();
            s.push('F');
            push_decimal(&mut s, n as u64);
            let v = chars_of(s.as_str());
            assert(v@ =~= seq!['F'] + decimal(n as nat));
            v
        },
        RecorderKey::Space => vec!['S', 'P', 'A', 'C', 'E'],
        RecorderKey::Enter => vec!['E', 'N', 'T', 'E', 'R'],
        RecorderKey::Tab => vec!['T', 'A', 'B'],
        RecorderKey::Escape => vec!['E', 'S', 'C', 'A', 'P', 'E'],
        RecorderKey::Backspace => vec!['B', 'A', 'C', 'K', 'S', 'P', 'A', 'C', 'E'],
        RecorderKey::Other => {
            return None;
        },
    };
    let ct: u8 = if modifiers.ctrl {
        MOD_CTRL
    } else {
        0
    };
    let at: u8 = if modifiers.alt {
        MOD_ALT
    } else {
        0
    };
    let st: u8 = if modifiers.shift {
        MOD_SHIFT
    } else {
        0
    };
    let wt: u8 = if modifiers.mac_cmd {
        MOD_WIN
    } else {
        0
    };
    let mods: u8 = ((ct | at) | st) | wt;
    proof {
        lemma_recorder_token_canonical(key);
        assert((((ct | at) | st) | wt) < 16) by (bit_vector)
            requires
                ct == 0 || ct == 1,
                at == 0 || at == 2,
                st == 0 || st == 4,
                wt == 0 || wt == 8,
        ;
    }
    Some(Hotkey { modifiers: mods, key: HotkeyKey(string_of(token.as_slice())) })
}

proof fn lemma_recorder_token_canonical(key: RecorderKey)
    ensures
        recorder_token(key) matches Some(t) ==> key_is_canonical(t),
{
    match key {
        RecorderKey::Letter(i) => {
            if i < 26 {
                let t = seq![(('A' as u32) + i) as char];
                assert(ascii_upper(t) =~= t);
            }
        },
        RecorderKey::Digit(d) => {
            if d < 10 {
                lemma_digit_char(d as nat);
                let t = seq![digit_char(d as nat)];
                assert(ascii_upper(t) =~= t);
            }
        },
        RecorderKey::Function(n) => {
            if 1 <= n <= 24 {
                lemma_fkey_canonical(n as nat);
            }
        },
        RecorderKey::Space => {
            assert(ascii_upper(word_space()) =~= word_space());
            assert(function_key_number(word_space()) is None);
        },
        RecorderKey::Enter => {
            assert(ascii_upper(word_enter()) =~= word_enter());
            assert(function_key_number(word_enter()) is None);
        },
        RecorderKey::Tab => {
            assert(ascii_upper(word_tab()) =~= word_tab());
            assert(function_key_number(word_tab()) is None);
        },
        RecorderKey::Escape => {
            assert(ascii_upper(word_escape()) =~= word_escape());
            assert(function_key_number(word_escape()) is None);
        },
        RecorderKey::Backspace => {
            assert(ascii_upper(word_backspace()) =~= word_backspace());
            assert(function_key_number(word_backspace()) is None);
        },
        RecorderKey::Other => {},
    }
}

} // verus!
