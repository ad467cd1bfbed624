//! Journal events, one JSON object per line of an append-only NDJSON file.
//! This module builds and validates events and frames their lines; the JSON
//! encoding and the file I/O are done by the application.
use vstd::prelude::*;
use crate::number::{FloatBits, positive_finite};
use crate::config::{
    appended, document_dir, join_path, lemma_plain_names, nudge_folder, path_join, verbatim_path,
};
use crate::text::{chars_eq, chars_of, owned, push_chars, push_decimal, push_str, string_of_range};

verus! {

/// A single journal event, as the journal specification defines it.
#[derive(Debug, Clone, PartialEq)]
pub struct JournalEvent {
    pub schema_version: u32,
    pub event_type: String,
    pub entry_id: String,
    pub captured_at: String,
    pub implementation: String,
    pub trigger_source: String,
    pub doing: String,
    pub bullshit: String,
    pub next_interval_minutes: FloatBits,
}

/// Why an event may not be written.
#[derive(Debug, Clone, PartialEq, Eq)]
pub enum ValidationIssue {
    /// `schema_version` is not 1.
    SchemaVersion(u32),
    /// `event_type` is not "submitted".
    EventType(String),
    EmptyEntryId,
    /// `captured_at` is not an RFC 3339 time with milliseconds and an offset.
    CapturedAt(String),
    EmptyImplementation,
    /// `trigger_source` is neither "timer" nor "manual".
    TriggerSource(String),
    /// `next_interval_minutes` is not a finite number above zero.
    Interval(FloatBits),
}

/// Why an event was not written: it broke a rule (or could not be
/// encoded), or the file system refused.
#[derive(Debug, Clone, PartialEq, Eq)]
pub enum JournalError {
    Validation { detail: String },
    Io { path: String, detail: String },
}

impl JournalError {
    /// The validation error for an issue; `interval_text` is how the
    /// interval value prints.
    pub fn from_issue(issue: &ValidationIssue, interval_text: &str) -> (r: JournalError)
        ensures
            r matches JournalError::Validation { detail } && detail@ == issue.detail_spec(
                interval_text@,
            ),
    {
        JournalError::Validation { detail: issue.detail(interval_text) }
    }

    /// "Journal validation: <detail>" or "Journal I/O (<path>): <detail>".
    pub fn message(&self) -> (r: String)
        ensures
            r@ == match self {
                JournalError::Validation { detail } => seq![
                    'J', 'o', 'u', 'r', 'n', 'a', 'l', ' ', 'v', 'a', 'l', 'i', 'd', 'a', 't', 'i',
                    'o', 'n', ':', ' ',
                ] + detail@,
                JournalError::Io { path, detail } => seq![
                    'J', 'o', 'u', 'r', 'n', 'a', 'l', ' ', 'I', '/', 'O', ' ', '(',
                ] + path@ + seq![')', ':', ' '] + detail@,
            },
    {
        let mut out = String::new();
        match self {
            JournalError::Validation { detail } => {
                push_chars(
                    &mut out,
                    &[
                        'J', 'o', 'u', 'r', 'n', 'a', 'l', ' ', 'v', 'a', 'l', 'i', 'd', 'a', 't',
                        'i', 'o', 'n', ':', ' ',
                    ],
                );
                push_str(&mut out, detail.as_str());
            },
            JournalError::Io { path, detail } => {
                push_chars(&mut out, &['J', 'o', 'u', 'r', 'n', 'a', 'l', ' ', 'I', '/', 'O', ' ', '(']);
                push_str(&mut out, path.as_str());
                push_chars(&mut out, &[')', ':', ' ']);
                push_str(&mut out, detail.as_str());
            },
        }
        out
    }
}

pub open spec fn word_submitted() -> Seq<char> {
    seq!['s', 'u', 'b', 'm', 'i', 't', 't', 'e', 'd']
}

pub open spec fn word_timer() -> Seq<char> {
    seq!['t', 'i', 'm', 'e', 'r']
}

pub open spec fn word_manual() -> Seq<char> {
    seq!['m', 'a', 'n', 'u', 'a', 'l']
}

pub open spec fn word_rust() -> Seq<char> {
    seq!['r', 'u', 's', 't']
}

pub open spec fn is_digit_at(s: Seq<char>, i: int) -> bool {
    '0' <= s[i] <= '9'
}

/// `YYYY-MM-DDTHH:MM:SS.mmm`: a date, a time of day and exactly three
/// digits of fraction (milliseconds).
pub open spec fn millis_stamp_prefix(s: Seq<char>) -> bool {
    &&& s.len() >= 23
    &&& is_digit_at(s, 0) && is_digit_at(s, 1) && is_digit_at(s, 2) && is_digit_at(s, 3)
    &&& s[4] == '-' && is_digit_at(s, 5) && is_digit_at(s, 6)
    &&& s[7] == '-' && is_digit_at(s, 8) && is_digit_at(s, 9)
    &&& s[10] == 'T' && is_digit_at(s, 11) && is_digit_at(s, 12)
    &&& s[13] == ':' && is_digit_at(s, 14) && is_digit_at(s, 15)
    &&& s[16] == ':' && is_digit_at(s, 17) && is_digit_at(s, 18)
    &&& s[19] == '.' && is_digit_at(s, 20) && is_digit_at(s, 21) && is_digit_at(s, 22)
}

/// A numeric UTC offset `+HH:MM` or `-HH:MM` starting at index `k`.
pub open spec fn numeric_offset_at(s: Seq<char>, k: int) -> bool {
    &&& s[k] == '+' || s[k] == '-'
    &&& is_digit_at(s, k + 1) && is_digit_at(s, k + 2)
    &&& s[k + 3] == ':'
    &&& is_digit_at(s, k + 4) && is_digit_at(s, k + 5)
}

/// The journal's timestamp form: RFC 3339 with exactly three fraction
/// digits and an explicit offset, `Z` or `+HH:MM` / `-HH:MM`
/// (`2026-04-17T14:30:00.000+02:00`, `2026-04-17T12:30:00.125Z`).
pub open spec fn timestamp_shape(s: Seq<char>) -> bool {
    &&& millis_stamp_prefix(s)
    &&& (s.len() == 24 && s[23] == 'Z') || (s.len() == 29 && numeric_offset_at(s, 23))
}

fn digit_at(v: &Vec<char>, i: usize) -> (r: bool)
    requires
        i < v@.len(),
    ensures
        r == is_digit_at(v@, i as int),
{
    '0' <= v[i] && v[i] <= '9'
}

/// Whether `s` has the journal's timestamp form.
pub fn has_timestamp_shape(s: &str) -> (r: bool)
    ensures
        r == timestamp_shape(s@),
{
    let v = chars_of(s);
    let n = v.len();
    if n != 24 && n != 29 {
        return false;
    }
    let prefix = digit_at(&v, 0) && digit_at(&v, 1) && digit_at(&v, 2) && digit_at(&v, 3)
        && v[4] == '-' && digit_at(&v, 5) && digit_at(&v, 6) && v[7] == '-' && digit_at(&v, 8)
        && digit_at(&v, 9) && v[10] == 'T' && digit_at(&v, 11) && digit_at(&v, 12) && v[13]
        == ':' && digit_at(&v, 14) && digit_at(&v, 15) && v[16] == ':' && digit_at(&v, 17)
        && digit_at(&v, 18) && v[19] == '.' && digit_at(&v, 20) && digit_at(&v, 21) && digit_at(
        &v,
        22,
    );
    if !prefix {
        return false;
    }
    if n == 24 {
        v[23] == 'Z'
    } else {
        (v[23] == '+' || v[23] == '-') && digit_at(&v, 24) && digit_at(&v, 25) && v[26] == ':'
            && digit_at(&v, 27) && digit_at(&v, 28)
    }
}

/// The first rule of the journal specification that `e` breaks, if any,
/// in the order: schema version, event type, entry id, capture time,
/// implementation, trigger source, interval.
pub open spec fn first_issue(e: JournalEvent) -> Option<ValidationIssue> {
    if e.schema_version != 1 {
        Some(ValidationIssue::SchemaVersion(e.schema_version))
    } else if e.event_type@ != word_submitted() {
        Some(ValidationIssue::EventType(e.event_type))
    } else if e.entry_id@.len() == 0 {
        Some(ValidationIssue::EmptyEntryId)
    } else if !timestamp_shape(e.captured_at@) {
        Some(ValidationIssue::CapturedAt(e.captured_at))
    } else if e.implementation@.len() == 0 {
        Some(ValidationIssue::EmptyImplementation)
    } else if e.trigger_source@ != word_timer() && e.trigger_source@ != word_manual() {
        Some(ValidationIssue::TriggerSource(e.trigger_source))
    } else if !positive_finite(e.next_interval_minutes.0) {
        Some(ValidationIssue::Interval(e.next_interval_minutes))
    } else {
        None
    }
}

/// Validate the required fields before a write.
pub fn validate_event(event: &JournalEvent) -> (r: Result<(), ValidationIssue>)
    ensures
        match first_issue(*event) {
            None => r is Ok,
            Some(i) => r is Err && (match (i, r->Err_0) {
                (ValidationIssue::EventType(a), ValidationIssue::EventType(b)) => a@ == b@,
                (ValidationIssue::TriggerSource(a), ValidationIssue::TriggerSource(b)) => a@ == b@,
                (ValidationIssue::CapturedAt(a), ValidationIssue::CapturedAt(b)) => a@ == b@,
                (a, b) => a == b,
            }),
        },
{
    if event.schema_version != 1 {
        return Err(ValidationIssue::SchemaVersion(event.schema_version));
    }
    let event_type = chars_of(event.event_type.as_str());
    if !chars_eq(event_type.as_slice(), &['s', 'u', 'b', 'm', 'i', 't', 't', 'e', 'd']) {
        return Err(ValidationIssue::EventType(event.event_type.clone()));
    }
    if chars_of(event.entry_id.as_str()).len() == 0 {
        return Err(ValidationIssue::EmptyEntryId);
    }
    if !has_timestamp_shape(event.captured_at.as_str()) {
        return Err(ValidationIssue::CapturedAt(event.captured_at.clone()));
    }
    if chars_of(event.implementation.as_str()).len() == 0 {
        return Err(ValidationIssue::EmptyImplementation);
    }
    let trigger = chars_of(event.trigger_source.as_str());
    if !chars_eq(trigger.as_slice(), &['t', 'i', 'm', 'e', 'r']) && !chars_eq(
        trigger.as_slice(),
        &['m', 'a', 'n', 'u', 'a', 'l'],
    ) {
        return Err(ValidationIssue::TriggerSource(event.trigger_source.clone()));
    }
    if !event.next_interval_minutes.is_positive_finite() {
        return Err(ValidationIssue::Interval(event.next_interval_minutes));
    }
    Ok(())
}

impl ValidationIssue {
    /// The detail text of the issue. `interval_text` is how the interval
    /// value prints (used only for `Interval`).
    pub fn detail(&self, interval_text: &str) -> (r: String)
        ensures
            r@ == self.detail_spec(interval_text@),
    {
        let mut out = String::new();
        match self {
            ValidationIssue::SchemaVersion(v) => {
                push_chars(
                    &mut out,
                    &[
                        's', 'c', 'h', 'e', 'm', 'a', '_', 'v', 'e', 'r', 's', 'i', 'o', 'n', ' ',
                        'm', 'u', 's', 't', ' ', 'b', 'e', ' ', '1', ',', ' ', 'g', 'o', 't', ' ',
                    ],
                );
                push_decimal(&mut out, *v as u64);
            },
            ValidationIssue::EventType(t) => {
                push_chars(
                    &mut out,
                    &[
                        'e', 'v', 'e', 'n', 't', '_', 't', 'y', 'p', 'e', ' ', 'm', 'u', 's', 't',
                        ' ', 'b', 'e', ' ', '\'', 's', 'u', 'b', 'm', 'i', 't', 't', 'e', 'd', '\'',
                        ',', ' ', 'g', 'o', 't', ' ', '\'',
                    ],
                );
                push_str(&mut out, t.as_str());
                push_chars(&mut out, &['\'']);
            },
            ValidationIssue::EmptyEntryId => {
                push_chars(
                    &mut out,
                    &[
                        'e', 'n', 't', 'r', 'y', '_', 'i', 'd', ' ', 'm', 'u', 's', 't', ' ', 'b',
                        'e', ' ', 'n', 'o', 'n', '-', 'e', 'm', 'p', 't', 'y',
                    ],
                );
            },
            ValidationIssue::CapturedAt(t) => {
                push_chars(
                    &mut out,
                    &[
                        'c', 'a', 'p', 't', 'u', 'r', 'e', 'd', '_', 'a', 't', ' ', 'm', 'u', 's',
                        't', ' ', 'i', 'n', 'c', 'l', 'u', 'd', 'e', ' ', 'o', 'f', 'f', 's', 'e',
                        't', ' ', 'a', 'n', 'd', ' ', 'm', 'i', 'l', 'l', 'i', 's', 'e', 'c', 'o',
                        'n', 'd', 's', ',', ' ', 'g', 'o', 't', ' ', '\'',
                    ],
                );
                push_str(&mut out, t.as_str());
                push_chars(&mut out, &['\'']);
            },
            ValidationIssue::EmptyImplementation => {
                push_chars(
                    &mut out,
                    &[
                        'i', 'm', 'p', 'l', 'e', 'm', 'e', 'n', 't', 'a', 't', 'i', 'o', 'n', ' ',
                        'm', 'u', 's', 't', ' ', 'b', 'e', ' ', 'n', 'o', 'n', '-', 'e', 'm', 'p',
                        't', 'y',
                    ],
                );
            },
            ValidationIssue::TriggerSource(t) => {
                push_chars(
                    &mut out,
                    &[
                        't', 'r', 'i', 'g', 'g', 'e', 'r', '_', 's', 'o', 'u', 'r', 'c', 'e', ' ',
                        'm', 'u', 's', 't', ' ', 'b', 'e', ' ', '\'', 't', 'i', 'm', 'e', 'r', '\'',
                        ' ', 'o', 'r', ' ', '\'', 'm', 'a', 'n', 'u', 'a', 'l', '\'', ',', ' ', 'g',
                        'o', 't', ' ', '\'',
                    ],
                );
                push_str(&mut out, t.as_str());
                push_chars(&mut out, &['\'']);
            },
            ValidationIssue::Interval(_) => {
                push_chars(
                    &mut out,
                    &[
                        'n', 'e', 'x', 't', '_', 'i', 'n', 't', 'e', 'r', 'v', 'a', 'l', '_', 'm',
                        'i', 'n', 'u', 't', 'e', 's', ' ', 'm', 'u', 's', 't', ' ', 'b', 'e', ' ',
                        '>', ' ', '0', ',', ' ', 'g', 'o', 't', ' ',
                    ],
                );
                push_str(&mut out, interval_text);
            },
        }
        out
    }

    pub open spec fn detail_spec(&self, interval_text: Seq<char>) -> Seq<char> {
        match self {
            ValidationIssue::SchemaVersion(v) => seq![
                's', 'c', 'h', 'e', 'm', 'a', '_', 'v', 'e', 'r', 's', 'i', 'o', 'n', ' ', 'm',
                'u', 's', 't', ' ', 'b', 'e', ' ', '1', ',', ' ', 'g', 'o', 't', ' ',
            ] + crate::text::decimal(*v as nat),
            ValidationIssue::EventType(t) => seq![
                'e', 'v', 'e', 'n', 't', '_', 't', 'y', 'p', 'e', ' ', 'm', 'u', 's', 't', ' ',
                'b', 'e', ' ', '\'', 's', 'u', 'b', 'm', 'i', 't', 't', 'e', 'd', '\'', ',', ' ',
                'g', 'o', 't', ' ', '\'',
            ] + t@ + seq!['\''],
            ValidationIssue::EmptyEntryId => seq![
                'e', 'n', 't', 'r', 'y', '_', 'i', 'd', ' ', 'm', 'u', 's', 't', ' ', 'b', 'e',
                ' ', 'n', 'o', 'n', '-', 'e', 'm', 'p', 't', 'y',
            ],
            ValidationIssue::CapturedAt(t) => seq![
                'c', 'a', 'p', 't', 'u', 'r', 'e', 'd', '_', 'a', 't', ' ', 'm', 'u', 's', 't',
                ' ', 'i', 'n', 'c', 'l', 'u', 'd', 'e', ' ', 'o', 'f', 'f', 's', 'e', 't', ' ',
                'a', 'n', 'd', ' ', 'm', 'i', 'l', 'l', 'i', 's', 'e', 'c', 'o', 'n', 'd', 's',
                ',', ' ', 'g', 'o', 't', ' ', '\'',
            ] + t@ + seq!['\''],
            ValidationIssue::EmptyImplementation => seq![
                'i', 'm', 'p', 'l', 'e', 'm', 'e', 'n', 't', 'a', 't', 'i', 'o', 'n', ' ', 'm',
                'u', 's', 't', ' ', 'b', 'e', ' ', 'n', 'o', 'n', '-', 'e', 'm', 'p', 't', 'y',
            ],
            ValidationIssue::TriggerSource(t) => seq![
                't', 'r', 'i', 'g', 'g', 'e', 'r', '_', 's', 'o', 'u', 'r', 'c', 'e', ' ', 'm',
                'u', 's', 't', ' ', 'b', 'e', ' ', '\'', 't', 'i', 'm', 'e', 'r', '\'', ' ', 'o',
                'r', ' ', '\'', 'm', 'a', 'n', 'u', 'a', 'l', '\'', ',', ' ', 'g', 'o', 't', ' ',
                '\'',
            ] + t@ + seq!['\''],
            ValidationIssue::Interval(_) => seq![
                'n', 'e', 'x', 't', '_', 'i', 'n', 't', 'e', 'r', 'v', 'a', 'l', '_', 'm', 'i',
                'n', 'u', 't', 'e', 's', ' ', 'm', 'u', 's', 't', ' ', 'b', 'e', ' ', '>', ' ',
                '0', ',', ' ', 'g', 'o', 't', ' ',
            ] + interval_text,
        }
    }
}

/// The Crockford base-32 alphabet a ULID is written in.
pub open spec fn crockford_char(c: char) -> bool {
    ('0' <= c <= '9') || ('A' <= c <= 'H') || c == 'J' || c == 'K' || c == 'M' || c == 'N' || (
    'P' <= c <= 'T') || ('V' <= c <= 'Z')
}

/// `ulid::Ulid`, carried through opaquely from its creation to its text.
#[verifier::external_type_specification]
#[verifier::external_body]
pub struct ExUlid(ulid::Ulid);

/// `Ulid::new`: a fresh identifier made from the clock and a random source;
/// nothing is promised of its value.
#[verifier::external_body]
fn ulid_new() -> ulid::Ulid {
    ulid::Ulid::new()
}

/// `Ulid::to_string`: the 26-character Crockford base-32 encoding.
#[verifier::external_body]
fn ulid_text(u: &ulid::Ulid) -> (r: String)
    ensures
        r@.len() == 26,
        forall|i: int| 0 <= i < r@.len() ==> crockford_char(#[trigger] r@[i]),
{
    u.to_string()
}

/// Create a v1 "submitted" event: the given capture time, trigger, texts and
/// interval, implementation "rust", and a fresh ULID as its entry id.
pub fn new_submitted_event(
    captured_at: String,
    trigger_source: &str,
    doing: String,
    bullshit: String,
    next_interval_minutes: FloatBits,
) -> (r: JournalEvent)
    ensures
        r.schema_version == 1,
        r.event_type@ == word_submitted(),
        r.entry_id@.len() == 26,
        forall|i: int| 0 <= i < r.entry_id@.len() ==> crockford_char(#[trigger] r.entry_id@[i]),
        r.captured_at == captured_at,
        r.implementation@ == word_rust(),
        r.trigger_source@ == trigger_source@,
        r.doing == doing,
        r.bullshit == bullshit,
        r.next_interval_minutes == next_interval_minutes,
{
    let id = ulid_new();
    let mut event_type = String::new();
    push_chars(&mut event_type, &['s', 'u', 'b', 'm', 'i', 't', 't', 'e', 'd']);
    let mut implementation = String::new();
    push_chars(&mut implementation, &['r', 'u', 's', 't']);
    JournalEvent {
        schema_version: 1,
        event_type,
        entry_id: ulid_text(&id),
        captured_at,
        implementation,
        trigger_source: owned(trigger_source),
        doing,
        bullshit,
        next_interval_minutes,
    }
}

/// An event made by `new_submitted_event` from a well-formed timestamp
/// passes validation exactly when its trigger is "timer" or "manual" and its
/// interval is a finite number above zero.
pub proof fn lemma_new_event_validates(e: JournalEvent)
    requires
        e.schema_version == 1,
        e.event_type@ == word_submitted(),
        e.entry_id@.len() == 26,
        e.implementation@ == word_rust(),
        timestamp_shape(e.captured_at@),
    ensures
        first_issue(e) is None <==> ((e.trigger_source@ == word_timer() || e.trigger_source@
            == word_manual()) && positive_finite(e.next_interval_minutes.0)),
{
}

/// The bytes appended for one event: its single-line JSON and a newline.
pub fn journal_line(serialized: &str) -> (r: String)
    ensures
        r@ == serialized@.push('\n'),
        (forall|i: int| 0 <= i < serialized@.len() ==> #[trigger] serialized@[i] != '\n') ==> (
        forall|i: int| 0 <= i < r@.len() - 1 ==> #[trigger] r@[i] != '\n'),
{
    let mut out = owned(serialized);
    out.push('\n');
    proof {
        assert forall|i: int| 0 <= i < out@.len() - 1 implies #[trigger] out@[i] == serialized@[i] by {
        }
    }
    out
}

/// The line to append for an event: the event is validated first (an
/// invalid event is refused with the rule it breaks, `interval_text` being
/// how its interval prints), then encoded by `serialize` as one JSON object
/// (a failure to encode is reported as a validation error with its detail),
/// and the line is that text and a newline.
pub fn encode_event<S: FnOnce(&JournalEvent) -> Result<String, String>>(
    event: &JournalEvent,
    interval_text: &str,
    serialize: S,
) -> (r: Result<String, JournalError>)
    requires
        serialize.requires((event,)),
    ensures
        match first_issue(*event) {
            Some(i) => r matches Err(JournalError::Validation { detail }) && detail@
                == i.detail_spec(interval_text@),
            None => exists|s: Result<String, String>|
                #[trigger] serialize.ensures((event,), s) && match s {
                    Ok(j) => r matches Ok(line) && line@ == j@.push('\n'),
                    Err(d) => r == Err::<String, JournalError>(JournalError::Validation { detail: d }),
                },
        },
{
    match validate_event(event) {
        Err(issue) => {
            proof {
                assert(first_issue(*event) is Some);
                let i = first_issue(*event)->Some_0;
                assert(i.detail_spec(interval_text@) == issue.detail_spec(interval_text@));
            }
            Err(JournalError::from_issue(&issue, interval_text))
        },
        Ok(()) => {
            let s = serialize(event);
            match s {
                Ok(j) => Ok(journal_line(j.as_str())),
                Err(d) => Err(JournalError::Validation { detail: d }),
            }
        },
    }
}

/// `<documents>/Nudge/journal-rust.ndjson`: each implementation writes its
/// own file so two of them never append to the same one.
pub open spec fn journal_path_spec(documents_dir: Seq<char>) -> Seq<char> {
    path_join(path_join(documents_dir, nudge_folder()), journal_file_name())
}

pub open spec fn journal_file_name() -> Seq<char> {
    seq!['j', 'o', 'u', 'r', 'n', 'a', 'l', '-', 'r', 'u', 's', 't', '.', 'n', 'd', 'j', 's', 'o', 'n']
}

/// The journal file under a documents folder.
pub fn journal_path(documents_dir: &str) -> (r: String)
    ensures
        r@ == journal_path_spec(documents_dir@),
        !verbatim_path(documents_dir@) ==> exists|d: Seq<char>|
            #[trigger] appended(documents_dir@, nudge_folder(), d) && (!verbatim_path(d)
                ==> appended(d, journal_file_name(), r@)),
{
    let nudge = string_of_range(&['N', 'u', 'd', 'g', 'e'], 0, 5);
    let file = string_of_range(
        &[
            'j', 'o', 'u', 'r', 'n', 'a', 'l', '-', 'r', 'u', 's', 't', '.', 'n', 'd', 'j', 's', 'o',
            'n',
        ],
        0,
        19,
    );
    proof {
        assert(nudge@ =~= nudge_folder());
        assert(file@ =~= journal_file_name());
        lemma_plain_names();
    }
    let dir = join_path(documents_dir, nudge.as_str());
    let r = join_path(dir.as_str(), file.as_str());
    assert(!verbatim_path(documents_dir@) ==> appended(documents_dir@, nudge_folder(), dir@));
    r
}

/// The journal file under the user's documents folder, or under `.` when
/// the platform has none.
pub fn resolve_default_journal_path() -> (r: String)
    ensures
        exists|d: Seq<char>| r@ == journal_path_spec(d),
{
    match document_dir() {
        Some(d) => journal_path(d.as_str()),
        None => {
            let dot = string_of_range(&['.'], 0, 1);
            assert(dot@ =~= seq!['.']);
            journal_path(dot.as_str())
        },
    }
}

/// On the web the journal is one stored text: a new line is joined to
/// what is stored with a newline, or stands alone when nothing (or an empty
/// text) is stored yet.
pub fn append_ndjson(existing: Option<&str>, line: &str) -> (r: String)
    ensures
        r@ == match existing {
            Some(data) => if data@.len() > 0 {
                data@ + seq!['\n'] + line@
            } else {
                line@
            },
            None => line@,
        },
{
    match existing {
        Some(data) => {
            if chars_of(data).len() > 0 {
                let mut out = owned(data);
                out.push('\n');
                push_str(&mut out, line);
                out
            } else {
                owned(line)
            }
        },
        None => owned(line),
    }
}

} // verus!
