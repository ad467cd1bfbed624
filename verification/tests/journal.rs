use nudge::journal::append_ndjson;
use nudge::journal::{encode_event, JournalError};
use nudge::journal::{
    has_timestamp_shape, journal_line, journal_path, new_submitted_event, validate_event, JournalEvent, ValidationIssue,
};
use nudge::number::FloatBits;

fn bits(f: f64) -> FloatBits {
    FloatBits(f.to_bits())
}

fn test_event() -> JournalEvent {
    new_submitted_event(
        "2026-04-17T14:30:00.000+02:00".to_string(),
        "timer",
        "writing tests".to_string(),
        "no".to_string(),
        bits(10.0),
    )
}

#[test]
fn valid_event_passes() {
    assert!(validate_event(&test_event()).is_ok());
}

#[test]
fn rejects_bad_schema_version() {
    let mut e = test_event();
    e.schema_version = 2;
    assert!(validate_event(&e).is_err());
}

#[test]
fn rejects_bad_event_type() {
    let mut e = test_event();
    e.event_type = "dismissed".to_string();
    assert!(validate_event(&e).is_err());
}

#[test]
fn rejects_empty_entry_id() {
    let mut e = test_event();
    e.entry_id = String::new();
    assert!(validate_event(&e).is_err());
}

#[test]
fn rejects_bad_trigger_source() {
    let mut e = test_event();
    e.trigger_source = "auto".to_string();
    assert!(validate_event(&e).is_err());
}

#[test]
fn rejects_zero_interval() {
    let mut e = test_event();
    e.next_interval_minutes = bits(0.0);
    assert!(validate_event(&e).is_err());
}

#[test]
fn rejects_negative_interval() {
    let mut e = test_event();
    e.next_interval_minutes = bits(-5.0);
    assert!(validate_event(&e).is_err());
}

#[test]
fn rejects_nan_interval() {
    let mut e = test_event();
    e.next_interval_minutes = bits(f64::NAN);
    assert!(validate_event(&e).is_err());
}

// ---- further cases -------------------------------------------

#[test]
fn new_event_has_the_fixed_fields_and_a_ulid() {
    let e = test_event();
    assert_eq!(e.schema_version, 1);
    assert_eq!(e.event_type, "submitted");
    assert_eq!(e.implementation, "rust");
    assert_eq!(e.trigger_source, "timer");
    assert_eq!(e.captured_at, "2026-04-17T14:30:00.000+02:00");
    assert_eq!(e.entry_id.len(), 26);
    assert!(e.entry_id.chars().all(|c| c.is_ascii_digit() || c.is_ascii_uppercase()));
    assert_ne!(test_event().entry_id, "");
}

#[test]
fn each_issue_is_reported_with_its_detail() {
    let mut e = test_event();
    e.schema_version = 3;
    assert_eq!(validate_event(&e), Err(ValidationIssue::SchemaVersion(3)));
    assert_eq!(ValidationIssue::SchemaVersion(3).detail(""), "schema_version must be 1, got 3");

    let mut e = test_event();
    e.trigger_source = "auto".to_string();
    let issue = validate_event(&e).unwrap_err();
    assert_eq!(issue, ValidationIssue::TriggerSource("auto".to_string()));
    assert_eq!(issue.detail(""), "trigger_source must be 'timer' or 'manual', got 'auto'");

    let mut e = test_event();
    e.implementation = String::new();
    assert_eq!(validate_event(&e), Err(ValidationIssue::EmptyImplementation));

    let mut e = test_event();
    e.next_interval_minutes = bits(f64::INFINITY);
    assert_eq!(validate_event(&e), Err(ValidationIssue::Interval(bits(f64::INFINITY))));
    assert_eq!(
        ValidationIssue::Interval(bits(0.0)).detail("0"),
        "next_interval_minutes must be > 0, got 0"
    );
}

#[test]
fn manual_events_validate() {
    let e = new_submitted_event(
        "2026-04-17T12:30:00.125Z".to_string(),
        "manual",
        "a".to_string(),
        "b".to_string(),
        bits(0.5),
    );
    assert!(validate_event(&e).is_ok());
}

#[test]
fn captured_at_needs_milliseconds_and_an_offset() {
    for good in ["2026-04-17T14:30:00.000+02:00", "2026-04-17T12:30:00.125Z", "1999-12-31T23:59:59.999-05:30"] {
        assert!(has_timestamp_shape(good), "{good}");
    }
    for bad in [
        "",
        "2026-04-17T14:30:00+02:00",
        "2026-04-17T14:30:00.000",
        "2026-04-17T14:30:00.00Z",
        "2026-04-17T14:30:00.0000Z",
        "2026-04-17 14:30:00.000Z",
        "2026-04-17T14:30:00.000+0200",
        "+10000-01-01T00:00:00.000+00:00",
    ] {
        assert!(!has_timestamp_shape(bad), "{bad}");
    }
    let mut e = test_event();
    e.captured_at = "2026-04-17T14:30:00+02:00".to_string();
    let issue = validate_event(&e).unwrap_err();
    assert_eq!(issue, ValidationIssue::CapturedAt("2026-04-17T14:30:00+02:00".to_string()));
    assert_eq!(
        issue.detail(""),
        "captured_at must include offset and milliseconds, got '2026-04-17T14:30:00+02:00'"
    );
    // the entry id is checked before the capture time
    e.entry_id = String::new();
    assert_eq!(validate_event(&e), Err(ValidationIssue::EmptyEntryId));
}

#[test]
fn journal_line_appends_newline() {
    assert_eq!(journal_line("{\"a\":1}"), "{\"a\":1}\n");
}

#[test]
fn journal_file_under_documents_nudge() {
    assert_eq!(journal_path("/d"), "/d/Nudge/journal-rust.ndjson");
}

#[test]
fn web_journal_joins_lines_with_newlines() {
    assert_eq!(append_ndjson(None, "{\"a\":1}"), "{\"a\":1}");
    assert_eq!(append_ndjson(Some(""), "{\"a\":1}"), "{\"a\":1}");
    assert_eq!(append_ndjson(Some("{\"a\":1}"), "{\"b\":2}"), "{\"a\":1}\n{\"b\":2}");
}

#[test]
fn journal_error_messages() {
    let e = JournalError::from_issue(&ValidationIssue::EmptyEntryId, "");
    assert_eq!(e, JournalError::Validation { detail: "entry_id must be non-empty".to_string() });
    assert_eq!(e.message(), "Journal validation: entry_id must be non-empty");
    let io = JournalError::Io { path: "/j".to_string(), detail: "denied".to_string() };
    assert_eq!(io.message(), "Journal I/O (/j): denied");
}

#[test]
fn encoding_validates_before_serializing() {
    let mut e = test_event();
    e.next_interval_minutes = bits(-1.0);
    let r = encode_event(&e, "-1", |_e: &JournalEvent| -> Result<String, String> {
        panic!("must not encode an invalid event")
    });
    assert_eq!(
        r,
        Err(JournalError::Validation { detail: "next_interval_minutes must be > 0, got -1".to_string() })
    );
    let ok = encode_event(&test_event(), "10", |_e: &JournalEvent| Ok("{\"x\":1}".to_string()));
    assert_eq!(ok, Ok("{\"x\":1}\n".to_string()));
    let bad = encode_event(&test_event(), "10", |_e: &JournalEvent| Err("boom".to_string()));
    assert_eq!(bad, Err(JournalError::Validation { detail: "boom".to_string() }));
}

#[test]
fn write_failure_on_validation() {
    let mut e = test_event();
    e.next_interval_minutes = bits(0.0);
    let result = encode_event(&e, "0", |_e: &JournalEvent| -> Result<String, String> {
        panic!("an invalid event is never encoded, so nothing reaches the file")
    });
    assert!(result.is_err());
}
