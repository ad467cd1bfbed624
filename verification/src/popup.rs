//! The popup's state machine: the three fields, the timer, which trigger
//! opened the popup and whether it is on screen. The window, its drawing
//! and its input events are the application's; it reports what happened
//! (a key, a click outside the card, whether the window holds the OS
//! foreground) and carries out what these functions decide.
use vstd::prelude::*;
use crate::journal::{new_submitted_event, timestamp_shape, word_rust, word_submitted, JournalEvent};
use crate::nudge_state::{close_plan, decide_close, Action, CloseOutcome, TriggerSource};
use crate::number::FloatBits;
use crate::span::{nanos_per_sec, Span};
use crate::text::{
    decimal, digit_char, digit_value, is_ascii_digit, lemma_digit_char, padded, push_chars,
    push_decimal, push_padded,
};
use crate::timer::{clock_reading, Timer};
use crate::span::max_nanos;

verus! {

/// Framebuffer clear colour of the transparent popup window, as the bit
/// patterns of four `f32` (RGBA): all zero, fully transparent. Any alpha
/// above zero makes the compositor draw a grey box around the card.
pub const CLEAR_COLOR_TRANSPARENT: [u32; 4] = [0, 0, 0, 0];

/// Local time from `chrono::Local::now().to_rfc3339_opts(SecondsFormat::Millis,
/// false)`: chrono writes `YYYY-MM-DDTHH:MM:SS.mmm+HH:MM` (three fraction
/// digits, a numeric offset since `Z` is not allowed), except for a year
/// outside 0..=9999, which it writes with its sign first. Which instant and
/// which offset come out depends on the clock and the time zone and is not
/// stated.
#[verifier::external_body]
fn now_timestamp() -> (r: String)
    ensures
        (r@.len() == 29 && timestamp_shape(r@)) || (r@.len() > 0 && (r@[0] == '+' || r@[0]
            == '-')),
{
    chrono::Local::now().to_rfc3339_opts(chrono::SecondsFormat::Millis, false)
}

/// The popup and what it remembers between frames.
pub struct NudgeApp {
    /// "What am I doing?"
    pub doing: String,
    /// "Is it nonsense?"
    pub bullshit: String,
    /// The next interval in minutes, as typed.
    pub next_minutes: String,
    /// Put the keyboard focus on the first field at the next frame.
    pub focus_first: bool,
    /// The first frame has not run yet.
    pub center_once: bool,
    pub timer: Timer,
    /// What opened the popup this time.
    pub trigger_source: TriggerSource,
    pub popup_visible: bool,
    /// Shown under the fields: a rejected interval or a failed journal write.
    pub error_message: Option<String>,
    /// The popup held the OS foreground when it opened, so losing it closes
    /// the popup. When it did not (a fullscreen game kept the foreground),
    /// only Enter, Esc or a click outside the card close it.
    pub armed: bool,
}

impl NudgeApp {
    /// The popup at launch: on screen with empty text, the minutes field
    /// showing the default interval, and the timer frozen until the first
    /// close.
    pub fn new(default_minutes_text: String) -> (r: NudgeApp)
        ensures
            r.doing@.len() == 0,
            r.bullshit@.len() == 0,
            r.next_minutes == default_minutes_text,
            r.focus_first,
            r.center_once,
            r.timer.deadline_view() is None,
            r.trigger_source == TriggerSource::Timer,
            r.popup_visible,
            r.error_message is None,
            !r.armed,
    {
        NudgeApp {
            doing: String::new(),
            bullshit: String::new(),
            next_minutes: default_minutes_text,
            focus_first: true,
            center_once: true,
            timer: Timer::frozen(),
            trigger_source: TriggerSource::Timer,
            popup_visible: true,
            error_message: None,
            armed: false,
        }
    }

    /// The first frame: the popup shown at launch never went through
    /// `show_popup`, so it is armed here from whether it holds the
    /// foreground. Later frames change nothing.
    pub fn first_frame(&mut self, foreground: bool)
        ensures
            !final(self).center_once,
            final(self).armed == (if old(self).center_once && old(self).popup_visible {
                foreground
            } else {
                old(self).armed
            }),
            final(self).popup_visible == old(self).popup_visible,
            final(self).trigger_source == old(self).trigger_source,
            final(self).doing == old(self).doing,
            final(self).bullshit == old(self).bullshit,
            final(self).next_minutes == old(self).next_minutes,
            final(self).focus_first == old(self).focus_first,
            final(self).timer == old(self).timer,
            final(self).error_message == old(self).error_message,
    {
        if self.center_once {
            if self.popup_visible {
                self.armed = foreground;
            }
            self.center_once = false;
        }
    }

    /// Which source opens the popup after the tray's signals were taken: a
    /// tray click opens it as manual, else an expired timer opens it as
    /// timer-fired; nothing opens a popup that is already up.
    pub fn pending_show(&self, tray_clicked: bool, timer_fired: bool) -> (r: Option<TriggerSource>)
        ensures
            r == (if self.popup_visible {
                None
            } else if tray_clicked {
                Some(TriggerSource::Manual)
            } else if timer_fired {
                Some(TriggerSource::Timer)
            } else {
                None
            }),
    {
        if self.popup_visible {
            None
        } else if tray_clicked {
            Some(TriggerSource::Manual)
        } else if timer_fired {
            Some(TriggerSource::Timer)
        } else {
            None
        }
    }

    /// Open the popup for `source`. `foreground` tells whether the window
    /// got the OS foreground when it was brought up; it arms the
    /// focus-loss close for this opening.
    pub fn show_popup(&mut self, source: TriggerSource, foreground: bool)
        ensures
            final(self).trigger_source == source,
            final(self).popup_visible,
            final(self).focus_first,
            final(self).armed == foreground,
            final(self).doing == old(self).doing,
            final(self).bullshit == old(self).bullshit,
            final(self).next_minutes == old(self).next_minutes,
            final(self).center_once == old(self).center_once,
            final(self).timer == old(self).timer,
            final(self).error_message == old(self).error_message,
    {
        self.trigger_source = source;
        self.popup_visible = true;
        self.focus_first = true;
        self.armed = foreground;
    }

    /// Whether the first field should take the keyboard focus this frame;
    /// the request is consumed.
    pub fn take_focus_request(&mut self) -> (r: bool)
        ensures
            r == old(self).focus_first,
            !final(self).focus_first,
            final(self).popup_visible == old(self).popup_visible,
            final(self).armed == old(self).armed,
            final(self).trigger_source == old(self).trigger_source,
            final(self).doing == old(self).doing,
            final(self).bullshit == old(self).bullshit,
            final(self).next_minutes == old(self).next_minutes,
            final(self).center_once == old(self).center_once,
            final(self).timer == old(self).timer,
            final(self).error_message == old(self).error_message,
    {
        let r = self.focus_first;
        self.focus_first = false;
        r
    }

    /// How this frame's input closes the popup, if it does: Enter submits,
    /// Esc dismisses, a click outside the card or (when armed) the loss of
    /// the foreground switches away. A hidden popup reads no input.
    pub fn frame_action(&self, enter: bool, esc: bool, clicked_outside: bool, foreground: bool) -> (r:
        Option<Action>)
        ensures
            r == (if !self.popup_visible {
                None
            } else if enter {
                Some(Action::Submit)
            } else if esc {
                Some(Action::Dismiss)
            } else if clicked_outside || (self.armed && !foreground) {
                Some(Action::SwitchAway)
            } else {
                None
            }),
    {
        if !self.popup_visible {
            None
        } else if enter {
            Some(Action::Submit)
        } else if esc {
            Some(Action::Dismiss)
        } else if clicked_outside || (self.armed && !foreground) {
            Some(Action::SwitchAway)
        } else {
            None
        }
    }

    /// Start closing the popup with `action`: decide the close from the
    /// fields. `minutes_number` is the minutes field's trimmed text read as
    /// a double (`None` when it does not read as one).
    ///
    /// A Submit with an invalid interval does not close: its message is
    /// shown and `None` returned. Otherwise the plan is returned for the
    /// caller to carry out (journal write, then `finish_close`).
    pub fn begin_close(&mut self, action: Action, minutes_number: Option<FloatBits>) -> (r: Option<
        CloseOutcome,
    >)
        ensures
            match close_plan(
                old(self).trigger_source,
                action,
                old(self).doing@,
                old(self).bullshit@,
                old(self).next_minutes@,
                minutes_number,
            ) {
                Ok(o) => r == Some(o) && final(self).error_message == old(self).error_message,
                Err(input) => r is None && (final(self).error_message matches Some(m) && m@
                    == crate::nudge_state::interval_message(input)),
            },
            final(self).popup_visible == old(self).popup_visible,
            final(self).armed == old(self).armed,
            final(self).trigger_source == old(self).trigger_source,
            final(self).doing == old(self).doing,
            final(self).bullshit == old(self).bullshit,
            final(self).next_minutes == old(self).next_minutes,
            final(self).focus_first == old(self).focus_first,
            final(self).center_once == old(self).center_once,
            final(self).timer == old(self).timer,
    {
        match decide_close(
            self.trigger_source,
            action,
            self.doing.as_str(),
            self.bullshit.as_str(),
            self.next_minutes.as_str(),
            minutes_number,
        ) {
            Ok(o) => Some(o),
            Err(e) => {
                self.error_message = Some(e.message());
                None
            },
        }
    }

    /// The journal event for a submitted close: the two fields, the trigger
    /// that opened the popup, the chosen interval in minutes, stamped with
    /// the local time.
    pub fn journal_event(&self, minutes: FloatBits) -> (r: JournalEvent)
        ensures
            r.schema_version == 1,
            r.event_type@ == word_submitted(),
            r.entry_id@.len() == 26,
            r.implementation@ == word_rust(),
            timestamp_shape(r.captured_at@) || (r.captured_at@.len() > 0 && (r.captured_at@[0]
                == '+' || r.captured_at@[0] == '-')),
            r.trigger_source@ == self.trigger_source.token(),
            r.doing == self.doing,
            r.bullshit == self.bullshit,
            r.next_interval_minutes == minutes,
    {
        new_submitted_event(
            now_timestamp(),
            self.trigger_source.as_str(),
            self.doing.clone(),
            self.bullshit.clone(),
            minutes,
        )
    }

    /// The journal write failed: show why and stay open, with the timer
    /// and the fields untouched.
    pub fn fail_close(&mut self, message: String)
        ensures
            final(self).error_message == Some(message),
            final(self).popup_visible == old(self).popup_visible,
            final(self).armed == old(self).armed,
            final(self).trigger_source == old(self).trigger_source,
            final(self).doing == old(self).doing,
            final(self).bullshit == old(self).bullshit,
            final(self).next_minutes == old(self).next_minutes,
            final(self).focus_first == old(self).focus_first,
            final(self).center_once == old(self).center_once,
            final(self).timer == old(self).timer,
    {
        self.error_message = Some(message);
    }

    /// Finish closing with `outcome` at the clock's current reading, as
    /// `finish_close_at` does. Which reading the clock gives is not known
    /// here; everything else follows from it.
    pub fn finish_close(&mut self, outcome: &CloseOutcome, interval: Span) -> (r: bool)
        ensures
            exists|n: nat| #[trigger]
                clock_reading(n) && close_finished(*old(self), *final(self), *outcome, interval, n, r),
    {
        let now = self.timer.now();
        let r = self.finish_close_at(outcome, interval, now);
        r
    }

    /// Finish closing with `outcome` at the clock reading `now`: clear the
    /// message, restart the timer with `interval` from `now` when the
    /// outcome resets it (unless the deadline would lie past the range of
    /// spans), clear the text fields when it says so, and hide (disarmed,
    /// focus on the first field at the next show). Returns whether the timer
    /// restarted.
    pub fn finish_close_at(&mut self, outcome: &CloseOutcome, interval: Span, now: Span) -> (r: bool)
        ensures
            close_finished(*old(self), *final(self), *outcome, interval, now@, r),
    {
        self.error_message = None;
        let mut reset = false;
        if outcome.reset_timer.is_some() {
            reset = self.timer.try_reset_at(now, interval);
        }
        if outcome.clear_form {
            self.doing = String::new();
            self.bullshit = String::new();
        }
        self.focus_first = true;
        self.popup_visible = false;
        self.armed = false;
        reset
    }
}

/// What finishing a close with `outcome` at clock reading `now` does:
/// `before` becomes `after` and `r` is returned.
pub open spec fn close_finished(
    before: NudgeApp,
    after: NudgeApp,
    outcome: CloseOutcome,
    interval: Span,
    now: nat,
    r: bool,
) -> bool {
    &&& after.error_message is None
    &&& !after.popup_visible
    &&& !after.armed
    &&& after.focus_first
    &&& r == (outcome.reset_timer is Some && now + interval@ <= max_nanos())
    &&& r ==> after.timer.deadline_view() == Some(now + interval@) && after.timer.origin_view()
        == before.timer.origin_view()
    &&& !r ==> after.timer == before.timer
    &&& outcome.clear_form ==> after.doing@.len() == 0 && after.bullshit@.len() == 0
    &&& !outcome.clear_form ==> after.doing == before.doing && after.bullshit == before.bullshit
    &&& after.next_minutes == before.next_minutes
    &&& after.trigger_source == before.trigger_source
    &&& after.center_once == before.center_once
}

/// The pill's countdown on the web, `M:SS`: whole minutes, then seconds
/// with two digits.
pub open spec fn pill_spec(secs: nat) -> Seq<char> {
    decimal(secs / 60) + seq![':'] + padded(secs % 60, 2)
}

/// The label of the countdown pill for the time left.
pub fn pill_label(remaining: Span) -> (r: String)
    ensures
        r@ == pill_spec(remaining@ / nanos_per_sec()),
{
    let secs = remaining.as_secs();
    let mut out = String::new();
    push_decimal(&mut out, secs / 60);
    push_chars(&mut out, &[':']);
    push_padded(&mut out, secs % 60, 2);
    out
}

/// `{year}-{MM}-{DD}T{hh}:{mm}:{ss}.{mmm}{±}{HH}:{MM}`, the journal's
/// capture time as the web build writes it from the browser's local date
/// parts; the month is counted from 0 as the browser reports it, and the
/// offset is in minutes east of UTC.
pub open spec fn timestamp_spec(
    year: nat,
    month0: nat,
    day: nat,
    hour: nat,
    minute: nat,
    second: nat,
    millis: nat,
    offset_east: int,
) -> Seq<char> {
    let off = if offset_east >= 0 {
        offset_east
    } else {
        -offset_east
    };
    decimal(year) + seq!['-'] + padded(month0 + 1, 2) + seq!['-'] + padded(day, 2) + seq!['T']
        + padded(hour, 2) + seq![':'] + padded(minute, 2) + seq![':'] + padded(second, 2) + seq![
        '.',
    ] + padded(millis, 3) + seq![
        if offset_east >= 0 {
            '+'
        } else {
            '-'
        },
    ] + padded((off / 60) as nat, 2) + seq![':'] + padded((off % 60) as nat, 2)
}

proof fn lemma_two_digits(n: nat)
    requires
        n < 100,
    ensures
        padded(n, 2) == seq![digit_char(n / 10), digit_char(n % 10)],
        padded(n, 2) == two_chars(n),
        padded(n, 2).len() == 2,
        is_ascii_digit(padded(n, 2)[0]) && is_ascii_digit(padded(n, 2)[1]),
        digit_value(padded(n, 2)[0]) * 10 + digit_value(padded(n, 2)[1]) == n,
{
    reveal_with_fuel(decimal, 2);
    lemma_digit_char(n % 10);
    lemma_digit_char(n / 10);
    if n < 10 {
        assert(padded(n, 2) =~= seq!['0', digit_char(n)]);
    } else {
        assert(decimal(n) =~= seq![digit_char(n / 10), digit_char(n % 10)]);
    }
    assert(padded(n, 2) =~= seq![digit_char(n / 10), digit_char(n % 10)]);
}

proof fn lemma_three_digits(n: nat)
    requires
        n < 1000,
    ensures
        padded(n, 3) == seq![digit_char(n / 100), digit_char((n / 10) % 10), digit_char(n % 10)],
{
    reveal_with_fuel(decimal, 3);
    if n < 10 {
        assert(padded(n, 3) =~= seq!['0', '0', digit_char(n)]);
    } else if n < 100 {
        assert(decimal(n) =~= seq![digit_char(n / 10), digit_char(n % 10)]);
        assert(padded(n, 3) =~= seq!['0', digit_char(n / 10), digit_char(n % 10)]);
    } else {
        assert(decimal(n / 10) =~= seq![digit_char(n / 100), digit_char((n / 10) % 10)]);
        assert(decimal(n) =~= seq![digit_char(n / 100), digit_char((n / 10) % 10), digit_char(n % 10)]);
    }
    assert(padded(n, 3) =~= seq![digit_char(n / 100), digit_char((n / 10) % 10), digit_char(n % 10)]);
}

proof fn lemma_four_digits(n: nat)
    requires
        1000 <= n <= 9999,
    ensures
        decimal(n) == seq![
            digit_char(n / 1000),
            digit_char((n / 100) % 10),
            digit_char((n / 10) % 10),
            digit_char(n % 10),
        ],
{
    reveal_with_fuel(decimal, 4);
    assert(decimal(n / 100) =~= seq![digit_char(n / 1000), digit_char((n / 100) % 10)]);
    assert(decimal(n / 10) =~= seq![digit_char(n / 1000), digit_char((n / 100) % 10), digit_char((n / 10) % 10)]);
    assert(decimal(n) =~= seq![
        digit_char(n / 1000),
        digit_char((n / 100) % 10),
        digit_char((n / 10) % 10),
        digit_char(n % 10),
    ]);
}

/// The number written by the two digits at `a` and `a + 1`.
pub open spec fn two_digit_value(t: Seq<char>, a: int) -> nat {
    digit_value(t[a]) * 10 + digit_value(t[a + 1])
}

spec fn two_chars(n: nat) -> Seq<char> {
    seq![digit_char(n / 10), digit_char(n % 10)]
}

spec fn stamp_chars(
    year: nat,
    month0: nat,
    day: nat,
    hour: nat,
    minute: nat,
    second: nat,
    millis: nat,
    sign: char,
    h: nat,
    m: nat,
) -> Seq<char> {
    seq![
        digit_char(year / 1000),
        digit_char((year / 100) % 10),
        digit_char((year / 10) % 10),
        digit_char(year % 10),
    ] + seq!['-'] + two_chars(month0 + 1) + seq!['-'] + two_chars(day) + seq!['T'] + two_chars(
        hour,
    ) + seq![':'] + two_chars(minute) + seq![':'] + two_chars(second) + seq!['.'] + seq![
        digit_char(millis / 100),
        digit_char((millis / 10) % 10),
        digit_char(millis % 10),
    ] + seq![sign] + two_chars(h) + seq![':'] + two_chars(m)
}

#[verifier::spinoff_prover]
#[verifier::rlimit(40)]
proof fn lemma_stamp_layout(
    year: nat,
    month0: nat,
    day: nat,
    hour: nat,
    minute: nat,
    second: nat,
    millis: nat,
    offset_east: int,
)
    requires
        1000 <= year <= 9999,
        month0 + 1 < 100,
        day < 100,
        hour < 100,
        minute < 100,
        second < 100,
        millis < 1000,
        -6000 < offset_east < 6000,
    ensures
        ({
            let off: int = if offset_east >= 0 {
                offset_east
            } else {
                -offset_east
            };
            timestamp_spec(year, month0, day, hour, minute, second, millis, offset_east)
                == stamp_chars(
                year,
                month0,
                day,
                hour,
                minute,
                second,
                millis,
                if offset_east >= 0 {
                    '+'
                } else {
                    '-'
                },
                (off / 60) as nat,
                (off % 60) as nat,
            )
        }),
{
    let off: int = if offset_east >= 0 {
        offset_east
    } else {
        -offset_east
    };
    lemma_four_digits(year);
    lemma_two_digits(month0 + 1);
    lemma_two_digits(day);
    lemma_two_digits(hour);
    lemma_two_digits(minute);
    lemma_two_digits(second);
    lemma_three_digits(millis);
    lemma_two_digits((off / 60) as nat);
    lemma_two_digits((off % 60) as nat);
}

#[verifier::spinoff_prover]
#[verifier::rlimit(40)]
proof fn lemma_stamp_chars_read(
    year: nat,
    month0: nat,
    day: nat,
    hour: nat,
    minute: nat,
    second: nat,
    millis: nat,
    sign: char,
    h: nat,
    m: nat,
)
    requires
        1000 <= year <= 9999,
        month0 + 1 < 100,
        day < 100,
        hour < 100,
        minute < 100,
        second < 100,
        millis < 1000,
        h < 100,
        m < 60,
        sign == '+' || sign == '-',
    ensures
        ({
            let t = stamp_chars(year, month0, day, hour, minute, second, millis, sign, h, m);
            &&& t.len() == 29
            &&& crate::journal::timestamp_shape(t)
            &&& digit_value(t[0]) * 1000 + digit_value(t[1]) * 100 + digit_value(t[2]) * 10
                + digit_value(t[3]) == year
            &&& two_digit_value(t, 5) == month0 + 1
            &&& two_digit_value(t, 8) == day
            &&& two_digit_value(t, 11) == hour
            &&& two_digit_value(t, 14) == minute
            &&& two_digit_value(t, 17) == second
            &&& digit_value(t[20]) * 100 + digit_value(t[21]) * 10 + digit_value(t[22]) == millis
            &&& t[23] == sign
            &&& two_digit_value(t, 24) == h
            &&& two_digit_value(t, 27) == m
        }),
{
    let t = stamp_chars(year, month0, day, hour, minute, second, millis, sign, h, m);
    assert forall|x: nat| x < 10 implies #[trigger] is_ascii_digit(digit_char(x)) && digit_value(
        digit_char(x),
    ) == x by {
        lemma_digit_char(x);
    }
    assert(t[0] == digit_char(year / 1000));
    assert(t[1] == digit_char((year / 100) % 10));
    assert(t[2] == digit_char((year / 10) % 10));
    assert(t[3] == digit_char(year % 10));
    assert(t[5] == digit_char((month0 + 1) / 10) && t[6] == digit_char((month0 + 1) % 10));
    assert(t[8] == digit_char(day / 10) && t[9] == digit_char(day % 10));
    assert(t[11] == digit_char(hour / 10) && t[12] == digit_char(hour % 10));
    assert(t[14] == digit_char(minute / 10) && t[15] == digit_char(minute % 10));
    assert(t[17] == digit_char(second / 10) && t[18] == digit_char(second % 10));
    assert(t[20] == digit_char(millis / 100));
    assert(t[21] == digit_char((millis / 10) % 10));
    assert(t[22] == digit_char(millis % 10));
    assert(t[24] == digit_char(h / 10) && t[25] == digit_char(h % 10));
    assert(t[27] == digit_char(m / 10) && t[28] == digit_char(m % 10));
    assert(year / 1000 < 10 && (year / 100) % 10 < 10 && (year / 10) % 10 < 10 && year % 10 < 10);
    assert(year / 1000 * 1000 + (year / 100) % 10 * 100 + (year / 10) % 10 * 10 + year % 10
        == year) by (nonlinear_arith)
        requires
            1000 <= year <= 9999,
    ;
    assert(millis / 100 * 100 + (millis / 10) % 10 * 10 + millis % 10 == millis) by (
    nonlinear_arith)
        requires
            millis < 1000,
    ;
}

/// A timestamp of a year from 1000 to 9999 and two-digit fields is exactly
/// the journal's form (`YYYY-MM-DDTHH:MM:SS.mmm+HH:MM`), and each field reads
/// back as what it was made from: the year, the month counted from one, the
/// day, hour, minute, second and milliseconds, and the offset in hours and
/// minutes.
pub proof fn lemma_timestamp_fields(
    year: nat,
    month0: nat,
    day: nat,
    hour: nat,
    minute: nat,
    second: nat,
    millis: nat,
    offset_east: int,
)
    requires
        1000 <= year <= 9999,
        month0 + 1 < 100,
        day < 100,
        hour < 100,
        minute < 100,
        second < 100,
        millis < 1000,
        -6000 < offset_east < 6000,
    ensures
        ({
            let t = timestamp_spec(year, month0, day, hour, minute, second, millis, offset_east);
            &&& t.len() == 29
            &&& crate::journal::timestamp_shape(t)
            &&& digit_value(t[0]) * 1000 + digit_value(t[1]) * 100 + digit_value(t[2]) * 10
                + digit_value(t[3]) == year
            &&& two_digit_value(t, 5) == month0 + 1
            &&& two_digit_value(t, 8) == day
            &&& two_digit_value(t, 11) == hour
            &&& two_digit_value(t, 14) == minute
            &&& two_digit_value(t, 17) == second
            &&& digit_value(t[20]) * 100 + digit_value(t[21]) * 10 + digit_value(t[22]) == millis
            &&& (t[23] == '+') == (offset_east >= 0)
            &&& two_digit_value(t, 27) < 60
            &&& two_digit_value(t, 24) * 60 + two_digit_value(t, 27) == if offset_east >= 0 {
                offset_east
            } else {
                -offset_east
            }
        }),
{
    let off: int = if offset_east >= 0 {
        offset_east
    } else {
        -offset_east
    };
    let sign = if offset_east >= 0 {
        '+'
    } else {
        '-'
    };
    let h = (off / 60) as nat;
    let m = (off % 60) as nat;
    lemma_stamp_layout(year, month0, day, hour, minute, second, millis, offset_east);
    lemma_stamp_chars_read(year, month0, day, hour, minute, second, millis, sign, h, m);
    assert(h * 60 + m == off);
}

/// The offset closing a timestamp is the given one: its sign is `+` exactly
/// for an offset east of UTC (or zero), and its hours and minutes, read
/// back, make up the offset's size in minutes, minutes below 60. (Offsets
/// of 100 hours or more would need a third hour digit.)
pub proof fn lemma_timestamp_offset(
    year: nat,
    month0: nat,
    day: nat,
    hour: nat,
    minute: nat,
    second: nat,
    millis: nat,
    offset_east: int,
)
    requires
        -6000 < offset_east < 6000,
    ensures
        ({
            let t = timestamp_spec(year, month0, day, hour, minute, second, millis, offset_east);
            let k = t.len() - 6;
            &&& t.len() >= 6
            &&& (t[k] == '+') == (offset_east >= 0)
            &&& t[k] == '+' || t[k] == '-'
            &&& t[k + 3] == ':'
            &&& is_ascii_digit(t[k + 1]) && is_ascii_digit(t[k + 2])
            &&& is_ascii_digit(t[k + 4]) && is_ascii_digit(t[k + 5])
            &&& digit_value(t[k + 4]) * 10 + digit_value(t[k + 5]) < 60
            &&& (digit_value(t[k + 1]) * 10 + digit_value(t[k + 2])) * 60 + digit_value(t[k + 4]) * 10
                + digit_value(t[k + 5]) == if offset_east >= 0 {
                offset_east
            } else {
                -offset_east
            }
        }),
{
    let off: int = if offset_east >= 0 {
        offset_east
    } else {
        -offset_east
    };
    let h = (off / 60) as nat;
    let m = (off % 60) as nat;
    lemma_two_digits(h);
    lemma_two_digits(m);
    let head = decimal(year) + seq!['-'] + padded(month0 + 1, 2) + seq!['-'] + padded(day, 2)
        + seq!['T'] + padded(hour, 2) + seq![':'] + padded(minute, 2) + seq![':'] + padded(
        second,
        2,
    ) + seq!['.'] + padded(millis, 3);
    let sign = if offset_east >= 0 {
        '+'
    } else {
        '-'
    };
    let tail = seq![sign] + padded(h, 2) + seq![':'] + padded(m, 2);
    let t = timestamp_spec(year, month0, day, hour, minute, second, millis, offset_east);
    assert(t == head + tail);
    assert(tail =~= seq![sign, padded(h, 2)[0], padded(h, 2)[1], ':', padded(m, 2)[0], padded(m, 2)[1]]);
    let k = t.len() - 6;
    assert(t[k] == tail[0]);
    assert(t[k + 1] == tail[1]);
    assert(t[k + 2] == tail[2]);
    assert(t[k + 3] == tail[3]);
    assert(t[k + 4] == tail[4]);
    assert(t[k + 5] == tail[5]);
    assert(h * 60 + m == off);
}

/// Format the local date parts as an RFC 3339 timestamp with milliseconds
/// and a numeric offset.
pub fn timestamp_text(
    year: u32,
    month0: u32,
    day: u32,
    hour: u32,
    minute: u32,
    second: u32,
    millis: u32,
    offset_east: i32,
) -> (r: String)
    requires
        month0 < u32::MAX,
        offset_east > i32::MIN,
    ensures
        r@ == timestamp_spec(
            year as nat,
            month0 as nat,
            day as nat,
            hour as nat,
            minute as nat,
            second as nat,
            millis as nat,
            offset_east as int,
        ),
{
    let off: u64 = if offset_east >= 0 {
        offset_east as u64
    } else {
        (-offset_east) as u64
    };
    let mut out = String::new();
    push_decimal(&mut out, year as u64);
    push_chars(&mut out, &['-']);
    push_padded(&mut out, (month0 + 1) as u64, 2);
    push_chars(&mut out, &['-']);
    push_padded(&mut out, day as u64, 2);
    push_chars(&mut out, &['T']);
    push_padded(&mut out, hour as u64, 2);
    push_chars(&mut out, &[':']);
    push_padded(&mut out, minute as u64, 2);
    push_chars(&mut out, &[':']);
    push_padded(&mut out, second as u64, 2);
    push_chars(&mut out, &['.']);
    push_padded(&mut out, millis as u64, 3);
    if offset_east >= 0 {
        push_chars(&mut out, &['+']);
    } else {
        push_chars(&mut out, &['-']);
    }
    push_padded(&mut out, off / 60, 2);
    push_chars(&mut out, &[':']);
    push_padded(&mut out, off % 60, 2);
    out
}

} // verus!
