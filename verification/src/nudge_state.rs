//! The popup's close decision and the small pure rules around the timer:
//! interval parsing, the tray tooltip, the repaint cadence and the window
//! anchor.
use vstd::prelude::*;
use crate::number::{FloatBits, positive_finite, ten_bits};
use crate::span::{Span, nanos_per_sec};
use crate::text::{all_white_space, decimal, is_blank, push_chars, push_decimal, push_str, trim, trim_str};

verus! {

#[derive(Debug, Clone, Copy, PartialEq, Eq, Structural)]
pub enum TriggerSource {
    Timer,
    Manual,
}

impl TriggerSource {
    /// The journal token for this source: "timer" or "manual".
    pub fn as_str(&self) -> (r: &'static str)
        ensures
            r@ == self.token(),
    {
        proof {
            reveal_strlit("timer");
            reveal_strlit("manual");
        }
        match self {
            TriggerSource::Timer => "timer",
            TriggerSource::Manual => "manual",
        }
    }

    pub open spec fn token(&self) -> Seq<char> {
        match self {
            TriggerSource::Timer => seq!['t', 'i', 'm', 'e', 'r'],
            TriggerSource::Manual => seq!['m', 'a', 'n', 'u', 'a', 'l'],
        }
    }
}

#[derive(Debug, Clone, Copy, PartialEq, Eq, Structural)]
pub enum Action {
    Submit,
    Dismiss,
    /// The user looked away (clicked outside the card or focused another
    /// window): hide the popup and restart the timer, but keep the text so
    /// the next open resumes where the user left off.
    SwitchAway,
}

/// The full plan for closing the popup. The caller writes the journal iff
/// `write_journal`, resets the timer to `reset_timer` (in minutes) when it is
/// `Some`, and clears the text fields iff `clear_form`.
#[derive(Debug, Clone, Copy, PartialEq, Eq, Structural)]
pub struct CloseOutcome {
    /// Append a journal entry: only Submit with at least one non-blank text
    /// field; an empty Submit just changes the interval.
    pub write_journal: bool,
    /// Reset the timer to this many minutes, or `None` to leave it ticking.
    pub reset_timer: Option<FloatBits>,
    /// Clear `doing` / `bullshit`: only Submit.
    pub clear_form: bool,
}

/// An explicitly typed interval that is not a finite positive number.
#[derive(Debug, Clone, PartialEq, Eq)]
pub struct IntervalError {
    pub input: String,
}

impl IntervalError {
    /// "Interval must be a positive number of minutes (got "<input>")".
    pub fn message(&self) -> (r: String)
        ensures
            r@ == interval_message(self.input@),
    {
        let mut out = String::new();
        push_chars(
            &mut out,
            &[
                'I', 'n', 't', 'e', 'r', 'v', 'a', 'l', ' ', 'm', 'u', 's', 't', ' ', 'b', 'e', ' ',
                'a', ' ', 'p', 'o', 's', 'i', 't', 'i', 'v', 'e', ' ', 'n', 'u', 'm', 'b', 'e', 'r',
                ' ', 'o', 'f', ' ', 'm', 'i', 'n', 'u', 't', 'e', 's', ' ', '(', 'g', 'o', 't', ' ',
                '"',
            ],
        );
        push_str(&mut out, self.input.as_str());
        push_chars(&mut out, &['"', ')']);
        out
    }
}

pub open spec fn interval_message(input: Seq<char>) -> Seq<char> {
    seq![
        'I', 'n', 't', 'e', 'r', 'v', 'a', 'l', ' ', 'm', 'u', 's', 't', ' ', 'b', 'e', ' ', 'a',
        ' ', 'p', 'o', 's', 'i', 't', 'i', 'v', 'e', ' ', 'n', 'u', 'm', 'b', 'e', 'r', ' ', 'o',
        'f', ' ', 'm', 'i', 'n', 'u', 't', 'e', 's', ' ', '(', 'g', 'o', 't', ' ', '"',
    ] + input + seq!['"', ')']
}

/// The interval a minutes field asks for: the default 10 minutes when the
/// trimmed text is not a number, the number when it is finite and positive,
/// otherwise an error naming the trimmed text.
pub open spec fn interval_choice(text: Seq<char>, number: Option<FloatBits>) -> Result<
    FloatBits,
    Seq<char>,
> {
    match number {
        None => Ok(FloatBits(ten_bits())),
        Some(b) => if positive_finite(b.0) {
            Ok(b)
        } else {
            Err(trim(text))
        },
    }
}

/// Parse the minutes field.
///
/// `number` is the field's trimmed text read as a double (`None` when it
/// does not read as one). Unparseable text falls back to the 10-minute
/// default; a number that is zero, negative or not finite is an error, since
/// the user typed something explicit and should be told.
pub fn parse_interval(text: &str, number: Option<FloatBits>) -> (r: Result<FloatBits, IntervalError>)
    ensures
        match interval_choice(text@, number) {
            Ok(b) => r == Ok::<FloatBits, IntervalError>(b),
            Err(input) => r is Err && r->Err_0.input@ == input,
        },
{
    match number {
        None => Ok(FloatBits::ten()),
        Some(b) => {
            if b.is_positive_finite() {
                Ok(b)
            } else {
                Err(IntervalError { input: trim_str(text) })
            }
        },
    }
}

/// The close decision of the popup, from the trigger source, the action, the
/// two text fields and the minutes field.
pub open spec fn close_plan(
    source: TriggerSource,
    action: Action,
    doing: Seq<char>,
    bullshit: Seq<char>,
    minutes_text: Seq<char>,
    minutes_number: Option<FloatBits>,
) -> Result<CloseOutcome, Seq<char>> {
    let choice = interval_choice(minutes_text, minutes_number);
    if choice is Err && action == Action::Submit {
        Err(choice->Err_0)
    } else {
        let interval = match choice {
            Ok(b) => b,
            Err(_) => FloatBits(ten_bits()),
        };
        let reset = source == TriggerSource::Timer || action == Action::Submit;
        Ok(
            CloseOutcome {
                write_journal: action == Action::Submit && !(all_white_space(doing)
                    && all_white_space(bullshit)),
                reset_timer: if reset {
                    Some(interval)
                } else {
                    None
                },
                clear_form: action == Action::Submit,
            },
        )
    }
}

/// Decide everything that happens when the popup closes.
///
/// The one error is an explicit Submit carrying an invalid interval: the
/// caller must show it and keep the popup open. Dismiss and SwitchAway never
/// fail: a bad interval falls back to 10 minutes so the popup always closes.
/// A timer-fired popup is always rescheduled (its deadline is already past),
/// and Submit always reschedules (the user chose a new interval).
pub fn decide_close(
    source: TriggerSource,
    action: Action,
    doing: &str,
    bullshit: &str,
    minutes_text: &str,
    minutes_number: Option<FloatBits>,
) -> (r: Result<CloseOutcome, IntervalError>)
    ensures
        match close_plan(source, action, doing@, bullshit@, minutes_text@, minutes_number) {
            Ok(o) => r == Ok::<CloseOutcome, IntervalError>(o),
            Err(input) => r is Err && r->Err_0.input@ == input,
        },
{
    let interval = match parse_interval(minutes_text, minutes_number) {
        Ok(d) => d,
        Err(e) => {
            if action == Action::Submit {
                return Err(e);
            }
            FloatBits::ten()
        },
    };
    let reset = source == TriggerSource::Timer || action == Action::Submit;
    let write_journal = action == Action::Submit && !(is_blank(doing) && is_blank(bullshit));
    Ok(
        CloseOutcome {
            write_journal,
            reset_timer: if reset {
                Some(interval)
            } else {
                None
            },
            clear_form: action == Action::Submit,
        },
    )
}

/// The close rules as a whole: Dismiss and SwitchAway always close; a
/// popup the timer opened is always rescheduled (its deadline is already
/// past, so leaving it would fire again at once); a manual popup is
/// rescheduled only by Submit; only Submit clears the fields or writes the
/// journal.
pub proof fn lemma_close_rules(
    source: TriggerSource,
    action: Action,
    doing: Seq<char>,
    bullshit: Seq<char>,
    minutes_text: Seq<char>,
    minutes_number: Option<FloatBits>,
)
    ensures
        action != Action::Submit ==> close_plan(
            source,
            action,
            doing,
            bullshit,
            minutes_text,
            minutes_number,
        ) is Ok,
        close_plan(source, action, doing, bullshit, minutes_text, minutes_number) matches Ok(o) ==> {
            &&& (o.reset_timer is Some <==> (source == TriggerSource::Timer || action
                == Action::Submit))
            &&& (o.clear_form <==> action == Action::Submit)
            &&& (o.write_journal ==> action == Action::Submit)
            &&& (o.reset_timer matches Some(b) ==> positive_finite(b.0))
        },
{
}

/// Remaining whole minutes, rounded up: zero seconds stays 0, any positive
/// remainder rounds to the next whole minute.
pub open spec fn ceil_minutes_spec(secs: nat) -> nat {
    if secs == 0 {
        0
    } else {
        ((secs + 59) / 60) as nat
    }
}

/// The minute count shown is the ceiling of `secs / 60`: enough whole
/// minutes to cover the time left, and less than a minute more; zero only
/// when nothing is left.
pub proof fn lemma_ceil_minutes(secs: nat)
    ensures
        ceil_minutes_spec(secs) * 60 >= secs,
        secs > 0 ==> (ceil_minutes_spec(secs) - 1) * 60 < secs,
        ceil_minutes_spec(secs) == 0 <==> secs == 0,
{
    if secs > 0 {
        let c = ceil_minutes_spec(secs);
        assert(c == (secs + 59) / 60);
        assert(c * 60 <= secs + 59 && c * 60 > secs - 1) by (nonlinear_arith)
            requires
                c == (secs + 59) / 60,
        ;
    }
}

fn ceil_minutes(d: &Span) -> (r: u64)
    requires
        d@ / nanos_per_sec() + 59 <= u64::MAX,
    ensures
        r == ceil_minutes_spec(d@ / nanos_per_sec()),
{
    let secs = d.as_secs();
    if secs == 0 {
        0
    } else {
        (secs + 59) / 60
    }
}

/// The tooltip for a remaining time: "now" at zero, else "~N min".
pub open spec fn tooltip_spec(secs: nat) -> Seq<char> {
    if ceil_minutes_spec(secs) == 0 {
        seq!['n', 'o', 'w']
    } else {
        seq!['~'] + decimal(ceil_minutes_spec(secs)) + seq![' ', 'm', 'i', 'n']
    }
}

/// Tray tooltip text for the time remaining until the next nudge: `~N min`
/// rounded up to the next whole minute, and `now` once the timer has expired.
pub fn tooltip_for_remaining(d: Span) -> (r: String)
    requires
        d@ / nanos_per_sec() + 59 <= u64::MAX,
    ensures
        r@ == tooltip_spec(d@ / nanos_per_sec()),
{
    let mins = ceil_minutes(&d);
    let mut out = String::new();
    if mins == 0 {
        push_chars(&mut out, &['n', 'o', 'w']);
    } else {
        push_chars(&mut out, &['~']);
        push_decimal(&mut out, mins);
        push_chars(&mut out, &[' ', 'm', 'i', 'n']);
    }
    out
}

/// The minute number `tooltip_for_remaining` renders for this span (0 for
/// "now"); the tray loop refreshes the tooltip only when it changes.
pub fn displayed_minutes(d: Span) -> (r: u64)
    requires
        d@ / nanos_per_sec() + 59 <= u64::MAX,
    ensures
        r == ceil_minutes_spec(d@ / nanos_per_sec()),
{
    ceil_minutes(&d)
}

/// Labels for the tray context menu, in order.
pub const TRAY_MENU_LABELS: [&'static str; 3] = ["Show Nudge", "Settings", "Quit"];

/// How often the popup should repaint: every second while it is visible,
/// never while it is hidden (the tray wakes it).
pub fn repaint_interval(popup_visible: bool) -> (r: Option<Span>)
    ensures
        popup_visible ==> r is Some && r->Some_0@ == nanos_per_sec(),
        !popup_visible ==> r is None,
{
    if popup_visible {
        Some(Span::from_secs(1))
    } else {
        None
    }
}

/// Rust's `/` on signed integers: rounds toward zero.
pub open spec fn div_toward_zero(a: int, b: int) -> int {
    if a >= 0 {
        a / b
    } else {
        -((-a) / b)
    }
}

/// Screen position of the spotlight window: horizontally centered, its top
/// at 25% of the screen height. Sizes are read as `i32`, as the window
/// system does.
pub fn window_position(screen: (u32, u32), window: (u32, u32)) -> (r: (i32, i32))
    requires
        i32::MIN <= (screen.0 as i32) - (window.0 as i32) <= i32::MAX,
        i32::MIN <= (screen.1 as i32) * 25 <= i32::MAX,
    ensures
        r.0 == div_toward_zero((screen.0 as i32) - (window.0 as i32), 2),
        r.1 == div_toward_zero((screen.1 as i32) * 25, 100),
{
    let sw = screen.0 as i32;
    let sh = screen.1 as i32;
    let ww = window.0 as i32;
    let x = (sw - ww) / 2;
    let y = sh * 25 / 100;
    (x, y)
}

} // verus!
