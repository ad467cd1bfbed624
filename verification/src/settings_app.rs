//! The settings window's state, without the window: the form (hotkey,
//! interval, autostart), its validation and dirty tracking, the hotkey
//! recorder's decisions, and what Save and the autostart checkbox do.
//!
//! The interval field holds a decimal number; reading it as a double and
//! printing a double are done by the caller, which hands in the value read
//! (`number`) or a renderer.
use vstd::prelude::*;
use crate::autostart::{
    apply_autostart, autostart_settles, provider_answered, with_autostart, AutostartError,
    AutostartProvider,
};
use crate::config::{Config, ConfigError};
use crate::hotkey::{
    format_spec, hotkey_from_egui, recorder_mask, recorder_token, Hotkey, KeyModifiers,
    RecorderKey,
};
use crate::number::{FloatBits, positive_finite};
use crate::text::{
    chars_eq, chars_of, contains, contains_text, push_chars, push_str, same_text, trim, trim_str,
};

verus! {

/// The command-line flag that opens the settings window.
pub const SETTINGS_ARG: &'static str = "--settings";

pub open spec fn settings_flag() -> Seq<char> {
    seq!['-', '-', 's', 'e', 't', 't', 'i', 'n', 'g', 's']
}

/// Whether `--settings` appears (exactly) anywhere in `args`.
pub fn parse_settings_arg(args: &[&str]) -> (r: bool)
    ensures
        r == exists|i: int| 0 <= i < args@.len() && #[trigger] args@[i]@ == settings_flag(),
{
    let mut i: usize = 0;
    while i < args.len()
        invariant
            i <= args@.len(),
            forall|j: int| 0 <= j < i ==> #[trigger] args@[j]@ != settings_flag(),
        decreases args@.len() - i,
    {
        let a = chars_of(args[i]);
        if chars_eq(a.as_slice(), &['-', '-', 's', 'e', 't', 't', 'i', 'n', 'g', 's']) {
            return true;
        }
        i = i + 1;
    }
    false
}

pub open spec fn word_settings() -> Seq<char> {
    seq!['s', 'e', 't', 't', 'i', 'n', 'g', 's']
}

/// On the web, whether the page asks for the settings screen instead of
/// the popup: "settings" in its query string (`?settings`) or in its path
/// (`/settings.html`), so a static server that drops query strings still
/// routes correctly.
pub fn page_wants_settings(search: &str, pathname: &str) -> (r: bool)
    ensures
        r == (contains_text(search@, word_settings()) || contains_text(pathname@, word_settings())),
{
    let word = ['s', 'e', 't', 't', 'i', 'n', 'g', 's'];
    proof {
        assert(word@ =~= word_settings());
    }
    contains(search, &word) || contains(pathname, &word)
}

/// The interval field is not a finite positive number.
#[derive(Debug, Clone, PartialEq, Eq)]
pub struct IntervalParseError {
    pub input: String,
}

impl IntervalParseError {
    /// "Interval must be a positive number of minutes (got: "<input>")".
    pub fn message(&self) -> (r: String)
        ensures
            r@ == seq![
                'I', 'n', 't', 'e', 'r', 'v', 'a', 'l', ' ', 'm', 'u', 's', 't', ' ', 'b', 'e', ' ',
                'a', ' ', 'p', 'o', 's', 'i', 't', 'i', 'v', 'e', ' ', 'n', 'u', 'm', 'b', 'e', 'r',
                ' ', 'o', 'f', ' ', 'm', 'i', 'n', 'u', 't', 'e', 's', ' ', '(', 'g', 'o', 't', ':',
                ' ', '"',
            ] + self.input@ + seq!['"', ')'],
    {
        let mut out = String::new();
        push_chars(
            &mut out,
            &[
                'I', 'n', 't', 'e', 'r', 'v', 'a', 'l', ' ', 'm', 'u', 's', 't', ' ', 'b', 'e', ' ',
                'a', ' ', 'p', 'o', 's', 'i', 't', 'i', 'v', 'e', ' ', 'n', 'u', 'm', 'b', 'e', 'r',
                ' ', 'o', 'f', ' ', 'm', 'i', 'n', 'u', 't', 'e', 's', ' ', '(', 'g', 'o', 't', ':',
                ' ', '"',
            ],
        );
        push_str(&mut out, self.input.as_str());
        push_chars(&mut out, &['"', ')']);
        out
    }
}

/// Why the form cannot be saved: today only the interval can be invalid.
#[derive(Debug, Clone, PartialEq, Eq)]
pub enum SettingsValidationError {
    Interval(IntervalParseError),
}

impl SettingsValidationError {
    pub fn message(&self) -> (r: String)
        ensures
            match self {
                SettingsValidationError::Interval(e) => r@ == seq![
                    'I', 'n', 't', 'e', 'r', 'v', 'a', 'l', ' ', 'm', 'u', 's', 't', ' ', 'b', 'e',
                    ' ', 'a', ' ', 'p', 'o', 's', 'i', 't', 'i', 'v', 'e', ' ', 'n', 'u', 'm', 'b',
                    'e', 'r', ' ', 'o', 'f', ' ', 'm', 'i', 'n', 'u', 't', 'e', 's', ' ', '(', 'g',
                    'o', 't', ':', ' ', '"',
                ] + e.input@ + seq!['"', ')'],
            },
    {
        match self {
            SettingsValidationError::Interval(e) => e.message(),
        }
    }
}

/// The configured interval as the settings field must hold it: a finite
/// positive number. Unlike the popup's field there is no silent fallback.
pub open spec fn settings_interval(text: Seq<char>, number: Option<FloatBits>) -> Result<
    FloatBits,
    Seq<char>,
> {
    match number {
        Some(b) => if positive_finite(b.0) {
            Ok(b)
        } else {
            Err(trim(text))
        },
        None => Err(trim(text)),
    }
}

/// Parse the interval text. `number` is the trimmed text read as a double
/// (`None` when it does not read as one).
pub fn parse_interval_minutes(text: &str, number: Option<FloatBits>) -> (r: Result<
    FloatBits,
    IntervalParseError,
>)
    ensures
        match settings_interval(text@, number) {
            Ok(b) => r == Ok::<FloatBits, IntervalParseError>(b),
            Err(t) => r is Err && r->Err_0.input@ == t,
        },
{
    match number {
        Some(b) => {
            if b.is_positive_finite() {
                Ok(b)
            } else {
                Err(IntervalParseError { input: trim_str(text) })
            }
        },
        None => Err(IntervalParseError { input: trim_str(text) }),
    }
}

/// The settings form: the three fields as the user edits them, and the
/// last loaded or saved config, to tell whether anything changed.
#[derive(Debug, Clone)]
pub struct SettingsForm {
    /// The hotkey label as typed; validated on Save only.
    pub hotkey: String,
    /// The interval (minutes) as typed.
    pub interval_text: String,
    /// Mirrors the persisted autostart bit; changed only after the OS
    /// change is confirmed.
    pub autostart: bool,
    /// The last loaded or saved config.
    pub baseline: Config,
    /// How the baseline interval renders in the field.
    pub baseline_interval_text: String,
}

impl SettingsForm {
    pub open spec fn baseline(&self) -> Config {
        self.baseline
    }

    /// How the baseline interval renders in the field.
    pub open spec fn baseline_text(&self) -> Seq<char> {
        self.baseline_interval_text@
    }

    /// Start from a loaded config; `interval_text` is its interval as the
    /// field shows it. Every field starts in sync with the config.
    pub fn from_config(cfg: Config, interval_text: String) -> (r: SettingsForm)
        ensures
            r.hotkey@ == cfg.hotkey@,
            r.interval_text@ == interval_text@,
            r.autostart == cfg.autostart,
            r.baseline() == cfg,
            r.baseline_text() == interval_text@,
            !r.dirty_spec(),
    {
        SettingsForm {
            hotkey: cfg.hotkey.clone(),
            interval_text: interval_text.clone(),
            autostart: cfg.autostart,
            baseline: cfg,
            baseline_interval_text: interval_text,
        }
    }

    /// The interval field as a finite positive number.
    pub fn parsed_interval(&self, number: Option<FloatBits>) -> (r: Result<
        FloatBits,
        IntervalParseError,
    >)
        ensures
            match settings_interval(self.interval_text@, number) {
                Ok(b) => r == Ok::<FloatBits, IntervalParseError>(b),
                Err(t) => r is Err && r->Err_0.input@ == t,
            },
    {
        parse_interval_minutes(self.interval_text.as_str(), number)
    }

    pub open spec fn dirty_spec(&self) -> bool {
        self.hotkey@ != self.baseline().hotkey@ || self.interval_text@ != self.baseline_text()
            || self.autostart != self.baseline().autostart
    }

    /// Whether any field differs from the last loaded or saved config.
    pub fn is_dirty(&self) -> (r: bool)
        ensures
            r == self.dirty_spec(),
    {
        !same_text(self.hotkey.as_str(), self.baseline.hotkey.as_str()) || !same_text(
            self.interval_text.as_str(),
            self.baseline_interval_text.as_str(),
        ) || self.autostart != self.baseline.autostart
    }

    /// The config the form describes: the trimmed hotkey label, the
    /// validated interval, and the autostart bit.
    pub fn to_config(&self, number: Option<FloatBits>) -> (r: Result<
        Config,
        SettingsValidationError,
    >)
        ensures
            match settings_interval(self.interval_text@, number) {
                Ok(b) => r is Ok && r->Ok_0.hotkey@ == trim(self.hotkey@)
                    && r->Ok_0.default_interval_minutes == b && r->Ok_0.autostart == self.autostart,
                Err(t) => r is Err && r->Err_0->Interval_0.input@ == t,
            },
    {
        let interval = match self.parsed_interval(number) {
            Ok(b) => b,
            Err(e) => {
                return Err(SettingsValidationError::Interval(e));
            },
        };
        Ok(
            Config {
                hotkey: trim_str(self.hotkey.as_str()),
                default_interval_minutes: interval,
                autostart: self.autostart,
            },
        )
    }

    /// Make the current state the new baseline, after a successful Save:
    /// the trimmed label, the interval (or the previous one if the field
    /// does not hold a valid number) and autostart; the fields are re-filled
    /// from it, the interval rendered by `render`.
    pub fn mark_clean<F: Fn(FloatBits) -> String>(&mut self, number: Option<FloatBits>, render: F)
        requires
            forall|b: FloatBits| render.requires((b,)),
        ensures
            final(self).hotkey@ == trim(old(self).hotkey@),
            final(self).baseline().hotkey@ == trim(old(self).hotkey@),
            final(self).baseline().default_interval_minutes == match settings_interval(
                old(self).interval_text@,
                number,
            ) {
                Ok(b) => b,
                Err(_) => old(self).baseline().default_interval_minutes,
            },
            final(self).baseline().autostart == old(self).autostart,
            final(self).autostart == old(self).autostart,
            final(self).hotkey@ == final(self).baseline().hotkey@,
            final(self).interval_text@ == final(self).baseline_text(),
            render.ensures((final(self).baseline().default_interval_minutes,), final(self).interval_text),
            !final(self).dirty_spec(),
    {
        let minutes = match self.parsed_interval(number) {
            Ok(b) => b,
            Err(_) => self.baseline.default_interval_minutes,
        };
        let hotkey = trim_str(self.hotkey.as_str());
        self.baseline = Config { hotkey: hotkey.clone(), default_interval_minutes: minutes, autostart: self.autostart };
        self.hotkey = hotkey;
        let text = render(minutes);
        self.interval_text = text.clone();
        self.baseline_interval_text = text;
    }

    /// The config an autostart change starts from: the hotkey and interval
    /// as last saved, and the checkbox's current bit.
    pub open spec fn autostart_base(&self) -> Config {
        Config {
            hotkey: self.baseline().hotkey,
            default_interval_minutes: self.baseline().default_interval_minutes,
            autostart: self.autostart,
        }
    }

    /// Drive the autostart checkbox through the transactional rule. Only the
    /// autostart change is persisted (hotkey and interval as last saved);
    /// the form's bit and baseline change only when the OS change is
    /// confirmed and persisted.
    pub fn toggle_autostart<P: AutostartProvider + ?Sized, F: FnOnce(&Config) -> Result<(), ConfigError>>(
        &mut self,
        provider: &P,
        desired: bool,
        persist: F,
    ) -> (r: Result<(), AutostartError>)
        requires
            forall|c: &Config| persist.requires((c,)),
        ensures
            r is Ok ==> final(self).autostart == desired && final(self).baseline().autostart == desired
                && final(self).baseline().hotkey == old(self).baseline().hotkey
                && final(self).baseline().default_interval_minutes == old(self).baseline().default_interval_minutes && final(self).hotkey == old(self).hotkey
                && final(self).interval_text == old(self).interval_text,
            r is Ok ==> exists|c: Config|
                with_autostart(old(self).baseline(), c, desired) && #[trigger] persist.ensures(
                    (&c,),
                    Ok(()),
                ),
            r matches Err(AutostartError::Persist(e)) ==> exists|c: Config|
                with_autostart(old(self).baseline(), c, desired) && #[trigger] persist.ensures(
                    (&c,),
                    Err(e),
                ),
            r is Err ==> *final(self) == *old(self),
            exists|os: Result<(), String>, confirmed: Option<Result<bool, String>>, c: Config|
                #[trigger] autostart_settles(os, confirmed, desired, old(self).autostart_base(), c, r)
                    && provider_answered(provider, desired, os, confirmed),
    {
        let mut staged = Config {
            hotkey: self.baseline.hotkey.clone(),
            default_interval_minutes: self.baseline.default_interval_minutes,
            autostart: self.autostart,
        };
        let ghost before = staged;
        let result = apply_autostart(provider, &mut staged, desired, persist);
        let ghost base = self.autostart_base();
        let ghost (os, conf) = choose|
            os: Result<(), String>,
            conf: Option<Result<bool, String>>,
        | #[trigger] autostart_settles(os, conf, desired, before, staged, result)
            && provider_answered(provider, desired, os, conf);
        assert(before == base);
        assert(autostart_settles(os, conf, desired, base, staged, result));
        assert(provider_answered(provider, desired, os, conf));
        match result {
            Ok(()) => {},
            Err(e) => {
                proof {
                    if e is Persist {
                        assert(with_autostart(before, staged, desired));
                        assert(persist.ensures((&staged,), Err(e->Persist_0)));
                    }
                }
                return Err(e);
            },
        }
        assert(with_autostart(before, staged, desired));
        self.autostart = desired;
        self.baseline.autostart = desired;
        assert(autostart_settles(os, conf, desired, base, staged, Ok(())));
        Ok(())
    }
}

/// What the recorder wants done with this frame's input.
#[derive(Debug, Clone, PartialEq, Eq)]
pub enum CaptureOutcome {
    /// A supported combo was pressed: write its label and stop recording.
    Captured(Hotkey),
    /// A key outside the supported set was pressed: keep recording, show a
    /// hint.
    Unsupported,
    /// Escape with no modifiers: cancel recording.
    CancelRequested,
    /// No key this frame.
    KeepWaiting,
}

/// The recorder's decision for one frame: no key waits; bare Escape
/// cancels (with a modifier held it is an ordinary key); otherwise the first
/// key down is captured if supported, else flagged unsupported.
pub fn decide_capture(modifiers: KeyModifiers, keys: &[RecorderKey]) -> (r: CaptureOutcome)
    ensures
        keys@.len() == 0 ==> r == CaptureOutcome::KeepWaiting,
        keys@.len() > 0 && keys@[0] == RecorderKey::Escape && !modifiers.any_held() ==> r
            == CaptureOutcome::CancelRequested,
        keys@.len() > 0 && !(keys@[0] == RecorderKey::Escape && !modifiers.any_held()) ==> (
        match r {
            CaptureOutcome::Captured(hk) => recorder_token(keys@[0]) == Some(hk.key@)
                && hk.modifiers == recorder_mask(modifiers) && hk.wf(),
            CaptureOutcome::Unsupported => recorder_token(keys@[0]) is None,
            _ => false,
        }),
{
    if keys.len() == 0 {
        return CaptureOutcome::KeepWaiting;
    }
    let first_key = keys[0];
    let no_modifiers = !(modifiers.ctrl || modifiers.alt || modifiers.shift || modifiers.mac_cmd
        || modifiers.command);
    if first_key == RecorderKey::Escape && no_modifiers {
        return CaptureOutcome::CancelRequested;
    }
    match hotkey_from_egui(modifiers, first_key) {
        Some(hk) => CaptureOutcome::Captured(hk),
        None => CaptureOutcome::Unsupported,
    }
}

/// The hint shown when the recorder saw an unsupported key.
pub open spec fn unsupported_hint() -> Seq<char> {
    seq![
        'U', 'n', 's', 'u', 'p', 'p', 'o', 'r', 't', 'e', 'd', ' ', 'k', 'e', 'y', ',', ' ', 't',
        'r', 'y', ' ', 'a', 'n', 'o', 't', 'h', 'e', 'r',
    ]
}

/// "Interval must be a positive number of minutes (got: "<input>")".
pub open spec fn interval_error_message(input: Seq<char>) -> Seq<char> {
    seq![
        'I', 'n', 't', 'e', 'r', 'v', 'a', 'l', ' ', 'm', 'u', 's', 't', ' ', 'b', 'e', ' ', 'a',
        ' ', 'p', 'o', 's', 'i', 't', 'i', 'v', 'e', ' ', 'n', 'u', 'm', 'b', 'e', 'r', ' ', 'o',
        'f', ' ', 'm', 'i', 'n', 'u', 't', 'e', 's', ' ', '(', 'g', 'o', 't', ':', ' ', '"',
    ] + input + seq!['"', ')']
}

/// "Autostart enabled" / "Autostart disabled".
pub open spec fn autostart_banner(enabled: bool) -> Seq<char> {
    seq!['A', 'u', 't', 'o', 's', 't', 'a', 'r', 't', ' '] + if enabled {
        seq!['e', 'n', 'a', 'b', 'l', 'e', 'd']
    } else {
        seq!['d', 'i', 's', 'a', 'b', 'l', 'e', 'd']
    }
}

/// How a Save of a valid form (interval `b`) ends, given what persisting
/// returned: on success the form's state becomes the new baseline and the
/// banner says "Saved"; on failure the form is untouched and the banner
/// says "Save failed: " with the error.
pub open spec fn save_settled(
    before: SettingsApp,
    after: SettingsApp,
    b: FloatBits,
    res: Result<(), ConfigError>,
) -> bool {
    match res {
        Ok(_) => {
            &&& after.form.baseline().hotkey@ == trim(before.form.hotkey@)
            &&& after.form.baseline().default_interval_minutes == b
            &&& after.form.baseline().autostart == before.form.autostart
            &&& after.form.autostart == before.form.autostart
            &&& !after.form.dirty_spec()
            &&& after.banner matches Some(m) && m@ == seq!['S', 'a', 'v', 'e', 'd']
        },
        Err(e) => {
            &&& after.form == before.form
            &&& after.banner matches Some(m) && m@ == seq![
                'S', 'a', 'v', 'e', ' ', 'f', 'a', 'i', 'l', 'e', 'd', ':', ' ',
            ] + e.message_spec()
        },
    }
}

/// The settings window's state apart from drawing: the form, the status
/// banner, whether the window should close, and the recorder mode.
#[derive(Debug, Clone)]
pub struct SettingsApp {
    pub form: SettingsForm,
    /// Status shown above the buttons.
    pub banner: Option<String>,
    /// The window should close on this frame.
    pub quit_requested: bool,
    /// The hotkey row is capturing a key combination.
    pub recording_hotkey: bool,
    /// The label before recording started, restored on cancel.
    pub hotkey_pre_record: Option<String>,
    /// Shown under the row after an unsupported key.
    pub recording_hint: Option<String>,
}

impl SettingsApp {
    pub fn new(form: SettingsForm) -> (r: SettingsApp)
        ensures
            r.form == form,
            r.banner is None,
            !r.quit_requested,
            !r.recording_hotkey,
            r.hotkey_pre_record is None,
            r.recording_hint is None,
    {
        SettingsApp {
            form,
            banner: None,
            quit_requested: false,
            recording_hotkey: false,
            hotkey_pre_record: None,
            recording_hint: None,
        }
    }

    /// Enter capture mode, remembering the current label.
    pub fn start_recording(&mut self)
        ensures
            final(self).recording_hotkey,
            final(self).hotkey_pre_record is Some && final(self).hotkey_pre_record->Some_0@ == old(self).form.hotkey@,
            final(self).recording_hint is None,
            final(self).form == old(self).form,
            final(self).banner == old(self).banner,
            final(self).quit_requested == old(self).quit_requested,
    {
        self.hotkey_pre_record = Some(self.form.hotkey.clone());
        self.recording_hotkey = true;
        self.recording_hint = None;
    }

    /// Leave capture mode and restore the label from before recording.
    pub fn cancel_recording(&mut self)
        ensures
            !final(self).recording_hotkey,
            final(self).hotkey_pre_record is None,
            final(self).recording_hint is None,
            match old(self).hotkey_pre_record {
                Some(prev) => final(self).form.hotkey == prev,
                None => final(self).form.hotkey == old(self).form.hotkey,
            },
            final(self).form.interval_text == old(self).form.interval_text,
            final(self).form.autostart == old(self).form.autostart,
            final(self).banner == old(self).banner,
            final(self).quit_requested == old(self).quit_requested,
    {
        if let Some(prev) = self.hotkey_pre_record.take() {
            self.form.hotkey = prev;
        }
        self.recording_hotkey = false;
        self.recording_hint = None;
    }

    /// Escape closes the window unless the recorder owns it; a close request
    /// from the window system always does.
    pub fn handle_close_keys(&mut self, escape_pressed: bool, close_requested: bool)
        ensures
            final(self).quit_requested == (old(self).quit_requested || (escape_pressed && !old(self).recording_hotkey) || close_requested),
            final(self).form == old(self).form,
            final(self).recording_hotkey == old(self).recording_hotkey,
    {
        if !self.recording_hotkey && escape_pressed {
            self.quit_requested = true;
        }
        if close_requested {
            self.quit_requested = true;
        }
    }

    /// Act on the recorder's decision for this frame.
    pub fn apply_capture(&mut self, outcome: CaptureOutcome)
        ensures
            match outcome {
                CaptureOutcome::KeepWaiting => *final(self) == *old(self),
                CaptureOutcome::CancelRequested => !final(self).recording_hotkey && final(self).hotkey_pre_record is None && (match old(self).hotkey_pre_record {
                    Some(prev) => final(self).form.hotkey == prev,
                    None => final(self).form.hotkey == old(self).form.hotkey,
                }),
                CaptureOutcome::Captured(hk) => final(self).form.hotkey@ == format_spec(
                    hk.modifiers,
                    hk.key@,
                ) && !final(self).recording_hotkey && final(self).hotkey_pre_record is None
                    && final(self).recording_hint is None,
                CaptureOutcome::Unsupported => final(self).recording_hint is Some && final(self).recording_hint->Some_0@ == unsupported_hint() && final(self).recording_hotkey
                    == old(self).recording_hotkey && final(self).form == old(self).form,
            },
    {
        match outcome {
            CaptureOutcome::KeepWaiting => {},
            CaptureOutcome::CancelRequested => self.cancel_recording(),
            CaptureOutcome::Captured(hk) => {
                self.form.hotkey = crate::hotkey::format(&hk);
                self.recording_hotkey = false;
                self.hotkey_pre_record = None;
                self.recording_hint = None;
            },
            CaptureOutcome::Unsupported => {
                let mut hint = String::new();
                push_chars(
                    &mut hint,
                    &[
                        'U', 'n', 's', 'u', 'p', 'p', 'o', 'r', 't', 'e', 'd', ' ', 'k', 'e', 'y',
                        ',', ' ', 't', 'r', 'y', ' ', 'a', 'n', 'o', 't', 'h', 'e', 'r',
                    ],
                );
                self.recording_hint = Some(hint);
            },
        }
    }

    /// Save: validate the form, persist the config, and make it the new
    /// baseline; the banner reports "Saved", the persist failure, or the
    /// validation error.
    pub fn save<F: FnOnce(&Config) -> Result<(), ConfigError>, R: Fn(FloatBits) -> String>(
        &mut self,
        number: Option<FloatBits>,
        render: R,
        persist: F,
    )
        requires
            forall|c: &Config| persist.requires((c,)),
            forall|b: FloatBits| render.requires((b,)),
        ensures
            match settings_interval(old(self).form.interval_text@, number) {
                Err(t) => final(self).form == old(self).form && (final(self).banner matches Some(
                    m,
                ) && m@ == interval_error_message(t)),
                Ok(b) => exists|c: Config, res: Result<(), ConfigError>|
                    c.hotkey@ == trim(old(self).form.hotkey@) && c.default_interval_minutes == b
                        && c.autostart == old(self).form.autostart && #[trigger] persist.ensures(
                        (&c,),
                        res,
                    ) && save_settled(*old(self), *final(self), b, res),
            },
            final(self).recording_hotkey == old(self).recording_hotkey,
            final(self).quit_requested == old(self).quit_requested,
            final(self).hotkey_pre_record == old(self).hotkey_pre_record,
            final(self).recording_hint == old(self).recording_hint,
    {
        match self.form.to_config(number) {
            Ok(cfg) => {
                match persist(&cfg) {
                    Ok(()) => {
                        self.form.mark_clean(number, render);
                        let mut msg = String::new();
                        push_chars(&mut msg, &['S', 'a', 'v', 'e', 'd']);
                        self.banner = Some(msg);
                    },
                    Err(e) => {
                        let mut msg = String::new();
                        push_chars(&mut msg, &['S', 'a', 'v', 'e', ' ', 'f', 'a', 'i', 'l', 'e', 'd', ':', ' ']);
                        let m = e.message();
                        push_str(&mut msg, m.as_str());
                        self.banner = Some(msg);
                    },
                }
            },
            Err(e) => {
                self.banner = Some(e.message());
            },
        }
    }

    /// The autostart checkbox: through the transactional rule; the banner
    /// reports the new state or the error.
    pub fn apply_autostart_toggle<P: AutostartProvider + ?Sized, F: FnOnce(&Config) -> Result<(), ConfigError>>(
        &mut self,
        provider: &P,
        desired: bool,
        persist: F,
    ) -> (r: Result<(), AutostartError>)
        requires
            forall|c: &Config| persist.requires((c,)),
        ensures
            r is Ok ==> final(self).form.autostart == desired && final(self).form.baseline().autostart
                == desired && (final(self).banner matches Some(m) && m@ == autostart_banner(desired)),
            r is Ok ==> final(self).form.hotkey == old(self).form.hotkey
                && final(self).form.interval_text == old(self).form.interval_text,
            r matches Err(e) ==> final(self).form == old(self).form && (final(self).banner matches Some(
                m,
            ) && m@ == e.message_spec()),
            exists|os: Result<(), String>, confirmed: Option<Result<bool, String>>, c: Config|
                #[trigger] autostart_settles(
                    os,
                    confirmed,
                    desired,
                    old(self).form.autostart_base(),
                    c,
                    r,
                ) && provider_answered(provider, desired, os, confirmed),
            final(self).recording_hotkey == old(self).recording_hotkey,
            final(self).quit_requested == old(self).quit_requested,
    {
        let result = self.form.toggle_autostart(provider, desired, persist);
        match &result {
            Ok(()) => {
                let mut msg = String::new();
                if desired {
                    push_chars(&mut msg, &['A', 'u', 't', 'o', 's', 't', 'a', 'r', 't', ' ', 'e', 'n', 'a', 'b', 'l', 'e', 'd']);
                } else {
                    push_chars(&mut msg, &['A', 'u', 't', 'o', 's', 't', 'a', 'r', 't', ' ', 'd', 'i', 's', 'a', 'b', 'l', 'e', 'd']);
                }
                self.banner = Some(msg);
            },
            Err(e) => {
                self.banner = Some(e.message());
            },
        }
        result
    }
}

} // verus!
