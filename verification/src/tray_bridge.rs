//! The tray thread's decisions. The thread that owns the tray icon pumps
//! window messages and sleeps between animation frames; what it draws, what
//! tooltip it shows, when it fires the popup and how long it sleeps are
//! decided here, from the shared state the popup thread publishes. The
//! message pump, the icon and the hotkey registration are the application's.
use vstd::prelude::*;
use crate::config::Config;
use crate::config_watcher::{changes_view, diff, diff_spec, same_config, ConfigChange};
use crate::daisy::{frame_at, frame_defined, frame_matches, DaisyFrame};
use crate::hotkey::{
    function_key_number, key_is_canonical, parse_hotkey, parse_u8_from, parse_u8_spec, word_backspace, word_enter, word_escape,
    word_space, word_tab, recorder_token, Hotkey, HotkeyParse, RecorderKey,
};
use crate::nudge_state::{ceil_minutes_spec, displayed_minutes, tooltip_for_remaining, tooltip_spec};
use crate::span::{max_nanos, nanos_per_sec, Span};
use crate::text::{
    decimal, digit_char, lemma_decimal, lemma_digit_char, ascii_upper, chars_eq, chars_of, is_ascii_alphanumeric, is_ascii_digit, is_ascii_lower,
    is_ascii_upper,
};

verus! {

// ---- hotkey registration -------------------------------------------------

/// VK_F1 = 0x70 .. VK_F24 = 0x87 for a token "F" followed by a number
/// from 1 to 24 as `u8::from_str` reads it.
pub open spec fn f_key_code(key: Seq<char>) -> Option<u32> {
    if key.len() >= 1 && key[0] == 'F' {
        match parse_u8_spec(key.drop_first()) {
            Some(n) => if 1 <= n <= 24 {
                Some((0x70 + n - 1) as u32)
            } else {
                None
            },
            None => None,
        }
    } else {
        None
    }
}

/// The Win32 virtual-key code of a key token: A–Z and 0–9 are their ASCII
/// codes, F1–F24 are 0x70–0x87, and SPACE, ENTER, TAB, ESCAPE, BACKSPACE
/// have their own codes. `None` for a token that cannot be registered.
pub open spec fn virtual_key(key: Seq<char>) -> Option<u32> {
    if key.len() == 1 && (is_ascii_upper(key[0]) || is_ascii_digit(key[0])) {
        Some(key[0] as u32)
    } else if f_key_code(key) is Some {
        f_key_code(key)
    } else if key == word_space() {
        Some(0x20)
    } else if key == word_enter() {
        Some(0x0D)
    } else if key == word_tab() {
        Some(0x09)
    } else if key == word_escape() {
        Some(0x1B)
    } else if key == word_backspace() {
        Some(0x08)
    } else {
        None
    }
}

/// The function keys register as consecutive codes from VK_F1 = 0x70: the
/// token "F" followed by `n` (1 to 24) is code `0x70 + n - 1`.
pub proof fn lemma_function_key_codes(n: nat)
    requires
        1 <= n <= 24,
    ensures
        virtual_key(seq!['F'] + decimal(n)) == Some((0x70 + n - 1) as u32),
{
    let c = seq!['F'] + decimal(n);
    lemma_decimal(n);
    assert(c.drop_first() =~= decimal(n));
    assert(is_ascii_digit(decimal(n)[0]));
    assert(parse_u8_spec(c.drop_first()) == Some(n));
    assert(c.len() >= 2);
    assert(f_key_code(c) == Some((0x70 + n - 1) as u32));
}

/// A key recorded in the settings window registers under its Win32 code:
/// the letter keys `A`..`Z` are 0x41..0x5A, the digit keys 0x30..0x39, and
/// the function keys F1..F24 are 0x70..0x87.
pub proof fn lemma_recorded_key_codes(i: u8, n: u8)
    ensures
        i < 26 ==> virtual_key(recorder_token(RecorderKey::Letter(i))->0) == Some((0x41 + i) as u32),
        i < 10 ==> virtual_key(recorder_token(RecorderKey::Digit(i))->0) == Some((0x30 + i) as u32),
        1 <= n <= 24 ==> virtual_key(recorder_token(RecorderKey::Function(n))->0) == Some(
            (0x70 + n - 1) as u32,
        ),
{
    if i < 10 {
        lemma_digit_char(i as nat);
        assert(digit_char(i as nat) as u32 == 0x30 + i);
    }
    if 1 <= n <= 24 {
        lemma_function_key_codes(n as nat);
    }
}

/// The virtual-key code to register for a key token; see `virtual_key`.
pub fn vk_for_key(key: &str) -> (r: Option<u32>)
    ensures
        r == virtual_key(key@),
{
    let v = chars_of(key);
    if v.len() == 1 && (('A' <= v[0] && v[0] <= 'Z') || ('0' <= v[0] && v[0] <= '9')) {
        return Some(v[0] as u32);
    }
    if v.len() >= 1 && v[0] == 'F' {
        proof {
            assert(v@.subrange(1, v@.len() as int) =~= v@.drop_first());
        }
        if let Some(n) = parse_u8_from(&v, 1) {
            if 1 <= n && n <= 24 {
                return Some(0x70 + (n as u32) - 1);
            }
        }
    }
    if chars_eq(&v, &['S', 'P', 'A', 'C', 'E']) {
        Some(0x20)
    } else if chars_eq(&v, &['E', 'N', 'T', 'E', 'R']) {
        Some(0x0D)
    } else if chars_eq(&v, &['T', 'A', 'B']) {
        Some(0x09)
    } else if chars_eq(&v, &['E', 'S', 'C', 'A', 'P', 'E']) {
        Some(0x1B)
    } else if chars_eq(&v, &['B', 'A', 'C', 'K', 'S', 'P', 'A', 'C', 'E']) {
        Some(0x08)
    } else {
        None
    }
}

/// Every key token a hotkey can hold (what `parse` and the recorder
/// produce) has a virtual-key code, so a saved hotkey can always be
/// registered.
pub proof fn lemma_canonical_keys_register(k: Seq<char>)
    requires
        key_is_canonical(k),
    ensures
        virtual_key(k) is Some,
{
    assert forall|i: int| 0 <= i < k.len() implies !is_ascii_lower(#[trigger] k[i]) by {
        assert(ascii_upper(k)[i] == k[i]);
    }
    if k.len() == 1 && is_ascii_alphanumeric(k[0]) {
        assert(!is_ascii_lower(k[0]));
    } else if function_key_number(k) is Some {
        assert(f_key_code(k) is Some);
    }
}

/// Win32 hotkey modifier flags: MOD_ALT = 0x1, MOD_CONTROL = 0x2,
/// MOD_SHIFT = 0x4, MOD_WIN = 0x8, MOD_NOREPEAT = 0x4000.
pub open spec fn win32_modifiers(m: u8) -> u32 {
    (0x4000 + (if m & 1 != 0 {
        2int
    } else {
        0
    }) + (if m & 2 != 0 {
        1int
    } else {
        0
    }) + (if m & 4 != 0 {
        4int
    } else {
        0
    }) + (if m & 8 != 0 {
        8int
    } else {
        0
    })) as u32
}

/// The Win32 modifier flags for a modifier mask: always MOD_NOREPEAT (so a
/// held chord fires once), plus one flag per modifier held.
pub fn modifiers_to_win32(m: u8) -> (r: u32)
    ensures
        r == win32_modifiers(m),
{
    let mut out: u32 = 0x4000;
    if m & 1 != 0 {
        out = out + 2;
    }
    if m & 2 != 0 {
        out = out + 1;
    }
    if m & 4 != 0 {
        out = out + 4;
    }
    if m & 8 != 0 {
        out = out + 8;
    }
    out
}

/// What `RegisterHotKey` is called with for a hotkey: its modifier flags and
/// virtual-key code, or `None` when the key cannot be registered.
pub fn hotkey_registration(hk: &Hotkey) -> (r: Option<(u32, u32)>)
    ensures
        match virtual_key(hk.key@) {
            Some(vk) => r == Some((win32_modifiers(hk.modifiers), vk)),
            None => r is None,
        },
{
    match vk_for_key(hk.key.as_str()) {
        Some(vk) => Some((modifiers_to_win32(hk.modifiers), vk)),
        None => None,
    }
}

// ---- state shared between the popup thread and the tray thread ----------

/// The timer the tray animates: its deadline (measured from the
/// application's clock origin) and its full length.
#[derive(Debug, Clone, Copy, PartialEq, Eq, Structural)]
pub struct AnimatorTimer {
    pub deadline: Span,
    pub duration: Span,
}

/// Everything the two threads share. The application keeps one behind a
/// lock; each function below is one step on it. Setters that the tray
/// thread must notice return the thread to wake (`None` until the tray
/// thread has registered itself).
#[derive(Debug, Clone, Copy, PartialEq, Eq, Structural)]
pub struct BridgeState {
    /// Handle of the popup window, 0 until known.
    pub hwnd: isize,
    /// Edge flag: the tray icon or its "Show" item was clicked.
    pub tray_clicked: bool,
    /// Edge flag: the timer ran out and the popup should open.
    pub timer_fired: bool,
    /// The config file changed on disk and should be re-read once.
    pub config_reload_requested: bool,
    /// The popup is on screen: the tray parks its animation.
    pub popup_visible: bool,
    /// OS thread id of the tray thread, 0 until it starts.
    pub tray_thread_id: u32,
    /// The timer to animate, once the first one was started.
    pub animator_timer: Option<AnimatorTimer>,
}

impl BridgeState {
    /// The state at launch: the popup is up (first launch shows it), nothing
    /// else is known yet.
    pub fn new() -> (r: BridgeState)
        ensures
            r.hwnd == 0,
            !r.tray_clicked,
            !r.timer_fired,
            !r.config_reload_requested,
            r.popup_visible,
            r.tray_thread_id == 0,
            r.animator_timer is None,
    {
        BridgeState {
            hwnd: 0,
            tray_clicked: false,
            timer_fired: false,
            config_reload_requested: false,
            popup_visible: true,
            tray_thread_id: 0,
            animator_timer: None,
        }
    }
}

/// The thread to wake after a change: the tray thread once it is known.
pub open spec fn wake_target(tray_thread_id: u32) -> Option<u32> {
    if tray_thread_id != 0 {
        Some(tray_thread_id)
    } else {
        None
    }
}

fn wake(state: &BridgeState) -> (r: Option<u32>)
    ensures
        r == wake_target(state.tray_thread_id),
{
    if state.tray_thread_id != 0 {
        Some(state.tray_thread_id)
    } else {
        None
    }
}

/// Remember the popup window's handle.
pub fn store_hwnd(state: &mut BridgeState, hwnd: isize)
    ensures
        *final(state) == (BridgeState { hwnd, ..*old(state) }),
{
    state.hwnd = hwnd;
}

/// The popup window's handle, once one was stored (0 means none).
pub fn load_hwnd(state: &BridgeState) -> (r: Option<isize>)
    ensures
        r == (if state.hwnd != 0 {
            Some(state.hwnd)
        } else {
            None
        }),
{
    if state.hwnd != 0 {
        Some(state.hwnd)
    } else {
        None
    }
}

/// Raise the tray-click flag.
pub fn set_tray_clicked(state: &mut BridgeState)
    ensures
        *final(state) == (BridgeState { tray_clicked: true, ..*old(state) }),
{
    state.tray_clicked = true;
}

/// Read and clear the tray-click flag.
pub fn take_tray_clicked(state: &mut BridgeState) -> (r: bool)
    ensures
        r == old(state).tray_clicked,
        *final(state) == (BridgeState { tray_clicked: false, ..*old(state) }),
{
    let r = state.tray_clicked;
    state.tray_clicked = false;
    r
}

/// Raise the timer-fired flag (tray thread).
pub fn set_timer_fired(state: &mut BridgeState)
    ensures
        *final(state) == (BridgeState { timer_fired: true, ..*old(state) }),
{
    state.timer_fired = true;
}

/// Read and clear the timer-fired flag.
pub fn take_timer_fired(state: &mut BridgeState) -> (r: bool)
    ensures
        r == old(state).timer_fired,
        *final(state) == (BridgeState { timer_fired: false, ..*old(state) }),
{
    let r = state.timer_fired;
    state.timer_fired = false;
    r
}

/// Publish a fresh deadline and length to the animator.
pub fn set_timer_state(state: &mut BridgeState, deadline: Span, duration: Span) -> (r: Option<u32>)
    ensures
        *final(state) == (BridgeState {
            animator_timer: Some(AnimatorTimer { deadline, duration }),
            ..*old(state)
        }),
        r == wake_target(old(state).tray_thread_id),
{
    state.animator_timer = Some(AnimatorTimer { deadline, duration });
    wake(state)
}

/// Mirror whether the popup is on screen, so the tray parks while it is.
pub fn set_popup_visible(state: &mut BridgeState, visible: bool) -> (r: Option<u32>)
    ensures
        *final(state) == (BridgeState { popup_visible: visible, ..*old(state) }),
        r == wake_target(old(state).tray_thread_id),
{
    state.popup_visible = visible;
    wake(state)
}

/// Ask the tray thread to re-read the config file. Asking twice before it
/// looks collapses into one re-read.
pub fn request_config_reload(state: &mut BridgeState) -> (r: Option<u32>)
    ensures
        *final(state) == (BridgeState { config_reload_requested: true, ..*old(state) }),
        r == wake_target(old(state).tray_thread_id),
{
    state.config_reload_requested = true;
    wake(state)
}

/// Read and clear the reload request (tray thread).
pub fn take_config_reload(state: &mut BridgeState) -> (r: bool)
    ensures
        r == old(state).config_reload_requested,
        *final(state) == (BridgeState { config_reload_requested: false, ..*old(state) }),
{
    let r = state.config_reload_requested;
    state.config_reload_requested = false;
    r
}

/// Record the tray thread's id so setters know whom to wake.
pub fn set_tray_thread_id(state: &mut BridgeState, id: u32)
    ensures
        *final(state) == (BridgeState { tray_thread_id: id, ..*old(state) }),
{
    state.tray_thread_id = id;
}

// ---- one turn of the tray loop -------------------------------------------

/// How long into its interval a timer is at `now`. Past the deadline the
/// count keeps growing beyond `duration`, so the final drift can play out.
pub open spec fn elapsed_spec(deadline: nat, duration: nat, now: nat) -> nat {
    if now >= deadline {
        (duration + (now - deadline)) as nat
    } else if duration >= deadline - now {
        (duration - (deadline - now)) as nat
    } else {
        0
    }
}

/// Time left until the deadline, zero once it passed.
pub open spec fn remaining_spec(deadline: nat, now: nat) -> nat {
    if deadline >= now {
        (deadline - now) as nat
    } else {
        0
    }
}

/// The icon a frame shows, as the loop compares it between turns: petals
/// on the flower, hundredths of the drift that have passed (rounded down),
/// and whether a petal is drifting.
pub open spec fn icon_key(f: DaisyFrame) -> IconKey {
    match f.drift {
        Some(d) => IconKey {
            petals: f.petals_remaining,
            drift_hundredths: ((100 * d.elapsed@) / d.length@) as u16,
            drifting: true,
        },
        None => IconKey { petals: f.petals_remaining, drift_hundredths: 0, drifting: false },
    }
}

/// What distinguishes one drawn icon from another.
#[derive(Debug, Clone, Copy, PartialEq, Eq, Structural)]
pub struct IconKey {
    pub petals: u8,
    pub drift_hundredths: u16,
    pub drifting: bool,
}

/// How long the loop sleeps after a turn that did not fire: ~30 Hz while a
/// petal drifts, 10 ms past the deadline (waiting for the final drift),
/// otherwise until the next petal drop (milliseconds taken as `u32`),
/// capped at a minute in case the clock jumps.
pub open spec fn wait_spec(f: DaisyFrame, elapsed: nat, duration: nat) -> u32 {
    if f.drift is Some {
        33
    } else if elapsed >= duration {
        10
    } else {
        let to_next = if f.petal_duration@ >= f.time_since_drop@ {
            (f.petal_duration@ - f.time_since_drop@) as nat
        } else {
            0
        };
        let ms = (to_next / 1_000_000) % 0x1_0000_0000;
        if ms <= 60_000 {
            ms as u32
        } else {
            60_000
        }
    }
}

/// Waiting for a message with no timeout.
pub open spec fn forever() -> u32 {
    u32::MAX
}

/// What the tray loop remembers between turns: the icon last drawn, the
/// minute count last shown in the tooltip, and the deadline it last fired
/// for (so one timer fires the popup at most once).
#[derive(Debug, Clone, Copy, PartialEq, Eq, Structural)]
pub struct TrayLoop {
    pub last_icon: IconKey,
    pub last_tooltip_minutes: Option<u64>,
    pub fired_for_deadline: Option<Span>,
}

/// The outcome of one turn.
#[derive(Debug, Clone, PartialEq, Eq)]
pub struct TrayTick {
    /// The daisy computed this turn, when a timer is animated.
    pub frame: Option<DaisyFrame>,
    /// Draw `frame` as the new icon: it differs from the last one drawn.
    pub redraw: bool,
    /// Show this tooltip: the minute count changed.
    pub tooltip: Option<String>,
    /// Fire the popup now.
    pub fire: bool,
    /// Milliseconds to sleep waiting for messages; `u32::MAX` waits until
    /// a message arrives.
    pub wait_ms: u32,
}

/// The turns on which the loop animates: the popup is hidden and a timer
/// was published.
pub open spec fn animates(popup_visible: bool, timer: Option<AnimatorTimer>) -> bool {
    !popup_visible && timer is Some
}

/// The inputs on which a turn is defined: the timeline is defined for the
/// timer's length, the elapsed time and the tooltip's minute count fit.
pub open spec fn tick_defined(popup_visible: bool, timer: Option<AnimatorTimer>, now: Span) -> bool {
    animates(popup_visible, timer) ==> {
        let t = timer->Some_0;
        &&& frame_defined(t.duration@)
        &&& elapsed_spec(t.deadline@, t.duration@, now@) <= max_nanos()
        &&& t.deadline@ / nanos_per_sec() + 59 <= u64::MAX
    }
}

/// Whether a turn at `now` is defined (see `tick_defined`).
pub fn is_tick_defined(popup_visible: bool, timer: Option<AnimatorTimer>, now: Span) -> (r: bool)
    ensures
        r == tick_defined(popup_visible, timer, now),
{
    if popup_visible {
        return true;
    }
    match timer {
        None => true,
        Some(t) => {
            if !crate::daisy::is_frame_defined(t.duration) {
                return false;
            }
            let max = crate::span::max_nanos_exec();
            let e_ok = if t.deadline.le(&now) {
                let over = now.as_nanos() - t.deadline.as_nanos();
                t.duration.as_nanos() <= max && over <= max - t.duration.as_nanos()
            } else {
                true
            };
            e_ok && t.deadline.as_secs() <= u64::MAX - 59
        },
    }
}

/// One turn of the loop from state `s`, as a relation between its outcome
/// `r` and the state `next` it leaves behind.
pub open spec fn tick_spec(
    s: TrayLoop,
    popup_visible: bool,
    timer: Option<AnimatorTimer>,
    now: Span,
    r: TrayTick,
    next: TrayLoop,
) -> bool {
    if !animates(popup_visible, timer) {
        &&& r.frame is None
        &&& !r.redraw
        &&& r.tooltip is None
        &&& !r.fire
        &&& r.wait_ms == forever()
        &&& next == s
    } else {
        let t = timer->Some_0;
        let e = elapsed_spec(t.deadline@, t.duration@, now@);
        let secs = remaining_spec(t.deadline@, now@) / nanos_per_sec();
        let mins = ceil_minutes_spec(secs);
        &&& r.frame is Some
        &&& frame_matches(r.frame->Some_0, t.duration@, e)
        &&& r.redraw == (icon_key(r.frame->Some_0) != s.last_icon)
        &&& next.last_icon == icon_key(r.frame->Some_0)
        &&& (r.tooltip is Some <==> s.last_tooltip_minutes != Some(mins as u64))
        &&& (r.tooltip is Some ==> r.tooltip->Some_0@ == tooltip_spec(secs))
        &&& next.last_tooltip_minutes == Some(mins as u64)
        &&& r.fire == (r.frame->Some_0.should_fire && s.fired_for_deadline != Some(t.deadline))
        &&& next.fired_for_deadline == (if r.fire {
            Some(t.deadline)
        } else {
            s.fired_for_deadline
        })
        &&& r.wait_ms == (if r.fire {
            forever()
        } else {
            wait_spec(r.frame->Some_0, e, t.duration@)
        })
    }
}

impl TrayLoop {
    /// The loop before its first turn: nothing drawn (the key matches no
    /// frame), no tooltip shown, nothing fired.
    pub fn new() -> (r: TrayLoop)
        ensures
            r.last_icon == (IconKey { petals: 255, drift_hundredths: 0, drifting: false }),
            r.last_tooltip_minutes is None,
            r.fired_for_deadline is None,
    {
        TrayLoop {
            last_icon: IconKey { petals: 255, drift_hundredths: 0, drifting: false },
            last_tooltip_minutes: None,
            fired_for_deadline: None,
        }
    }

    /// One turn of the tray loop at time `now` (measured from the same
    /// origin as the timer's deadline).
    ///
    /// While the popup is up, or before any timer was published, the loop
    /// parks: it waits for a message and changes nothing. Otherwise it
    /// computes the daisy for the elapsed time, redraws the icon when it
    /// changed, refreshes the tooltip when its minute count changed, fires
    /// the popup once per deadline after the final drift, and picks how long
    /// to sleep.
    pub fn tick(&mut self, popup_visible: bool, timer: Option<AnimatorTimer>, now: Span) -> (r: TrayTick)
        requires
            tick_defined(popup_visible, timer, now),
        ensures
            tick_spec(*old(self), popup_visible, timer, now, r, *final(self)),
    {
        if popup_visible {
            return TrayTick { frame: None, redraw: false, tooltip: None, fire: false, wait_ms: u32::MAX };
        }
        let t = match timer {
            Some(t) => t,
            None => {
                return TrayTick {
                    frame: None,
                    redraw: false,
                    tooltip: None,
                    fire: false,
                    wait_ms: u32::MAX,
                };
            },
        };
        let elapsed = if t.deadline.le(&now) {
            let over = now.saturating_sub(&t.deadline);
            t.duration.add(&over)
        } else {
            let ahead = t.deadline.saturating_sub(&now);
            t.duration.saturating_sub(&ahead)
        };
        let frame = frame_at(t.duration, elapsed);
        let key = match frame.drift {
            Some(d) => {
                proof {
                    assert(100 * d.elapsed@ / d.length@ < 100) by (nonlinear_arith)
                        requires
                            d.elapsed@ < d.length@,
                    ;
                }
                let num = 100 * d.elapsed.as_nanos();
                let hundredths = (num / d.length.as_nanos()) as u16;
                IconKey { petals: frame.petals_remaining, drift_hundredths: hundredths, drifting: true }
            },
            None => IconKey { petals: frame.petals_remaining, drift_hundredths: 0, drifting: false },
        };
        let redraw = key != self.last_icon;
        self.last_icon = key;
        let remaining = t.deadline.saturating_sub(&now);
        let mins = displayed_minutes(remaining);
        let tooltip = match self.last_tooltip_minutes {
            Some(m) => if m == mins {
                None
            } else {
                Some(tooltip_for_remaining(remaining))
            },
            None => Some(tooltip_for_remaining(remaining)),
        };
        self.last_tooltip_minutes = Some(mins);
        let already = match self.fired_for_deadline {
            Some(d) => d.same(&t.deadline),
            None => false,
        };
        if frame.should_fire && !already {
            self.fired_for_deadline = Some(t.deadline);
            return TrayTick { frame: Some(frame), redraw, tooltip, fire: true, wait_ms: u32::MAX };
        }
        let wait_ms: u32 = if frame.drift.is_some() {
            33
        } else if t.duration.le(&elapsed) {
            10
        } else {
            let to_next = frame.petal_duration.saturating_sub(&frame.time_since_drop);
            let ms = (to_next.as_millis() % 0x1_0000_0000) as u32;
            if ms <= 60_000 {
                ms
            } else {
                60_000
            }
        };
        TrayTick { frame: Some(frame), redraw, tooltip, fire: false, wait_ms }
    }
}

/// A timer fires the popup at most once: a turn that fires records the
/// deadline it fired for, and while that deadline is recorded no turn on a
/// timer with the same deadline fires again; a turn that does not fire
/// leaves the record as it was.
pub proof fn lemma_fires_once_per_deadline(
    s: TrayLoop,
    popup_visible: bool,
    timer: Option<AnimatorTimer>,
    now: Span,
    r: TrayTick,
    next: TrayLoop,
)
    requires
        tick_spec(s, popup_visible, timer, now, r, next),
    ensures
        r.fire ==> timer is Some && next.fired_for_deadline == Some(timer->Some_0.deadline),
        !r.fire ==> next.fired_for_deadline == s.fired_for_deadline,
        timer is Some && s.fired_for_deadline == Some(timer->Some_0.deadline) ==> !r.fire,
{
}

// ---- live reload of the config file ---------------------------------------

/// What to do with a re-read config file.
#[derive(Debug, Clone, PartialEq, Eq)]
pub struct ReloadPlan {
    /// The field-level changes found.
    pub changes: Vec<ConfigChange>,
    /// Unregister the hotkey currently bound before anything else.
    pub unregister: bool,
    /// Try to register this hotkey.
    pub register: Option<Hotkey>,
    /// Replace the config in effect with the one re-read.
    pub adopt: bool,
}

/// Decide what a re-read of the config file does, given the config in
/// effect, the file's contents (`None` when reading or decoding failed)
/// and whether a hotkey is bound now.
///
/// A failed read keeps everything as it is, so a typo in the file never
/// takes the running app down. A file holding the same values changes
/// nothing. Otherwise the new config is adopted; when its hotkey label
/// changed, the bound hotkey is released and the new label registered if
/// it parses (an unparseable label leaves the app without a hotkey). The
/// interval and autostart are only recorded: the popup keeps the interval
/// the user typed, and the settings window owns the autostart registration.
pub fn reload_plan(previous: &Config, loaded: Option<&Config>, hotkey_registered: bool) -> (r: ReloadPlan)
    ensures
        loaded is None ==> r.changes@.len() == 0 && !r.unregister && r.register is None && !r.adopt,
        loaded matches Some(n) ==> {
            &&& changes_view(r.changes@) == diff_spec(*previous, *n)
            &&& r.adopt == !same_config(*previous, *n)
            &&& previous.hotkey@ == n.hotkey@ ==> !r.unregister && r.register is None
            &&& previous.hotkey@ != n.hotkey@ ==> {
                &&& r.unregister == hotkey_registered
                &&& match parse_hotkey(n.hotkey@) {
                    HotkeyParse::Parsed(m, k) => r.register matches Some(h) && h.modifiers == m
                        && h.key@ == k,
                    _ => r.register is None,
                }
            }
        },
{
    let n = match loaded {
        Some(n) => n,
        None => {
            return ReloadPlan { changes: Vec::new(), unregister: false, register: None, adopt: false };
        },
    };
    let changes = diff(previous, n);
    if changes.len() == 0 {
        return ReloadPlan { changes, unregister: false, register: None, adopt: false };
    }
    let hotkey_changed = !crate::text::same_text(previous.hotkey.as_str(), n.hotkey.as_str());
    if !hotkey_changed {
        return ReloadPlan { changes, unregister: false, register: None, adopt: true };
    }
    let (parsed, invalid) = n.resolved_hotkey();
    let register = if invalid {
        None
    } else {
        Some(parsed)
    };
    ReloadPlan { changes, unregister: hotkey_registered, register, adopt: true }
}

} // verus!
