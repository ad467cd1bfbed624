//! The tray daisy's timeline: twelve petals fall one by one as the nudge
//! timer counts down, petal 0 (at 12 o'clock) first. The freshly fallen
//! petal drifts away for a short while; the popup fires once the last drift
//! has finished. Drawing the icon is done by the application.
use vstd::prelude::*;
use crate::span::{max_nanos, Span};

verus! {

/// Icon edge length in pixels.
pub const ICON_SIZE: u32 = 64;

/// Number of petals.
pub const PETAL_COUNT: u8 = 12;

/// A petal in the middle of falling away: `elapsed` of the drift's `length`
/// has passed (0 = just detached, `length` = gone).
#[derive(Debug, Clone, Copy, PartialEq, Eq, Structural)]
pub struct DriftState {
    /// Index of the drifting petal: 0 = 12 o'clock, increasing clockwise.
    pub petal_index: u8,
    pub elapsed: Span,
    pub length: Span,
}

/// The daisy for one tick of the countdown.
#[derive(Debug, Clone, Copy, PartialEq, Eq, Structural)]
pub struct DaisyFrame {
    /// Petals still attached (0..=12), not counting a drifting one.
    pub petals_remaining: u8,
    /// The just-fallen petal mid-animation, if any.
    pub drift: Option<DriftState>,
    /// The interval and the final drift are over: fire the popup.
    pub should_fire: bool,
    /// One petal's lifetime (`duration / 12`).
    pub petal_duration: Span,
    /// Time since the most recent petal dropped.
    pub time_since_drop: Span,
}

pub open spec fn two_64() -> nat {
    0x1_0000_0000_0000_0000
}

/// `Duration::as_nanos() as u64`.
pub open spec fn low_nanos(n: nat) -> nat {
    n % two_64()
}

/// One petal's lifetime in nanoseconds.
pub open spec fn petal_nanos(duration: nat) -> nat {
    (if low_nanos(duration) >= 1 {
        low_nanos(duration)
    } else {
        1
    }) / (PETAL_COUNT as nat)
}

/// How long a fallen petal drifts: at most 250 ms, and never more than half
/// a petal's lifetime, so a drift cannot overrun the next drop.
pub open spec fn drift_nanos(duration: nat) -> nat {
    let half = petal_nanos(duration) / 2;
    if 250_000_000 <= half {
        250_000_000
    } else {
        half
    }
}

pub open spec fn dropped_spec(duration: nat, elapsed: nat) -> nat {
    let raw = low_nanos(elapsed) / petal_nanos(duration);
    if raw <= 12 {
        raw
    } else {
        12
    }
}

pub open spec fn since_drop_spec(duration: nat, elapsed: nat) -> nat {
    (low_nanos(elapsed) - dropped_spec(duration, elapsed) * petal_nanos(duration)) as nat
}

/// The inputs for which the timeline is defined: a petal lifetime of at
/// least one nanosecond, and an end of drift within the range of spans.
pub open spec fn frame_defined(duration: nat) -> bool {
    low_nanos(duration) >= 12 && duration + drift_nanos(duration) <= max_nanos()
}

/// `f` is the daisy for `elapsed` into an interval of length `duration`:
/// the petals that fell, the drift of the last one while it lasts, and the
/// popup firing once the interval and the final drift are over.
pub open spec fn frame_matches(f: DaisyFrame, duration: nat, elapsed: nat) -> bool {
    let dropped = dropped_spec(duration, elapsed);
    let since = since_drop_spec(duration, elapsed);
    &&& f.petals_remaining == 12 - dropped
    &&& f.petal_duration@ == petal_nanos(duration)
    &&& f.time_since_drop@ == since
    &&& match f.drift {
        Some(d) => dropped > 0 && since < drift_nanos(duration) && d.petal_index == dropped - 1
            && d.elapsed@ == since && d.length@ == drift_nanos(duration),
        None => !(dropped > 0 && since < drift_nanos(duration)),
    }
    &&& f.should_fire == (elapsed >= duration + drift_nanos(duration))
}

/// Whether the timeline is defined for an interval of length `duration`
/// (see `frame_defined`).
pub fn is_frame_defined(duration: Span) -> (r: bool)
    ensures
        r == frame_defined(duration@),
{
    let dn = duration.as_nanos();
    let low: u64 = (dn % 0x1_0000_0000_0000_0000) as u64;
    if low < 12 {
        return false;
    }
    let petal = Span::from_nanos(low / 12);
    let drift = Span::from_millis(250).min(&petal.half());
    dn + drift.as_nanos() <= crate::span::max_nanos_exec()
}

/// Compute the daisy for `elapsed` into an interval of length `duration`.
/// `elapsed` may run past `duration` so the final drift can play out before
/// `should_fire` turns on.
pub fn frame_at(duration: Span, elapsed: Span) -> (r: DaisyFrame)
    requires
        frame_defined(duration@),
    ensures
        frame_matches(r, duration@, elapsed@),
{
    let dn = duration.as_nanos();
    let en = elapsed.as_nanos();
    let dur64: u64 = (dn % 0x1_0000_0000_0000_0000) as u64;
    let el64: u64 = (en % 0x1_0000_0000_0000_0000) as u64;
    let base: u64 = if dur64 >= 1 {
        dur64
    } else {
        1
    };
    let pdn: u64 = base / 12;
    let petal_dur = Span::from_nanos(pdn);
    let raw_drops = el64 / pdn;
    let dropped: u64 = if raw_drops <= 12 {
        raw_drops
    } else {
        12
    };
    proof {
        assert(dropped * pdn <= el64) by (nonlinear_arith)
            requires
                dropped <= raw_drops,
                raw_drops == el64 / pdn,
                pdn > 0,
        ;
    }
    let petals_dropped = dropped as u8;
    let petals_remaining = 12 - petals_dropped;
    let since = el64 - dropped * pdn;
    let time_since_drop = Span::from_nanos(since);
    let quarter_second = Span::from_millis(250);
    let drift_dur = quarter_second.min(&petal_dur.half());
    let drift = if petals_dropped > 0 && time_since_drop.lt(&drift_dur) {
        Some(DriftState { petal_index: petals_dropped - 1, elapsed: time_since_drop, length: drift_dur })
    } else {
        None
    };
    let should_fire = duration.add(&drift_dur).le(&elapsed);
    DaisyFrame {
        petals_remaining,
        drift,
        should_fire,
        petal_duration: petal_dur,
        time_since_drop,
    }
}

/// Once the popup fires, every petal has fallen and no drift is left, so
/// the user has seen the last petal go (for spans below 2^64 ns, which the
/// timeline reads exactly).
pub proof fn lemma_fire_after_last_petal(duration: nat, elapsed: nat)
    requires
        frame_defined(duration),
        duration < two_64(),
        elapsed < two_64(),
        elapsed >= duration + drift_nanos(duration),
    ensures
        dropped_spec(duration, elapsed) == 12,
        !(since_drop_spec(duration, elapsed) < drift_nanos(duration)),
{
    let p = petal_nanos(duration);
    assert(low_nanos(duration) == duration);
    assert(low_nanos(elapsed) == elapsed);
    assert(p * 12 <= duration) by (nonlinear_arith)
        requires
            p == duration / 12,
    ;
    assert(elapsed / p >= 12) by (nonlinear_arith)
        requires
            p > 0,
            p * 12 <= elapsed,
    ;
}

/// Petals only ever fall: more elapsed time never leaves more petals on
/// the flower (for spans below 2^64 ns).
pub proof fn lemma_petals_monotone(duration: nat, e1: nat, e2: nat)
    requires
        frame_defined(duration),
        e1 <= e2 < two_64(),
    ensures
        dropped_spec(duration, e1) <= dropped_spec(duration, e2),
{
    let p = petal_nanos(duration);
    assert(low_nanos(e1) == e1);
    assert(low_nanos(e2) == e2);
    assert(e1 / p <= e2 / p) by (nonlinear_arith)
        requires
            p > 0,
            e1 <= e2,
    ;
}

/// When the timer is rearmed all twelve petals are on the flower, and they
/// stay until the first petal's lifetime is over.
pub proof fn lemma_full_flower_at_start(duration: nat, elapsed: nat)
    requires
        frame_defined(duration),
        elapsed < petal_nanos(duration),
        elapsed < two_64(),
    ensures
        dropped_spec(duration, elapsed) == 0,
        since_drop_spec(duration, elapsed) == elapsed,
{
    assert(low_nanos(elapsed) == elapsed);
    assert(elapsed / petal_nanos(duration) == 0) by (nonlinear_arith)
        requires
            elapsed < petal_nanos(duration),
    ;
}

/// Petals fall evenly: after `k` whole petal lifetimes (`k` up to 12),
/// exactly `k` petals have fallen, the `k`-th one just now.
pub proof fn lemma_petals_fall_evenly(duration: nat, k: nat)
    requires
        frame_defined(duration),
        duration < two_64(),
        k <= 12,
    ensures
        dropped_spec(duration, k * petal_nanos(duration)) == k,
        since_drop_spec(duration, k * petal_nanos(duration)) == 0,
{
    let p = petal_nanos(duration);
    assert(low_nanos(duration) == duration);
    assert(p * 12 <= duration) by (nonlinear_arith)
        requires
            p == duration / 12,
    ;
    assert(k * p <= 12 * p) by (nonlinear_arith)
        requires
            k <= 12,
    ;
    assert(low_nanos(k * p) == k * p);
    assert((k * p) / p == k) by (nonlinear_arith)
        requires
            p > 0,
    ;
}

/// By the time the interval is over only the center is left.
pub proof fn lemma_bare_at_expiry(duration: nat, elapsed: nat)
    requires
        frame_defined(duration),
        duration <= elapsed < two_64(),
    ensures
        dropped_spec(duration, elapsed) == 12,
{
    let p = petal_nanos(duration);
    assert(low_nanos(duration) == duration) by {
        assert(duration < two_64());
    }
    assert(low_nanos(elapsed) == elapsed);
    assert(p * 12 <= duration) by (nonlinear_arith)
        requires
            p == duration / 12,
    ;
    assert(elapsed / p >= 12) by (nonlinear_arith)
        requires
            p > 0,
            p * 12 <= elapsed,
    ;
}

/// A falling petal never meets the next one: the drift lasts at most a
/// quarter second and at most half a petal's lifetime, so it is over before
/// the next petal detaches.
pub proof fn lemma_drift_ends_before_next_drop(duration: nat)
    requires
        frame_defined(duration),
    ensures
        drift_nanos(duration) <= 250_000_000,
        2 * drift_nanos(duration) <= petal_nanos(duration),
        drift_nanos(duration) < petal_nanos(duration),
{
}

} // verus!
