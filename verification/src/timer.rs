//! The nudge timer: frozen until the first close of the popup, then a
//! deadline that a close resets. It reads the monotonic clock through
//! `web_time`, which is `std::time` on native targets and the browser's
//! clock on the web.
use vstd::prelude::*;
use crate::span::{max_nanos, Span};
use web_time::Instant;

verus! {

/// `web_time::Instant`, the timer's clock origin, held opaquely.
#[verifier::external_type_specification]
#[verifier::external_body]
pub struct ExInstant(Instant);

/// `web_time::Instant::now()`. Nothing is stated of the instant it returns.
#[verifier::external_body]
fn instant_now() -> (r: Instant) {
    Instant::now()
}

/// `Instant::elapsed` on `origin`: the time since it, by the clock. How
/// much time passed depends on the clock and is not stated.
#[verifier::external_body]
fn elapsed_since(origin: &Instant) -> std::time::Duration {
    origin.elapsed()
}

/// `Duration::as_nanos`: the duration in whole nanoseconds. What is stated
/// is what holds of any `Duration`, that it is at most `Duration::MAX`; a
/// `Duration` is opaque here, so its value is not stated.
#[verifier::external_body]
fn duration_nanos(d: std::time::Duration) -> (r: u128)
    ensures
        r <= max_nanos(),
{
    d.as_nanos()
}

/// A countdown to the next nudge. The deadline is measured from the
/// instant the timer was made.
pub struct Timer {
    origin: Instant,
    /// `None` = frozen: never expires until `reset`.
    deadline: Option<Span>,
}

/// A value the clock can report as time since an origin: any span up to
/// `Duration::MAX`.
pub open spec fn clock_reading(n: nat) -> bool {
    n <= max_nanos()
}

impl Timer {
    /// The instant the timer measures its deadline from.
    pub closed spec fn origin_view(&self) -> Instant {
        self.origin
    }

    /// The deadline in nanoseconds from the timer's origin, or `None` when
    /// frozen.
    pub closed spec fn deadline_view(&self) -> Option<nat> {
        match self.deadline {
            Some(d) => Some(d@),
            None => None,
        }
    }

    /// Whether the deadline has passed at `now`; a frozen timer never expires.
    pub open spec fn expired_spec(&self, now: nat) -> bool {
        match self.deadline_view() {
            Some(d) => now >= d,
            None => false,
        }
    }

    /// Time left at `now`: zero once expired, and zero for a frozen timer.
    pub open spec fn remaining_spec(&self, now: nat) -> nat {
        match self.deadline_view() {
            Some(d) => if d >= now {
                (d - now) as nat
            } else {
                0
            },
            None => 0,
        }
    }

    /// A running timer that expires `duration` from now.
    pub fn new(duration: Span) -> (r: Timer)
        ensures
            r.deadline_view() == Some(duration@),
    {
        Timer { origin: instant_now(), deadline: Some(duration) }
    }

    /// A frozen timer: on first launch the popup is up, and the timer only
    /// starts after the first close.
    pub fn frozen() -> (r: Timer)
        ensures
            r.deadline_view() is None,
    {
        Timer { origin: instant_now(), deadline: None }
    }

    /// Time since the timer's origin, read from the clock.
    pub fn now(&self) -> (r: Span)
        ensures
            clock_reading(r@),
    {
        Span::from_total_nanos(duration_nanos(elapsed_since(&self.origin)))
    }

    /// Whether the deadline has passed at `now`; a frozen timer never
    /// expires.
    pub fn is_expired_at(&self, now: Span) -> (r: bool)
        ensures
            r == self.expired_spec(now@),
    {
        match self.deadline {
            Some(d) => d.le(&now),
            None => false,
        }
    }

    /// Whether the deadline has passed, by the clock.
    pub fn is_expired(&self) -> (r: bool)
        ensures
            exists|n: nat| #[trigger] clock_reading(n) && r == self.expired_spec(n),
    {
        let now = self.now();
        let r = self.is_expired_at(now);
        assert(clock_reading(now@) && r == self.expired_spec(now@));
        r
    }

    /// Restart the countdown: the timer expires `duration` after `now`.
    pub fn reset_at(&mut self, now: Span, duration: Span)
        requires
            now@ + duration@ <= max_nanos(),
        ensures
            final(self).deadline_view() == Some(now@ + duration@),
            final(self).origin_view() == old(self).origin_view(),
    {
        self.deadline = Some(now.add(&duration));
    }

    /// Restart the countdown at the reading `now` when the new deadline,
    /// `duration` after it, lies within the range of spans; otherwise leave
    /// the timer as it was. Returns whether it restarted.
    pub fn try_reset_at(&mut self, now: Span, duration: Span) -> (r: bool)
        ensures
            r == (now@ + duration@ <= max_nanos()),
            r ==> final(self).deadline_view() == Some(now@ + duration@),
            r ==> final(self).origin_view() == old(self).origin_view(),
            !r ==> *final(self) == *old(self),
    {
        let total = now.as_nanos() + duration.as_nanos();
        if total <= crate::span::max_nanos_exec() {
            self.reset_at(now, duration);
            true
        } else {
            false
        }
    }

    /// Restart the countdown from the clock's reading. The deadline moves
    /// to `duration` after now; in the one case where that instant would lie
    /// past the range of spans the timer is left as it was, and `false` is
    /// returned.
    pub fn reset(&mut self, duration: Span) -> (r: bool)
        ensures
            exists|n: nat|
                #[trigger] clock_reading(n) && r == (n + duration@ <= max_nanos()) && (r
                    ==> final(self).deadline_view() == Some(n + duration@)),
            r ==> final(self).origin_view() == old(self).origin_view(),
            !r ==> *final(self) == *old(self),
    {
        let now = self.now();
        let r = self.try_reset_at(now, duration);
        assert(clock_reading(now@) && r == (now@ + duration@ <= max_nanos()));
        r
    }

    /// Time left until the deadline at `now`: zero once expired, and zero
    /// for a frozen timer.
    pub fn remaining_at(&self, now: Span) -> (r: Span)
        ensures
            r@ == self.remaining_spec(now@),
    {
        match self.deadline {
            Some(d) => d.saturating_sub(&now),
            None => Span::zero(),
        }
    }

    /// Time left until the deadline, by the clock.
    pub fn remaining(&self) -> (r: Span)
        ensures
            self.deadline_view() is None ==> r@ == 0,
            self.deadline_view() matches Some(d) ==> r@ <= d,
    {
        let now = self.now();
        self.remaining_at(now)
    }
}

/// A running timer has expired exactly when no time is left, and
/// restarting it at `now` with a positive length makes it unexpired with
/// the whole length left.
pub proof fn lemma_expired_iff_nothing_left(t: Timer, now: nat, duration: nat)
    ensures
        t.deadline_view() is Some ==> (t.expired_spec(now) <==> t.remaining_spec(now) == 0),
        t.deadline_view() == Some(now + duration) && duration > 0 ==> !t.expired_spec(now)
            && t.remaining_spec(now) == duration,
{
}

} // verus!
