//! Animation timing and the panel's appearance mode.

use vstd::prelude::*;
use std::time::Instant;

verus! {

#[verifier::external_type_specification]
#[verifier::external_body]
pub struct ExInstant(Instant);

/// Light or dark appearance.
#[derive(Debug, Clone, Copy, PartialEq, Eq)]
pub enum Appearance {
    Light,
    Dark,
}

/// `Instant::now()`. Depends on the clock; nothing is stated of it.
#[verifier::external_body]
fn instant_now() -> Instant {
    Instant::now()
}

/// Milliseconds elapsed since `start` (`Instant::elapsed().as_millis()`).
/// Depends on the clock; nothing is stated of it.
#[verifier::external_body]
fn elapsed_millis(start: &Instant) -> u128 {
    start.elapsed().as_millis()
}

/// The time state of one animation.
#[derive(Debug, Clone, Copy)]
pub struct Tween {
    pub start: Instant,
    pub duration_ms: u32,
}

/// Whether an animation of `duration_ms` is over `elapsed_ms` after its
/// start: once the elapsed time reaches the duration; a zero-length
/// animation is over as soon as any time has passed.
pub open spec fn tween_done(elapsed_ms: u128, duration_ms: u32) -> bool {
    if duration_ms == 0 {
        elapsed_ms > 0
    } else {
        elapsed_ms >= duration_ms
    }
}

/// Whether an animation of `duration_ms` is over after `elapsed_ms`.
pub fn finished_after(elapsed_ms: u128, duration_ms: u32) -> (r: bool)
    ensures
        r == tween_done(elapsed_ms, duration_ms),
{
    if duration_ms == 0 {
        elapsed_ms > 0
    } else {
        elapsed_ms >= duration_ms as u128
    }
}

impl Tween {
    /// An animation of `duration_ms` starting now.
    pub fn now(duration_ms: u32) -> (t: Self)
        ensures
            t.duration_ms == duration_ms,
    {
        Tween { start: instant_now(), duration_ms }
    }

    /// Whether the animation has run its course; the elapsed time is read
    /// from the clock.
    pub fn finished(&self) -> (r: bool)
        ensures
            exists|e: u128| r == tween_done(e, self.duration_ms),
    {
        let e = elapsed_millis(&self.start);
        let r = finished_after(e, self.duration_ms);
        assert(r == tween_done(e, self.duration_ms));
        r
    }
}

} // verus!
