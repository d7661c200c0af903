//! The countdown that tells when a fallen piece has come to rest.
//!
//! The countdown is the engine's own `Timer`. Nothing in this file is proved:
//! it says what the simulation relies on of that timer.
use vstd::prelude::*;
use bevy::time::Timer;
use bevy::time::TimerMode;
use std::time::Duration;

verus! {

/// The engine's timer. The functions below say what the simulation reads of
/// it; nothing else is claimed of it.
#[verifier::external_type_specification]
#[verifier::external_body]
pub struct ExTimer(Timer);

/// What `bevy::time::Timer::elapsed` returns, in nanoseconds.
pub uninterp spec fn timer_elapsed(timer: Timer) -> nat;

/// What `bevy::time::Timer::duration` returns, in nanoseconds.
pub uninterp spec fn timer_duration(timer: Timer) -> nat;

/// What `bevy::time::Timer::paused` returns.
pub uninterp spec fn timer_paused(timer: Timer) -> bool;

/// Whether `bevy::time::Timer::mode` returns `TimerMode::Repeating`.
pub uninterp spec fn timer_repeating(timer: Timer) -> bool;

/// What `bevy::time::Timer::finished` returns.
pub uninterp spec fn timer_finished(timer: Timer) -> bool;

/// A timer that runs once, is not paused and has not finished.
pub open spec fn timer_counts(timer: Timer) -> bool {
    !timer_paused(timer) && !timer_repeating(timer) && !timer_finished(timer)
}

/// `bevy::time::Timer::new` with `TimerMode::Once`: the timer starts at zero,
/// is not paused, has not finished, and lasts `duration_nanos`.
#[verifier::external_body]
pub(crate) fn once_timer(duration_nanos: u64) -> (timer: Timer)
    ensures
        timer_elapsed(timer) == 0,
        timer_duration(timer) == duration_nanos,
        timer_counts(timer),
{
    Timer::new(Duration::from_nanos(duration_nanos), TimerMode::Once)
}

/// `bevy::time::Timer::reset`: the timer starts over from zero; its duration,
/// its mode and whether it is paused stay.
#[verifier::external_body]
pub(crate) fn reset_timer(timer: &mut Timer)
    ensures
        timer_elapsed(*final(timer)) == 0,
        !timer_finished(*final(timer)),
        timer_duration(*final(timer)) == timer_duration(*old(timer)),
        timer_paused(*final(timer)) == timer_paused(*old(timer)),
        timer_repeating(*final(timer)) == timer_repeating(*old(timer)),
{
    timer.reset();
}

/// `bevy::time::Timer::tick`, then `Timer::just_finished`, on a timer that
/// runs once, is not paused and has not finished: the timer finishes in this
/// tick exactly when the time elapsed reaches its duration, and then stands
/// at its duration; otherwise the time elapsed grows by `delta_nanos`.
#[verifier::external_body]
pub(crate) fn tick_timer(timer: &mut Timer, delta_nanos: u64) -> (just_finished: bool)
    requires
        timer_counts(*old(timer)),
    ensures
        just_finished == (timer_elapsed(*old(timer)) + delta_nanos >= timer_duration(*old(timer))),
        timer_finished(*final(timer)) == just_finished,
        just_finished ==> timer_elapsed(*final(timer)) == timer_duration(*old(timer)),
        !just_finished ==> timer_elapsed(*final(timer)) == timer_elapsed(*old(timer)) + delta_nanos,
        timer_duration(*final(timer)) == timer_duration(*old(timer)),
        timer_paused(*final(timer)) == timer_paused(*old(timer)),
        timer_repeating(*final(timer)) == timer_repeating(*old(timer)),
{
    timer.tick(Duration::from_nanos(delta_nanos)).just_finished()
}

/// `bevy::time::Timer::elapsed`, in nanoseconds.
#[verifier::external_body]
pub(crate) fn elapsed_nanos(timer: &Timer) -> (nanos: u128)
    ensures
        nanos == timer_elapsed(*timer),
{
    timer.elapsed().as_nanos()
}

} // verus!
