use vstd::prelude::*;
use std::time::Duration;
use bevy::time::{Timer, TimerMode};
use vstd::arithmetic::div_mod::{
    lemma_small_mod,
    lemma_mod_add_multiples_vanish,
    lemma_add_mod_noop_right,
    lemma_fundamental_div_mod_converse,
};

verus! {

#[verifier::external_type_specification]
#[verifier::external_body]
pub struct ExTimer(bevy::time::Timer);

/// The duration that a timer was made with (`Timer::duration`).
pub uninterp spec fn timer_duration(timer: Timer) -> Duration;

/// Whether a timer is in repeating mode (`Timer::mode` is `Repeating`).
pub uninterp spec fn timer_repeats(timer: Timer) -> bool;

/// The time elapsed on a timer, in nanoseconds (`Timer::elapsed`).
pub uninterp spec fn timer_elapsed_nanos(timer: Timer) -> nat;

/// The timer that `Timer::tick` leaves when it ticks `timer` by `delta`.
pub uninterp spec fn timer_after_tick(timer: Timer, delta: Duration) -> Timer;

/// Whether the last tick made the timer finish (`Timer::just_finished`).
pub uninterp spec fn timer_fired(timer: Timer) -> bool;

/// Whether a timer is paused (`Timer::is_paused`).
pub uninterp spec fn timer_paused(timer: Timer) -> bool;

/// The length of a duration in nanoseconds (`Duration::as_nanos`).
pub uninterp spec fn duration_nanos(duration: Duration) -> nat;

/// The longest `Duration` in nanoseconds (`Duration::MAX`).
pub open spec fn max_duration_nanos() -> nat {
    18_446_744_073_709_551_615_999_999_999
}

/// The elapsed time, in nanoseconds, after adding `delta` to `elapsed` with
/// saturation at the longest `Duration`.
pub open spec fn saturated_sum(elapsed: nat, delta: nat) -> nat {
    if elapsed + delta > max_duration_nanos() {
        max_duration_nanos()
    } else {
        elapsed + delta
    }
}

/// Whether a tick by `delta` fires a running repeating timer with `elapsed`
/// time on a timer of `duration` (all in nanoseconds): the new elapsed time
/// reaches the duration, and the number of completed periods, as a `u32`, is
/// not zero.
pub open spec fn repeating_tick_fires(elapsed: nat, delta: nat, duration: nat) -> bool {
    let total = saturated_sum(elapsed, delta);
    total >= duration && (duration == 0 || (total / duration) % 0x1_0000_0000 != 0)
}

/// The elapsed time, in nanoseconds, that a tick by `delta` leaves on a
/// running repeating timer: what is left of a completed period (as a `u64`),
/// or the whole new elapsed time when no period completed.
pub open spec fn repeating_tick_elapsed(elapsed: nat, delta: nat, duration: nat) -> nat {
    let total = saturated_sum(elapsed, delta);
    if total >= duration {
        if duration == 0 {
            0
        } else {
            (total % duration) % 0x1_0000_0000_0000_0000
        }
    } else {
        total
    }
}

/// What a tick by `delta` nanoseconds does to a timer whose duration is
/// `duration` nanoseconds, as the source of `Timer::tick` shows it: the
/// duration, the mode and the pause state stay; a paused timer neither fires
/// nor moves; a running repeating timer fires and keeps the elapsed time as
/// `repeating_tick_fires` and `repeating_tick_elapsed` say. What it does to a
/// running timer that does not repeat is not stated.
pub open spec fn ticked(before: Timer, after: Timer, delta: nat, duration: nat) -> bool {
    let elapsed = timer_elapsed_nanos(before);
    &&& timer_duration(after) == timer_duration(before)
    &&& timer_repeats(after) == timer_repeats(before)
    &&& timer_paused(after) == timer_paused(before)
    &&& timer_paused(before) ==> !timer_fired(after) && timer_elapsed_nanos(after) == elapsed
    &&& timer_repeats(before) && !timer_paused(before) ==> {
        &&& timer_fired(after) == repeating_tick_fires(elapsed, delta, duration)
        &&& timer_elapsed_nanos(after) == repeating_tick_elapsed(elapsed, delta, duration)
    }
}

/// `ticked` for a tick by the duration `delta`.
pub open spec fn ticked_by(before: Timer, after: Timer, delta: Duration) -> bool {
    ticked(before, after, duration_nanos(delta), duration_nanos(timer_duration(before)))
}

/// Calls `Timer::new` with the given duration in repeating mode. Its source
/// stores the duration and the mode and takes every other field from the
/// default timer, whose elapsed time is zero.
#[verifier::external_body]
fn repeating_timer(duration: Duration) -> (timer: Timer)
    ensures
        timer_duration(timer) == duration,
        timer_repeats(timer),
        !timer_paused(timer),
        timer_elapsed_nanos(timer) == 0,
{
    Timer::new(duration, TimerMode::Repeating)
}

/// Calls `Timer::tick`, which advances the timer by `delta`; the result is a
/// function of the timer and `delta` alone. Its source adds with
/// `saturating_add` and divides with `checked_div`/`checked_rem`, so it does
/// not panic; a repeating timer that finishes counts the completed periods as
/// a `u32` and keeps the remainder as a `u64` of nanoseconds (`ticked`).
#[verifier::external_body]
fn tick_timer(timer: &mut Timer, delta: Duration)
    ensures
        *final(timer) == timer_after_tick(*old(timer), delta),
        ticked(*old(timer), *final(timer), duration_nanos(delta), duration_nanos(timer_duration(*old(timer)))),
{
    timer.tick(delta);
}

/// Calls `Timer::just_finished`, which reports whether the last tick made the
/// timer finish.
#[verifier::external_body]
fn timer_just_finished(timer: &Timer) -> (fired: bool)
    ensures
        fired == timer_fired(*timer),
{
    timer.just_finished()
}

/// The frame that follows `index` in an animation of `total` frames.
pub open spec fn next_frame(index: int, total: int) -> int {
    (index + 1) % total
}

/// The frame reached from `index` after `steps` frame advances.
pub open spec fn frame_after(index: int, total: int, steps: nat) -> int
    decreases steps,
{
    if steps == 0 {
        index
    } else {
        next_frame(frame_after(index, total, (steps - 1) as nat), total)
    }
}

/// Sprite-sheet animation state: the current atlas `index`, the number of
/// frames `total`, and the `timer` that paces the frames.
pub struct SpriteFrameUpdate {
    pub index: usize,
    pub total: usize,
    pub timer: Timer,
}

impl SpriteFrameUpdate {
    /// The animation state for a sprite sheet of `cols` by `rows` frames,
    /// starting at frame `index`, showing each frame for `frame_duration`.
    pub fn from_grid(cols: usize, rows: usize, index: usize, frame_duration: Duration) -> (r: Self)
        requires
            cols * rows <= usize::MAX,
        ensures
            r.total == cols * rows,
            r.index == index,
            timer_duration(r.timer) == frame_duration,
            timer_repeats(r.timer),
            timer_elapsed_nanos(r.timer) == 0,
    {
        let total = cols * rows;
        SpriteFrameUpdate { index, total, timer: repeating_timer(frame_duration) }
    }

    /// Moves to the next frame when `fired` (the timer just finished) and
    /// returns the current frame.
    pub fn step_frame(&mut self, fired: bool) -> (index: usize)
        requires
            fired ==> old(self).total > 0 && old(self).index < usize::MAX,
        ensures
            final(self).index == (if fired {
                next_frame(old(self).index as int, old(self).total as int)
            } else {
                old(self).index as int
            }),
            fired ==> final(self).index == (old(self).index + 1) % (old(self).total as int),
            final(self).total == old(self).total,
            final(self).timer == old(self).timer,
            index == final(self).index,
    {
        if fired {
            self.index = (self.index + 1) % self.total;
        }
        self.index
    }

    /// Advances the animation by `duration` and returns the new atlas index.
    /// The timer is ticked by `duration`, and the frame only moves on when the
    /// tick makes the timer fire.
    pub fn next_index(&mut self, duration: Duration) -> (index: usize)
        requires
            timer_fired(timer_after_tick(old(self).timer, duration)) ==> old(self).total > 0
                && old(self).index < usize::MAX,
        ensures
            final(self).timer == timer_after_tick(old(self).timer, duration),
            ticked_by(old(self).timer, final(self).timer, duration),
            final(self).index == (if timer_fired(final(self).timer) {
                next_frame(old(self).index as int, old(self).total as int)
            } else {
                old(self).index as int
            }),
            final(self).total == old(self).total,
            index == final(self).index,
    {
        tick_timer(&mut self.timer, duration);
        let fired = timer_just_finished(&self.timer);
        self.step_frame(fired)
    }

    /// Advances the animation by `duration` as `next_index` does, on every
    /// input: when the tick makes the timer fire on an animation with no
    /// frames, or whose index cannot be incremented, it returns `None` and
    /// keeps the frame; otherwise it returns the new atlas index.
    pub fn checked_next_index(&mut self, duration: Duration) -> (index: Option<usize>)
        ensures
            final(self).timer == timer_after_tick(old(self).timer, duration),
            ticked_by(old(self).timer, final(self).timer, duration),
            final(self).total == old(self).total,
            index is None <==> timer_fired(final(self).timer) && (old(self).total == 0
                || old(self).index == usize::MAX),
            index is None ==> final(self).index == old(self).index,
            index matches Some(i) ==> i == final(self).index && final(self).index == (if timer_fired(
                final(self).timer,
            ) {
                next_frame(old(self).index as int, old(self).total as int)
            } else {
                old(self).index as int
            }),
    {
        tick_timer(&mut self.timer, duration);
        let fired = timer_just_finished(&self.timer);
        if fired && (self.total == 0 || self.index == usize::MAX) {
            None
        } else {
            Some(self.step_frame(fired))
        }
    }

    /// One animation update of a sprite: ticks the timer by `delta` and, when
    /// the tick makes it fire, moves to the next frame and returns it; returns
    /// `None` and keeps the frame otherwise.
    pub fn advance(&mut self, delta: Duration) -> (advanced: Option<usize>)
        requires
            timer_fired(timer_after_tick(old(self).timer, delta)) ==> old(self).total > 0
                && old(self).index < usize::MAX,
        ensures
            final(self).timer == timer_after_tick(old(self).timer, delta),
            ticked_by(old(self).timer, final(self).timer, delta),
            final(self).total == old(self).total,
            advanced is Some <==> timer_fired(final(self).timer),
            match advanced {
                Some(i) => i == final(self).index && final(self).index == next_frame(
                    old(self).index as int,
                    old(self).total as int,
                ),
                None => final(self).index == old(self).index,
            },
    {
        tick_timer(&mut self.timer, delta);
        if timer_just_finished(&self.timer) {
            Some(self.step_frame(true))
        } else {
            None
        }
    }

    /// One animation update of a sprite, as `advance` does it, on every input:
    /// returns `None`, keeping the frame, when the tick makes the timer fire on
    /// an animation with no frames or whose index cannot be incremented;
    /// otherwise returns what `advance` returns: the new frame when the timer
    /// fired, and no frame when it did not.
    pub fn checked_advance(&mut self, delta: Duration) -> (step: Option<Option<usize>>)
        ensures
            final(self).timer == timer_after_tick(old(self).timer, delta),
            ticked_by(old(self).timer, final(self).timer, delta),
            final(self).total == old(self).total,
            step is None <==> timer_fired(final(self).timer) && (old(self).total == 0
                || old(self).index == usize::MAX),
            step matches Some(advanced) ==> (advanced is Some <==> timer_fired(final(self).timer)),
            match step {
                Some(Some(i)) => i == final(self).index && final(self).index == next_frame(
                    old(self).index as int,
                    old(self).total as int,
                ),
                _ => final(self).index == old(self).index,
            },
    {
        tick_timer(&mut self.timer, delta);
        if timer_just_finished(&self.timer) {
            if self.total == 0 || self.index == usize::MAX {
                None
            } else {
                Some(Some(self.step_frame(true)))
            }
        } else {
            Some(None)
        }
    }
}

/// `steps` frame advances from `index` land on `(index + steps) % total`.
proof fn lemma_frame_after(index: int, total: int, steps: nat)
    requires
        0 <= index < total,
    ensures
        frame_after(index, total, steps) == (index + steps) % total,
    decreases steps,
{
    if steps == 0 {
        lemma_small_mod(index as nat, total as nat);
    } else {
        lemma_frame_after(index, total, (steps - 1) as nat);
        lemma_add_mod_noop_right(1, index + steps - 1, total);
    }
}

/// Law: once the frame is in range, every advance keeps it in range, and
/// after `total` advances the animation is back on the frame it started from.
pub proof fn lemma_frames_cycle(index: int, total: int, steps: nat)
    requires
        0 <= index < total,
    ensures
        0 <= frame_after(index, total, steps) < total,
        frame_after(index, total, steps) == (index + steps) % total,
        frame_after(index, total, total as nat) == index,
{
    lemma_frame_after(index, total, steps);
    lemma_frame_after(index, total, total as nat);
    lemma_mod_add_multiples_vanish(index, total);
    lemma_small_mod(index as nat, total as nat);
}

/// Law: frames are paced by the timer's duration. Take a running repeating
/// timer whose duration `D` is positive and at most `u64::MAX` nanoseconds, with
/// less than `D` elapsed, and tick it by at most `D`: it fires exactly when the
/// elapsed time reaches `D`, keeps the time past `D` as its new elapsed time,
/// and so again has less than `D` elapsed, with its duration, mode and pause
/// state unchanged. Ticked by exactly `D` from zero elapsed, it fires on every
/// tick and stays at zero elapsed.
pub proof fn lemma_frame_pacing(before: Timer, after: Timer, delta: Duration)
    requires
        ticked_by(before, after, delta),
        timer_repeats(before),
        !timer_paused(before),
        0 < duration_nanos(timer_duration(before)) <= u64::MAX,
        timer_elapsed_nanos(before) < duration_nanos(timer_duration(before)),
        duration_nanos(delta) <= duration_nanos(timer_duration(before)),
    ensures
        ({
            let period = duration_nanos(timer_duration(before));
            let reached = timer_elapsed_nanos(before) + duration_nanos(delta);
            &&& timer_fired(after) <==> reached >= period
            &&& timer_elapsed_nanos(after) == (if reached >= period {
                reached - period
            } else {
                reached as int
            })
            &&& timer_elapsed_nanos(after) < period
            &&& timer_duration(after) == timer_duration(before)
            &&& timer_repeats(after)
            &&& !timer_paused(after)
        }),
{
    let period = duration_nanos(timer_duration(before));
    let reached = timer_elapsed_nanos(before) + duration_nanos(delta);
    assert(saturated_sum(timer_elapsed_nanos(before), duration_nanos(delta)) == reached);
    if reached >= period {
        lemma_fundamental_div_mod_converse(reached as int, period as int, 1, reached - period);
        lemma_small_mod(1, 0x1_0000_0000);
        lemma_small_mod((reached - period) as nat, 0x1_0000_0000_0000_0000);
    }
}

} // verus!
