//! A minimal countdown timer for visual effects, counted in nanoseconds.

use vstd::prelude::*;

verus! {

/// A one-shot countdown: it finishes once the accumulated time reaches its duration.
#[derive(Debug, Clone)]
pub struct SimpleTimer {
    duration_nanos: u64,
    elapsed_nanos: u64,
    finished: bool,
}

impl SimpleTimer {
    pub closed spec fn spec_duration(&self) -> nat {
        self.duration_nanos as nat
    }

    pub closed spec fn spec_elapsed(&self) -> nat {
        self.elapsed_nanos as nat
    }

    pub closed spec fn spec_finished(&self) -> bool {
        self.finished
    }

    /// The timer's own invariant: it is finished exactly when the elapsed
    /// time has reached the duration.
    pub closed spec fn wf(&self) -> bool {
        self.finished == (self.elapsed_nanos >= self.duration_nanos)
    }

    /// A timer of `millis` milliseconds that has not started.
    pub fn from_millis(millis: u64) -> (r: Self)
        requires
            millis * 1_000_000 <= u64::MAX,
        ensures
            r.wf(),
            r.spec_duration() == millis * 1_000_000,
            r.spec_elapsed() == 0,
            r.spec_finished() == (millis == 0),
    {
        let d = millis * 1_000_000;
        Self { duration_nanos: d, elapsed_nanos: 0, finished: d == 0 }
    }

    /// Advances the timer by `delta_nanos` unless it has already finished;
    /// it finishes once the elapsed time reaches the duration.
    pub fn tick(&mut self, delta_nanos: u64)
        requires
            !old(self).spec_finished() ==> old(self).spec_elapsed() + delta_nanos <= u64::MAX,
        ensures
            final(self).spec_duration() == old(self).spec_duration(),
            old(self).spec_finished() ==> final(self).spec_elapsed() == old(self).spec_elapsed()
                && final(self).spec_finished(),
            !old(self).spec_finished() ==> final(self).spec_elapsed() == old(self).spec_elapsed()
                + delta_nanos && final(self).spec_finished() == (final(self).spec_elapsed()
                >= final(self).spec_duration()),
            old(self).wf() ==> final(self).wf(),
            !old(self).spec_finished() ==> final(self).wf(),
    {
        if !self.finished {
            self.elapsed_nanos = self.elapsed_nanos + delta_nanos;
            if self.elapsed_nanos >= self.duration_nanos {
                self.finished = true;
            }
        }
    }

    /// The time counted so far, in nanoseconds.
    pub fn elapsed_nanos(&self) -> (r: u64)
        ensures
            r == self.spec_elapsed(),
    {
        self.elapsed_nanos
    }

    /// The duration, in nanoseconds.
    pub fn duration_nanos(&self) -> (r: u64)
        ensures
            r == self.spec_duration(),
    {
        self.duration_nanos
    }

    /// Whether the timer meets its invariant (see `wf`).
    pub fn is_wf(&self) -> (r: bool)
        ensures
            r == self.wf(),
    {
        self.finished == (self.elapsed_nanos >= self.duration_nanos)
    }

    /// Whether the duration has elapsed.
    pub fn finished(&self) -> (r: bool)
        ensures
            r == self.spec_finished(),
    {
        self.finished
    }

    /// Advances a repeating countdown by `delta_nanos`: when the elapsed time
    /// reaches the duration it wraps around (keeping the remainder), and the
    /// result says whether it did.
    pub fn tick_repeating(&mut self, delta_nanos: u64) -> (wrapped: bool)
        requires
            old(self).spec_duration() > 0,
            old(self).spec_elapsed() + delta_nanos <= u64::MAX,
        ensures
            final(self).spec_duration() == old(self).spec_duration(),
            wrapped == (old(self).spec_elapsed() + delta_nanos >= old(self).spec_duration()),
            final(self).spec_elapsed() == (old(self).spec_elapsed() + delta_nanos) % (old(self).spec_duration() as int),
            !final(self).spec_finished(),
            final(self).wf(),
    {
        let total = self.elapsed_nanos + delta_nanos;
        let wrapped = total >= self.duration_nanos;
        self.elapsed_nanos = total % self.duration_nanos;
        self.finished = false;
        wrapped
    }

    /// Starts the countdown again from zero.
    pub fn reset(&mut self)
        ensures
            final(self).spec_duration() == old(self).spec_duration(),
            final(self).spec_elapsed() == 0,
            !final(self).spec_finished(),
            final(self).wf() <==> old(self).spec_duration() > 0,
    {
        self.elapsed_nanos = 0;
        self.finished = false;
    }
}

} // verus!
