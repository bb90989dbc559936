//! Fixed-timestep accumulator.
//!
//! The simulation advances at its own cadence, independent of the frame
//! rate: the frame loop reports elapsed wall-clock time here, and whenever
//! the accumulated time has reached the tick interval, one generation is
//! due and the accumulator starts over.  The timer is plain owned state
//! threaded through the loop; there is no hidden global counter.

use vstd::prelude::*;

verus! {

/// Accumulated frame time, in milliseconds, against a fixed tick interval.
#[derive(Clone, Copy, Debug, PartialEq, Eq, Structural)]
pub struct TickTimer {
    /// Milliseconds gathered since the last generation fired.
    pub accumulated: u64,
    /// Milliseconds of accumulated time at which a generation is due.
    pub interval: u64,
}

impl TickTimer {
    /// A fresh timer with nothing accumulated.
    pub fn new(interval: u64) -> (t: TickTimer)
        ensures
            t.accumulated == 0,
            t.interval == interval,
    {
        TickTimer { accumulated: 0, interval }
    }

    /// Reports `delta` more milliseconds of elapsed frame time.
    ///
    /// Returns whether a generation is due: true exactly when the time
    /// gathered *before* this frame had reached the interval, in which case
    /// the accumulator restarts from zero before taking `delta` in.  At most
    /// one generation fires per frame, however large `delta` is.
    pub fn step(&mut self, delta: u64) -> (fire: bool)
        requires
            old(self).accumulated + delta <= u64::MAX,
        ensures
            fire == (old(self).accumulated >= old(self).interval),
            final(self).interval == old(self).interval,
            final(self).accumulated == (if fire {
                0int
            } else {
                old(self).accumulated as int
            }) + delta,
    {
        let fire = self.accumulated >= self.interval;
        if fire {
            self.accumulated = 0;
        }
        self.accumulated = self.accumulated + delta;
        fire
    }
}

} // verus!
