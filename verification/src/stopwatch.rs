//! Measuring elapsed time in ticks of the board's clock.
//!
//! The clock is read by the caller, which hands the current tick count in.
use vstd::prelude::*;

verus! {

pub struct StopWatch {
    last_ticks: u64,
}

impl StopWatch {
    /// The tick count at which the watch was last started.
    pub closed spec fn started_at(&self) -> u64 {
        self.last_ticks
    }

    /// A watch started at tick 0.
    pub fn new() -> (w: StopWatch)
        ensures
            w.started_at() == 0,
    {
        StopWatch { last_ticks: 0 }
    }

    /// Starts the watch at tick `now_ticks`.
    pub fn start(&mut self, now_ticks: u64)
        ensures
            final(self).started_at() == now_ticks,
    {
        self.last_ticks = now_ticks;
    }

    /// The ticks elapsed from the start to `now_ticks`.
    pub fn measure(&self, now_ticks: u64) -> (d: u64)
        requires
            self.started_at() <= now_ticks,
        ensures
            d == now_ticks - self.started_at(),
    {
        now_ticks - self.last_ticks
    }
}

} // verus!
