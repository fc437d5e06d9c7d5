//! Averaging the ADC readings of a thermistor: the readings taken for one
//! temperature measurement are summed and their mean taken.
use vstd::prelude::*;

verus! {

/// The readings taken so far for one measurement.
pub struct SampleSum {
    total: u64,
    count: u64,
}

impl SampleSum {
    /// The sum of the readings.
    pub closed spec fn total(&self) -> nat {
        self.total as nat
    }

    /// How many readings were taken.
    pub closed spec fn count(&self) -> nat {
        self.count as nat
    }

    /// No reading taken yet.
    pub fn new() -> (s: Self)
        ensures
            s.total() == 0,
            s.count() == 0,
    {
        SampleSum { total: 0, count: 0 }
    }

    /// Whether one more reading of `reading` fits the counters.
    pub fn can_add(&self, reading: u16) -> (b: bool)
        ensures
            b == (self.total() + reading <= u64::MAX && self.count() < u64::MAX),
    {
        self.count < u64::MAX && reading as u64 <= u64::MAX - self.total
    }

    /// Takes one more reading into the sum.
    pub fn add(&mut self, reading: u16)
        requires
            old(self).total() + reading <= u64::MAX,
            old(self).count() < u64::MAX,
        ensures
            final(self).total() == old(self).total() + reading,
            final(self).count() == old(self).count() + 1,
    {
        self.total = self.total + reading as u64;
        self.count = self.count + 1;
    }

    /// The mean reading, rounded down.
    pub fn mean(&self) -> (m: u64)
        requires
            self.count() > 0,
        ensures
            m == self.total() / self.count(),
    {
        self.total / self.count
    }
}

} // verus!
