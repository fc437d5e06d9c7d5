//! The hardware a board gives the firmware: PWM outputs, ADCs and pins.
//!
//! The board implements these traits; the firmware's logic is written
//! against them. Waiting on a pin or an ADC conversion is asynchronous and
//! is left to the board's runtime, so only the immediate operations are
//! declared here.
use vstd::prelude::*;

verus! {

/// Which PWM channel an output uses.
pub struct PwmOutputConfig {
    pub channel: u8,
}

/// A PWM peripheral with several channels.
pub trait PwmBase {
    type Channel: Copy + Clone;

    /// Whether a channel drives its output.
    spec fn spec_enabled(&self, channel: Self::Channel) -> bool;

    /// The duty cycle last set on a channel.
    spec fn spec_duty(&self, channel: Self::Channel) -> u64;

    /// The duty cycle that keeps the output high for the whole period.
    spec fn spec_max_duty(&self) -> u64;

    fn enable(&mut self, channel: Self::Channel)
        ensures
            final(self).spec_enabled(channel),
            forall|c: Self::Channel|
                c != channel ==> #[trigger] final(self).spec_enabled(c) == old(self).spec_enabled(c),
            final(self).spec_max_duty() == old(self).spec_max_duty(),
            forall|c: Self::Channel| #[trigger] final(self).spec_duty(c) == old(self).spec_duty(c),
    ;

    fn disable(&mut self, channel: Self::Channel)
        ensures
            !final(self).spec_enabled(channel),
            forall|c: Self::Channel|
                c != channel ==> #[trigger] final(self).spec_enabled(c) == old(self).spec_enabled(c),
            final(self).spec_max_duty() == old(self).spec_max_duty(),
            forall|c: Self::Channel| #[trigger] final(self).spec_duty(c) == old(self).spec_duty(c),
    ;

    fn get_max_duty(&self) -> (d: u64)
        ensures
            d == self.spec_max_duty(),
    ;

    fn set_duty(&mut self, channel: Self::Channel, duty_cycle: u64)
        ensures
            final(self).spec_duty(channel) == duty_cycle,
            forall|c: Self::Channel|
                c != channel ==> #[trigger] final(self).spec_duty(c) == old(self).spec_duty(c),
            final(self).spec_max_duty() == old(self).spec_max_duty(),
            forall|c: Self::Channel| #[trigger] final(self).spec_enabled(c) == old(self).spec_enabled(c),
    ;
}

/// An analog-to-digital converter.
pub trait AdcBase {
    type PinType;
    type SampleTime: Copy + Clone;
    type Resolution: Copy + Clone + Into<u64>;

    fn set_sample_time(&mut self, sample_time: Self::SampleTime);

    fn sample_time(&self) -> Self::SampleTime;

    fn set_resolution(&mut self, resolution: Self::Resolution);

    fn resolution(&self) -> Self::Resolution;
}

/// A digital output.
pub trait OutputPinBase {
    fn set_high(&mut self);

    fn set_low(&mut self);

    fn is_high(&self) -> bool;
}

/// A digital input that can raise an interrupt on a change of level.
pub trait ExtiInputPinBase {
    fn is_high(&self) -> bool;
}

} // verus!
