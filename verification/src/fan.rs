//! A fan driven by one PWM channel.
//!
//! Speeds are whole revolutions per minute.
use vstd::prelude::*;
use crate::common::{PwmBase, PwmOutputConfig};

verus! {

pub struct FanConfig {
    /// The speed at full duty, in revolutions per minute.
    pub max_speed: u64,
    pub pwm: PwmOutputConfig,
}

/// The duty cycle that `set_speed` writes for a requested speed: the
/// maximal duty scaled by the maximal speed over the requested one (clamped
/// to the maximal speed), saturating at `u64::MAX`. A request of zero gives
/// `u64::MAX`, or 0 when the maximal speed or the maximal duty is 0.
pub open spec fn fan_duty(max_duty: u64, max_speed: u64, rpm: u64) -> u64 {
    let r = if rpm <= max_speed {
        rpm
    } else {
        max_speed
    };
    if r == 0 {
        if max_speed == 0 || max_duty == 0 {
            0
        } else {
            u64::MAX
        }
    } else {
        let q: int = (max_duty * max_speed) as int / r as int;
        if q > u64::MAX {
            u64::MAX
        } else {
            q as u64
        }
    }
}

pub struct FanController<P: PwmBase> {
    ch: P::Channel,
    max_speed: u64,
}

impl<P: PwmBase> FanController<P> {
    pub closed spec fn channel(&self) -> P::Channel {
        self.ch
    }

    pub closed spec fn spec_max_speed(&self) -> u64 {
        self.max_speed
    }

    pub fn new(ch: P::Channel, max_speed: u64) -> (f: Self)
        ensures
            f.channel() == ch,
            f.spec_max_speed() == max_speed,
    {
        Self { ch, max_speed }
    }

    pub fn enable(&self, pwm: &mut P)
        ensures
            final(pwm).spec_enabled(self.channel()),
            forall|c: P::Channel|
                c != self.channel() ==> #[trigger] final(pwm).spec_enabled(c) == old(
                    pwm,
                ).spec_enabled(c),
            final(pwm).spec_max_duty() == old(pwm).spec_max_duty(),
            forall|c: P::Channel| #[trigger] final(pwm).spec_duty(c) == old(pwm).spec_duty(c),
    {
        pwm.enable(self.ch);
    }

    pub fn disable(&self, pwm: &mut P)
        ensures
            !final(pwm).spec_enabled(self.channel()),
            forall|c: P::Channel|
                c != self.channel() ==> #[trigger] final(pwm).spec_enabled(c) == old(
                    pwm,
                ).spec_enabled(c),
            final(pwm).spec_max_duty() == old(pwm).spec_max_duty(),
            forall|c: P::Channel| #[trigger] final(pwm).spec_duty(c) == old(pwm).spec_duty(c),
    {
        pwm.disable(self.ch);
    }

    /// Writes the duty cycle for `rpm` on the fan's channel.
    pub fn set_speed(&mut self, rpm: u64, pwm: &mut P)
        ensures
            final(pwm).spec_duty(old(self).channel()) == fan_duty(
                old(pwm).spec_max_duty(),
                old(self).spec_max_speed(),
                rpm,
            ),
            forall|c: P::Channel|
                c != old(self).channel() ==> #[trigger] final(pwm).spec_duty(c) == old(
                    pwm,
                ).spec_duty(c),
            final(pwm).spec_max_duty() == old(pwm).spec_max_duty(),
            forall|c: P::Channel| #[trigger] final(pwm).spec_enabled(c) == old(pwm).spec_enabled(c),
            final(self).channel() == old(self).channel(),
            final(self).spec_max_speed() == old(self).spec_max_speed(),
    {
        let r = if rpm <= self.max_speed {
            rpm
        } else {
            self.max_speed
        };
        let max_duty = pwm.get_max_duty();
        let duty: u64 = if r == 0 {
            if self.max_speed == 0 || max_duty == 0 {
                0
            } else {
                u64::MAX
            }
        } else {
            let a: u128 = max_duty as u128;
            let b: u128 = self.max_speed as u128;
            assert(a * b <= u64::MAX as int * u64::MAX as int) by (nonlinear_arith)
                requires
                    a <= u64::MAX,
                    b <= u64::MAX,
            ;
            let scaled: u128 = a * b / (r as u128);
            if scaled > u64::MAX as u128 {
                u64::MAX
            } else {
                scaled as u64
            }
        };
        pwm.set_duty(self.ch, duty);
    }

    pub fn get_max_speed(&self) -> (s: u64)
        ensures
            s == self.spec_max_speed(),
    {
        self.max_speed
    }
}

} // verus!
