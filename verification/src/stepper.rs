//! Stepper motor bookkeeping: which way a pulse turns the shaft, where the
//! shaft is, and how to get back to the origin.
//!
//! Positions are counted in sixteenths of a full step, the finest
//! microstep the driver supports, so every stepping mode moves the shaft by a
//! whole number of units.
use vstd::prelude::*;
use crate::units::{direction_sign, RotationDirection};

verus! {

/// Units of position in one full step.
pub const UNITS_PER_STEP: i64 = 16;

/// A digital output whose level can be read back.
pub trait StatefulOutputPin {
    spec fn spec_is_high(&self) -> bool;

    fn set_high(&mut self)
        ensures
            final(self).spec_is_high(),
    ;

    fn set_low(&mut self)
        ensures
            !final(self).spec_is_high(),
    ;

    fn is_high(&self) -> (b: bool)
        ensures
            b == self.spec_is_high(),
    ;
}

/// A digital input.
pub trait StepperInputPin {
    fn is_high(&self) -> bool;
}

#[derive(Debug, Clone, Copy, PartialEq, Eq, Structural)]
pub enum StepperError {
    MoveTooShort,
    MoveOutOfBounds,
    MoveNotValid,
    MissingAttachment,
    NotSupported,
    /// An endstop stopped the move.
    EndstopHit,
}

/// How many microsteps a full step is divided into.
#[derive(Debug, Clone, Copy, PartialEq, Eq, Structural)]
pub enum SteppingMode {
    FullStep,
    HalfStep,
    QuarterStep,
    EighthStep,
    SixteenthStep,
}

pub open spec fn mode_divisor(m: SteppingMode) -> u8 {
    match m {
        SteppingMode::FullStep => 1,
        SteppingMode::HalfStep => 2,
        SteppingMode::QuarterStep => 4,
        SteppingMode::EighthStep => 8,
        SteppingMode::SixteenthStep => 16,
    }
}

/// Position units that one pulse moves the shaft in a stepping mode.
pub open spec fn microstep_units(m: SteppingMode) -> i64 {
    match m {
        SteppingMode::FullStep => 16,
        SteppingMode::HalfStep => 8,
        SteppingMode::QuarterStep => 4,
        SteppingMode::EighthStep => 2,
        SteppingMode::SixteenthStep => 1,
    }
}

impl From<SteppingMode> for u8 {
    fn from(value: SteppingMode) -> (r: u8) {
        match value {
            SteppingMode::FullStep => 1,
            SteppingMode::HalfStep => 2,
            SteppingMode::QuarterStep => 4,
            SteppingMode::EighthStep => 8,
            SteppingMode::SixteenthStep => 16,
        }
    }
}

impl vstd::std_specs::convert::FromSpecImpl<SteppingMode> for u8 {
    open spec fn obeys_from_spec() -> bool {
        true
    }

    open spec fn from_spec(v: SteppingMode) -> u8 {
        mode_divisor(v)
    }
}

/// Marker of a stepper without a mechanical attachment.
pub struct NotAttached {}

/// Marker of a stepper that drives an attachment.
pub struct Attached {}

pub trait AttachmentMode {}

impl AttachmentMode for Attached {}

impl AttachmentMode for NotAttached {}

#[derive(Clone, Copy)]
pub struct StepperOptions {
    pub steps_per_revolution: u64,
    pub stepping_mode: SteppingMode,
    /// The lowest and highest position allowed, in units of a sixteenth of
    /// a full step.
    pub bounds: Option<(i64, i64)>,
    /// The rotation that counts as a positive move.
    pub positive_direction: RotationDirection,
}

impl Default for StepperOptions {
    fn default() -> (o: Self)
        ensures
            o.steps_per_revolution == 200,
            o.stepping_mode == SteppingMode::FullStep,
            o.bounds is None,
            o.positive_direction == RotationDirection::Clockwise,
    {
        Self {
            steps_per_revolution: 200,
            stepping_mode: SteppingMode::FullStep,
            bounds: None,
            positive_direction: RotationDirection::Clockwise,
        }
    }
}

/// The rotation that a level of the direction pin selects.
pub open spec fn pin_direction(high: bool) -> RotationDirection {
    if high {
        RotationDirection::Clockwise
    } else {
        RotationDirection::CounterClockwise
    }
}

/// The change of position that one pulse makes: one microstep, positive
/// when the shaft turns the positive way.
pub open spec fn step_delta(o: StepperOptions, d: RotationDirection) -> int {
    microstep_units(o.stepping_mode) * direction_sign(o.positive_direction) * direction_sign(d)
}

pub open spec fn within_bounds(o: StepperOptions, p: int) -> bool {
    match o.bounds {
        Some((lo, hi)) => lo <= p <= hi,
        None => true,
    }
}

/// The rotation that leads back to the origin from position `p`: away from
/// the positive direction when `p` times the positive sign is non-negative
/// (for `p == 0`, when the positive direction is clockwise), else toward it.
pub open spec fn home_direction(o: StepperOptions, p: int) -> RotationDirection {
    let positive = if p == 0 {
        o.positive_direction == RotationDirection::Clockwise
    } else {
        (p > 0) == (o.positive_direction == RotationDirection::Clockwise)
    };
    if positive {
        RotationDirection::CounterClockwise
    } else {
        RotationDirection::Clockwise
    }
}

/// The number of pulses that cover the distance from `p` to the origin in
/// the current stepping mode, rounded down.
pub open spec fn home_pulses(o: StepperOptions, p: int) -> int {
    (if p >= 0 {
        p
    } else {
        -p
    }) * mode_divisor(o.stepping_mode) / 16
}

/// Homing returns the shaft to the origin: the pulses that `prepare_home`
/// counts, each one microstep in the direction it selects, end at position
/// 0, when the position is a whole number of microsteps of the current
/// stepping mode.
pub proof fn law_home_reaches_origin(o: StepperOptions, p: int)
    requires
        p % (microstep_units(o.stepping_mode) as int) == 0,
    ensures
        p + home_pulses(o, p) * step_delta(o, home_direction(o, p)) == 0,
{
    let u = microstep_units(o.stepping_mode) as int;
    let d = mode_divisor(o.stepping_mode) as int;
    assert(u * d == 16);
    let m = if p >= 0 {
        p
    } else {
        -p
    };
    let k = m / u;
    assert(m == k * u) by (nonlinear_arith)
        requires
            m % u == 0,
            u > 0,
            k == m / u,
            m >= 0,
    {
    }
    assert(m * d / 16 == k) by (nonlinear_arith)
        requires
            m == k * u,
            u * d == 16,
    ;
    assert(home_pulses(o, p) == k);
    if p > 0 {
        assert(step_delta(o, home_direction(o, p)) == -u);
    } else if p < 0 {
        assert(step_delta(o, home_direction(o, p)) == u);
    }
    assert(p + k * step_delta(o, home_direction(o, p)) == 0) by (nonlinear_arith)
        requires
            m == k * u,
            p > 0 ==> m == p && step_delta(o, home_direction(o, p)) == -u,
            p < 0 ==> m == -p && step_delta(o, home_direction(o, p)) == u,
            p == 0 ==> m == 0,
            u > 0,
    ;
}

/// A run of pulses in one direction moves the shaft by that many
/// microsteps: `positions` are the positions before each pulse of the run
/// and after the last.
pub proof fn law_run_moves_by_pulses(o: StepperOptions, d: RotationDirection, positions: Seq<int>)
    requires
        positions.len() >= 1,
        forall|i: int|
            0 <= i < positions.len() - 1 ==> #[trigger] positions[i + 1] == positions[i]
                + step_delta(o, d),
    ensures
        positions.last() == positions[0] + (positions.len() - 1) * step_delta(o, d),
    decreases positions.len(),
{
    if positions.len() > 1 {
        let shorter = positions.drop_last();
        assert forall|i: int| 0 <= i < shorter.len() - 1 implies #[trigger] shorter[i + 1]
            == shorter[i] + step_delta(o, d) by {
            assert(positions[i + 1] == positions[i] + step_delta(o, d));
        }
        law_run_moves_by_pulses(o, d, shorter);
        let k = positions.len() - 2;
        assert(positions[k + 1] == positions[k] + step_delta(o, d));
        assert(shorter.last() == positions[k]);
        assert(shorter[0] == positions[0]);
        let n = positions.len() as int;
        let dl = step_delta(o, d);
        assert((n - 2) * dl + dl == (n - 1) * dl) by (nonlinear_arith);
        assert(shorter.len() == n - 1);
        assert(shorter.last() == positions[0] + (n - 2) * dl);
        assert(positions.last() == positions[k + 1]);
    } else {
        let dl = step_delta(o, d);
        assert((positions.len() - 1) * dl == 0) by (nonlinear_arith)
            requires
                positions.len() == 1,
        ;
    }
}

/// A pulse one way undoes a pulse the other way.
pub proof fn law_opposite_pulses_cancel(o: StepperOptions)
    ensures
        step_delta(o, RotationDirection::Clockwise) + step_delta(
            o,
            RotationDirection::CounterClockwise,
        ) == 0,
{
}

/// A stepper motor driven through a step pin and a direction pin.
pub struct Stepper<P: StatefulOutputPin, M: AttachmentMode> {
    step: P,
    dir: P,
    options: StepperOptions,
    step_duration_micros: u64,
    steps: i64,
    _attachment_mode: core::marker::PhantomData<M>,
}

impl<P: StatefulOutputPin, M: AttachmentMode> Stepper<P, M> {
    pub closed spec fn spec_options(&self) -> StepperOptions {
        self.options
    }

    /// The position, in sixteenths of a full step.
    pub closed spec fn position(&self) -> i64 {
        self.steps
    }

    /// The rotation that the direction pin selects.
    pub closed spec fn direction(&self) -> RotationDirection {
        pin_direction(self.dir.spec_is_high())
    }

    pub closed spec fn spec_step_duration(&self) -> u64 {
        self.step_duration_micros
    }

    /// Whether the step pin rests low.
    pub closed spec fn step_pin_low(&self) -> bool {
        !self.step.spec_is_high()
    }

    fn new_inner(step: P, dir: P, options: StepperOptions) -> (s: Self)
        ensures
            s.spec_options() == options,
            s.position() == 0,
            s.spec_step_duration() == 1_000_000,
            s.direction() == pin_direction(dir.spec_is_high()),
    {
        Self {
            step,
            dir,
            options,
            step_duration_micros: 1_000_000,
            steps: 0,
            _attachment_mode: core::marker::PhantomData,
        }
    }

    /// Sets the delay between two pulses, in microseconds.
    pub fn set_step_duration(&mut self, micros: u64)
        ensures
            final(self).spec_step_duration() == micros,
            final(self).spec_options() == old(self).spec_options(),
            final(self).position() == old(self).position(),
            final(self).direction() == old(self).direction(),
    {
        self.step_duration_micros = micros;
    }

    pub fn get_step_duration(&self) -> (d: u64)
        ensures
            d == self.spec_step_duration(),
    {
        self.step_duration_micros
    }

    pub fn set_stepping_mode(&mut self, mode: SteppingMode)
        ensures
            final(self).spec_options() == (StepperOptions {
                stepping_mode: mode,
                ..old(self).spec_options()
            }),
            final(self).position() == old(self).position(),
            final(self).direction() == old(self).direction(),
            final(self).spec_step_duration() == old(self).spec_step_duration(),
    {
        self.options.stepping_mode = mode;
    }

    pub fn set_options(&mut self, options: StepperOptions)
        ensures
            final(self).spec_options() == options,
            final(self).position() == old(self).position(),
            final(self).direction() == old(self).direction(),
            final(self).spec_step_duration() == old(self).spec_step_duration(),
    {
        self.options = options;
    }

    pub fn get_options(&self) -> (o: StepperOptions)
        ensures
            o == self.spec_options(),
    {
        self.options
    }

    /// Sets the direction pin: high for clockwise.
    pub fn set_direction(&mut self, direction: RotationDirection)
        ensures
            final(self).direction() == direction,
            final(self).spec_options() == old(self).spec_options(),
            final(self).position() == old(self).position(),
            final(self).spec_step_duration() == old(self).spec_step_duration(),
            final(self).step_pin_low() == old(self).step_pin_low(),
    {
        match direction {
            RotationDirection::Clockwise => self.dir.set_high(),
            RotationDirection::CounterClockwise => self.dir.set_low(),
        };
    }

    pub fn get_direction(&self) -> (d: RotationDirection)
        ensures
            d == self.direction(),
    {
        if self.dir.is_high() {
            RotationDirection::Clockwise
        } else {
            RotationDirection::CounterClockwise
        }
    }

    /// One pulse: the position moves by one microstep in the selected
    /// direction, unless that leaves the bounds, in which case nothing
    /// changes and the move is refused.
    pub fn step(&mut self) -> (r: Result<(), StepperError>)
        requires
            i64::MIN + 16 <= old(self).position() <= i64::MAX - 16,
        ensures
            final(self).spec_options() == old(self).spec_options(),
            final(self).direction() == old(self).direction(),
            final(self).spec_step_duration() == old(self).spec_step_duration(),
            ({
                let next = old(self).position() + step_delta(
                    old(self).spec_options(),
                    old(self).direction(),
                );
                if within_bounds(old(self).spec_options(), next) {
                    &&& r is Ok
                    &&& final(self).position() == next
                    &&& final(self).step_pin_low()
                } else {
                    &&& r == Err::<(), StepperError>(StepperError::MoveOutOfBounds)
                    &&& final(self).position() == old(self).position()
                    &&& final(self).step_pin_low() == old(self).step_pin_low()
                }
            }),
    {
        let units: i64 = match self.options.stepping_mode {
            SteppingMode::FullStep => 16,
            SteppingMode::HalfStep => 8,
            SteppingMode::QuarterStep => 4,
            SteppingMode::EighthStep => 2,
            SteppingMode::SixteenthStep => 1,
        };
        let dir = i8::from(self.options.positive_direction) * i8::from(self.get_direction());
        let step = if dir > 0 {
            units
        } else {
            -units
        };
        let steps_next = self.steps + step;
        if let Some((min, max)) = self.options.bounds {
            if steps_next < min || steps_next > max {
                return Err(StepperError::MoveOutOfBounds);
            }
        }
        self.step.set_high();
        self.step.set_low();
        self.steps = steps_next;
        Ok(())
    }

    pub fn get_steps(&self) -> (s: i64)
        ensures
            s == self.position(),
    {
        self.steps
    }

    pub fn set_steps(&mut self, steps: i64)
        ensures
            final(self).position() == steps,
            final(self).spec_options() == old(self).spec_options(),
            final(self).direction() == old(self).direction(),
            final(self).spec_step_duration() == old(self).spec_step_duration(),
    {
        self.steps = steps;
    }

    /// Turns the shaft toward the origin and returns how many pulses bring
    /// it there.
    pub fn prepare_home(&mut self) -> (n: u64)
        ensures
            final(self).direction() == home_direction(old(self).spec_options(), old(self).position() as int),
            n == home_pulses(old(self).spec_options(), old(self).position() as int),
            final(self).spec_options() == old(self).spec_options(),
            final(self).position() == old(self).position(),
            final(self).spec_step_duration() == old(self).spec_step_duration(),
    {
        let positive_cw = match self.options.positive_direction {
            RotationDirection::Clockwise => true,
            RotationDirection::CounterClockwise => false,
        };
        let positive = if self.steps == 0 {
            positive_cw
        } else {
            (self.steps > 0) == positive_cw
        };
        let direction = if positive {
            RotationDirection::CounterClockwise
        } else {
            RotationDirection::Clockwise
        };
        self.set_direction(direction);
        let magnitude: u128 = if self.steps >= 0 {
            self.steps as u128
        } else {
            (-(self.steps as i128)) as u128
        };
        let divisor: u128 = u8::from(self.options.stepping_mode) as u128;
        assert(magnitude * divisor <= 0x8_0000_0000_0000_0000) by (nonlinear_arith)
            requires
                magnitude <= 0x8000_0000_0000_0000,
                divisor <= 16,
        ;
        let n = magnitude * divisor / 16;
        assert(n <= u64::MAX) by (nonlinear_arith)
            requires
                n == magnitude * divisor / 16,
                magnitude * divisor <= 0x8_0000_0000_0000_0000,
        ;
        n as u64
    }
}

/// A run of pulses in progress: how many are left and how long the run
/// has waited so far, in microseconds.
pub struct StepRun {
    remaining: u64,
    waited_micros: u128,
}

impl StepRun {
    pub closed spec fn spec_remaining(&self) -> u64 {
        self.remaining
    }

    pub closed spec fn spec_waited(&self) -> u128 {
        self.waited_micros
    }
}

/// What a run asks of its driver next.
#[derive(Debug, Clone, Copy, PartialEq, Eq)]
pub enum RunAction {
    /// Wait this many microseconds, then advance the run again.
    Wait(u64),
    /// The run is over: the total time waited, or why it stopped.
    Done(Result<u128, StepperError>),
}

impl<P: StatefulOutputPin, M: AttachmentMode> Stepper<P, M> {
    /// Begins a run of `steps` pulses. A run of no pulses, or one with no
    /// delay between pulses, does nothing.
    pub fn start_run(&self, steps: u64) -> (run: StepRun)
        ensures
            run.spec_remaining() == if steps == 0 || self.spec_step_duration() == 0 {
                0
            } else {
                steps
            },
            run.spec_waited() == 0,
    {
        if steps == 0 || self.step_duration_micros == 0 {
            StepRun { remaining: 0, waited_micros: 0 }
        } else {
            StepRun { remaining: steps, waited_micros: 0 }
        }
    }

    /// Advances a run by one pulse. When no pulse is left the run is done
    /// with the time it waited; when the pulse is refused the run stops
    /// with that error; else the pulse is made and the driver waits one
    /// step duration.
    pub fn advance_run(&mut self, run: &mut StepRun) -> (a: RunAction)
        requires
            i64::MIN + 16 <= old(self).position() <= i64::MAX - 16,
            old(run).spec_waited() + u64::MAX <= u128::MAX,
        ensures
            final(self).spec_options() == old(self).spec_options(),
            final(self).direction() == old(self).direction(),
            final(self).spec_step_duration() == old(self).spec_step_duration(),
            old(run).spec_remaining() == 0 ==> {
                &&& a == RunAction::Done(Ok(old(run).spec_waited()))
                &&& final(self).position() == old(self).position()
                &&& *final(run) == *old(run)
            },
            old(run).spec_remaining() > 0 ==> ({
                let next = old(self).position() + step_delta(
                    old(self).spec_options(),
                    old(self).direction(),
                );
                if within_bounds(old(self).spec_options(), next) {
                    &&& a == RunAction::Wait(old(self).spec_step_duration())
                    &&& final(self).position() == next
                    &&& final(run).spec_remaining() == old(run).spec_remaining() - 1
                    &&& final(run).spec_waited() == old(run).spec_waited() + old(
                        self,
                    ).spec_step_duration()
                } else {
                    &&& a == RunAction::Done(Err(StepperError::MoveOutOfBounds))
                    &&& final(self).position() == old(self).position()
                }
            }),
    {
        if run.remaining == 0 {
            return RunAction::Done(Ok(run.waited_micros));
        }
        match self.step() {
            Ok(()) => {
                run.remaining = run.remaining - 1;
                run.waited_micros = run.waited_micros + self.step_duration_micros as u128;
                RunAction::Wait(self.step_duration_micros)
            },
            Err(e) => RunAction::Done(Err(e)),
        }
    }
}

impl<P: StatefulOutputPin> Stepper<P, NotAttached> {
    /// A stepper at position 0, one second between pulses.
    pub fn new(step: P, dir: P, options: StepperOptions) -> (s: Self)
        ensures
            s.spec_options() == options,
            s.position() == 0,
            s.spec_step_duration() == 1_000_000,
            s.direction() == pin_direction(dir.spec_is_high()),
    {
        Self::new_inner(step, dir, options)
    }
}

impl<P: StatefulOutputPin> Stepper<P, Attached> {
    /// A stepper that drives an attachment, at position 0.
    pub fn new_with_attachment(step: P, dir: P, options: StepperOptions) -> (s: Self)
        ensures
            s.spec_options() == options,
            s.position() == 0,
            s.spec_step_duration() == 1_000_000,
            s.direction() == pin_direction(dir.spec_is_high()),
    {
        Self::new_inner(step, dir, options)
    }
}

} // verus!
