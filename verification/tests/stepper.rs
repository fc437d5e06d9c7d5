use xtrooder::planner::{no_move, Positioning};
use xtrooder::stepper::{
    RunAction, StatefulOutputPin, Stepper, StepperError,
    StepperOptions, SteppingMode,
};
use xtrooder::units::RotationDirection;

struct StatefulOutputPinMock {
    state: bool,
}

impl StatefulOutputPinMock {
    fn new() -> Self {
        Self { state: false }
    }
}

impl StatefulOutputPin for StatefulOutputPinMock {
    fn spec_is_high(&self) -> bool {
        self.state
    }

    fn set_high(&mut self) {
        self.state = true;
    }

    fn set_low(&mut self) {
        self.state = false;
    }

    fn is_high(&self) -> bool {
        self.state
    }
}

/// Positions are counted in sixteenths of a full step.
fn full_steps(units: i64) -> f64 {
    units as f64 / 16.0
}

fn new_stepper() -> Stepper<StatefulOutputPinMock, xtrooder::stepper::NotAttached> {
    Stepper::new(StatefulOutputPinMock::new(), StatefulOutputPinMock::new(), StepperOptions::default())
}

/// Runs `steps` pulses the way a timer-driven driver does, without sleeping.
fn run<M: xtrooder::stepper::AttachmentMode>(
    s: &mut Stepper<StatefulOutputPinMock, M>,
    steps: u64,
) -> Result<u128, StepperError> {
    let mut r = s.start_run(steps);
    loop {
        match s.advance_run(&mut r) {
            RunAction::Wait(_) => {}
            RunAction::Done(d) => return d,
        }
    }
}

#[test]
fn stepper_always_passes() {
    assert!(true);
}

#[test]
fn test_stepper_step() {
    let mut s = new_stepper();
    s.set_direction(RotationDirection::Clockwise);
    let res = s.step();
    assert!(res.is_ok());
    assert!((full_steps(s.get_steps()) - 1.0).abs() < 0.000001);
}

#[test]
fn test_stepper_step_out_of_bounds() {
    let mut options = StepperOptions::default();
    // one full step each way
    options.bounds = Some((-16, 16));
    let mut s = Stepper::new(StatefulOutputPinMock::new(), StatefulOutputPinMock::new(), options);
    s.set_direction(RotationDirection::Clockwise);
    let res = s.step();
    assert!(res.is_ok());
    assert!((full_steps(s.get_steps()) - 1.0).abs() < 0.000001);
    let res = s.step();
    assert!(res.is_err());
    assert!((full_steps(s.get_steps()) - 1.0).abs() < 0.000001);
}

#[test]
fn test_stepper_move_for_steps_fail() {
    let mut s = new_stepper();
    s.set_direction(RotationDirection::Clockwise);
    s.set_step_duration(0);
    let res = run(&mut s, 20);
    assert!(res.is_ok());
    assert_eq!(s.get_steps(), 0);
}

#[test]
fn test_stepper_move_for_steps_success() {
    let mut s = new_stepper();
    s.set_direction(RotationDirection::Clockwise);
    // 60 rpm at 200 steps per revolution
    s.set_step_duration(5_000);
    let m = run(&mut s, 20);
    assert!(m.is_ok());
    assert!((full_steps(s.get_steps()) - 20.0).abs() < 0.000001);
    assert_eq!(m.unwrap(), 100_000);
}

#[test]
fn test_stepper_move_counterclockwise() {
    let mut s = new_stepper();
    s.set_direction(RotationDirection::CounterClockwise);
    s.set_step_duration(1_000);
    let m = run(&mut s, 20);
    assert!(m.is_ok());
    assert!((full_steps(s.get_steps()) + 20.0).abs() < 0.000001);
    assert_eq!(m.unwrap(), 20_000);
}

#[test]
fn test_stepper_move_microstepping_clockwise() {
    let mut s = new_stepper();
    s.set_stepping_mode(SteppingMode::HalfStep);
    s.set_direction(RotationDirection::Clockwise);
    let res = run(&mut s, 20);
    assert!(res.is_ok());
    assert!((full_steps(s.get_steps()) - 10.0).abs() < 0.000001);
}

#[test]
fn test_stepper_move_microstepping_counterclockwise() {
    let mut s = new_stepper();
    s.set_stepping_mode(SteppingMode::HalfStep);
    s.set_direction(RotationDirection::CounterClockwise);
    let res = run(&mut s, 20);
    assert!(res.is_ok());
    assert!((full_steps(s.get_steps()) + 10.0).abs() < 0.000001);
}

fn moved_with(direction: RotationDirection, positive: RotationDirection) -> i64 {
    let mut s = new_stepper();
    s.set_stepping_mode(SteppingMode::FullStep);
    s.set_direction(direction);
    let mut options = StepperOptions::default();
    options.positive_direction = positive;
    s.set_options(options);
    let res = run(&mut s, 20);
    assert!(res.is_ok());
    s.get_steps()
}

#[test]
fn test_stepper_move_clockwise_positive_direction_clockwise() {
    let steps = moved_with(RotationDirection::Clockwise, RotationDirection::Clockwise);
    assert!((full_steps(steps) - 20.0).abs() < 0.000001);
}

#[test]
fn test_stepper_move_clockwise_positive_direction_counterclockwise() {
    let steps = moved_with(RotationDirection::Clockwise, RotationDirection::CounterClockwise);
    assert!((full_steps(steps) + 20.0).abs() < 0.000001);
}

#[test]
fn test_stepper_move_counterclockwise_positive_direction_clockwise() {
    let steps = moved_with(RotationDirection::CounterClockwise, RotationDirection::Clockwise);
    assert!((full_steps(steps) + 20.0).abs() < 0.000001);
}

#[test]
fn test_stepper_move_counterclockwise_positive_direction_counterclockwise() {
    let steps = moved_with(RotationDirection::CounterClockwise, RotationDirection::CounterClockwise);
    assert!((full_steps(steps) - 20.0).abs() < 0.000001);
}

#[test]
fn test_stepper_move_for_steps_outofbounds() {
    let mut s = new_stepper();
    s.set_stepping_mode(SteppingMode::FullStep);
    s.set_direction(RotationDirection::CounterClockwise);
    let mut options = StepperOptions::default();
    options.bounds = Some((-160, 160));
    s.set_options(options);
    let res = run(&mut s, 10);
    assert!(res.is_ok());
    assert!((full_steps(s.get_steps()) + 10.0).abs() < 0.000001);

    let res = run(&mut s, 15);
    assert!(res.is_err());
    assert_eq!(res, Err(StepperError::MoveOutOfBounds));
    assert!((full_steps(s.get_steps()) + 10.0).abs() < 0.000001);
}

#[test]
fn test_stepper_home() {
    let mut s = Stepper::new_with_attachment(
        StatefulOutputPinMock::new(),
        StatefulOutputPinMock::new(),
        StepperOptions::default(),
    );
    s.set_stepping_mode(SteppingMode::FullStep);
    s.set_direction(RotationDirection::Clockwise);
    let res = run(&mut s, 10);
    assert!(res.is_ok());
    assert!((full_steps(s.get_steps()) - 10.0).abs() < 0.000001);

    let n = s.prepare_home();
    assert_eq!(n, 10);
    let res = run(&mut s, n);
    assert!(res.is_ok());
    assert!(full_steps(s.get_steps()).abs() < 0.000001);
}

#[test]
fn test_stepper_home_no_attachment() {
    let mut s = new_stepper();
    s.set_stepping_mode(SteppingMode::FullStep);
    let n = s.prepare_home();
    let res = run(&mut s, n);
    assert!(res.is_ok());
}

// ---------------------------------------------------------------------------

#[test]
fn home_from_negative_position_in_half_steps() {
    let mut s = new_stepper();
    s.set_stepping_mode(SteppingMode::HalfStep);
    s.set_direction(RotationDirection::CounterClockwise);
    assert!(run(&mut s, 7).is_ok());
    assert_eq!(s.get_steps(), -56);
    let n = s.prepare_home();
    assert_eq!(n, 7);
    assert_eq!(s.get_direction(), RotationDirection::Clockwise);
    assert!(run(&mut s, n).is_ok());
    assert_eq!(s.get_steps(), 0);
}

#[test]
fn home_at_origin_turns_counterclockwise() {
    let mut s = new_stepper();
    s.set_direction(RotationDirection::Clockwise);
    assert_eq!(s.prepare_home(), 0);
    assert_eq!(s.get_direction(), RotationDirection::CounterClockwise);
}

#[test]
fn home_rounds_partial_steps_down() {
    let mut s = new_stepper();
    s.set_steps(40);
    assert_eq!(s.prepare_home(), 2);
    s.set_stepping_mode(SteppingMode::SixteenthStep);
    assert_eq!(s.prepare_home(), 40);
}

#[test]
fn opposite_steps_cancel() {
    let mut s = new_stepper();
    s.set_stepping_mode(SteppingMode::QuarterStep);
    s.set_direction(RotationDirection::Clockwise);
    assert!(s.step().is_ok());
    assert_eq!(s.get_steps(), 4);
    s.set_direction(RotationDirection::CounterClockwise);
    assert!(s.step().is_ok());
    assert_eq!(s.get_steps(), 0);
}

#[test]
fn stepping_mode_as_divisor() {
    assert_eq!(u8::from(SteppingMode::FullStep), 1);
    assert_eq!(u8::from(SteppingMode::HalfStep), 2);
    assert_eq!(u8::from(SteppingMode::QuarterStep), 4);
    assert_eq!(u8::from(SteppingMode::EighthStep), 8);
    assert_eq!(u8::from(SteppingMode::SixteenthStep), 16);
}

#[test]
fn run_of_no_steps_waits_nothing() {
    let mut s = new_stepper();
    assert_eq!(run(&mut s, 0), Ok(0));
    assert_eq!(s.get_steps(), 0);
    assert_eq!(s.get_step_duration(), 1_000_000);
}

#[test]
fn no_move_keeps_axis_still() {
    let mut s = Stepper::new_with_attachment(
        StatefulOutputPinMock::new(),
        StatefulOutputPinMock::new(),
        StepperOptions::default(),
    );
    s.set_steps(48);
    assert_eq!(no_move(&s, Positioning::Relative), 0);
    assert_eq!(no_move(&s, Positioning::Absolute), 48);
}
