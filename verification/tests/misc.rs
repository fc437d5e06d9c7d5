use xtrooder::common::PwmBase;
use xtrooder::computable;
use xtrooder::fan::FanController;
use xtrooder::gcode::{DistanceArg, DurationArg, GCommand};
use xtrooder::number::{parse_number, Number};
use xtrooder::planner::{arc_form, dwell, plan, ArcForm, PlannerAction, PlannerState, Positioning};
use xtrooder::gcode::SpeedArg;
use xtrooder::stepper::StepperError;
use xtrooder::stopwatch::StopWatch;
use xtrooder::units::{max, DistanceUnit, DurationUnit, Resistance, RotationDirection};
use xtrooder::vector;

#[test]
fn vectors_hold_their_components() {
    let v = vector::Vector2D::new(1.5f64, -2.0);
    assert_eq!(v.get_x(), 1.5);
    assert_eq!(v.get_y(), -2.0);
    let w = vector::Vector3D::new(1u8, 2, 3);
    assert_eq!((w.get_x(), w.get_y(), w.get_z()), (1, 2, 3));
}

#[test]
fn computable_vectors() {
    let a = computable::Vector2D::new(3i64, 4);
    let b = computable::Vector2D::new(-1i64, 2);
    let s = a.add(&b);
    assert_eq!((s.get_x(), s.get_y()), (2, 6));
    let d = a.sub(&b);
    assert_eq!((d.get_x(), d.get_y()), (4, 2));
    assert_eq!(a.dot(&b), 5);
    let p = computable::Vector3D::new(1i64, 2, 3);
    let q = computable::Vector3D::new(10i64, 20, 30);
    let r = q.sub(&p).add(&p);
    assert_eq!((r.get_x(), r.get_y(), r.get_z()), (10, 20, 30));
}

#[test]
fn max_of_slices() {
    let empty: [i32; 0] = [];
    assert_eq!(max(&empty), None);
    assert_eq!(max(&[3, 9, 2, 9]), Some(&9));
    assert_eq!(max(&[-5]), Some(&-5));
    assert_eq!(max(&[1.5f64, 0.5]), Some(&1.5));
}

struct Pwm {
    enabled: [bool; 2],
    duty: [u64; 2],
    max_duty: u64,
}

impl PwmBase for Pwm {
    type Channel = usize;

    fn spec_enabled(&self, channel: usize) -> bool {
        self.enabled[channel]
    }

    fn spec_duty(&self, channel: usize) -> u64 {
        self.duty[channel]
    }

    fn spec_max_duty(&self) -> u64 {
        self.max_duty
    }

    fn enable(&mut self, channel: usize) {
        self.enabled[channel] = true;
    }

    fn disable(&mut self, channel: usize) {
        self.enabled[channel] = false;
    }

    fn get_max_duty(&self) -> u64 {
        self.max_duty
    }

    fn set_duty(&mut self, channel: usize, duty_cycle: u64) {
        self.duty[channel] = duty_cycle;
    }
}

#[test]
fn fan_controller() {
    let mut pwm = Pwm { enabled: [false; 2], duty: [0; 2], max_duty: 1000 };
    let mut fan: FanController<Pwm> = FanController::new(1, 3000);
    assert_eq!(fan.get_max_speed(), 3000);
    fan.enable(&mut pwm);
    assert!(pwm.enabled[1] && !pwm.enabled[0]);
    fan.set_speed(3000, &mut pwm);
    assert_eq!(pwm.duty[1], 1000);
    fan.set_speed(6000, &mut pwm);
    assert_eq!(pwm.duty[1], 1000);
    fan.set_speed(1500, &mut pwm);
    assert_eq!(pwm.duty[1], 2000);
    fan.set_speed(0, &mut pwm);
    assert_eq!(pwm.duty[1], u64::MAX);
    fan.disable(&mut pwm);
    assert!(!pwm.enabled[1]);
}

#[test]
fn stopwatch_measures_ticks() {
    let mut w = StopWatch::new();
    assert_eq!(w.measure(25), 25);
    w.start(100);
    assert_eq!(w.measure(160), 60);
}

#[test]
fn resistance_in_ohms() {
    assert_eq!(Resistance::from_ohm(4700).as_ohm(), 4700);
}

#[test]
fn rotation_signs() {
    assert_eq!(i8::from(RotationDirection::Clockwise), 1);
    assert_eq!(i8::from(RotationDirection::CounterClockwise), -1);
}

fn dist(s: &str) -> Option<DistanceArg> {
    Some(DistanceArg { value: parse_number(s).unwrap(), unit: DistanceUnit::Millimeter })
}

fn arc(i: bool, j: bool, r: bool, xy: bool, clockwise: bool) -> GCommand {
    let d = |b: bool| if b { dist("1") } else { None };
    if clockwise {
        GCommand::G2 { x: d(xy), y: None, z: None, e: None, f: None, i: d(i), j: d(j), r: d(r) }
    } else {
        GCommand::G3 { x: d(xy), y: None, z: None, e: None, f: None, i: d(i), j: d(j), r: d(r) }
    }
}

#[test]
fn arc_forms() {
    assert_eq!(arc_form(false, false, true, false, false), Ok(ArcForm::OffsetFromCenter));
    assert_eq!(arc_form(false, false, false, true, false), Ok(ArcForm::OffsetFromCenter));
    assert_eq!(arc_form(true, false, false, false, true), Ok(ArcForm::Radius));
    assert_eq!(arc_form(false, false, false, false, true), Err(StepperError::MoveNotValid));
    assert_eq!(arc_form(true, true, true, true, true), Err(StepperError::MoveNotValid));
    assert_eq!(arc_form(true, true, false, false, false), Err(StepperError::MoveNotValid));
    assert_eq!(arc_form(true, true, true, false, true), Err(StepperError::MoveNotValid));
}

#[test]
fn planner_decisions() {
    assert_eq!(
        plan(arc(true, true, false, false, true), false),
        Ok(PlannerAction::Arc { form: ArcForm::OffsetFromCenter, direction: RotationDirection::Clockwise })
    );
    assert_eq!(
        plan(arc(false, false, true, true, false), false),
        Ok(PlannerAction::Arc { form: ArcForm::Radius, direction: RotationDirection::CounterClockwise })
    );
    assert_eq!(plan(arc(false, false, true, false, false), false), Err(StepperError::MoveNotValid));
    assert_eq!(plan(arc(false, false, true, false, true), false), Err(StepperError::MoveNotValid));
    assert_eq!(
        plan(arc(true, true, false, false, false), false),
        Ok(PlannerAction::Arc { form: ArcForm::OffsetFromCenter, direction: RotationDirection::CounterClockwise })
    );
    let g0 = || GCommand::G0 { x: dist("1"), y: None, z: None, f: None };
    assert_eq!(plan(g0(), false), Err(StepperError::MoveNotValid));
    assert_eq!(plan(g0(), true), Ok(PlannerAction::LinearMove));
    assert_eq!(plan(GCommand::G90, false), Ok(PlannerAction::SetPositioning(Positioning::Absolute)));
    assert_eq!(plan(GCommand::G91, false), Ok(PlannerAction::SetPositioning(Positioning::Relative)));
    assert_eq!(plan(GCommand::G10, false), Ok(PlannerAction::Retract));
    assert_eq!(plan(GCommand::G11, false), Ok(PlannerAction::Recover));
    assert_eq!(plan(GCommand::M105, false), Err(StepperError::NotSupported));
    let p = DurationArg { value: parse_number("2").unwrap(), unit: DurationUnit::Millisecond };
    let s = DurationArg { value: parse_number("3").unwrap(), unit: DurationUnit::Second };
    assert_eq!(
        plan(GCommand::G4 { p: Some(p.clone()), s: Some(s.clone()) }, false),
        Ok(PlannerAction::Dwell(Some(s.clone())))
    );
    assert_eq!(plan(GCommand::G4 { p: Some(p.clone()), s: None }, false), Ok(PlannerAction::Dwell(Some(p))));
    assert_eq!(plan(GCommand::G4 { p: None, s: None }, false), Ok(PlannerAction::Dwell(None)));
}

#[test]
fn dwell_prefers_seconds() {
    assert_eq!(dwell(Some(1), Some(2)), Some(2));
    assert_eq!(dwell(Some(1), None), Some(1));
    assert_eq!(dwell::<u8>(None, None), None);
}

#[test]
fn numbers_in_f64_syntax() {
    assert!(matches!(parse_number("inf"), Some(Number::Infinite { negative: false })));
    assert!(matches!(parse_number("-Infinity"), Some(Number::Infinite { negative: true })));
    assert!(matches!(parse_number("NaN"), Some(Number::NotANumber)));
    assert!(parse_number("1e").is_none());
    assert!(parse_number("").is_none());
    assert!(parse_number("1.2.3").is_none());
    assert!(parse_number(".").is_none());
    assert!(parse_number("e5").is_none());
    assert!(parse_number("+").is_none());
    assert!(parse_number(" 1").is_none());
    assert!(parse_number("1.").is_some());
    assert!(parse_number(".5").is_some());
    assert!(parse_number("-.5e+2").is_some());
    assert!(matches!(parse_number("+iNf"), Some(Number::Infinite { negative: false })));
    for text in ["1.", ".5", "-.5e+2", "12.25", "1e3", "+7", "0.000", "123456789.987654321"] {
        let ours = parse_number(text).is_some();
        assert_eq!(ours, text.parse::<f64>().is_ok(), "{}", text);
    }
    for text in [".", "e5", "+", "1e", "1e+", "--1", "1-", "nan1", "in", "0x1", "1_0"] {
        assert_eq!(parse_number(text).is_some(), text.parse::<f64>().is_ok(), "{}", text);
    }
    match parse_number("+1.25e-3").unwrap() {
        Number::Finite(d) => {
            assert!(!d.negative);
            assert_eq!(d.integer, vec![1]);
            assert_eq!(d.fraction, vec![2, 5]);
            assert!(d.exp_negative);
            assert_eq!(d.exponent, vec![3]);
        }
        _ => panic!("not finite"),
    }
}

fn speed(s: &str) -> SpeedArg {
    SpeedArg { value: parse_number(s).unwrap(), unit: DistanceUnit::Millimeter }
}

#[test]
fn planner_keeps_its_settings() {
    let mut st = PlannerState::new(Positioning::Absolute);
    assert_eq!(st.execute(GCommand::G91, false), Ok(PlannerAction::SetPositioning(Positioning::Relative)));
    assert_eq!(st.positioning, Positioning::Relative);
    assert_eq!(
        st.execute(GCommand::G1 { x: dist("1"), y: None, z: None, e: None, f: Some(speed("1200")) }, false),
        Ok(PlannerAction::LinearMoveExtrude)
    );
    assert_eq!(st.feedrate, Some(speed("1200")));
    assert_eq!(st.execute(GCommand::G1 { x: dist("2"), y: None, z: None, e: None, f: None }, false), Ok(PlannerAction::LinearMoveExtrude));
    assert_eq!(st.feedrate, Some(speed("1200")));
    // a refused move changes nothing
    assert_eq!(st.execute(GCommand::G0 { x: None, y: None, z: None, f: Some(speed("50")) }, false), Err(StepperError::MoveNotValid));
    assert_eq!(st.feedrate, Some(speed("1200")));
    assert_eq!(
        st.execute(GCommand::M207 { f: speed("1800"), s: dist("2").unwrap(), z: dist("0.5").unwrap() }, false),
        Ok(PlannerAction::SetRetraction)
    );
    assert_eq!(st.retraction.as_ref().unwrap().length, dist("2").unwrap());
    assert_eq!(st.execute(GCommand::M208 { f: speed("600"), s: dist("0.1").unwrap() }, false), Ok(PlannerAction::SetRecovery));
    let rec = st.recovery.clone().unwrap();
    assert_eq!(rec.extra_length, dist("0.1").unwrap());
    assert_eq!(rec.retraction_length, dist("2"));
    assert_eq!(st.execute(GCommand::G90, false), Ok(PlannerAction::SetPositioning(Positioning::Absolute)));
    assert_eq!(st.positioning, Positioning::Absolute);
    assert_eq!(st.execute(GCommand::M105, false), Err(StepperError::NotSupported));
}

#[test]
fn radius_arc_without_end_keeps_its_feed_rate() {
    let mut st = PlannerState::new(Positioning::Absolute);
    let arc = |x: Option<DistanceArg>, i: Option<DistanceArg>, r: Option<DistanceArg>, f: &str| GCommand::G2 {
        x,
        y: None,
        z: None,
        e: None,
        f: Some(speed(f)),
        i,
        j: None,
        r,
    };
    // I with R is refused before the feed rate is taken.
    assert_eq!(st.execute(arc(dist("1"), dist("1"), dist("1"), "100"), false), Err(StepperError::MoveNotValid));
    assert_eq!(st.feedrate, None);
    // R without X or Y is refused after it.
    assert_eq!(st.execute(arc(None, None, dist("1"), "200"), false), Err(StepperError::MoveNotValid));
    assert_eq!(st.feedrate, Some(speed("200")));
    assert_eq!(
        st.execute(arc(dist("1"), None, dist("1"), "300"), false),
        Ok(PlannerAction::Arc { form: ArcForm::Radius, direction: RotationDirection::Clockwise })
    );
    assert_eq!(st.feedrate, Some(speed("300")));
}

#[test]
fn thermistor_readings_average_down() {
    let mut s = xtrooder::thermistor::SampleSum::new();
    for r in [2048u16, 2049, 2050, 2050] {
        assert!(s.can_add(r));
        s.add(r);
    }
    assert_eq!(s.mean(), 2049);
    let mut one = xtrooder::thermistor::SampleSum::new();
    one.add(2048);
    assert_eq!(one.mean(), 2048);
    assert!(one.can_add(u16::MAX));
}
