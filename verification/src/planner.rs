//! What the motion planner does for each G-code command.
//!
//! The planner moves four steppers; the moves themselves are timed by the
//! board. Here stands the part that decides: which move a command asks
//! for, which arc form it uses, how long a dwell lasts, and which commands
//! are refused.
use vstd::prelude::*;
use crate::gcode::{ArgModel, DistanceArg, DurationArg, GCommand, SpeedArg};
use crate::number::{Decimal, Number};
use crate::units::DistanceUnit;
use crate::stepper::{Attached, StatefulOutputPin, Stepper, StepperError};
use crate::units::RotationDirection;

verus! {

/// How coordinates of a move are read.
#[derive(Clone, Copy, PartialEq, Eq, Debug, Structural)]
pub enum Positioning {
    /// Relative to the current position.
    Relative,
    /// As positions in the machine's frame.
    Absolute,
}

/// The target of an axis that a move leaves out, in sixteenths of a full
/// step: the axis stays where it is.
pub open spec fn spec_no_move(position: i64, positioning: Positioning) -> i64 {
    match positioning {
        Positioning::Relative => 0,
        Positioning::Absolute => position,
    }
}

/// The coordinate that keeps an axis still: zero in relative positioning,
/// the stepper's position in absolute positioning.
pub fn no_move<P: StatefulOutputPin>(stepper: &Stepper<P, Attached>, positioning: Positioning) -> (d: i64)
    ensures
        d == spec_no_move(stepper.position(), positioning),
{
    match positioning {
        Positioning::Relative => 0,
        Positioning::Absolute => stepper.get_steps(),
    }
}

/// How an arc is given.
#[derive(Clone, Copy, PartialEq, Eq, Debug, Structural)]
pub enum ArcForm {
    /// By the offset of the centre from the start (`I`, `J`).
    OffsetFromCenter,
    /// By the radius (`R`).
    Radius,
}

/// Which arc form the present arguments select, or `None` when they do not
/// make an arc: `I` or `J` without `R` is the centre form; `R` without `I`
/// and `J` is the radius form, which also needs `X` or `Y`.
pub open spec fn spec_arc_form(x: bool, y: bool, i: bool, j: bool, r: bool) -> Option<ArcForm> {
    if (i || j) && !r {
        Some(ArcForm::OffsetFromCenter)
    } else if r && !i && !j && (x || y) {
        Some(ArcForm::Radius)
    } else {
        None
    }
}

/// The rules of arc moves: the centre form needs `I` or `J`, the radius
/// form needs `X` or `Y`, and `I` or `J` mixed with `R` is refused, as is
/// an arc with neither.
pub proof fn law_arc_rules(x: bool, y: bool, i: bool, j: bool, r: bool)
    ensures
        (i || j) && r ==> spec_arc_form(x, y, i, j, r) is None,
        !i && !j && !r ==> spec_arc_form(x, y, i, j, r) is None,
        r && !x && !y ==> spec_arc_form(x, y, i, j, r) is None,
        (i || j) && !r ==> spec_arc_form(x, y, i, j, r) == Some(ArcForm::OffsetFromCenter),
        r && !i && !j && (x || y) ==> spec_arc_form(x, y, i, j, r) == Some(ArcForm::Radius),
{
}

/// Whether `I`, `J` and `R` make an arc of either form: `I` or `J`
/// without `R`, or `R` alone.
pub open spec fn spec_arc_offsets_ok(i: bool, j: bool, r: bool) -> bool {
    ((i || j) && !r) || (r && !i && !j)
}

pub fn arc_offsets_ok(i: bool, j: bool, r: bool) -> (b: bool)
    ensures
        b == spec_arc_offsets_ok(i, j, r),
{
    !((i && j && r) || (!i && !j && !r) || (i && !j && r) || (!i && j && r))
}

/// Checks the arguments of an arc move and tells its form.
pub fn arc_form(x: bool, y: bool, i: bool, j: bool, r: bool) -> (f: Result<ArcForm, StepperError>)
    ensures
        f matches Ok(form) ==> spec_arc_form(x, y, i, j, r) == Some(form),
        f is Err ==> spec_arc_form(x, y, i, j, r) is None && f == Err::<ArcForm, StepperError>(
            StepperError::MoveNotValid,
        ),
{
    if (i && j && r) || (!i && !j && !r) || (i && !j && r) || (!i && j && r) {
        return Err(StepperError::MoveNotValid);
    }
    if i || j {
        return Ok(ArcForm::OffsetFromCenter);
    }
    if r {
        if !x && !y {
            return Err(StepperError::MoveNotValid);
        }
        return Ok(ArcForm::Radius);
    }
    Err(StepperError::MoveNotValid)
}

/// The pause of a dwell: `S` when it is given, else `P`.
pub open spec fn spec_dwell<T>(p: Option<T>, s: Option<T>) -> Option<T> {
    match s {
        Some(_) => s,
        None => p,
    }
}

pub fn dwell<T>(p: Option<T>, s: Option<T>) -> (d: Option<T>)
    ensures
        d == spec_dwell(p, s),
{
    match (p, s) {
        (None, None) => None,
        (None, Some(v)) => Some(v),
        (Some(_), Some(v)) => Some(v),
        (Some(v), None) => Some(v),
    }
}

/// What the planner does for a command.
#[derive(Clone, PartialEq, Debug)]
pub enum PlannerAction {
    /// A linear move of X, Y and Z that the X endstop stops.
    LinearMove,
    /// A linear move of X, Y and Z with extrusion.
    LinearMoveExtrude,
    /// An arc in the XY plane, with Z and extrusion.
    Arc { form: ArcForm, direction: RotationDirection },
    /// A pause, if any.
    Dwell(Option<DurationArg>),
    /// A change of positioning.
    SetPositioning(Positioning),
    /// Firmware retraction.
    Retract,
    /// Recovery from a retraction.
    Recover,
    /// New retraction settings.
    SetRetraction,
    /// New recovery settings.
    SetRecovery,
}

/// Whether a distance argument is present.
pub open spec fn given(a: Option<DistanceArg>) -> bool {
    a is Some
}

/// What the planner does for `command`, or the error it answers:
/// a move with endstops needs them, an arc needs a valid form, and commands
/// that the planner does not handle are not supported.
pub open spec fn spec_plan(command: GCommand, has_endstops: bool) -> Result<PlannerAction, StepperError> {
    match command {
        GCommand::G0 { .. } => if has_endstops {
            Ok(PlannerAction::LinearMove)
        } else {
            Err(StepperError::MoveNotValid)
        },
        GCommand::G1 { .. } => Ok(PlannerAction::LinearMoveExtrude),
        GCommand::G2 { x, y, i, j, r, .. } => match spec_arc_form(
            given(x),
            given(y),
            given(i),
            given(j),
            given(r),
        ) {
            Some(form) => Ok(PlannerAction::Arc { form, direction: RotationDirection::Clockwise }),
            None => Err(StepperError::MoveNotValid),
        },
        GCommand::G3 { x, y, i, j, r, .. } => match spec_arc_form(
            given(x),
            given(y),
            given(i),
            given(j),
            given(r),
        ) {
            Some(form) => Ok(
                PlannerAction::Arc { form, direction: RotationDirection::CounterClockwise },
            ),
            None => Err(StepperError::MoveNotValid),
        },
        GCommand::G4 { p, s } => Ok(PlannerAction::Dwell(spec_dwell(p, s))),
        GCommand::G10 => Ok(PlannerAction::Retract),
        GCommand::G11 => Ok(PlannerAction::Recover),
        GCommand::G90 => Ok(PlannerAction::SetPositioning(Positioning::Absolute)),
        GCommand::G91 => Ok(PlannerAction::SetPositioning(Positioning::Relative)),
        GCommand::M207 { .. } => Ok(PlannerAction::SetRetraction),
        GCommand::M208 { .. } => Ok(PlannerAction::SetRecovery),
        _ => Err(StepperError::NotSupported),
    }
}

/// A clockwise and a counter-clockwise arc with the same arguments are
/// accepted or refused alike, and differ only in their direction.
pub proof fn law_arc_directions(
    x: Option<DistanceArg>,
    y: Option<DistanceArg>,
    z: Option<DistanceArg>,
    e: Option<DistanceArg>,
    f: Option<crate::gcode::SpeedArg>,
    i: Option<DistanceArg>,
    j: Option<DistanceArg>,
    r: Option<DistanceArg>,
    has_endstops: bool,
)
    ensures
        ({
            let cw = spec_plan(GCommand::G2 { x, y, z, e, f, i, j, r }, has_endstops);
            let ccw = spec_plan(GCommand::G3 { x, y, z, e, f, i, j, r }, has_endstops);
            &&& cw is Err <==> ccw is Err
            &&& cw is Err ==> cw == ccw
            &&& cw matches Ok(PlannerAction::Arc { form, direction }) ==> {
                &&& direction == RotationDirection::Clockwise
                &&& ccw == Ok::<PlannerAction, StepperError>(
                    PlannerAction::Arc { form, direction: RotationDirection::CounterClockwise },
                )
            }
        }),
{
}

/// Decides what the planner does for `command`. Auto-homing is not
/// implemented by the planner, and is left out.
pub fn plan(command: GCommand, has_endstops: bool) -> (r: Result<PlannerAction, StepperError>)
    requires
        !(command is G28),
    ensures
        r == spec_plan(command, has_endstops),
{
    match command {
        GCommand::G0 { .. } => {
            if has_endstops {
                Ok(PlannerAction::LinearMove)
            } else {
                Err(StepperError::MoveNotValid)
            }
        },
        GCommand::G1 { .. } => Ok(PlannerAction::LinearMoveExtrude),
        GCommand::G2 { x, y, i, j, r, .. } => {
            let form = arc_form(x.is_some(), y.is_some(), i.is_some(), j.is_some(), r.is_some())?;
            Ok(PlannerAction::Arc { form, direction: RotationDirection::Clockwise })
        },
        GCommand::G3 { x, y, i, j, r, .. } => {
            let form = arc_form(x.is_some(), y.is_some(), i.is_some(), j.is_some(), r.is_some())?;
            Ok(PlannerAction::Arc { form, direction: RotationDirection::CounterClockwise })
        },
        GCommand::G4 { p, s } => Ok(PlannerAction::Dwell(dwell(p, s))),
        GCommand::G10 => Ok(PlannerAction::Retract),
        GCommand::G11 => Ok(PlannerAction::Recover),
        GCommand::G90 => Ok(PlannerAction::SetPositioning(Positioning::Absolute)),
        GCommand::G91 => Ok(PlannerAction::SetPositioning(Positioning::Relative)),
        GCommand::M207 { .. } => Ok(PlannerAction::SetRetraction),
        GCommand::M208 { .. } => Ok(PlannerAction::SetRecovery),
        _ => Err(StepperError::NotSupported),
    }
}

/// Firmware retraction settings as `M207` gives them.
#[derive(Clone, PartialEq, Debug)]
pub struct Retraction {
    pub feedrate: SpeedArg,
    pub length: DistanceArg,
    pub z_lift: DistanceArg,
}

/// Recovery settings as `M208` gives them. The recovered length is the
/// extra length plus the retraction length in force when `M208` came
/// (`None`: the configured one).
#[derive(Clone, PartialEq, Debug)]
pub struct Recovery {
    pub feedrate: SpeedArg,
    pub extra_length: DistanceArg,
    pub retraction_length: Option<DistanceArg>,
}

/// What the planner remembers between commands. `None` stands for the
/// value the planner was configured with.
#[derive(Clone, PartialEq, Debug)]
pub struct PlannerState {
    pub positioning: Positioning,
    pub feedrate: Option<SpeedArg>,
    pub retraction: Option<Retraction>,
    pub recovery: Option<Recovery>,
}

/// The feed rate after a move that gives `f`: a given feed rate replaces
/// the one in force.
pub open spec fn next_feedrate(old: Option<SpeedArg>, f: Option<SpeedArg>) -> Option<SpeedArg> {
    match f {
        Some(_) => f,
        None => old,
    }
}

/// The state after the planner takes `command`; a refused command leaves
/// it as it was, but for an arc with valid `I`, `J` and `R` that is refused
/// for lacking an end point, which keeps its feed rate.
pub open spec fn spec_next_state(st: PlannerState, command: GCommand, has_endstops: bool) -> PlannerState {
    match command {
        GCommand::G2 { i, j, r, f, .. } => if spec_arc_offsets_ok(i is Some, j is Some, r is Some) {
            PlannerState { feedrate: next_feedrate(st.feedrate, f), ..st }
        } else {
            st
        },
        GCommand::G3 { i, j, r, f, .. } => if spec_arc_offsets_ok(i is Some, j is Some, r is Some) {
            PlannerState { feedrate: next_feedrate(st.feedrate, f), ..st }
        } else {
            st
        },
        _ => if spec_plan(command, has_endstops) is Err {
            st
        } else {
            match command {
                GCommand::G0 { f, .. } => PlannerState { feedrate: next_feedrate(st.feedrate, f), ..st },
                GCommand::G1 { f, .. } => PlannerState { feedrate: next_feedrate(st.feedrate, f), ..st },
                GCommand::G90 => PlannerState { positioning: Positioning::Absolute, ..st },
                GCommand::G91 => PlannerState { positioning: Positioning::Relative, ..st },
                GCommand::M207 { f, s, z } => PlannerState {
                    retraction: Some(Retraction { feedrate: f, length: s, z_lift: z }),
                    ..st
                },
                GCommand::M208 { f, s } => PlannerState {
                    recovery: Some(
                        Recovery {
                            feedrate: f,
                            extra_length: s,
                            retraction_length: match st.retraction {
                                Some(r) => Some(r.length),
                                None => None,
                            },
                        },
                    ),
                    ..st
                },
                _ => st,
            }
        },
    }
}

/// The settings of a recovery, with numbers as written.
pub open spec fn recovery_view(r: Option<Recovery>) -> Option<
    (ArgModel<DistanceUnit>, ArgModel<DistanceUnit>, Option<ArgModel<DistanceUnit>>),
> {
    match r {
        Some(v) => Some(
            (
                v.feedrate@,
                v.extra_length@,
                match v.retraction_length {
                    Some(l) => Some(l@),
                    None => None,
                },
            ),
        ),
        None => None,
    }
}

/// Two states that agree, the recovery settings by the numbers written.
pub open spec fn same_state(a: PlannerState, b: PlannerState) -> bool {
    &&& a.positioning == b.positioning
    &&& a.feedrate == b.feedrate
    &&& a.retraction == b.retraction
    &&& recovery_view(a.recovery) == recovery_view(b.recovery)
}

fn copy_digits(v: &Vec<u8>) -> (r: Vec<u8>)
    ensures
        r@ == v@,
{
    let mut r: Vec<u8> = Vec::new();
    let mut i: usize = 0;
    while i < v.len()
        invariant
            i <= v@.len(),
            r@ == v@.take(i as int),
        decreases v@.len() - i,
    {
        r.push(v[i]);
        i = i + 1;
        assert(r@ =~= v@.take(i as int));
    }
    assert(v@.take(v@.len() as int) =~= v@);
    r
}

fn copy_distance(a: &DistanceArg) -> (r: DistanceArg)
    ensures
        r@ == a@,
{
    let value = match &a.value {
        Number::Finite(d) => Number::Finite(
            Decimal {
                negative: d.negative,
                integer: copy_digits(&d.integer),
                fraction: copy_digits(&d.fraction),
                exp_negative: d.exp_negative,
                exponent: copy_digits(&d.exponent),
            },
        ),
        Number::Infinite { negative } => Number::Infinite { negative: *negative },
        Number::NotANumber => Number::NotANumber,
    };
    DistanceArg { value, unit: a.unit }
}

impl PlannerState {
    /// A planner in `positioning`, with its configured feed rate and
    /// retraction settings.
    pub fn new(positioning: Positioning) -> (st: PlannerState)
        ensures
            st == (PlannerState { positioning, feedrate: None, retraction: None, recovery: None }),
    {
        PlannerState { positioning, feedrate: None, retraction: None, recovery: None }
    }

    /// Decides what to do for `command` and keeps what it sets: the feed
    /// rate of a move, the positioning of `G90`/`G91`, and the settings of
    /// `M207`/`M208`. Auto-homing is not implemented by the planner.
    pub fn execute(&mut self, command: GCommand, has_endstops: bool) -> (r: Result<
        PlannerAction,
        StepperError,
    >)
        requires
            !(command is G28),
        ensures
            r == spec_plan(command, has_endstops),
            same_state(*final(self), spec_next_state(*old(self), command, has_endstops)),
    {
        let form = match &command {
            GCommand::G0 { .. } => {
                if !has_endstops {
                    return Err(StepperError::MoveNotValid);
                }
                None
            },
            GCommand::G2 { x, y, i, j, r, .. } | GCommand::G3 { x, y, i, j, r, .. } => {
                if !arc_offsets_ok(i.is_some(), j.is_some(), r.is_some()) {
                    return Err(StepperError::MoveNotValid);
                }
                Some(arc_form(x.is_some(), y.is_some(), i.is_some(), j.is_some(), r.is_some()))
            },
            _ => None,
        };
        match command {
            GCommand::G0 { f, .. } => {
                self.feed(f);
                Ok(PlannerAction::LinearMove)
            },
            GCommand::G1 { f, .. } => {
                self.feed(f);
                Ok(PlannerAction::LinearMoveExtrude)
            },
            // The feed rate is taken before a radius arc is checked for an
            // end point.
            GCommand::G2 { f, .. } => {
                self.feed(f);
                match form.unwrap() {
                    Ok(fm) => Ok(PlannerAction::Arc { form: fm, direction: RotationDirection::Clockwise }),
                    Err(e) => Err(e),
                }
            },
            GCommand::G3 { f, .. } => {
                self.feed(f);
                match form.unwrap() {
                    Ok(fm) => Ok(
                        PlannerAction::Arc { form: fm, direction: RotationDirection::CounterClockwise },
                    ),
                    Err(e) => Err(e),
                }
            },
            GCommand::G4 { p, s } => Ok(PlannerAction::Dwell(dwell(p, s))),
            GCommand::G10 => Ok(PlannerAction::Retract),
            GCommand::G11 => Ok(PlannerAction::Recover),
            GCommand::G90 => {
                self.positioning = Positioning::Absolute;
                Ok(PlannerAction::SetPositioning(Positioning::Absolute))
            },
            GCommand::G91 => {
                self.positioning = Positioning::Relative;
                Ok(PlannerAction::SetPositioning(Positioning::Relative))
            },
            GCommand::M207 { f, s, z } => {
                self.retraction = Some(Retraction { feedrate: f, length: s, z_lift: z });
                Ok(PlannerAction::SetRetraction)
            },
            GCommand::M208 { f, s } => {
                let base = match &self.retraction {
                    Some(r) => Some(copy_distance(&r.length)),
                    None => None,
                };
                self.recovery = Some(Recovery { feedrate: f, extra_length: s, retraction_length: base });
                Ok(PlannerAction::SetRecovery)
            },
            _ => Err(StepperError::NotSupported),
        }
    }

    fn feed(&mut self, f: Option<SpeedArg>)
        ensures
            *final(self) == (PlannerState { feedrate: next_feedrate(old(self).feedrate, f), ..*old(self) }),
    {
        if f.is_some() {
            self.feedrate = f;
        }
    }
}

/// The feed rate a move command (`G0` to `G3`) carries, or `None` for any
/// other command.
pub open spec fn move_feed(c: GCommand) -> Option<Option<SpeedArg>> {
    match c {
        GCommand::G0 { f, .. } => Some(f),
        GCommand::G1 { f, .. } => Some(f),
        GCommand::G2 { f, .. } => Some(f),
        GCommand::G3 { f, .. } => Some(f),
        _ => None,
    }
}

/// An accepted move keeps the feed rate it carries, or the one in force
/// when it carries none, and changes no other setting.
pub proof fn law_move_feed_rate(st: PlannerState, c: GCommand, has_endstops: bool)
    requires
        spec_plan(c, has_endstops) is Ok,
        move_feed(c) is Some,
    ensures
        spec_next_state(st, c, has_endstops).feedrate == match move_feed(c) {
            Some(Some(f)) => Some(f),
            _ => st.feedrate,
        },
        spec_next_state(st, c, has_endstops).positioning == st.positioning,
        spec_next_state(st, c, has_endstops).retraction == st.retraction,
        spec_next_state(st, c, has_endstops).recovery == st.recovery,
{
}

/// What the planner does with each command: `G0` moves only with
/// endstops, `G1` always moves with extrusion, an arc goes the way its
/// code says, `G4` pauses for `S` or else `P`, `G10`/`G11` retract and
/// recover, `G90`/`G91` set positioning, `M207`/`M208` set retraction and
/// recovery; any other command is not supported.
pub proof fn law_plan_actions(c: GCommand, has_endstops: bool)
    ensures
        c is G0 ==> spec_plan(c, has_endstops) == if has_endstops {
            Ok::<PlannerAction, StepperError>(PlannerAction::LinearMove)
        } else {
            Err(StepperError::MoveNotValid)
        },
        c is G1 ==> spec_plan(c, has_endstops) == Ok::<PlannerAction, StepperError>(
            PlannerAction::LinearMoveExtrude,
        ),
        c matches GCommand::G2 { x, y, i, j, r, .. } ==> spec_plan(c, has_endstops) == match spec_arc_form(
            x is Some,
            y is Some,
            i is Some,
            j is Some,
            r is Some,
        ) {
            Some(form) => Ok::<PlannerAction, StepperError>(
                PlannerAction::Arc { form, direction: RotationDirection::Clockwise },
            ),
            None => Err(StepperError::MoveNotValid),
        },
        c matches GCommand::G3 { x, y, i, j, r, .. } ==> spec_plan(c, has_endstops) == match spec_arc_form(
            x is Some,
            y is Some,
            i is Some,
            j is Some,
            r is Some,
        ) {
            Some(form) => Ok::<PlannerAction, StepperError>(
                PlannerAction::Arc { form, direction: RotationDirection::CounterClockwise },
            ),
            None => Err(StepperError::MoveNotValid),
        },
        c matches GCommand::G4 { p, s } ==> spec_plan(c, has_endstops) == Ok::<
            PlannerAction,
            StepperError,
        >(
            PlannerAction::Dwell(
                if s is Some {
                    s
                } else {
                    p
                },
            ),
        ),
        c is G10 ==> spec_plan(c, has_endstops) == Ok::<PlannerAction, StepperError>(
            PlannerAction::Retract,
        ),
        c is G11 ==> spec_plan(c, has_endstops) == Ok::<PlannerAction, StepperError>(
            PlannerAction::Recover,
        ),
        c is G90 ==> spec_plan(c, has_endstops) == Ok::<PlannerAction, StepperError>(
            PlannerAction::SetPositioning(Positioning::Absolute),
        ),
        c is G91 ==> spec_plan(c, has_endstops) == Ok::<PlannerAction, StepperError>(
            PlannerAction::SetPositioning(Positioning::Relative),
        ),
        c is M207 ==> spec_plan(c, has_endstops) == Ok::<PlannerAction, StepperError>(
            PlannerAction::SetRetraction,
        ),
        c is M208 ==> spec_plan(c, has_endstops) == Ok::<PlannerAction, StepperError>(
            PlannerAction::SetRecovery,
        ),
        !(c is G0 || c is G1 || c is G2 || c is G3 || c is G4 || c is G10 || c is G11 || c is G90
            || c is G91 || c is M207 || c is M208) ==> spec_plan(c, has_endstops) == Err::<
            PlannerAction,
            StepperError,
        >(StepperError::NotSupported),
{
}

/// The settings commands: `G90` and `G91` set absolute and relative
/// positioning, `M207` the retraction it gives, `M208` the recovery it
/// gives together with the retraction length in force; each leaves the
/// other settings as they were.
pub proof fn law_settings_commands(st: PlannerState, c: GCommand, has_endstops: bool)
    ensures
        c is G90 ==> spec_next_state(st, c, has_endstops) == (PlannerState {
            positioning: Positioning::Absolute,
            ..st
        }),
        c is G91 ==> spec_next_state(st, c, has_endstops) == (PlannerState {
            positioning: Positioning::Relative,
            ..st
        }),
        c matches GCommand::M207 { f, s, z } ==> spec_next_state(st, c, has_endstops) == (
        PlannerState {
            retraction: Some(Retraction { feedrate: f, length: s, z_lift: z }),
            ..st
        }),
        c matches GCommand::M208 { f, s } ==> spec_next_state(st, c, has_endstops) == (
        PlannerState {
            recovery: Some(
                Recovery {
                    feedrate: f,
                    extra_length: s,
                    retraction_length: match st.retraction {
                        Some(r) => Some(r.length),
                        None => None,
                    },
                },
            ),
            ..st
        }),
        !(c is G0 || c is G1 || c is G2 || c is G3 || c is G90 || c is G91 || c is M207
            || c is M208) ==> spec_next_state(st, c, has_endstops) == st,
{
}

} // verus!
