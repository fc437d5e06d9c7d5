//! Reading G-code: finding the command in a chunk of text, splitting it
//! into words and turning the words into a command.
use vstd::prelude::*;
use vstd::string::*;
use vstd::utf8::*;
use crate::bounded::{
    arg_entries, arg_map_first_key, arg_map_get, arg_map_insert, arg_map_len, arg_map_new,
    capacity, file_name_chars, file_name_from_str, key_index, map_insert, map_lookup, word_items,
    word_vec_get, word_vec_len, word_vec_new, word_vec_push, ArgMap, FileName, WordVec,
};
use crate::number::{
    fan_byte, chars_of, decimal_digits_ok, duration_convertible, parse_number,
    spec_fan_byte, spec_duration_convertible, spec_parse_number, Number, NumberModel,
};
use crate::text::{
    ascii_upper, is_ascii_char, lemma_split_words_grow, lemma_split_words_nonempty, parse_u64,
    spec_ascii_upper, spec_parse_u64, spec_trim, split_words, trim,
};
use crate::units::{DistanceUnit, DurationUnit, TemperatureUnit};

verus! {

/// The letter that opens a G-code command word.
#[derive(Clone, Copy, PartialEq, Eq, Debug, Structural)]
pub enum GCommandType {
    G,
    M,
    D,
}

/// A distance as written in a command, with the distance unit in force.
#[derive(Clone, PartialEq, Debug)]
pub struct DistanceArg {
    pub value: Number,
    pub unit: DistanceUnit,
}

/// A feed rate as written in a command: a distance per minute, with the
/// distance unit in force.
#[derive(Clone, PartialEq, Debug)]
pub struct SpeedArg {
    pub value: Number,
    pub unit: DistanceUnit,
}

/// A temperature as written in a command, with the temperature unit in force.
#[derive(Clone, PartialEq, Debug)]
pub struct TemperatureArg {
    pub value: Number,
    pub unit: TemperatureUnit,
}

/// A duration as written in a command, with the unit its letter implies.
#[derive(Clone, PartialEq, Debug)]
pub struct DurationArg {
    pub value: Number,
    pub unit: DurationUnit,
}

/// What an argument means: the number written and its unit.
pub struct ArgModel<U> {
    pub value: NumberModel,
    pub unit: U,
}

impl View for DistanceArg {
    type V = ArgModel<DistanceUnit>;

    open spec fn view(&self) -> ArgModel<DistanceUnit> {
        ArgModel { value: self.value@, unit: self.unit }
    }
}

impl View for SpeedArg {
    type V = ArgModel<DistanceUnit>;

    open spec fn view(&self) -> ArgModel<DistanceUnit> {
        ArgModel { value: self.value@, unit: self.unit }
    }
}

impl View for TemperatureArg {
    type V = ArgModel<TemperatureUnit>;

    open spec fn view(&self) -> ArgModel<TemperatureUnit> {
        ArgModel { value: self.value@, unit: self.unit }
    }
}

impl View for DurationArg {
    type V = ArgModel<DurationUnit>;

    open spec fn view(&self) -> ArgModel<DurationUnit> {
        ArgModel { value: self.value@, unit: self.unit }
    }
}

pub open spec fn view_opt<T: View>(o: Option<T>) -> Option<T::V> {
    match o {
        Some(t) => Some(t@),
        None => None,
    }
}

/// A G-code command.
#[derive(Clone, PartialEq, Debug)]
pub enum GCommand {
    /// linear move
    G0 {
        x: Option<DistanceArg>,
        y: Option<DistanceArg>,
        z: Option<DistanceArg>,
        f: Option<SpeedArg>,
    },
    /// linear move with extrusion
    G1 {
        x: Option<DistanceArg>,
        y: Option<DistanceArg>,
        z: Option<DistanceArg>,
        e: Option<DistanceArg>,
        f: Option<SpeedArg>,
    },
    /// clockwise arc
    G2 {
        x: Option<DistanceArg>,
        y: Option<DistanceArg>,
        z: Option<DistanceArg>,
        e: Option<DistanceArg>,
        f: Option<SpeedArg>,
        i: Option<DistanceArg>,
        j: Option<DistanceArg>,
        r: Option<DistanceArg>,
    },
    /// counter-clockwise arc
    G3 {
        x: Option<DistanceArg>,
        y: Option<DistanceArg>,
        z: Option<DistanceArg>,
        e: Option<DistanceArg>,
        f: Option<SpeedArg>,
        i: Option<DistanceArg>,
        j: Option<DistanceArg>,
        r: Option<DistanceArg>,
    },
    /// dwell
    G4 { p: Option<DurationArg>, s: Option<DurationArg> },
    /// retract
    G10,
    /// recover
    G11,
    /// distances in inches
    G20,
    /// distances in millimeters
    G21,
    /// auto home
    G28 { x: bool, y: bool, z: bool },
    /// absolute positioning
    G90,
    /// relative positioning
    G91,
    /// set the steppers' position
    G92 {
        x: Option<DistanceArg>,
        y: Option<DistanceArg>,
        z: Option<DistanceArg>,
        e: Option<DistanceArg>,
    },
    /// list SD card files
    M20,
    /// mount the SD card
    M21,
    /// eject the SD card
    M22,
    /// select an SD file
    M23 { filename: FileName },
    /// start or resume the SD print
    M24 { s: u64, t: core::time::Duration },
    /// pause the SD print
    M25,
    /// report SD print status
    M27,
    /// report print time
    M31,
    /// absolute extrusion
    M82,
    /// relative extrusion
    M83,
    /// set hotend temperature
    M104 { s: TemperatureArg },
    /// report temperatures
    M105,
    /// set fan speed, 0 to 255
    M106 { s: u8 },
    /// fan off
    M107,
    /// wait for hotend temperature
    M109 { s: TemperatureArg },
    /// report position
    M114,
    /// report fan speed
    M123 { s: Option<DurationArg> },
    /// set bed temperature
    M140 { s: TemperatureArg },
    /// set temperature unit
    M149 { u: TemperatureUnit },
    /// position auto-report
    M154 { s: DurationArg },
    /// temperature auto-report
    M155 { s: DurationArg },
    /// wait for bed temperature
    M190 { s: TemperatureArg },
    /// wait for probe temperature
    M192 { r: TemperatureArg, s: TemperatureArg },
    /// set max feedrate
    M203 { x: SpeedArg, y: SpeedArg, z: SpeedArg, e: SpeedArg },
    /// firmware retraction settings
    M207 { f: SpeedArg, s: DistanceArg, z: DistanceArg },
    /// firmware recover settings
    M208 { f: SpeedArg, s: DistanceArg },
    /// feedrate multiplier
    M220 { s: Number },
    /// flow multiplier
    M221 { s: Number },
    /// abort SD print
    M524,
}

type DistM = Option<ArgModel<DistanceUnit>>;

/// What a command means, with numbers as written.
pub enum GCommandModel {
    G0 { x: DistM, y: DistM, z: DistM, f: DistM },
    G1 { x: DistM, y: DistM, z: DistM, e: DistM, f: DistM },
    G2 { x: DistM, y: DistM, z: DistM, e: DistM, f: DistM, i: DistM, j: DistM, r: DistM },
    G3 { x: DistM, y: DistM, z: DistM, e: DistM, f: DistM, i: DistM, j: DistM, r: DistM },
    G4 { p: Option<ArgModel<DurationUnit>>, s: Option<ArgModel<DurationUnit>> },
    G10,
    G11,
    G20,
    G21,
    G28 { x: bool, y: bool, z: bool },
    G90,
    G91,
    G92 { x: DistM, y: DistM, z: DistM, e: DistM },
    M20,
    M21,
    M22,
    M23 { filename: Seq<char> },
    M24 { s: u64, t: core::time::Duration },
    M25,
    M27,
    M31,
    M82,
    M83,
    M104 { s: ArgModel<TemperatureUnit> },
    M105,
    M106 { s: u8 },
    M107,
    M109 { s: ArgModel<TemperatureUnit> },
    M114,
    M123 { s: Option<ArgModel<DurationUnit>> },
    M140 { s: ArgModel<TemperatureUnit> },
    M149 { u: TemperatureUnit },
    M154 { s: ArgModel<DurationUnit> },
    M155 { s: ArgModel<DurationUnit> },
    M190 { s: ArgModel<TemperatureUnit> },
    M192 { r: ArgModel<TemperatureUnit>, s: ArgModel<TemperatureUnit> },
    M203 {
        x: ArgModel<DistanceUnit>,
        y: ArgModel<DistanceUnit>,
        z: ArgModel<DistanceUnit>,
        e: ArgModel<DistanceUnit>,
    },
    M207 { f: ArgModel<DistanceUnit>, s: ArgModel<DistanceUnit>, z: ArgModel<DistanceUnit> },
    M208 { f: ArgModel<DistanceUnit>, s: ArgModel<DistanceUnit> },
    M220 { s: NumberModel },
    M221 { s: NumberModel },
    M524,
}

impl View for GCommand {
    type V = GCommandModel;

    open spec fn view(&self) -> GCommandModel {
        match *self {
            GCommand::G0 { x, y, z, f } => GCommandModel::G0 {
                x: view_opt(x),
                y: view_opt(y),
                z: view_opt(z),
                f: view_opt(f),
            },
            GCommand::G1 { x, y, z, e, f } => GCommandModel::G1 {
                x: view_opt(x),
                y: view_opt(y),
                z: view_opt(z),
                e: view_opt(e),
                f: view_opt(f),
            },
            GCommand::G2 { x, y, z, e, f, i, j, r } => GCommandModel::G2 {
                x: view_opt(x),
                y: view_opt(y),
                z: view_opt(z),
                e: view_opt(e),
                f: view_opt(f),
                i: view_opt(i),
                j: view_opt(j),
                r: view_opt(r),
            },
            GCommand::G3 { x, y, z, e, f, i, j, r } => GCommandModel::G3 {
                x: view_opt(x),
                y: view_opt(y),
                z: view_opt(z),
                e: view_opt(e),
                f: view_opt(f),
                i: view_opt(i),
                j: view_opt(j),
                r: view_opt(r),
            },
            GCommand::G4 { p, s } => GCommandModel::G4 { p: view_opt(p), s: view_opt(s) },
            GCommand::G10 => GCommandModel::G10,
            GCommand::G11 => GCommandModel::G11,
            GCommand::G20 => GCommandModel::G20,
            GCommand::G21 => GCommandModel::G21,
            GCommand::G28 { x, y, z } => GCommandModel::G28 { x, y, z },
            GCommand::G90 => GCommandModel::G90,
            GCommand::G91 => GCommandModel::G91,
            GCommand::G92 { x, y, z, e } => GCommandModel::G92 {
                x: view_opt(x),
                y: view_opt(y),
                z: view_opt(z),
                e: view_opt(e),
            },
            GCommand::M20 => GCommandModel::M20,
            GCommand::M21 => GCommandModel::M21,
            GCommand::M22 => GCommandModel::M22,
            GCommand::M23 { filename } => GCommandModel::M23 {
                filename: file_name_chars(filename),
            },
            GCommand::M24 { s, t } => GCommandModel::M24 { s, t },
            GCommand::M25 => GCommandModel::M25,
            GCommand::M27 => GCommandModel::M27,
            GCommand::M31 => GCommandModel::M31,
            GCommand::M82 => GCommandModel::M82,
            GCommand::M83 => GCommandModel::M83,
            GCommand::M104 { s } => GCommandModel::M104 { s: s@ },
            GCommand::M105 => GCommandModel::M105,
            GCommand::M106 { s } => GCommandModel::M106 { s },
            GCommand::M107 => GCommandModel::M107,
            GCommand::M109 { s } => GCommandModel::M109 { s: s@ },
            GCommand::M114 => GCommandModel::M114,
            GCommand::M123 { s } => GCommandModel::M123 { s: view_opt(s) },
            GCommand::M140 { s } => GCommandModel::M140 { s: s@ },
            GCommand::M149 { u } => GCommandModel::M149 { u },
            GCommand::M154 { s } => GCommandModel::M154 { s: s@ },
            GCommand::M155 { s } => GCommandModel::M155 { s: s@ },
            GCommand::M190 { s } => GCommandModel::M190 { s: s@ },
            GCommand::M192 { r, s } => GCommandModel::M192 { r: r@, s: s@ },
            GCommand::M203 { x, y, z, e } => GCommandModel::M203 { x: x@, y: y@, z: z@, e: e@ },
            GCommand::M207 { f, s, z } => GCommandModel::M207 { f: f@, s: s@, z: z@ },
            GCommand::M208 { f, s } => GCommandModel::M208 { f: f@, s: s@ },
            GCommand::M220 { s } => GCommandModel::M220 { s: s@ },
            GCommand::M221 { s } => GCommandModel::M221 { s: s@ },
            GCommand::M524 => GCommandModel::M524,
        }
    }
}

// ---------------------------------------------------------------------------
// What a line means
// ---------------------------------------------------------------------------

pub type Entries = Seq<(char, Option<Seq<char>>)>;

/// The command word: its letter (an ASCII letter, either case) and code.
pub open spec fn spec_head(w: Seq<char>) -> Option<(GCommandType, u64)> {
    if w.len() < 2 || !is_ascii_char(w[0]) {
        None
    } else {
        match spec_parse_u64(w.skip(1)) {
            Some(code) => {
                let k = spec_ascii_upper(w[0]);
                if k == 'G' {
                    Some((GCommandType::G, code))
                } else if k == 'M' {
                    Some((GCommandType::M, code))
                } else {
                    None
                }
            },
            None => None,
        }
    }
}

/// The argument entries of the argument words `ws`: each word stores its
/// text after the first character under that character in upper case. A
/// word that is empty or starts with a non-ASCII character, or a 17th
/// distinct letter, makes the line unreadable.
pub open spec fn spec_args(ws: Seq<Seq<char>>) -> Option<Entries>
    decreases ws.len(),
{
    if ws.len() == 0 {
        Some(Seq::empty())
    } else {
        match spec_args(ws.drop_last()) {
            Some(m) => {
                let t = ws.last();
                if t.len() > 0 && is_ascii_char(t[0]) {
                    map_insert(m, spec_ascii_upper(t[0]), Some(t.skip(1)))
                } else {
                    None
                }
            },
            None => None,
        }
    }
}

pub open spec fn arg_number(m: Entries, k: char) -> Option<NumberModel> {
    match map_lookup(m, k) {
        Some(Some(t)) => spec_parse_number(t),
        _ => None,
    }
}

pub open spec fn arg_with<U>(m: Entries, k: char, u: U) -> Option<ArgModel<U>> {
    match arg_number(m, k) {
        Some(n) => Some(ArgModel { value: n, unit: u }),
        None => None,
    }
}

pub open spec fn spec_g_command(code: u64, m: Entries, du: DistanceUnit) -> Option<GCommandModel> {
    if code == 0 {
        Some(
            GCommandModel::G0 {
                x: arg_with(m, 'X', du),
                y: arg_with(m, 'Y', du),
                z: arg_with(m, 'Z', du),
                f: arg_with(m, 'F', du),
            },
        )
    } else if code == 1 {
        Some(
            GCommandModel::G1 {
                x: arg_with(m, 'X', du),
                y: arg_with(m, 'Y', du),
                z: arg_with(m, 'Z', du),
                e: arg_with(m, 'E', du),
                f: arg_with(m, 'F', du),
            },
        )
    } else if code == 2 {
        Some(
            GCommandModel::G2 {
                x: arg_with(m, 'X', du),
                y: arg_with(m, 'Y', du),
                z: arg_with(m, 'Z', du),
                e: arg_with(m, 'E', du),
                f: arg_with(m, 'F', du),
                i: arg_with(m, 'I', du),
                j: arg_with(m, 'J', du),
                r: arg_with(m, 'R', du),
            },
        )
    } else if code == 3 {
        Some(
            GCommandModel::G3 {
                x: arg_with(m, 'X', du),
                y: arg_with(m, 'Y', du),
                z: arg_with(m, 'Z', du),
                e: arg_with(m, 'E', du),
                f: arg_with(m, 'F', du),
                i: arg_with(m, 'I', du),
                j: arg_with(m, 'J', du),
                r: arg_with(m, 'R', du),
            },
        )
    } else if code == 4 {
        Some(
            GCommandModel::G4 {
                p: arg_with(m, 'P', DurationUnit::Millisecond),
                s: arg_with(m, 'S', DurationUnit::Second),
            },
        )
    } else if code == 10 {
        Some(GCommandModel::G10)
    } else if code == 11 {
        Some(GCommandModel::G11)
    } else if code == 20 {
        Some(GCommandModel::G20)
    } else if code == 21 {
        Some(GCommandModel::G21)
    } else if code == 28 {
        if m.len() == 0 {
            Some(GCommandModel::G28 { x: true, y: true, z: true })
        } else {
            Some(
                GCommandModel::G28 {
                    x: key_index(m, 'X') >= 0,
                    y: key_index(m, 'Y') >= 0,
                    z: key_index(m, 'Z') >= 0,
                },
            )
        }
    } else if code == 90 {
        Some(GCommandModel::G90)
    } else if code == 91 {
        Some(GCommandModel::G91)
    } else if code == 92 {
        Some(
            GCommandModel::G92 {
                x: arg_with(m, 'X', du),
                y: arg_with(m, 'Y', du),
                z: arg_with(m, 'Z', du),
                e: arg_with(m, 'E', du),
            },
        )
    } else {
        None
    }
}

/// The unit that an `M149` letter selects.
pub open spec fn temperature_unit_of(c: char) -> Option<TemperatureUnit> {
    if c == 'C' {
        Some(TemperatureUnit::Celsius)
    } else if c == 'F' {
        Some(TemperatureUnit::Farhenheit)
    } else if c == 'K' {
        Some(TemperatureUnit::Kelvin)
    } else {
        None
    }
}

/// A command that needs one argument.
pub open spec fn with_required<U>(
    a: Option<ArgModel<U>>,
    f: spec_fn(ArgModel<U>) -> GCommandModel,
) -> Option<GCommandModel> {
    match a {
        Some(v) => Some(f(v)),
        None => None,
    }
}

/// `Clone` of a `Duration`: the same duration.
pub assume_specification[ <core::time::Duration as Clone>::clone ](
    d: &core::time::Duration,
) -> (r: core::time::Duration)
    ensures
        r == *d,
;

/// What `Duration::from_secs` returns for a number of seconds.
pub uninterp spec fn spec_duration_from_secs(secs: u64) -> core::time::Duration;

/// `Duration::from_secs`: the duration of `secs` whole seconds.
#[verifier::external_body]
pub(crate) fn duration_from_secs(secs: u64) -> (d: core::time::Duration)
    ensures
        d == spec_duration_from_secs(secs),
{
    core::time::Duration::from_secs(secs)
}

pub open spec fn spec_m_command(
    code: u64,
    m: Entries,
    du: DistanceUnit,
    tu: TemperatureUnit,
) -> Option<GCommandModel> {
    if code == 20 {
        Some(GCommandModel::M20)
    } else if code == 21 {
        Some(GCommandModel::M21)
    } else if code == 22 {
        Some(GCommandModel::M22)
    } else if code == 23 {
        match map_lookup(m, 'F') {
            Some(Some(t)) => if encode_utf8(t).len() <= 12 {
                Some(GCommandModel::M23 { filename: t })
            } else {
                None
            },
            _ => None,
        }
    } else if code == 24 {
        Some(GCommandModel::M24 { s: 0, t: spec_duration_from_secs(0) })
    } else if code == 25 {
        Some(GCommandModel::M25)
    } else if code == 31 {
        Some(GCommandModel::M31)
    } else if code == 82 {
        Some(GCommandModel::M82)
    } else if code == 83 {
        Some(GCommandModel::M83)
    } else if code == 104 {
        with_required(arg_with(m, 'S', tu), |s| GCommandModel::M104 { s })
    } else if code == 105 {
        Some(GCommandModel::M105)
    } else if code == 106 {
        match arg_number(m, 'S') {
            Some(n) => match spec_fan_byte(n) {
                Some(b) => Some(GCommandModel::M106 { s: b }),
                None => None,
            },
            None => None,
        }
    } else if code == 107 {
        Some(GCommandModel::M107)
    } else if code == 109 {
        with_required(arg_with(m, 'S', tu), |s| GCommandModel::M109 { s })
    } else if code == 114 {
        Some(GCommandModel::M114)
    } else if code == 123 {
        Some(GCommandModel::M123 { s: arg_with(m, 'S', DurationUnit::Second) })
    } else if code == 140 {
        with_required(arg_with(m, 'S', tu), |s| GCommandModel::M140 { s })
    } else if code == 149 {
        if m.len() > 0 {
            match temperature_unit_of(m[0].0) {
                Some(u) => Some(GCommandModel::M149 { u }),
                None => None,
            }
        } else {
            None
        }
    } else if code == 154 {
        with_required(arg_with(m, 'S', DurationUnit::Second), |s| GCommandModel::M154 { s })
    } else if code == 155 {
        with_required(arg_with(m, 'S', DurationUnit::Second), |s| GCommandModel::M155 { s })
    } else if code == 190 {
        with_required(arg_with(m, 'S', tu), |s| GCommandModel::M190 { s })
    } else if code == 207 {
        match (arg_with(m, 'F', du), arg_with(m, 'S', du), arg_with(m, 'Z', du)) {
            (Some(f), Some(s), Some(z)) => Some(GCommandModel::M207 { f, s, z }),
            _ => None,
        }
    } else if code == 208 {
        match (arg_with(m, 'F', du), arg_with(m, 'S', du)) {
            (Some(f), Some(s)) => Some(GCommandModel::M208 { f, s }),
            _ => None,
        }
    } else if code == 220 {
        match arg_number(m, 'S') {
            Some(n) => Some(GCommandModel::M220 { s: n }),
            None => None,
        }
    } else if code == 221 {
        match arg_number(m, 'S') {
            Some(n) => Some(GCommandModel::M221 { s: n }),
            None => None,
        }
    } else if code == 524 {
        Some(GCommandModel::M524)
    } else {
        None
    }
}

/// The command that a line of G-code spells, when the distance and
/// temperature units in force are `du` and `tu`.
pub open spec fn spec_parse_line(
    line: Seq<char>,
    du: DistanceUnit,
    tu: TemperatureUnit,
) -> Option<GCommandModel> {
    let ws = split_words(line);
    match spec_head(ws[0]) {
        Some((ty, code)) => match spec_args(ws.skip(1)) {
            Some(m) => match ty {
                GCommandType::G => spec_g_command(code, m, du),
                GCommandType::M => spec_m_command(code, m, du, tu),
                GCommandType::D => None,
            },
            None => None,
        },
        None => None,
    }
}

/// Whether an argument, when present, carries unit `u`.
pub open spec fn in_unit<U>(a: Option<ArgModel<U>>, u: U) -> bool {
    a matches Some(v) ==> v.unit == u
}

pub open spec fn move_units_ok(c: Option<GCommandModel>, du: DistanceUnit) -> bool {
    match c {
        Some(GCommandModel::G0 { x, y, z, f }) => in_unit(x, du) && in_unit(y, du) && in_unit(z, du)
            && in_unit(f, du),
        Some(GCommandModel::G1 { x, y, z, e, f }) => in_unit(x, du) && in_unit(y, du) && in_unit(
            z,
            du,
        ) && in_unit(e, du) && in_unit(f, du),
        _ => true,
    }
}

pub open spec fn heater_units_ok(c: Option<GCommandModel>, tu: TemperatureUnit) -> bool {
    match c {
        Some(GCommandModel::M104 { s }) => s.unit == tu,
        Some(GCommandModel::M109 { s }) => s.unit == tu,
        Some(GCommandModel::M140 { s }) => s.unit == tu,
        _ => true,
    }
}

proof fn lemma_g_units(code: u64, m: Entries, du: DistanceUnit, tu: TemperatureUnit)
    ensures
        move_units_ok(spec_g_command(code, m, du), du),
        heater_units_ok(spec_g_command(code, m, du), tu),
{
}

#[verifier::rlimit(30)]
proof fn lemma_m_units(code: u64, m: Entries, du: DistanceUnit, tu: TemperatureUnit)
    ensures
        move_units_ok(spec_m_command(code, m, du, tu), du),
        heater_units_ok(spec_m_command(code, m, du, tu), tu),
{
}

/// The distances and feed rates of a move carry the distance unit the
/// reader is set to, and the temperature of a heater command the
/// temperature unit it is set to.
pub proof fn law_arguments_in_set_units(line: Seq<char>, du: DistanceUnit, tu: TemperatureUnit)
    ensures
        move_units_ok(spec_parse_line(line, du, tu), du),
        heater_units_ok(spec_parse_line(line, du, tu), tu),
{
    let ws = split_words(line);
    match spec_head(ws[0]) {
        Some((ty, code)) => match spec_args(ws.skip(1)) {
            Some(m) => {
                lemma_g_units(code, m, du, tu);
                lemma_m_units(code, m, du, tu);
            },
            None => {},
        },
        None => {},
    }
}

/// A duration argument, when present, converts to a `Duration`.
pub open spec fn duration_arg_ok(m: Entries, k: char, u: DurationUnit) -> bool {
    match arg_number(m, k) {
        Some(n) => spec_duration_convertible(n, u),
        None => true,
    }
}

/// A line that can be read without overflowing the word buffer (16 words)
/// and whose duration arguments convert to a `Duration`.
pub open spec fn spec_line_readable(line: Seq<char>) -> bool {
    let ws = split_words(line);
    &&& ws.len() <= capacity()
    &&& match (spec_head(ws[0]), spec_args(ws.skip(1))) {
        (Some((GCommandType::G, code)), Some(m)) => code == 4 ==> (duration_arg_ok(
            m,
            'P',
            DurationUnit::Millisecond,
        ) && duration_arg_ok(m, 'S', DurationUnit::Second)),
        (Some((GCommandType::M, code)), Some(m)) => (code == 123 || code == 154 || code == 155)
            ==> duration_arg_ok(m, 'S', DurationUnit::Second),
        _ => true,
    }
}

// ---------------------------------------------------------------------------
// Reading a line
// ---------------------------------------------------------------------------

/// The words of `line`, split at each space.
pub(crate) fn split_line<'a>(line: &'a str) -> (v: WordVec<'a>)
    requires
        split_words(line@).len() <= capacity(),
    ensures
        word_items(v) == split_words(line@),
{
    let cs = chars_of(line);
    let n = cs.len();
    let ghost l = line@;
    let mut v = word_vec_new();
    let mut start: usize = 0;
    let mut i: usize = 0;
    assert(l.take(0) =~= Seq::<char>::empty());
    assert(word_items(v).push(l.subrange(0, 0)) =~= seq![Seq::<char>::empty()]);
    while i < n
        invariant
            start <= i <= n,
            cs@ == l,
            n == l.len(),
            line@ == l,
            split_words(l).len() <= capacity(),
            word_items(v).push(l.subrange(start as int, i as int)) == split_words(l.take(i as int)),
        decreases n - i,
    {
        let ghost before = word_items(v);
        assert(l.take(i + 1).drop_last() =~= l.take(i as int));
        assert(l.take(i + 1).last() == cs@[i as int]);
        if cs[i] == ' ' {
            let w = line.substring_char(start, i);
            proof {
                lemma_split_words_grow(l, i + 1);
            }
            let ok = word_vec_push(&mut v, w);
            assert(ok);
            assert(word_items(v) == before.push(l.subrange(start as int, i as int)));
            assert(split_words(l.take(i + 1)) == split_words(l.take(i as int)).push(
                Seq::<char>::empty(),
            ));
            start = i + 1;
            i = i + 1;
            assert(l.subrange(start as int, i as int) =~= Seq::<char>::empty());
            assert(word_items(v).push(l.subrange(start as int, i as int)) =~= split_words(
                l.take(i as int),
            ));
        } else {
            i = i + 1;
            assert(l.subrange(start as int, i as int) =~= l.subrange(
                start as int,
                (i - 1) as int,
            ).push(cs@[i - 1]));
            assert(word_items(v).push(l.subrange(start as int, i as int)) =~= split_words(
                l.take(i as int),
            ));
        }
    }
    let w = line.substring_char(start, n);
    assert(l.take(n as int) =~= l);
    let ok = word_vec_push(&mut v, w);
    assert(ok);
    v
}

/// The letter and code of the command word.
fn read_head(w: &str) -> (r: Option<(GCommandType, u64)>)
    ensures
        r == spec_head(w@),
{
    let cs = chars_of(w);
    if cs.len() < 2 {
        return None;
    }
    let c0 = cs[0];
    if (c0 as u32) >= 128 {
        return None;
    }
    let rest = w.substring_char(1, cs.len());
    assert(rest@ =~= w@.skip(1));
    let code = match parse_u64(rest) {
        Some(c) => c,
        None => return None,
    };
    let k = ascii_upper(c0);
    if k == 'G' {
        Some((GCommandType::G, code))
    } else if k == 'M' {
        Some((GCommandType::M, code))
    } else {
        None
    }
}

proof fn lemma_args_none_extends(ws: Seq<Seq<char>>, i: int)
    requires
        0 <= i <= ws.len(),
        spec_args(ws.take(i)) is None,
    ensures
        spec_args(ws) is None,
    decreases ws.len() - i,
{
    if i < ws.len() {
        assert(ws.take(i + 1).drop_last() =~= ws.take(i));
        lemma_args_none_extends(ws, i + 1);
    } else {
        assert(ws.take(i) =~= ws);
    }
}

/// The argument map of the words after the command word.
fn read_args<'a>(words: &WordVec<'a>) -> (r: Option<ArgMap<'a>>)
    requires
        word_items(*words).len() >= 1,
    ensures
        match r {
            Some(m) => spec_args(word_items(*words).skip(1)) == Some(arg_entries(m)),
            None => spec_args(word_items(*words).skip(1)) is None,
        },
{
    let ghost ws = word_items(*words).skip(1);
    let mut m = arg_map_new();
    let n = word_vec_len(words);
    let mut i: usize = 1;
    assert(ws.take(0) =~= Seq::<Seq<char>>::empty());
    while i < n
        invariant
            1 <= i <= n,
            n == word_items(*words).len(),
            ws == word_items(*words).skip(1),
            spec_args(ws.take(i - 1)) == Some(arg_entries(m)),
        decreases n - i,
    {
        let t = word_vec_get(words, i);
        let ghost prev = arg_entries(m);
        assert(ws.take(i as int).drop_last() =~= ws.take(i - 1));
        assert(ws.take(i as int).last() == t@);
        let cs = chars_of(t);
        if cs.len() == 0 || (cs[0] as u32) >= 128 {
            proof {
                lemma_args_none_extends(ws, i as int);
            }
            return None;
        }
        let k = ascii_upper(cs[0]);
        let v = t.substring_char(1, cs.len());
        assert(v@ =~= t@.skip(1));
        if !arg_map_insert(&mut m, k, Some(v)) {
            proof {
                lemma_args_none_extends(ws, i as int);
            }
            return None;
        }
        i = i + 1;
    }
    assert(ws.take(n - 1) =~= ws);
    Some(m)
}

/// The number written after the letter `k`, if any.
fn number_arg(m: &ArgMap, k: char) -> (r: Option<Number>)
    ensures
        view_opt(r) == arg_number(arg_entries(*m), k),
        r matches Some(Number::Finite(d)) ==> decimal_digits_ok(d@),
{
    match arg_map_get(m, k) {
        Some(Some(t)) => parse_number(t),
        _ => None,
    }
}

fn distance_arg(m: &ArgMap, k: char, u: DistanceUnit) -> (r: Option<DistanceArg>)
    ensures
        view_opt(r) == arg_with(arg_entries(*m), k, u),
{
    match number_arg(m, k) {
        Some(value) => Some(DistanceArg { value, unit: u }),
        None => None,
    }
}

fn speed_arg(m: &ArgMap, k: char, u: DistanceUnit) -> (r: Option<SpeedArg>)
    ensures
        view_opt(r) == arg_with(arg_entries(*m), k, u),
{
    match number_arg(m, k) {
        Some(value) => Some(SpeedArg { value, unit: u }),
        None => None,
    }
}

fn temperature_arg(m: &ArgMap, k: char, u: TemperatureUnit) -> (r: Option<TemperatureArg>)
    ensures
        view_opt(r) == arg_with(arg_entries(*m), k, u),
{
    match number_arg(m, k) {
        Some(value) => Some(TemperatureArg { value, unit: u }),
        None => None,
    }
}

fn duration_arg(m: &ArgMap, k: char, u: DurationUnit) -> (r: Option<DurationArg>)
    ensures
        view_opt(r) == arg_with(arg_entries(*m), k, u),
{
    match number_arg(m, k) {
        Some(value) => Some(DurationArg { value, unit: u }),
        None => None,
    }
}

/// Whether the argument `k`, when present, converts to a duration.
fn duration_ok(m: &ArgMap, k: char, u: DurationUnit) -> (b: bool)
    ensures
        b == duration_arg_ok(arg_entries(*m), k, u),
{
    match number_arg(m, k) {
        Some(n) => duration_convertible(&n, u),
        None => true,
    }
}

/// Whether the map holds an entry for `k`.
fn has_key(m: &ArgMap, k: char) -> (b: bool)
    ensures
        b == (key_index(arg_entries(*m), k) >= 0),
{
    arg_map_get(m, k).is_some()
}

fn g_command(code: u64, m: &ArgMap, du: DistanceUnit) -> (r: Option<GCommand>)
    ensures
        view_opt(r) == spec_g_command(code, arg_entries(*m), du),
{
    if code == 0 {
        Some(
            GCommand::G0 {
                x: distance_arg(m, 'X', du),
                y: distance_arg(m, 'Y', du),
                z: distance_arg(m, 'Z', du),
                f: speed_arg(m, 'F', du),
            },
        )
    } else if code == 1 {
        Some(
            GCommand::G1 {
                x: distance_arg(m, 'X', du),
                y: distance_arg(m, 'Y', du),
                z: distance_arg(m, 'Z', du),
                e: distance_arg(m, 'E', du),
                f: speed_arg(m, 'F', du),
            },
        )
    } else if code == 2 {
        Some(
            GCommand::G2 {
                x: distance_arg(m, 'X', du),
                y: distance_arg(m, 'Y', du),
                z: distance_arg(m, 'Z', du),
                e: distance_arg(m, 'E', du),
                f: speed_arg(m, 'F', du),
                i: distance_arg(m, 'I', du),
                j: distance_arg(m, 'J', du),
                r: distance_arg(m, 'R', du),
            },
        )
    } else if code == 3 {
        Some(
            GCommand::G3 {
                x: distance_arg(m, 'X', du),
                y: distance_arg(m, 'Y', du),
                z: distance_arg(m, 'Z', du),
                e: distance_arg(m, 'E', du),
                f: speed_arg(m, 'F', du),
                i: distance_arg(m, 'I', du),
                j: distance_arg(m, 'J', du),
                r: distance_arg(m, 'R', du),
            },
        )
    } else if code == 4 {
        Some(
            GCommand::G4 {
                p: duration_arg(m, 'P', DurationUnit::Millisecond),
                s: duration_arg(m, 'S', DurationUnit::Second),
            },
        )
    } else if code == 10 {
        Some(GCommand::G10)
    } else if code == 11 {
        Some(GCommand::G11)
    } else if code == 20 {
        Some(GCommand::G20)
    } else if code == 21 {
        Some(GCommand::G21)
    } else if code == 28 {
        if arg_map_len(m) == 0 {
            Some(GCommand::G28 { x: true, y: true, z: true })
        } else {
            Some(GCommand::G28 { x: has_key(m, 'X'), y: has_key(m, 'Y'), z: has_key(m, 'Z') })
        }
    } else if code == 90 {
        Some(GCommand::G90)
    } else if code == 91 {
        Some(GCommand::G91)
    } else if code == 92 {
        Some(
            GCommand::G92 {
                x: distance_arg(m, 'X', du),
                y: distance_arg(m, 'Y', du),
                z: distance_arg(m, 'Z', du),
                e: distance_arg(m, 'E', du),
            },
        )
    } else {
        None
    }
}

#[verifier::rlimit(60)]
fn m_command(code: u64, m: &ArgMap, du: DistanceUnit, tu: TemperatureUnit) -> (r: Option<GCommand>)
    ensures
        view_opt(r) == spec_m_command(code, arg_entries(*m), du, tu),
{
    if code == 20 {
        Some(GCommand::M20)
    } else if code == 21 {
        Some(GCommand::M21)
    } else if code == 22 {
        Some(GCommand::M22)
    } else if code == 23 {
        match arg_map_get(m, 'F') {
            Some(Some(t)) => match file_name_from_str(t) {
                Some(filename) => Some(GCommand::M23 { filename }),
                None => None,
            },
            _ => None,
        }
    } else if code == 24 {
        Some(GCommand::M24 { s: 0, t: duration_from_secs(0) })
    } else if code == 25 {
        Some(GCommand::M25)
    } else if code == 31 {
        Some(GCommand::M31)
    } else if code == 82 {
        Some(GCommand::M82)
    } else if code == 83 {
        Some(GCommand::M83)
    } else if code == 104 {
        match temperature_arg(m, 'S', tu) {
            Some(s) => Some(GCommand::M104 { s }),
            None => None,
        }
    } else if code == 105 {
        Some(GCommand::M105)
    } else if code == 106 {
        match number_arg(m, 'S') {
            Some(n) => match fan_byte(&n) {
                Some(b) => Some(GCommand::M106 { s: b }),
                None => None,
            },
            None => None,
        }
    } else if code == 107 {
        Some(GCommand::M107)
    } else if code == 109 {
        match temperature_arg(m, 'S', tu) {
            Some(s) => Some(GCommand::M109 { s }),
            None => None,
        }
    } else if code == 114 {
        Some(GCommand::M114)
    } else if code == 123 {
        Some(GCommand::M123 { s: duration_arg(m, 'S', DurationUnit::Second) })
    } else if code == 140 {
        match temperature_arg(m, 'S', tu) {
            Some(s) => Some(GCommand::M140 { s }),
            None => None,
        }
    } else if code == 149 {
        match arg_map_first_key(m) {
            Some(c) => if c == 'C' {
                Some(GCommand::M149 { u: TemperatureUnit::Celsius })
            } else if c == 'F' {
                Some(GCommand::M149 { u: TemperatureUnit::Farhenheit })
            } else if c == 'K' {
                Some(GCommand::M149 { u: TemperatureUnit::Kelvin })
            } else {
                None
            },
            None => None,
        }
    } else if code == 154 {
        match duration_arg(m, 'S', DurationUnit::Second) {
            Some(s) => Some(GCommand::M154 { s }),
            None => None,
        }
    } else if code == 155 {
        match duration_arg(m, 'S', DurationUnit::Second) {
            Some(s) => Some(GCommand::M155 { s }),
            None => None,
        }
    } else if code == 190 {
        match temperature_arg(m, 'S', tu) {
            Some(s) => Some(GCommand::M190 { s }),
            None => None,
        }
    } else if code == 207 {
        let f = match speed_arg(m, 'F', du) {
            Some(v) => v,
            None => return None,
        };
        let s = match distance_arg(m, 'S', du) {
            Some(v) => v,
            None => return None,
        };
        let z = match distance_arg(m, 'Z', du) {
            Some(v) => v,
            None => return None,
        };
        Some(GCommand::M207 { f, s, z })
    } else if code == 208 {
        let f = match speed_arg(m, 'F', du) {
            Some(v) => v,
            None => return None,
        };
        let s = match distance_arg(m, 'S', du) {
            Some(v) => v,
            None => return None,
        };
        Some(GCommand::M208 { f, s })
    } else if code == 220 {
        match number_arg(m, 'S') {
            Some(s) => Some(GCommand::M220 { s }),
            None => None,
        }
    } else if code == 221 {
        match number_arg(m, 'S') {
            Some(s) => Some(GCommand::M221 { s }),
            None => None,
        }
    } else if code == 524 {
        Some(GCommand::M524)
    } else {
        None
    }
}

// ---------------------------------------------------------------------------
// Finding the command in a chunk of text
// ---------------------------------------------------------------------------

/// Where the command of a chunk lies, found by reading it character by
/// character from position `i`: outside comments, the first character that
/// is not `;`, `(` or a newline starts the command; the first `;` or `(`
/// after that start ends it; a comment opened by `(` closes at `)` and one
/// opened by `;` at the next `;`; a newline outside a comment ends the
/// reading. The result is the start and, unless the command runs to the end
/// of the text, the end position; there is none when no command started.
pub open spec fn scan(
    cs: Seq<char>,
    i: nat,
    comment: Option<char>,
    start: Option<nat>,
    end: Option<nat>,
) -> Option<(nat, Option<nat>)>
    decreases cs.len() - i,
{
    if i >= cs.len() {
        match start {
            Some(s) => Some((s, end)),
            None => None,
        }
    } else {
        let b = cs[i as int];
        match comment {
            None => if b == ';' || b == '(' {
                let end2 = if start is Some && end is None {
                    Some(i)
                } else {
                    end
                };
                scan(cs, i + 1, Some(b), start, end2)
            } else if b == '\n' {
                match start {
                    Some(s) => Some(
                        (
                            s,
                            Some(
                                match end {
                                    Some(e) => e,
                                    None => i,
                                },
                            ),
                        ),
                    ),
                    None => None,
                }
            } else {
                let start2 = if start is None {
                    Some(i)
                } else {
                    start
                };
                scan(cs, i + 1, None, start2, end)
            },
            Some(open) => if (open == '(' && b == ')') || (open == ';' && b == ';') {
                scan(cs, i + 1, None, start, end)
            } else {
                scan(cs, i + 1, comment, start, end)
            },
        }
    }
}

/// The byte range of the command in `data`, as the reader slices it: the
/// positions found by `scan` count characters but are used as byte offsets,
/// and a command that runs to the end of the text ends at its byte length.
pub open spec fn command_range(data: &str) -> Option<(int, int)> {
    match scan(data@, 0, None, None, None) {
        Some((s, e)) => Some(
            (
                s as int,
                match e {
                    Some(x) => x as int,
                    None => data.len() as int,
                },
            ),
        ),
        None => None,
    }
}

/// The text of the command in `data`, without surrounding white space.
pub open spec fn command_text(data: &str, s: int, e: int) -> Seq<char> {
    spec_trim(decode_utf8(data.spec_bytes().subrange(s, e)))
}

/// Whether reading `data` goes through: the command range falls on
/// character boundaries and the command line is readable.
pub open spec fn spec_chunk_readable(data: &str) -> bool {
    match command_range(data) {
        Some((s, e)) => {
            &&& 0 <= s <= e <= data.len()
            &&& is_char_boundary(data.spec_bytes(), s)
            &&& is_char_boundary(data.spec_bytes(), e)
            &&& spec_line_readable(command_text(data, s, e))
        },
        None => true,
    }
}

/// The command that a chunk of G-code text holds.
pub open spec fn spec_parse_chunk(
    data: &str,
    du: DistanceUnit,
    tu: TemperatureUnit,
) -> Option<GCommandModel> {
    match command_range(data) {
        Some((s, e)) => spec_parse_line(command_text(data, s, e), du, tu),
        None => None,
    }
}

/// No newline, `;` or `(` from position `i` on.
pub open spec fn plain_from(cs: Seq<char>, i: int) -> bool {
    forall|j: int| i <= j < cs.len() ==> cs[j] != ';' && cs[j] != '(' && cs[j] != '\n'
}

/// Read from position `i` outside a comment, a text with nothing special
/// left in it starts its command at `start` if one started already, else at
/// `i`, and runs it to the end.
proof fn lemma_scan_plain(cs: Seq<char>, i: nat, start: Option<nat>)
    requires
        i <= cs.len(),
        plain_from(cs, i as int),
    ensures
        scan(cs, i, None, start, None) == (match start {
            Some(s) => Some((s, None::<nat>)),
            None => if i < cs.len() {
                Some((i, None::<nat>))
            } else {
                None
            },
        }),
    decreases cs.len() - i,
{
    if i < cs.len() {
        let start2 = if start is None {
            Some(i)
        } else {
            start
        };
        lemma_scan_plain(cs, i + 1, start2);
    }
}

/// A chunk without comments or newlines holds the command of its trimmed
/// text, and reads when that text reads: empty or blank text holds none.
pub proof fn law_parse_plain_chunk(data: &str, du: DistanceUnit, tu: TemperatureUnit)
    requires
        plain_from(data@, 0),
        data.spec_bytes().len() <= usize::MAX,
    ensures
        spec_parse_chunk(data, du, tu) == spec_parse_line(spec_trim(data@), du, tu),
        spec_chunk_readable(data) == spec_line_readable(spec_trim(data@)),
{
    lemma_scan_plain(data@, 0, None);
    let bytes = data.spec_bytes();
    vstd::utf8::encode_utf8_valid_utf8(data@);
    vstd::utf8::encode_utf8_decode_utf8(data@);
    vstd::utf8::is_char_boundary_start_end_of_seq(bytes);
    assert(bytes.subrange(0, bytes.len() as int) =~= bytes);
    if data@.len() == 0 {
        assert(scan(data@, 0, None, None, None) is None);
        assert(command_range(data) is None);
        assert(spec_trim(data@) =~= Seq::<char>::empty());
        assert(split_words(Seq::<char>::empty()) =~= seq![Seq::<char>::empty()]);
        assert(spec_head(split_words(spec_trim(data@))[0]) is None);
    } else {
        assert(scan(data@, 0, None, None, None) == Some((0nat, None::<nat>)));
        assert(command_range(data) == Some((0int, bytes.len() as int)));
        assert(command_text(data, 0, bytes.len() as int) == spec_trim(data@));
    }
}

/// Read from position `i` outside a comment, a text whose next newline is
/// at `k`, with nothing special before it, starts its command at `start`
/// if one started already, else at `i` when a character comes before the
/// newline, and ends it at the newline.
proof fn lemma_scan_to_newline(cs: Seq<char>, i: nat, start: Option<nat>, k: nat)
    requires
        i <= k < cs.len(),
        cs[k as int] == '\n',
        forall|j: int| i <= j < k ==> cs[j] != ';' && cs[j] != '(' && cs[j] != '\n',
    ensures
        scan(cs, i, None, start, None) == (match start {
            Some(s) => Some((s, Some(k))),
            None => if i < k {
                Some((i, Some(k)))
            } else {
                None
            },
        }),
    decreases k - i,
{
    if i < k {
        let start2 = if start is None {
            Some(i)
        } else {
            start
        };
        lemma_scan_to_newline(cs, i + 1, start2, k);
    }
}

/// A chunk reads as its first line: for ASCII text whose first newline is
/// at `k` and whose first line holds no comment, the chunk holds the
/// command of that line, trimmed, and reads when that line reads; what
/// follows the newline plays no part.
pub proof fn law_parse_first_line(data: &str, k: int, du: DistanceUnit, tu: TemperatureUnit)
    requires
        0 <= k < data@.len(),
        data@[k] == '\n',
        plain_from(data@.subrange(0, k), 0),
        is_ascii_chars(data@),
        data.spec_bytes().len() <= usize::MAX,
    ensures
        spec_parse_chunk(data, du, tu) == spec_parse_line(spec_trim(data@.subrange(0, k)), du, tu),
        spec_chunk_readable(data) == spec_line_readable(spec_trim(data@.subrange(0, k))),
{
    let cs = data@;
    let l = cs.subrange(0, k);
    assert forall|j: int| 0 <= j < k implies cs[j] != ';' && cs[j] != '(' && cs[j] != '\n' by {
        assert(l[j] == cs[j]);
    }
    lemma_scan_to_newline(cs, 0, None, k as nat);
    let bytes = data.spec_bytes();
    is_ascii_chars_encode_utf8(cs);
    assert(is_ascii_chars(l));
    is_ascii_chars_encode_utf8(l);
    assert(bytes.subrange(0, k) =~= encode_utf8(l)) by {
        assert forall|j: int| 0 <= j < k implies bytes.subrange(0, k)[j] == encode_utf8(l)[j] by {
            assert(l[j] == cs[j]);
        }
    }
    encode_utf8_decode_utf8(l);
    encode_utf8_valid_utf8(cs);
    is_char_boundary_start_end_of_seq(bytes);
    is_char_boundary_iff_not_is_continuation_byte(bytes, k);
    assert(bytes[k] == cs[k] as u8);
    assert(!is_continuation_byte(bytes[k]));
    assert(is_char_boundary(bytes, k));
    if k == 0 {
        assert(command_range(data) is None);
        assert(l =~= Seq::<char>::empty());
        assert(spec_trim(l) =~= Seq::<char>::empty());
        assert(split_words(Seq::<char>::empty()) =~= seq![Seq::<char>::empty()]);
        assert(spec_head(split_words(spec_trim(l))[0]) is None);
    } else {
        assert(command_range(data) == Some((0int, k)));
        assert(command_text(data, 0, k) == spec_trim(l));
    }
}

/// Once a command has started and ended, reading on changes neither.
proof fn lemma_scan_settled(cs: Seq<char>, i: nat, comment: Option<char>, s: nat, e: nat)
    ensures
        scan(cs, i, comment, Some(s), Some(e)) == Some((s, Some(e))),
    decreases cs.len() - i,
{
    if i < cs.len() {
        let b = cs[i as int];
        match comment {
            None => if b == ';' || b == '(' {
                lemma_scan_settled(cs, i + 1, Some(b), s, e);
            } else if b != '\n' {
                lemma_scan_settled(cs, i + 1, None, s, e);
            },
            Some(open) => if (open == '(' && b == ')') || (open == ';' && b == ';') {
                lemma_scan_settled(cs, i + 1, None, s, e);
            } else {
                lemma_scan_settled(cs, i + 1, comment, s, e);
            },
        }
    }
}

/// A comment ends the command: for ASCII text whose first `;` or `(` is at
/// `k`, after at least one character and with no newline before it, the
/// chunk holds the command of the text before the comment, trimmed,
/// whatever follows.
pub proof fn law_comment_ends_command(data: &str, k: int, du: DistanceUnit, tu: TemperatureUnit)
    requires
        0 < k < data@.len(),
        data@[k] == ';' || data@[k] == '(',
        plain_from(data@.subrange(0, k), 0),
        is_ascii_chars(data@),
        data.spec_bytes().len() <= usize::MAX,
    ensures
        spec_parse_chunk(data, du, tu) == spec_parse_line(spec_trim(data@.subrange(0, k)), du, tu),
        spec_chunk_readable(data) == spec_line_readable(spec_trim(data@.subrange(0, k))),
{
    let cs = data@;
    let l = cs.subrange(0, k);
    assert forall|j: int| 0 <= j < k implies cs[j] != ';' && cs[j] != '(' && cs[j] != '\n' by {
        assert(l[j] == cs[j]);
    }
    lemma_scan_before(cs, 0, None, k as nat);
    lemma_scan_settled(cs, (k + 1) as nat, Some(cs[k]), 0, k as nat);
    let bytes = data.spec_bytes();
    is_ascii_chars_encode_utf8(cs);
    assert(is_ascii_chars(l));
    is_ascii_chars_encode_utf8(l);
    assert(bytes.subrange(0, k) =~= encode_utf8(l)) by {
        assert forall|j: int| 0 <= j < k implies bytes.subrange(0, k)[j] == encode_utf8(l)[j] by {
            assert(l[j] == cs[j]);
        }
    }
    encode_utf8_decode_utf8(l);
    encode_utf8_valid_utf8(cs);
    is_char_boundary_start_end_of_seq(bytes);
    is_char_boundary_iff_not_is_continuation_byte(bytes, k);
    assert(bytes[k] == cs[k] as u8);
    assert(!is_continuation_byte(bytes[k]));
    assert(command_range(data) == Some((0int, k)));
    assert(command_text(data, 0, k) == spec_trim(l));
}

/// Read from position `i` outside a comment, a text with nothing special
/// before `k` reaches `k` with its command started at `start`, or at `i`.
proof fn lemma_scan_before(cs: Seq<char>, i: nat, start: Option<nat>, k: nat)
    requires
        i < k < cs.len(),
        cs[k as int] == ';' || cs[k as int] == '(',
        forall|j: int| i <= j < k ==> cs[j] != ';' && cs[j] != '(' && cs[j] != '\n',
    ensures
        scan(cs, i, None, start, None) == scan(
            cs,
            k + 1,
            Some(cs[k as int]),
            match start {
                Some(s) => Some(s),
                None => Some(i),
            },
            Some(k),
        ),
    decreases k - i,
{
    let start2 = if start is None {
        Some(i)
    } else {
        start
    };
    assert(scan(cs, i, None, start, None) == scan(cs, i + 1, None, start2, None));
    if i + 1 < k {
        lemma_scan_before(cs, i + 1, start2, k);
    } else {
        assert(scan(cs, k, None, start2, None) == scan(cs, k + 1, Some(cs[k as int]), start2, Some(k)));
    }
}

/// The character that closes a comment opened by `open`.
pub open spec fn comment_close(open: char) -> char {
    if open == '(' {
        ')'
    } else {
        ';'
    }
}

/// A position moved on by `p`.
spec fn moved(o: Option<nat>, p: nat) -> Option<nat> {
    match o {
        Some(x) => Some(x + p),
        None => None,
    }
}

/// Reading a text behind a prefix, from past the prefix, finds what reading
/// the text alone finds, moved on by the prefix's length.
proof fn lemma_scan_moved(
    pre: Seq<char>,
    cs: Seq<char>,
    i: nat,
    comment: Option<char>,
    start: Option<nat>,
    end: Option<nat>,
)
    requires
        i <= cs.len(),
    ensures
        scan(pre + cs, i + pre.len(), comment, moved(start, pre.len()), moved(end, pre.len())) == (
        match scan(cs, i, comment, start, end) {
            Some((s, e)) => Some((s + pre.len(), moved(e, pre.len()))),
            None => None,
        }),
    decreases cs.len() - i,
{
    let p = pre.len();
    let all = pre + cs;
    if i < cs.len() {
        assert(all[(i + p) as int] == cs[i as int]);
        let b = cs[i as int];
        match comment {
            None => if b == ';' || b == '(' {
                let end2 = if start is Some && end is None {
                    Some(i)
                } else {
                    end
                };
                lemma_scan_moved(pre, cs, i + 1, Some(b), start, end2);
                assert(moved(end2, p) == (if moved(start, p) is Some && moved(end, p) is None {
                    Some(i + p)
                } else {
                    moved(end, p)
                }));
            } else if b != '\n' {
                let start2 = if start is None {
                    Some(i)
                } else {
                    start
                };
                lemma_scan_moved(pre, cs, i + 1, None, start2, end);
                assert(moved(start2, p) == (if moved(start, p) is None {
                    Some(i + p)
                } else {
                    moved(start, p)
                }));
            },
            Some(open) => if (open == '(' && b == ')') || (open == ';' && b == ';') {
                lemma_scan_moved(pre, cs, i + 1, None, start, end);
            } else {
                lemma_scan_moved(pre, cs, i + 1, comment, start, end);
            },
        }
    } else {
        assert(i + p >= all.len());
    }
}

/// Inside a comment opened by `open` and not yet closed, reading runs to
/// the closing character at `q` and goes on after it as before.
proof fn lemma_scan_comment(cs: Seq<char>, i: nat, open: char, q: nat)
    requires
        open == ';' || open == '(',
        i <= q < cs.len(),
        cs[q as int] == comment_close(open),
        forall|j: int| i <= j < q ==> cs[j] != comment_close(open),
    ensures
        scan(cs, i, Some(open), None, None) == scan(cs, q + 1, None, None, None),
    decreases q - i,
{
    if i < q {
        lemma_scan_comment(cs, i + 1, open, q);
    }
}

/// What `scan` finds lies in the text: the start before its end, and the
/// end, when there is one, between the start and the end of the text.
proof fn lemma_scan_bounds(
    cs: Seq<char>,
    i: nat,
    comment: Option<char>,
    start: Option<nat>,
    end: Option<nat>,
)
    requires
        i <= cs.len(),
        start is Some ==> start.unwrap() < i,
        end is Some ==> start is Some && start.unwrap() <= end.unwrap() <= i,
    ensures
        scan(cs, i, comment, start, end) matches Some((s, e)) ==> s < cs.len() && (e is Some
            ==> s <= e.unwrap() <= cs.len()),
    decreases cs.len() - i,
{
    if i < cs.len() {
        let b = cs[i as int];
        match comment {
            None => if b == ';' || b == '(' {
                let end2 = if start is Some && end is None {
                    Some(i)
                } else {
                    end
                };
                lemma_scan_bounds(cs, i + 1, Some(b), start, end2);
            } else if b != '\n' {
                let start2 = if start is None {
                    Some(i)
                } else {
                    start
                };
                lemma_scan_bounds(cs, i + 1, None, start2, end);
            },
            Some(open) => if (open == '(' && b == ')') || (open == ';' && b == ';') {
                lemma_scan_bounds(cs, i + 1, None, start, end);
            } else {
                lemma_scan_bounds(cs, i + 1, comment, start, end);
            },
        }
    }
}

/// In ASCII text every position up to its end falls on a character
/// boundary, and there is one byte a character.
proof fn lemma_ascii_boundary(cs: Seq<char>, k: int)
    requires
        is_ascii_chars(cs),
        0 <= k <= cs.len(),
    ensures
        encode_utf8(cs).len() == cs.len(),
        is_char_boundary(encode_utf8(cs), k),
{
    let bytes = encode_utf8(cs);
    is_ascii_chars_encode_utf8(cs);
    encode_utf8_valid_utf8(cs);
    is_char_boundary_start_end_of_seq(bytes);
    if k < cs.len() {
        is_char_boundary_iff_not_is_continuation_byte(bytes, k);
        assert(bytes[k] == cs[k] as u8);
        assert(!is_continuation_byte(bytes[k]));
    }
}

/// A comment before the command plays no part: for ASCII text that opens
/// with a comment (`;` to `;`, or `(` to `)`, newlines inside it
/// included), the chunk holds what the text after the comment holds, and
/// reads when that text reads.
pub proof fn law_leading_comment_skipped(
    data: &str,
    rest: &str,
    open: char,
    c: Seq<char>,
    du: DistanceUnit,
    tu: TemperatureUnit,
)
    requires
        open == ';' || open == '(',
        forall|j: int| 0 <= j < c.len() ==> c[j] != comment_close(open),
        data@ == seq![open] + c + seq![comment_close(open)] + rest@,
        is_ascii_chars(data@),
        data.spec_bytes().len() <= usize::MAX,
    ensures
        spec_parse_chunk(data, du, tu) == spec_parse_chunk(rest, du, tu),
        spec_chunk_readable(data) == spec_chunk_readable(rest),
{
    let pre = seq![open] + c + seq![comment_close(open)];
    let p = pre.len();
    let all = data@;
    let cs = rest@;
    assert(all =~= pre + cs);
    assert(all[0] == open);
    assert forall|j: int| 1 <= j < p - 1 implies all[j] != comment_close(open) by {
        assert(all[j] == c[j - 1]);
    }
    assert(all[p - 1] == comment_close(open));
    lemma_scan_comment(all, 1, open, (p - 1) as nat);
    assert(scan(all, 0, None, None, None) == scan(all, 1, Some(open), None, None));
    lemma_scan_moved(pre, cs, 0, None, None, None);
    assert(moved(None, p) == None::<nat>);
    assert(scan(all, 0, None, None, None) == scan(all, p, None, None, None));
    assert(scan(all, p, None, None, None) == match scan(cs, 0, None, None, None) {
        Some((s, e)) => Some((s + p, moved(e, p))),
        None => None,
    });
    lemma_scan_bounds(cs, 0, None, None, None);
    assert(is_ascii_chars(cs)) by {
        assert forall|j: int| 0 <= j < cs.len() implies '\0' <= #[trigger] cs[j] <= '\u{7f}' by {
            assert(cs[j] == all[j + p]);
        }
    }
    is_ascii_chars_encode_utf8(all);
    is_ascii_chars_encode_utf8(cs);
    let db = data.spec_bytes();
    let rb = rest.spec_bytes();
    match scan(cs, 0, None, None, None) {
        Some((s0, e)) => {
            let s: int = s0 as int;
            let e1: int = match e {
                Some(x) => x as int,
                None => cs.len() as int,
            };
            assert(db.len() == all.len());
            assert(rb.len() == cs.len());
            assert(rest.len() == cs.len());
            assert(data.len() == all.len());
            assert(command_range(rest) == Some((s, e1)));
            assert(command_range(data) == Some((s + p, e1 + p)));
            assert(db.subrange(s + p, e1 + p) =~= rb.subrange(s, e1)) by {
                assert forall|j: int| 0 <= j < e1 - s implies db.subrange(s + p, e1 + p)[j]
                    == rb.subrange(s, e1)[j] by {
                    assert(all[s + p + j] == cs[s + j]);
                }
            }
            assert(command_text(data, s + p, e1 + p) == command_text(rest, s, e1));
            lemma_ascii_boundary(all, s + p);
            lemma_ascii_boundary(all, e1 + p);
            lemma_ascii_boundary(cs, s);
            lemma_ascii_boundary(cs, e1);
        },
        None => {
            assert(command_range(rest) is None);
            assert(command_range(data) is None);
        },
    }
}

#[derive(Clone, Copy)]
enum ParserState {
    ReadingCommand,
    ReadingComment(char),
}

spec fn state_comment(st: ParserState) -> Option<char> {
    match st {
        ParserState::ReadingCommand => None,
        ParserState::ReadingComment(c) => Some(c),
    }
}

spec fn opt_nat(o: Option<usize>) -> Option<nat> {
    match o {
        Some(x) => Some(x as nat),
        None => None,
    }
}

/// Finds the command in `data` as `scan` describes.
fn find_command(data: &str) -> (r: Option<(usize, Option<usize>)>)
    ensures
        match r {
            Some((s, e)) => scan(data@, 0, None, None, None) == Some((s as nat, opt_nat(e))),
            None => scan(data@, 0, None, None, None) is None,
        },
{
    let cs = chars_of(data);
    let n = cs.len();
    let mut state = ParserState::ReadingCommand;
    let mut command_start: Option<usize> = None;
    let mut command_end: Option<usize> = None;
    let mut i: usize = 0;
    while i < n
        invariant
            i <= n,
            n == cs@.len(),
            cs@ == data@,
            command_start matches Some(s) ==> s < i,
            command_end matches Some(e) ==> e < i,
            scan(data@, 0, None, None, None) == scan(
                data@,
                i as nat,
                state_comment(state),
                opt_nat(command_start),
                opt_nat(command_end),
            ),
        decreases n - i,
    {
        let b = cs[i];
        match state {
            ParserState::ReadingCommand => {
                if b == ';' || b == '(' {
                    state = ParserState::ReadingComment(b);
                    if command_start.is_some() && command_end.is_none() {
                        command_end = Some(i);
                    }
                } else if b == '\n' {
                    let start = match command_start {
                        Some(s) => s,
                        None => return None,
                    };
                    let end = match command_end {
                        Some(e) => e,
                        None => i,
                    };
                    return Some((start, Some(end)));
                } else {
                    if command_start.is_none() {
                        command_start = Some(i);
                    }
                }
            },
            ParserState::ReadingComment(start) => {
                if (start == '(' && b == ')') || (start == ';' && b == ';') {
                    state = ParserState::ReadingCommand;
                }
            },
        }
        i = i + 1;
    }
    match command_start {
        Some(s) => Some((s, command_end)),
        None => None,
    }
}

/// Characters that `split_words` counts as word separators.
pub open spec fn space_count(s: Seq<char>) -> nat
    decreases s.len(),
{
    if s.len() == 0 {
        0
    } else {
        space_count(s.drop_last()) + if s.last() == ' ' {
            1nat
        } else {
            0nat
        }
    }
}

proof fn lemma_split_words_len(s: Seq<char>)
    ensures
        split_words(s).len() == space_count(s) + 1,
    decreases s.len(),
{
    if s.len() > 0 {
        lemma_split_words_len(s.drop_last());
    }
}

/// The number of words of `line`.
fn word_count(line: &str) -> (n: usize)
    ensures
        n as nat == split_words(line@).len() || (n > capacity() && split_words(line@).len()
            > capacity()),
{
    let cs = chars_of(line);
    let mut count: usize = 1;
    let mut i: usize = 0;
    while i < cs.len()
        invariant
            i <= cs.len(),
            cs@ == line@,
            count <= 17,
            count as nat == space_count(line@.take(i as int)) + 1 || (count == 17
                && space_count(line@.take(i as int)) + 1 >= 17),
        decreases cs.len() - i,
    {
        assert(line@.take(i + 1).drop_last() =~= line@.take(i as int));
        if cs[i] == ' ' && count < 17 {
            count = count + 1;
        }
        i = i + 1;
    }
    assert(line@.take(cs.len() as int) =~= line@);
    proof {
        lemma_split_words_len(line@);
    }
    count
}

/// Reads G-code text, keeping the units that `G20`/`G21` and `M149` select.
pub struct GCodeParser {
    distance_unit: DistanceUnit,
    temperature_unit: TemperatureUnit,
}

impl GCodeParser {
    pub closed spec fn distance_unit(self) -> DistanceUnit {
        self.distance_unit
    }

    pub closed spec fn temperature_unit(self) -> TemperatureUnit {
        self.temperature_unit
    }

    /// A reader with distances in millimeters and temperatures in Celsius.
    pub fn new() -> (p: Self)
        ensures
            p.distance_unit() == DistanceUnit::Millimeter,
            p.temperature_unit() == TemperatureUnit::Celsius,
    {
        Self { distance_unit: DistanceUnit::Millimeter, temperature_unit: TemperatureUnit::Celsius }
    }

    pub fn set_distance_unit(&mut self, unit: DistanceUnit)
        ensures
            final(self).distance_unit() == unit,
            final(self).temperature_unit() == old(self).temperature_unit(),
    {
        self.distance_unit = unit;
    }

    pub fn set_temperature_unit(&mut self, unit: TemperatureUnit)
        ensures
            final(self).temperature_unit() == unit,
            final(self).distance_unit() == old(self).distance_unit(),
    {
        self.temperature_unit = unit;
    }

    /// Whether `parse_line` can read `line`: it has at most 16 words and its
    /// duration arguments are durations.
    pub fn line_readable(line: &str) -> (b: bool)
        ensures
            b == spec_line_readable(line@),
    {
        if word_count(line) > 16 {
            return false;
        }
        let words = split_line(line);
        proof {
            lemma_split_words_nonempty(line@);
        }
        let head = read_head(word_vec_get(&words, 0));
        let args = read_args(&words);
        match (head, args) {
            (Some((GCommandType::G, code)), Some(m)) => code != 4 || (duration_ok(
                &m,
                'P',
                DurationUnit::Millisecond,
            ) && duration_ok(&m, 'S', DurationUnit::Second)),
            (Some((GCommandType::M, code)), Some(m)) => !(code == 123 || code == 154 || code
                == 155) || duration_ok(&m, 'S', DurationUnit::Second),
            _ => true,
        }
    }

    /// The command that one line of G-code spells, if any.
    pub fn parse_line(&self, line: &str) -> (r: Option<GCommand>)
        requires
            spec_line_readable(line@),
        ensures
            view_opt(r) == spec_parse_line(line@, self.distance_unit(), self.temperature_unit()),
    {
        let words = split_line(line);
        proof {
            lemma_split_words_nonempty(line@);
        }
        let (ty, code) = match read_head(word_vec_get(&words, 0)) {
            Some(h) => h,
            None => return None,
        };
        let args = match read_args(&words) {
            Some(m) => m,
            None => return None,
        };
        match ty {
            GCommandType::G => g_command(code, &args, self.distance_unit),
            GCommandType::M => m_command(code, &args, self.distance_unit, self.temperature_unit),
            GCommandType::D => None,
        }
    }

    /// Whether `parse` can read `data` (see `spec_chunk_readable`).
    pub fn chunk_readable(data: &str) -> (b: bool)
        ensures
            b == spec_chunk_readable(data),
    {
        match find_command(data) {
            None => true,
            Some((s, e)) => {
                let end = match e {
                    Some(x) => x,
                    None => data.len(),
                };
                if !(s <= end && end <= data.len()) {
                    return false;
                }
                if !data.is_char_boundary(s) || !data.is_char_boundary(end) {
                    return false;
                }
                let (head, _) = data.split_at(end);
                proof {
                    vstd::utf8::encode_utf8_valid_utf8(data@);
                    lemma_prefix_boundary(data.spec_bytes(), end as int, s as int);
                }
                let (_, line) = head.split_at(s);
                proof {
                    lemma_slice_text(data.spec_bytes(), end as int, s as int, head.spec_bytes(), line.spec_bytes());
                    vstd::utf8::encode_utf8_decode_utf8(line@);
                }
                let t = trim(line);
                Self::line_readable(t)
            },
        }
    }

    /// The command held by a chunk of G-code text: the text up to the first
    /// newline outside a comment, without its comments.
    pub fn parse(&mut self, data: &str) -> (r: Option<GCommand>)
        requires
            spec_chunk_readable(data),
        ensures
            *final(self) == *old(self),
            view_opt(r) == spec_parse_chunk(data, old(self).distance_unit(), old(self).temperature_unit()),
    {
        let (s, e) = match find_command(data) {
            Some(range) => range,
            None => return None,
        };
        let end = match e {
            Some(x) => x,
            None => data.len(),
        };
        let (head, _) = data.split_at(end);
        proof {
            vstd::utf8::encode_utf8_valid_utf8(data@);
            lemma_prefix_boundary(data.spec_bytes(), end as int, s as int);
        }
        let (_, line) = head.split_at(s);
        proof {
            lemma_slice_text(data.spec_bytes(), end as int, s as int, head.spec_bytes(), line.spec_bytes());
            vstd::utf8::encode_utf8_decode_utf8(line@);
        }
        let t = trim(line);
        self.parse_line(t)
    }
}

/// A boundary of a valid text before `end` is a boundary of its first `end`
/// bytes.
proof fn lemma_prefix_boundary(bytes: Seq<u8>, end: int, s: int)
    requires
        valid_utf8(bytes),
        0 <= s <= end <= bytes.len(),
        is_char_boundary(bytes, s),
        is_char_boundary(bytes, end),
    ensures
        valid_utf8(bytes.subrange(0, end)),
        is_char_boundary(bytes.subrange(0, end), s),
{
    vstd::utf8::valid_utf8_split(bytes, end);
    let a = bytes.subrange(0, end);
    if s < end {
        vstd::utf8::is_char_boundary_iff_not_is_continuation_byte(bytes, s);
        vstd::utf8::is_char_boundary_iff_not_is_continuation_byte(a, s);
        assert(a[s] == bytes[s]);
    } else {
        vstd::utf8::is_char_boundary_start_end_of_seq(a);
    }
}

proof fn lemma_slice_text(bytes: Seq<u8>, end: int, s: int, head: Seq<u8>, line: Seq<u8>)
    requires
        0 <= s <= end <= bytes.len(),
        head =~= bytes.subrange(0, end),
        line =~= head.subrange(s, head.len() as int),
    ensures
        line =~= bytes.subrange(s, end),
{
}

impl Default for GCodeParser {
    fn default() -> (p: Self)
        ensures
            p.distance_unit() == DistanceUnit::Millimeter,
            p.temperature_unit() == TemperatureUnit::Celsius,
    {
        Self::new()
    }
}

} // verus!
