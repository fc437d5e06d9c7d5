use xtrooder::gcode::{DistanceArg, GCodeParser, GCommand, SpeedArg, TemperatureArg};
use xtrooder::number::Number;
use xtrooder::units::{DistanceUnit, TemperatureUnit};

/// The `f64` that a number as written stands for.
fn num(n: &Number) -> f64 {
    match n {
        Number::Finite(d) => {
            let mut s = String::new();
            if d.negative {
                s.push('-');
            }
            for x in &d.integer {
                s.push((b'0' + x) as char);
            }
            s.push('.');
            for x in &d.fraction {
                s.push((b'0' + x) as char);
            }
            if !d.exponent.is_empty() {
                s.push('e');
                if d.exp_negative {
                    s.push('-');
                }
                for x in &d.exponent {
                    s.push((b'0' + x) as char);
                }
            }
            if s == "." {
                return 0.0;
            }
            s.parse::<f64>().unwrap()
        }
        Number::Infinite { negative } => {
            if *negative {
                f64::NEG_INFINITY
            } else {
                f64::INFINITY
            }
        }
        Number::NotANumber => f64::NAN,
    }
}

fn mm(d: &Option<DistanceArg>) -> Option<f64> {
    d.as_ref().map(|a| match a.unit {
        DistanceUnit::Millimeter => num(&a.value),
        DistanceUnit::Inch => num(&a.value) * 25.4,
    })
}

/// Meters per second of a feed rate written per minute.
fn mps(f: &Option<SpeedArg>) -> Option<f64> {
    f.as_ref().map(|a| match a.unit {
        DistanceUnit::Millimeter => num(&a.value) / 60_000.0,
        DistanceUnit::Inch => num(&a.value) * 25.4 / 60_000.0,
    })
}

fn celsius(t: &TemperatureArg) -> f64 {
    match t.unit {
        TemperatureUnit::Celsius => num(&t.value),
        TemperatureUnit::Farhenheit => (num(&t.value) - 32.0) * 5.0 / 9.0,
        TemperatureUnit::Kelvin => num(&t.value) - 273.15,
    }
}

fn same(a: Option<f64>, b: Option<f64>) -> bool {
    match (a, b) {
        (Some(x), Some(y)) => (x - y).abs() < 1e-9,
        (None, None) => true,
        _ => false,
    }
}

fn assert_g1(c: &GCommand, x: Option<f64>, y: Option<f64>, z: Option<f64>, e: Option<f64>, f: Option<f64>) {
    match c {
        GCommand::G1 { x: cx, y: cy, z: cz, e: ce, f: cf } => {
            assert!(same(mm(cx), x));
            assert!(same(mm(cy), y));
            assert!(same(mm(cz), z));
            assert!(same(mm(ce), e));
            assert!(same(mps(cf), f));
        }
        _ => panic!("not a G1"),
    }
}

#[test]
fn gcode_test_parse_line_g0_complete() {
    let parser = GCodeParser::new();
    let line = "G0 X10.1 Y9.0 Z1.0 E2.0 F1200";
    let command = parser.parse_line(line);
    assert!(command.is_some());
    match command.unwrap() {
        GCommand::G0 { x, y, z, f } => {
            assert!(same(mm(&x), Some(10.1)));
            assert!(same(mm(&y), Some(9.0)));
            assert!(same(mm(&z), Some(1.0)));
            assert!(same(mps(&f), Some(0.02)));
        }
        _ => panic!("not a G0"),
    }
}

#[test]
fn gcode_test_parse_line_g0_incomplete() {
    let parser = GCodeParser::new();
    let line = "G0 X10.1 F1200";
    let command = parser.parse_line(line);
    assert!(command.is_some());
    match command.unwrap() {
        GCommand::G0 { x, y, z, f } => {
            assert!(same(mm(&x), Some(10.1)));
            assert!(y.is_none());
            assert!(z.is_none());
            assert!(same(mps(&f), Some(0.02)));
        }
        _ => panic!("not a G0"),
    }
}

#[test]
fn gcode_test_parse_line_g0_invalid() {
    let parser = GCodeParser::new();
    let line = "hello";
    let command = parser.parse_line(line);
    assert!(command.is_none());
}

#[test]
fn test_parse_line_m104_valid() {
    let parser = GCodeParser::new();
    let line = "M104 S10";
    let command = parser.parse_line(line);
    assert!(command.is_some());
    match command.unwrap() {
        GCommand::M104 { s } => assert!((celsius(&s) - 10.0).abs() < 1e-9),
        _ => panic!("not an M104"),
    }
}

#[test]
fn gcode_test_parse_line_g1_complete() {
    let parser = GCodeParser::new();
    let line = "G1 X10.1 Y9.0 Z1.0 E2.0 F1200";
    let command = parser.parse_line(line);
    assert!(command.is_some());
    assert_g1(&command.unwrap(), Some(10.1), Some(9.0), Some(1.0), Some(2.0), Some(0.02));
}

#[test]
fn test_parse_line_g28_y() {
    let parser = GCodeParser::new();
    let line = "G28 Y";
    let command = parser.parse_line(line);
    assert!(command.is_some());
    assert!(command.unwrap() == GCommand::G28 { x: false, y: true, z: false });
}

#[test]
fn test_parse_line_g28_all() {
    let parser = GCodeParser::new();
    let line = "G28";
    let command = parser.parse_line(line);
    assert!(command.is_some());
    assert!(command.unwrap() == GCommand::G28 { x: true, y: true, z: true });
}

#[test]
fn gcode_test_parse_line_g1_incomplete() {
    let parser = GCodeParser::new();
    let line = "G1 X10.1 F1200";
    let command = parser.parse_line(line);
    assert!(command.is_some());
    assert_g1(&command.unwrap(), Some(10.1), None, None, None, Some(0.02));
}

#[test]
fn gcode_test_parse_line_g1_invalid() {
    let parser = GCodeParser::new();
    let line = "G1 ciao lala";
    let command = parser.parse_line(line);
    assert!(command.is_some());
    assert!(command.unwrap() == GCommand::G1 { x: None, y: None, z: None, e: None, f: None });
}

#[test]
fn test_parse_line_m149_celsius() {
    let parser = GCodeParser::new();
    let line = "M149 C";
    let command = parser.parse_line(line);
    assert!(command.is_some());
    assert!(command.unwrap() == GCommand::M149 { u: TemperatureUnit::Celsius });
}

#[test]
fn test_parse_line_m149_farhenheit() {
    let parser = GCodeParser::new();
    let line = "M149 F";
    let command = parser.parse_line(line);
    assert!(command.is_some());
    assert!(command.unwrap() == GCommand::M149 { u: TemperatureUnit::Farhenheit });
}

#[test]
fn test_parser_incomplete() {
    let data = "hellohellohellohello";
    let mut parser = GCodeParser::new();
    let res = parser.parse(data);
    assert!(res.is_none());
}

#[test]
fn test_parser_valid() {
    let data = "G1 X10.1 F1200\n";
    let mut parser = GCodeParser::new();
    let res = parser.parse(data);
    assert!(res.is_some());
    assert_g1(&res.unwrap(), Some(10.1), None, None, None, Some(0.02));
}

#[test]
fn test_parser_valid_with_comment_semicolon() {
    let data = "G1 X10.1 F1200;comment";
    let mut parser = GCodeParser::new();
    let res = parser.parse(data);
    assert!(res.is_some());
    assert_g1(&res.unwrap(), Some(10.1), None, None, None, Some(0.02));
}

#[test]
fn test_parser_invalid_with_comment_semicolon() {
    let data = ";G1 X10.1 F1200;comment";
    let mut parser = GCodeParser::new();
    let res = parser.parse(data);
    assert!(res.is_none());
}

#[test]
fn test_parser_invalid_with_comment_double_semicolon() {
    let data = ";comment;G1 X10.1 F1200";
    let mut parser = GCodeParser::new();
    let res = parser.parse(data);
    assert!(res.is_some());
    assert_g1(&res.unwrap(), Some(10.1), None, None, None, Some(0.02));
}

#[test]
fn test_parser_invalid_with_comment_parenthesis() {
    let data = "G1 X10.1 F1200(some comment)";
    let mut parser = GCodeParser::new();
    let res = parser.parse(data);
    assert!(res.is_some());
    assert_g1(&res.unwrap(), Some(10.1), None, None, None, Some(0.02));
}

#[test]
fn test_parser_valid_2_commands() {
    let data1 = "G20\n";
    let data2 = "G21\n";
    let mut parser = GCodeParser::new();
    let res1 = parser.parse(data1);
    assert!(res1.is_some());
    assert!(res1.unwrap() == GCommand::G20);
    let res2 = parser.parse(data2);
    assert!(res2.is_some());
    assert!(res2.unwrap() == GCommand::G21);
}

// ---------------------------------------------------------------------------

#[test]
fn inches_are_kept_with_the_argument() {
    let mut parser = GCodeParser::new();
    parser.set_distance_unit(DistanceUnit::Inch);
    let command = parser.parse_line("G1 X2").unwrap();
    match command {
        GCommand::G1 { x: Some(x), .. } => {
            assert_eq!(x.unit, DistanceUnit::Inch);
            assert!((num(&x.value) - 2.0).abs() < 1e-12);
        }
        _ => panic!("not a G1 with X"),
    }
}

#[test]
fn temperature_unit_is_kept_with_the_argument() {
    let mut parser = GCodeParser::new();
    parser.set_temperature_unit(TemperatureUnit::Kelvin);
    match parser.parse_line("M104 S300").unwrap() {
        GCommand::M104 { s } => {
            assert_eq!(s.unit, TemperatureUnit::Kelvin);
            assert!((num(&s.value) - 300.0).abs() < 1e-12);
        }
        _ => panic!("not an M104"),
    }
}

#[test]
fn lower_case_command_letter_is_read() {
    let parser = GCodeParser::new();
    assert!(parser.parse_line("g20") == Some(GCommand::G20));
}

#[test]
fn fan_speed_is_a_byte() {
    let parser = GCodeParser::new();
    assert!(parser.parse_line("M106 S254.9") == Some(GCommand::M106 { s: 254 }));
    assert!(parser.parse_line("M106 S12.7") == Some(GCommand::M106 { s: 12 }));
    assert!(parser.parse_line("M106 S255") == Some(GCommand::M106 { s: 255 }));
    assert!(parser.parse_line("M106 S255.0") == Some(GCommand::M106 { s: 255 }));
    assert!(parser.parse_line("M106 S2.55e2") == Some(GCommand::M106 { s: 255 }));
    assert!(parser.parse_line("M106 S25500e-2") == Some(GCommand::M106 { s: 255 }));
    assert!(parser.parse_line("M106 S255.5").is_none());
    assert!(parser.parse_line("M106 S256").is_none());
    assert!(parser.parse_line("M106 S0") == Some(GCommand::M106 { s: 0 }));
    assert!(parser.parse_line("M106 S-1").is_none());
    assert!(parser.parse_line("M106 S-1e-400") == Some(GCommand::M106 { s: 0 }));
    assert!(parser.parse_line("M106 S-0") == Some(GCommand::M106 { s: 0 }));
    assert!(parser.parse_line("M106 S-1e-300").is_none());
}

#[test]
fn readable_lines() {
    assert!(GCodeParser::line_readable("G1 X1"));
    assert!(GCodeParser::chunk_readable("G1 X1\n"));
}

#[test]
fn unknown_code_is_none() {
    let parser = GCodeParser::new();
    assert!(parser.parse_line("G999").is_none());
}

#[test]
fn more_commands() {
    let parser = GCodeParser::new();
    match parser.parse_line("M23 Ftest.gco").unwrap() {
        GCommand::M23 { filename } => assert_eq!(filename.as_str(), "test.gco"),
        _ => panic!("not an M23"),
    }
    assert!(parser.parse_line("M23 Fa_very_long_name.gcode").is_none());
    assert!(parser.parse_line("M23").is_none());
    assert!(matches!(parser.parse_line("M24"), Some(GCommand::M24 { s: 0, .. })));
    match parser.parse_line("G4 P500 S2").unwrap() {
        GCommand::G4 { p: Some(p), s: Some(s) } => {
            assert_eq!(p.unit, xtrooder::units::DurationUnit::Millisecond);
            assert!((num(&p.value) - 500.0).abs() < 1e-12);
            assert_eq!(s.unit, xtrooder::units::DurationUnit::Second);
            assert!((num(&s.value) - 2.0).abs() < 1e-12);
        }
        _ => panic!("not a G4 with P and S"),
    }
    match parser.parse_line("G92 E0").unwrap() {
        GCommand::G92 { x: None, y: None, z: None, e: Some(e) } => assert!(num(&e.value).abs() < 1e-12),
        _ => panic!("not a G92"),
    }
    assert!(parser.parse_line("M149 K") == Some(GCommand::M149 { u: TemperatureUnit::Kelvin }));
    assert!(parser.parse_line("M149 Q").is_none());
    assert!(parser.parse_line("M149").is_none());
    assert!(parser.parse_line("G28 X Z") == Some(GCommand::G28 { x: true, y: false, z: true }));
    assert!(matches!(parser.parse_line("M207 F1800 S2 Z0.5"), Some(GCommand::M207 { .. })));
    assert!(parser.parse_line("M207 F1800 S2").is_none());
    assert!(matches!(parser.parse_line("M208 F1800 S0.1"), Some(GCommand::M208 { .. })));
    assert!(matches!(parser.parse_line("M220 S80"), Some(GCommand::M220 { .. })));
    assert!(parser.parse_line("M221").is_none());
    assert!(parser.parse_line("M524") == Some(GCommand::M524));
    assert!(parser.parse_line("M104").is_none());
    assert!(parser.parse_line("M106").is_none());
    assert!(matches!(parser.parse_line("M154 S5"), Some(GCommand::M154 { .. })));
    assert!(parser.parse_line("M155").is_none());
    assert!(matches!(parser.parse_line("M123"), Some(GCommand::M123 { s: None })));
}

#[test]
fn command_words() {
    let parser = GCodeParser::new();
    assert!(parser.parse_line("G").is_none());
    assert!(parser.parse_line("G01 x5") == parser.parse_line("G1 X5"));
    assert!(parser.parse_line("T0").is_none());
    assert!(parser.parse_line("G0  X1").is_none());
    assert!(parser.parse_line("G-1").is_none());
}

#[test]
fn surrounding_white_space_is_dropped() {
    let mut parser = GCodeParser::new();
    assert!(parser.parse("   G20 \t\n") == Some(GCommand::G20));
    assert!(parser.parse("(note) G21 ;tail\n") == Some(GCommand::G21));
    assert!(parser.parse("\n").is_none());
}

#[test]
fn durations_that_convert() {
    assert!(GCodeParser::line_readable("G4 S-1e-400"));
    assert!(GCodeParser::line_readable("G4 P-0"));
    assert!(GCodeParser::line_readable("G4 P-1e-322"));
    assert!(!GCodeParser::line_readable("G4 S-1"));
    assert!(!GCodeParser::line_readable("G4 S-1e-300"));
    assert!(GCodeParser::line_readable("G4 S18446744073709550591"));
    assert!(!GCodeParser::line_readable("G4 S18446744073709550592"));
    assert!(!GCodeParser::line_readable("M155 Sinf"));
    assert!(GCodeParser::line_readable("M154 S2.5"));
    for text in ["-1e-400", "-0", "0.5", "18446744073709550591"] {
        let v: f64 = text.parse().unwrap();
        assert!(std::time::Duration::try_from_secs_f64(v).is_ok());
    }
    for text in ["18446744073709550592", "-1e-300"] {
        let v: f64 = text.parse().unwrap();
        assert!(std::time::Duration::try_from_secs_f64(v).is_err());
    }
    let v: f64 = "-1e-322".parse().unwrap();
    assert!(std::time::Duration::try_from_secs_f64(v / 1000f64).is_ok());
    let parser = GCodeParser::new();
    match parser.parse_line("G4 S-1e-400").unwrap() {
        GCommand::G4 { p: None, s: Some(s) } => assert_eq!(num(&s.value), 0.0),
        _ => panic!("not a G4 with S"),
    }
}

#[test]
fn plain_chunk_reads_as_its_trimmed_line() {
    let mut parser = GCodeParser::new();
    for text in ["G1 X1 Y2", "  G1 X1 Y2  ", "M104 S200", "G28", "G4 P500", "X1", "   ", ""] {
        let expected = parser.parse_line(text.trim());
        assert_eq!(parser.parse(text), expected);
    }
    assert!(parser.parse("   ").is_none());
    assert!(parser.parse("").is_none());
}
