use xtrooder::number::Number;
use xtrooder::parser::{parse_line, GCommand};

fn num(n: &Number) -> f64 {
    match n {
        Number::Finite(d) => {
            let mut s = String::new();
            if d.negative {
                s.push('-');
            }
            for x in &d.integer {
                s.push((b'0' + x) as char);
            }
            s.push('.');
            for x in &d.fraction {
                s.push((b'0' + x) as char);
            }
            if !d.exponent.is_empty() {
                s.push('e');
                if d.exp_negative {
                    s.push('-');
                }
                for x in &d.exponent {
                    s.push((b'0' + x) as char);
                }
            }
            s.parse::<f64>().unwrap()
        }
        Number::Infinite { negative } => {
            if *negative {
                f64::NEG_INFINITY
            } else {
                f64::INFINITY
            }
        }
        Number::NotANumber => f64::NAN,
    }
}

fn val(n: &Option<Number>) -> Option<f64> {
    n.as_ref().map(num)
}

#[test]
fn parser_test_parse_line_g0_complete() {
    let line = "G0 X10.1 Y9.0 Z1.0 E2.0 F1200";
    let command = parse_line(line);
    assert!(command.is_some());
    match command.unwrap() {
        GCommand::G0 { x, y, z, f } => {
            assert_eq!(val(&x), Some(10.1));
            assert_eq!(val(&y), Some(9.0));
            assert_eq!(val(&z), Some(1.0));
            assert_eq!(val(&f), Some(1200_f64));
        }
        _ => panic!("not a G0"),
    }
}

#[test]
fn parser_test_parse_line_g0_incomplete() {
    let line = "G0 X10.1 F1200";
    let command = parse_line(line);
    assert!(command.is_some());
    match command.unwrap() {
        GCommand::G0 { x, y, z, f } => {
            assert_eq!(val(&x), Some(10.1));
            assert_eq!(val(&y), None);
            assert_eq!(val(&z), None);
            assert_eq!(val(&f), Some(1200_f64));
        }
        _ => panic!("not a G0"),
    }
}

#[test]
fn parser_test_parse_line_g0_invalid() {
    let line = "hello";
    let command = parse_line(line);
    assert!(command.is_none());
}

#[test]
fn parser_test_parse_line_g1_complete() {
    let line = "G1 X10.1 Y9.0 Z1.0 E2.0 F1200";
    let command = parse_line(line);
    assert!(command.is_some());
    match command.unwrap() {
        GCommand::G1 { x, y, z, e, f } => {
            assert_eq!(val(&x), Some(10.1));
            assert_eq!(val(&y), Some(9.0));
            assert_eq!(val(&z), Some(1.0));
            assert_eq!(val(&e), Some(2.0));
            assert_eq!(val(&f), Some(1200_f64));
        }
        _ => panic!("not a G1"),
    }
}

#[test]
fn parser_test_parse_line_g1_incomplete() {
    let line = "G1 X10.1 F1200";
    let command = parse_line(line);
    assert!(command.is_some());
    match command.unwrap() {
        GCommand::G1 { x, y, z, e, f } => {
            assert_eq!(val(&x), Some(10.1));
            assert_eq!(val(&y), None);
            assert_eq!(val(&z), None);
            assert_eq!(val(&e), None);
            assert_eq!(val(&f), Some(1200_f64));
        }
        _ => panic!("not a G1"),
    }
}

#[test]
fn parser_test_parse_line_g1_invalid() {
    let line = "G1 ciao lala";
    let command = parse_line(line);
    assert!(command.is_none());
}

// ---------------------------------------------------------------------------

#[test]
fn arcs_and_machine_commands() {
    match parse_line("G2 X1 Y2 I3 J4").unwrap() {
        GCommand::G2 { x, i, j, r, .. } => {
            assert_eq!(val(&x), Some(1.0));
            assert_eq!(val(&i), Some(3.0));
            assert_eq!(val(&j), Some(4.0));
            assert_eq!(val(&r), None);
        }
        _ => panic!("not a G2"),
    }
    assert!(matches!(parse_line("G3 R5 X1"), Some(GCommand::G3 { .. })));
    assert!(parse_line("G90") == Some(GCommand::G90));
    assert!(parse_line("G91") == Some(GCommand::G91));
    match parse_line("M104 S200").unwrap() {
        GCommand::M104 { s } => assert_eq!(val(&s), Some(200.0)),
        _ => panic!("not an M104"),
    }
}

#[test]
fn codes_are_truncated_like_casts() {
    assert!(parse_line("G20.9") == Some(GCommand::G20));
    assert!(parse_line("G-0.5") == Some(GCommand::G0 { x: None, y: None, z: None, f: None }));
    assert!(parse_line("M104.2") == Some(GCommand::M104 { s: None }));
}

#[test]
fn later_word_wins() {
    match parse_line("G0 X1 X2").unwrap() {
        GCommand::G0 { x, .. } => assert_eq!(val(&x), Some(2.0)),
        _ => panic!("not a G0"),
    }
}

#[test]
fn unreadable_lines() {
    assert!(parse_line("G0  X1").is_none());
    assert!(parse_line("").is_none());
    assert!(parse_line("g0").is_none());
    assert!(parse_line("X1").is_none());
    assert!(parse_line("G7").is_none());
}
