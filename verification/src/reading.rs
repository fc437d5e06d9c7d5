//! What reading a G-code line means, stated from the words of the line:
//! each argument of a command is the number written after its letter, and
//! the command is the one the head word names.
use vstd::prelude::*;
use crate::bounded::{key_index, map_insert, map_lookup};
use crate::gcode::{
    spec_duration_from_secs, temperature_unit_of, spec_g_command, spec_m_command, arg_number, arg_with, spec_args, spec_head, spec_parse_line, ArgModel, Entries, GCommandModel,
    GCommandType,
};
use crate::number::{
    all_digits, digit_values, is_digit, leading_digits, spec_fan_byte, spec_parse_number,
    DecimalModel, NumberModel,
};
use crate::units::DurationUnit;
use vstd::utf8::encode_utf8;
use crate::parser::{spec_code, spec_word_entries, value_of, CommandModel};
use crate::parser::spec_parse_line as plain_parse_line;
use crate::text::{is_white_space, leading_white, trailing_white, spec_trim, is_ascii_char, lemma_split_words_nonempty, spec_ascii_upper, spec_parse_u64, split_words};
use crate::units::{DistanceUnit, TemperatureUnit};

verus! {

/// The letter a word of a line stands for: its first character, in upper
/// case.
pub open spec fn letter(w: Seq<char>) -> char {
    spec_ascii_upper(w[0])
}

/// Argument words as a reader takes them: at most sixteen, each starting
/// with an ASCII character, no two with the same letter.
pub open spec fn plain_args(ws: Seq<Seq<char>>) -> bool {
    &&& ws.len() <= 16
    &&& forall|j: int| 0 <= j < ws.len() ==> #[trigger] ws[j].len() > 0 && is_ascii_char(ws[j][0])
    &&& forall|a: int, b: int|
        0 <= a < b < ws.len() ==> letter(#[trigger] ws[a]) != letter(#[trigger] ws[b])
}

/// Whether some word of `ws` has letter `k`.
pub open spec fn has_letter(ws: Seq<Seq<char>>, k: char) -> bool {
    exists|j: int| 0 <= j < ws.len() && letter(#[trigger] ws[j]) == k
}

/// The text written after letter `k` in the words `ws`, if a word has it.
pub open spec fn written_text(ws: Seq<Seq<char>>, k: char) -> Option<Seq<char>> {
    if has_letter(ws, k) {
        let j = choose|j: int| 0 <= j < ws.len() && letter(#[trigger] ws[j]) == k;
        Some(ws[j].skip(1))
    } else {
        None
    }
}

/// The number written after letter `k` in the words `ws`.
pub open spec fn written_number(ws: Seq<Seq<char>>, k: char) -> Option<NumberModel> {
    match written_text(ws, k) {
        Some(t) => spec_parse_number(t),
        None => None,
    }
}

/// The number written after letter `k`, in unit `u`.
pub open spec fn written_arg<U>(ws: Seq<Seq<char>>, k: char, u: U) -> Option<ArgModel<U>> {
    match written_number(ws, k) {
        Some(n) => Some(ArgModel { value: n, unit: u }),
        None => None,
    }
}

proof fn lemma_key_index(m: Entries, k: char)
    ensures
        key_index(m, k) >= 0 ==> key_index(m, k) < m.len() && m[key_index(m, k)].0 == k,
        key_index(m, k) < 0 ==> key_index(m, k) == -1 && forall|j: int|
            0 <= j < m.len() ==> #[trigger] m[j].0 != k,
    decreases m.len(),
{
    if m.len() > 0 {
        lemma_key_index(m.drop_first(), k);
        if m[0].0 != k {
            assert forall|j: int| 0 <= j < m.len() && key_index(m, k) < 0 implies #[trigger] m[j].0
                != k by {
                if j > 0 {
                    assert(m[j] == m.drop_first()[j - 1]);
                }
            }
        }
    }
}

proof fn lemma_key_index_push(m: Entries, x: (char, Option<Seq<char>>), k: char)
    ensures
        key_index(m.push(x), k) == if key_index(m, k) >= 0 {
            key_index(m, k)
        } else if x.0 == k {
            m.len() as int
        } else {
            -1
        },
    decreases m.len(),
{
    if m.len() == 0 {
        assert(m.push(x).drop_first() =~= Seq::<(char, Option<Seq<char>>)>::empty());
        assert(key_index(m.push(x).drop_first(), k) == -1);
        assert(m.push(x)[0] == x);
    } else {
        assert(m.push(x).drop_first() =~= m.drop_first().push(x));
        assert(m.push(x)[0] == m[0]);
        lemma_key_index_push(m.drop_first(), x, k);
        lemma_key_index(m.drop_first(), k);
        lemma_key_index(m.drop_first().push(x), k);
    }
}

/// The entries that plain argument words store hold, under each letter,
/// the text written after it, one entry a word.
proof fn lemma_plain_entries(ws: Seq<Seq<char>>)
    requires
        plain_args(ws),
    ensures
        spec_args(ws) is Some,
        spec_args(ws).unwrap().len() == ws.len(),
        forall|j: int| 0 <= j < ws.len() ==> (#[trigger] spec_args(ws).unwrap()[j]).0 == letter(ws[j]),
        forall|k: char|
            #[trigger] map_lookup(spec_args(ws).unwrap(), k) == match written_text(ws, k) {
                Some(t) => Some(Some(t)),
                None => None::<Option<Seq<char>>>,
            },
    decreases ws.len(),
{
    if ws.len() == 0 {
        assert forall|k: char| #[trigger] map_lookup(spec_args(ws).unwrap(), k) == match written_text(
            ws,
            k,
        ) {
            Some(t) => Some(Some(t)),
            None => None::<Option<Seq<char>>>,
        } by {
            assert(!has_letter(ws, k));
        }
    } else {
        let init = ws.drop_last();
        assert(plain_args(init)) by {
            assert forall|j: int| 0 <= j < init.len() implies #[trigger] init[j].len() > 0
                && is_ascii_char(init[j][0]) by {
                assert(init[j] == ws[j]);
            }
            assert forall|a: int, b: int| 0 <= a < b < init.len() implies letter(#[trigger] init[a])
                != letter(#[trigger] init[b]) by {
                assert(init[a] == ws[a] && init[b] == ws[b]);
            }
        }
        lemma_plain_entries(init);
        let m = spec_args(init).unwrap();
        let t = ws.last();
        let kt = letter(t);
        assert(t.len() > 0 && is_ascii_char(t[0]));
        assert(map_lookup(m, kt) is None) by {
            if has_letter(init, kt) {
                let j = choose|j: int| 0 <= j < init.len() && letter(#[trigger] init[j]) == kt;
                assert(init[j] == ws[j]);
                assert(letter(ws[j]) != letter(ws[ws.len() - 1]));
            }
        }
        lemma_key_index(m, kt);
        let x = (kt, Some(t.skip(1)));
        assert(spec_args(ws) == map_insert(m, kt, Some(t.skip(1))));
        assert(spec_args(ws) == Some(m.push(x)));
        assert forall|j: int| 0 <= j < ws.len() implies (#[trigger] spec_args(ws).unwrap()[j]).0
            == letter(ws[j]) by {
            if j < ws.len() - 1 {
                assert(m.push(x)[j] == m[j]);
                assert(init[j] == ws[j]);
            }
        }
        assert forall|k: char| #[trigger] map_lookup(spec_args(ws).unwrap(), k) == match written_text(
            ws,
            k,
        ) {
            Some(t) => Some(Some(t)),
            None => None::<Option<Seq<char>>>,
        } by {
            lemma_key_index_push(m, x, k);
            lemma_key_index(m, k);
            assert(map_lookup(m, k) == match written_text(init, k) {
                Some(t) => Some(Some(t)),
                None => None::<Option<Seq<char>>>,
            });
            if k == kt {
                assert(letter(ws[ws.len() - 1]) == k);
                assert(has_letter(ws, k));
                let j = choose|j: int| 0 <= j < ws.len() && letter(#[trigger] ws[j]) == k;
                if j != ws.len() - 1 {
                    assert(letter(ws[j]) != letter(ws[ws.len() - 1]));
                }
                assert(m.push(x)[m.len() as int] == x);
            } else {
                if has_letter(ws, k) {
                    let j = choose|j: int| 0 <= j < ws.len() && letter(#[trigger] ws[j]) == k;
                    assert(j < ws.len() - 1);
                    assert(init[j] == ws[j]);
                    assert(has_letter(init, k));
                    let i = choose|i: int| 0 <= i < init.len() && letter(#[trigger] init[i]) == k;
                    assert(init[i] == ws[i]);
                    if i != j {
                        if i < j {
                            assert(letter(ws[i]) != letter(ws[j]));
                        } else {
                            assert(letter(ws[j]) != letter(ws[i]));
                        }
                    }
                    let ki = key_index(m, k);
                    assert(m.push(x)[ki] == m[ki]);
                } else {
                    assert forall|j: int| 0 <= j < init.len() implies letter(#[trigger] init[j]) != k by {
                        assert(init[j] == ws[j]);
                    }
                    assert(!has_letter(init, k));
                }
            }
        }
    }
}

/// Over plain argument words, the number and argument under each letter are
/// those written after it.
proof fn lemma_plain_args<U>(ws: Seq<Seq<char>>, u: U)
    requires
        plain_args(ws),
    ensures
        spec_args(ws) is Some,
        forall|k: char| #[trigger] arg_number(spec_args(ws).unwrap(), k) == written_number(ws, k),
        forall|k: char| #[trigger] arg_with(spec_args(ws).unwrap(), k, u) == written_arg(ws, k, u),
{
    lemma_plain_entries(ws);
    let m = spec_args(ws).unwrap();
    assert forall|k: char| #[trigger] arg_number(m, k) == written_number(ws, k) by {
        assert(map_lookup(m, k) == match written_text(ws, k) {
            Some(t) => Some(Some(t)),
            None => None::<Option<Seq<char>>>,
        });
    }
    assert forall|k: char| #[trigger] arg_with(m, k, u) == written_arg(ws, k, u) by {
        assert(arg_number(m, k) == written_number(ws, k));
    }
}

/// The letter and number of the head word that names each command.
pub open spec fn model_code(c: GCommandModel) -> (GCommandType, u64) {
    match c {
        GCommandModel::G0 { .. } => (GCommandType::G, 0),
        GCommandModel::G1 { .. } => (GCommandType::G, 1),
        GCommandModel::G2 { .. } => (GCommandType::G, 2),
        GCommandModel::G3 { .. } => (GCommandType::G, 3),
        GCommandModel::G4 { .. } => (GCommandType::G, 4),
        GCommandModel::G10 => (GCommandType::G, 10),
        GCommandModel::G11 => (GCommandType::G, 11),
        GCommandModel::G20 => (GCommandType::G, 20),
        GCommandModel::G21 => (GCommandType::G, 21),
        GCommandModel::G28 { .. } => (GCommandType::G, 28),
        GCommandModel::G90 => (GCommandType::G, 90),
        GCommandModel::G91 => (GCommandType::G, 91),
        GCommandModel::G92 { .. } => (GCommandType::G, 92),
        GCommandModel::M20 => (GCommandType::M, 20),
        GCommandModel::M21 => (GCommandType::M, 21),
        GCommandModel::M22 => (GCommandType::M, 22),
        GCommandModel::M23 { .. } => (GCommandType::M, 23),
        GCommandModel::M24 { .. } => (GCommandType::M, 24),
        GCommandModel::M25 => (GCommandType::M, 25),
        GCommandModel::M27 => (GCommandType::M, 27),
        GCommandModel::M31 => (GCommandType::M, 31),
        GCommandModel::M82 => (GCommandType::M, 82),
        GCommandModel::M83 => (GCommandType::M, 83),
        GCommandModel::M104 { .. } => (GCommandType::M, 104),
        GCommandModel::M105 => (GCommandType::M, 105),
        GCommandModel::M106 { .. } => (GCommandType::M, 106),
        GCommandModel::M107 => (GCommandType::M, 107),
        GCommandModel::M109 { .. } => (GCommandType::M, 109),
        GCommandModel::M114 => (GCommandType::M, 114),
        GCommandModel::M123 { .. } => (GCommandType::M, 123),
        GCommandModel::M140 { .. } => (GCommandType::M, 140),
        GCommandModel::M149 { .. } => (GCommandType::M, 149),
        GCommandModel::M154 { .. } => (GCommandType::M, 154),
        GCommandModel::M155 { .. } => (GCommandType::M, 155),
        GCommandModel::M190 { .. } => (GCommandType::M, 190),
        GCommandModel::M192 { .. } => (GCommandType::M, 192),
        GCommandModel::M203 { .. } => (GCommandType::M, 203),
        GCommandModel::M207 { .. } => (GCommandType::M, 207),
        GCommandModel::M208 { .. } => (GCommandType::M, 208),
        GCommandModel::M220 { .. } => (GCommandType::M, 220),
        GCommandModel::M221 { .. } => (GCommandType::M, 221),
        GCommandModel::M524 => (GCommandType::M, 524),
    }
}

/// A line reads, when it reads at all, as the command its head word names:
/// the letter and number of the head word are those of the command.
pub proof fn law_command_is_named_by_head(line: Seq<char>, du: DistanceUnit, tu: TemperatureUnit)
    ensures
        spec_parse_line(line, du, tu) matches Some(c) ==> spec_head(split_words(line)[0]) == Some(
            model_code(c),
        ),
{
    let ws = split_words(line);
    match (spec_head(ws[0]), spec_args(ws.skip(1))) {
        (Some((GCommandType::G, code)), Some(m)) => lemma_g_named(code, m, du),
        (Some((GCommandType::M, code)), Some(m)) => lemma_m_named(code, m, du, tu),
        _ => {},
    }
}

#[verifier::rlimit(40)]
proof fn lemma_g_named(code: u64, m: Entries, du: DistanceUnit)
    ensures
        spec_g_command(code, m, du) matches Some(c) ==> model_code(c) == (GCommandType::G, code),
{
}

#[verifier::rlimit(60)]
proof fn lemma_m_named(code: u64, m: Entries, du: DistanceUnit, tu: TemperatureUnit)
    ensures
        spec_m_command(code, m, du, tu) matches Some(c) ==> model_code(c) == (GCommandType::M, code),
{
}

/// The arguments of a motion command (`G0` to `G3`) are the numbers written
/// after their letters, in the distance unit in force; a letter not
/// written gives no argument. Stated for argument words with distinct
/// letters.
pub proof fn law_move_arguments_as_written(line: Seq<char>, du: DistanceUnit, tu: TemperatureUnit)
    requires
        plain_args(split_words(line).skip(1)),
    ensures
        ({
            let a = split_words(line).skip(1);
            let h = spec_head(split_words(line)[0]);
            &&& h == Some((GCommandType::G, 0u64)) ==> spec_parse_line(line, du, tu) == Some(
                GCommandModel::G0 {
                    x: written_arg(a, 'X', du),
                    y: written_arg(a, 'Y', du),
                    z: written_arg(a, 'Z', du),
                    f: written_arg(a, 'F', du),
                },
            )
            &&& h == Some((GCommandType::G, 1u64)) ==> spec_parse_line(line, du, tu) == Some(
                GCommandModel::G1 {
                    x: written_arg(a, 'X', du),
                    y: written_arg(a, 'Y', du),
                    z: written_arg(a, 'Z', du),
                    e: written_arg(a, 'E', du),
                    f: written_arg(a, 'F', du),
                },
            )
            &&& h == Some((GCommandType::G, 2u64)) ==> spec_parse_line(line, du, tu) == Some(
                GCommandModel::G2 {
                    x: written_arg(a, 'X', du),
                    y: written_arg(a, 'Y', du),
                    z: written_arg(a, 'Z', du),
                    e: written_arg(a, 'E', du),
                    f: written_arg(a, 'F', du),
                    i: written_arg(a, 'I', du),
                    j: written_arg(a, 'J', du),
                    r: written_arg(a, 'R', du),
                },
            )
            &&& h == Some((GCommandType::G, 3u64)) ==> spec_parse_line(line, du, tu) == Some(
                GCommandModel::G3 {
                    x: written_arg(a, 'X', du),
                    y: written_arg(a, 'Y', du),
                    z: written_arg(a, 'Z', du),
                    e: written_arg(a, 'E', du),
                    f: written_arg(a, 'F', du),
                    i: written_arg(a, 'I', du),
                    j: written_arg(a, 'J', du),
                    r: written_arg(a, 'R', du),
                },
            )
        }),
{
    lemma_plain_args(split_words(line).skip(1), du);
}

/// A temperature command (`M104`, `M109`, `M140`, `M190`) sets the
/// temperature written after `S`, in the temperature unit in force, and
/// reads as nothing without one. Stated for argument words with distinct
/// letters.
pub proof fn law_temperature_as_written(line: Seq<char>, du: DistanceUnit, tu: TemperatureUnit)
    requires
        plain_args(split_words(line).skip(1)),
    ensures
        ({
            let a = split_words(line).skip(1);
            let h = spec_head(split_words(line)[0]);
            let s = written_arg(a, 'S', tu);
            &&& (s is None && (h == Some((GCommandType::M, 104u64)) || h == Some(
                (GCommandType::M, 109u64),
            ) || h == Some((GCommandType::M, 140u64)) || h == Some((GCommandType::M, 190u64))))
                ==> spec_parse_line(line, du, tu) is None
            &&& s matches Some(v) ==> {
                &&& h == Some((GCommandType::M, 104u64)) ==> spec_parse_line(line, du, tu) == Some(
                    GCommandModel::M104 { s: v },
                )
                &&& h == Some((GCommandType::M, 109u64)) ==> spec_parse_line(line, du, tu) == Some(
                    GCommandModel::M109 { s: v },
                )
                &&& h == Some((GCommandType::M, 140u64)) ==> spec_parse_line(line, du, tu) == Some(
                    GCommandModel::M140 { s: v },
                )
                &&& h == Some((GCommandType::M, 190u64)) ==> spec_parse_line(line, du, tu) == Some(
                    GCommandModel::M190 { s: v },
                )
            }
        }),
{
    lemma_plain_args(split_words(line).skip(1), tu);
}

/// Words as the plain reader takes them: at most sixteen, each an ASCII
/// character followed by a number, no two with the same first character.
pub open spec fn plain_words(ws: Seq<Seq<char>>) -> bool {
    &&& ws.len() <= 16
    &&& forall|j: int|
        0 <= j < ws.len() ==> #[trigger] ws[j].len() > 0 && is_ascii_char(ws[j][0])
            && spec_parse_number(ws[j].skip(1)) is Some
    &&& forall|a: int, b: int| 0 <= a < b < ws.len() ==> (#[trigger] ws[a])[0] != (#[trigger] ws[b])[0]
}

/// Whether some word of `ws` starts with `k`.
pub open spec fn has_initial(ws: Seq<Seq<char>>, k: char) -> bool {
    exists|j: int| 0 <= j < ws.len() && (#[trigger] ws[j])[0] == k
}

/// The text written after `k` in the words `ws`.
pub open spec fn written_tail(ws: Seq<Seq<char>>, k: char) -> Option<Seq<char>> {
    if has_initial(ws, k) {
        let j = choose|j: int| 0 <= j < ws.len() && (#[trigger] ws[j])[0] == k;
        Some(ws[j].skip(1))
    } else {
        None
    }
}

/// The number written after `k` in the words `ws`.
pub open spec fn written_value(ws: Seq<Seq<char>>, k: char) -> Option<NumberModel> {
    match written_tail(ws, k) {
        Some(t) => spec_parse_number(t),
        None => None,
    }
}

proof fn lemma_plain_words(ws: Seq<Seq<char>>)
    requires
        plain_words(ws),
    ensures
        spec_word_entries(ws) is Some,
        spec_word_entries(ws).unwrap().len() == ws.len(),
        forall|k: char|
            #[trigger] map_lookup(spec_word_entries(ws).unwrap(), k) == match written_tail(ws, k) {
                Some(t) => Some(Some(t)),
                None => None::<Option<Seq<char>>>,
            },
        forall|k: char| #[trigger] value_of(spec_word_entries(ws).unwrap(), k) == written_value(ws, k),
{
    lemma_plain_words_lookup(ws);
    let m = spec_word_entries(ws).unwrap();
    assert forall|k: char| #[trigger] value_of(m, k) == written_value(ws, k) by {
        assert(map_lookup(m, k) == match written_tail(ws, k) {
            Some(t) => Some(Some(t)),
            None => None::<Option<Seq<char>>>,
        });
    }
}

proof fn lemma_plain_words_lookup(ws: Seq<Seq<char>>)
    requires
        plain_words(ws),
    ensures
        spec_word_entries(ws) is Some,
        spec_word_entries(ws).unwrap().len() == ws.len(),
        forall|k: char|
            #[trigger] map_lookup(spec_word_entries(ws).unwrap(), k) == match written_tail(ws, k) {
                Some(t) => Some(Some(t)),
                None => None::<Option<Seq<char>>>,
            },
    decreases ws.len(),
{
    if ws.len() == 0 {
        assert forall|k: char| #[trigger] map_lookup(spec_word_entries(ws).unwrap(), k)
            == match written_tail(ws, k) {
            Some(t) => Some(Some(t)),
            None => None::<Option<Seq<char>>>,
        } by {
            assert(!has_initial(ws, k));
        }
    } else {
        let init = ws.drop_last();
        assert(plain_words(init)) by {
            assert forall|j: int| 0 <= j < init.len() implies #[trigger] init[j].len() > 0
                && is_ascii_char(init[j][0]) && spec_parse_number(init[j].skip(1)) is Some by {
                assert(init[j] == ws[j]);
            }
            assert forall|a: int, b: int| 0 <= a < b < init.len() implies (#[trigger] init[a])[0]
                != (#[trigger] init[b])[0] by {
                assert(init[a] == ws[a] && init[b] == ws[b]);
            }
        }
        lemma_plain_words_lookup(init);
        let m = spec_word_entries(init).unwrap();
        let t = ws.last();
        let kt = t[0];
        assert(t.len() > 0 && is_ascii_char(t[0]) && spec_parse_number(t.skip(1)) is Some);
        lemma_key_index(m, kt);
        assert(map_lookup(m, kt) is None) by {
            if has_initial(init, kt) {
                let j = choose|j: int| 0 <= j < init.len() && (#[trigger] init[j])[0] == kt;
                assert(init[j] == ws[j]);
                assert(ws[j][0] != ws[ws.len() - 1][0]);
            }
        }
        let x = (kt, Some(t.skip(1)));
        assert(spec_word_entries(ws) == map_insert(m, kt, Some(t.skip(1))));
        assert(spec_word_entries(ws) == Some(m.push(x)));
        assert forall|k: char| #[trigger] map_lookup(spec_word_entries(ws).unwrap(), k)
            == match written_tail(ws, k) {
            Some(t) => Some(Some(t)),
            None => None::<Option<Seq<char>>>,
        } by {
            lemma_key_index_push(m, x, k);
            lemma_key_index(m, k);
            assert(map_lookup(m, k) == match written_tail(init, k) {
                Some(t) => Some(Some(t)),
                None => None::<Option<Seq<char>>>,
            });
            if k == kt {
                assert(ws[ws.len() - 1][0] == k);
                assert(has_initial(ws, k));
                let j = choose|j: int| 0 <= j < ws.len() && (#[trigger] ws[j])[0] == k;
                if j != ws.len() - 1 {
                    assert(ws[j][0] != ws[ws.len() - 1][0]);
                }
                assert(m.push(x)[m.len() as int] == x);
            } else if has_initial(ws, k) {
                let j = choose|j: int| 0 <= j < ws.len() && (#[trigger] ws[j])[0] == k;
                assert(j < ws.len() - 1);
                assert(init[j] == ws[j]);
                assert(has_initial(init, k));
                let i = choose|i: int| 0 <= i < init.len() && (#[trigger] init[i])[0] == k;
                assert(init[i] == ws[i]);
                if i != j {
                    if i < j {
                        assert(ws[i][0] != ws[j][0]);
                    } else {
                        assert(ws[j][0] != ws[i][0]);
                    }
                }
                if key_index(m, k) >= 0 {
                    let ki = key_index(m, k);
                    assert(m.push(x)[ki] == m[ki]);
                }
            } else {
                assert forall|j: int| 0 <= j < init.len() implies (#[trigger] init[j])[0] != k by {
                    assert(init[j] == ws[j]);
                }
                assert(!has_initial(init, k));
            }
        }
    }
}

/// The plain reader picks the command by the number written after `G`,
/// else after `M`, and fills it with the numbers written after the letters
/// of its arguments: `G0`, `G1`, `G2`, `G3` moves, `G20` and `G21` units,
/// `G90` and `G91` positioning, `M104` hot-end temperature; any other code
/// reads as nothing. Stated for words with distinct first characters.
pub proof fn law_plain_command_as_written(line: Seq<char>)
    requires
        plain_words(split_words(line)),
    ensures
        ({
            let ws = split_words(line);
            let v = |k: char| written_value(ws, k);
            match written_value(ws, 'G') {
                Some(g) => {
                    let code = spec_code(g);
                    plain_parse_line(line) == if code == 0 {
                        Some(CommandModel::G0 { x: v('X'), y: v('Y'), z: v('Z'), f: v('F') })
                    } else if code == 1 {
                        Some(CommandModel::G1 { x: v('X'), y: v('Y'), z: v('Z'), e: v('E'), f: v('F') })
                    } else if code == 2 {
                        Some(
                            CommandModel::G2 {
                                x: v('X'),
                                y: v('Y'),
                                z: v('Z'),
                                e: v('E'),
                                f: v('F'),
                                i: v('I'),
                                j: v('J'),
                                r: v('R'),
                            },
                        )
                    } else if code == 3 {
                        Some(
                            CommandModel::G3 {
                                x: v('X'),
                                y: v('Y'),
                                z: v('Z'),
                                e: v('E'),
                                f: v('F'),
                                i: v('I'),
                                j: v('J'),
                                r: v('R'),
                            },
                        )
                    } else if code == 20 {
                        Some(CommandModel::G20)
                    } else if code == 21 {
                        Some(CommandModel::G21)
                    } else if code == 90 {
                        Some(CommandModel::G90)
                    } else if code == 91 {
                        Some(CommandModel::G91)
                    } else {
                        None
                    }
                },
                None => plain_parse_line(line) == match written_value(ws, 'M') {
                    Some(mc) => if spec_code(mc) == 104 {
                        Some(CommandModel::M104 { s: v('S') })
                    } else {
                        None
                    },
                    None => None,
                },
            }
        }),
{
    lemma_plain_words(split_words(line));
}

/// The commands that take no argument read as themselves whatever
/// arguments follow, and `G28` homes the axes whose letters are written,
/// or all three when none is. Stated for argument words with distinct
/// letters.
pub proof fn law_simple_commands(line: Seq<char>, du: DistanceUnit, tu: TemperatureUnit)
    requires
        plain_args(split_words(line).skip(1)),
    ensures
        ({
            let a = split_words(line).skip(1);
            let h = spec_head(split_words(line)[0]);
            let r = spec_parse_line(line, du, tu);
            &&& h == Some((GCommandType::G, 10u64)) ==> r == Some(GCommandModel::G10)
            &&& h == Some((GCommandType::G, 11u64)) ==> r == Some(GCommandModel::G11)
            &&& h == Some((GCommandType::G, 20u64)) ==> r == Some(GCommandModel::G20)
            &&& h == Some((GCommandType::G, 21u64)) ==> r == Some(GCommandModel::G21)
            &&& h == Some((GCommandType::G, 90u64)) ==> r == Some(GCommandModel::G90)
            &&& h == Some((GCommandType::G, 91u64)) ==> r == Some(GCommandModel::G91)
            &&& h == Some((GCommandType::G, 28u64)) ==> r == Some(
                if a.len() == 0 {
                    GCommandModel::G28 { x: true, y: true, z: true }
                } else {
                    GCommandModel::G28 {
                        x: has_letter(a, 'X'),
                        y: has_letter(a, 'Y'),
                        z: has_letter(a, 'Z'),
                    }
                },
            )
            &&& h == Some((GCommandType::M, 20u64)) ==> r == Some(GCommandModel::M20)
            &&& h == Some((GCommandType::M, 21u64)) ==> r == Some(GCommandModel::M21)
            &&& h == Some((GCommandType::M, 22u64)) ==> r == Some(GCommandModel::M22)
            &&& h == Some((GCommandType::M, 25u64)) ==> r == Some(GCommandModel::M25)
            &&& h == Some((GCommandType::M, 31u64)) ==> r == Some(GCommandModel::M31)
            &&& h == Some((GCommandType::M, 82u64)) ==> r == Some(GCommandModel::M82)
            &&& h == Some((GCommandType::M, 83u64)) ==> r == Some(GCommandModel::M83)
            &&& h == Some((GCommandType::M, 105u64)) ==> r == Some(GCommandModel::M105)
            &&& h == Some((GCommandType::M, 107u64)) ==> r == Some(GCommandModel::M107)
            &&& h == Some((GCommandType::M, 114u64)) ==> r == Some(GCommandModel::M114)
            &&& h == Some((GCommandType::M, 524u64)) ==> r == Some(GCommandModel::M524)
            &&& h == Some((GCommandType::M, 24u64)) ==> r == Some(
                GCommandModel::M24 { s: 0, t: spec_duration_from_secs(0) },
            )
        }),
{
    let a = split_words(line).skip(1);
    lemma_plain_args(a, du);
    lemma_plain_entries(a);
    let m = spec_args(a).unwrap();
    assert forall|k: char| (#[trigger] key_index(m, k) >= 0) == has_letter(a, k) by {
        lemma_key_index(m, k);
        assert(map_lookup(m, k) == match written_text(a, k) {
            Some(t) => Some(Some(t)),
            None => None::<Option<Seq<char>>>,
        });
    }
}

/// The commands with arguments read them as written: `G4` pauses for `P`
/// milliseconds or `S` seconds, `G92` sets the positions written, `M23`
/// selects the file named after `F` (at most twelve bytes), `M106` sets the
/// fan to the byte written after `S`, `M123`, `M154` and `M155` take `S`
/// seconds, `M149` the unit that the first argument's letter names,
/// `M207` and `M208` their `F`, `S` (and `Z`) distances, `M220` and `M221`
/// the number after `S`; a required argument missing makes the line read
/// as nothing. Stated for argument words with distinct letters.
pub proof fn law_argument_commands(line: Seq<char>, du: DistanceUnit, tu: TemperatureUnit)
    requires
        plain_args(split_words(line).skip(1)),
    ensures
        ({
            let a = split_words(line).skip(1);
            let h = spec_head(split_words(line)[0]);
            let r = spec_parse_line(line, du, tu);
            let secs = written_arg(a, 'S', DurationUnit::Second);
            &&& h == Some((GCommandType::G, 4u64)) ==> r == Some(
                GCommandModel::G4 { p: written_arg(a, 'P', DurationUnit::Millisecond), s: secs },
            )
            &&& h == Some((GCommandType::G, 92u64)) ==> r == Some(
                GCommandModel::G92 {
                    x: written_arg(a, 'X', du),
                    y: written_arg(a, 'Y', du),
                    z: written_arg(a, 'Z', du),
                    e: written_arg(a, 'E', du),
                },
            )
            &&& h == Some((GCommandType::M, 23u64)) ==> r == match written_text(a, 'F') {
                Some(t) => if encode_utf8(t).len() <= 12 {
                    Some(GCommandModel::M23 { filename: t })
                } else {
                    None
                },
                None => None,
            }
            &&& h == Some((GCommandType::M, 106u64)) ==> r == match written_number(a, 'S') {
                Some(n) => match spec_fan_byte(n) {
                    Some(b) => Some(GCommandModel::M106 { s: b }),
                    None => None,
                },
                None => None,
            }
            &&& h == Some((GCommandType::M, 123u64)) ==> r == Some(GCommandModel::M123 { s: secs })
            &&& h == Some((GCommandType::M, 154u64)) ==> r == match secs {
                Some(v) => Some(GCommandModel::M154 { s: v }),
                None => None,
            }
            &&& h == Some((GCommandType::M, 155u64)) ==> r == match secs {
                Some(v) => Some(GCommandModel::M155 { s: v }),
                None => None,
            }
            &&& h == Some((GCommandType::M, 149u64)) ==> r == if a.len() > 0 {
                match temperature_unit_of(letter(a[0])) {
                    Some(u) => Some(GCommandModel::M149 { u }),
                    None => None,
                }
            } else {
                None
            }
            &&& h == Some((GCommandType::M, 207u64)) ==> r == match (
                written_arg(a, 'F', du),
                written_arg(a, 'S', du),
                written_arg(a, 'Z', du),
            ) {
                (Some(f), Some(s), Some(z)) => Some(GCommandModel::M207 { f, s, z }),
                _ => None,
            }
            &&& h == Some((GCommandType::M, 208u64)) ==> r == match (
                written_arg(a, 'F', du),
                written_arg(a, 'S', du),
            ) {
                (Some(f), Some(s)) => Some(GCommandModel::M208 { f, s }),
                _ => None,
            }
            &&& h == Some((GCommandType::M, 220u64)) ==> r == match written_number(a, 'S') {
                Some(n) => Some(GCommandModel::M220 { s: n }),
                None => None,
            }
            &&& h == Some((GCommandType::M, 221u64)) ==> r == match written_number(a, 'S') {
                Some(n) => Some(GCommandModel::M221 { s: n }),
                None => None,
            }
        }),
{
    let a = split_words(line).skip(1);
    lemma_plain_args(a, du);
    lemma_plain_args(a, DurationUnit::Second);
    lemma_plain_args(a, DurationUnit::Millisecond);
    lemma_plain_entries(a);
}

/// Words joined back with a space between each two.
pub open spec fn join_words(ws: Seq<Seq<char>>) -> Seq<char>
    decreases ws.len(),
{
    if ws.len() == 0 {
        Seq::empty()
    } else if ws.len() == 1 {
        ws[0]
    } else {
        join_words(ws.drop_last()) + seq![' '] + ws.last()
    }
}

/// Splitting a line into words loses nothing and keeps no space: joining
/// the words with single spaces gives the line back, and no word holds a
/// space.
pub proof fn law_split_words_rejoin(s: Seq<char>)
    ensures
        join_words(split_words(s)) == s,
        forall|i: int, j: int|
            0 <= i < split_words(s).len() && 0 <= j < split_words(s)[i].len() ==> #[trigger] split_words(
                s,
            )[i][j] != ' ',
    decreases s.len(),
{
    if s.len() == 0 {
        assert(split_words(s) =~= seq![Seq::<char>::empty()]);
    } else {
        let init = s.drop_last();
        law_split_words_rejoin(init);
        lemma_split_words_nonempty(init);
        let w = split_words(init);
        let c = s.last();
        if c == ' ' {
            let ws = w.push(Seq::<char>::empty());
            assert(ws.drop_last() =~= w);
            assert(join_words(ws) == join_words(w) + seq![' '] + Seq::<char>::empty());
            assert(s =~= init + seq![' '] + Seq::<char>::empty());
            assert forall|i: int, j: int| 0 <= i < ws.len() && 0 <= j < ws[i].len() implies #[trigger] ws[i][j] != ' ' by {
                assert(ws[i] == w[i]);
            }
        } else {
            let n = w.len() - 1;
            let ws = w.update(n, w.last().push(c));
            if w.len() == 1 {
                assert(join_words(w) == w[0]);
                assert(join_words(ws) == ws[0]);
                assert(ws[0] =~= init.push(c));
                assert(s =~= init.push(c));
            } else {
                assert(ws.drop_last() =~= w.drop_last());
                assert(join_words(w) == join_words(w.drop_last()) + seq![' '] + w.last());
                assert(join_words(ws) == join_words(w.drop_last()) + seq![' '] + w.last().push(c));
                assert(join_words(ws) =~= join_words(w).push(c));
                assert(s =~= init.push(c));
            }
            assert forall|i: int, j: int| 0 <= i < ws.len() && 0 <= j < ws[i].len() implies #[trigger] ws[i][j] != ' ' by {
                if i == n {
                    if j < w[n].len() {
                        assert(ws[i][j] == w[n][j]);
                    }
                } else {
                    assert(ws[i] == w[i]);
                }
            }
        }
    }
}

/// The head word names a command by its letter, `G` or `M` in either case,
/// and the whole number written after it; any other word names none.
pub proof fn law_head_word(w: Seq<char>)
    ensures
        spec_head(w) matches Some((t, n)) ==> {
            &&& w.len() >= 2
            &&& spec_parse_u64(w.skip(1)) == Some(n)
            &&& t == GCommandType::G ==> spec_ascii_upper(w[0]) == 'G'
            &&& t == GCommandType::M ==> spec_ascii_upper(w[0]) == 'M'
            &&& t != GCommandType::D
        },
        w.len() >= 2 && spec_parse_u64(w.skip(1)) is Some && (spec_ascii_upper(w[0]) == 'G'
            || spec_ascii_upper(w[0]) == 'M') && is_ascii_char(w[0]) ==> spec_head(w) == Some(
            (
                if spec_ascii_upper(w[0]) == 'G' {
                    GCommandType::G
                } else {
                    GCommandType::M
                },
                spec_parse_u64(w.skip(1)).unwrap(),
            ),
        ),
{
}

proof fn lemma_leading_white(s: Seq<char>)
    ensures
        leading_white(s) <= s.len(),
        forall|j: int| 0 <= j < leading_white(s) ==> is_white_space(#[trigger] s[j]),
        leading_white(s) < s.len() ==> !is_white_space(s[leading_white(s) as int]),
    decreases s.len(),
{
    if s.len() > 0 && is_white_space(s[0]) {
        lemma_leading_white(s.drop_first());
        assert forall|j: int| 0 <= j < leading_white(s) implies is_white_space(#[trigger] s[j]) by {
            if j > 0 {
                assert(s[j] == s.drop_first()[j - 1]);
            }
        }
        if leading_white(s) < s.len() {
            assert(s[leading_white(s) as int] == s.drop_first()[leading_white(s.drop_first()) as int]);
        }
    }
}

proof fn lemma_trailing_white(s: Seq<char>)
    ensures
        trailing_white(s) <= s.len(),
        forall|j: int| s.len() - trailing_white(s) <= j < s.len() ==> is_white_space(#[trigger] s[j]),
        trailing_white(s) < s.len() ==> !is_white_space(s[s.len() - 1 - trailing_white(s)]),
    decreases s.len(),
{
    if s.len() > 0 && is_white_space(s.last()) {
        lemma_trailing_white(s.drop_last());
        assert forall|j: int| s.len() - trailing_white(s) <= j < s.len() implies is_white_space(
            #[trigger] s[j],
        ) by {
            if j < s.len() - 1 {
                assert(s[j] == s.drop_last()[j]);
            }
        }
        if trailing_white(s) < s.len() {
            assert(s[s.len() - 1 - trailing_white(s)] == s.drop_last()[s.drop_last().len() - 1
                - trailing_white(s.drop_last())]);
        }
    }
}

/// Trimming removes white space from both ends and nothing else: the result
/// is the part of the text from `a` to `b`, everything before `a` and from
/// `b` on is white space, and the result neither starts nor ends with it.
pub proof fn law_trim(s: Seq<char>)
    ensures
        exists|a: int, b: int|
            #![trigger s.subrange(a, b)]
            0 <= a <= b <= s.len() && spec_trim(s) == s.subrange(a, b) && (forall|j: int|
                0 <= j < a ==> is_white_space(#[trigger] s[j])) && (forall|j: int|
                b <= j < s.len() ==> is_white_space(#[trigger] s[j])),
        spec_trim(s).len() > 0 ==> !is_white_space(spec_trim(s)[0]) && !is_white_space(
            spec_trim(s).last(),
        ),
{
    lemma_leading_white(s);
    lemma_trailing_white(s);
    let a = leading_white(s) as int;
    if a >= s.len() {
        assert(spec_trim(s) =~= s.subrange(s.len() as int, s.len() as int));
        assert(s.subrange(s.len() as int, s.len() as int) == spec_trim(s));
    } else {
        let b = s.len() - trailing_white(s);
        assert(a < b) by {
            if b <= a {
                assert(is_white_space(s[a]));
            }
        }
        assert(s.subrange(a, b) == spec_trim(s));
    }
}

proof fn lemma_leading_digits_of(a: Seq<char>, rest: Seq<char>)
    requires
        all_digits(a),
        rest.len() == 0 || !is_digit(rest[0]),
    ensures
        leading_digits(a + rest) == a.len(),
    decreases a.len(),
{
    if a.len() == 0 {
        assert(a + rest =~= rest);
    } else {
        assert((a + rest).drop_first() =~= a.drop_first() + rest);
        assert((a + rest)[0] == a[0]);
        lemma_leading_digits_of(a.drop_first(), rest);
    }
}

/// A decimal number written as an optional `-`, the digits `a`, and
/// optionally a `.` and the digits of `b` (at least one digit in all).
pub open spec fn decimal_text(negative: bool, a: Seq<char>, b: Option<Seq<char>>) -> Seq<char> {
    (if negative {
        seq!['-']
    } else {
        Seq::<char>::empty()
    }) + a + match b {
        Some(f) => seq!['.'] + f,
        None => Seq::<char>::empty(),
    }
}

/// A decimal number reads as written: its sign, the values of the digits
/// before the point, those after it, and no exponent.
pub proof fn law_decimal_as_written(negative: bool, a: Seq<char>, b: Option<Seq<char>>)
    requires
        all_digits(a),
        b matches Some(f) ==> all_digits(f),
        a.len() > 0 || (b matches Some(f) && f.len() > 0),
    ensures
        spec_parse_number(decimal_text(negative, a, b)) == Some(
            NumberModel::Finite(
                DecimalModel {
                    negative,
                    integer: digit_values(a),
                    fraction: match b {
                        Some(f) => digit_values(f),
                        None => Seq::<u8>::empty(),
                    },
                    exp_negative: false,
                    exponent: Seq::<u8>::empty(),
                },
            ),
        ),
{
    let t = decimal_text(negative, a, b);
    let sign = if negative {
        seq!['-']
    } else {
        Seq::<char>::empty()
    };
    let tail = match b {
        Some(f) => seq!['.'] + f,
        None => Seq::<char>::empty(),
    };
    assert(t =~= sign + (a + tail));
    let r = a + tail;
    assert(t.skip(sign.len() as int) =~= r);
    if negative {
        assert(t[0] == '-');
    } else if a.len() > 0 {
        assert(t[0] == a[0]);
    } else {
        assert(t[0] == '.');
    }
    lemma_leading_digits_of(a, tail);
    assert(r.skip(a.len() as int) =~= tail);
    assert(r.take(a.len() as int) =~= a);
    assert(r.len() > 0);
    if a.len() > 0 {
        assert(r[0] == a[0]);
    } else {
        assert(r[0] == '.');
    }
    match b {
        Some(f) => {
            assert(tail.skip(1) =~= f);
            assert(tail[0] == '.');
            lemma_leading_digits_of(f, Seq::<char>::empty());
            assert(f + Seq::<char>::empty() =~= f);
            assert(leading_digits(f) == f.len());
            assert(f.skip(f.len() as int) =~= Seq::<char>::empty());
            assert(f.take(f.len() as int) =~= f);
            assert(r.skip(a.len() as int).skip(1) =~= f);
            assert(crate::number::spec_parse_finite(r, negative) == Some(
                DecimalModel {
                    negative,
                    integer: digit_values(a),
                    fraction: digit_values(f),
                    exp_negative: false,
                    exponent: Seq::<u8>::empty(),
                },
            ));
            assert(r[0] != 'i' && r[0] != 'I' && r[0] != 'n' && r[0] != 'N');
            assert(!crate::number::is_infinity_word(r));
            assert(!crate::number::is_nan_word(r));
            assert(crate::number::sign_len(t) == sign.len());
            assert(t.skip(crate::number::sign_len(t) as int) =~= r);
            assert(crate::number::starts_with_minus(t) == negative);
            assert(spec_parse_number(t) == Some(NumberModel::Finite(
                DecimalModel {
                    negative,
                    integer: digit_values(a),
                    fraction: digit_values(f),
                    exp_negative: false,
                    exponent: Seq::<u8>::empty(),
                },
            )));
        },
        None => {
            assert(digit_values(Seq::<char>::empty()) =~= Seq::<u8>::empty());
            assert(r =~= a);
            assert(r.skip(a.len() as int).len() == 0);
            assert(r[0] != 'i' && r[0] != 'I' && r[0] != 'n' && r[0] != 'N');
            assert(!crate::number::is_infinity_word(r));
            assert(!crate::number::is_nan_word(r));
            assert(crate::number::sign_len(t) == sign.len());
            assert(t.skip(crate::number::sign_len(t) as int) =~= r);
            assert(crate::number::starts_with_minus(t) == negative);
            assert(leading_digits(r) == a.len());
            assert(r.take(a.len() as int) =~= a);
            assert(r.skip(a.len() as int).take(0) =~= Seq::<char>::empty());
            assert(spec_parse_number(t) == Some(NumberModel::Finite(
                DecimalModel {
                    negative,
                    integer: digit_values(a),
                    fraction: Seq::<u8>::empty(),
                    exp_negative: false,
                    exponent: Seq::<u8>::empty(),
                },
            )));
        },
    }
}

} // verus!
