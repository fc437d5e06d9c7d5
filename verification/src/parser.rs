//! A plain G-code line reader: every word is a letter and a number, and
//! the numbers are kept as written.
use vstd::prelude::*;
use crate::bounded::{
    arg_entries, arg_map_get, arg_map_insert, arg_map_new, key_index, map_insert, map_lookup, word_items,
    word_vec_get, word_vec_len, ArgMap, WordVec,
};
use crate::gcode::{split_line, view_opt, Entries};
use crate::number::{
    chars_of, decimal_digits_ok, floor_magnitude_saturating, magnitude_floor, min_nat,
    parse_number, spec_parse_number, Number, NumberModel,
};
use crate::text::{is_ascii_char, lemma_split_words_nonempty, split_words};

verus! {

/// A command of the plain reader, with its numbers as written.
#[derive(PartialEq, Debug)]
pub enum GCommand {
    G0 { x: Option<Number>, y: Option<Number>, z: Option<Number>, f: Option<Number> },
    G1 {
        x: Option<Number>,
        y: Option<Number>,
        z: Option<Number>,
        e: Option<Number>,
        f: Option<Number>,
    },
    G2 {
        x: Option<Number>,
        y: Option<Number>,
        z: Option<Number>,
        e: Option<Number>,
        f: Option<Number>,
        i: Option<Number>,
        j: Option<Number>,
        r: Option<Number>,
    },
    G3 {
        x: Option<Number>,
        y: Option<Number>,
        z: Option<Number>,
        e: Option<Number>,
        f: Option<Number>,
        i: Option<Number>,
        j: Option<Number>,
        r: Option<Number>,
    },
    G20,
    G21,
    G90,
    G91,
    M104 { s: Option<Number> },
}

type Num = Option<NumberModel>;

/// What a command of the plain reader means.
pub enum CommandModel {
    G0 { x: Num, y: Num, z: Num, f: Num },
    G1 { x: Num, y: Num, z: Num, e: Num, f: Num },
    G2 { x: Num, y: Num, z: Num, e: Num, f: Num, i: Num, j: Num, r: Num },
    G3 { x: Num, y: Num, z: Num, e: Num, f: Num, i: Num, j: Num, r: Num },
    G20,
    G21,
    G90,
    G91,
    M104 { s: Num },
}

impl View for GCommand {
    type V = CommandModel;

    open spec fn view(&self) -> CommandModel {
        match self {
            GCommand::G0 { x, y, z, f } => CommandModel::G0 {
                x: view_opt(*x),
                y: view_opt(*y),
                z: view_opt(*z),
                f: view_opt(*f),
            },
            GCommand::G1 { x, y, z, e, f } => CommandModel::G1 {
                x: view_opt(*x),
                y: view_opt(*y),
                z: view_opt(*z),
                e: view_opt(*e),
                f: view_opt(*f),
            },
            GCommand::G2 { x, y, z, e, f, i, j, r } => CommandModel::G2 {
                x: view_opt(*x),
                y: view_opt(*y),
                z: view_opt(*z),
                e: view_opt(*e),
                f: view_opt(*f),
                i: view_opt(*i),
                j: view_opt(*j),
                r: view_opt(*r),
            },
            GCommand::G3 { x, y, z, e, f, i, j, r } => CommandModel::G3 {
                x: view_opt(*x),
                y: view_opt(*y),
                z: view_opt(*z),
                e: view_opt(*e),
                f: view_opt(*f),
                i: view_opt(*i),
                j: view_opt(*j),
                r: view_opt(*r),
            },
            GCommand::G20 => CommandModel::G20,
            GCommand::G21 => CommandModel::G21,
            GCommand::G90 => CommandModel::G90,
            GCommand::G91 => CommandModel::G91,
            GCommand::M104 { s } => CommandModel::M104 { s: view_opt(*s) },
        }
    }
}

/// The entries that the words `ws` store: each word stores its text after
/// the first character under that character, a later word replacing an
/// earlier one with the same letter. A word that is empty, starts with a
/// non-ASCII character or is not followed by a number makes the line
/// unreadable.
pub open spec fn spec_word_entries(ws: Seq<Seq<char>>) -> Option<Entries>
    decreases ws.len(),
{
    if ws.len() == 0 {
        Some(Seq::empty())
    } else {
        match spec_word_entries(ws.drop_last()) {
            Some(m) => {
                let t = ws.last();
                if t.len() > 0 && is_ascii_char(t[0]) && spec_parse_number(t.skip(1)) is Some {
                    map_insert(m, t[0], Some(t.skip(1)))
                } else {
                    None
                }
            },
            None => None,
        }
    }
}

/// The number stored under `k`.
pub open spec fn value_of(m: Entries, k: char) -> Num {
    match map_lookup(m, k) {
        Some(Some(t)) => spec_parse_number(t),
        _ => None,
    }
}

/// A number converted to a whole code as `f64 as u64` converts it: toward
/// zero, with negative numbers and NaN giving 0 and large ones `u64::MAX`.
pub open spec fn spec_code(n: NumberModel) -> u64 {
    match n {
        NumberModel::Finite(d) => if d.negative {
            0
        } else {
            min_nat(magnitude_floor(d), u64::MAX as nat) as u64
        },
        NumberModel::Infinite { negative } => if negative {
            0
        } else {
            u64::MAX
        },
        NumberModel::NotANumber => 0,
    }
}

/// The command that the entries `m` make: the `G` code picks a motion
/// command, else the `M` code picks a machine command.
pub open spec fn spec_command(m: Entries) -> Option<CommandModel> {
    match value_of(m, 'G') {
        Some(g) => {
            let code = spec_code(g);
            if code == 0 {
                Some(
                    CommandModel::G0 {
                        x: value_of(m, 'X'),
                        y: value_of(m, 'Y'),
                        z: value_of(m, 'Z'),
                        f: value_of(m, 'F'),
                    },
                )
            } else if code == 1 {
                Some(
                    CommandModel::G1 {
                        x: value_of(m, 'X'),
                        y: value_of(m, 'Y'),
                        z: value_of(m, 'Z'),
                        e: value_of(m, 'E'),
                        f: value_of(m, 'F'),
                    },
                )
            } else if code == 2 {
                Some(
                    CommandModel::G2 {
                        x: value_of(m, 'X'),
                        y: value_of(m, 'Y'),
                        z: value_of(m, 'Z'),
                        e: value_of(m, 'E'),
                        f: value_of(m, 'F'),
                        i: value_of(m, 'I'),
                        j: value_of(m, 'J'),
                        r: value_of(m, 'R'),
                    },
                )
            } else if code == 3 {
                Some(
                    CommandModel::G3 {
                        x: value_of(m, 'X'),
                        y: value_of(m, 'Y'),
                        z: value_of(m, 'Z'),
                        e: value_of(m, 'E'),
                        f: value_of(m, 'F'),
                        i: value_of(m, 'I'),
                        j: value_of(m, 'J'),
                        r: value_of(m, 'R'),
                    },
                )
            } else if code == 20 {
                Some(CommandModel::G20)
            } else if code == 21 {
                Some(CommandModel::G21)
            } else if code == 90 {
                Some(CommandModel::G90)
            } else if code == 91 {
                Some(CommandModel::G91)
            } else {
                None
            }
        },
        None => match value_of(m, 'M') {
            Some(mc) => if spec_code(mc) == 104 {
                Some(CommandModel::M104 { s: value_of(m, 'S') })
            } else {
                None
            },
            None => None,
        },
    }
}

/// What the plain reader makes of a line: the words are split at each
/// space, and a line that cannot be read gives nothing.
pub open spec fn spec_parse_line(line: Seq<char>) -> Option<CommandModel> {
    match spec_word_entries(split_words(line)) {
        Some(m) => spec_command(m),
        None => None,
    }
}

pub open spec fn view_cmd(r: Option<GCommand>) -> Option<CommandModel> {
    match r {
        Some(c) => Some(c@),
        None => None,
    }
}

proof fn lemma_entries_none_extends(ws: Seq<Seq<char>>, i: int)
    requires
        0 <= i <= ws.len(),
        spec_word_entries(ws.take(i)) is None,
    ensures
        spec_word_entries(ws) is None,
    decreases ws.len() - i,
{
    if i < ws.len() {
        assert(ws.take(i + 1).drop_last() =~= ws.take(i));
        lemma_entries_none_extends(ws, i + 1);
    } else {
        assert(ws.take(i) =~= ws);
    }
}

proof fn lemma_key_index_bound(m: Entries, k: char)
    ensures
        key_index(m, k) < m.len(),
    decreases m.len(),
{
    if m.len() > 0 {
        lemma_key_index_bound(m.drop_first(), k);
    }
}

proof fn lemma_entries_len(ws: Seq<Seq<char>>)
    requires
        spec_word_entries(ws) is Some,
    ensures
        spec_word_entries(ws).unwrap().len() <= ws.len(),
    decreases ws.len(),
{
    if ws.len() > 0 {
        lemma_entries_len(ws.drop_last());
        let m = spec_word_entries(ws.drop_last()).unwrap();
        lemma_key_index_bound(m, ws.last()[0]);
    }
}

/// The entries of the words of a line.
fn read_words<'a>(words: &WordVec<'a>) -> (r: Option<ArgMap<'a>>)
    requires
        word_items(*words).len() <= 16,
    ensures
        match r {
            Some(m) => spec_word_entries(word_items(*words)) == Some(arg_entries(m)),
            None => spec_word_entries(word_items(*words)) is None,
        },
{
    let ghost ws = word_items(*words);
    let mut m = arg_map_new();
    let n = word_vec_len(words);
    let mut i: usize = 0;
    assert(ws.take(0) =~= Seq::<Seq<char>>::empty());
    while i < n
        invariant
            i <= n,
            n == ws.len(),
            n <= 16,
            ws == word_items(*words),
            spec_word_entries(ws.take(i as int)) == Some(arg_entries(m)),
        decreases n - i,
    {
        let t = word_vec_get(words, i);
        assert(ws.take(i + 1).drop_last() =~= ws.take(i as int));
        assert(ws.take(i + 1).last() == t@);
        let cs = chars_of(t);
        if cs.len() == 0 || (cs[0] as u32) >= 128 {
            proof {
                lemma_entries_none_extends(ws, i + 1);
            }
            return None;
        }
        let v = t.substring_char(1, cs.len());
        assert(v@ =~= t@.skip(1));
        if parse_number(v).is_none() {
            proof {
                lemma_entries_none_extends(ws, i + 1);
            }
            return None;
        }
        proof {
            lemma_entries_len(ws.take(i as int));
        }
        let ok = arg_map_insert(&mut m, cs[0], Some(v));
        assert(ok);
        i = i + 1;
    }
    assert(ws.take(n as int) =~= ws);
    Some(m)
}

fn value(m: &ArgMap, k: char) -> (r: Option<Number>)
    ensures
        view_opt(r) == value_of(arg_entries(*m), k),
        r matches Some(Number::Finite(d)) ==> decimal_digits_ok(d@),
{
    match arg_map_get(m, k) {
        Some(Some(t)) => parse_number(t),
        _ => None,
    }
}

fn code_of(n: &Number) -> (c: u64)
    requires
        n matches Number::Finite(d) ==> decimal_digits_ok(d@),
    ensures
        c == spec_code(n@),
{
    match n {
        Number::Finite(d) => {
            if d.negative {
                0
            } else {
                floor_magnitude_saturating(d, 0xFFFF_FFFF_FFFF_FFFF) as u64
            }
        },
        Number::Infinite { negative } => {
            if *negative {
                0
            } else {
                u64::MAX
            }
        },
        Number::NotANumber => 0,
    }
}

fn command(m: &ArgMap) -> (r: Option<GCommand>)
    ensures
        view_cmd(r) == spec_command(arg_entries(*m)),
{
    match value(m, 'G') {
        Some(g) => {
            let code = code_of(&g);
            if code == 0 {
                Some(GCommand::G0 { x: value(m, 'X'), y: value(m, 'Y'), z: value(m, 'Z'), f: value(m, 'F') })
            } else if code == 1 {
                Some(
                    GCommand::G1 {
                        x: value(m, 'X'),
                        y: value(m, 'Y'),
                        z: value(m, 'Z'),
                        e: value(m, 'E'),
                        f: value(m, 'F'),
                    },
                )
            } else if code == 2 || code == 3 {
                let x = value(m, 'X');
                let y = value(m, 'Y');
                let z = value(m, 'Z');
                let e = value(m, 'E');
                let f = value(m, 'F');
                let i = value(m, 'I');
                let j = value(m, 'J');
                let r = value(m, 'R');
                if code == 2 {
                    Some(GCommand::G2 { x, y, z, e, f, i, j, r })
                } else {
                    Some(GCommand::G3 { x, y, z, e, f, i, j, r })
                }
            } else if code == 20 {
                Some(GCommand::G20)
            } else if code == 21 {
                Some(GCommand::G21)
            } else if code == 90 {
                Some(GCommand::G90)
            } else if code == 91 {
                Some(GCommand::G91)
            } else {
                None
            }
        },
        None => match value(m, 'M') {
            Some(mc) => {
                if code_of(&mc) == 104 {
                    Some(GCommand::M104 { s: value(m, 'S') })
                } else {
                    None
                }
            },
            None => None,
        },
    }
}

/// Reads one line of G-code. The line holds at most sixteen words
/// (fifteen spaces).
pub fn parse_line(line: &str) -> (r: Option<GCommand>)
    requires
        split_words(line@).len() <= 16,
    ensures
        view_cmd(r) == spec_parse_line(line@),
{
    let words = split_line(line);
    proof {
        lemma_split_words_nonempty(line@);
    }
    match read_words(&words) {
        Some(m) => command(&m),
        None => None,
    }
}

} // verus!
