use vstd::prelude::*;
use vstd::string::*;

verus! {

// ---------------------------------------------------------------------------
// Characters
// ---------------------------------------------------------------------------

pub open spec fn is_digit(c: char) -> bool {
    '0' <= c && c <= '9'
}

pub open spec fn digit_value(c: char) -> u8 {
    ((c as u32) - ('0' as u32)) as u8
}

pub open spec fn digit_values(s: Seq<char>) -> Seq<u8> {
    s.map_values(|c: char| digit_value(c))
}

pub open spec fn all_digits(s: Seq<char>) -> bool {
    forall|i: int| 0 <= i < s.len() ==> is_digit(#[trigger] s[i])
}

/// Number of decimal digits at the start of `s`.
pub open spec fn leading_digits(s: Seq<char>) -> nat
    decreases s.len(),
{
    if s.len() > 0 && is_digit(s[0]) {
        1 + leading_digits(s.drop_first())
    } else {
        0
    }
}

/// Length of an optional leading `+` or `-`.
pub open spec fn sign_len(s: Seq<char>) -> nat {
    if s.len() > 0 && (s[0] == '+' || s[0] == '-') {
        1
    } else {
        0
    }
}

pub open spec fn starts_with_minus(s: Seq<char>) -> bool {
    s.len() > 0 && s[0] == '-'
}

/// `s` spells the word whose lower-case letters are `lower` and upper-case
/// letters are `upper`, in any mix of cases.
pub open spec fn word_ci(s: Seq<char>, lower: Seq<char>, upper: Seq<char>) -> bool {
    &&& s.len() == lower.len()
    &&& lower.len() == upper.len()
    &&& forall|i: int| 0 <= i < s.len() ==> (#[trigger] s[i] == lower[i] || s[i] == upper[i])
}

pub open spec fn is_infinity_word(s: Seq<char>) -> bool {
    ||| word_ci(s, seq!['i', 'n', 'f'], seq!['I', 'N', 'F'])
    ||| word_ci(
        s,
        seq!['i', 'n', 'f', 'i', 'n', 'i', 't', 'y'],
        seq!['I', 'N', 'F', 'I', 'N', 'I', 'T', 'Y'],
    )
}

pub open spec fn is_nan_word(s: Seq<char>) -> bool {
    word_ci(s, seq!['n', 'a', 'n'], seq!['N', 'A', 'N'])
}

// ---------------------------------------------------------------------------
// Numbers
// ---------------------------------------------------------------------------

/// A finite decimal number as written: sign, integer digits, fraction
/// digits and a decimal exponent. Digits are stored as values `0..=9`.
#[derive(Clone, PartialEq, Eq, Debug)]
pub struct Decimal {
    pub negative: bool,
    pub integer: Vec<u8>,
    pub fraction: Vec<u8>,
    pub exp_negative: bool,
    pub exponent: Vec<u8>,
}

/// A number read from G-code text, in the syntax of Rust's `f64` literals.
#[derive(Clone, PartialEq, Eq, Debug)]
pub enum Number {
    Finite(Decimal),
    Infinite { negative: bool },
    NotANumber,
}

pub struct DecimalModel {
    pub negative: bool,
    pub integer: Seq<u8>,
    pub fraction: Seq<u8>,
    pub exp_negative: bool,
    pub exponent: Seq<u8>,
}

pub enum NumberModel {
    Finite(DecimalModel),
    Infinite { negative: bool },
    NotANumber,
}

impl View for Decimal {
    type V = DecimalModel;

    open spec fn view(&self) -> DecimalModel {
        DecimalModel {
            negative: self.negative,
            integer: self.integer@,
            fraction: self.fraction@,
            exp_negative: self.exp_negative,
            exponent: self.exponent@,
        }
    }
}

impl View for Number {
    type V = NumberModel;

    open spec fn view(&self) -> NumberModel {
        match self {
            Number::Finite(d) => NumberModel::Finite(d@),
            Number::Infinite { negative } => NumberModel::Infinite { negative: *negative },
            Number::NotANumber => NumberModel::NotANumber,
        }
    }
}

/// The exponent part `[eE][+-]?digits` at the start of `tail`, as sign and
/// digit values, when `tail` is exactly such a part.
pub open spec fn spec_parse_exponent(tail: Seq<char>) -> Option<(bool, Seq<u8>)> {
    if tail.len() > 0 && (tail[0] == 'e' || tail[0] == 'E') {
        let e = tail.skip(1);
        let ed = e.skip(sign_len(e) as int);
        if ed.len() > 0 && all_digits(ed) {
            Some((starts_with_minus(e), digit_values(ed)))
        } else {
            None
        }
    } else {
        None
    }
}

/// A finite number without its sign: digits with an optional `.` (at least
/// one digit in all), then an optional exponent.
pub open spec fn spec_parse_finite(r: Seq<char>, negative: bool) -> Option<DecimalModel> {
    let a = leading_digits(r);
    let rest = r.skip(a as int);
    let has_dot = rest.len() > 0 && rest[0] == '.';
    let after_dot = if has_dot {
        rest.skip(1)
    } else {
        rest
    };
    let b = if has_dot {
        leading_digits(after_dot)
    } else {
        0
    };
    let tail = after_dot.skip(b as int);
    let integer = digit_values(r.take(a as int));
    let fraction = digit_values(after_dot.take(b as int));
    if a + b == 0 {
        None
    } else if tail.len() == 0 {
        Some(DecimalModel { negative, integer, fraction, exp_negative: false, exponent: Seq::empty() })
    } else {
        match spec_parse_exponent(tail) {
            Some((exp_negative, exponent)) => Some(
                DecimalModel { negative, integer, fraction, exp_negative, exponent },
            ),
            None => None,
        }
    }
}

/// The number that the text `t` spells, following the grammar of Rust's
/// `f64` parser: an optional sign, then `inf`, `infinity` or `nan` in any
/// case, or digits with an optional `.` (at least one digit in all)
/// followed by an optional exponent `e`/`E`, optional sign and digits.
pub open spec fn spec_parse_number(t: Seq<char>) -> Option<NumberModel> {
    let negative = starts_with_minus(t);
    let r = t.skip(sign_len(t) as int);
    if is_infinity_word(r) {
        Some(NumberModel::Infinite { negative })
    } else if is_nan_word(r) {
        Some(NumberModel::NotANumber)
    } else {
        match spec_parse_finite(r, negative) {
            Some(d) => Some(NumberModel::Finite(d)),
            None => None,
        }
    }
}

// ---------------------------------------------------------------------------
// Executable parsing
// ---------------------------------------------------------------------------

/// The characters of `s`, in order.
pub fn chars_of(s: &str) -> (v: Vec<char>)
    ensures
        v@ == s@,
{
    let n = s.unicode_len();
    let mut v: Vec<char> = Vec::new();
    let mut i: usize = 0;
    while i < n
        invariant
            i <= n,
            n == s@.len(),
            v@ == s@.take(i as int),
        decreases n - i,
    {
        let c = s.get_char(i);
        v.push(c);
        i = i + 1;
        assert(v@ =~= s@.take(i as int));
    }
    assert(v@ =~= s@);
    v
}

pub fn is_digit_char(c: char) -> (b: bool)
    ensures
        b == is_digit(c),
{
    '0' <= c && c <= '9'
}

proof fn lemma_skip_drop_first(s: Seq<char>, i: int)
    requires
        0 <= i < s.len(),
    ensures
        s.skip(i).drop_first() =~= s.skip(i + 1),
        s.skip(i)[0] == s[i],
{
}

proof fn lemma_leading_digits_bound(s: Seq<char>)
    ensures
        leading_digits(s) <= s.len(),
        all_digits(s.take(leading_digits(s) as int)),
        leading_digits(s) < s.len() ==> !is_digit(s[leading_digits(s) as int]),
    decreases s.len(),
{
    if s.len() > 0 && is_digit(s[0]) {
        lemma_leading_digits_bound(s.drop_first());
        let k: int = leading_digits(s.drop_first()) as int;
        assert forall|i: int| 0 <= i < k + 1 implies is_digit(#[trigger] s.take(k + 1)[i]) by {
            if i > 0 {
                assert(s.take(k + 1)[i] == s.drop_first().take(k)[i - 1]);
            }
        }
    }
}

proof fn lemma_all_digits_leading(s: Seq<char>)
    requires
        all_digits(s),
    ensures
        leading_digits(s) == s.len(),
    decreases s.len(),
{
    if s.len() > 0 {
        assert(all_digits(s.drop_first())) by {
            assert forall|i: int| 0 <= i < s.len() - 1 implies is_digit(
                #[trigger] s.drop_first()[i],
            ) by {
                assert(s.drop_first()[i] == s[i + 1]);
            }
        }
        lemma_all_digits_leading(s.drop_first());
    }
}

/// Number of digits in `cs` from position `start` on.
fn leading_digits_from(cs: &Vec<char>, start: usize) -> (n: usize)
    requires
        start <= cs.len(),
    ensures
        start + n <= cs.len(),
        n == leading_digits(cs@.skip(start as int)),
{
    let mut i = start;
    while i < cs.len() && is_digit_char(cs[i])
        invariant
            start <= i <= cs.len(),
            leading_digits(cs@.skip(start as int)) == (i - start) + leading_digits(
                cs@.skip(i as int),
            ),
        decreases cs.len() - i,
    {
        proof {
            lemma_skip_drop_first(cs@, i as int);
        }
        i = i + 1;
    }
    proof {
        if i < cs.len() {
            lemma_skip_drop_first(cs@, i as int);
        }
    }
    i - start
}

/// The digit values of `cs[from..to]`, which are all digits.
fn digit_values_between(cs: &Vec<char>, from: usize, to: usize) -> (v: Vec<u8>)
    requires
        from <= to <= cs.len(),
        all_digits(cs@.subrange(from as int, to as int)),
    ensures
        v@ == digit_values(cs@.subrange(from as int, to as int)),
        forall|i: int| 0 <= i < v.len() ==> #[trigger] v@[i] < 10,
{
    let mut v: Vec<u8> = Vec::new();
    let mut i = from;
    while i < to
        invariant
            from <= i <= to <= cs.len(),
            all_digits(cs@.subrange(from as int, to as int)),
            v@ == digit_values(cs@.subrange(from as int, i as int)),
            forall|k: int| 0 <= k < v.len() ==> #[trigger] v@[k] < 10,
        decreases to - i,
    {
        let c = cs[i];
        assert(is_digit(cs@.subrange(from as int, to as int)[i - from]));
        let d = ((c as u32) - 48) as u8;
        v.push(d);
        i = i + 1;
        assert(v@ =~= digit_values(cs@.subrange(from as int, i as int)));
    }
    v
}

/// Whether `cs[start..]` spells a word in either case.
fn word_at(cs: &Vec<char>, start: usize, lower: &[char], upper: &[char]) -> (b: bool)
    requires
        start <= cs.len(),
        lower@.len() == upper@.len(),
    ensures
        b == word_ci(cs@.skip(start as int), lower@, upper@),
{
    if cs.len() - start != lower.len() {
        return false;
    }
    let mut i: usize = 0;
    while i < lower.len()
        invariant
            i <= lower@.len(),
            lower@.len() == upper@.len(),
            cs.len() - start == lower@.len(),
            start <= cs.len(),
            forall|k: int|
                0 <= k < i ==> (#[trigger] cs@.skip(start as int)[k] == lower@[k] || cs@.skip(
                    start as int,
                )[k] == upper@[k]),
        decreases lower.len() - i,
    {
        let c = cs[start + i];
        if c != lower[i] && c != upper[i] {
            assert(cs@.skip(start as int)[i as int] == c);
            return false;
        }
        i = i + 1;
    }
    true
}

/// Reads the exponent part `[eE][+-]?digits` that makes up all of `cs[e..]`.
fn parse_exponent(cs: &Vec<char>, e: usize) -> (r: Option<(bool, Vec<u8>)>)
    requires
        e < cs.len(),
    ensures
        match r {
            Some((neg, digits)) => spec_parse_exponent(cs@.skip(e as int)) == Some((neg, digits@)),
            None => spec_parse_exponent(cs@.skip(e as int)) is None,
        },
        r matches Some((_, digits)) ==> forall|i: int|
            0 <= i < digits.len() ==> #[trigger] digits@[i] < 10,
{
    let n = cs.len();
    let ghost tail = cs@.skip(e as int);
    assert(tail[0] == cs@[e as int]);
    if cs[e] != 'e' && cs[e] != 'E' {
        return None;
    }
    let e0 = e + 1;
    let ghost ex = cs@.skip(e0 as int);
    assert(tail.skip(1) =~= ex);
    let exp_negative = e0 < n && cs[e0] == '-';
    let e1: usize = if e0 < n && (cs[e0] == '+' || cs[e0] == '-') {
        e0 + 1
    } else {
        e0
    };
    assert(ex.skip(sign_len(ex) as int) =~= cs@.skip(e1 as int));
    if e1 < n && leading_digits_from(cs, e1) == n - e1 {
        proof {
            lemma_leading_digits_bound(cs@.skip(e1 as int));
            assert(cs@.skip(e1 as int).take((n - e1) as int) =~= cs@.skip(e1 as int));
            assert(cs@.skip(e1 as int) =~= cs@.subrange(e1 as int, n as int));
        }
        let exponent = digit_values_between(cs, e1, n);
        Some((exp_negative, exponent))
    } else {
        proof {
            if e1 < n && all_digits(cs@.skip(e1 as int)) {
                lemma_all_digits_leading(cs@.skip(e1 as int));
            }
        }
        None
    }
}

/// Reads the unsigned part of a finite number that makes up all of `cs[p..]`.
fn parse_finite(cs: &Vec<char>, p: usize, negative: bool) -> (r: Option<Decimal>)
    requires
        p <= cs.len(),
    ensures
        match r {
            Some(d) => spec_parse_finite(cs@.skip(p as int), negative) == Some(d@),
            None => spec_parse_finite(cs@.skip(p as int), negative) is None,
        },
        r matches Some(d) ==> {
            &&& forall|i: int| 0 <= i < d.integer.len() ==> #[trigger] d.integer@[i] < 10
            &&& forall|i: int| 0 <= i < d.fraction.len() ==> #[trigger] d.fraction@[i] < 10
            &&& forall|i: int| 0 <= i < d.exponent.len() ==> #[trigger] d.exponent@[i] < 10
        },
{
    let ghost t = cs@;
    let ghost r = t.skip(p as int);
    let n = cs.len();
    let a = leading_digits_from(cs, p);
    let int_end = p + a;
    assert(r.skip(a as int) =~= t.skip(int_end as int));
    let has_dot = int_end < n && cs[int_end] == '.';
    let frac_start: usize = if has_dot {
        int_end + 1
    } else {
        int_end
    };
    proof {
        if has_dot {
            assert(t.skip(int_end as int).skip(1) =~= t.skip(frac_start as int));
        }
    }
    let b = if has_dot {
        leading_digits_from(cs, frac_start)
    } else {
        0
    };
    let frac_end = frac_start + b;
    proof {
        lemma_leading_digits_bound(r);
        lemma_leading_digits_bound(t.skip(frac_start as int));
        assert(t.skip(frac_start as int).skip(b as int) =~= t.skip(frac_end as int));
        assert(r.take(a as int) =~= t.subrange(p as int, int_end as int));
        assert(t.skip(frac_start as int).take(b as int) =~= t.subrange(
            frac_start as int,
            frac_end as int,
        ));
    }
    if a + b == 0 {
        return None;
    }
    let integer = digit_values_between(cs, p, int_end);
    let fraction = digit_values_between(cs, frac_start, frac_end);
    if frac_end == n {
        return Some(
            Decimal { negative, integer, fraction, exp_negative: false, exponent: Vec::new() },
        );
    }
    match parse_exponent(cs, frac_end) {
        Some((exp_negative, exponent)) => Some(
            Decimal { negative, integer, fraction, exp_negative, exponent },
        ),
        None => None,
    }
}

/// Reads a number written in the syntax of Rust's `f64` literals.
pub fn parse_number(s: &str) -> (r: Option<Number>)
    ensures
        match r {
            Some(n) => spec_parse_number(s@) == Some(n@),
            None => spec_parse_number(s@) is None,
        },
        r matches Some(Number::Finite(d)) ==> {
            &&& forall|i: int| 0 <= i < d.integer.len() ==> #[trigger] d.integer@[i] < 10
            &&& forall|i: int| 0 <= i < d.fraction.len() ==> #[trigger] d.fraction@[i] < 10
            &&& forall|i: int| 0 <= i < d.exponent.len() ==> #[trigger] d.exponent@[i] < 10
        },
{
    let cs = chars_of(s);
    let n = cs.len();
    let negative = n > 0 && cs[0] == '-';
    let p: usize = if n > 0 && (cs[0] == '+' || cs[0] == '-') {
        1
    } else {
        0
    };
    assert(p == sign_len(s@));
    let lo3 = ['i', 'n', 'f'];
    let up3 = ['I', 'N', 'F'];
    let lo8 = ['i', 'n', 'f', 'i', 'n', 'i', 't', 'y'];
    let up8 = ['I', 'N', 'F', 'I', 'N', 'I', 'T', 'Y'];
    let lon = ['n', 'a', 'n'];
    let upn = ['N', 'A', 'N'];
    assert(lo3@ =~= seq!['i', 'n', 'f']);
    assert(up3@ =~= seq!['I', 'N', 'F']);
    assert(lo8@ =~= seq!['i', 'n', 'f', 'i', 'n', 'i', 't', 'y']);
    assert(up8@ =~= seq!['I', 'N', 'F', 'I', 'N', 'I', 'T', 'Y']);
    assert(lon@ =~= seq!['n', 'a', 'n']);
    assert(upn@ =~= seq!['N', 'A', 'N']);
    if word_at(&cs, p, &lo3, &up3) || word_at(&cs, p, &lo8, &up8) {
        return Some(Number::Infinite { negative });
    }
    if word_at(&cs, p, &lon, &upn) {
        return Some(Number::NotANumber);
    }
    match parse_finite(&cs, p, negative) {
        Some(d) => Some(Number::Finite(d)),
        None => None,
    }
}

// ---------------------------------------------------------------------------
// Values
// ---------------------------------------------------------------------------

/// The natural number that a sequence of decimal digit values spells.
pub open spec fn digits_value(s: Seq<u8>) -> nat
    decreases s.len(),
{
    if s.len() == 0 {
        0
    } else {
        digits_value(s.drop_last()) * 10 + s.last() as nat
    }
}

pub open spec fn pow10(n: nat) -> nat
    decreases n,
{
    if n == 0 {
        1
    } else {
        10 * pow10((n - 1) as nat)
    }
}

/// The significand of `d`: its integer and fraction digits read as one
/// natural number.
pub open spec fn significand(d: DecimalModel) -> nat {
    digits_value(d.integer + d.fraction)
}

/// The power of ten that scales the significand of `d` to its magnitude.
pub open spec fn scale(d: DecimalModel) -> int {
    let x = digits_value(d.exponent) as int;
    (if d.exp_negative {
        -x
    } else {
        x
    }) - d.fraction.len()
}

/// The magnitude of `d` rounded down to a natural number.
pub open spec fn magnitude_floor(d: DecimalModel) -> nat {
    let m = significand(d);
    let e = scale(d);
    if e >= 0 {
        m * pow10(e as nat)
    } else {
        m / pow10((-e) as nat)
    }
}

/// Whether the magnitude of `d` is a whole number.
pub open spec fn is_whole(d: DecimalModel) -> bool {
    scale(d) >= 0 || significand(d) % pow10((-scale(d)) as nat) == 0
}

/// The value of `n` as a fan speed byte, when `0 <= n <= 255`; a fraction
/// is cut off. A negative number so small that `f64` reads it as `-0.0`
/// (below `10^-324`) counts as 0.
pub open spec fn spec_fan_byte(n: NumberModel) -> Option<u8> {
    match n {
        NumberModel::Finite(d) => if significand(d) == 0 || (d.negative && below_tenth_power(
            d,
            324,
        )) {
            Some(0u8)
        } else if !d.negative && (magnitude_floor(d) < 255 || (magnitude_floor(d) == 255
            && is_whole(d))) {
            Some(magnitude_floor(d) as u8)
        } else {
            None
        },
        _ => None,
    }
}

pub open spec fn digits_ok(s: Seq<u8>) -> bool {
    forall|i: int| 0 <= i < s.len() ==> #[trigger] s[i] < 10
}

proof fn lemma_pow10_positive(n: nat)
    ensures
        pow10(n) >= 1,
    decreases n,
{
    if n > 0 {
        lemma_pow10_positive((n - 1) as nat);
    }
}

proof fn lemma_pow10_mono(a: nat, b: nat)
    requires
        a <= b,
    ensures
        pow10(a) <= pow10(b),
    decreases b,
{
    if b > a {
        lemma_pow10_mono(a, (b - 1) as nat);
        lemma_pow10_positive((b - 1) as nat);
    }
}

proof fn lemma_digits_value_bound(s: Seq<u8>)
    requires
        digits_ok(s),
    ensures
        digits_value(s) < pow10(s.len()),
    decreases s.len(),
{
    if s.len() > 0 {
        let t = s.drop_last();
        assert(digits_ok(t)) by {
            assert forall|i: int| 0 <= i < t.len() implies #[trigger] t[i] < 10 by {
                assert(t[i] == s[i]);
            }
        }
        lemma_digits_value_bound(t);
        assert(s.last() < 10) by {
            assert(s[s.len() - 1] < 10);
        }
        let v = digits_value(t);
        let p = pow10(t.len());
        assert(v + 1 <= p);
        assert(v * 10 + s.last() < p * 10) by (nonlinear_arith)
            requires
                v + 1 <= p,
                s.last() < 10,
        ;
    }
}

/// Splitting the digits after `j` places splits the value accordingly.
proof fn lemma_digits_value_split(s: Seq<u8>, j: int)
    requires
        0 <= j <= s.len(),
    ensures
        digits_value(s) == digits_value(s.take(j)) * pow10((s.len() - j) as nat) + digits_value(
            s.skip(j),
        ),
    decreases s.len(),
{
    if j == s.len() {
        assert(s.take(j) =~= s);
        assert(s.skip(j) =~= Seq::<u8>::empty());
        assert(pow10(0) == 1);
        assert(digits_value(s.skip(j)) == 0);
        assert(digits_value(s.take(j)) == digits_value(s));
        assert((s.len() - j) as nat == 0);
        assert(pow10((s.len() - j) as nat) == 1);
        assert(digits_value(s.take(j)) * pow10((s.len() - j) as nat) == digits_value(s));
    } else {
        let t = s.drop_last();
        lemma_digits_value_split(t, j);
        assert(t.take(j) =~= s.take(j));
        assert(s.skip(j).drop_last() =~= t.skip(j));
        assert(s.skip(j).last() == s.last());
        let a = digits_value(s.take(j));
        let k = (t.len() - j) as nat;
        let b = digits_value(t.skip(j));
        let c = s.last() as nat;
        assert(pow10(k + 1) == 10 * pow10(k));
        assert(digits_value(t) == a * pow10(k) + b);
        assert(digits_value(s) == digits_value(t) * 10 + c);
        assert(digits_value(s.skip(j)) == b * 10 + c);
        assert((a * pow10(k) + b) * 10 + c == a * (10 * pow10(k)) + (b * 10 + c))
            by (nonlinear_arith);
        assert((s.len() - j) as nat == k + 1);
        assert(pow10((s.len() - j) as nat) == 10 * pow10(k));
    }
}

proof fn lemma_digits_ok_concat(a: Seq<u8>, b: Seq<u8>)
    requires
        digits_ok(a),
        digits_ok(b),
    ensures
        digits_ok(a + b),
{
    assert forall|i: int| 0 <= i < (a + b).len() implies #[trigger] (a + b)[i] < 10 by {
        if i < a.len() {
            assert((a + b)[i] == a[i]);
        } else {
            assert((a + b)[i] == b[i - a.len()]);
        }
    }
}

/// The value of `s[..n]`, saturated at `cap`.
fn saturating_digits_value(s: &Vec<u8>, n: usize, cap: u128) -> (v: u128)
    requires
        n <= s.len(),
        digits_ok(s@),
        cap <= 0x1_0000_0000_0000_0000_0000_0000,
    ensures
        v as nat == if digits_value(s@.take(n as int)) < cap {
            digits_value(s@.take(n as int))
        } else {
            cap as nat
        },
{
    let mut acc: u128 = 0;
    let mut i: usize = 0;
    assert(s@.take(0) =~= Seq::<u8>::empty());
    while i < n
        invariant
            i <= n <= s.len(),
            digits_ok(s@),
            cap <= 0x1_0000_0000_0000_0000_0000_0000,
            acc as nat == if digits_value(s@.take(i as int)) < cap {
                digits_value(s@.take(i as int))
            } else {
                cap as nat
            },
        decreases n - i,
    {
        let d = s[i];
        assert(d < 10);
        assert(s@.take(i + 1).drop_last() =~= s@.take(i as int));
        assert(s@.take(i + 1).last() == d);
        let next = acc * 10 + (d as u128);
        acc = if next < cap {
            next
        } else {
            cap
        };
        i = i + 1;
    }
    acc
}

/// The significand digits of `d`: its integer digits then its fraction
/// digits.
fn significand_digits(d: &Decimal) -> (all: Vec<u8>)
    ensures
        all@ == d.integer@ + d.fraction@,
{
    let mut all: Vec<u8> = Vec::new();
    let mut i: usize = 0;
    while i < d.integer.len()
        invariant
            i <= d.integer.len(),
            all@ == d.integer@.take(i as int),
        decreases d.integer.len() - i,
    {
        all.push(d.integer[i]);
        i = i + 1;
        assert(all@ =~= d.integer@.take(i as int));
    }
    let mut j: usize = 0;
    assert(d.integer@.take(d.integer.len() as int) =~= d.integer@);
    while j < d.fraction.len()
        invariant
            j <= d.fraction.len(),
            all@ == d.integer@ + d.fraction@.take(j as int),
        decreases d.fraction.len() - j,
    {
        all.push(d.fraction[j]);
        j = j + 1;
        assert(all@ =~= d.integer@ + d.fraction@.take(j as int));
    }
    assert(d.fraction@.take(d.fraction.len() as int) =~= d.fraction@);
    all
}

pub open spec fn decimal_digits_ok(d: DecimalModel) -> bool {
    digits_ok(d.integer) && digits_ok(d.fraction) && digits_ok(d.exponent)
}

pub open spec fn min_nat(a: nat, b: nat) -> nat {
    if a < b {
        a
    } else {
        b
    }
}

/// The magnitude of `d` rounded down, saturated at `cap`.
pub fn floor_magnitude_saturating(d: &Decimal, cap: u128) -> (v: u128)
    requires
        decimal_digits_ok(d@),
        1 <= cap <= 0x1_0000_0000_0000_0000_0000,
    ensures
        v as nat == min_nat(magnitude_floor(d@), cap as nat),
{
    let ghost dm = d@;
    let all = significand_digits(d);
    proof {
        lemma_digits_ok_concat(dm.integer, dm.fraction);
        lemma_digits_value_bound(all@);
    }
    let nd = all.len();
    assert(all@.take(nd as int) =~= all@);
    let ghost m = significand(dm);
    let limit: u128 = 0x1_0000_0000_0000_0000_0000_0000;
    assert(d.exponent@.take(d.exponent.len() as int) =~= d.exponent@);
    let x = saturating_digits_value(&d.exponent, d.exponent.len(), limit);
    let flen = d.fraction.len() as i128;
    let e: i128 = if d.exp_negative {
        -(x as i128) - flen
    } else {
        (x as i128) - flen
    };
    if e >= 0 {
        let m_sat = saturating_digits_value(&all, nd, cap);
        if m_sat == 0 {
            proof {
                assert(m == 0);
                assert(m * pow10(scale(dm) as nat) == 0);
            }
            return 0;
        }
        if e >= 25 {
            proof {
                let er = scale(dm);
                assert(er >= 25);
                lemma_pow10_mono(25, er as nat);
                assert(pow10(25) == 10_000_000_000_000_000_000_000_000) by {
                    reveal_with_fuel(pow10, 26);
                }
                assert(m >= 1);
                assert(m * pow10(er as nat) >= pow10(er as nat)) by (nonlinear_arith)
                    requires
                        m >= 1,
                ;
            }
            return cap;
        }
        // the scale is below 25, so the exponent was not saturated
        assert(scale(dm) == e);
        let mut v = m_sat;
        let mut i: i128 = 0;
        assert(pow10(0) == 1);
        assert(m * pow10(0) == m);
        assert(digits_value(all@.take(nd as int)) == m);
        while i < e
            invariant
                0 <= i <= e < 25,
                1 <= cap <= 0x1_0000_0000_0000_0000_0000,
                v as nat == min_nat(m * pow10(i as nat), cap as nat),
            decreases e - i,
        {
            proof {
                let p = pow10(i as nat);
                assert(pow10((i + 1) as nat) == 10 * p);
                assert(m * (10 * p) == 10 * (m * p)) by (nonlinear_arith);
            }
            let w = v * 10;
            v = if w < cap {
                w
            } else {
                cap
            };
            i = i + 1;
        }
        return v;
    }
    // a negative scale drops the last `k` significand digits
    let k: i128 = -e;
    if k >= nd as i128 {
        proof {
            let kr = (-scale(dm)) as nat;
            assert(kr >= nd);
            lemma_pow10_mono(nd as nat, kr);
            assert(m < pow10(kr));
            vstd::arithmetic::div_mod::lemma_basic_div(m as int, pow10(kr) as int);
        }
        return 0;
    }
    let keep = nd - (k as usize);
    let q = saturating_digits_value(&all, keep, cap);
    proof {
        let kr = (-scale(dm)) as nat;
        assert(kr == k);
        lemma_digits_value_split(all@, keep as int);
        let hi = digits_value(all@.take(keep as int));
        let lo = digits_value(all@.skip(keep as int));
        assert(digits_ok(all@.skip(keep as int))) by {
            assert forall|t: int| 0 <= t < all@.skip(keep as int).len() implies #[trigger] all@.skip(
                keep as int,
            )[t] < 10 by {
                assert(all@.skip(keep as int)[t] == all@[t + keep]);
            }
        }
        lemma_digits_value_bound(all@.skip(keep as int));
        assert(all@.skip(keep as int).len() == kr);
        lemma_pow10_positive(kr);
        vstd::arithmetic::div_mod::lemma_fundamental_div_mod_converse(
            m as int,
            pow10(kr) as int,
            hi as int,
            lo as int,
        );
    }
    q
}

/// Whether the significand of `d` is zero.
fn is_zero(d: &Decimal) -> (b: bool)
    requires
        decimal_digits_ok(d@),
    ensures
        b == (significand(d@) == 0),
{
    let all = significand_digits(d);
    let nd = all.len();
    assert(all@.take(nd as int) =~= all@);
    proof {
        lemma_digits_ok_concat(d@.integer, d@.fraction);
    }
    saturating_digits_value(&all, nd, 1) == 0
}

/// The value of a number truncated toward zero to a byte, when the number
/// lies in `[0, 255)`; the G-code fan speed `M106 S..` is read this way.
/// The digits of `s` are all zero exactly when its value is zero.
proof fn lemma_digits_zero(s: Seq<u8>)
    ensures
        (digits_value(s) == 0) == (forall|i: int| 0 <= i < s.len() ==> #[trigger] s[i] == 0),
    decreases s.len(),
{
    if s.len() > 0 {
        let t = s.drop_last();
        lemma_digits_zero(t);
        if digits_value(s) == 0 {
            assert forall|i: int| 0 <= i < s.len() implies #[trigger] s[i] == 0 by {
                if i < t.len() {
                    assert(t[i] == s[i]);
                }
            }
        } else {
            if forall|i: int| 0 <= i < s.len() ==> #[trigger] s[i] == 0 {
                assert forall|i: int| 0 <= i < t.len() implies #[trigger] t[i] == 0 by {
                    assert(t[i] == s[i]);
                }
                assert(s[s.len() - 1] == 0);
            }
        }
    }
}

/// The value of `s` is a multiple of `10^k` exactly when its last `k`
/// digits are zero, or, for `k` past its length, when it is zero.
proof fn lemma_multiple_of_pow10(s: Seq<u8>, k: nat)
    requires
        digits_ok(s),
    ensures
        k <= s.len() ==> ((digits_value(s) % pow10(k) == 0) == (forall|i: int|
            s.len() - k <= i < s.len() ==> #[trigger] s[i] == 0)),
        k > s.len() ==> ((digits_value(s) % pow10(k) == 0) == (digits_value(s) == 0)),
{
    lemma_pow10_positive(k);
    if k <= s.len() {
        let j = s.len() - k;
        lemma_digits_value_split(s, j);
        let suffix = s.skip(j);
        assert(digits_ok(suffix)) by {
            assert forall|i: int| 0 <= i < suffix.len() implies #[trigger] suffix[i] < 10 by {
                assert(suffix[i] == s[j + i]);
            }
        }
        lemma_digits_value_bound(suffix);
        lemma_digits_zero(suffix);
        let a = digits_value(s.take(j));
        let b = digits_value(suffix);
        let p = pow10(k);
        assert(suffix.len() == k);
        assert((a * p + b) % p == b) by (nonlinear_arith)
            requires
                0 <= b < p,
                a >= 0,
        ;
        if forall|i: int| s.len() - k <= i < s.len() ==> #[trigger] s[i] == 0 {
            assert forall|i: int| 0 <= i < suffix.len() implies #[trigger] suffix[i] == 0 by {
                assert(suffix[i] == s[j + i]);
            }
        }
        if b == 0 {
            assert forall|i: int| s.len() - k <= i < s.len() implies #[trigger] s[i] == 0 by {
                assert(s[i] == suffix[i - j]);
            }
        }
    } else {
        lemma_digits_value_bound(s);
        lemma_pow10_mono(s.len(), k);
        let v = digits_value(s);
        let p = pow10(k);
        assert(v % p == v) by (nonlinear_arith)
            requires
                0 <= v < p,
        ;
    }
}

/// Checks `is_whole`.
fn whole(d: &Decimal) -> (b: bool)
    requires
        decimal_digits_ok(d@),
    ensures
        b == is_whole(d@),
{
    let all = significand_digits(d);
    proof {
        lemma_digits_ok_concat(d@.integer, d@.fraction);
    }
    let n = all.len();
    let flen = d.fraction.len();
    assert(significand(d@) == digits_value(all@));
    let cap: u128 = (n as u128) + (flen as u128) + 1;
    let x = saturating_digits_value(&d.exponent, d.exponent.len(), cap);
    assert(d.exponent@.take(d.exponent.len() as int) =~= d.exponent@);
    let ghost e = digits_value(d@.exponent) as int;
    let k: usize;
    if !d.exp_negative {
        if x >= flen as u128 {
            return true;
        }
        k = flen - (x as usize);
        assert(-scale(d@) == k);
    } else {
        if x >= ((n - flen) as u128) {
            assert(-scale(d@) >= n);
            proof {
                lemma_multiple_of_pow10(all@, (-scale(d@)) as nat);
                lemma_digits_zero(all@);
            }
            return is_zero(d);
        }
        k = (x as usize) + flen;
        assert(-scale(d@) == k);
    }
    proof {
        lemma_multiple_of_pow10(all@, k as nat);
    }
    let mut i: usize = n - k;
    while i < n
        invariant
            n - k <= i <= n,
            n == all@.len(),
            k <= n,
            -scale(d@) == k as int,
            significand(d@) == digits_value(all@),
            (digits_value(all@) % pow10(k as nat) == 0) == (forall|j: int|
                all@.len() - k <= j < all@.len() ==> #[trigger] all@[j] == 0),
            forall|j: int| n - k <= j < i ==> #[trigger] all@[j] == 0,
        decreases n - i,
    {
        if all[i] != 0 {
            assert(all@[i as int] != 0);
            return false;
        }
        i = i + 1;
    }
    true
}

pub fn fan_byte(n: &Number) -> (r: Option<u8>)
    requires
        n matches Number::Finite(d) ==> decimal_digits_ok(d@),
    ensures
        r == spec_fan_byte(n@),
{
    let d = match n {
        Number::Finite(d) => d,
        _ => return None,
    };
    if is_zero(d) {
        return Some(0);
    }
    if d.negative {
        if below_tenth(d, 324) {
            return Some(0);
        }
        return None;
    }
    let q = floor_magnitude_saturating(d, 256);
    if q < 255 || (q == 255 && whole(d)) {
        Some(q as u8)
    } else {
        None
    }
}

/// Whether the magnitude of `d` lies below `10^-k`.
pub open spec fn below_tenth_power(d: DecimalModel, k: nat) -> bool {
    scale(d) + k < 0 && significand(d) < pow10((-(scale(d) + k)) as nat)
}

/// The smallest magnitude, in whole units, that `f64` rounds to a value at
/// or past `2^64` seconds once converted: `2^64 - 2^10` seconds, or
/// `1000 * 2^64 - 2^20` milliseconds.
pub open spec fn duration_limit(unit: crate::units::DurationUnit) -> nat {
    match unit {
        crate::units::DurationUnit::Second => 0xFFFF_FFFF_FFFF_FC00,
        crate::units::DurationUnit::Millisecond => 0x3E7_FFFF_FFFF_FFF0_0000,
    }
}

/// Whether a number of the given unit converts to a `Duration` through
/// `f64`: zero of either sign; a negative number only when it is so small
/// that `f64` reads it as `-0.0` (this stands for magnitudes below
/// `10^-324` seconds or `10^-321` milliseconds); a positive one when its
/// seconds stay below `2^64` after rounding to `f64`.
pub open spec fn spec_duration_convertible(n: NumberModel, unit: crate::units::DurationUnit) -> bool {
    match n {
        NumberModel::Finite(d) => if significand(d) == 0 {
            true
        } else if d.negative {
            below_tenth_power(
                d,
                match unit {
                    crate::units::DurationUnit::Second => 324,
                    crate::units::DurationUnit::Millisecond => 321,
                },
            )
        } else {
            magnitude_floor(d) < duration_limit(unit)
        },
        _ => false,
    }
}

/// A value is below `10^m` exactly when all but its last `m` digits are
/// zero.
proof fn lemma_below_pow10(s: Seq<u8>, m: nat)
    requires
        digits_ok(s),
        m <= s.len(),
    ensures
        (digits_value(s) < pow10(m)) == (forall|i: int| 0 <= i < s.len() - m ==> #[trigger] s[i]
            == 0),
{
    let j = s.len() - m;
    lemma_digits_value_split(s, j);
    let prefix = s.take(j);
    let suffix = s.skip(j);
    assert(digits_ok(suffix)) by {
        assert forall|i: int| 0 <= i < suffix.len() implies #[trigger] suffix[i] < 10 by {
            assert(suffix[i] == s[j + i]);
        }
    }
    lemma_digits_value_bound(suffix);
    lemma_digits_zero(prefix);
    lemma_pow10_positive(m);
    let a = digits_value(prefix);
    let b = digits_value(suffix);
    let p = pow10(m);
    assert(suffix.len() == m);
    assert((a * p + b < p) == (a == 0)) by (nonlinear_arith)
        requires
            0 <= b < p,
            a >= 0,
    ;
    if forall|i: int| 0 <= i < s.len() - m ==> #[trigger] s[i] == 0 {
        assert forall|i: int| 0 <= i < prefix.len() implies #[trigger] prefix[i] == 0 by {
            assert(prefix[i] == s[i]);
        }
    }
    if a == 0 {
        assert forall|i: int| 0 <= i < s.len() - m implies #[trigger] s[i] == 0 by {
            assert(s[i] == prefix[i]);
        }
    }
}

/// Checks `below_tenth_power` for `k` up to 400.
fn below_tenth(d: &Decimal, k: usize) -> (b: bool)
    requires
        decimal_digits_ok(d@),
        k <= 400,
    ensures
        b == below_tenth_power(d@, k as nat),
{
    let all = significand_digits(d);
    proof {
        lemma_digits_ok_concat(d@.integer, d@.fraction);
    }
    assert(significand(d@) == digits_value(all@));
    let n = all.len();
    let flen = d.fraction.len();
    let cap: u128 = (n as u128) + (flen as u128) + (k as u128) + 1;
    let x = saturating_digits_value(&d.exponent, d.exponent.len(), cap);
    assert(d.exponent@.take(d.exponent.len() as int) =~= d.exponent@);
    let ghost e = digits_value(d@.exponent) as int;
    let m: i128 = if d.exp_negative {
        (x as i128) + (flen as i128) - (k as i128)
    } else {
        (flen as i128) - (x as i128) - (k as i128)
    };
    assert(d.exp_negative ==> m <= -(scale(d@) + k));
    assert(!d.exp_negative ==> m >= -(scale(d@) + k));
    assert(x < cap ==> m == -(scale(d@) + k));
    if m < 1 {
        return false;
    }
    if m >= n as i128 {
        proof {
            lemma_digits_value_bound(all@);
            lemma_pow10_mono(n as nat, (-(scale(d@) + k)) as nat);
        }
        return true;
    }
    let mu = m as usize;
    assert(mu == -(scale(d@) + k));
    proof {
        lemma_below_pow10(all@, mu as nat);
    }
    let mut i: usize = 0;
    while i < n - mu
        invariant
            i <= n - mu,
            mu <= n,
            n == all@.len(),
            mu == -(scale(d@) + k),
            significand(d@) == digits_value(all@),
            (digits_value(all@) < pow10(mu as nat)) == (forall|j: int|
                0 <= j < all@.len() - mu ==> #[trigger] all@[j] == 0),
            forall|j: int| 0 <= j < i ==> #[trigger] all@[j] == 0,
        decreases n - mu - i,
    {
        if all[i] != 0 {
            assert(all@[i as int] != 0);
            return false;
        }
        i = i + 1;
    }
    true
}

/// Checks `spec_duration_convertible`.
pub fn duration_convertible(n: &Number, unit: crate::units::DurationUnit) -> (b: bool)
    requires
        n matches Number::Finite(d) ==> decimal_digits_ok(d@),
    ensures
        b == spec_duration_convertible(n@, unit),
{
    let d = match n {
        Number::Finite(d) => d,
        _ => return false,
    };
    if is_zero(d) {
        return true;
    }
    if d.negative {
        return match unit {
            crate::units::DurationUnit::Second => below_tenth(d, 324),
            crate::units::DurationUnit::Millisecond => below_tenth(d, 321),
        };
    }
    let limit: u128 = match unit {
        crate::units::DurationUnit::Second => 0xFFFF_FFFF_FFFF_FC00,
        crate::units::DurationUnit::Millisecond => 0x3E7_FFFF_FFFF_FFF0_0000,
    };
    floor_magnitude_saturating(d, limit) < limit
}

} // verus!
