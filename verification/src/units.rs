use vstd::prelude::*;
use vstd::std_specs::cmp::PartialOrdSpec;

verus! {

/// Unit in which G-code distances are written.
#[derive(Clone, Copy, PartialEq, Eq, Debug, Structural)]
pub enum DistanceUnit {
    Millimeter,
    Inch,
}

/// Unit of a stepper position.
#[derive(Clone, Copy, PartialEq, Eq, Debug, Structural)]
pub enum Unit {
    Millimeter,
    Inch,
}

/// Unit in which G-code temperatures are written.
#[derive(Clone, Copy, PartialEq, Eq, Debug, Structural)]
pub enum TemperatureUnit {
    Celsius,
    Farhenheit,
    Kelvin,
}

/// Unit in which G-code durations are written.
#[derive(Clone, Copy, PartialEq, Eq, Debug, Structural)]
pub enum DurationUnit {
    Second,
    Millisecond,
}

/// Direction of rotation of a motor shaft.
#[derive(Clone, Copy, PartialEq, Eq, Debug, Structural)]
pub enum RotationDirection {
    Clockwise,
    CounterClockwise,
}

/// The sign a rotation direction stands for: clockwise is +1.
pub open spec fn direction_sign(d: RotationDirection) -> i8 {
    match d {
        RotationDirection::Clockwise => 1i8,
        RotationDirection::CounterClockwise => -1i8,
    }
}

impl From<RotationDirection> for i8 {
    fn from(value: RotationDirection) -> (r: i8) {
        match value {
            RotationDirection::Clockwise => 1,
            RotationDirection::CounterClockwise => -1,
        }
    }
}

impl vstd::std_specs::convert::FromSpecImpl<RotationDirection> for i8 {
    open spec fn obeys_from_spec() -> bool {
        true
    }

    open spec fn from_spec(v: RotationDirection) -> i8 {
        direction_sign(v)
    }
}

/// Whether `a` compares greater than `b` by the order vstd gives `T`.
pub open spec fn greater<T: PartialOrd>(a: T, b: T) -> bool {
    a.partial_cmp_spec(&b) == Some(core::cmp::Ordering::Greater)
}

/// Whether `T`'s comparisons follow the order vstd gives it.
pub open spec fn ordered<T: PartialOrd>() -> bool {
    T::obeys_partial_cmp_spec()
}

/// The value that a left-to-right scan keeps as the largest of the first
/// `n` items: it takes an item only when that item compares greater than
/// the one kept so far.
pub open spec fn scan_max<T: PartialOrd>(s: Seq<T>, n: int) -> T
    decreases n,
{
    if n <= 1 {
        s[0]
    } else {
        let kept = scan_max(s, n - 1);
        if greater(s[n - 1], kept) {
            s[n - 1]
        } else {
            kept
        }
    }
}

/// The largest item of a slice, the first of equal ones; `None` when the
/// slice is empty. Where the items' order is not the one vstd specifies,
/// the result is still one of the items.
pub fn max<T: PartialEq + PartialOrd>(other: &[T]) -> (r: Option<&T>)
    ensures
        r is None <==> other@.len() == 0,
        r matches Some(m) ==> exists|i: int| 0 <= i < other@.len() && *m == other@[i],
        ordered::<T>() ==> (r matches Some(m) ==> *m == scan_max(other@, other@.len() as int)),
{
    if other.len() == 0 {
        return None;
    }
    let mut max: &T = &other[0];
    let mut k: usize = 0;
    let ghost mut at: int = 0;
    while k < other.len()
        invariant
            0 <= k <= other@.len(),
            other@.len() > 0,
            0 <= at < other@.len(),
            *max == other@[at],
            ordered::<T>() ==> *max == scan_max(other@, if k == 0 { 1 } else { k as int }),
        decreases other@.len() - k,
    {
        let e = &other[k];
        if *e > *max {
            max = e;
            proof {
                at = k as int;
            }
        }
        k = k + 1;
    }
    Some(max)
}

/// An electrical resistance in whole ohms.
#[derive(Clone, Copy, PartialEq, Eq, Debug, Structural)]
pub struct Resistance {
    value: usize,
}

impl Resistance {
    pub closed spec fn ohms(self) -> usize {
        self.value
    }

    pub fn from_ohm(value: usize) -> (r: Self)
        ensures
            r.ohms() == value,
    {
        Self { value }
    }

    pub fn as_ohm(&self) -> (r: usize)
        ensures
            r == self.ohms(),
    {
        self.value
    }
}

} // verus!
