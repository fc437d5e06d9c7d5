//! Vectors over quantities that know how to add, subtract and multiply
//! themselves, with the component-wise operations built on them.
use vstd::prelude::*;

verus! {

/// A quantity with arithmetic. Each operation states when it is defined
/// and what it yields.
pub trait Computable: Copy {
    spec fn plus(self, other: Self) -> Self;

    spec fn minus(self, other: Self) -> Self;

    spec fn times(self, other: Self) -> Self;

    spec fn plus_defined(self, other: Self) -> bool;

    spec fn minus_defined(self, other: Self) -> bool;

    spec fn times_defined(self, other: Self) -> bool;

    fn add(&self, other: &Self) -> (r: Self)
        requires
            self.plus_defined(*other),
        ensures
            r == self.plus(*other),
    ;

    fn sub(&self, other: &Self) -> (r: Self)
        requires
            self.minus_defined(*other),
        ensures
            r == self.minus(*other),
    ;

    fn mul(&self, other: &Self) -> (r: Self)
        requires
            self.times_defined(*other),
        ensures
            r == self.times(*other),
    ;
}

/// Whole numbers: the operations are exact wherever the result fits.
impl Computable for i64 {
    open spec fn plus(self, other: Self) -> Self {
        (self + other) as i64
    }

    open spec fn minus(self, other: Self) -> Self {
        (self - other) as i64
    }

    open spec fn times(self, other: Self) -> Self {
        (self * other) as i64
    }

    open spec fn plus_defined(self, other: Self) -> bool {
        i64::MIN <= self + other <= i64::MAX
    }

    open spec fn minus_defined(self, other: Self) -> bool {
        i64::MIN <= self - other <= i64::MAX
    }

    open spec fn times_defined(self, other: Self) -> bool {
        i64::MIN <= self * other <= i64::MAX
    }

    fn add(&self, other: &Self) -> (r: Self) {
        *self + *other
    }

    fn sub(&self, other: &Self) -> (r: Self) {
        *self - *other
    }

    fn mul(&self, other: &Self) -> (r: Self) {
        *self * *other
    }
}

#[derive(Clone, Copy)]
pub struct Vector2D<M> {
    x: M,
    y: M,
}

impl<M: Computable> View for Vector2D<M> {
    type V = (M, M);

    closed spec fn view(&self) -> (M, M) {
        (self.x, self.y)
    }
}

/// The dot product of two pairs.
pub open spec fn dot_of<M: Computable>(a: (M, M), b: (M, M)) -> M {
    a.0.times(b.0).plus(a.1.times(b.1))
}

/// Whether every step of the dot product of two pairs is defined.
pub open spec fn dot_defined<M: Computable>(a: (M, M), b: (M, M)) -> bool {
    &&& a.0.times_defined(b.0)
    &&& a.1.times_defined(b.1)
    &&& a.0.times(b.0).plus_defined(a.1.times(b.1))
}

impl<M: Computable> Vector2D<M> {
    pub fn new(x: M, y: M) -> (v: Vector2D<M>)
        ensures
            v@ == (x, y),
    {
        Vector2D { x, y }
    }

    /// Component-wise sum.
    pub fn add(&self, other: &Vector2D<M>) -> (v: Vector2D<M>)
        requires
            self@.0.plus_defined(other@.0),
            self@.1.plus_defined(other@.1),
        ensures
            v@ == (self@.0.plus(other@.0), self@.1.plus(other@.1)),
    {
        Vector2D::new(self.x.add(&other.x), self.y.add(&other.y))
    }

    /// Component-wise difference.
    pub fn sub(&self, other: &Vector2D<M>) -> (v: Vector2D<M>)
        requires
            self@.0.minus_defined(other@.0),
            self@.1.minus_defined(other@.1),
        ensures
            v@ == (self@.0.minus(other@.0), self@.1.minus(other@.1)),
    {
        Vector2D::new(self.x.sub(&other.x), self.y.sub(&other.y))
    }

    pub fn dot(&self, other: &Vector2D<M>) -> (d: M)
        requires
            dot_defined(self@, other@),
        ensures
            d == dot_of(self@, other@),
    {
        self.x.mul(&other.x).add(&self.y.mul(&other.y))
    }

    pub fn get_x(&self) -> (x: M)
        ensures
            x == self@.0,
    {
        self.x
    }

    pub fn get_y(&self) -> (y: M)
        ensures
            y == self@.1,
    {
        self.y
    }
}

#[derive(Clone, Copy)]
pub struct Vector3D<M> {
    x: M,
    y: M,
    z: M,
}

impl<M: Computable> View for Vector3D<M> {
    type V = (M, M, M);

    closed spec fn view(&self) -> (M, M, M) {
        (self.x, self.y, self.z)
    }
}

impl<M: Computable> Vector3D<M> {
    pub fn new(x: M, y: M, z: M) -> (v: Vector3D<M>)
        ensures
            v@ == (x, y, z),
    {
        Vector3D { x, y, z }
    }

    /// Component-wise sum.
    pub fn add(&self, other: &Vector3D<M>) -> (v: Vector3D<M>)
        requires
            self@.0.plus_defined(other@.0),
            self@.1.plus_defined(other@.1),
            self@.2.plus_defined(other@.2),
        ensures
            v@ == (self@.0.plus(other@.0), self@.1.plus(other@.1), self@.2.plus(other@.2)),
    {
        Vector3D::new(self.x.add(&other.x), self.y.add(&other.y), self.z.add(&other.z))
    }

    /// Component-wise difference.
    pub fn sub(&self, other: &Vector3D<M>) -> (v: Vector3D<M>)
        requires
            self@.0.minus_defined(other@.0),
            self@.1.minus_defined(other@.1),
            self@.2.minus_defined(other@.2),
        ensures
            v@ == (self@.0.minus(other@.0), self@.1.minus(other@.1), self@.2.minus(other@.2)),
    {
        Vector3D::new(self.x.sub(&other.x), self.y.sub(&other.y), self.z.sub(&other.z))
    }

    pub fn get_x(&self) -> (x: M)
        ensures
            x == self@.0,
    {
        self.x
    }

    pub fn get_y(&self) -> (y: M)
        ensures
            y == self@.1,
    {
        self.y
    }

    pub fn get_z(&self) -> (z: M)
        ensures
            z == self@.2,
    {
        self.z
    }
}

} // verus!
