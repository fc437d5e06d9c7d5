//! Plain two- and three-component vectors over any copyable quantity.
use vstd::prelude::*;

verus! {

#[derive(Clone, Copy)]
pub struct Vector2D<M> {
    x: M,
    y: M,
}

impl<M: Copy> View for Vector2D<M> {
    type V = (M, M);

    closed spec fn view(&self) -> (M, M) {
        (self.x, self.y)
    }
}

impl<M: Copy> Vector2D<M> {
    pub fn new(x: M, y: M) -> (v: Self)
        ensures
            v@ == (x, y),
    {
        Vector2D { x, y }
    }

    pub fn get_x(&self) -> (x: M)
        ensures
            x == self@.0,
    {
        self.x
    }

    pub fn get_y(&self) -> (y: M)
        ensures
            y == self@.1,
    {
        self.y
    }
}

#[derive(Clone, Copy)]
pub struct Vector3D<M> {
    x: M,
    y: M,
    z: M,
}

impl<M: Copy> View for Vector3D<M> {
    type V = (M, M, M);

    closed spec fn view(&self) -> (M, M, M) {
        (self.x, self.y, self.z)
    }
}

impl<M: Copy> Vector3D<M> {
    pub fn new(x: M, y: M, z: M) -> (v: Vector3D<M>)
        ensures
            v@ == (x, y, z),
    {
        Vector3D { x, y, z }
    }

    pub fn get_x(&self) -> (x: M)
        ensures
            x == self@.0,
    {
        self.x
    }

    pub fn get_y(&self) -> (y: M)
        ensures
            y == self@.1,
    {
        self.y
    }

    pub fn get_z(&self) -> (z: M)
        ensures
            z == self@.2,
    {
        self.z
    }
}

} // verus!
