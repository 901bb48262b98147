//! Two-dimensional vectors over any number type.

use core::ops::{Add, Div, Mul, Sub};
use vstd::prelude::*;
use vstd::std_specs::ops::{AddSpec, DivSpec, MulSpec, SubSpec};

verus! {

/// A vector with an `x` and a `y` component.
#[derive(Debug)]
pub struct Vec2<T> {
    pub x: T,
    pub y: T,
}

impl<T: Copy> Clone for Vec2<T> {
    fn clone(&self) -> (r: Self)
        ensures
            r == *self,
    {
        *self
    }
}

impl<T: Copy> Copy for Vec2<T> {

}

impl<T> Vec2<T> {
    /// The vector with components `x` and `y`.
    pub fn new(x: T, y: T) -> (r: Self)
        ensures
            r.x == x,
            r.y == y,
    {
        Self { x, y }
    }
}

impl<T: Add<T, Output = T> + Mul<T, Output = T> + Copy> Vec2<T> {
    /// `x * x + y * y`, computed with the component type's operators.
    pub fn magnitude_squared(&self) -> (r: T)
        requires
            T::obeys_mul_spec(),
            self.x.mul_req(self.x),
            self.y.mul_req(self.y),
            self.x.mul_spec(self.x).add_req(self.y.mul_spec(self.y)),
        ensures
            T::obeys_add_spec() ==> r == self.x.mul_spec(self.x).add_spec(self.y.mul_spec(self.y)),
    {
        self.x * self.x + self.y * self.y
    }
}

/// Component-wise sum, by the component type's `+`.
pub open spec fn vec_add<T: Add<T, Output = T>>(a: Vec2<T>, b: Vec2<T>) -> Vec2<T> {
    Vec2 { x: a.x.add_spec(b.x), y: a.y.add_spec(b.y) }
}

/// Component-wise difference, by the component type's `-`.
pub open spec fn vec_sub<T: Sub<T, Output = T>>(a: Vec2<T>, b: Vec2<T>) -> Vec2<T> {
    Vec2 { x: a.x.sub_spec(b.x), y: a.y.sub_spec(b.y) }
}

impl<T: Add<T, Output = T>> Vec2<T> {
    /// The component-wise sum `self + rhs`.
    pub fn add(self, rhs: Self) -> (r: Self)
        requires
            self.x.add_req(rhs.x),
            self.y.add_req(rhs.y),
        ensures
            T::obeys_add_spec() ==> r == vec_add(self, rhs),
    {
        Self { x: self.x + rhs.x, y: self.y + rhs.y }
    }
}

impl<T: Sub<T, Output = T>> Vec2<T> {
    /// The component-wise difference `self - rhs`.
    pub fn sub(self, rhs: Self) -> (r: Self)
        requires
            self.x.sub_req(rhs.x),
            self.y.sub_req(rhs.y),
        ensures
            T::obeys_sub_spec() ==> r == vec_sub(self, rhs),
    {
        Self { x: self.x - rhs.x, y: self.y - rhs.y }
    }
}

impl<T: Mul<T, Output = T> + Copy> Vec2<T> {
    /// Both components multiplied by `rhs`.
    pub fn mul(self, rhs: T) -> (r: Self)
        requires
            self.x.mul_req(rhs),
            self.y.mul_req(rhs),
        ensures
            T::obeys_mul_spec() ==> r.x == self.x.mul_spec(rhs) && r.y == self.y.mul_spec(rhs),
    {
        Self { x: self.x * rhs, y: self.y * rhs }
    }
}

impl<T: Div<T, Output = T> + Copy> Vec2<T> {
    /// Both components divided by `rhs`.
    pub fn div(self, rhs: T) -> (r: Self)
        requires
            self.x.div_req(rhs),
            self.y.div_req(rhs),
        ensures
            T::obeys_div_spec() ==> r.x == self.x.div_spec(rhs) && r.y == self.y.div_spec(rhs),
    {
        Self { x: self.x / rhs, y: self.y / rhs }
    }
}

/// Types with a square root, as `Vec2::magnitude` needs.
pub trait Sqrt: Sized {
    /// The square root of `self`.
    fn sqrt(self) -> Self;
}

impl<T: Add<T, Output = T> + Mul<T, Output = T> + Copy + Sqrt> Vec2<T> {
    /// The length of the vector: the square root of `magnitude_squared`.
    pub fn magnitude(&self) -> (r: T)
        requires
            T::obeys_mul_spec(),
            self.x.mul_req(self.x),
            self.y.mul_req(self.y),
            self.x.mul_spec(self.x).add_req(self.y.mul_spec(self.y)),
        ensures
            T::obeys_add_spec() ==> call_ensures(
                T::sqrt,
                (self.x.mul_spec(self.x).add_spec(self.y.mul_spec(self.y)),),
                r,
            ),
    {
        self.magnitude_squared().sqrt()
    }
}

} // verus!
