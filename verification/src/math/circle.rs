//! Circles: a center and a radius.

use vstd::prelude::*;

use crate::math::vec2::Vec2;

verus! {

/// A circle around `center` with the given `radius`.
pub struct Circle<T> {
    center: Vec2<T>,
    radius: T,
}

impl<T> Circle<T> {
    /// The center.
    pub closed spec fn center_spec(&self) -> Vec2<T> {
        self.center
    }

    /// The radius.
    pub closed spec fn radius_spec(&self) -> T {
        self.radius
    }

    /// The circle around `center` with the given `radius`.
    pub fn new(center: Vec2<T>, radius: T) -> (r: Self)
        ensures
            r.center_spec() == center,
            r.radius_spec() == radius,
    {
        Self { center, radius }
    }

    /// The center.
    pub fn center(&self) -> (r: &Vec2<T>)
        ensures
            *r == self.center_spec(),
    {
        &self.center
    }

    /// The radius.
    pub fn radius(&self) -> (r: &T)
        ensures
            *r == self.radius_spec(),
    {
        &self.radius
    }
}

} // verus!
