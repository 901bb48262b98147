//! Rays: an origin and a displacement.

use core::ops::Sub;
use vstd::prelude::*;
use vstd::std_specs::ops::SubSpec;

use crate::math::vec2::{vec_sub, Vec2};

verus! {

/// A ray from `origin` along `delta`.
pub struct Ray2<T> {
    origin: Vec2<T>,
    delta: Vec2<T>,
}

impl<T> Ray2<T> {
    /// Where the ray starts.
    pub closed spec fn origin_spec(&self) -> Vec2<T> {
        self.origin
    }

    /// How far and in which direction the ray goes.
    pub closed spec fn delta_spec(&self) -> Vec2<T> {
        self.delta
    }

    /// The ray from `origin` along `delta`.
    pub fn new(origin: Vec2<T>, delta: Vec2<T>) -> (r: Self)
        ensures
            r.origin_spec() == origin,
            r.delta_spec() == delta,
    {
        Self { origin, delta }
    }

    /// Where the ray starts.
    pub fn origin(&self) -> (r: &Vec2<T>)
        ensures
            *r == self.origin_spec(),
    {
        &self.origin
    }

    /// How far and in which direction the ray goes.
    pub fn delta(&self) -> (r: &Vec2<T>)
        ensures
            *r == self.delta_spec(),
    {
        &self.delta
    }
}

impl<T: Sub<T, Output = T> + Copy> Ray2<T> {
    /// The ray from `a` to `b`: origin `a`, displacement `b - a`.
    pub fn new_between_points(a: Vec2<T>, b: Vec2<T>) -> (r: Self)
        requires
            b.x.sub_req(a.x),
            b.y.sub_req(a.y),
        ensures
            r.origin_spec() == a,
            T::obeys_sub_spec() ==> r.delta_spec() == vec_sub(b, a),
    {
        Self::new(a, b.sub(a))
    }
}

} // verus!
