//! Angles measured in radians or in degrees.

use vstd::prelude::*;

verus! {

/// Number types that angles can be measured in.
pub trait Angle: Sized {
    /// The number pi.
    fn pi() -> Self;

    /// This many degrees, in radians.
    fn degrees_to_radians(&self) -> Self;

    /// This many radians, in degrees.
    fn radians_to_degrees(&self) -> Self;
}

/// An angle in radians.
#[derive(Debug, Clone, Copy, PartialEq, Eq, PartialOrd, Ord)]
pub struct Radians<T>(pub(crate) T);

/// An angle in degrees.
#[derive(Debug, Clone, Copy, PartialEq, Eq, PartialOrd, Ord)]
pub struct Degrees<T>(pub(crate) T);

impl<T> Radians<T> {
    /// The measure in radians.
    pub closed spec fn value(self) -> T {
        self.0
    }
}

impl<T> Degrees<T> {
    /// The measure in degrees.
    pub closed spec fn value(self) -> T {
        self.0
    }
}

impl<T: Angle> Radians<T> {
    /// The angle of `t` radians.
    pub fn radians(t: T) -> (r: Self)
        ensures
            r.value() == t,
    {
        Self(t)
    }

    /// The angle of `t` degrees, held in radians.
    pub fn degrees(t: T) -> (r: Self)
        ensures
            call_ensures(T::degrees_to_radians, (&t,), r.value()),
    {
        Self::radians(t.degrees_to_radians())
    }
}

impl<T: Angle> Degrees<T> {
    /// The angle of `t` radians, held in degrees.
    pub fn radians(t: T) -> (r: Self)
        ensures
            call_ensures(T::radians_to_degrees, (&t,), r.value()),
    {
        Self::degrees(t.radians_to_degrees())
    }

    /// The angle of `t` degrees.
    pub fn degrees(t: T) -> (r: Self)
        ensures
            r.value() == t,
    {
        Self(t)
    }
}

} // verus!
