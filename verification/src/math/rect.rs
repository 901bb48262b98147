//! Axis-aligned rectangles over any number type.

use core::ops::{Add, Sub};
use vstd::prelude::*;
use vstd::std_specs::cmp::PartialOrdIs;
use vstd::std_specs::ops::{AddSpec, SubSpec};

use crate::math::order::obeys_order;
use crate::math::vec2::{vec_add, vec_sub, Vec2};

verus! {

/// A rectangle given by its smallest and largest corner.
#[derive(Debug)]
pub struct Rect<T> {
    min: Vec2<T>,
    max: Vec2<T>,
}

impl<T: Copy> Clone for Rect<T> {
    fn clone(&self) -> (r: Self)
        ensures
            r == *self,
    {
        *self
    }
}

impl<T: Copy> Copy for Rect<T> {

}

/// The smaller of two values by `<`: `a` when `a < b`, otherwise `b`.
pub open spec fn lesser<T: PartialOrd>(a: T, b: T) -> T {
    if a.is_lt(&b) {
        a
    } else {
        b
    }
}

/// The larger of two values by `<`: `b` when `a < b`, otherwise `a`.
pub open spec fn greater_by_lt<T: PartialOrd>(a: T, b: T) -> T {
    if a.is_lt(&b) {
        b
    } else {
        a
    }
}

/// The larger of two values by `>`: `a` when `a > b`, otherwise `b`.
pub open spec fn greater<T: PartialOrd>(a: T, b: T) -> T {
    if a.is_gt(&b) {
        a
    } else {
        b
    }
}

impl<T> Rect<T> {
    /// The smallest corner.
    pub closed spec fn min_corner(self) -> Vec2<T> {
        self.min
    }

    /// The largest corner.
    pub closed spec fn max_corner(self) -> Vec2<T> {
        self.max
    }
}

/// The rectangle spanned by `origin` and `origin + size`, each coordinate
/// sorted with `<`.
pub open spec fn origin_size_rect<T: Add<T, Output = T> + PartialOrd + Copy>(
    origin: Vec2<T>,
    size: Vec2<T>,
) -> (Vec2<T>, Vec2<T>) {
    let p2 = vec_add(origin, size);
    (
        Vec2 { x: lesser(origin.x, p2.x), y: lesser(origin.y, p2.y) },
        Vec2 { x: greater_by_lt(origin.x, p2.x), y: greater_by_lt(origin.y, p2.y) },
    )
}

/// The bounding corners of `points` folded from first to last: the first
/// point with a zero size, then each point widening the corners (`<` for the
/// smallest corner, `>` for the largest).
pub open spec fn points_bounds<T: Add<T, Output = T> + PartialOrd + Copy>(
    points: Seq<Vec2<T>>,
    zero: T,
) -> Option<(Vec2<T>, Vec2<T>)>
    decreases points.len(),
{
    if points.len() == 0 {
        None
    } else {
        let p = points.last();
        match points_bounds(points.drop_last(), zero) {
            None => Some(origin_size_rect(p, Vec2 { x: zero, y: zero })),
            Some((lo, hi)) => Some(
                (
                    Vec2 { x: lesser(lo.x, p.x), y: lesser(lo.y, p.y) },
                    Vec2 { x: greater(hi.x, p.x), y: greater(hi.y, p.y) },
                ),
            ),
        }
    }
}

/// A rectangle built from an origin and a size that shrinks neither
/// coordinate (on each axis `origin + size` is greater than `origin` or equal
/// to it) starts at that origin and ends at `origin + size`.
pub proof fn lemma_origin_kept<T: Add<T, Output = T> + PartialOrd + Copy>(
    origin: Vec2<T>,
    size: Vec2<T>,
)
    requires
        origin.x.is_lt(&vec_add(origin, size).x) || origin.x == vec_add(origin, size).x,
        origin.y.is_lt(&vec_add(origin, size).y) || origin.y == vec_add(origin, size).y,
    ensures
        origin_size_rect(origin, size).0 == origin,
        origin_size_rect(origin, size).1 == vec_add(origin, size),
{
}

/// With `i32` coordinates, a rectangle built from an origin and a size with
/// no negative component starts at that origin and ends at `origin + size`.
pub proof fn lemma_origin_kept_i32(origin: Vec2<i32>, size: Vec2<i32>)
    requires
        size.x >= 0,
        size.y >= 0,
        origin.x + size.x <= i32::MAX,
        origin.y + size.y <= i32::MAX,
    ensures
        origin_size_rect(origin, size).0 == origin,
        origin_size_rect(origin, size).1.x == origin.x + size.x,
        origin_size_rect(origin, size).1.y == origin.y + size.y,
{
    lemma_origin_kept(origin, size);
}

/// With `i64` coordinates, a rectangle built from an origin and a size with
/// no negative component starts at that origin and ends at `origin + size`.
pub proof fn lemma_origin_kept_i64(origin: Vec2<i64>, size: Vec2<i64>)
    requires
        size.x >= 0,
        size.y >= 0,
        origin.x + size.x <= i64::MAX,
        origin.y + size.y <= i64::MAX,
    ensures
        origin_size_rect(origin, size).0 == origin,
        origin_size_rect(origin, size).1.x == origin.x + size.x,
        origin_size_rect(origin, size).1.y == origin.y + size.y,
{
    lemma_origin_kept(origin, size);
}

impl<T: Copy> Rect<T> {
    /// The rectangle spanned by `origin` and `origin + size`, whatever the
    /// signs of the size.
    pub fn new_with_origin_size(origin: Vec2<T>, size: Vec2<T>) -> (r: Self) where
        T: Add<T, Output = T> + PartialOrd,

        requires
            origin.x.add_req(size.x),
            origin.y.add_req(size.y),
        ensures
            T::obeys_add_spec() && obeys_order::<T>() ==> (r.min_corner(),
            r.max_corner()) == origin_size_rect(origin, size),
    {
        let p1 = origin;
        let p2 = origin.add(size);
        let (x1, x2) = if p1.x < p2.x {
            (p1.x, p2.x)
        } else {
            (p2.x, p1.x)
        };
        let (y1, y2) = if p1.y < p2.y {
            (p1.y, p2.y)
        } else {
            (p2.y, p1.y)
        };
        Self { min: Vec2::new(x1, y1), max: Vec2::new(x2, y2) }
    }

    /// The smallest rectangle holding all of `points`; `None` when there are
    /// none. `zero` is the zero of the number type.
    pub fn new_with_points(points: &[Vec2<T>], zero: T) -> (r: Option<Rect<T>>) where
        T: Add<T, Output = T> + PartialOrd,

        requires
            points@.len() > 0 ==> points@[0].x.add_req(zero) && points@[0].y.add_req(zero),
        ensures
            r is Some <==> points@.len() > 0,
            T::obeys_add_spec() && obeys_order::<T>() ==> match r {
                Some(rect) => points_bounds(points@, zero) == Some(
                    (rect.min_corner(), rect.max_corner()),
                ),
                None => points_bounds(points@, zero) is None,
            },
    {
        let mut result: Option<Rect<T>> = None;
        let mut i: usize = 0;
        assert(points@.take(0) =~= Seq::<Vec2<T>>::empty());
        while i < points.len()
            invariant
                i <= points@.len(),
                points@.len() > 0 ==> points@[0].x.add_req(zero) && points@[0].y.add_req(zero),
                result is Some <==> i > 0,
                T::obeys_add_spec() && obeys_order::<T>() ==> match result {
                    Some(rect) => points_bounds(points@.take(i as int), zero) == Some(
                        (rect.min_corner(), rect.max_corner()),
                    ),
                    None => points_bounds(points@.take(i as int), zero) is None,
                },
            decreases points@.len() - i,
        {
            let point = points[i];
            proof {
                assert(points@.take(i + 1).drop_last() =~= points@.take(i as int));
                assert(points@.take(i + 1).last() == point);
            }
            result = match result {
                Some(r) => Some(
                    Self {
                        min: Vec2::new(
                            if r.min.x < point.x {
                                r.min.x
                            } else {
                                point.x
                            },
                            if r.min.y < point.y {
                                r.min.y
                            } else {
                                point.y
                            },
                        ),
                        max: Vec2::new(
                            if r.max.x > point.x {
                                r.max.x
                            } else {
                                point.x
                            },
                            if r.max.y > point.y {
                                r.max.y
                            } else {
                                point.y
                            },
                        ),
                    },
                ),
                None => Some(Rect::new_with_origin_size(point, Vec2::new(zero, zero))),
            };
            i = i + 1;
        }
        assert(points@.take(points@.len() as int) =~= points@);
        result
    }

    /// The smallest corner.
    pub fn minimum(&self) -> (r: Vec2<T>)
        ensures
            r == self.min_corner(),
    {
        self.min
    }

    /// The largest corner.
    pub fn maximum(&self) -> (r: Vec2<T>)
        ensures
            r == self.max_corner(),
    {
        self.max
    }

    /// The corner the rectangle starts at: its smallest corner.
    pub fn origin(&self) -> (r: Vec2<T>)
        ensures
            r == self.min_corner(),
    {
        self.minimum()
    }

    /// The largest corner minus the smallest.
    pub fn size(&self) -> (r: Vec2<T>) where T: Sub<T, Output = T>
        requires
            self.max_corner().x.sub_req(self.min_corner().x),
            self.max_corner().y.sub_req(self.min_corner().y),
        ensures
            T::obeys_sub_spec() ==> r == vec_sub(self.max_corner(), self.min_corner()),
    {
        self.max.sub(self.min)
    }

    /// The horizontal extent.
    pub fn width(&self) -> (r: T) where T: Sub<T, Output = T>
        requires
            self.max_corner().x.sub_req(self.min_corner().x),
        ensures
            T::obeys_sub_spec() ==> r == self.max_corner().x.sub_spec(self.min_corner().x),
    {
        self.max.x - self.min.x
    }

    /// The vertical extent.
    pub fn height(&self) -> (r: T) where T: Sub<T, Output = T>
        requires
            self.max_corner().y.sub_req(self.min_corner().y),
        ensures
            T::obeys_sub_spec() ==> r == self.max_corner().y.sub_spec(self.min_corner().y),
    {
        self.max.y - self.min.y
    }
}

} // verus!
