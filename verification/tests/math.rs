use std::ops::{Add, Mul};

use robowar::math::angles::{Angle, Degrees, Radians};
use robowar::math::circle::Circle;
use robowar::math::ray2::Ray2;
use robowar::math::rect::Rect;
use robowar::math::vec2::{Sqrt, Vec2};

fn xy<T: Copy>(v: &Vec2<T>) -> (T, T) {
    (v.x, v.y)
}

#[test]
fn vec2_arithmetic() {
    let a = Vec2::new(3i64, -4);
    let b = Vec2::new(1i64, 2);
    assert_eq!(xy(&a.add(b)), (4, -2));
    assert_eq!(xy(&a.sub(b)), (2, -6));
    assert_eq!(xy(&a.mul(3)), (9, -12));
    assert_eq!(xy(&Vec2::new(7i64, -7).div(2)), (3, -3));
    assert_eq!(a.magnitude_squared(), 25);
}

#[derive(Debug, Clone, Copy, PartialEq)]
struct Real(f64);

impl Add for Real {
    type Output = Real;
    fn add(self, rhs: Real) -> Real {
        Real(self.0 + rhs.0)
    }
}

impl Mul for Real {
    type Output = Real;
    fn mul(self, rhs: Real) -> Real {
        Real(self.0 * rhs.0)
    }
}

impl Sqrt for Real {
    fn sqrt(self) -> Real {
        Real(self.0.sqrt())
    }
}

impl Angle for Real {
    fn pi() -> Real {
        Real(std::f64::consts::PI)
    }
    fn degrees_to_radians(&self) -> Real {
        Real(self.0 * std::f64::consts::PI / 180.0)
    }
    fn radians_to_degrees(&self) -> Real {
        Real(self.0 * 180.0 / std::f64::consts::PI)
    }
}

#[test]
fn vec2_magnitude() {
    assert_eq!(Vec2::new(Real(3.0), Real(4.0)).magnitude(), Real(5.0));
}

#[test]
fn angles_convert_on_construction() {
    let a = Real(90.0);
    assert_eq!(Radians::degrees(a), Radians::radians(a.degrees_to_radians()));
    assert_eq!(Degrees::radians(a), Degrees::degrees(a.radians_to_degrees()));
    assert_eq!(Radians::radians(Real::pi()), Radians::degrees(Real(180.0)));
}

#[test]
fn rect_from_origin_and_size() {
    let r = Rect::new_with_origin_size(Vec2::new(10i32, 20), Vec2::new(-4, 5));
    assert_eq!(xy(&r.minimum()), (6, 20));
    assert_eq!(xy(&r.maximum()), (10, 25));
    assert_eq!(xy(&r.origin()), (6, 20));
    assert_eq!(xy(&r.size()), (4, 5));
    assert_eq!(r.width(), 4);
    assert_eq!(r.height(), 5);
}

#[test]
fn rect_from_points() {
    let points = [Vec2::new(1i32, 5), Vec2::new(-2, 3), Vec2::new(4, -1)];
    let r = Rect::new_with_points(&points, 0).unwrap();
    assert_eq!(xy(&r.minimum()), (-2, -1));
    assert_eq!(xy(&r.maximum()), (4, 5));
    let one = Rect::new_with_points(&points[..1], 0).unwrap();
    assert_eq!(xy(&one.minimum()), (1, 5));
    assert_eq!(xy(&one.maximum()), (1, 5));
    assert!(Rect::new_with_points(&points[..0], 0).is_none());
}

#[test]
fn ray_and_circle() {
    let ray = Ray2::new_between_points(Vec2::new(1i64, 2), Vec2::new(4, -2));
    assert_eq!(xy(ray.origin()), (1, 2));
    assert_eq!(xy(ray.delta()), (3, -4));
    let ray = Ray2::new(Vec2::new(0u8, 0), Vec2::new(1, 1));
    assert_eq!(xy(ray.delta()), (1, 1));
    let c = Circle::new(Vec2::new(5i32, 6), 7);
    assert_eq!(xy(c.center()), (5, 6));
    assert_eq!(*c.radius(), 7);
}

#[test]
fn rect_with_nonnegative_size_starts_at_origin() {
    let r = Rect::new_with_origin_size(Vec2::new(3i64, -4), Vec2::new(5, 6));
    assert_eq!(xy(&r.origin()), (3, -4));
    assert_eq!(xy(&r.maximum()), (8, 2));
    let z = Rect::new_with_origin_size(Vec2::new(7i32, 9), Vec2::new(0, 0));
    assert_eq!(xy(&z.origin()), (7, 9));
    assert_eq!(xy(&z.maximum()), (7, 9));
}
