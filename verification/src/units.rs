//! Render units and physics units.
//!
//! Verus has no floating point, so every single-precision number in this crate is
//! carried by its IEEE-754 bit pattern, a `u32`. Arithmetic on such numbers is done
//! by the maths crates the game already uses; its results are named, not computed,
//! in contracts.
use vstd::prelude::*;
use bevy::math::Vec2;
use bevy_rapier2d::math::Real;
use bevy_rapier2d::rapier::na::Vector2;

verus! {

/// The bit pattern of `1.0`.
pub const ONE: u32 = 0x3f80_0000;

/// The one bit pattern under which this crate holds every not-a-number.
pub const NOT_A_NUMBER: u32 = 0x7fc0_0000;

/// A bit pattern that holds a number, finite or infinite, and not a NaN.
pub open spec fn is_number(bits: u32) -> bool {
    bits % 0x8000_0000 <= 0x7f80_0000
}

/// A bit pattern that holds a finite number.
pub open spec fn is_finite(bits: u32) -> bool {
    bits % 0x8000_0000 < 0x7f80_0000
}

/// A bit pattern that holds a finite number greater than zero.
pub open spec fn is_positive_finite(bits: u32) -> bool {
    0 < bits < 0x7f80_0000
}

/// The bit pattern of the single-precision quotient `dividend / divisor`.
pub uninterp spec fn quotient(dividend: u32, divisor: u32) -> u32;

/// The bit pattern of the single-precision product `left * right`.
pub uninterp spec fn product(left: u32, right: u32) -> u32;

/// A point or a vector of the plane, each coordinate held by its bit pattern.
#[derive(Clone, Copy, Debug, PartialEq, Eq, Structural)]
pub struct Point {
    pub x: u32,
    pub y: u32,
}

/// A coordinate in physics units: the render coordinate divided by the scale.
pub open spec fn physics_number(render: u32, scale: u32) -> u32 {
    if is_number(render) {
        quotient(render, scale)
    } else {
        NOT_A_NUMBER
    }
}

/// A coordinate in render units: the physics coordinate times the scale.
pub open spec fn render_number(physics: u32, scale: u32) -> u32 {
    if is_number(physics) {
        product(physics, scale)
    } else {
        NOT_A_NUMBER
    }
}

/// A point in physics units.
pub open spec fn physics_point(render: Point, scale: u32) -> Point {
    Point { x: physics_number(render.x, scale), y: physics_number(render.y, scale) }
}

/// A point in render units.
pub open spec fn render_point(physics: Point, scale: u32) -> Point {
    Point { x: render_number(physics.x, scale), y: render_number(physics.y, scale) }
}

/// glam's `Vec2 / f32`, which divides each coordinate by the scalar. Claimed: a
/// coordinate that is a number, divided by a positive finite scalar, gives the
/// IEEE-754 quotient, which is a number again; a NaN coordinate stays a NaN, of
/// which bit pattern is not said.
#[verifier::external_body]
fn divide(v: Point, divisor: u32) -> (r: Point)
    requires
        is_positive_finite(divisor),
    ensures
        is_number(v.x) ==> r.x == quotient(v.x, divisor),
        is_number(v.y) ==> r.y == quotient(v.y, divisor),
        is_number(r.x) == is_number(v.x),
        is_number(r.y) == is_number(v.y),
{
    let q = Vec2::new(Real::from_bits(v.x), Real::from_bits(v.y)) / Real::from_bits(divisor);
    Point { x: q.x.to_bits(), y: q.y.to_bits() }
}

/// nalgebra's `Vector2 * f32`, which multiplies each coordinate by the scalar.
/// Claimed: a coordinate that is a number, times a positive finite scalar, gives
/// the IEEE-754 product, which is a number again; a NaN coordinate stays a NaN, of
/// which bit pattern is not said.
#[verifier::external_body]
fn multiply(v: Point, factor: u32) -> (r: Point)
    requires
        is_positive_finite(factor),
    ensures
        is_number(v.x) ==> r.x == product(v.x, factor),
        is_number(v.y) ==> r.y == product(v.y, factor),
        is_number(r.x) == is_number(v.x),
        is_number(r.y) == is_number(v.y),
{
    let p = Vector2::new(Real::from_bits(v.x), Real::from_bits(v.y)) * Real::from_bits(factor);
    Point { x: p.x.to_bits(), y: p.y.to_bits() }
}

/// Whether a bit pattern holds a number.
pub fn holds_number(bits: u32) -> (r: bool)
    ensures
        r == is_number(bits),
{
    bits % 0x8000_0000 <= 0x7f80_0000
}

/// Whether a bit pattern holds a finite number.
pub fn holds_finite(bits: u32) -> (r: bool)
    ensures
        r == is_finite(bits),
{
    bits % 0x8000_0000 < 0x7f80_0000
}

/// The bit pattern itself where it holds a number, else the one NaN pattern.
fn settled(bits: u32) -> (r: u32)
    ensures
        r == if is_number(bits) { bits } else { NOT_A_NUMBER },
        is_number(r) == is_number(bits),
{
    if holds_number(bits) {
        bits
    } else {
        NOT_A_NUMBER
    }
}

/// The factor between render units and physics units: a finite number above zero.
#[derive(Clone, Copy, Debug)]
pub struct Scale {
    bits: u32,
}

impl View for Scale {
    type V = u32;

    closed spec fn view(&self) -> u32 {
        self.bits
    }
}

impl Scale {
    #[verifier::type_invariant]
    spec fn positive(self) -> bool {
        is_positive_finite(self.bits)
    }

    /// The scale with the given bit pattern.
    pub fn new(bits: u32) -> (r: Scale)
        requires
            is_positive_finite(bits),
        ensures
            r@ == bits,
    {
        Scale { bits }
    }

    /// The scale with the given bit pattern, if that is a finite number above zero.
    pub fn checked(bits: u32) -> (r: Option<Scale>)
        ensures
            is_positive_finite(bits) ==> r.is_some() && r.unwrap()@ == bits,
            !is_positive_finite(bits) ==> r.is_none(),
    {
        if 0 < bits && bits < 0x7f80_0000 {
            Some(Scale { bits })
        } else {
            None
        }
    }

    /// The scale's bit pattern.
    pub fn to_bits(&self) -> (r: u32)
        ensures
            r == self@,
            is_positive_finite(r),
    {
        proof {
            use_type_invariant(self);
        }
        self.bits
    }

    /// Converts a point from render units to physics units.
    pub fn to_physics(&self, v: Point) -> (r: Point)
        ensures
            r == physics_point(v, self@),
            is_number(r.x) == is_number(v.x),
            is_number(r.y) == is_number(v.y),
    {
        proof {
            use_type_invariant(self);
        }
        let q = divide(v, self.bits);
        Point { x: settled(q.x), y: settled(q.y) }
    }

    /// Converts a point from physics units to render units.
    pub fn to_render(&self, v: Point) -> (r: Point)
        ensures
            r == render_point(v, self@),
            is_number(r.x) == is_number(v.x),
            is_number(r.y) == is_number(v.y),
    {
        proof {
            use_type_invariant(self);
        }
        let p = multiply(v, self.bits);
        Point { x: settled(p.x), y: settled(p.y) }
    }

    /// The factor by which a shape's geometry shrinks on its way into physics
    /// units: one divided by the scale.
    pub fn shape_factor(&self) -> (r: u32)
        ensures
            r == physics_number(ONE, self@),
            is_number(r),
    {
        let unit = self.to_physics(Point { x: ONE, y: ONE });
        unit.x
    }
}

} // verus!
