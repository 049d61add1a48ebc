//! What a collider is made of: its shape and how it bounces.
use vstd::prelude::*;
use bevy::math::Vec2;
use bevy_rapier2d::geometry::Collider;
use bevy_rapier2d::math::Real;
use bevy_rapier2d::rapier::geometry::SharedShape;
use crate::units::{is_finite, is_number, holds_finite};

verus! {

/// The engine's shape of a collider, in physics units.
#[verifier::external_type_specification]
#[verifier::external_body]
pub struct ExSharedShape(SharedShape);

/// The shape of a collider in render units, each length held by its bit pattern.
#[derive(Clone, Copy, Debug, PartialEq, Eq, Structural)]
pub enum Shape {
    /// A disc around the collider's position.
    Ball { radius: u32 },
    /// An axis-aligned rectangle around the collider's position.
    Cuboid { half_x: u32, half_y: u32 },
}

impl Shape {
    /// Every length of the shape is a finite number: a shape of any other kind is
    /// degenerate and has no scaled form.
    pub open spec fn wf(self) -> bool {
        match self {
            Shape::Ball { radius } => is_finite(radius),
            Shape::Cuboid { half_x, half_y } => is_finite(half_x) && is_finite(half_y),
        }
    }

    /// Whether every length of the shape is a finite number.
    pub fn is_wf(&self) -> (r: bool)
        ensures
            r == self.wf(),
    {
        match *self {
            Shape::Ball { radius } => holds_finite(radius),
            Shape::Cuboid { half_x, half_y } => holds_finite(half_x) && holds_finite(half_y),
        }
    }
}

/// How the bounciness of two touching colliders becomes one number.
#[derive(Clone, Copy, Debug, PartialEq, Eq, Structural)]
pub enum CoefficientCombineRule {
    Average,
    Min,
    Multiply,
    Max,
}

/// How a collider bounces.
#[derive(Clone, Copy, Debug, PartialEq, Eq, Structural)]
pub struct Restitution {
    /// The restitution coefficient, by its bit pattern.
    pub coefficient: u32,
    /// The rule the live world combines it by.
    pub combine_rule: CoefficientCombineRule,
}

/// The engine's shape for `shape` with every length multiplied by `factor`, curved
/// outlines cut into `subdivisions` pieces where they have to be.
pub uninterp spec fn scaled_shape(shape: Shape, factor: u32, subdivisions: u32) -> SharedShape;

/// bevy_rapier2d's `raw_scale_by` on the unscaled view of a collider made by
/// `Collider::ball` or `Collider::cuboid`. Claimed: the result depends on the
/// shape, the factor and the number of subdivisions alone. With one factor for
/// both axes the call never fails, so the unwrapping does not panic.
#[verifier::external_body]
pub(crate) fn scale_shape(shape: Shape, factor: u32, subdivisions: u32) -> (r: SharedShape)
    requires
        shape.wf(),
        is_number(factor),
    ensures
        r == scaled_shape(shape, factor, subdivisions),
{
    let collider = match shape {
        Shape::Ball { radius } => Collider::ball(Real::from_bits(radius)),
        Shape::Cuboid { half_x, half_y } => {
            Collider::cuboid(Real::from_bits(half_x), Real::from_bits(half_y))
        },
    };
    let by = Vec2::splat(Real::from_bits(factor));
    collider.as_unscaled_typed_shape().raw_scale_by(by, subdivisions).unwrap()
}

} // verus!
