//! The aim assist: the flight that the launcher would start right now.
use vstd::prelude::*;
use crate::shape::{CoefficientCombineRule, Restitution, Shape};
use crate::units::Point;
use crate::world::{is_flight, TrajectoryWorld};

verus! {

/// The radius of the player's ball, `10.0` render units.
pub const PLAYER_BALL_RADIUS: u32 = 0x4120_0000;

/// The restitution coefficient of the player's ball, `0.9`.
pub const PLAYER_BALL_RESTITUTION: u32 = 0x3f66_6666;

/// How many render units make one physics unit, `100.0`.
pub const PIXELS_PER_METER: u32 = 0x42c8_0000;

/// The aim assist shows the path up to the first obstacle.
pub const AIM_MAX_COLLISIONS: usize = 1;

/// The aim assist looks this many steps ahead at most.
pub const AIM_MAX_POINTS: usize = 200;

/// The shape of the player's ball.
pub fn player_ball_shape() -> (r: Shape)
    ensures
        r == (Shape::Ball { radius: PLAYER_BALL_RADIUS }),
        r.wf(),
{
    Shape::Ball { radius: PLAYER_BALL_RADIUS }
}

/// How the player's ball bounces: nearly all the way back, and by the larger of
/// the two coefficients where it touches something.
pub fn player_ball_restitution() -> (r: Restitution)
    ensures
        r == (Restitution {
            coefficient: PLAYER_BALL_RESTITUTION,
            combine_rule: CoefficientCombineRule::Max,
        }),
{
    Restitution { coefficient: PLAYER_BALL_RESTITUTION, combine_rule: CoefficientCombineRule::Max }
}

/// The flight of the player's ball from the launcher with the launcher's impulse
/// as its velocity, up to the first obstacle and `AIM_MAX_POINTS` steps ahead:
/// the path to draw and the point of impact to mark, if there is one.
pub fn predict_launch(world: &mut TrajectoryWorld, launcher: Point, impulse: Point) -> (r: (
    Vec<Point>,
    Vec<Point>,
))
    requires
        old(world).wf(),
    ensures
        final(world).wf(),
        final(world).same_setup(old(world)),
        final(world).mirror() == old(world).mirror(),
        final(world).bodies() == old(world).bodies(),
        is_flight(r.0@, r.1@, AIM_MAX_COLLISIONS as nat, AIM_MAX_POINTS as nat),
        1 <= r.0@.len() <= AIM_MAX_POINTS,
        r.1@.len() <= 1,
        r.1@.len() == 0 ==> r.0@.len() == AIM_MAX_POINTS,
        r.1@.len() == 1 ==> r.0@.last() == r.1@[0],
{
    let shape = player_ball_shape();
    let restitution = player_ball_restitution();
    world.simulate_body_trajectory(
        launcher,
        impulse,
        shape,
        &restitution,
        AIM_MAX_COLLISIONS,
        AIM_MAX_POINTS,
    )
}

} // verus!
