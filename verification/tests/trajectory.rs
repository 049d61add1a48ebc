use pegball::shape::{CoefficientCombineRule, Restitution, Shape};
use pegball::sync::{sync_colliders_system, Added};
use pegball::units::{Point, Scale};
use pegball::world::{init_trajectory_world, TrajectoryWorld};

fn at(x: f32, y: f32) -> Point {
    Point { x: x.to_bits(), y: y.to_bits() }
}

fn x_of(point: &Point) -> f32 {
    f32::from_bits(point.x)
}

fn y_of(point: &Point) -> f32 {
    f32::from_bits(point.y)
}

fn ball() -> Shape {
    Shape::Ball { radius: 10.0f32.to_bits() }
}

fn square(half: f32) -> Shape {
    Shape::Cuboid { half_x: half.to_bits(), half_y: half.to_bits() }
}

fn bouncy() -> Restitution {
    Restitution { coefficient: 0.9f32.to_bits(), combine_rule: CoefficientCombineRule::Max }
}

fn dead() -> Restitution {
    Restitution { coefficient: 0.0f32.to_bits(), combine_rule: CoefficientCombineRule::Max }
}

fn world(gravity: Point) -> TrajectoryWorld {
    init_trajectory_world(Scale::new(100.0f32.to_bits()), 10, gravity)
}

#[test]
fn a_ball_flying_at_a_square_hits_it_once() {
    let mut world = world(at(0.0, 0.0));
    world.add_collider(1, square(20.0), at(200.0, 0.0));
    let (positions, contacts) =
        world.simulate_body_trajectory(at(0.0, 0.0), at(100.0, 0.0), ball(), &bouncy(), 1, 300);
    assert_eq!(contacts.len(), 1);
    let hit = x_of(&contacts[0]);
    assert!(hit > 200.0 - 20.0 - 10.0 - 3.0 && hit < 200.0, "hit at {}", hit);
    assert!(y_of(&contacts[0]).abs() < 0.001);
    assert!(positions.len() < 300);
    assert_eq!(positions.last(), contacts.last());
    for pair in positions.windows(2) {
        assert!(x_of(&pair[0]) < x_of(&pair[1]));
    }
    let first = x_of(&positions[0]);
    assert!((first - 100.0 / 60.0).abs() < 0.001, "first step to {}", first);
}

#[test]
fn a_ball_flying_away_from_nothing_uses_every_step() {
    let mut world = world(at(0.0, 0.0));
    let (positions, contacts) =
        world.simulate_body_trajectory(at(0.0, 0.0), at(0.0, 1000.0), ball(), &bouncy(), 1, 150);
    assert!(contacts.is_empty());
    assert_eq!(positions.len(), 150);
    let last = y_of(&positions[149]);
    assert!((last - 2500.0).abs() < 1.0, "ended at {}", last);
}

#[test]
fn gravity_pulls_the_ball_down() {
    let mut world = world(at(0.0, -500.0));
    let (positions, contacts) =
        world.simulate_body_trajectory(at(0.0, 0.0), at(0.0, 0.0), ball(), &bouncy(), 1, 60);
    assert!(contacts.is_empty());
    assert_eq!(positions.len(), 60);
    for pair in positions.windows(2) {
        assert!(y_of(&pair[0]) > y_of(&pair[1]));
    }
    let fallen = y_of(&positions[59]);
    assert!(fallen < -240.0 && fallen > -260.0, "fell to {}", fallen);
}

#[test]
fn the_step_budget_bounds_the_path() {
    let mut world = world(at(0.0, -500.0));
    world.add_collider(1, square(20.0), at(200.0, 0.0));
    for budget in [1usize, 2, 7, 40] {
        let (positions, contacts) = world.simulate_body_trajectory(
            at(0.0, 0.0),
            at(100.0, 0.0),
            ball(),
            &bouncy(),
            2,
            budget,
        );
        assert_eq!(positions.len(), budget);
        assert!(contacts.is_empty());
    }
}

#[test]
fn a_ball_at_rest_on_a_floor_is_one_hit() {
    let mut world = world(at(0.0, -500.0));
    world.add_collider(9, Shape::Cuboid { half_x: 500.0f32.to_bits(), half_y: 10.0f32.to_bits() }, at(0.0, -100.0));
    let (positions, contacts) =
        world.simulate_body_trajectory(at(0.0, -79.0), at(0.0, 0.0), ball(), &dead(), 2, 200);
    assert_eq!(positions.len(), 200);
    assert_eq!(contacts.len(), 1);
    let rest = y_of(&positions[199]);
    assert!((rest + 80.0).abs() < 2.0, "rests at {}", rest);
    let settled = positions.iter().filter(|p| (y_of(p) + 80.0).abs() < 2.0).count();
    assert!(settled >= 50, "in contact for {} steps", settled);
}

#[test]
fn two_obstacles_give_two_contact_points_in_order() {
    let mut world = world(at(0.0, 0.0));
    world.add_collider(1, square(20.0), at(200.0, 0.0));
    world.add_collider(2, square(20.0), at(-200.0, 0.0));
    let (positions, contacts) =
        world.simulate_body_trajectory(at(0.0, 0.0), at(300.0, 0.0), ball(), &bouncy(), 2, 600);
    assert_eq!(contacts.len(), 2);
    assert!(x_of(&contacts[0]) > 150.0);
    assert!(x_of(&contacts[1]) < -150.0);
    assert_eq!(positions.last(), contacts.last());
    assert!(positions.len() < 600);
}

#[test]
fn no_body_outlives_a_flight() {
    let mut world = world(at(0.0, -500.0));
    world.add_collider(1, square(20.0), at(200.0, 0.0));
    assert_eq!(world.body_count(), 0);
    world.simulate_body_trajectory(at(0.0, 0.0), at(100.0, 0.0), ball(), &bouncy(), 1, 300);
    assert_eq!(world.body_count(), 0);
    world.simulate_body_trajectory(at(0.0, 0.0), at(0.0, 1000.0), ball(), &bouncy(), 1, 20);
    assert_eq!(world.body_count(), 0);
    assert_eq!(world.len(), 1);
    assert!(world.contains(1));
}

#[test]
fn a_flight_leaves_no_trace_for_the_next() {
    let mut world = world(at(0.0, 0.0));
    world.add_collider(1, square(20.0), at(200.0, 0.0));
    let first =
        world.simulate_body_trajectory(at(0.0, 0.0), at(100.0, 0.0), ball(), &bouncy(), 1, 300);
    let second =
        world.simulate_body_trajectory(at(0.0, 0.0), at(100.0, 0.0), ball(), &bouncy(), 1, 300);
    assert_eq!(first, second);
    let away =
        world.simulate_body_trajectory(at(0.0, 0.0), at(-100.0, 0.0), ball(), &bouncy(), 1, 50);
    assert!(away.1.is_empty());
    assert_eq!(away.0.len(), 50);
}

#[test]
fn a_moved_obstacle_is_hit_where_it_now_stands() {
    let mut world = world(at(0.0, 0.0));
    world.add_collider(1, square(20.0), at(200.0, 0.0));
    world.move_collider(1, at(100.0, 0.0));
    let (_, contacts) =
        world.simulate_body_trajectory(at(0.0, 0.0), at(100.0, 0.0), ball(), &bouncy(), 1, 300);
    assert_eq!(contacts.len(), 1);
    let hit = x_of(&contacts[0]);
    assert!(hit > 100.0 - 20.0 - 10.0 - 3.0 && hit < 100.0, "hit at {}", hit);
    world.move_collider(1, at(200.0, 500.0));
    let (positions, contacts) =
        world.simulate_body_trajectory(at(0.0, 0.0), at(100.0, 0.0), ball(), &bouncy(), 1, 300);
    assert!(contacts.is_empty());
    assert_eq!(positions.len(), 300);
}

#[test]
fn a_reshaped_obstacle_is_hit_at_its_new_outline() {
    let mut world = world(at(0.0, 0.0));
    world.add_collider(1, square(20.0), at(200.0, 0.0));
    world.update_collider(1, square(80.0));
    let (_, contacts) =
        world.simulate_body_trajectory(at(0.0, 0.0), at(100.0, 0.0), ball(), &bouncy(), 1, 300);
    assert_eq!(contacts.len(), 1);
    let hit = x_of(&contacts[0]);
    assert!(hit > 200.0 - 80.0 - 10.0 - 3.0 && hit < 200.0 - 80.0, "hit at {}", hit);
    world.update_collider(1, Shape::Ball { radius: 50.0f32.to_bits() });
    let (_, contacts) =
        world.simulate_body_trajectory(at(0.0, 0.0), at(100.0, 0.0), ball(), &bouncy(), 1, 300);
    assert_eq!(contacts.len(), 1);
    let hit = x_of(&contacts[0]);
    assert!(hit > 200.0 - 50.0 - 10.0 - 3.0 && hit < 200.0 - 50.0, "hit at {}", hit);
}

#[test]
fn a_removed_obstacle_is_flown_through() {
    let mut world = world(at(0.0, 0.0));
    world.add_collider(1, square(20.0), at(200.0, 0.0));
    world.remove_collider(1);
    let (positions, contacts) =
        world.simulate_body_trajectory(at(0.0, 0.0), at(100.0, 0.0), ball(), &bouncy(), 1, 300);
    assert!(contacts.is_empty());
    assert_eq!(positions.len(), 300);
}

#[test]
fn the_size_of_the_ball_counts() {
    let mut world = world(at(0.0, 0.0));
    world.add_collider(1, square(20.0), at(200.0, 0.0));
    let big = Shape::Ball { radius: 60.0f32.to_bits() };
    let (_, contacts) =
        world.simulate_body_trajectory(at(0.0, 0.0), at(100.0, 0.0), big, &bouncy(), 1, 300);
    assert_eq!(contacts.len(), 1);
    let hit = x_of(&contacts[0]);
    assert!(hit > 200.0 - 20.0 - 60.0 - 3.0 && hit < 200.0 - 60.0, "hit at {}", hit);
}

#[test]
fn the_bounciness_of_the_ball_counts() {
    let mut lively = world(at(0.0, 0.0));
    lively.add_collider(1, square(20.0), at(200.0, 0.0));
    let (back, _) =
        lively.simulate_body_trajectory(at(0.0, 0.0), at(300.0, 0.0), ball(), &bouncy(), 2, 120);
    let mut dull = world(at(0.0, 0.0));
    dull.add_collider(1, square(20.0), at(200.0, 0.0));
    let (stuck, _) =
        dull.simulate_body_trajectory(at(0.0, 0.0), at(300.0, 0.0), ball(), &dead(), 2, 120);
    assert_eq!(back.len(), 120);
    assert_eq!(stuck.len(), 120);
    assert!(x_of(&back[119]) < 0.0, "bounced back to {}", x_of(&back[119]));
    assert!(x_of(&stuck[119]) > 150.0, "stayed at {}", x_of(&stuck[119]));
}

#[test]
fn the_synchronizer_feeds_the_simulator() {
    let mut world = world(at(0.0, 0.0));
    let added = vec![Added { entity: 5, translation: at(200.0, 0.0), shape: square(20.0) }];
    sync_colliders_system(&mut world, None, &vec![], &vec![], &added, &vec![]);
    let (_, contacts) =
        world.simulate_body_trajectory(at(0.0, 0.0), at(100.0, 0.0), ball(), &bouncy(), 1, 300);
    assert_eq!(contacts.len(), 1);
    sync_colliders_system(&mut world, None, &vec![], &vec![], &vec![], &vec![5]);
    let (_, contacts) =
        world.simulate_body_trajectory(at(0.0, 0.0), at(100.0, 0.0), ball(), &bouncy(), 1, 300);
    assert!(contacts.is_empty());
}

#[test]
fn a_flight_from_no_place_is_sampled_all_the_same() {
    let mut world = world(at(0.0, -500.0));
    world.add_collider(1, square(20.0), at(200.0, 0.0));
    let (positions, contacts) = world.simulate_body_trajectory(
        at(f32::NAN, 0.0),
        at(100.0, 0.0),
        ball(),
        &bouncy(),
        1,
        10,
    );
    assert_eq!(positions.len(), 10);
    assert!(contacts.is_empty());
    for position in positions.iter() {
        assert_eq!(position.x, pegball::units::NOT_A_NUMBER);
    }
    assert_eq!(world.body_count(), 0);
}

#[test]
fn obstacles_at_no_place_are_never_hit() {
    let mut world = world(at(0.0, 0.0));
    world.add_collider(1, square(20.0), at(f32::NAN, 0.0));
    world.add_collider(2, square(20.0), at(f32::INFINITY, 0.0));
    let (positions, contacts) =
        world.simulate_body_trajectory(at(0.0, 0.0), at(100.0, 0.0), ball(), &bouncy(), 1, 40);
    assert_eq!(positions.len(), 40);
    assert!(contacts.is_empty());
    assert_eq!(world.len(), 2);
}
