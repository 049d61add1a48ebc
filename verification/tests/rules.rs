use pegball::aim::{
    player_ball_restitution, player_ball_shape, predict_launch, AIM_MAX_COLLISIONS, AIM_MAX_POINTS,
    PIXELS_PER_METER, PLAYER_BALL_RADIUS, PLAYER_BALL_RESTITUTION,
};
use pegball::common::{GameState, GameStats, InGameState};
use pegball::peg::{
    peg_cell, struck_peg, PegState, Side, PEGS_COUNT, PEG_COLUMNS, PEG_ROWS, TARGET_PEGS_COUNT,
};
use pegball::shape::{CoefficientCombineRule, Restitution, Shape};
use pegball::sounds::{collision_sounds, sound_to_play, Playback, SoundType};
use pegball::units::{Point, Scale};
use pegball::world::init_trajectory_world;

fn place(x: f32, y: f32) -> Point {
    Point { x: x.to_bits(), y: y.to_bits() }
}

#[test]
fn every_screen_leads_into_the_game() {
    assert_eq!(GameState::LoadingAssets.next(), GameState::InGame);
    assert_eq!(GameState::Menu.next(), GameState::InGame);
    assert_eq!(GameState::InGame.next(), GameState::InGame);
}

#[test]
fn the_game_starts_loading_and_a_round_starts_aiming() {
    assert_eq!(GameState::default(), GameState::LoadingAssets);
    assert_eq!(InGameState::default(), InGameState::Launcher);
}

#[test]
fn the_score_starts_at_zero_with_twenty_targets() {
    let stats = GameStats::default();
    assert_eq!(stats.player_score, 0);
    assert_eq!(stats.target_pegs_left, 20);
}

#[test]
fn a_popped_peg_scores_one() {
    let mut stats = GameStats::default();
    stats.peg_popped();
    stats.peg_popped();
    stats.peg_popped();
    assert_eq!(stats, GameStats { player_score: 3, target_pegs_left: 20 });
}

#[test]
fn the_sound_of_the_higher_priority_is_heard() {
    assert_eq!(collision_sounds(Some(2), Some(1)), (true, false));
    assert_eq!(collision_sounds(Some(-5), Some(0)), (false, true));
    assert_eq!(collision_sounds(Some(i32::MIN), Some(i32::MAX)), (false, true));
}

#[test]
fn sounds_of_equal_priority_are_both_heard() {
    assert_eq!(collision_sounds(Some(0), Some(0)), (true, true));
    assert_eq!(collision_sounds(Some(7), Some(7)), (true, true));
}

#[test]
fn a_lone_sound_is_heard_and_silence_stays_silent() {
    assert_eq!(collision_sounds(Some(-9), None), (true, false));
    assert_eq!(collision_sounds(None, Some(-9)), (false, true));
    assert_eq!(collision_sounds(None, None), (false, false));
}

#[test]
fn the_pegs_fill_the_grid() {
    assert_eq!(PEGS_COUNT, PEG_COLUMNS * PEG_ROWS);
    assert_eq!(PEGS_COUNT, 105);
    assert_eq!(TARGET_PEGS_COUNT, PEGS_COUNT / 8);
    assert_eq!(TARGET_PEGS_COUNT, 13);
    assert_eq!(peg_cell(0, 0), (7, -1));
    assert_eq!(peg_cell(7, 3), (0, -4));
    assert_eq!(peg_cell(14, 6), (-7, -7));
    let mut seen = std::collections::BTreeSet::new();
    for column in 0..PEG_COLUMNS {
        for row in 0..PEG_ROWS {
            assert!(seen.insert(peg_cell(column, row)));
        }
    }
    assert_eq!(seen.len(), PEGS_COUNT);
}

#[test]
fn an_active_peg_is_struck() {
    assert_eq!(PegState::default(), PegState::Active);
    assert_eq!(struck_peg(Some(PegState::Active), None), Some(Side::First));
    assert_eq!(struck_peg(None, Some(PegState::Active)), Some(Side::Second));
    assert_eq!(struck_peg(Some(PegState::Active), Some(PegState::Active)), Some(Side::First));
    assert_eq!(struck_peg(Some(PegState::Active), Some(PegState::Hit)), Some(Side::First));
}

#[test]
fn a_hit_peg_is_not_struck_again() {
    assert_eq!(struck_peg(Some(PegState::Hit), None), None);
    assert_eq!(struck_peg(None, Some(PegState::Hit)), None);
    assert_eq!(struck_peg(Some(PegState::Hit), Some(PegState::Active)), None);
    assert_eq!(struck_peg(None, None), None);
}

#[test]
fn the_aim_constants_are_the_games() {
    assert_eq!(f32::from_bits(PLAYER_BALL_RADIUS), 10.0);
    assert_eq!(f32::from_bits(PLAYER_BALL_RESTITUTION), 0.9);
    assert_eq!(f32::from_bits(PIXELS_PER_METER), 100.0);
    assert_eq!(AIM_MAX_COLLISIONS, 1);
    assert_eq!(AIM_MAX_POINTS, 200);
    assert_eq!(player_ball_shape(), Shape::Ball { radius: 10.0f32.to_bits() });
    assert_eq!(
        player_ball_restitution(),
        Restitution { coefficient: 0.9f32.to_bits(), combine_rule: CoefficientCombineRule::Max }
    );
}

#[test]
fn the_aim_assist_stops_at_the_first_obstacle() {
    let scale = Scale::checked(PIXELS_PER_METER).unwrap();
    let mut world = init_trajectory_world(scale, 10, place(0.0, -500.0));
    world.add_collider(
        1,
        Shape::Cuboid { half_x: 500.0f32.to_bits(), half_y: 10.0f32.to_bits() },
        place(0.0, -300.0),
    );
    let (path, impacts) = predict_launch(&mut world, place(0.0, 150.0), place(0.0, -500.0));
    assert_eq!(impacts.len(), 1);
    assert!(path.len() < AIM_MAX_POINTS);
    assert_eq!(path.last(), impacts.last());
    let impact = f32::from_bits(impacts[0].y);
    assert!(impact < -270.0 && impact > -290.0, "impact at {}", impact);
    assert_eq!(world.body_count(), 0);
}

#[test]
fn the_aim_assist_looks_two_hundred_steps_ahead() {
    let scale = Scale::checked(PIXELS_PER_METER).unwrap();
    let mut world = init_trajectory_world(scale, 10, place(0.0, -500.0));
    let (path, impacts) = predict_launch(&mut world, place(0.0, 150.0), place(500.0, 0.0));
    assert!(impacts.is_empty());
    assert_eq!(path.len(), 200);
    for pair in path.windows(2) {
        assert!(f32::from_bits(pair[0].x) < f32::from_bits(pair[1].x));
        assert!(f32::from_bits(pair[0].y) > f32::from_bits(pair[1].y));
    }
}

#[test]
fn silence_plays_nothing_and_a_single_sound_plays_as_it_is() {
    assert_eq!(sound_to_play(SoundType::Silent), None);
    assert_eq!(sound_to_play(SoundType::Random(0)), None);
    assert_eq!(sound_to_play(SoundType::Single), Some(Playback { index: 0, with_volume: false }));
    assert_eq!(sound_to_play(SoundType::Random(1)), Some(Playback { index: 0, with_volume: true }));
}

#[test]
fn one_of_several_sounds_is_played_at_the_entitys_volume() {
    let mut seen = [false; 5];
    for _ in 0..400 {
        let playback = sound_to_play(SoundType::Random(5)).unwrap();
        assert!(playback.index < 5);
        assert!(playback.with_volume);
        seen[playback.index] = true;
    }
    assert_eq!(seen, [true; 5]);
}
