use pegball::input::{Devices, GameAction, GameInput};
use pegball::path::{neighbor_indices, Neighbor, Neighbors};
use pegball::layout::{kind_for, plan_pegs, PegKind};
use pegball::peg::{
    CleanupStep, PegDespawnQueue, PEGS_COUNT, PEG_COLUMNS, PEG_ROWS, TARGET_PEGS_COUNT,
};
use pegball::units::Point;

fn idle() -> Devices {
    Devices {
        cursor: None,
        lock_just_pressed: false,
        move_pressed: false,
        move_just_pressed: false,
        shoot_pressed: false,
        shoot_just_pressed: false,
    }
}

#[test]
fn input_starts_unlocked_and_idle() {
    let input = GameInput::new();
    assert!(!input.is_locked());
    assert_eq!(input.cursor_position(), Point { x: 0, y: 0 });
    assert!(!input.active(GameAction::Shoot));
    assert!(!input.active(GameAction::MoveLauncher));
    assert!(!input.just_active(GameAction::Shoot));
    assert!(!input.just_active(GameAction::MoveLauncher));
}

#[test]
fn held_keys_are_active_actions() {
    let mut input = GameInput::new();
    input.update(&Devices { move_pressed: true, move_just_pressed: true, ..idle() });
    assert!(input.active(GameAction::MoveLauncher));
    assert!(input.just_active(GameAction::MoveLauncher));
    assert!(!input.active(GameAction::Shoot));
    assert!(!input.just_active(GameAction::Shoot));
    input.update(&Devices { move_pressed: true, shoot_pressed: true, shoot_just_pressed: true, ..idle() });
    assert!(input.active(GameAction::MoveLauncher));
    assert!(!input.just_active(GameAction::MoveLauncher));
    assert!(input.active(GameAction::Shoot));
    assert!(input.just_active(GameAction::Shoot));
    input.update(&idle());
    assert!(!input.active(GameAction::MoveLauncher));
    assert!(!input.active(GameAction::Shoot));
    assert!(!input.just_active(GameAction::Shoot));
}

#[test]
fn the_lock_key_turns_the_lock_over() {
    let mut input = GameInput::new();
    input.update(&Devices { lock_just_pressed: true, shoot_pressed: true, shoot_just_pressed: true, ..idle() });
    assert!(input.is_locked());
    assert!(!input.active(GameAction::Shoot));
    assert!(!input.just_active(GameAction::Shoot));
    input.update(&Devices { shoot_pressed: true, move_pressed: true, ..idle() });
    assert!(input.is_locked());
    assert!(!input.active(GameAction::Shoot));
    assert!(!input.active(GameAction::MoveLauncher));
    input.update(&Devices { lock_just_pressed: true, shoot_pressed: true, ..idle() });
    assert!(!input.is_locked());
    assert!(input.active(GameAction::Shoot));
    assert!(!input.just_active(GameAction::Shoot));
}

#[test]
fn the_cursor_follows_even_while_locked() {
    let mut input = GameInput::new();
    let first = Point { x: 3.5f32.to_bits(), y: (-2.0f32).to_bits() };
    let second = Point { x: 100.0f32.to_bits(), y: 7.0f32.to_bits() };
    input.update(&Devices { cursor: Some(first), ..idle() });
    assert_eq!(input.cursor_position(), first);
    input.update(&idle());
    assert_eq!(input.cursor_position(), first);
    input.update(&Devices { cursor: Some(second), lock_just_pressed: true, ..idle() });
    assert!(input.is_locked());
    assert_eq!(input.cursor_position(), second);
}

#[test]
fn an_open_path_is_continued_beyond_its_ends() {
    assert_eq!(
        neighbor_indices(4, false, 0),
        Some(Neighbors { before: Neighbor::Beyond, start: 0, end: 1, after: Neighbor::At(2) })
    );
    assert_eq!(
        neighbor_indices(4, false, 1),
        Some(Neighbors { before: Neighbor::At(0), start: 1, end: 2, after: Neighbor::At(3) })
    );
    assert_eq!(
        neighbor_indices(4, false, 2),
        Some(Neighbors { before: Neighbor::At(1), start: 2, end: 3, after: Neighbor::Beyond })
    );
    assert_eq!(
        neighbor_indices(2, false, 0),
        Some(Neighbors { before: Neighbor::Beyond, start: 0, end: 1, after: Neighbor::Beyond })
    );
}

#[test]
fn an_open_path_has_no_segment_at_its_last_point() {
    assert_eq!(neighbor_indices(4, false, 3), None);
    assert_eq!(neighbor_indices(4, false, 4), None);
    assert_eq!(neighbor_indices(4, false, usize::MAX), None);
    assert_eq!(neighbor_indices(1, false, 0), None);
}

#[test]
fn a_looped_path_wraps_around() {
    assert_eq!(
        neighbor_indices(4, true, 0),
        Some(Neighbors { before: Neighbor::At(3), start: 0, end: 1, after: Neighbor::At(2) })
    );
    assert_eq!(
        neighbor_indices(4, true, 2),
        Some(Neighbors { before: Neighbor::At(1), start: 2, end: 3, after: Neighbor::At(0) })
    );
    assert_eq!(
        neighbor_indices(4, true, 3),
        Some(Neighbors { before: Neighbor::At(2), start: 3, end: 0, after: Neighbor::At(1) })
    );
    assert_eq!(
        neighbor_indices(1, true, 0),
        Some(Neighbors { before: Neighbor::At(0), start: 0, end: 0, after: Neighbor::At(0) })
    );
    assert_eq!(
        neighbor_indices(2, true, 1),
        Some(Neighbors { before: Neighbor::At(0), start: 1, end: 0, after: Neighbor::At(1) })
    );
    assert_eq!(
        neighbor_indices(usize::MAX, true, usize::MAX - 1),
        Some(Neighbors {
            before: Neighbor::At(usize::MAX - 2),
            start: usize::MAX - 1,
            end: 0,
            after: Neighbor::At(1),
        })
    );
}

#[test]
fn an_empty_queue_ends_the_cleanup() {
    let mut queue = PegDespawnQueue::new();
    assert_eq!(queue.len(), 0);
    assert_eq!(queue.front(), None);
    assert_eq!(queue.cleanup_step(false, false), CleanupStep::Done);
    assert_eq!(queue.cleanup_step(true, true), CleanupStep::Done);
    assert_eq!(queue.len(), 0);
}

#[test]
fn hit_pegs_are_taken_away_first_hit_first() {
    let mut queue = PegDespawnQueue::new();
    queue.push_back(4);
    queue.push_back(9);
    queue.push_back(2);
    assert_eq!(queue.len(), 3);
    assert_eq!(queue.front(), Some(4));
    assert_eq!(queue.cleanup_step(true, false), CleanupStep::Swell { peg: 4, despawn: false });
    assert_eq!(queue.len(), 3);
    assert_eq!(queue.cleanup_step(true, true), CleanupStep::Swell { peg: 4, despawn: true });
    assert_eq!(queue.front(), Some(9));
    assert_eq!(queue.cleanup_step(true, true), CleanupStep::Swell { peg: 9, despawn: true });
    assert_eq!(queue.cleanup_step(true, true), CleanupStep::Swell { peg: 2, despawn: true });
    assert_eq!(queue.cleanup_step(true, true), CleanupStep::Done);
}

#[test]
fn pegs_that_are_gone_are_skipped() {
    let mut queue = PegDespawnQueue::new();
    queue.push_back(4);
    queue.push_back(9);
    assert_eq!(queue.cleanup_step(false, true), CleanupStep::Skipped);
    assert_eq!(queue.front(), Some(9));
    assert_eq!(queue.cleanup_step(false, false), CleanupStep::Skipped);
    assert_eq!(queue.front(), None);
    assert_eq!(queue.cleanup_step(false, false), CleanupStep::Done);
}

#[test]
fn a_layout_fills_the_grid() {
    for _ in 0..20 {
        let pegs = plan_pegs();
        assert_eq!(pegs.len(), PEGS_COUNT);
        let mut cells = std::collections::BTreeSet::new();
        for peg in pegs.iter() {
            assert!(peg.column < PEG_COLUMNS);
            assert!(peg.row < PEG_ROWS);
            assert!(cells.insert((peg.column, peg.row)));
        }
        assert_eq!(cells.len(), PEGS_COUNT);
    }
}

#[test]
fn the_first_pegs_of_a_layout_are_its_targets() {
    let pegs = plan_pegs();
    for (place, peg) in pegs.iter().enumerate() {
        assert_eq!(peg.is_target, place < TARGET_PEGS_COUNT);
    }
    assert_eq!(pegs.iter().filter(|peg| peg.is_target).count(), 13);
}

#[test]
fn layouts_are_left_to_chance() {
    let mut orders = std::collections::BTreeSet::new();
    let mut round = 0;
    let mut rect = 0;
    for _ in 0..20 {
        let pegs = plan_pegs();
        orders.insert(pegs.iter().map(|peg| (peg.column, peg.row)).collect::<Vec<_>>());
        round += pegs.iter().filter(|peg| peg.kind == PegKind::Round).count();
        rect += pegs.iter().filter(|peg| peg.kind == PegKind::Rect).count();
    }
    assert!(orders.len() > 1);
    assert!(round > 0);
    assert!(rect > 0);
    assert_eq!(round + rect, 20 * 105);
}

#[test]
fn the_first_of_two_draws_is_round() {
    assert_eq!(kind_for(Some(0)), PegKind::Round);
    assert_eq!(kind_for(Some(1)), PegKind::Rect);
    assert_eq!(kind_for(Some(usize::MAX)), PegKind::Rect);
    assert_eq!(kind_for(None), PegKind::Rect);
}
