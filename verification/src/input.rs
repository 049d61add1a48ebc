//! What the player asks for, frame by frame.
use vstd::prelude::*;
use bevy::utils::HashSet;
use crate::units::Point;

verus! {

/// What the player can ask for.
#[derive(Clone, Copy, Debug, PartialEq, Eq, Structural, Hash)]
pub enum GameAction {
    /// Launch the ball.
    Shoot,
    /// Let the launcher follow the cursor.
    MoveLauncher,
}

/// A set of actions: bevy's `HashSet` of them.
#[verifier::external_body]
pub struct ActionSet {
    inner: HashSet<GameAction>,
}

/// What the set holds.
pub uninterp spec fn actions(set: ActionSet) -> Set<GameAction>;

impl ActionSet {
    /// `HashSet::new`: a set that holds nothing.
    #[verifier::external_body]
    pub(crate) fn new() -> (r: ActionSet)
        ensures
            actions(r) == Set::<GameAction>::empty(),
    {
        ActionSet { inner: HashSet::new() }
    }

    /// `HashSet::clear`: the set holds nothing any more.
    #[verifier::external_body]
    pub(crate) fn clear(&mut self)
        ensures
            actions(*final(self)) == Set::<GameAction>::empty(),
    {
        self.inner.clear();
    }

    /// `HashSet::insert`: the set holds the action from now on.
    #[verifier::external_body]
    pub(crate) fn insert(&mut self, action: GameAction)
        ensures
            actions(*final(self)) == actions(*old(self)).insert(action),
    {
        self.inner.insert(action);
    }

    /// `HashSet::contains`: whether the set holds the action.
    #[verifier::external_body]
    pub(crate) fn contains(&self, action: GameAction) -> (r: bool)
        ensures
            r == actions(*self).contains(action),
    {
        self.inner.contains(&action)
    }
}

/// What the devices show in one frame.
#[derive(Clone, Copy, Debug)]
pub struct Devices {
    /// Where the cursor points in the world, if it moved and points into it.
    pub cursor: Option<Point>,
    /// The key that locks and unlocks the input went down in this frame.
    pub lock_just_pressed: bool,
    /// The key that moves the launcher is down.
    pub move_pressed: bool,
    /// The key that moves the launcher went down in this frame.
    pub move_just_pressed: bool,
    /// The button that shoots is down.
    pub shoot_pressed: bool,
    /// The button that shoots went down in this frame.
    pub shoot_just_pressed: bool,
}

/// The actions that are asked for while the key of one and the button of the
/// other are held as given.
pub open spec fn asked(move_launcher: bool, shoot: bool) -> Set<GameAction> {
    Set::new(
        |action: GameAction|
            match action {
                GameAction::MoveLauncher => move_launcher,
                GameAction::Shoot => shoot,
            },
    )
}

/// The state of the input.
pub struct GameInput {
    cursor_position: Point,
    lock_input: bool,
    active_actions: ActionSet,
    just_active_actions: ActionSet,
}

impl GameInput {
    /// Where the cursor last pointed in the world.
    pub closed spec fn cursor(&self) -> Point {
        self.cursor_position
    }

    /// Whether the input is locked: while it is, no action is asked for.
    pub closed spec fn locked(&self) -> bool {
        self.lock_input
    }

    /// The actions that are asked for in this frame.
    pub closed spec fn active_actions(&self) -> Set<GameAction> {
        actions(self.active_actions)
    }

    /// The actions that are asked for since this frame.
    pub closed spec fn just_active_actions(&self) -> Set<GameAction> {
        actions(self.just_active_actions)
    }

    /// The input before the first frame: unlocked, nothing asked for, the cursor at
    /// the origin.
    pub fn new() -> (r: GameInput)
        ensures
            !r.locked(),
            r.cursor() == (Point { x: 0, y: 0 }),
            r.active_actions() == Set::<GameAction>::empty(),
            r.just_active_actions() == Set::<GameAction>::empty(),
    {
        GameInput {
            cursor_position: Point { x: 0, y: 0 },
            lock_input: false,
            active_actions: ActionSet::new(),
            just_active_actions: ActionSet::new(),
        }
    }

    /// Whether the action is asked for in this frame.
    pub fn active(&self, action: GameAction) -> (r: bool)
        ensures
            r == self.active_actions().contains(action),
    {
        self.active_actions.contains(action)
    }

    /// Whether the action is asked for since this frame.
    pub fn just_active(&self, action: GameAction) -> (r: bool)
        ensures
            r == self.just_active_actions().contains(action),
    {
        self.just_active_actions.contains(action)
    }

    /// Where the cursor last pointed in the world.
    pub fn cursor_position(&self) -> (r: Point)
        ensures
            r == self.cursor(),
    {
        self.cursor_position
    }

    /// Whether the input is locked.
    pub fn is_locked(&self) -> (r: bool)
        ensures
            r == self.locked(),
    {
        self.lock_input
    }

    /// Takes one frame of the devices: the cursor follows where it moved, the
    /// lock key turns the lock over, and, unless the input is locked then, the
    /// actions are those whose key or button is held.
    pub fn update(&mut self, devices: &Devices)
        ensures
            final(self).cursor() == (match devices.cursor {
                Some(at) => at,
                None => old(self).cursor(),
            }),
            final(self).locked() == (old(self).locked() != devices.lock_just_pressed),
            final(self).active_actions() == (if final(self).locked() {
                Set::<GameAction>::empty()
            } else {
                asked(devices.move_pressed, devices.shoot_pressed)
            }),
            final(self).just_active_actions() == (if final(self).locked() {
                Set::<GameAction>::empty()
            } else {
                asked(devices.move_just_pressed, devices.shoot_just_pressed)
            }),
    {
        self.active_actions.clear();
        self.just_active_actions.clear();
        match devices.cursor {
            Some(at) => {
                self.cursor_position = at;
            },
            None => {},
        }
        if devices.lock_just_pressed {
            self.lock_input = !self.lock_input;
        }
        if self.lock_input {
            return ;
        }
        if devices.move_pressed {
            self.active_actions.insert(GameAction::MoveLauncher);
        }
        if devices.move_just_pressed {
            self.just_active_actions.insert(GameAction::MoveLauncher);
        }
        if devices.shoot_pressed {
            self.active_actions.insert(GameAction::Shoot);
        }
        if devices.shoot_just_pressed {
            self.just_active_actions.insert(GameAction::Shoot);
        }
        assert(final(self).active_actions() =~= asked(devices.move_pressed, devices.shoot_pressed));
        assert(final(self).just_active_actions() =~= asked(
            devices.move_just_pressed,
            devices.shoot_just_pressed,
        ));
    }
}

} // verus!
