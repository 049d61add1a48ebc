//! The pegs: how many there are, which are targets, and when one counts as hit.
use vstd::prelude::*;
use std::collections::VecDeque;

verus! {

/// How many columns of pegs the level has.
pub const PEG_COLUMNS: usize = 15;

/// How many rows of pegs the level has.
pub const PEG_ROWS: usize = 7;

/// How many pegs the level has.
pub const PEGS_COUNT: usize = PEG_COLUMNS * PEG_ROWS;

/// How many of them are targets: an eighth, rounded down.
pub const TARGET_PEGS_COUNT: usize = PEGS_COUNT / 8;

/// Whether a peg was hit in the round that is played.
#[derive(Clone, Copy, Debug, PartialEq, Eq, Structural, Hash)]
pub enum PegState {
    Active,
    Hit,
}

impl Default for PegState {
    /// A peg starts out active.
    fn default() -> (r: PegState)
        ensures
            r == PegState::Active,
    {
        PegState::Active
    }
}

/// One of the two entities of a collision.
#[derive(Clone, Copy, Debug, PartialEq, Eq, Structural)]
pub enum Side {
    First,
    Second,
}

/// The peg of the level that stands in column `column` and row `row`, in steps of
/// the grid: columns run from seven steps right of the middle to seven steps left,
/// rows from one step below the launcher downwards.
pub open spec fn grid_cell(column: usize, row: usize) -> (int, int) {
    (7 - column, -(row + 1))
}

/// The place of a peg on the grid, in steps of the grid.
pub fn peg_cell(column: usize, row: usize) -> (r: (i32, i32))
    requires
        column < PEG_COLUMNS,
        row < PEG_ROWS,
    ensures
        (r.0 as int, r.1 as int) == grid_cell(column, row),
        -7 <= r.0 <= 7,
        -7 <= r.1 <= -1,
{
    let across: i32 = 7 - column as i32;
    let down: i32 = -(row as i32 + 1);
    (across, down)
}

/// The peg that a collision strikes. Each side is given by the state of its peg,
/// if it is a peg. The first side counts if it is a peg, else the second; a peg
/// that was hit before is not struck again.
pub open spec fn struck(first: Option<PegState>, second: Option<PegState>) -> Option<Side> {
    match first {
        Some(PegState::Active) => Some(Side::First),
        Some(PegState::Hit) => None,
        None => match second {
            Some(PegState::Active) => Some(Side::Second),
            _ => None,
        },
    }
}

/// Which side of a collision is a peg that is struck now, if any.
pub fn struck_peg(first: Option<PegState>, second: Option<PegState>) -> (r: Option<Side>)
    ensures
        r == struck(first, second),
{
    let (side, state) = match first {
        Some(state) => (Side::First, state),
        None => match second {
            Some(state) => (Side::Second, state),
            None => {
                return None;
            },
        },
    };
    match state {
        PegState::Hit => None,
        PegState::Active => Some(side),
    }
}

/// What is to be done about the pegs that wait to be taken away.
#[derive(Clone, Copy, Debug, PartialEq, Eq, Structural)]
pub enum CleanupStep {
    /// No peg waits: the round goes back to the launcher.
    Done,
    /// The first peg that waited is gone already and waits no longer: look again.
    Skipped,
    /// The first peg that waits swells, and where `despawn` is set it is taken
    /// away and waits no longer.
    Swell { peg: u64, despawn: bool },
}

/// The pegs that were hit and wait to be taken away, first hit first.
pub struct PegDespawnQueue {
    waiting: VecDeque<u64>,
}

impl View for PegDespawnQueue {
    type V = Seq<u64>;

    closed spec fn view(&self) -> Seq<u64> {
        self.waiting@
    }
}

/// What one look at the queue does: the step to take and the pegs that wait
/// afterwards.
pub open spec fn cleanup(waiting: Seq<u64>, front_exists: bool, timer_just_finished: bool) -> (
    CleanupStep,
    Seq<u64>,
) {
    if waiting.len() == 0 {
        (CleanupStep::Done, waiting)
    } else if !front_exists {
        (CleanupStep::Skipped, waiting.skip(1))
    } else if timer_just_finished {
        (CleanupStep::Swell { peg: waiting[0], despawn: true }, waiting.skip(1))
    } else {
        (CleanupStep::Swell { peg: waiting[0], despawn: false }, waiting)
    }
}

impl PegDespawnQueue {
    /// A queue in which no peg waits.
    pub fn new() -> (r: PegDespawnQueue)
        ensures
            r@ == Seq::<u64>::empty(),
    {
        PegDespawnQueue { waiting: VecDeque::new() }
    }

    /// How many pegs wait.
    pub fn len(&self) -> (r: usize)
        ensures
            r == self@.len(),
    {
        self.waiting.len()
    }

    /// The peg that waits first, if one waits.
    pub fn front(&self) -> (r: Option<u64>)
        ensures
            r == (if self@.len() > 0 {
                Some(self@[0])
            } else {
                None
            }),
    {
        if self.waiting.len() > 0 {
            Some(self.waiting[0])
        } else {
            None
        }
    }

    /// A peg that was hit waits last.
    pub fn push_back(&mut self, peg: u64)
        ensures
            final(self)@ == old(self)@.push(peg),
    {
        self.waiting.push_back(peg);
    }

    /// One look at the queue while the hit pegs are taken away. `front_exists`
    /// says whether the peg that waits first is still there; `timer_just_finished`
    /// says whether the time of a peg's swelling has run out.
    pub fn cleanup_step(&mut self, front_exists: bool, timer_just_finished: bool) -> (r:
        CleanupStep)
        ensures
            (r, final(self)@) == cleanup(old(self)@, front_exists, timer_just_finished),
    {
        if self.waiting.len() == 0 {
            return CleanupStep::Done;
        }
        let peg = self.waiting[0];
        if !front_exists {
            self.waiting.pop_front();
            assert(final(self)@ =~= old(self)@.skip(1));
            return CleanupStep::Skipped;
        }
        if timer_just_finished {
            self.waiting.pop_front();
            assert(final(self)@ =~= old(self)@.skip(1));
        }
        CleanupStep::Swell { peg, despawn: timer_just_finished }
    }
}

} // verus!
