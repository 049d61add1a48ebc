//! How a level's pegs are laid out: one on every cell of the grid, each of a
//! kind chosen by chance, in an order left to chance, the first few being targets.
use vstd::prelude::*;
use crate::chance::choice_below;
use crate::peg::{PEGS_COUNT, PEG_COLUMNS, PEG_ROWS, TARGET_PEGS_COUNT};

verus! {

/// What a peg looks like.
#[derive(Clone, Copy, Debug, PartialEq, Eq, Structural)]
pub enum PegKind {
    Round,
    Rect,
}

/// One peg of a level.
#[derive(Clone, Copy, Debug, PartialEq, Eq, Structural)]
pub struct PegPlan {
    /// The column of its cell.
    pub column: usize,
    /// The row of its cell.
    pub row: usize,
    /// What it looks like.
    pub kind: PegKind,
    /// Whether it is one of the pegs to clear.
    pub is_target: bool,
}

/// A kind chosen by chance.
fn random_kind() -> (r: PegKind) {
    kind_for(choice_below(2))
}

/// The kind that a draw between two stands for: the first is round, the other
/// rectangular.
pub open spec fn kind_of(draw: Option<usize>) -> PegKind {
    if draw == Some(0usize) {
        PegKind::Round
    } else {
        PegKind::Rect
    }
}

/// The kind that a draw between two stands for.
pub fn kind_for(draw: Option<usize>) -> (r: PegKind)
    ensures
        r == kind_of(draw),
{
    match draw {
        Some(0) => PegKind::Round,
        _ => PegKind::Rect,
    }
}

/// fastrand's `shuffle`, which swaps items of the slice. Claimed: the pegs are the
/// same afterwards, each as often as before; of their order nothing is said.
#[verifier::external_body]
fn shuffle(pegs: &mut Vec<PegPlan>)
    ensures
        final(pegs)@.to_multiset() == old(pegs)@.to_multiset(),
{
    fastrand::shuffle(pegs.as_mut_slice());
}

/// One of the pegs stands on the cell.
pub open spec fn has_peg_on(pegs: Seq<PegPlan>, column: int, row: int) -> bool {
    exists|k: int|
        0 <= k < pegs.len() && (#[trigger] pegs[k]).column == column && pegs[k].row == row
}

/// The pegs fill the grid: as many as it has cells, each on a cell of the grid,
/// no two on one cell, and a peg on every cell.
pub open spec fn fills_grid(pegs: Seq<PegPlan>) -> bool {
    &&& pegs.len() == PEGS_COUNT
    &&& forall|k: int|
        0 <= k < pegs.len() ==> (#[trigger] pegs[k]).column < PEG_COLUMNS && pegs[k].row
            < PEG_ROWS
    &&& forall|a: int, b: int|
        0 <= a < pegs.len() && 0 <= b < pegs.len() && a != b ==> !((#[trigger] pegs[a]).column == (
        #[trigger] pegs[b]).column && pegs[a].row == pegs[b].row)
    &&& forall|column: int, row: int|
        0 <= column < PEG_COLUMNS && 0 <= row < PEG_ROWS ==> #[trigger] has_peg_on(
            pegs,
            column,
            row,
        )
}

/// The targets are the first `TARGET_PEGS_COUNT` pegs, and no others.
pub open spec fn targets_first(pegs: Seq<PegPlan>) -> bool {
    forall|k: int| 0 <= k < pegs.len() ==> (#[trigger] pegs[k]).is_target == (k < TARGET_PEGS_COUNT)
}

/// The pegs stand in the order of the grid, column by column, and none is a
/// target.
pub open spec fn in_grid_order(pegs: Seq<PegPlan>) -> bool {
    &&& pegs.len() == PEGS_COUNT
    &&& forall|a: int|
        0 <= a < pegs.len() ==> (#[trigger] pegs[a]).column == a / (PEG_ROWS as int) && pegs[a].row
            == a % (PEG_ROWS as int) && !pegs[a].is_target
}

/// Pegs that are the pegs of the grid in another order still fill the grid, and
/// none of them is a target.
pub proof fn lemma_shuffled_grid(grid: Seq<PegPlan>, shuffled: Seq<PegPlan>)
    requires
        in_grid_order(grid),
        shuffled.to_multiset() == grid.to_multiset(),
    ensures
        fills_grid(shuffled),
        forall|k: int| 0 <= k < shuffled.len() ==> !(#[trigger] shuffled[k]).is_target,
{
    assert(grid.no_duplicates()) by {
        assert forall|a: int, b: int|
            0 <= a < grid.len() && 0 <= b < grid.len() && a != b implies grid[a] != grid[b] by {
            assert(grid[a].column != grid[b].column || grid[a].row != grid[b].row);
        }
    }
    grid.lemma_multiset_has_no_duplicates();
    shuffled.lemma_multiset_has_no_duplicates_conv();
    grid.to_multiset_ensures();
    shuffled.to_multiset_ensures();
    assert forall|k: int| 0 <= k < shuffled.len() implies grid.contains(#[trigger] shuffled[k]) by {
        assert(shuffled.contains(shuffled[k]));
        assert(shuffled.to_multiset().count(shuffled[k]) > 0);
    }
    assert forall|k: int| 0 <= k < shuffled.len() implies (#[trigger] shuffled[k]).column
        < PEG_COLUMNS && shuffled[k].row < PEG_ROWS && !shuffled[k].is_target by {
        assert(grid.contains(shuffled[k]));
        let a = choose|a: int| 0 <= a < grid.len() && grid[a] == shuffled[k];
        assert(grid[a].column == a / (PEG_ROWS as int));
    }
    assert forall|a: int, b: int|
        0 <= a < shuffled.len() && 0 <= b < shuffled.len() && a != b implies !((
    #[trigger] shuffled[a]).column == (#[trigger] shuffled[b]).column && shuffled[a].row
        == shuffled[b].row) by {
        assert(grid.contains(shuffled[a]));
        assert(grid.contains(shuffled[b]));
        let i = choose|i: int| 0 <= i < grid.len() && grid[i] == shuffled[a];
        let j = choose|j: int| 0 <= j < grid.len() && grid[j] == shuffled[b];
        if shuffled[a].column == shuffled[b].column && shuffled[a].row == shuffled[b].row {
            assert(grid[i].column == i / (PEG_ROWS as int) && grid[i].row == i % (PEG_ROWS as int));
            assert(grid[j].column == j / (PEG_ROWS as int) && grid[j].row == j % (PEG_ROWS as int));
            assert(i == j);
            assert(shuffled[a] == shuffled[b]);
        }
    }
    assert forall|column: int, row: int|
        0 <= column < PEG_COLUMNS && 0 <= row < PEG_ROWS implies #[trigger] has_peg_on(
        shuffled,
        column,
        row,
    ) by {
        let a = column * (PEG_ROWS as int) + row;
        assert(grid[a].column == column && grid[a].row == row);
        assert(grid.contains(grid[a]));
        assert(grid.to_multiset().count(grid[a]) > 0);
        assert(shuffled.contains(grid[a]));
        let k = choose|k: int| 0 <= k < shuffled.len() && shuffled[k] == grid[a];
        assert(shuffled[k].column == column && shuffled[k].row == row);
    }
}

/// Lays out the pegs of a level: a peg of a kind chosen by chance for every cell
/// of the grid, in an order left to chance, the first `TARGET_PEGS_COUNT` of them
/// being the targets.
pub fn plan_pegs() -> (r: Vec<PegPlan>)
    ensures
        fills_grid(r@),
        targets_first(r@),
{
    let mut pegs: Vec<PegPlan> = Vec::with_capacity(PEGS_COUNT);
    let mut place: usize = 0;
    while place < PEGS_COUNT
        invariant
            place <= PEGS_COUNT,
            pegs@.len() == place,
            forall|a: int|
                0 <= a < place ==> (#[trigger] pegs@[a]).column == a / (PEG_ROWS as int)
                    && pegs@[a].row == a % (PEG_ROWS as int) && !pegs@[a].is_target,
        decreases PEGS_COUNT - place,
    {
        pegs.push(
            PegPlan {
                column: place / PEG_ROWS,
                row: place % PEG_ROWS,
                kind: random_kind(),
                is_target: false,
            },
        );
        place = place + 1;
    }
    let ghost grid = pegs@;
    shuffle(&mut pegs);
    let ghost shuffled = pegs@;
    proof {
        lemma_shuffled_grid(grid, shuffled);
    }
    let mut marked: usize = 0;
    while marked < TARGET_PEGS_COUNT
        invariant
            marked <= TARGET_PEGS_COUNT,
            pegs@.len() == PEGS_COUNT,
            shuffled.len() == PEGS_COUNT,
            forall|k: int|
                0 <= k < pegs@.len() ==> (#[trigger] pegs@[k]).column == shuffled[k].column
                    && pegs@[k].row == shuffled[k].row && pegs@[k].is_target == (k < marked),
        decreases TARGET_PEGS_COUNT - marked,
    {
        let peg = pegs[marked];
        pegs.set(
            marked,
            PegPlan { column: peg.column, row: peg.row, kind: peg.kind, is_target: true },
        );
        marked = marked + 1;
    }
    proof {
        assert forall|column: int, row: int|
            0 <= column < PEG_COLUMNS && 0 <= row < PEG_ROWS implies #[trigger] has_peg_on(
            pegs@,
            column,
            row,
        ) by {
            assert(has_peg_on(shuffled, column, row));
            let k = choose|k: int|
                0 <= k < shuffled.len() && (#[trigger] shuffled[k]).column == column
                    && shuffled[k].row == row;
            assert(pegs@[k].column == column && pegs@[k].row == row);
        }
        assert forall|a: int, b: int|
            0 <= a < pegs@.len() && 0 <= b < pegs@.len() && a != b implies !((
        #[trigger] pegs@[a]).column == (#[trigger] pegs@[b]).column && pegs@[a].row
            == pegs@[b].row) by {
            assert(!(shuffled[a].column == shuffled[b].column && shuffled[a].row
                == shuffled[b].row));
        }
    }
    pegs
}

} // verus!
