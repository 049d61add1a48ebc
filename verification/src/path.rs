//! Which points of a path shape the segment that starts at one of them.
use vstd::prelude::*;

verus! {

/// A neighbour of a segment on its far side.
#[derive(Clone, Copy, Debug, PartialEq, Eq, Structural)]
pub enum Neighbor {
    /// The point of the path with this index.
    At(usize),
    /// No point of the path: the segment is continued by one unit of length.
    Beyond,
}

/// The four points that shape a segment, by their indices: the one before it, its
/// start, its end, and the one after it.
#[derive(Clone, Copy, Debug, PartialEq, Eq, Structural)]
pub struct Neighbors {
    pub before: Neighbor,
    pub start: usize,
    pub end: usize,
    pub after: Neighbor,
}

/// The neighbours of the segment that starts at `point_idx` on a path of `len`
/// points. A looped path wraps around; an open path has no segment at its last
/// point, and is continued beyond its two ends.
pub open spec fn neighbors_of(len: int, looped: bool, point_idx: int) -> Option<Neighbors> {
    if !looped && point_idx >= len - 1 {
        None
    } else if looped {
        Some(
            Neighbors {
                before: Neighbor::At(
                    (if point_idx > 0 {
                        point_idx - 1
                    } else {
                        len - 1
                    }) as usize,
                ),
                start: point_idx as usize,
                end: ((point_idx + 1) % len) as usize,
                after: Neighbor::At(((point_idx + 2) % len) as usize),
            },
        )
    } else {
        Some(
            Neighbors {
                before: if point_idx > 0 {
                    Neighbor::At((point_idx - 1) as usize)
                } else {
                    Neighbor::Beyond
                },
                start: point_idx as usize,
                end: (point_idx + 1) as usize,
                after: if point_idx < len - 2 {
                    Neighbor::At((point_idx + 2) as usize)
                } else {
                    Neighbor::Beyond
                },
            },
        )
    }
}

/// Every index among the neighbours is an index of the path.
pub open spec fn neighbors_within(neighbors: Neighbors, len: int) -> bool {
    &&& neighbors.start < len
    &&& neighbors.end < len
    &&& match neighbors.before {
        Neighbor::At(index) => index < len,
        Neighbor::Beyond => true,
    }
    &&& match neighbors.after {
        Neighbor::At(index) => index < len,
        Neighbor::Beyond => true,
    }
}

/// The neighbours of the segment that starts at `point_idx`, if the path has such
/// a segment.
pub fn neighbor_indices(len: usize, looped: bool, point_idx: usize) -> (r: Option<Neighbors>)
    requires
        len > 0,
        looped ==> point_idx < len,
    ensures
        r == neighbors_of(len as int, looped, point_idx as int),
        r.is_some() ==> neighbors_within(r.unwrap(), len as int),
        r.is_none() == (!looped && point_idx >= len - 1),
{
    if !looped && point_idx >= len - 1 {
        return None;
    }
    let end = (point_idx + 1) % len;
    if looped {
        let before = if point_idx > 0 {
            point_idx - 1
        } else {
            len - 1
        };
        let after = (end + 1) % len;
        assert(after == (point_idx + 2) % (len as int)) by (nonlinear_arith)
            requires
                len > 0,
                point_idx < len,
                end == (point_idx + 1) % (len as int),
                after == (end + 1) % (len as int),
        {
            if point_idx + 1 < len {
                assert((point_idx + 1) % (len as int) == point_idx + 1);
            } else {
                assert((point_idx + 1) % (len as int) == 0);
                assert((point_idx + 2) % (len as int) == 1int % (len as int));
            }
        }
        Some(Neighbors { before: Neighbor::At(before), start: point_idx, end, after: Neighbor::At(after) })
    } else {
        assert(end == point_idx + 1) by (nonlinear_arith)
            requires
                point_idx + 1 < len,
                end == (point_idx + 1) % (len as int),
        ;
        let before = if point_idx > 0 {
            Neighbor::At(point_idx - 1)
        } else {
            Neighbor::Beyond
        };
        let after = if point_idx < len - 2 {
            Neighbor::At(point_idx + 2)
        } else {
            Neighbor::Beyond
        };
        Some(Neighbors { before, start: point_idx, end, after })
    }
}

} // verus!
