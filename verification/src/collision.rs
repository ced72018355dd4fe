//! The collision detector: wall and self-intersection checks.

use vstd::prelude::*;

use crate::body::contains_cell;
use crate::grid::Grid;
use crate::grid::Pos;

verus! {

/// What a candidate head position runs into.
#[derive(Clone, Copy, PartialEq, Eq, Structural, Debug)]
pub enum CollisionKind {
    NoCollision,
    Wall,
    SelfCollision,
}

/// `Wall` when the candidate head leaves the board, `SelfCollision` when it
/// lands on a cell of `body` — the body as it stands after the tail has
/// conditionally popped for this tick — and `NoCollision` otherwise.
pub open spec fn spec_check(new_head: Pos, body: Seq<Pos>, g: Grid) -> CollisionKind {
    if !g.spec_contains(new_head) {
        CollisionKind::Wall
    } else if body.contains(new_head) {
        CollisionKind::SelfCollision
    } else {
        CollisionKind::NoCollision
    }
}

pub fn check(new_head: Pos, body: &Vec<Pos>, g: &Grid) -> (r: CollisionKind)
    ensures
        r == spec_check(new_head, body@, *g),
{
    if !g.contains(new_head) {
        CollisionKind::Wall
    } else if contains_cell(body, new_head) {
        CollisionKind::SelfCollision
    } else {
        CollisionKind::NoCollision
    }
}

} // verus!
