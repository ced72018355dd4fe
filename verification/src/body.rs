//! The snake body: an ordered sequence of cells, head first, with the
//! well-formedness notions the simulation relies on.

use vstd::prelude::*;

use crate::grid::Grid;
use crate::grid::Pos;
use crate::grid::adjacent;

verus! {

/// No cell appears twice.
pub open spec fn distinct_cells(s: Seq<Pos>) -> bool {
    forall|i: int, j: int| 0 <= i < j < s.len() ==> s[i] != s[j]
}

/// Every cell lies on the board.
pub open spec fn cells_in_grid(s: Seq<Pos>, g: Grid) -> bool {
    forall|i: int| 0 <= i < s.len() ==> g.spec_contains(#[trigger] s[i])
}

/// Consecutive cells are one unit apart.
pub open spec fn cells_adjacent(s: Seq<Pos>) -> bool {
    forall|i: int| #![trigger s[i], s[i + 1]] 0 <= i < s.len() - 1 ==> adjacent(s[i], s[i + 1])
}

/// Whether the body occupies `p`.
pub fn contains_cell(body: &Vec<Pos>, p: Pos) -> (r: bool)
    ensures
        r == body@.contains(p),
{
    let n = body.len();
    let mut i: usize = 0;
    while i < n
        invariant
            n == body@.len(),
            i <= n,
            forall|j: int| 0 <= j < i ==> body@[j] != p,
        decreases n - i,
    {
        if body[i] == p {
            return true;
        }
        i = i + 1;
    }
    false
}

/// A move onto the cell the tail is vacating in the same tick is never a
/// self collision: once the tail is popped, the target cell is no longer in
/// the body.
pub proof fn lemma_vacated_tail_is_free(s: Seq<Pos>, p: Pos)
    requires
        distinct_cells(s),
        s.len() >= 1,
        p == s.last(),
    ensures
        !s.drop_last().contains(p),
{
    if s.drop_last().contains(p) {
        let j = choose|j: int| 0 <= j < s.drop_last().len() && s.drop_last()[j] == p;
        assert(s[j] == s[s.len() - 1]);
    }
}

} // verus!
