//! The apple set: a boolean occupancy table over the grid, with a verified
//! count and free-cell enumeration for the spawner.

use vstd::prelude::*;
use vstd::pervasive::VecAdditionalExecFns;

use crate::body::contains_cell;
use crate::body::distinct_cells;
use crate::grid::Grid;
use crate::grid::Pos;
use crate::grid::lemma_index_in_area;
use crate::grid::lemma_index_injective;

verus! {

/// How many entries of a boolean table are set.
pub open spec fn count_true(s: Seq<bool>) -> int
    decreases s.len(),
{
    if s.len() == 0 {
        0
    } else {
        count_true(s.drop_last()) + if s.last() {
            1int
        } else {
            0int
        }
    }
}

pub proof fn lemma_count_true_bounds(s: Seq<bool>)
    ensures
        0 <= count_true(s) <= s.len(),
    decreases s.len(),
{
    if s.len() > 0 {
        lemma_count_true_bounds(s.drop_last());
    }
}

/// Flipping one entry moves the count by the difference of the two bits.
pub proof fn lemma_count_true_update(s: Seq<bool>, i: int, v: bool)
    requires
        0 <= i < s.len(),
    ensures
        count_true(s.update(i, v)) == count_true(s) - (if s[i] {
            1int
        } else {
            0int
        }) + (if v {
            1int
        } else {
            0int
        }),
    decreases s.len(),
{
    let t = s.update(i, v);
    if i == s.len() - 1 {
        assert(t.drop_last() =~= s.drop_last());
    } else {
        assert(t.drop_last() =~= s.drop_last().update(i, v));
        lemma_count_true_update(s.drop_last(), i, v);
    }
}

pub proof fn lemma_count_true_all_false(s: Seq<bool>)
    requires
        forall|i: int| 0 <= i < s.len() ==> !s[i],
    ensures
        count_true(s) == 0,
    decreases s.len(),
{
    if s.len() > 0 {
        lemma_count_true_all_false(s.drop_last());
    }
}

proof fn lemma_count_true_take_step(s: Seq<bool>, i: int)
    requires
        0 <= i < s.len(),
    ensures
        count_true(s.take(i + 1)) == count_true(s.take(i)) + if s[i] {
            1int
        } else {
            0int
        },
{
    assert(s.take(i + 1).drop_last() =~= s.take(i));
}

/// The "has apple" occupancy table, one boolean per grid cell in row-major
/// order. Mutated by the spawner (place) and the tick engine (remove).
#[derive(Debug)]
pub struct AppleSet {
    pub cells: Vec<bool>,
}

impl AppleSet {
    /// The table covers the whole grid.
    pub open spec fn wf(self, g: Grid) -> bool {
        g.wf() && self.cells@.len() == g.spec_area()
    }

    /// Whether the in-bounds cell `p` holds an apple.
    pub open spec fn spec_has(self, g: Grid, p: Pos) -> bool {
        self.cells@[g.spec_index_of(p)]
    }

    /// The number of apples on the board.
    pub open spec fn spec_count(self) -> int {
        count_true(self.cells@)
    }

    /// An apple-less board over the whole grid.
    pub fn empty(g: Grid) -> (a: AppleSet)
        requires
            g.wf(),
        ensures
            a.wf(g),
            a.spec_count() == 0,
            forall|i: int| 0 <= i < a.cells@.len() ==> !a.cells@[i],
    {
        let n = g.area();
        let mut cells: Vec<bool> = Vec::new();
        let mut k: usize = 0;
        while k < n
            invariant
                k == cells@.len() <= n,
                forall|i: int| 0 <= i < cells@.len() ==> !cells@[i],
            decreases n - k,
        {
            cells.push(false);
            k = k + 1;
        }
        proof {
            lemma_count_true_all_false(cells@);
        }
        AppleSet { cells }
    }

    pub fn has(&self, g: Grid, p: Pos) -> (r: bool)
        requires
            self.wf(g),
            g.spec_contains(p),
        ensures
            r == self.spec_has(g, p),
    {
        let i = g.index_of(p);
        self.cells[i]
    }

    /// Mark a free cell as holding an apple.
    pub fn place(&mut self, g: Grid, p: Pos)
        requires
            old(self).wf(g),
            g.spec_contains(p),
            !old(self).spec_has(g, p),
        ensures
            final(self).wf(g),
            final(self).cells@ == old(self).cells@.update(g.spec_index_of(p), true),
            final(self).spec_count() == old(self).spec_count() + 1,
            forall|q: Pos|
                g.spec_contains(q) ==> final(self).spec_has(g, q) == (old(self).spec_has(g, q)
                    || q == p),
    {
        let i = g.index_of(p);
        proof {
            lemma_count_true_update(self.cells@, i as int, true);
        }
        self.cells.set(i, true);
        proof {
            assert forall|q: Pos| g.spec_contains(q) implies self.spec_has(g, q) == (old(
                self,
            ).spec_has(g, q) || q == p) by {
                lemma_index_in_area(g, q);
                if g.spec_index_of(q) == g.spec_index_of(p) {
                    lemma_index_injective(g, q, p);
                }
            }
        }
    }

    /// Clear the apple on a cell (it was consumed).
    pub fn remove(&mut self, g: Grid, p: Pos)
        requires
            old(self).wf(g),
            g.spec_contains(p),
            old(self).spec_has(g, p),
        ensures
            final(self).wf(g),
            final(self).cells@ == old(self).cells@.update(g.spec_index_of(p), false),
            final(self).spec_count() == old(self).spec_count() - 1,
            forall|q: Pos|
                g.spec_contains(q) ==> final(self).spec_has(g, q) == (old(self).spec_has(g, q)
                    && q != p),
    {
        let i = g.index_of(p);
        proof {
            lemma_count_true_update(self.cells@, i as int, false);
        }
        self.cells.set(i, false);
        proof {
            assert forall|q: Pos| g.spec_contains(q) implies self.spec_has(g, q) == (old(
                self,
            ).spec_has(g, q) && q != p) by {
                lemma_index_in_area(g, q);
                if g.spec_index_of(q) == g.spec_index_of(p) {
                    lemma_index_injective(g, q, p);
                }
            }
        }
    }

    /// Count the occupied cells, as the spawner's policy asks.
    pub fn count(&self) -> (r: usize)
        ensures
            r == self.spec_count(),
    {
        let n = self.cells.len();
        let mut c: usize = 0;
        let mut i: usize = 0;
        while i < n
            invariant
                n == self.cells@.len(),
                i <= n,
                c == count_true(self.cells@.take(i as int)),
                c <= i,
            decreases n - i,
        {
            proof {
                lemma_count_true_take_step(self.cells@, i as int);
                lemma_count_true_bounds(self.cells@.take(i as int));
            }
            if self.cells[i] {
                c = c + 1;
            }
            i = i + 1;
        }
        proof {
            assert(self.cells@.take(n as int) =~= self.cells@);
        }
        c
    }
}

/// Whether `p` may receive an apple: on the board, not occupied by an apple,
/// not occupied by the snake.
pub open spec fn spec_free(g: Grid, apples: AppleSet, body: Seq<Pos>, p: Pos) -> bool {
    g.spec_contains(p) && !apples.spec_has(g, p) && !body.contains(p)
}

/// Enumerate every free cell of the board, in row-major order, each once.
pub fn free_cells(g: Grid, apples: &AppleSet, body: &Vec<Pos>) -> (r: Vec<Pos>)
    requires
        apples.wf(g),
    ensures
        forall|i: int| 0 <= i < r@.len() ==> spec_free(g, *apples, body@, #[trigger] r@[i]),
        forall|p: Pos| spec_free(g, *apples, body@, p) ==> #[trigger] r@.contains(p),
        distinct_cells(r@),
{
    let mut r: Vec<Pos> = Vec::new();
    let mut y: i16 = 0;
    while y < g.height
        invariant
            apples.wf(g),
            0 <= y <= g.height,
            forall|i: int| 0 <= i < r@.len() ==> spec_free(g, *apples, body@, #[trigger] r@[i]),
            forall|p: Pos|
                spec_free(g, *apples, body@, p) && p.y < y ==> #[trigger] r@.contains(p),
            forall|i: int| 0 <= i < r@.len() ==> (#[trigger] r@[i]).y < y,
            distinct_cells(r@),
        decreases g.height - y,
    {
        let mut x: i16 = 0;
        while x < g.width
            invariant
                apples.wf(g),
                0 <= y < g.height,
                0 <= x <= g.width,
                forall|i: int| 0 <= i < r@.len() ==> spec_free(g, *apples, body@, #[trigger] r@[i]),
                forall|p: Pos|
                    spec_free(g, *apples, body@, p) && (p.y < y || (p.y == y && p.x < x))
                        ==> #[trigger] r@.contains(p),
                forall|i: int|
                    0 <= i < r@.len() ==> ((#[trigger] r@[i]).y < y || (r@[i].y == y && r@[i].x
                        < x)),
                distinct_cells(r@),
            decreases g.width - x,
        {
            let ghost r0 = r@;
            let p = Pos { x, y };
            if !apples.has(g, p) && !contains_cell(body, p) {
                r.push(p);
            }
            proof {
                assert forall|q: Pos|
                    spec_free(g, *apples, body@, q) && (q.y < y || (q.y == y && q.x < x + 1))
                        implies #[trigger] r@.contains(q) by {
                    if q.y == y && q.x == x {
                        assert(q == p);
                        assert(r@[r@.len() - 1] == q);
                    } else {
                        assert(r0.contains(q));
                        let j = choose|j: int| 0 <= j < r0.len() && r0[j] == q;
                        assert(r@[j] == q);
                    }
                }
                assert forall|i: int, j: int| 0 <= i < j < r@.len() implies r@[i] != r@[j] by {
                    if j == r@.len() - 1 && r@.len() > r0.len() {
                        assert(r0[i].y < y || (r0[i].y == y && r0[i].x < x));
                    } else {
                        assert(r0[i] != r0[j]);
                    }
                }
            }
            x = x + 1;
        }
        y = y + 1;
    }
    r
}

} // verus!
