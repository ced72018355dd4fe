//! The board: a fixed rectangle of cells, positions on it, and the four
//! movement directions.

use vstd::prelude::*;

verus! {

/// A cell of the board, identified by its column `x` and row `y`.
#[derive(Clone, Copy, PartialEq, Eq, Structural, Debug)]
pub struct Pos {
    pub x: i16,
    pub y: i16,
}

impl Pos {
    pub fn new(x: i16, y: i16) -> (p: Pos)
        ensures
            p == (Pos { x, y }),
    {
        Pos { x, y }
    }
}

/// One of the four 4-connected movement directions.
#[derive(Clone, Copy, PartialEq, Eq, Structural, Debug)]
pub enum Direction {
    Up,
    Right,
    Down,
    Left,
}

impl Direction {
    pub open spec fn spec_opposite(self) -> Direction {
        match self {
            Direction::Up => Direction::Down,
            Direction::Right => Direction::Left,
            Direction::Down => Direction::Up,
            Direction::Left => Direction::Right,
        }
    }

    pub fn opposite(&self) -> (r: Direction)
        ensures
            r == self.spec_opposite(),
    {
        match self {
            Direction::Up => Direction::Down,
            Direction::Right => Direction::Left,
            Direction::Down => Direction::Up,
            Direction::Left => Direction::Right,
        }
    }
}

/// The position one unit from `p` along `d`: `Up` decrements `y`, `Down`
/// increments it, `Right` increments `x`, `Left` decrements it.
pub open spec fn spec_moved(p: Pos, d: Direction) -> Pos {
    match d {
        Direction::Up => Pos { x: p.x, y: (p.y - 1) as i16 },
        Direction::Right => Pos { x: (p.x + 1) as i16, y: p.y },
        Direction::Down => Pos { x: p.x, y: (p.y + 1) as i16 },
        Direction::Left => Pos { x: (p.x - 1) as i16, y: p.y },
    }
}

/// Two cells are adjacent when they differ by one unit along exactly one axis.
pub open spec fn adjacent(a: Pos, b: Pos) -> bool {
    ||| (a.x == b.x && (a.y - b.y == 1 || b.y - a.y == 1))
    ||| (a.y == b.y && (a.x - b.x == 1 || b.x - a.x == 1))
}

pub fn moved(p: Pos, d: Direction) -> (r: Pos)
    requires
        i16::MIN < p.x < i16::MAX,
        i16::MIN < p.y < i16::MAX,
    ensures
        r == spec_moved(p, d),
        adjacent(r, p),
        r != p,
{
    match d {
        Direction::Up => Pos { x: p.x, y: p.y - 1 },
        Direction::Right => Pos { x: p.x + 1, y: p.y },
        Direction::Down => Pos { x: p.x, y: p.y + 1 },
        Direction::Left => Pos { x: p.x - 1, y: p.y },
    }
}

/// The fixed rectangular coordinate space: board-relative coordinates lie in
/// `[0, width) x [0, height)`.
#[derive(Clone, Copy, PartialEq, Eq, Structural, Debug)]
pub struct Grid {
    pub width: i16,
    pub height: i16,
}

impl Grid {
    pub open spec fn wf(self) -> bool {
        0 < self.width && 0 < self.height
    }

    pub open spec fn spec_contains(self, p: Pos) -> bool {
        0 <= p.x < self.width && 0 <= p.y < self.height
    }

    /// True iff both coordinates of `p` are within bounds.
    pub fn contains(&self, p: Pos) -> (r: bool)
        ensures
            r == self.spec_contains(p),
    {
        0 <= p.x && p.x < self.width && 0 <= p.y && p.y < self.height
    }

    /// The number of cells of the board.
    pub open spec fn spec_area(self) -> int {
        self.width * self.height
    }

    pub fn area(&self) -> (r: usize)
        requires
            self.wf(),
        ensures
            r == self.spec_area(),
    {
        proof {
            lemma_area_bound(*self);
        }
        (self.width as usize) * (self.height as usize)
    }

    /// The row-major index of an in-bounds cell.
    pub open spec fn spec_index_of(self, p: Pos) -> int {
        p.y * self.width + p.x
    }

    pub fn index_of(&self, p: Pos) -> (r: usize)
        requires
            self.wf(),
            self.spec_contains(p),
        ensures
            r == self.spec_index_of(p),
            r < self.spec_area(),
    {
        proof {
            lemma_index_in_area(*self, p);
            lemma_area_bound(*self);
            assert(p.y * self.width <= self.spec_index_of(p)) by (nonlinear_arith)
                requires
                    0 <= p.x,
                    0 <= p.y,
                    0 < self.width,
            ;
        }
        (p.y as usize) * (self.width as usize) + (p.x as usize)
    }
}

/// The area of a well-formed grid is positive and fits comfortably in `usize`.
pub proof fn lemma_area_bound(g: Grid)
    requires
        g.wf(),
    ensures
        0 < g.spec_area() <= 0x3fff_8001,
{
    assert(0 < g.width * g.height <= 0x7fff * 0x7fff) by (nonlinear_arith)
        requires
            0 < g.width <= 0x7fff,
            0 < g.height <= 0x7fff,
    ;
}

/// Row-major indexing keeps an in-bounds cell inside the area.
pub proof fn lemma_index_in_area(g: Grid, p: Pos)
    requires
        g.wf(),
        g.spec_contains(p),
    ensures
        0 <= g.spec_index_of(p) < g.spec_area(),
{
    assert(0 <= p.y * g.width + p.x < g.width * g.height) by (nonlinear_arith)
        requires
            0 <= p.x < g.width,
            0 <= p.y < g.height,
    ;
}

/// A move from an in-bounds cell lands on an adjacent, different cell.
pub proof fn lemma_moved_adjacent(g: Grid, p: Pos, d: Direction)
    requires
        g.wf(),
        g.spec_contains(p),
    ensures
        adjacent(spec_moved(p, d), p),
        spec_moved(p, d) != p,
{
}

/// A step that is not the exact reversal of the previous one never returns
/// to the cell the previous step left: moving from `m` by `d_old` and then
/// by `d` ends on `m` only when `d` is `d_old`'s opposite.
pub proof fn lemma_no_return_without_reversal(g: Grid, m: Pos, d_old: Direction, d: Direction)
    requires
        g.wf(),
        g.spec_contains(m),
        g.spec_contains(spec_moved(m, d_old)),
        d != d_old.spec_opposite(),
    ensures
        spec_moved(spec_moved(m, d_old), d) != m,
{
}

/// Row-major indexing is injective over in-bounds cells.
pub proof fn lemma_index_injective(g: Grid, p: Pos, q: Pos)
    requires
        g.wf(),
        g.spec_contains(p),
        g.spec_contains(q),
        g.spec_index_of(p) == g.spec_index_of(q),
    ensures
        p == q,
{
    assert(p.x == q.x && p.y == q.y) by (nonlinear_arith)
        requires
            0 <= p.x < g.width,
            0 <= p.y < g.height,
            0 <= q.x < g.width,
            0 <= q.y < g.height,
            p.y * g.width + p.x == q.y * g.width + q.x,
    ;
}

} // verus!
