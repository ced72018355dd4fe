//! The tick engine: the run state, one simulation step per tick, the
//! difficulty curve, and run termination with high-score retention.

use vstd::prelude::*;

use crate::apples::AppleSet;
use crate::apples::count_true;
use crate::apples::free_cells;
use crate::apples::spec_free;
use crate::body::cells_adjacent;
use crate::body::cells_in_grid;
use crate::body::distinct_cells;
use crate::collision::CollisionKind;
use crate::collision::check;
use crate::body::lemma_vacated_tail_is_free;
use crate::grid::Direction;
use crate::grid::Grid;
use crate::grid::Pos;
use crate::grid::lemma_index_in_area;
use crate::grid::lemma_no_return_without_reversal;
use crate::grid::moved;
use crate::grid::spec_moved;
use crate::history::HISTORY_LIMIT;
use crate::history::record_score;
use crate::history::sorted_desc;
use crate::history::spec_record;
use crate::random::random_below;
use crate::random::random_ratio;
use rand::rngs::StdRng;
use crate::steering::Steering;
use crate::steering::spec_advanced_direction;
use crate::steering::spec_advanced_queue;
use crate::steering::spec_steer;

verus! {

/// The snake starts each run with this many cells.
pub const START_LENGTH: usize = 3;

/// At most this many apples are ever live at once.
pub const MAX_APPLES: usize = 10;

/// The default board, matching the hosted game.
pub const BOARD_WIDTH: i16 = 64;

pub const BOARD_HEIGHT: i16 = 20;

/// What one tick reports: the run goes on, or it ended with the given score.
#[derive(Clone, Copy, PartialEq, Eq, Structural, Debug)]
pub enum TickOutcome {
    Continued,
    Lost(usize),
}

/// The state of one run, owned by the simulation and reset on a loss.
#[derive(Debug)]
pub struct State {
    pub paused: bool,
    pub steering: Steering,
    /// The snake's cells, head first.
    pub body: Vec<Pos>,
    /// Where the tail stood before the last committed move; a rendering hint.
    pub last_tail_pos: Pos,
    pub grid: Grid,
    pub apples: AppleSet,
    /// Milliseconds between ticks, recomputed from the score every tick.
    pub update_interval_ms: u64,
    /// The score of the run that last ended, for display.
    pub last_score: Option<usize>,
    /// Counts committed ticks; a rendering hint.
    pub tick: u32,
}

impl State {
    /// The data-model invariant: the board is large enough to hold a fresh
    /// snake, the body is non-degenerate (long enough, on the board, free of
    /// overlaps, unit-connected, its head one step from its neck along the
    /// committed direction), the steering queue can never reverse, and the
    /// apples are capped at ten and disjoint from the body.
    pub open spec fn wf(self) -> bool {
        &&& self.grid.wf()
        &&& self.grid.width >= 5
        &&& self.grid.height >= 4
        &&& self.apples.wf(self.grid)
        &&& self.apples.spec_count() <= MAX_APPLES as int
        &&& self.body@.len() >= START_LENGTH as int
        &&& cells_in_grid(self.body@, self.grid)
        &&& distinct_cells(self.body@)
        &&& cells_adjacent(self.body@)
        &&& self.body@[0] == spec_moved(self.body@[1], self.steering.direction)
        &&& self.steering.wf()
        &&& forall|i: int|
            0 <= i < self.body@.len() ==> !self.apples.spec_has(
                self.grid,
                #[trigger] self.body@[i],
            )
    }

    /// A fresh run on grid `g`: paused, three cells placed horizontally and
    /// heading right, no apples, the difficulty curve's interval at score
    /// zero, tick counter one.
    pub open spec fn is_start_state(self, g: Grid, last: Option<usize>) -> bool {
        &&& self.grid == g
        &&& self.paused == true
        &&& self.steering == (Steering {
            direction: Direction::Right,
            queue: Option::None::<(Direction, Option<Direction>)>,
        })
        &&& self.body@ == seq![(Pos { x: 4, y: 3 }), (Pos { x: 3, y: 3 }), (Pos { x: 2, y: 3 })]
        &&& self.last_tail_pos == (Pos { x: 1, y: 3 })
        &&& self.apples.wf(g)
        &&& forall|i: int| 0 <= i < self.apples.cells@.len() ==> !self.apples.cells@[i]
        &&& self.update_interval_ms == 200
        &&& self.last_score == last
        &&& self.tick == 1
    }

    /// Build the fresh-run state.
    pub fn initial(g: Grid) -> (st: State)
        requires
            g.wf(),
            g.width >= 5,
            g.height >= 4,
        ensures
            st.wf(),
            st.is_start_state(g, Option::None),
    {
        let mut body: Vec<Pos> = Vec::new();
        body.push(Pos::new(4, 3));
        body.push(Pos::new(3, 3));
        body.push(Pos::new(2, 3));
        let st = State {
            paused: true,
            steering: Steering::initial(),
            body,
            last_tail_pos: Pos::new(1, 3),
            grid: g,
            apples: AppleSet::empty(g),
            update_interval_ms: 200,
            last_score: Option::None,
            tick: 1,
        };
        proof {
            assert(st.body@ =~= seq![
                (Pos { x: 4, y: 3 }),
                (Pos { x: 3, y: 3 }),
                (Pos { x: 2, y: 3 }),
            ]);
            assert(count_true(st.apples.cells@) == 0);
            assert forall|i: int| 0 <= i < st.body@.len() implies !st.apples.spec_has(
                st.grid,
                #[trigger] st.body@[i],
            ) by {
                lemma_index_in_area(g, st.body@[i]);
            }
        }
        st
    }

    /// The apple spawner. With no apple on the board it always attempts a
    /// spawn; below the cap it attempts one with probability
    /// `update interval in seconds / 3`, clamped to one; at the cap it never
    /// does. An attempt picks a spawnable cell uniformly at random and is a
    /// silent no-op when no cell is spawnable.
    fn spawn_step(&mut self, rng: &mut StdRng)
        requires
            old(self).grid.wf(),
            old(self).apples.wf(old(self).grid),
            old(self).apples.spec_count() <= MAX_APPLES as int,
            cells_in_grid(old(self).body@, old(self).grid),
            forall|i: int|
                0 <= i < old(self).body@.len() ==> !old(self).apples.spec_has(
                    old(self).grid,
                    #[trigger] old(self).body@[i],
                ),
        ensures
            final(self).paused == old(self).paused,
            final(self).steering == old(self).steering,
            final(self).body == old(self).body,
            final(self).last_tail_pos == old(self).last_tail_pos,
            final(self).grid == old(self).grid,
            final(self).update_interval_ms == old(self).update_interval_ms,
            final(self).last_score == old(self).last_score,
            final(self).tick == old(self).tick,
            final(self).apples.wf(old(self).grid),
            final(self).apples.spec_count() <= MAX_APPLES as int,
            forall|i: int|
                0 <= i < final(self).body@.len() ==> !final(self).apples.spec_has(
                    final(self).grid,
                    #[trigger] final(self).body@[i],
                ),
            spawn_rel(*old(self), *final(self)),
    {
        let apple_count = self.apples.count();
        let interval = self.update_interval_ms;
        let num: u32 = if interval >= 3000 {
            3000
        } else {
            interval as u32
        };
        let attempt = apple_count == 0 || (apple_count < MAX_APPLES && random_ratio(rng, num, 3000));
        if attempt {
            let options = free_cells(self.grid, &self.apples, &self.body);
            if options.len() > 0 {
                let j = random_below(rng, options.len());
                let cell = options[j];
                proof {
                    assert(spec_free(self.grid, self.apples, self.body@, cell));
                }
                self.apples.place(self.grid, cell);
                proof {
                    assert(spec_spawned_from(*old(self), self.apples.cells@, cell));
                    lemma_index_in_area(self.grid, cell);
                    assert(self.apples.cells@[self.grid.spec_index_of(cell)]
                        != old(self).apples.cells@[self.grid.spec_index_of(cell)]);
                    assert forall|i: int|
                        0 <= i < self.body@.len() implies !self.apples.spec_has(
                        self.grid,
                        #[trigger] self.body@[i],
                    ) by {
                        assert(self.grid.spec_contains(self.body@[i]));
                        if self.body@[i] == cell {
                            assert(self.body@.contains(cell));
                        }
                    }
                }
            } else {
                proof {
                    if exists|c: Pos| spec_state_spawnable(*old(self), c) {
                        let c = choose|c: Pos| spec_state_spawnable(*old(self), c);
                        assert(spec_free(self.grid, self.apples, self.body@, c));
                        assert(options@.contains(c));
                        assert(false);
                    }
                }
            }
        }
    }
}

/// The direction the coming tick commits: the first queued one if any.
pub open spec fn spec_tick_direction(s: State) -> Direction {
    spec_advanced_direction(s.steering)
}

/// Where the head moves this tick.
pub open spec fn spec_new_head(s: State) -> Pos {
    spec_moved(s.body@[0], spec_tick_direction(s))
}

/// The move leaves the board.
pub open spec fn spec_hits_wall(s: State) -> bool {
    !s.grid.spec_contains(spec_new_head(s))
}

/// The move lands on an apple (only meaningful on the board).
pub open spec fn spec_eats(s: State) -> bool {
    !spec_hits_wall(s) && s.apples.spec_has(s.grid, spec_new_head(s))
}

/// The body after the tail conditionally vacates: the tail stays put when an
/// apple is eaten, and is popped otherwise. The pop comes before the self
/// collision test.
pub open spec fn spec_popped_body(s: State) -> Seq<Pos> {
    if spec_eats(s) {
        s.body@
    } else {
        s.body@.drop_last()
    }
}

/// The move lands on a cell the body still occupies after the tail popped.
pub open spec fn spec_hits_self(s: State) -> bool {
    !spec_hits_wall(s) && spec_popped_body(s).contains(spec_new_head(s))
}

pub open spec fn spec_loses(s: State) -> bool {
    spec_hits_wall(s) || spec_hits_self(s)
}

/// The score a lost run reports: the score at the moment the collision is
/// found, after the tail conditionally popped.
pub open spec fn spec_lost_score(s: State) -> int {
    if spec_hits_wall(s) {
        s.body@.len() - START_LENGTH
    } else {
        spec_popped_body(s).len() - START_LENGTH
    }
}

/// The occupancy table after a consumed apple is cleared.
pub open spec fn spec_board_after_meal(s: State) -> Seq<bool> {
    if spec_eats(s) {
        s.apples.cells@.update(s.grid.spec_index_of(spec_new_head(s)), false)
    } else {
        s.apples.cells@
    }
}

/// After the move commits, `c` could receive an apple: on the board, no
/// apple there, not occupied by the moved body.
pub open spec fn spec_spawnable(s: State, c: Pos) -> bool {
    &&& s.grid.spec_contains(c)
    &&& !spec_board_after_meal(s)[s.grid.spec_index_of(c)]
    &&& !(seq![spec_new_head(s)] + spec_popped_body(s)).contains(c)
}

/// The tick ended with exactly one apple spawned, on the spawnable cell `c`.
pub open spec fn spec_spawned_at(s: State, post: State, c: Pos) -> bool {
    &&& spec_spawnable(s, c)
    &&& post.apples.cells@ == spec_board_after_meal(s).update(s.grid.spec_index_of(c), true)
}

/// `c` could receive an apple in state `st` as it stands.
pub open spec fn spec_state_spawnable(st: State, c: Pos) -> bool {
    st.grid.spec_contains(c) && !st.apples.spec_has(st.grid, c) && !st.body@.contains(c)
}

/// `post_cells` is `pre`'s board with one apple added on the spawnable `c`.
pub open spec fn spec_spawned_from(pre: State, post_cells: Seq<bool>, c: Pos) -> bool {
    &&& spec_state_spawnable(pre, c)
    &&& post_cells == pre.apples.cells@.update(pre.grid.spec_index_of(c), true)
}

/// What the spawner may do to the board: nothing, or one apple on some
/// spawnable cell; nothing when the cap is reached; something whenever the
/// board holds no apple but has a spawnable cell.
pub open spec fn spawn_rel(pre: State, post: State) -> bool {
    &&& (post.apples.cells@ == pre.apples.cells@ || exists|c: Pos|
        spec_spawned_from(pre, post.apples.cells@, c))
    &&& (pre.apples.spec_count() >= MAX_APPLES as int ==> post.apples.cells@
        == pre.apples.cells@)
    &&& ((pre.apples.spec_count() == 0 && exists|c: Pos| spec_state_spawnable(pre, c))
        ==> post.apples.cells@ != pre.apples.cells@)
}

/// Everything one tick does, as a relation between the state before, the
/// state after, and the reported outcome. The apple spawn is the one
/// non-deterministic step: the relation pins everything else exactly, and
/// pins the spawn to "nothing, or one apple on some spawnable cell", never
/// beyond ten apples, and guaranteed when the board would otherwise be
/// apple-less but has room.
pub open spec fn tick_rel(pre: Snake, post: Snake, r: TickOutcome) -> bool {
    let s = pre.state;
    let new_body = seq![spec_new_head(s)] + spec_popped_body(s);
    let base = spec_board_after_meal(s);
    &&& post.wf()
    &&& post.state.grid == s.grid
    &&& (!spec_eats(s) && spec_new_head(s) == s.body@.last() ==> r == TickOutcome::Continued)
    &&& if spec_loses(s) {
        &&& r == TickOutcome::Lost(spec_lost_score(s) as usize)
        &&& post.state.is_start_state(s.grid, Option::Some(spec_lost_score(s) as usize))
        &&& post.scores@ == if spec_lost_score(s) > 0 {
            spec_record(pre.scores@, spec_lost_score(s) as usize)
        } else {
            pre.scores@
        }
        &&& spec_lost_score(s) > 0 ==> post.scores@.len() >= 1 && post.scores@[0]
            >= spec_lost_score(s)
    } else {
        &&& r == TickOutcome::Continued
        &&& post.scores == pre.scores
        &&& post.state.paused == s.paused
        &&& post.state.last_score == s.last_score
        &&& post.state.steering.direction == spec_tick_direction(s)
        &&& post.state.steering.queue == spec_advanced_queue(s.steering)
        &&& post.state.steering.direction != s.steering.direction.spec_opposite()
        &&& post.state.body@ == new_body
        &&& post.state.body@.len() == s.body@.len() + if spec_eats(s) {
            1int
        } else {
            0int
        }
        &&& post.state.last_tail_pos == s.body@.last()
        &&& post.state.tick == if s.tick < u32::MAX {
            s.tick + 1
        } else {
            s.tick as int
        }
        &&& post.state.update_interval_ms == 4000int / (new_body.len() - START_LENGTH + 20)
        &&& (post.state.apples.cells@ == base || exists|c: Pos|
            spec_spawned_at(s, post.state, c))
        &&& (count_true(base) >= MAX_APPLES as int ==> post.state.apples.cells@ == base)
        &&& (count_true(base) == 0 && (exists|c: Pos| spec_spawnable(s, c))
            ==> post.state.apples.cells@ != base)
    }
}

/// A snake of the starting length cannot collide with itself: after the tail
/// pops, only the old head and the neck remain, the move leaves the old head,
/// and steering never commits a reversal onto the neck.
proof fn lemma_short_body_cannot_hit_self(s: State)
    requires
        s.wf(),
        s.body@.len() == START_LENGTH as int,
        !spec_hits_wall(s),
        !spec_eats(s),
    ensures
        !spec_hits_self(s),
{
    let nh = spec_new_head(s);
    let popped = spec_popped_body(s);
    assert(popped.len() == 2);
    assert(s.grid.spec_contains(s.body@[0]));
    assert(s.grid.spec_contains(s.body@[1]));
    crate::grid::lemma_moved_adjacent(s.grid, s.body@[0], spec_tick_direction(s));
    crate::steering::lemma_no_immediate_reversal(s.steering);
    lemma_no_return_without_reversal(
        s.grid,
        s.body@[1],
        s.steering.direction,
        spec_tick_direction(s),
    );
    if popped.contains(nh) {
        let j = choose|j: int| 0 <= j < popped.len() && popped[j] == nh;
        assert(false);
    }
}

/// What holds of the body and the board once a non-colliding move is
/// committed: the moved body is still non-degenerate, and after the meal the
/// board is disjoint from it and still within the apple cap.
proof fn lemma_committed_move_props(s: State)
    requires
        s.wf(),
        !spec_hits_wall(s),
        !spec_popped_body(s).contains(spec_new_head(s)),
    ensures
        ({
            let nbody = seq![spec_new_head(s)] + spec_popped_body(s);
            let base = spec_board_after_meal(s);
            &&& nbody.len() == spec_popped_body(s).len() + 1
            &&& nbody.len() >= START_LENGTH as int
            &&& distinct_cells(nbody)
            &&& cells_in_grid(nbody, s.grid)
            &&& cells_adjacent(nbody)
            &&& nbody[0] == spec_new_head(s)
            &&& nbody[1] == s.body@[0]
            &&& nbody[0] == spec_moved(nbody[1], spec_tick_direction(s))
            &&& base.len() == s.apples.cells@.len()
            &&& count_true(base) == s.apples.spec_count() - (if spec_eats(s) {
                1int
            } else {
                0int
            })
            &&& forall|i: int|
                0 <= i < nbody.len() ==> !base[s.grid.spec_index_of(#[trigger] nbody[i])]
        }),
{
    let nh = spec_new_head(s);
    let popped = spec_popped_body(s);
    let nbody = seq![nh] + popped;
    let base = spec_board_after_meal(s);
    assert(s.grid.spec_contains(s.body@[0]));
    crate::grid::lemma_moved_adjacent(s.grid, s.body@[0], spec_tick_direction(s));
    assert forall|k: int| 0 <= k < popped.len() implies popped[k] != nh by {
        if popped[k] == nh {
            assert(popped.contains(nh));
        }
    }
    assert forall|i: int, j: int| 0 <= i < j < nbody.len() implies nbody[i] != nbody[j] by {
        if i > 0 {
            assert(s.body@[i - 1] != s.body@[j - 1]);
        }
    }
    assert forall|i: int| 0 <= i < nbody.len() implies s.grid.spec_contains(
        #[trigger] nbody[i],
    ) by {
        if i > 0 {
            assert(s.grid.spec_contains(s.body@[i - 1]));
        }
    }
    assert forall|i: int| 0 <= i < nbody.len() - 1 implies crate::grid::adjacent(
        #[trigger] nbody[i],
        nbody[i + 1],
    ) by {
        if i > 0 {
            let k = i - 1;
            assert(0 <= k < s.body@.len() - 1);
            assert(crate::grid::adjacent(s.body@[k], s.body@[k + 1]));
            assert(nbody[i] == s.body@[k] && nbody[i + 1] == s.body@[k + 1]);
        }
    }
    if spec_eats(s) {
        lemma_index_in_area(s.grid, nh);
        crate::apples::lemma_count_true_update(
            s.apples.cells@,
            s.grid.spec_index_of(nh),
            false,
        );
    }
    assert forall|i: int| 0 <= i < nbody.len() implies !base[s.grid.spec_index_of(
        #[trigger] nbody[i],
    )] by {
        lemma_index_in_area(s.grid, nbody[i]);
        if i > 0 {
            assert(!s.apples.spec_has(s.grid, s.body@[i - 1]));
        } else {
            if !spec_eats(s) {
                assert(!s.apples.spec_has(s.grid, nh));
            }
        }
    }
}

/// The whole game: the retained high scores and the current run.
#[derive(Debug)]
pub struct Snake {
    /// Highest past scores, descending, at most ten.
    pub scores: Vec<usize>,
    pub state: State,
}

impl Snake {
    pub open spec fn wf(self) -> bool {
        &&& self.state.wf()
        &&& sorted_desc(self.scores@)
        &&& self.scores@.len() <= HISTORY_LIMIT as int
    }

    /// A fresh game on a `width` by `height` board, with an empty history.
    /// The board must be able to hold the initial three-cell snake.
    pub fn new(width: i16, height: i16) -> (s: Snake)
        requires
            5 <= width,
            4 <= height,
        ensures
            s.wf(),
            s.scores@.len() == 0,
            s.state.is_start_state((Grid { width, height }), Option::None),
    {
        Snake { scores: Vec::new(), state: State::initial(Grid { width, height }) }
    }

    /// A game set up mid-run: the given body heads in `direction` on a
    /// `width` by `height` board with no apples and an empty history. The
    /// body must be valid: long enough, on the board, free of overlaps,
    /// unit-connected, its head one step from its neck along `direction`.
    pub fn with_body(width: i16, height: i16, body: Vec<Pos>, direction: Direction) -> (s: Snake)
        requires
            5 <= width,
            4 <= height,
            body@.len() >= START_LENGTH as int,
            cells_in_grid(body@, (Grid { width, height })),
            distinct_cells(body@),
            cells_adjacent(body@),
            body@[0] == spec_moved(body@[1], direction),
        ensures
            s.wf(),
            s.scores@.len() == 0,
            s.state.grid == (Grid { width, height }),
            s.state.paused == true,
            s.state.steering == (Steering {
                direction,
                queue: Option::None::<(Direction, Option<Direction>)>,
            }),
            s.state.body == body,
            s.state.last_tail_pos == body@.last(),
            s.state.apples.spec_count() == 0,
            forall|i: int|
                0 <= i < s.state.apples.cells@.len() ==> !s.state.apples.cells@[i],
            s.state.update_interval_ms == 4000int / (body@.len() - START_LENGTH + 20),
            s.state.last_score is None,
            s.state.tick == 1,
    {
        let g = Grid { width, height };
        let tail = body[body.len() - 1];
        let sc = body.len() - START_LENGTH;
        let interval_ms: u64 = if sc >= 3981 {
            proof {
                vstd::arithmetic::div_mod::lemma_basic_div(4000int, sc as int + 20);
            }
            0
        } else {
            4000 / (sc as u64 + 20)
        };
        let apples = AppleSet::empty(g);
        let st = State {
            paused: true,
            steering: Steering { direction, queue: Option::None },
            body,
            last_tail_pos: tail,
            grid: g,
            apples,
            update_interval_ms: interval_ms,
            last_score: Option::None,
            tick: 1,
        };
        proof {
            assert forall|i: int| 0 <= i < st.body@.len() implies !st.apples.spec_has(
                st.grid,
                #[trigger] st.body@[i],
            ) by {
                lemma_index_in_area(g, st.body@[i]);
            }
        }
        Snake { scores: Vec::new(), state: st }
    }

    /// Put an apple on a free cell, as the spawner would.
    pub fn place_apple(&mut self, p: Pos)
        requires
            old(self).wf(),
            old(self).state.grid.spec_contains(p),
            !old(self).state.apples.spec_has(old(self).state.grid, p),
            !old(self).state.body@.contains(p),
            old(self).state.apples.spec_count() < MAX_APPLES as int,
        ensures
            final(self).wf(),
            final(self).scores == old(self).scores,
            final(self).state.paused == old(self).state.paused,
            final(self).state.steering == old(self).state.steering,
            final(self).state.body == old(self).state.body,
            final(self).state.last_tail_pos == old(self).state.last_tail_pos,
            final(self).state.grid == old(self).state.grid,
            final(self).state.update_interval_ms == old(self).state.update_interval_ms,
            final(self).state.last_score == old(self).state.last_score,
            final(self).state.tick == old(self).state.tick,
            final(self).state.apples.spec_count() == old(self).state.apples.spec_count() + 1,
            forall|q: Pos|
                old(self).state.grid.spec_contains(q) ==> final(self).state.apples.spec_has(
                    old(self).state.grid,
                    q,
                ) == (old(self).state.apples.spec_has(old(self).state.grid, q) || q == p),
    {
        self.state.apples.place(self.state.grid, p);
        proof {
            assert forall|i: int| 0 <= i < self.state.body@.len() implies !self.state.apples
                .spec_has(self.state.grid, #[trigger] self.state.body@[i]) by {
                assert(self.state.grid.spec_contains(self.state.body@[i]));
                if self.state.body@[i] == p {
                    assert(self.state.body@.contains(p));
                }
            }
        }
    }

    /// Whether the in-bounds cell `p` holds an apple.
    pub fn has_apple(&self, p: Pos) -> (r: bool)
        requires
            self.state.apples.wf(self.state.grid),
            self.state.grid.spec_contains(p),
        ensures
            r == self.state.apples.spec_has(self.state.grid, p),
    {
        self.state.apples.has(self.state.grid, p)
    }

    /// How many apples are live.
    pub fn apple_count(&self) -> (r: usize)
        ensures
            r == self.state.apples.spec_count(),
    {
        self.state.apples.count()
    }

    /// Queue a direction change for the coming ticks; unsafe or overflowing
    /// requests are silently dropped.
    pub fn steer(&mut self, new_dir: Direction)
        ensures
            final(self).state.steering == spec_steer(old(self).state.steering, new_dir),
            final(self).scores == old(self).scores,
            final(self).state.paused == old(self).state.paused,
            final(self).state.body == old(self).state.body,
            final(self).state.last_tail_pos == old(self).state.last_tail_pos,
            final(self).state.grid == old(self).state.grid,
            final(self).state.apples == old(self).state.apples,
            final(self).state.update_interval_ms == old(self).state.update_interval_ms,
            final(self).state.last_score == old(self).state.last_score,
            final(self).state.tick == old(self).state.tick,
            old(self).wf() ==> final(self).wf(),
    {
        self.state.steering.steer(new_dir);
    }

    /// Flip the orthogonal pause flag; the host stops calling the tick
    /// driver while it is set.
    pub fn toggle_pause(&mut self)
        ensures
            final(self).state.paused == !old(self).state.paused,
            final(self).scores == old(self).scores,
            final(self).state.steering == old(self).state.steering,
            final(self).state.body == old(self).state.body,
            final(self).state.last_tail_pos == old(self).state.last_tail_pos,
            final(self).state.grid == old(self).state.grid,
            final(self).state.apples == old(self).state.apples,
            final(self).state.update_interval_ms == old(self).state.update_interval_ms,
            final(self).state.last_score == old(self).state.last_score,
            final(self).state.tick == old(self).state.tick,
            old(self).wf() ==> final(self).wf(),
    {
        self.state.paused = !self.state.paused;
    }

    /// The score is the snake's growth beyond its starting length.
    pub fn score(&self) -> (r: usize)
        requires
            self.state.body@.len() >= START_LENGTH as int,
        ensures
            r == self.state.body@.len() - START_LENGTH as int,
    {
        self.state.body.len() - START_LENGTH
    }

    /// End the run: record a positive score into the history, reset the run
    /// state on the same grid, and retain the finished score for display.
    fn lose(&mut self) -> (r: TickOutcome)
        requires
            old(self).state.grid.wf(),
            old(self).state.grid.width >= 5,
            old(self).state.grid.height >= 4,
            old(self).state.body@.len() >= START_LENGTH as int,
            sorted_desc(old(self).scores@),
            old(self).scores@.len() <= HISTORY_LIMIT as int,
        ensures
            final(self).wf(),
            r == TickOutcome::Lost((old(self).state.body@.len() - START_LENGTH) as usize),
            final(self).state.is_start_state(
                old(self).state.grid,
                Option::Some((old(self).state.body@.len() - START_LENGTH) as usize),
            ),
            final(self).scores@ == if old(self).state.body@.len() > START_LENGTH as int {
                spec_record(
                    old(self).scores@,
                    (old(self).state.body@.len() - START_LENGTH) as usize,
                )
            } else {
                old(self).scores@
            },
            old(self).state.body@.len() > START_LENGTH as int ==> final(self).scores@.len() >= 1
                && final(self).scores@[0] >= old(self).state.body@.len() - START_LENGTH as int,
    {
        let score = self.state.body.len() - START_LENGTH;
        if score > 0 {
            record_score(&mut self.scores, score);
        }
        let g = self.state.grid;
        self.state = State::initial(g);
        self.state.last_score = Option::Some(score);
        TickOutcome::Lost(score)
    }

    /// One simulation step: commit the next queued direction, move the head
    /// one cell, end the run on a wall or self collision, otherwise consume
    /// an apple or pop the tail, maybe spawn an apple, and ramp the speed
    /// with the score.
    #[verifier::rlimit(100)]
    #[verifier::spinoff_prover]
    pub fn tick(&mut self, rng: &mut StdRng) -> (r: TickOutcome)
        requires
            old(self).wf(),
        ensures
            final(self).wf(),
            tick_rel(*old(self), *final(self), r),
    {
        proof {
            assert(old(self).state.grid.spec_contains(old(self).state.body@[0]));
            assert(old(self).state.grid.spec_contains(
                old(self).state.body@[old(self).state.body@.len() - 1],
            ));
        }
        let d = self.state.steering.advance();
        let head = self.state.body[0];
        let new_head = moved(head, d);
        let ghost s0 = old(self).state;
        assert(new_head == spec_new_head(s0));

        if !self.state.grid.contains(new_head) {
            let out = self.lose();
            return out;
        }

        let tail_idx = self.state.body.len() - 1;
        let tail = self.state.body[tail_idx];
        self.state.last_tail_pos = tail;

        let ate = self.state.apples.has(self.state.grid, new_head);
        if ate {
            self.state.apples.remove(self.state.grid, new_head);
        } else {
            self.state.body.pop();
        }
        proof {
            assert(self.state.body@ =~= spec_popped_body(s0));
            assert(self.state.apples.cells@ =~= spec_board_after_meal(s0));
        }

        let kind = check(new_head, &self.state.body, &self.state.grid);
        if kind == CollisionKind::SelfCollision {
            proof {
                assert(spec_hits_self(s0));
                if !ate && new_head == s0.body@.last() {
                    lemma_vacated_tail_is_free(s0.body@, new_head);
                }
                if !ate && s0.body@.len() == START_LENGTH as int {
                    lemma_short_body_cannot_hit_self(s0);
                }
            }
            let out = self.lose();
            return out;
        }

        let out = self.finish_move(new_head, rng, Ghost(s0));
        proof {
            assert(*old(self) == (Snake { scores: old(self).scores, state: s0 }));
        }
        out
    }

    /// The back half of a tick once the move is known collision-free: push
    /// the new head, run the apple spawner, count the tick, and recompute
    /// the update interval from the new score.
    #[verifier::rlimit(100)]
    #[verifier::spinoff_prover]
    fn finish_move(&mut self, new_head: Pos, rng: &mut StdRng, Ghost(s0): Ghost<State>) -> (r: TickOutcome)
        requires
            s0.wf(),
            !spec_hits_wall(s0),
            !spec_popped_body(s0).contains(spec_new_head(s0)),
            new_head == spec_new_head(s0),
            sorted_desc(old(self).scores@),
            old(self).scores@.len() <= HISTORY_LIMIT as int,
            old(self).state.grid == s0.grid,
            old(self).state.body@ == spec_popped_body(s0),
            old(self).state.apples.cells@ == spec_board_after_meal(s0),
            old(self).state.steering.direction == spec_tick_direction(s0),
            old(self).state.steering.queue == spec_advanced_queue(s0.steering),
            old(self).state.steering.wf(),
            old(self).state.paused == s0.paused,
            old(self).state.last_score == s0.last_score,
            old(self).state.tick == s0.tick,
            old(self).state.update_interval_ms == s0.update_interval_ms,
            old(self).state.last_tail_pos == s0.body@.last(),
        ensures
            final(self).wf(),
            r == TickOutcome::Continued,
            tick_rel((Snake { scores: old(self).scores, state: s0 }), *final(self), r),
    {
        self.state.body.insert(0, new_head);
        let ghost popped = spec_popped_body(s0);
        let ghost nbody = seq![spec_new_head(s0)] + popped;
        proof {
            assert(self.state.body@ =~= nbody);
            lemma_committed_move_props(s0);
            crate::steering::lemma_no_immediate_reversal(s0.steering);
        }

        let ghost base = spec_board_after_meal(s0);
        let ghost mid = self.state;
        self.state.spawn_step(rng);
        if self.state.tick < u32::MAX {
            self.state.tick = self.state.tick + 1;
        }

        let sc = self.state.body.len() - START_LENGTH;
        if sc >= 3981 {
            self.state.update_interval_ms = 0;
            proof {
                vstd::arithmetic::div_mod::lemma_basic_div(4000int, sc as int + 20);
            }
        } else {
            self.state.update_interval_ms = 4000 / (sc as u64 + 20);
        }

        proof {
            assert(mid.apples.cells@ == base);
            assert(mid.body@ == nbody);
            if self.state.apples.cells@ != base {
                let c = choose|c: Pos| spec_spawned_from(mid, self.state.apples.cells@, c);
                assert(spec_spawnable(s0, c));
                assert(spec_spawned_at(s0, self.state, c));
            }
            if count_true(base) == 0 && (exists|c: Pos| spec_spawnable(s0, c)) {
                let c = choose|c: Pos| spec_spawnable(s0, c);
                assert(spec_state_spawnable(mid, c));
                assert(self.state.apples.cells@ != base);
            }
            assert(!spec_loses(s0));
            assert(self.state.wf());
            assert(self.state.body@ == nbody);
            assert(self.state.update_interval_ms == 4000int / (nbody.len() - START_LENGTH
                + 20));
        }

        TickOutcome::Continued
    }

    /// The per-frame driver: when the run is not paused and at least the
    /// current update interval has elapsed, perform exactly one tick and
    /// report its outcome; otherwise leave the state untouched.
    pub fn maybe_tick(&mut self, elapsed_ms: u64, rng: &mut StdRng) -> (r: Option<TickOutcome>)
        requires
            old(self).wf(),
        ensures
            final(self).wf(),
            (r is Some) == (!old(self).state.paused && elapsed_ms
                >= old(self).state.update_interval_ms),
            r is None ==> *final(self) == *old(self),
            r matches Option::Some(t) ==> tick_rel(*old(self), *final(self), t),
    {
        if !self.state.paused && elapsed_ms >= self.state.update_interval_ms {
            Option::Some(self.tick(rng))
        } else {
            Option::None
        }
    }
}

impl Default for Snake {
    /// The hosted game's default: the standard board and an empty history.
    fn default() -> (s: Snake)
        ensures
            s.wf(),
            s.scores@.len() == 0,
            s.state.is_start_state(
                (Grid { width: BOARD_WIDTH, height: BOARD_HEIGHT }),
                Option::None,
            ),
    {
        Snake::new(BOARD_WIDTH, BOARD_HEIGHT)
    }
}

} // verus!
