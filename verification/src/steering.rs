//! The input steering buffer: the committed direction plus up to two queued
//! direction changes, validated so that the snake can never be steered into
//! an immediate reversal.

use vstd::prelude::*;

use crate::grid::Direction;

verus! {

/// The committed direction and the pending-input queue. The first queued
/// direction is applied on the next tick, the second on the tick after.
#[derive(Clone, Copy, Debug)]
pub struct Steering {
    pub direction: Direction,
    pub queue: Option<(Direction, Option<Direction>)>,
}

/// The queued direction that `steer` leaves behind: a first request is
/// rejected when it continues or reverses the committed direction; a second
/// is rejected when it reverses the first; further requests are dropped.
pub open spec fn spec_steer(s: Steering, new_dir: Direction) -> Steering {
    match s.queue {
        Option::None => {
            if s.direction != new_dir && s.direction != new_dir.spec_opposite() {
                Steering { direction: s.direction, queue: Option::Some((new_dir, Option::None)) }
            } else {
                s
            }
        },
        Option::Some((first, second)) => {
            if second is None && first != new_dir.spec_opposite() {
                Steering {
                    direction: s.direction,
                    queue: Option::Some((first, Option::Some(new_dir))),
                }
            } else {
                s
            }
        },
    }
}

/// The direction committed by the next tick: the first queued one if any.
pub open spec fn spec_advanced_direction(s: Steering) -> Direction {
    match s.queue {
        Option::Some((first, _)) => first,
        Option::None => s.direction,
    }
}

/// The queue after a tick: the second slot shifts into the first.
pub open spec fn spec_advanced_queue(s: Steering) -> Option<(Direction, Option<Direction>)> {
    match s.queue {
        Option::Some((_, Option::Some(second))) => Option::Some((second, Option::None)),
        _ => Option::None,
    }
}

impl Steering {
    /// A queued direction never reverses what will be committed just before
    /// it: the first slot never opposes the committed direction, and the
    /// second never opposes the first.
    pub open spec fn wf(self) -> bool {
        match self.queue {
            Option::None => true,
            Option::Some((first, second)) => {
                &&& first != self.direction.spec_opposite()
                &&& match second {
                    Option::Some(d) => d != first.spec_opposite(),
                    Option::None => true,
                }
            },
        }
    }

    /// The steering state at the start of a run: moving right, empty queue.
    pub fn initial() -> (s: Steering)
        ensures
            s == (Steering { direction: Direction::Right, queue: Option::None::<
                (Direction, Option<Direction>),
            > }),
            s.wf(),
    {
        Steering { direction: Direction::Right, queue: Option::None }
    }

    /// Queue a direction change, or silently drop it when it is unsafe or
    /// the queue is full.
    pub fn steer(&mut self, new_dir: Direction)
        ensures
            *final(self) == spec_steer(*old(self), new_dir),
            old(self).wf() ==> final(self).wf(),
    {
        match &mut self.queue {
            Option::None => {
                if self.direction != new_dir && self.direction != new_dir.opposite() {
                    self.queue = Option::Some((new_dir, Option::None));
                }
            },
            Option::Some((first, second)) => {
                if second.is_none() && *first != new_dir.opposite() {
                    *second = Option::Some(new_dir);
                }
            },
        }
    }

    /// Pop the first queued direction into the committed one, shifting the
    /// second slot forward, and return the (possibly unchanged) committed
    /// direction.
    pub fn advance(&mut self) -> (d: Direction)
        ensures
            d == spec_advanced_direction(*old(self)),
            final(self).direction == d,
            final(self).queue == spec_advanced_queue(*old(self)),
            old(self).wf() ==> final(self).wf(),
            old(self).wf() ==> d != old(self).direction.spec_opposite(),
    {
        if let Option::Some((first, second)) = self.queue {
            self.direction = first;
            self.queue = match second {
                Option::Some(d) => Option::Some((d, Option::None)),
                Option::None => Option::None,
            };
        }
        self.direction
    }
}

/// Steering never allows two consecutive committed directions to be exact
/// opposites: from a well-formed steering state, the direction committed by
/// the next tick never reverses the one committed before it.
pub proof fn lemma_no_immediate_reversal(s: Steering)
    requires
        s.wf(),
    ensures
        spec_advanced_direction(s) != s.direction.spec_opposite(),
{
}

/// Queueing requests keeps a steering state well formed, whatever is asked.
pub proof fn lemma_steer_preserves_wf(s: Steering, new_dir: Direction)
    requires
        s.wf(),
    ensures
        spec_steer(s, new_dir).wf(),
        spec_steer(s, new_dir).direction == s.direction,
{
}

} // verus!
