//! Runs of several ticks, and how long the snake is after them.

use crate::direction::Direction;
use crate::grid::GridView;
use crate::position::Position;
use crate::snake::{lemma_step_length, SnakeView, Status};
use vstd::prelude::*;

verus! {

/// What the snake meets at one tick: the heading that the player has given
/// it by then, and the grid as it is then, with the apples where they are.
pub struct Tick {
    pub dir: Direction,
    pub grid: GridView,
}

/// The snake `s` after the given ticks, the first of them first.
pub open spec fn after(s: SnakeView, ticks: Seq<Tick>) -> SnakeView
    decreases ticks.len(),
{
    if ticks.len() == 0 {
        s
    } else {
        let tick = ticks.last();
        SnakeView { dir: tick.dir, ..after(s, ticks.drop_last()) }.step(tick.grid)
    }
}

/// How many of the given ticks ended with the snake `s` eating.
pub open spec fn meals(s: SnakeView, ticks: Seq<Tick>) -> nat
    decreases ticks.len(),
{
    if ticks.len() == 0 {
        0
    } else {
        meals(s, ticks.drop_last()) + if after(s, ticks).status == Status::Ate {
            1nat
        } else {
            0nat
        }
    }
}

/// How many of the given ticks killed the snake `s` right after a tick on
/// which it had eaten, so that the meal never became a segment.
pub open spec fn lost_meals(s: SnakeView, ticks: Seq<Tick>) -> nat
    decreases ticks.len(),
{
    if ticks.len() == 0 {
        0
    } else {
        lost_meals(s, ticks.drop_last()) + if after(s, ticks.drop_last()).status == Status::Ate
            && after(s, ticks).status == Status::Died {
            1nat
        } else {
            0nat
        }
    }
}

/// The segment that a snake is still owed: one if it has eaten on its last
/// tick, none otherwise.
pub open spec fn owed(s: SnakeView) -> nat {
    if s.status == Status::Ate {
        1
    } else {
        0
    }
}

/// Every meal becomes a segment one tick later, unless the snake dies on
/// that tick. So after any run of ticks, the length of the snake and the
/// segment that it is still owed add up to what it began with and the meals
/// that it had, less the meal that its death may have cost it.
pub proof fn lemma_chain_length(s: SnakeView, ticks: Seq<Tick>)
    requires
        s.wf(),
    ensures
        after(s, ticks).wf(),
        after(s, ticks).segments.len() + owed(after(s, ticks)) + lost_meals(s, ticks)
            == s.segments.len() + owed(s) + meals(s, ticks),
        lost_meals(s, ticks) <= 1,
        lost_meals(s, ticks) == 1 ==> after(s, ticks).status == Status::Died,
    decreases ticks.len(),
{
    if ticks.len() > 0 {
        let tick = ticks.last();
        lemma_chain_length(s, ticks.drop_last());
        let before = SnakeView { dir: tick.dir, ..after(s, ticks.drop_last()) };
        lemma_step_length(before, tick.grid);
    }
}

/// A snake that began with one segment has one segment more for each tick
/// on which it ate, once its last meal has become a segment and provided
/// that it did not die right after a meal.
pub proof fn lemma_one_segment_per_meal(origin: Position, ticks: Seq<Tick>)
    requires
        after(SnakeView::fresh(origin), ticks).status != Status::Ate,
        lost_meals(SnakeView::fresh(origin), ticks) == 0,
    ensures
        after(SnakeView::fresh(origin), ticks).segments.len() == 1 + meals(
            SnakeView::fresh(origin),
            ticks,
        ),
{
    lemma_chain_length(SnakeView::fresh(origin), ticks);
}

} // verus!
