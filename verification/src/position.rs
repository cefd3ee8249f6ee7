//! Grid cells, arena bounds, and the two boundary policies a deployment can
//! pick for the snake's head when it leaves the arena.

use vstd::prelude::*;

use crate::direction::Direction;
use crate::ARENA_HEIGHT;
use crate::ARENA_WIDTH;

verus! {

/// A cell of the discrete grid.
#[derive(Copy, Clone, PartialEq, Eq, Structural, Hash, Debug)]
pub struct Position {
    pub x: i32,
    pub y: i32,
}

/// What happens when the snake's head steps over the edge of the arena.
#[derive(Copy, Clone, PartialEq, Eq, Structural, Debug)]
pub enum BoundaryPolicy {
    /// An out-of-range coordinate is normalized back into the arena.
    WrapAround,
    /// Leaving the arena ends the game.
    WallDeath,
}

impl Position {
    /// True when the cell lies inside the arena.
    pub open spec fn spec_in_arena(self) -> bool {
        0 <= self.x < ARENA_WIDTH && 0 <= self.y < ARENA_HEIGHT
    }

    /// Returns whether the cell lies inside the arena.
    pub fn in_arena(&self) -> (r: bool)
        ensures
            r == self.spec_in_arena(),
    {
        0 <= self.x && self.x < ARENA_WIDTH && 0 <= self.y && self.y < ARENA_HEIGHT
    }
}

/// The cell one step from `p` along `d`, before any boundary policy is
/// applied. Up increases `y`, Right increases `x`.
pub open spec fn spec_step(p: Position, d: Direction) -> Position {
    match d {
        Direction::Left => Position { x: (p.x - 1) as i32, y: p.y },
        Direction::Right => Position { x: (p.x + 1) as i32, y: p.y },
        Direction::Up => Position { x: p.x, y: (p.y + 1) as i32 },
        Direction::Down => Position { x: p.x, y: (p.y - 1) as i32 },
    }
}

/// One coordinate normalized back into `[0, dim)` after a single step out of
/// range.
pub open spec fn spec_wrap_coord(c: int, dim: int) -> int {
    if c < 0 {
        dim - 1
    } else if c >= dim {
        0
    } else {
        c
    }
}

/// The cell one step from `p` along `d` under the wrap-around policy.
pub open spec fn spec_step_wrapped(p: Position, d: Direction) -> Position {
    let s = spec_step(p, d);
    Position {
        x: spec_wrap_coord(s.x as int, ARENA_WIDTH as int) as i32,
        y: spec_wrap_coord(s.y as int, ARENA_HEIGHT as int) as i32,
    }
}

/// Steps one cell along `d` and normalizes the result back into the arena.
pub fn step_wrapped(p: Position, d: Direction) -> (r: Position)
    requires
        p.spec_in_arena(),
    ensures
        r == spec_step_wrapped(p, d),
        r.spec_in_arena(),
{
    let stepped = match d {
        Direction::Left => Position { x: p.x - 1, y: p.y },
        Direction::Right => Position { x: p.x + 1, y: p.y },
        Direction::Up => Position { x: p.x, y: p.y + 1 },
        Direction::Down => Position { x: p.x, y: p.y - 1 },
    };
    let x = if stepped.x < 0 {
        ARENA_WIDTH - 1
    } else if stepped.x >= ARENA_WIDTH {
        0
    } else {
        stepped.x
    };
    let y = if stepped.y < 0 {
        ARENA_HEIGHT - 1
    } else if stepped.y >= ARENA_HEIGHT {
        0
    } else {
        stepped.y
    };
    Position { x, y }
}

/// Steps one cell along `d` without normalizing; the result may lie one cell
/// outside the arena.
pub fn step_raw(p: Position, d: Direction) -> (r: Position)
    requires
        p.spec_in_arena(),
    ensures
        r == spec_step(p, d),
{
    match d {
        Direction::Left => Position { x: p.x - 1, y: p.y },
        Direction::Right => Position { x: p.x + 1, y: p.y },
        Direction::Up => Position { x: p.x, y: p.y + 1 },
        Direction::Down => Position { x: p.x, y: p.y - 1 },
    }
}

} // verus!
