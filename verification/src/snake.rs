//! The snake itself: its segments, heading, growth bookkeeping, and the
//! movement/collision engine that advances it one cell per fired move tick.

use vstd::prelude::*;

use crate::direction::Direction;
use crate::events::Events;
use crate::events::EventReader;
use crate::events::GameEvent;
use crate::position::BoundaryPolicy;
use crate::position::Position;
use crate::position::spec_step;
use crate::position::spec_step_wrapped;
use crate::position::step_raw;
use crate::position::step_wrapped;
use crate::timer::Timer;
use crate::ARENA_HEIGHT;
use crate::ARENA_WIDTH;
use crate::MOVE_INTERVAL_MIN_MS;
use crate::MOVE_INTERVAL_STEP_MS;

verus! {

/// The snake's current heading.
#[derive(Copy, Clone, PartialEq, Eq, Structural, Debug)]
pub struct SnakeHead {
    pub direction: Direction,
}

/// The segment cells of the snake, the head first.
pub struct SnakeSegments(pub Vec<Position>);

/// The tail's cell before the most recent shift, where a newly grown
/// segment is placed.
#[derive(Copy, Clone, PartialEq, Eq, Structural, Debug)]
pub struct LastTailPosition(pub Option<Position>);

/// The current interval between automatic moves, in milliseconds.
#[derive(Copy, Clone, PartialEq, Eq, Structural, Debug)]
pub struct MovementDuration(pub u64);

/// The repeating timer whose firing lets the snake advance one cell.
#[derive(Copy, Clone, PartialEq, Eq, Structural, Debug)]
pub struct SnakeMoveTimer(pub Timer);

impl SnakeSegments {
    /// The snake is never shorter than head plus one body segment, and every
    /// segment lies inside the arena.
    pub open spec fn wf(self) -> bool {
        &&& self.0@.len() >= 2
        &&& forall|i: int| 0 <= i < self.0@.len() ==> (#[trigger] self.0@[i]).spec_in_arena()
    }
}

/// The heading after the reversal rule: a request to turn straight back into
/// the body is rejected, anything else is taken; no request keeps the
/// current heading.
pub open spec fn spec_accept_heading(current: Direction, requested: Option<Direction>) -> Direction {
    match requested {
        Some(d) => if d == current.spec_opposite() {
            current
        } else {
            d
        },
        None => current,
    }
}

/// A requested direction equal to the reverse of the current heading never
/// changes the heading.
pub proof fn lemma_reversal_rejected(h: Direction)
    ensures
        spec_accept_heading(h, Some(h.spec_opposite())) == h,
{
}

/// Whether the cell `p` hits the snake's pre-move body: every snapshot cell
/// counts except the tail's, which is vacated by the very move under check.
pub open spec fn spec_hits_body(snapshot: Seq<Position>, p: Position) -> bool {
    exists|i: int| 0 <= i < snapshot.len() - 1 && snapshot[i] == p
}

/// The segment cells after one shift: the new head cell in front, and every
/// trailing segment on the cell the segment ahead of it held before.
pub open spec fn spec_shifted(snapshot: Seq<Position>, new_head: Position) -> Seq<Position> {
    seq![new_head] + snapshot.take(snapshot.len() - 1)
}

/// The segment cells after one fired move tick along `h` under `policy`.
/// Under wall-death an out-of-range step leaves the segments in place.
pub open spec fn spec_move_segments(
    snapshot: Seq<Position>,
    h: Direction,
    policy: BoundaryPolicy,
) -> Seq<Position> {
    match policy {
        BoundaryPolicy::WrapAround => spec_shifted(snapshot, spec_step_wrapped(snapshot[0], h)),
        BoundaryPolicy::WallDeath => {
            let nh = spec_step(snapshot[0], h);
            if nh.spec_in_arena() {
                spec_shifted(snapshot, nh)
            } else {
                snapshot
            }
        },
    }
}

/// Whether one fired move tick along `h` under `policy` ends the game.
pub open spec fn spec_move_game_over(
    snapshot: Seq<Position>,
    h: Direction,
    policy: BoundaryPolicy,
) -> bool {
    match policy {
        BoundaryPolicy::WrapAround => spec_hits_body(snapshot, spec_step_wrapped(snapshot[0], h)),
        BoundaryPolicy::WallDeath => {
            let nh = spec_step(snapshot[0], h);
            !nh.spec_in_arena() || spec_hits_body(snapshot, nh)
        },
    }
}

/// The grid cell at the center of the arena, where a fresh snake's head
/// spawns.
pub open spec fn spec_center() -> Position {
    Position { x: (ARENA_WIDTH / 2) as i32, y: (ARENA_HEIGHT / 2) as i32 }
}

/// The cell one step behind `head` against the heading `d`, where the tail
/// of a fresh snake goes.
pub open spec fn spec_behind(head: Position, d: Direction) -> Position {
    spec_step(head, d.spec_opposite())
}

/// Replaces the snake with a fresh one of length two: the head at the
/// center of the arena, the tail one cell behind it against the heading.
pub fn spawn_snake(head: &mut SnakeHead, segments: &mut SnakeSegments, direction: Direction)
    ensures
        final(head).direction == direction,
        final(segments).0@ =~= seq![spec_center(), spec_behind(spec_center(), direction)],
        final(segments).wf(),
{
    head.direction = direction;
    let center = Position { x: ARENA_WIDTH / 2, y: ARENA_HEIGHT / 2 };
    let tail = step_raw(center, direction.opposite());
    let mut cells: Vec<Position> = Vec::new();
    cells.push(center);
    cells.push(tail);
    segments.0 = cells;
}

/// Appends one segment at `position`, at the tail end.
pub fn spawn_segment(segments: &mut SnakeSegments, position: Position)
    ensures
        final(segments).0@ == old(segments).0@.push(position),
{
    segments.0.push(position);
}

/// Advances the move timer by the tick's elapsed wall time.
pub fn snake_timer(elapsed_ms: u64, timer: &mut SnakeMoveTimer)
    ensures
        final(timer).0 == old(timer).0.spec_tick(elapsed_ms),
{
    timer.0.tick(elapsed_ms);
}

/// Once per tick: applies the reversal rule to the requested direction,
/// caches the tail's cell, and — only when the move timer has fired —
/// advances the head one cell along the accepted heading, applies the
/// boundary policy, checks self-collision against the pre-move snapshot
/// (the vacating tail excepted), and shifts every trailing segment onto the
/// cell the segment ahead of it held before the move. Collisions emit a
/// GameOver event; the engine itself never fails.
pub fn snake_movement(
    requested: Option<Direction>,
    policy: BoundaryPolicy,
    timer: &SnakeMoveTimer,
    head: &mut SnakeHead,
    segments: &mut SnakeSegments,
    last_tail: &mut LastTailPosition,
    events: &mut Events,
)
    requires
        old(segments).wf(),
    ensures
        final(segments).wf(),
        final(head).direction == spec_accept_heading(old(head).direction, requested),
        final(last_tail).0 == Some(old(segments).0@.last()),
        !timer.0.fired ==> final(segments).0@ == old(segments).0@ && final(events).queue@ == old(
            events,
        ).queue@,
        timer.0.fired ==> {
            let h = spec_accept_heading(old(head).direction, requested);
            let snap = old(segments).0@;
            &&& final(segments).0@ == spec_move_segments(snap, h, policy)
            &&& final(events).queue@ == if spec_move_game_over(snap, h, policy) {
                old(events).queue@.push(GameEvent::GameOver)
            } else {
                old(events).queue@
            }
        },
{
    let ghost snap = segments.0@;

    // Reversal rule: take the request unless it points straight back.
    let dir = match requested {
        Some(d) => d,
        None => head.direction,
    };
    if dir != head.direction.opposite() {
        head.direction = dir;
    }

    // Cache the tail's cell for a growth event later this tick.
    last_tail.0 = Some(segments.0[segments.0.len() - 1]);

    if !timer.0.fired {
        return ;
    }

    // Advance the head one cell and apply the boundary policy.
    let head_pos = segments.0[0];
    let new_head = match policy {
        BoundaryPolicy::WrapAround => step_wrapped(head_pos, head.direction),
        BoundaryPolicy::WallDeath => {
            let stepped = step_raw(head_pos, head.direction);
            if !stepped.in_arena() {
                // Leaving the arena ends the game; the move is skipped.
                events.send(GameEvent::GameOver);
                return ;
            }
            stepped
        },
    };

    // Self-collision against the pre-move snapshot, the vacating tail cell
    // excepted.
    let last = segments.0.len() - 1;
    let mut hits = false;
    let mut i: usize = 0;
    while i < last
        invariant
            last == snap.len() - 1,
            i <= last,
            segments.0@ == snap,
            hits == exists|j: int| 0 <= j < i && snap[j] == new_head,
        decreases last - i,
    {
        if segments.0[i] == new_head {
            hits = true;
        }
        i = i + 1;
    }
    if hits {
        events.send(GameEvent::GameOver);
    }

    // Shift the body: back to front, each segment takes the cell of the one
    // ahead of it; then place the head.
    let mut idx = last;
    while idx >= 1
        invariant
            last == snap.len() - 1,
            idx <= last,
            segments.0@.len() == snap.len(),
            forall|j: int| idx < j <= last ==> segments.0@[j] == snap[j - 1],
            forall|j: int| 0 <= j <= idx ==> segments.0@[j] == snap[j],
        decreases idx,
    {
        let prev = segments.0[idx - 1];
        segments.0[idx] = prev;
        idx = idx - 1;
    }
    segments.0[0] = new_head;

    proof {
        assert(segments.0@ =~= spec_shifted(snap, new_head));
    }
}

/// A fired move tick never changes the number of segments.
pub proof fn lemma_move_preserves_length(
    snapshot: Seq<Position>,
    h: Direction,
    policy: BoundaryPolicy,
)
    requires
        snapshot.len() >= 1,
    ensures
        spec_move_segments(snapshot, h, policy).len() == snapshot.len(),
{
}

/// After one fired move tick under wrap-around, each non-head segment
/// stands on the cell the segment ahead of it held before the tick.
pub proof fn lemma_move_continuity(snapshot: Seq<Position>, h: Direction)
    requires
        snapshot.len() >= 1,
    ensures
        forall|i: int|
            1 <= i < snapshot.len() ==> spec_move_segments(
                snapshot,
                h,
                BoundaryPolicy::WrapAround,
            )[i] == snapshot[i - 1],
{
}

/// The segments after a run of fired move ticks under wrap-around with no
/// growth, one accepted heading per tick.
pub open spec fn spec_move_trace(snapshot: Seq<Position>, headings: Seq<Direction>) -> Seq<
    Position,
>
    decreases headings.len(),
{
    if headings.len() == 0 {
        snapshot
    } else {
        spec_move_segments(
            spec_move_trace(snapshot, headings.drop_last()),
            headings.last(),
            BoundaryPolicy::WrapAround,
        )
    }
}

/// Continuity law: however many fired move ticks pass with no growth, the
/// snake keeps its number of segments, and after every tick each non-head
/// segment stands on the cell that the segment ahead of it — an earlier
/// segment — held before that tick, at an earlier time.
pub proof fn lemma_continuity(snapshot: Seq<Position>, headings: Seq<Direction>)
    requires
        snapshot.len() >= 2,
    ensures
        spec_move_trace(snapshot, headings).len() == snapshot.len(),
        forall|k: int, i: int|
            1 <= k <= headings.len() && 1 <= i < snapshot.len() ==> #[trigger] spec_move_trace(
                snapshot,
                headings.take(k),
            )[i] == spec_move_trace(snapshot, headings.take(k - 1))[i - 1],
    decreases headings.len(),
{
    if headings.len() > 0 {
        let shorter = headings.drop_last();
        lemma_continuity(snapshot, shorter);
        lemma_move_preserves_length(
            spec_move_trace(snapshot, shorter),
            headings.last(),
            BoundaryPolicy::WrapAround,
        );
        assert forall|k: int, i: int|
            1 <= k <= headings.len() && 1 <= i < snapshot.len() implies #[trigger] spec_move_trace(
            snapshot,
            headings.take(k),
        )[i] == spec_move_trace(snapshot, headings.take(k - 1))[i - 1] by {
            if k < headings.len() {
                assert(headings.take(k) =~= shorter.take(k));
                assert(headings.take(k - 1) =~= shorter.take(k - 1));
                assert(spec_move_trace(snapshot, shorter.take(k))[i] == spec_move_trace(
                    snapshot,
                    shorter.take(k - 1),
                )[i - 1]);
            } else {
                assert(headings.take(k) =~= headings);
                assert(headings.take(k - 1) =~= shorter);
                lemma_move_continuity(spec_move_trace(snapshot, shorter), headings.last());
            }
        }
    }
}

/// The move interval after one growth event: one step shorter, unless that
/// would push it below the floor.
pub open spec fn spec_next_interval(d: u64) -> u64 {
    if d >= MOVE_INTERVAL_MIN_MS + MOVE_INTERVAL_STEP_MS {
        (d - MOVE_INTERVAL_STEP_MS) as u64
    } else {
        d
    }
}

/// A growth event never drives the move interval below the floor, and never
/// lengthens it.
pub proof fn lemma_interval_floor(d: u64)
    requires
        d >= MOVE_INTERVAL_MIN_MS,
    ensures
        spec_next_interval(d) >= MOVE_INTERVAL_MIN_MS,
        spec_next_interval(d) <= d,
{
}

/// The move interval after `n` growth events.
pub open spec fn spec_interval_after_growths(d: u64, n: nat) -> u64
    decreases n,
{
    if n == 0 {
        d
    } else {
        spec_next_interval(spec_interval_after_growths(d, (n - 1) as nat))
    }
}

/// However many growth events arrive, the move interval never falls below
/// the floor.
pub proof fn lemma_interval_floor_repeated(d: u64, n: nat)
    requires
        d >= MOVE_INTERVAL_MIN_MS,
    ensures
        spec_interval_after_growths(d, n) >= MOVE_INTERVAL_MIN_MS,
    decreases n,
{
    if n > 0 {
        lemma_interval_floor_repeated(d, (n - 1) as nat);
        lemma_interval_floor(spec_interval_after_growths(d, (n - 1) as nat));
    }
}

/// On a pending growth event: appends one segment at the cached pre-move
/// tail cell, and shortens the move interval by one step down to the floor,
/// rearming the move timer with the new interval. At most one growth event
/// is processed per tick; the reader still drains its queue.
pub fn snake_growth(
    events: &Events,
    reader: &mut EventReader,
    last_tail: &LastTailPosition,
    segments: &mut SnakeSegments,
    timer: &mut SnakeMoveTimer,
    duration: &mut MovementDuration,
)
    requires
        old(reader).wf(*events),
        old(reader).unread(*events).contains(GameEvent::Growth) ==> last_tail.0 is Some,
    ensures
        final(reader).cursor == events.queue@.len(),
        old(reader).unread(*events).contains(GameEvent::Growth) ==> {
            &&& final(segments).0@ == old(segments).0@.push(last_tail.0->0)
            &&& final(duration).0 == spec_next_interval(old(duration).0)
            &&& final(timer).0 == if old(duration).0 >= MOVE_INTERVAL_MIN_MS
                + MOVE_INTERVAL_STEP_MS {
                Timer {
                    remaining_ms: spec_next_interval(old(duration).0),
                    period_ms: spec_next_interval(old(duration).0),
                    repeating: true,
                    fired: false,
                }
            } else {
                old(timer).0
            }
        },
        !old(reader).unread(*events).contains(GameEvent::Growth) ==> {
            &&& final(segments).0@ == old(segments).0@
            &&& final(duration).0 == old(duration).0
            &&& final(timer).0 == old(timer).0
        },
{
    let found = reader.drain_contains(events, GameEvent::Growth);
    if found {
        if let Some(p) = last_tail.0 {
            spawn_segment(segments, p);
        }
        if duration.0 >= MOVE_INTERVAL_MIN_MS + MOVE_INTERVAL_STEP_MS {
            duration.0 = duration.0 - MOVE_INTERVAL_STEP_MS;
            timer.0 = Timer::new(duration.0, true);
        }
    }
}

} // verus!
