//! The food lifecycle: spawning at a free cell on a timer, aging and
//! rotting away, and the live-food counter driven by the event bus.

use vstd::prelude::*;

use crate::events::Events;
use crate::events::EventReader;
use crate::events::GameEvent;
use crate::position::Position;
use crate::rng::random_below;
use crate::snake::SnakeMoveTimer;
use crate::snake::SnakeSegments;
use crate::timer::Timer;
use crate::ARENA_HEIGHT;
use crate::ARENA_WIDTH;
use crate::FOOD_CEILING;
use crate::FOOD_LIFE_SPAN_MS;
use crate::FOOD_SPAWN_RATE_MS;

verus! {

/// The one-shot countdown after which a food item rots away.
#[derive(Copy, Clone, PartialEq, Eq, Structural, Debug)]
pub struct LifeSpan(pub Timer);

/// One live food item on the grid.
#[derive(Copy, Clone, PartialEq, Eq, Structural, Debug)]
pub struct Food {
    pub position: Position,
    pub life_span: LifeSpan,
}

/// Counter of currently live food items, kept in step with the event bus so
/// the spawner can cap concurrent food.
#[derive(Copy, Clone, PartialEq, Eq, Structural, Debug)]
pub struct FoodCount(pub u32);

/// The periodic timer that paces the food spawner.
#[derive(Copy, Clone, PartialEq, Eq, Structural, Debug)]
pub struct FoodSpawnTimer(pub Timer);

impl Default for FoodSpawnTimer {
    /// A spawn timer armed to the configured spawn period.
    fn default() -> (r: FoodSpawnTimer)
        ensures
            r.0 == (Timer {
                remaining_ms: FOOD_SPAWN_RATE_MS,
                period_ms: FOOD_SPAWN_RATE_MS,
                repeating: true,
                fired: false,
            }),
    {
        FoodSpawnTimer(Timer::new(FOOD_SPAWN_RATE_MS, true))
    }
}

/// Whether some live food item sits on the cell `p`.
pub open spec fn spec_food_at(foods: Seq<Food>, p: Position) -> bool {
    exists|j: int| 0 <= j < foods.len() && foods[j].position == p
}

/// A cell food may spawn at: inside the arena, not occupied by any snake
/// segment, and not already holding a food item.
pub open spec fn spec_cell_free(segments: Seq<Position>, foods: Seq<Food>, p: Position) -> bool {
    p.spec_in_arena() && !segments.contains(p) && !spec_food_at(foods, p)
}

/// Returns whether `v` holds the cell `p`.
fn contains_pos(v: &Vec<Position>, p: Position) -> (r: bool)
    ensures
        r == v@.contains(p),
{
    let mut i: usize = 0;
    while i < v.len()
        invariant
            i <= v@.len(),
            forall|j: int| 0 <= j < i ==> v@[j] != p,
        decreases v@.len() - i,
    {
        if v[i] == p {
            return true;
        }
        i = i + 1;
    }
    false
}

/// Returns whether some food item of `foods` sits on the cell `p`.
fn contains_food_at(foods: &Vec<Food>, p: Position) -> (r: bool)
    ensures
        r == spec_food_at(foods@, p),
{
    let mut i: usize = 0;
    while i < foods.len()
        invariant
            i <= foods@.len(),
            forall|j: int| 0 <= j < i ==> foods@[j].position != p,
        decreases foods@.len() - i,
    {
        if foods[i].position == p {
            return true;
        }
        i = i + 1;
    }
    false
}

/// Collects every free cell of the arena, and nothing else.
fn free_cells(segments: &SnakeSegments, foods: &Vec<Food>) -> (r: Vec<Position>)
    ensures
        forall|k: int|
            0 <= k < r@.len() ==> spec_cell_free(segments.0@, foods@, #[trigger] r@[k]),
        forall|p: Position| #[trigger] spec_cell_free(segments.0@, foods@, p) ==> r@.contains(p),
{
    let mut cells: Vec<Position> = Vec::new();
    let mut x: i32 = 0;
    while x < ARENA_WIDTH
        invariant
            0 <= x <= ARENA_WIDTH,
            forall|k: int|
                0 <= k < cells@.len() ==> spec_cell_free(
                    segments.0@,
                    foods@,
                    #[trigger] cells@[k],
                ),
            forall|p: Position| #[trigger] spec_cell_free(segments.0@, foods@, p) && p.x < x
                ==> cells@.contains(p),
        decreases ARENA_WIDTH - x,
    {
        let mut y: i32 = 0;
        while y < ARENA_HEIGHT
            invariant
                0 <= x < ARENA_WIDTH,
                0 <= y <= ARENA_HEIGHT,
                forall|k: int|
                    0 <= k < cells@.len() ==> spec_cell_free(
                        segments.0@,
                        foods@,
                        #[trigger] cells@[k],
                    ),
                forall|p: Position| #[trigger] spec_cell_free(segments.0@, foods@, p) && p.x < x
                    ==> cells@.contains(p),
                forall|p: Position| #[trigger] spec_cell_free(segments.0@, foods@, p) && p.x == x
                    && p.y < y ==> cells@.contains(p),
            decreases ARENA_HEIGHT - y,
        {
            let p = Position { x, y };
            if !contains_pos(&segments.0, p) && !contains_food_at(foods, p) {
                let ghost before = cells@;
                cells.push(p);
                proof {
                    assert(cells@.contains(p)) by {
                        assert(cells@[before.len() as int] == p);
                    }
                    assert forall|q: Position| before.contains(q) implies cells@.contains(
                        q,
                    ) by {
                        let j = choose|j: int| 0 <= j < before.len() && before[j] == q;
                        assert(cells@[j] == q);
                    }
                }
            }
            y = y + 1;
        }
        x = x + 1;
    }
    cells
}

/// On a spawn-timer tick: when the live-food counter reads below the
/// ceiling and some cell is free of the snake and of the live food, creates
/// one food item at a free cell with the configured lifespan and publishes
/// FoodSpawned. Food positions stay unique among food and disjoint from the
/// snake at spawn time; a full grid is an expected end-game state and
/// no-ops silently.
pub fn food_spawner(
    timer: &mut FoodSpawnTimer,
    elapsed_ms: u64,
    live_food: &FoodCount,
    segments: &SnakeSegments,
    foods: &mut Vec<Food>,
    events: &mut Events,
)
    ensures
        final(timer).0 == old(timer).0.spec_tick(elapsed_ms),
        ({
            let will_spawn = old(timer).0.spec_tick(elapsed_ms).fired && live_food.0
                < FOOD_CEILING && (exists|p: Position|
                spec_cell_free(segments.0@, old(foods)@, p));
            if will_spawn {
                &&& final(foods)@.len() == old(foods)@.len() + 1
                &&& final(foods)@.take(old(foods)@.len() as int) == old(foods)@
                &&& spec_cell_free(segments.0@, old(foods)@, final(foods)@.last().position)
                &&& (forall|j: int|
                    0 <= j < old(foods)@.len() ==> (#[trigger] old(foods)@[j]).position
                        != final(foods)@.last().position)
                &&& final(foods)@.last().life_span.0 == (Timer {
                    remaining_ms: FOOD_LIFE_SPAN_MS,
                    period_ms: FOOD_LIFE_SPAN_MS,
                    repeating: false,
                    fired: false,
                })
                &&& final(events).queue@ == old(events).queue@.push(GameEvent::FoodSpawned)
            } else {
                &&& final(foods)@ == old(foods)@
                &&& final(events).queue@ == old(events).queue@
            }
        }),
{
    timer.0.tick(elapsed_ms);
    if !timer.0.fired || live_food.0 >= FOOD_CEILING {
        return ;
    }
    let cells = free_cells(segments, foods);
    if cells.len() == 0 {
        proof {
            if exists|p: Position| spec_cell_free(segments.0@, foods@, p) {
                let p = choose|p: Position| spec_cell_free(segments.0@, foods@, p);
                assert(cells@.contains(p));
            }
        }
        return ;
    }
    let idx = random_below(cells.len());
    let position = cells[idx];
    let ghost before = foods@;
    foods.push(Food { position, life_span: LifeSpan(Timer::new(FOOD_LIFE_SPAN_MS, false)) });
    events.send(GameEvent::FoodSpawned);
    proof {
        assert(foods@.take(before.len() as int) =~= before);
        assert forall|j: int| 0 <= j < before.len() implies (#[trigger] before[j]).position
            != position by {
            assert(!spec_food_at(before, position));
        }
    }
}

/// One food item after `elapsed_ms` more milliseconds have passed.
pub open spec fn spec_aged(f: Food, elapsed_ms: u64) -> Food {
    Food { position: f.position, life_span: LifeSpan(f.life_span.0.spec_tick(elapsed_ms)) }
}

/// The foods that survive aging by `elapsed_ms`, each aged, in their
/// original order.
pub open spec fn spec_survivors(foods: Seq<Food>, elapsed_ms: u64) -> Seq<Food>
    decreases foods.len(),
{
    if foods.len() == 0 {
        Seq::empty()
    } else {
        let rest = spec_survivors(foods.drop_last(), elapsed_ms);
        let aged = spec_aged(foods.last(), elapsed_ms);
        if aged.life_span.0.fired {
            rest
        } else {
            rest.push(aged)
        }
    }
}

/// How many foods rot away when aged by `elapsed_ms`.
pub open spec fn spec_rotted_count(foods: Seq<Food>, elapsed_ms: u64) -> nat
    decreases foods.len(),
{
    if foods.len() == 0 {
        0
    } else {
        spec_rotted_count(foods.drop_last(), elapsed_ms) + if spec_aged(
            foods.last(),
            elapsed_ms,
        ).life_span.0.fired {
            1nat
        } else {
            0nat
        }
    }
}

/// Every tick: ages every live food item by the elapsed time, removes each
/// one whose countdown ran out, and publishes one FoodRotted event per
/// removed item.
pub fn food_despawner(foods: &mut Vec<Food>, elapsed_ms: u64, events: &mut Events)
    ensures
        final(foods)@ == spec_survivors(old(foods)@, elapsed_ms),
        final(events).queue@ == old(events).queue@ + Seq::new(
            spec_rotted_count(old(foods)@, elapsed_ms),
            |i: int| GameEvent::FoodRotted,
        ),
{
    let ghost snap = foods@;
    let ghost queue0 = events.queue@;
    let mut kept: Vec<Food> = Vec::new();
    let mut i: usize = 0;
    while i < foods.len()
        invariant
            i <= foods@.len(),
            foods@ == snap,
            kept@ == spec_survivors(snap.take(i as int), elapsed_ms),
            events.queue@ == queue0 + Seq::new(
                spec_rotted_count(snap.take(i as int), elapsed_ms),
                |j: int| GameEvent::FoodRotted,
            ),
        decreases foods@.len() - i,
    {
        let f = foods[i];
        let mut life = f.life_span.0;
        life.tick(elapsed_ms);
        let aged = Food { position: f.position, life_span: LifeSpan(life) };
        proof {
            assert(snap.take(i + 1).drop_last() =~= snap.take(i as int));
            assert(snap.take(i + 1).last() == snap[i as int]);
        }
        if aged.life_span.0.fired {
            events.send(GameEvent::FoodRotted);
            proof {
                assert(events.queue@ =~= queue0 + Seq::new(
                    spec_rotted_count(snap.take(i + 1), elapsed_ms),
                    |j: int| GameEvent::FoodRotted,
                ));
            }
        } else {
            kept.push(aged);
        }
        i = i + 1;
    }
    proof {
        assert(snap.take(snap.len() as int) =~= snap);
    }
    *foods = kept;
}

/// The foods left after the snake's head ate everything on its own cell,
/// in their original order.
pub open spec fn spec_uneaten(foods: Seq<Food>, head: Position) -> Seq<Food>
    decreases foods.len(),
{
    if foods.len() == 0 {
        Seq::empty()
    } else {
        let rest = spec_uneaten(foods.drop_last(), head);
        if foods.last().position == head {
            rest
        } else {
            rest.push(foods.last())
        }
    }
}

/// How many food items sit on the head's cell.
pub open spec fn spec_eaten_count(foods: Seq<Food>, head: Position) -> nat
    decreases foods.len(),
{
    if foods.len() == 0 {
        0
    } else {
        spec_eaten_count(foods.drop_last(), head) + if foods.last().position == head {
            1nat
        } else {
            0nat
        }
    }
}

/// Eating removes exactly the foods on the head's cell.
pub proof fn lemma_uneaten_len(foods: Seq<Food>, head: Position)
    ensures
        spec_eaten_count(foods, head) <= foods.len(),
        spec_uneaten(foods, head).len() == foods.len() - spec_eaten_count(foods, head),
    decreases foods.len(),
{
    if foods.len() > 0 {
        lemma_uneaten_len(foods.drop_last(), head);
    }
}

/// Rotting removes exactly the foods whose countdown ran out.
pub proof fn lemma_survivors_len(foods: Seq<Food>, elapsed_ms: u64)
    ensures
        spec_rotted_count(foods, elapsed_ms) <= foods.len(),
        spec_survivors(foods, elapsed_ms).len() == foods.len() - spec_rotted_count(
            foods,
            elapsed_ms,
        ),
    decreases foods.len(),
{
    if foods.len() > 0 {
        lemma_survivors_len(foods.drop_last(), elapsed_ms);
    }
}

/// Only on ticks where the move timer fired: removes every food item on the
/// head's cell and publishes one Growth event per removed item; several
/// simultaneous matches are all processed.
pub fn snake_eating(
    timer: &SnakeMoveTimer,
    segments: &SnakeSegments,
    foods: &mut Vec<Food>,
    events: &mut Events,
)
    requires
        segments.0@.len() >= 1,
    ensures
        !timer.0.fired ==> final(foods)@ == old(foods)@ && final(events).queue@ == old(
            events,
        ).queue@,
        timer.0.fired ==> {
            &&& final(foods)@ == spec_uneaten(old(foods)@, segments.0@[0])
            &&& final(events).queue@ == old(events).queue@ + Seq::new(
                spec_eaten_count(old(foods)@, segments.0@[0]),
                |i: int| GameEvent::Growth,
            )
        },
{
    if !timer.0.fired {
        return ;
    }
    let head = segments.0[0];
    let ghost snap = foods@;
    let ghost queue0 = events.queue@;
    let mut kept: Vec<Food> = Vec::new();
    let mut i: usize = 0;
    while i < foods.len()
        invariant
            i <= foods@.len(),
            foods@ == snap,
            kept@ == spec_uneaten(snap.take(i as int), head),
            events.queue@ == queue0 + Seq::new(
                spec_eaten_count(snap.take(i as int), head),
                |j: int| GameEvent::Growth,
            ),
        decreases foods@.len() - i,
    {
        let f = foods[i];
        proof {
            assert(snap.take(i + 1).drop_last() =~= snap.take(i as int));
            assert(snap.take(i + 1).last() == snap[i as int]);
        }
        if f.position == head {
            events.send(GameEvent::Growth);
            proof {
                assert(events.queue@ =~= queue0 + Seq::new(
                    spec_eaten_count(snap.take(i + 1), head),
                    |j: int| GameEvent::Growth,
                ));
            }
        } else {
            kept.push(f);
        }
        i = i + 1;
    }
    proof {
        assert(snap.take(snap.len() as int) =~= snap);
    }
    *foods = kept;
}

/// The live-food counter after folding a batch of events over a starting
/// value: FoodSpawned raises it by one; Growth and FoodRotted each lower it
/// by one, stopping at zero; GameOver resets it to zero.
pub open spec fn spec_count_after(events: Seq<GameEvent>, start: nat) -> nat
    decreases events.len(),
{
    if events.len() == 0 {
        start
    } else {
        let c = spec_count_after(events.drop_last(), start);
        match events.last() {
            GameEvent::FoodSpawned => c + 1,
            GameEvent::Growth => if c > 0 {
                (c - 1) as nat
            } else {
                0
            },
            GameEvent::FoodRotted => if c > 0 {
                (c - 1) as nat
            } else {
                0
            },
            GameEvent::GameOver => 0,
        }
    }
}

/// Consumes every unread event and folds it into the live-food counter.
pub fn food_count(fc: &mut FoodCount, events: &Events, reader: &mut EventReader)
    requires
        old(reader).wf(*events),
        old(fc).0 + old(reader).unread(*events).len() <= u32::MAX,
    ensures
        final(reader).cursor == events.queue@.len(),
        final(fc).0 == spec_count_after(old(reader).unread(*events), old(fc).0 as nat),
{
    let ghost start = fc.0 as nat;
    let ghost cut = reader.cursor as int;
    let n = events.len();
    let mut i: usize = reader.cursor;
    while i < n
        invariant
            0 <= cut <= i <= n,
            n == events.queue@.len(),
            fc.0 == spec_count_after(events.queue@.subrange(cut, i as int), start),
            fc.0 <= start + (i - cut),
            start + (n - cut) <= u32::MAX,
        decreases n - i,
    {
        proof {
            assert(events.queue@.subrange(cut, i + 1).drop_last() =~= events.queue@.subrange(
                cut,
                i as int,
            ));
            assert(events.queue@.subrange(cut, i + 1).last() == events.queue@[i as int]);
        }
        match events.get(i) {
            GameEvent::FoodSpawned => {
                fc.0 = fc.0 + 1;
            },
            GameEvent::Growth => {
                if fc.0 > 0 {
                    fc.0 = fc.0 - 1;
                }
            },
            GameEvent::FoodRotted => {
                if fc.0 > 0 {
                    fc.0 = fc.0 - 1;
                }
            },
            GameEvent::GameOver => {
                fc.0 = 0;
            },
        }
        i = i + 1;
    }
    reader.cursor = n;
    proof {
        assert(events.queue@.subrange(cut, n as int) =~= old(reader).unread(*events));
    }
}

/// How many FoodSpawned events a batch holds.
pub open spec fn spec_spawned_count(events: Seq<GameEvent>) -> nat
    decreases events.len(),
{
    if events.len() == 0 {
        0
    } else {
        spec_spawned_count(events.drop_last()) + if events.last() == GameEvent::FoodSpawned {
            1nat
        } else {
            0nat
        }
    }
}

/// Folding a batch of events raises the counter by at most the number of
/// FoodSpawned events in the batch.
pub proof fn lemma_count_spawn_bound(events: Seq<GameEvent>, start: nat)
    ensures
        spec_count_after(events, start) <= start + spec_spawned_count(events),
    decreases events.len(),
{
    if events.len() > 0 {
        lemma_count_spawn_bound(events.drop_last(), start);
    }
}

/// The live-food counter never goes negative, whatever events arrive in
/// whatever order: the fold stays at or above zero.
pub proof fn lemma_count_never_negative(events: Seq<GameEvent>, start: nat)
    ensures
        spec_count_after(events, start) >= 0,
{
}

/// Food ceiling law: a tick's events hold at most one FoodSpawned — the
/// spawner publishes it only after reading a counter below the ceiling —
/// and folding such a batch over a counter at or below the ceiling leaves
/// the counter at or below the ceiling.
pub proof fn lemma_food_ceiling(events: Seq<GameEvent>, start: nat)
    requires
        start <= FOOD_CEILING,
        spec_spawned_count(events) <= 1,
        spec_spawned_count(events) == 1 ==> start < FOOD_CEILING,
    ensures
        spec_count_after(events, start) <= FOOD_CEILING,
{
    lemma_count_spawn_bound(events, start);
}

/// A batch whose last event is GameOver folds the counter to zero,
/// whatever came before it and whatever the counter held.
pub proof fn lemma_count_reset_on_game_over(events: Seq<GameEvent>, start: nat)
    requires
        events.len() > 0,
        events.last() == GameEvent::GameOver,
    ensures
        spec_count_after(events, start) == 0,
{
}

/// Folding a concatenation folds its parts in order.
pub proof fn lemma_count_after_concat(a: Seq<GameEvent>, b: Seq<GameEvent>, start: nat)
    ensures
        spec_count_after(a + b, start) == spec_count_after(b, spec_count_after(a, start)),
    decreases b.len(),
{
    if b.len() == 0 {
        assert(a + b =~= a);
    } else {
        assert((a + b).drop_last() =~= a + b.drop_last());
        assert((a + b).last() == b.last());
        lemma_count_after_concat(a, b.drop_last(), start);
    }
}

/// What folding a single event does to the counter.
pub proof fn lemma_count_after_one(e: GameEvent, start: nat)
    ensures
        spec_count_after(seq![e], start) == match e {
            GameEvent::FoodSpawned => start + 1,
            GameEvent::Growth => if start > 0 {
                (start - 1) as nat
            } else {
                0
            },
            GameEvent::FoodRotted => if start > 0 {
                (start - 1) as nat
            } else {
                0
            },
            GameEvent::GameOver => 0nat,
        },
{
    assert(seq![e].drop_last() =~= Seq::<GameEvent>::empty());
    assert(spec_count_after(Seq::<GameEvent>::empty(), start) == start);
    assert(seq![e].last() == e);
}

/// Folding a batch made of nothing but Growth and FoodRotted events lowers
/// the counter by the batch's length, stopping at zero.
pub proof fn lemma_count_after_decrements(events: Seq<GameEvent>, start: nat)
    requires
        forall|i: int|
            0 <= i < events.len() ==> #[trigger] events[i] == GameEvent::Growth || events[i]
                == GameEvent::FoodRotted,
    ensures
        spec_count_after(events, start) == if events.len() <= start {
            (start - events.len()) as nat
        } else {
            0nat
        },
    decreases events.len(),
{
    if events.len() > 0 {
        lemma_count_after_decrements(events.drop_last(), start);
    }
}

} // verus!
