//! The reset handler and the whole-game state machine: one bundle of owned
//! state and one entry point that advances every component once, in the
//! fixed per-tick order.

use vstd::prelude::*;

use crate::direction::Direction;
use crate::events::lemma_contains_concat;
use crate::events::EventReader;
use crate::events::Events;
use crate::events::GameEvent;
use crate::food::food_count;
use crate::food::food_despawner;
use crate::food::food_spawner;
use crate::food::lemma_count_after_concat;
use crate::food::lemma_count_after_decrements;
use crate::food::lemma_count_after_one;
use crate::food::lemma_survivors_len;
use crate::food::lemma_uneaten_len;
use crate::food::snake_eating;
use crate::food::spec_cell_free;
use crate::food::spec_count_after;
use crate::food::spec_eaten_count;
use crate::food::spec_rotted_count;
use crate::food::spec_survivors;
use crate::food::spec_uneaten;
use crate::food::Food;
use crate::food::FoodCount;
use crate::food::FoodSpawnTimer;
use crate::position::BoundaryPolicy;
use crate::position::Position;
use crate::rng::random_direction;
use crate::snake::snake_growth;
use crate::snake::snake_movement;
use crate::snake::snake_timer;
use crate::snake::spawn_snake;
use crate::snake::spec_accept_heading;
use crate::snake::spec_behind;
use crate::snake::spec_center;
use crate::snake::spec_move_game_over;
use crate::snake::spec_move_segments;
use crate::snake::spec_next_interval;
use crate::snake::LastTailPosition;
use crate::snake::MovementDuration;
use crate::snake::SnakeHead;
use crate::snake::SnakeMoveTimer;
use crate::snake::SnakeSegments;
use crate::timer::Timer;
use crate::FOOD_CEILING;
use crate::FOOD_LIFE_SPAN_MS;
use crate::MOVE_INTERVAL_BASE_MS;
use crate::MOVE_INTERVAL_MIN_MS;
use crate::MOVE_INTERVAL_STEP_MS;

verus! {

/// On a pending GameOver event: destroys every food item, rearms the move
/// timer to the base interval, and respawns a fresh snake of length two at
/// the center, with a random heading and the tail one cell behind it.
pub fn game_over(
    events: &Events,
    reader: &mut EventReader,
    head: &mut SnakeHead,
    segments: &mut SnakeSegments,
    foods: &mut Vec<Food>,
    timer: &mut SnakeMoveTimer,
)
    requires
        old(reader).wf(*events),
    ensures
        final(reader).cursor == events.queue@.len(),
        old(reader).unread(*events).contains(GameEvent::GameOver) ==> {
            &&& final(foods)@ == Seq::<Food>::empty()
            &&& final(segments).0@ == seq![
                spec_center(),
                spec_behind(spec_center(), final(head).direction),
            ]
            &&& final(segments).wf()
            &&& final(timer).0 == (Timer {
                remaining_ms: MOVE_INTERVAL_BASE_MS,
                period_ms: MOVE_INTERVAL_BASE_MS,
                repeating: true,
                fired: false,
            })
        },
        !old(reader).unread(*events).contains(GameEvent::GameOver) ==> {
            &&& final(foods)@ == old(foods)@
            &&& final(segments).0@ == old(segments).0@
            &&& *final(head) == *old(head)
            &&& *final(timer) == *old(timer)
        },
{
    if reader.drain_contains(events, GameEvent::GameOver) {
        *foods = Vec::new();
        timer.0 = Timer::new(MOVE_INTERVAL_BASE_MS, true);
        let direction = random_direction();
        spawn_snake(head, segments, direction);
    }
}

/// All the owned state of one running game.
pub struct GameState {
    pub policy: BoundaryPolicy,
    pub head: SnakeHead,
    pub segments: SnakeSegments,
    pub last_tail: LastTailPosition,
    pub move_timer: SnakeMoveTimer,
    pub move_duration: MovementDuration,
    pub foods: Vec<Food>,
    pub food_count: FoodCount,
    pub spawn_timer: FoodSpawnTimer,
    pub events: Events,
    pub growth_reader: EventReader,
    pub game_over_reader: EventReader,
    pub count_reader: EventReader,
}

impl GameState {
    /// The invariant every tick preserves: the snake is well-formed, the
    /// cached tail cell lies in the arena, every reader has drained what it
    /// is due to act on, the live-food counter matches the live food items,
    /// the counter stays at or below the ceiling, and the move interval
    /// stays at or above the floor.
    pub open spec fn wf(self) -> bool {
        &&& self.segments.wf()
        &&& match self.last_tail.0 {
            Some(p) => p.spec_in_arena(),
            None => true,
        }
        &&& self.growth_reader.wf(self.events)
        &&& !self.growth_reader.unread(self.events).contains(GameEvent::Growth)
        &&& self.game_over_reader.wf(self.events)
        &&& !self.game_over_reader.unread(self.events).contains(GameEvent::GameOver)
        &&& self.count_reader.cursor == self.events.queue@.len()
        &&& self.foods@.len() == self.food_count.0
        &&& self.food_count.0 <= FOOD_CEILING
        &&& self.move_duration.0 >= MOVE_INTERVAL_MIN_MS
    }

    /// A fresh game under `policy`: a snake of length two at the center
    /// heading `direction`, no food, all timers at their base values.
    pub fn new(policy: BoundaryPolicy, direction: Direction) -> (r: GameState)
        ensures
            r.wf(),
            r.policy == policy,
            r.head.direction == direction,
            r.segments.0@ == seq![spec_center(), spec_behind(spec_center(), direction)],
            r.foods@ == Seq::<Food>::empty(),
            r.food_count.0 == 0,
            r.move_duration.0 == MOVE_INTERVAL_BASE_MS,
            r.move_timer.0 == (Timer {
                remaining_ms: MOVE_INTERVAL_BASE_MS,
                period_ms: MOVE_INTERVAL_BASE_MS,
                repeating: true,
                fired: false,
            }),
            r.events.queue@ == Seq::<GameEvent>::empty(),
            r.last_tail.0 is None,
    {
        let mut head = SnakeHead { direction };
        let mut segments = SnakeSegments(Vec::new());
        spawn_snake(&mut head, &mut segments, direction);
        GameState {
            policy,
            head,
            segments,
            last_tail: LastTailPosition(None),
            move_timer: SnakeMoveTimer(Timer::new(MOVE_INTERVAL_BASE_MS, true)),
            move_duration: MovementDuration(MOVE_INTERVAL_BASE_MS),
            foods: Vec::new(),
            food_count: FoodCount(0),
            spawn_timer: FoodSpawnTimer::default(),
            events: Events::new(),
            growth_reader: EventReader::new(),
            game_over_reader: EventReader::new(),
            count_reader: EventReader::new(),
        }
    }

    /// A fresh game under `policy` with a random heading: everything else
    /// matches a fresh game under that heading.
    pub fn new_random(policy: BoundaryPolicy) -> (r: GameState)
        ensures
            r.wf(),
            r.policy == policy,
            r.segments.0@ == seq![spec_center(), spec_behind(spec_center(), r.head.direction)],
            r.foods@ == Seq::<Food>::empty(),
            r.food_count.0 == 0,
            r.move_duration.0 == MOVE_INTERVAL_BASE_MS,
            r.move_timer.0 == (Timer {
                remaining_ms: MOVE_INTERVAL_BASE_MS,
                period_ms: MOVE_INTERVAL_BASE_MS,
                repeating: true,
                fired: false,
            }),
            r.events.queue@ == Seq::<GameEvent>::empty(),
            r.last_tail.0 is None,
    {
        GameState::new(policy, random_direction())
    }
}

/// A reader that drained the queue before this tick sees of it only what
/// the tick itself appended.
proof fn lemma_unread_contains(
    base: Seq<GameEvent>,
    p1: Seq<GameEvent>,
    p2: Seq<GameEvent>,
    e: GameEvent,
)
    requires
        !base.contains(e),
    ensures
        (base + (p1 + p2)).contains(e) <==> p1.contains(e) || p2.contains(e),
{
    lemma_contains_concat(base, p1 + p2, e);
    lemma_contains_concat(p1, p2, e);
}

/// Events made only of FoodSpawned and FoodRotted hold no Growth and no
/// GameOver.
proof fn lemma_tail_events_benign(p3: Seq<GameEvent>, p4: Seq<GameEvent>)
    requires
        forall|i: int| 0 <= i < p3.len() ==> #[trigger] p3[i] == GameEvent::FoodSpawned,
        forall|i: int| 0 <= i < p4.len() ==> #[trigger] p4[i] == GameEvent::FoodRotted,
    ensures
        !(p3 + p4).contains(GameEvent::Growth),
        !(p3 + p4).contains(GameEvent::GameOver),
{
    lemma_contains_concat(p3, p4, GameEvent::Growth);
    lemma_contains_concat(p3, p4, GameEvent::GameOver);
    if p3.contains(GameEvent::Growth) {
        let j = choose|j: int| 0 <= j < p3.len() && p3[j] == GameEvent::Growth;
        assert(false);
    }
    if p4.contains(GameEvent::Growth) {
        let j = choose|j: int| 0 <= j < p4.len() && p4[j] == GameEvent::Growth;
        assert(false);
    }
    if p3.contains(GameEvent::GameOver) {
        let j = choose|j: int| 0 <= j < p3.len() && p3[j] == GameEvent::GameOver;
        assert(false);
    }
    if p4.contains(GameEvent::GameOver) {
        let j = choose|j: int| 0 <= j < p4.len() && p4[j] == GameEvent::GameOver;
        assert(false);
    }
}

/// Folding one tick's own events — an optional GameOver, the Growth burst,
/// an optional FoodSpawned, the FoodRotted burst, in that order — over the
/// tick's starting counter gives exactly the tick's closing number of live
/// foods, and never tops the ceiling.
proof fn lemma_tick_count(
    p1: Seq<GameEvent>,
    p2: Seq<GameEvent>,
    p3: Seq<GameEvent>,
    p4: Seq<GameEvent>,
    c0: nat,
    go: bool,
    spawned: bool,
)
    requires
        c0 <= FOOD_CEILING,
        go ==> p1 =~= seq![GameEvent::GameOver],
        !go ==> p1.len() == 0,
        forall|i: int| 0 <= i < p2.len() ==> #[trigger] p2[i] == GameEvent::Growth,
        spawned ==> p3 =~= seq![GameEvent::FoodSpawned],
        !spawned ==> p3.len() == 0,
        spawned ==> c0 < FOOD_CEILING,
        forall|i: int| 0 <= i < p4.len() ==> #[trigger] p4[i] == GameEvent::FoodRotted,
        !go ==> p2.len() <= c0,
        p4.len() <= (if go {
            0int
        } else {
            c0 - p2.len()
        }) + (if spawned {
            1int
        } else {
            0int
        }),
    ensures
        spec_count_after(p1 + p2 + p3 + p4, c0) == (if go {
            0int
        } else {
            c0 - p2.len()
        }) + (if spawned {
            1int
        } else {
            0int
        }) - p4.len(),
        spec_count_after(p1 + p2 + p3 + p4, c0) <= FOOD_CEILING,
{
    lemma_count_after_concat(p1 + p2 + p3, p4, c0);
    lemma_count_after_concat(p1 + p2, p3, c0);
    lemma_count_after_concat(p1, p2, c0);
    let c1 = spec_count_after(p1, c0);
    if go {
        lemma_count_after_one(GameEvent::GameOver, c0);
        assert(c1 == 0);
    } else {
        assert(p1 =~= Seq::<GameEvent>::empty());
        assert(c1 == c0);
    }
    let c2 = spec_count_after(p2, c1);
    lemma_count_after_decrements(p2, c1);
    let c3 = spec_count_after(p3, c2);
    if spawned {
        lemma_count_after_one(GameEvent::FoodSpawned, c2);
        assert(c3 == c2 + 1);
    } else {
        assert(p3 =~= Seq::<GameEvent>::empty());
        assert(c3 == c2);
    }
    lemma_count_after_decrements(p4, c3);
}


/// The snake half of a tick: time advance, direction and movement, eating,
/// growth, game over, in that order. Pins the heading, segments, tail
/// cache, move timer, move interval, foods and published events of the
/// half-tick; only a respawned heading is left open.
#[verifier::rlimit(100)]
fn advance_snake(gs: &mut GameState, elapsed_ms: u64, requested: Option<Direction>)
    requires
        old(gs).wf(),
    ensures
        final(gs).policy == old(gs).policy,
        final(gs).spawn_timer == old(gs).spawn_timer,
        final(gs).food_count == old(gs).food_count,
        final(gs).count_reader == old(gs).count_reader,
        final(gs).segments.wf(),
        final(gs).last_tail.0 == Some(old(gs).segments.0@.last()),
        final(gs).growth_reader.cursor == final(gs).events.queue@.len(),
        final(gs).game_over_reader.cursor == final(gs).events.queue@.len(),
        final(gs).move_duration.0 >= MOVE_INTERVAL_MIN_MS,
        ({
            let fired = old(gs).move_timer.0.spec_tick(elapsed_ms).fired;
            let h = spec_accept_heading(old(gs).head.direction, requested);
            let snap = old(gs).segments.0@;
            let moved = spec_move_segments(snap, h, old(gs).policy);
            let go = fired && spec_move_game_over(snap, h, old(gs).policy);
            let k: nat = if fired {
                spec_eaten_count(old(gs).foods@, moved[0])
            } else {
                0nat
            };
            let foods_eaten = if fired {
                spec_uneaten(old(gs).foods@, moved[0])
            } else {
                old(gs).foods@
            };
            &&& k <= old(gs).food_count.0
            &&& !go ==> final(gs).head.direction == h
            &&& !fired ==> final(gs).segments.0@ == snap
            &&& fired && !go && k == 0 ==> final(gs).segments.0@ == moved
            &&& fired && !go && k >= 1 ==> final(gs).segments.0@ == moved.push(snap.last())
            &&& go ==> final(gs).segments.0@ == seq![
                spec_center(),
                spec_behind(spec_center(), final(gs).head.direction),
            ]
            &&& k >= 1 ==> final(gs).move_duration.0 == spec_next_interval(
                old(gs).move_duration.0,
            )
            &&& k == 0 ==> final(gs).move_duration.0 == old(gs).move_duration.0
            &&& go ==> final(gs).move_timer.0 == (Timer {
                remaining_ms: MOVE_INTERVAL_BASE_MS,
                period_ms: MOVE_INTERVAL_BASE_MS,
                repeating: true,
                fired: false,
            })
            &&& !go && k == 0 ==> final(gs).move_timer.0 == old(gs).move_timer.0.spec_tick(
                elapsed_ms,
            )
            &&& !go && k >= 1 ==> final(gs).move_timer.0 == (if old(gs).move_duration.0
                >= MOVE_INTERVAL_MIN_MS + MOVE_INTERVAL_STEP_MS {
                Timer {
                    remaining_ms: spec_next_interval(old(gs).move_duration.0),
                    period_ms: spec_next_interval(old(gs).move_duration.0),
                    repeating: true,
                    fired: false,
                }
            } else {
                old(gs).move_timer.0.spec_tick(elapsed_ms)
            })
            &&& final(gs).foods@ == (if go {
                Seq::<Food>::empty()
            } else {
                foods_eaten
            })
            &&& final(gs).foods@.len() == (if go {
                0int
            } else {
                old(gs).food_count.0 - k
            })
            &&& final(gs).events.queue@ == old(gs).events.queue@ + (if go {
                seq![GameEvent::GameOver]
            } else {
                Seq::<GameEvent>::empty()
            }) + Seq::new(k, |i: int| GameEvent::Growth)
        }),
{
    let ghost q0 = gs.events.queue@;
    let ghost foods0 = gs.foods@;
    let ghost gcur0 = gs.growth_reader.cursor as int;
    let ghost gocur0 = gs.game_over_reader.cursor as int;
    let ghost head_dir0 = gs.head.direction;
    let ghost snap0 = gs.segments.0@;

    // 1. Time advance.
    snake_timer(elapsed_ms, &mut gs.move_timer);
    let ghost fired = gs.move_timer.0.fired;

    // 2. Direction and movement.
    snake_movement(
        requested,
        gs.policy,
        &gs.move_timer,
        &mut gs.head,
        &mut gs.segments,
        &mut gs.last_tail,
        &mut gs.events,
    );
    let ghost h1 = spec_accept_heading(head_dir0, requested);
    let ghost q1 = gs.events.queue@;
    let ghost go1 = fired && spec_move_game_over(snap0, h1, gs.policy);
    let ghost p1: Seq<GameEvent> = if go1 {
        seq![GameEvent::GameOver]
    } else {
        Seq::<GameEvent>::empty()
    };
    proof {
        assert(q1 =~= q0 + p1);
        assert(forall|i: int| 0 <= i < p1.len() ==> p1[i] == GameEvent::GameOver);
    }

    // 3. Eating.
    let ghost head1 = gs.segments.0@[0];
    snake_eating(&gs.move_timer, &gs.segments, &mut gs.foods, &mut gs.events);
    let ghost q2 = gs.events.queue@;
    let ghost k: nat = if fired {
        spec_eaten_count(foods0, head1)
    } else {
        0nat
    };
    let ghost p2: Seq<GameEvent> = Seq::new(k, |i: int| GameEvent::Growth);
    let ghost foods1 = gs.foods@;
    proof {
        assert(q2 =~= q1 + p2);
        lemma_uneaten_len(foods0, head1);
    }

    // 4. Growth.
    proof {
        assert(gs.growth_reader.unread(gs.events) =~= q0.skip(gcur0) + (p1 + p2));
        lemma_unread_contains(q0.skip(gcur0), p1, p2, GameEvent::Growth);
        if p1.contains(GameEvent::Growth) {
            let j = choose|j: int| 0 <= j < p1.len() && p1[j] == GameEvent::Growth;
            assert(false);
        }
        if p2.contains(GameEvent::Growth) {
            assert(k >= 1);
        }
        if k >= 1 {
            assert(p2[0] == GameEvent::Growth);
        }
        assert(gs.growth_reader.unread(gs.events).contains(GameEvent::Growth) <==> k >= 1);
    }
    let ghost dur0 = gs.move_duration.0;
    snake_growth(
        &gs.events,
        &mut gs.growth_reader,
        &gs.last_tail,
        &mut gs.segments,
        &mut gs.move_timer,
        &mut gs.move_duration,
    );
    proof {
        crate::snake::lemma_interval_floor(dur0);
        assert(gs.segments.wf());
    }

    // 5. Game over.
    proof {
        assert(gs.game_over_reader.unread(gs.events) =~= q0.skip(gocur0) + (p1 + p2));
        lemma_unread_contains(q0.skip(gocur0), p1, p2, GameEvent::GameOver);
        if p2.contains(GameEvent::GameOver) {
            let j = choose|j: int| 0 <= j < p2.len() && p2[j] == GameEvent::GameOver;
            assert(false);
        }
        if go1 {
            assert(p1[0] == GameEvent::GameOver);
        }
        assert(gs.game_over_reader.unread(gs.events).contains(GameEvent::GameOver) <==> go1);
    }
    game_over(
        &gs.events,
        &mut gs.game_over_reader,
        &mut gs.head,
        &mut gs.segments,
        &mut gs.foods,
        &mut gs.move_timer,
    );
    proof {
        if fired {
            assert(head1 == spec_move_segments(snap0, h1, old(gs).policy)[0]);
        }
        assert(gs.events.queue@ =~= q0 + p1 + p2);
        assert(gs.foods@ == if go1 {
            Seq::<Food>::empty()
        } else {
            foods1
        });
    }
}

/// The food half of a tick: spawn, despawn, count, in that order. The two
/// ghost arguments say which events the snake half of this tick published:
/// whether a GameOver, and how many Growths.
#[verifier::rlimit(100)]
fn advance_food(gs: &mut GameState, elapsed_ms: u64, Ghost(go): Ghost<bool>, Ghost(k): Ghost<nat>)
    requires
        old(gs).count_reader.wf(old(gs).events),
        old(gs).count_reader.unread(old(gs).events) =~= (if go {
            seq![GameEvent::GameOver]
        } else {
            Seq::<GameEvent>::empty()
        }) + Seq::new(k, |i: int| GameEvent::Growth),
        old(gs).growth_reader.cursor == old(gs).events.queue@.len(),
        old(gs).game_over_reader.cursor == old(gs).events.queue@.len(),
        old(gs).food_count.0 <= FOOD_CEILING,
        k <= old(gs).food_count.0,
        old(gs).foods@.len() == (if go {
            0int
        } else {
            old(gs).food_count.0 - k
        }),
    ensures
        final(gs).policy == old(gs).policy,
        final(gs).head == old(gs).head,
        final(gs).segments == old(gs).segments,
        final(gs).last_tail == old(gs).last_tail,
        final(gs).move_timer == old(gs).move_timer,
        final(gs).move_duration == old(gs).move_duration,
        final(gs).spawn_timer.0 == old(gs).spawn_timer.0.spec_tick(elapsed_ms),
        final(gs).food_count.0 == final(gs).foods@.len(),
        final(gs).food_count.0 <= FOOD_CEILING,
        final(gs).growth_reader.wf(final(gs).events),
        !final(gs).growth_reader.unread(final(gs).events).contains(GameEvent::Growth),
        final(gs).game_over_reader.wf(final(gs).events),
        !final(gs).game_over_reader.unread(final(gs).events).contains(GameEvent::GameOver),
        final(gs).count_reader.cursor == final(gs).events.queue@.len(),
        ({
            let spawning = old(gs).spawn_timer.0.spec_tick(elapsed_ms).fired && old(
                gs,
            ).food_count.0 < FOOD_CEILING && (exists|p: Position|
                spec_cell_free(old(gs).segments.0@, old(gs).foods@, p));
            &&& !spawning ==> final(gs).foods@ == spec_survivors(old(gs).foods@, elapsed_ms)
            &&& spawning ==> (exists|f: Food|
                {
                    &&& spec_cell_free(old(gs).segments.0@, old(gs).foods@, f.position)
                    &&& f.life_span.0 == (Timer {
                        remaining_ms: FOOD_LIFE_SPAN_MS,
                        period_ms: FOOD_LIFE_SPAN_MS,
                        repeating: false,
                        fired: false,
                    })
                    &&& final(gs).foods@ == #[trigger] spec_survivors(
                        old(gs).foods@.push(f),
                        elapsed_ms,
                    )
                })
        }),
{
    let ghost c0 = gs.food_count.0 as nat;
    let ghost q2 = gs.events.queue@;
    let ghost foods2 = gs.foods@;
    let ghost p1: Seq<GameEvent> = if go {
        seq![GameEvent::GameOver]
    } else {
        Seq::<GameEvent>::empty()
    };
    let ghost p2: Seq<GameEvent> = Seq::new(k, |i: int| GameEvent::Growth);

    // 6. Food spawn.
    let ghost spawn_snap = gs.segments.0@;
    let ghost spawn_timer0 = gs.spawn_timer.0;
    food_spawner(
        &mut gs.spawn_timer,
        elapsed_ms,
        &gs.food_count,
        &gs.segments,
        &mut gs.foods,
        &mut gs.events,
    );
    let ghost q3 = gs.events.queue@;
    let ghost spawned = spawn_timer0.spec_tick(elapsed_ms).fired && c0 < FOOD_CEILING && (
    exists|p: Position| spec_cell_free(spawn_snap, foods2, p));
    let ghost s: nat = if spawned {
        1nat
    } else {
        0nat
    };
    let ghost p3: Seq<GameEvent> = if spawned {
        seq![GameEvent::FoodSpawned]
    } else {
        Seq::<GameEvent>::empty()
    };
    let ghost foods3 = gs.foods@;
    proof {
        assert(q3 =~= q2 + p3);
        assert(foods3.len() == foods2.len() + s);
    }

    // 7. Food despawn.
    food_despawner(&mut gs.foods, elapsed_ms, &mut gs.events);
    let ghost q4 = gs.events.queue@;
    let ghost r: nat = spec_rotted_count(foods3, elapsed_ms);
    let ghost p4: Seq<GameEvent> = Seq::new(r, |i: int| GameEvent::FoodRotted);
    proof {
        assert(q4 =~= q3 + p4);
        lemma_survivors_len(foods3, elapsed_ms);
    }

    // 8. Food count.
    let ghost unread0 = gs.count_reader.unread(gs.events);
    proof {
        assert(unread0 =~= (p1 + p2 + p3 + p4));
        assert(unread0.len() <= 1 + c0 + 1 + (c0 + 1));
    }
    food_count(&mut gs.food_count, &gs.events, &mut gs.count_reader);

    // The counter again matches the live food items and stays at or below
    // the ceiling; the snake-side readers see none of the food events.
    proof {
        lemma_tick_count(p1, p2, p3, p4, c0, go, spawned);
        assert(gs.food_count.0 == spec_count_after(p1 + p2 + p3 + p4, c0));
        assert(gs.food_count.0 == gs.foods@.len());
        assert(gs.growth_reader.unread(gs.events) =~= (p3 + p4));
        assert(gs.game_over_reader.unread(gs.events) =~= (p3 + p4));
        lemma_tail_events_benign(p3, p4);
        if spawned {
            let f = foods3.last();
            assert(foods3 =~= foods2.push(f));
            assert(gs.foods@ == spec_survivors(foods2.push(f), elapsed_ms));
            assert(spec_cell_free(spawn_snap, foods2, f.position));
        } else {
            assert(foods3 == foods2);
            assert(gs.foods@ == spec_survivors(foods2, elapsed_ms));
        }
    }
}

/// Whether the move timer fires on a tick of `elapsed_ms`.
pub open spec fn spec_tick_fired(pre: GameState, elapsed_ms: u64) -> bool {
    pre.move_timer.0.spec_tick(elapsed_ms).fired
}

/// The heading the tick settles on, after the reversal rule.
pub open spec fn spec_tick_heading(pre: GameState, requested: Option<Direction>) -> Direction {
    spec_accept_heading(pre.head.direction, requested)
}

/// The segment cells after the tick's move, before any growth or reset.
pub open spec fn spec_tick_moved(pre: GameState, requested: Option<Direction>) -> Seq<Position> {
    spec_move_segments(pre.segments.0@, spec_tick_heading(pre, requested), pre.policy)
}

/// Whether the tick's move ends the game.
pub open spec fn spec_tick_game_over(
    pre: GameState,
    elapsed_ms: u64,
    requested: Option<Direction>,
) -> bool {
    spec_tick_fired(pre, elapsed_ms) && spec_move_game_over(
        pre.segments.0@,
        spec_tick_heading(pre, requested),
        pre.policy,
    )
}

/// How many food items the tick's move eats.
pub open spec fn spec_tick_eaten(
    pre: GameState,
    elapsed_ms: u64,
    requested: Option<Direction>,
) -> nat {
    if spec_tick_fired(pre, elapsed_ms) {
        spec_eaten_count(pre.foods@, spec_tick_moved(pre, requested)[0])
    } else {
        0nat
    }
}

/// The food items after the tick's eating and a possible reset, before the
/// spawn and rot phases.
pub open spec fn spec_tick_foods_after_snake(
    pre: GameState,
    elapsed_ms: u64,
    requested: Option<Direction>,
) -> Seq<Food> {
    if spec_tick_game_over(pre, elapsed_ms, requested) {
        Seq::<Food>::empty()
    } else if spec_tick_fired(pre, elapsed_ms) {
        spec_uneaten(pre.foods@, spec_tick_moved(pre, requested)[0])
    } else {
        pre.foods@
    }
}

/// Whether the tick spawns a food item: its spawn timer fires, the counter
/// it read stands below the ceiling, and a cell is free of the snake and
/// of the live food.
pub open spec fn spec_tick_spawning(
    pre: GameState,
    post: GameState,
    elapsed_ms: u64,
    requested: Option<Direction>,
) -> bool {
    &&& pre.spawn_timer.0.spec_tick(elapsed_ms).fired
    &&& pre.food_count.0 < FOOD_CEILING
    &&& exists|p: Position|
        spec_cell_free(
            post.segments.0@,
            spec_tick_foods_after_snake(pre, elapsed_ms, requested),
            p,
        )
}

/// Advances the whole game by one tick: time advance, direction and
/// movement, eating, growth, game over, food spawn, food despawn, food
/// count — in that fixed order. Preserves the game invariant and pins each
/// phase's outcome; only the chancy parts (which free cell a spawn lands
/// on, the respawned heading) are left existential.
#[verifier::rlimit(100)]
pub fn tick(gs: &mut GameState, elapsed_ms: u64, requested: Option<Direction>)
    requires
        old(gs).wf(),
    ensures
        final(gs).wf(),
        final(gs).policy == old(gs).policy,
        final(gs).move_duration.0 <= old(gs).move_duration.0,
        final(gs).spawn_timer.0 == old(gs).spawn_timer.0.spec_tick(elapsed_ms),
        final(gs).last_tail.0 == Some(old(gs).segments.0@.last()),
        final(gs).food_count.0 == final(gs).foods@.len(),
        !spec_tick_game_over(*old(gs), elapsed_ms, requested) ==> final(gs).head.direction
            == spec_tick_heading(*old(gs), requested),
        !spec_tick_fired(*old(gs), elapsed_ms) ==> final(gs).segments.0@ == old(gs).segments.0@,
        spec_tick_fired(*old(gs), elapsed_ms) && !spec_tick_game_over(
            *old(gs),
            elapsed_ms,
            requested,
        ) && spec_tick_eaten(*old(gs), elapsed_ms, requested) == 0 ==> final(gs).segments.0@
            == spec_tick_moved(*old(gs), requested),
        spec_tick_fired(*old(gs), elapsed_ms) && !spec_tick_game_over(
            *old(gs),
            elapsed_ms,
            requested,
        ) && spec_tick_eaten(*old(gs), elapsed_ms, requested) >= 1 ==> final(gs).segments.0@
            == spec_tick_moved(*old(gs), requested).push(old(gs).segments.0@.last()),
        spec_tick_game_over(*old(gs), elapsed_ms, requested) ==> final(gs).segments.0@ == seq![
            spec_center(),
            spec_behind(spec_center(), final(gs).head.direction),
        ],
        spec_tick_eaten(*old(gs), elapsed_ms, requested) >= 1 ==> final(gs).move_duration.0
            == spec_next_interval(old(gs).move_duration.0),
        spec_tick_eaten(*old(gs), elapsed_ms, requested) == 0 ==> final(gs).move_duration.0
            == old(gs).move_duration.0,
        spec_tick_game_over(*old(gs), elapsed_ms, requested) ==> final(gs).move_timer.0 == (Timer {
            remaining_ms: MOVE_INTERVAL_BASE_MS,
            period_ms: MOVE_INTERVAL_BASE_MS,
            repeating: true,
            fired: false,
        }),
        !spec_tick_game_over(*old(gs), elapsed_ms, requested) && spec_tick_eaten(
            *old(gs),
            elapsed_ms,
            requested,
        ) == 0 ==> final(gs).move_timer.0 == old(gs).move_timer.0.spec_tick(elapsed_ms),
        !spec_tick_game_over(*old(gs), elapsed_ms, requested) && spec_tick_eaten(
            *old(gs),
            elapsed_ms,
            requested,
        ) >= 1 ==> final(gs).move_timer.0 == (if old(gs).move_duration.0 >= MOVE_INTERVAL_MIN_MS
            + MOVE_INTERVAL_STEP_MS {
            Timer {
                remaining_ms: spec_next_interval(old(gs).move_duration.0),
                period_ms: spec_next_interval(old(gs).move_duration.0),
                repeating: true,
                fired: false,
            }
        } else {
            old(gs).move_timer.0.spec_tick(elapsed_ms)
        }),
        !spec_tick_spawning(*old(gs), *final(gs), elapsed_ms, requested) ==> final(gs).foods@
            == spec_survivors(
            spec_tick_foods_after_snake(*old(gs), elapsed_ms, requested),
            elapsed_ms,
        ),
        spec_tick_spawning(*old(gs), *final(gs), elapsed_ms, requested) ==> (exists|f: Food|
            {
                &&& spec_cell_free(
                    final(gs).segments.0@,
                    spec_tick_foods_after_snake(*old(gs), elapsed_ms, requested),
                    f.position,
                )
                &&& f.life_span.0 == (Timer {
                    remaining_ms: FOOD_LIFE_SPAN_MS,
                    period_ms: FOOD_LIFE_SPAN_MS,
                    repeating: false,
                    fired: false,
                })
                &&& final(gs).foods@ == #[trigger] spec_survivors(
                    spec_tick_foods_after_snake(*old(gs), elapsed_ms, requested).push(f),
                    elapsed_ms,
                )
            }),
{
    let ghost fired = old(gs).move_timer.0.spec_tick(elapsed_ms).fired;
    let ghost h = spec_accept_heading(old(gs).head.direction, requested);
    let ghost snap = old(gs).segments.0@;
    let ghost moved = spec_move_segments(snap, h, old(gs).policy);
    let ghost go = fired && spec_move_game_over(snap, h, old(gs).policy);
    let ghost k: nat = if fired {
        spec_eaten_count(old(gs).foods@, moved[0])
    } else {
        0nat
    };

    advance_snake(gs, elapsed_ms, requested);
    let ghost mid = *gs;
    proof {
        assert(gs.count_reader.unread(gs.events) =~= (if go {
            seq![GameEvent::GameOver]
        } else {
            Seq::<GameEvent>::empty()
        }) + Seq::new(k, |i: int| GameEvent::Growth));
    }

    advance_food(gs, elapsed_ms, Ghost(go), Ghost(k));

    proof {
        assert(gs.segments == mid.segments);
        assert(gs.segments.wf());
        assert(match gs.last_tail.0 {
            Some(p) => p.spec_in_arena(),
            None => true,
        });

        // Bridge the two phase contracts to the tick-level clauses.
        let foods_eaten = if fired {
            spec_uneaten(old(gs).foods@, moved[0])
        } else {
            old(gs).foods@
        };
        let foods_reset = if go {
            Seq::<Food>::empty()
        } else {
            foods_eaten
        };
        assert(mid.foods@ == foods_reset);
        assert(mid.food_count == old(gs).food_count);
        assert(mid.spawn_timer == old(gs).spawn_timer);
        let spawning = mid.spawn_timer.0.spec_tick(elapsed_ms).fired && mid.food_count.0
            < FOOD_CEILING && (exists|p: Position|
            spec_cell_free(mid.segments.0@, mid.foods@, p));
        if spawning {
            let f = choose|f: Food|
                {
                    &&& spec_cell_free(mid.segments.0@, mid.foods@, f.position)
                    &&& f.life_span.0 == (Timer {
                        remaining_ms: FOOD_LIFE_SPAN_MS,
                        period_ms: FOOD_LIFE_SPAN_MS,
                        repeating: false,
                        fired: false,
                    })
                    &&& gs.foods@ == #[trigger] spec_survivors(mid.foods@.push(f), elapsed_ms)
                };
            assert(gs.foods@ == spec_survivors(foods_reset.push(f), elapsed_ms));
            assert(spec_cell_free(gs.segments.0@, foods_reset, f.position));
        } else {
            assert(gs.foods@ == spec_survivors(foods_reset, elapsed_ms));
        }

        // State each tick-level clause outright, so the contract follows
        // from ground facts.
        let ate = fired && spec_eaten_count(old(gs).foods@, moved[0]) >= 1;
        assert(ate <==> k >= 1);
        assert(!go ==> gs.head.direction == h);
        assert(!fired ==> gs.segments.0@ == snap);
        assert(fired && !go && !ate ==> gs.segments.0@ == moved);
        assert(fired && !go && ate ==> gs.segments.0@ == moved.push(snap.last()));
        assert(go ==> gs.segments.0@ == seq![
            spec_center(),
            spec_behind(spec_center(), gs.head.direction),
        ]);
        assert(ate ==> gs.move_duration.0 == spec_next_interval(old(gs).move_duration.0));
        assert(!ate ==> gs.move_duration.0 == old(gs).move_duration.0);
        assert(go ==> gs.move_timer.0 == (Timer {
            remaining_ms: MOVE_INTERVAL_BASE_MS,
            period_ms: MOVE_INTERVAL_BASE_MS,
            repeating: true,
            fired: false,
        }));
        assert(!go && !ate ==> gs.move_timer.0 == old(gs).move_timer.0.spec_tick(elapsed_ms));
        assert(!go && ate ==> gs.move_timer.0 == (if old(gs).move_duration.0
            >= MOVE_INTERVAL_MIN_MS + MOVE_INTERVAL_STEP_MS {
            Timer {
                remaining_ms: spec_next_interval(old(gs).move_duration.0),
                period_ms: spec_next_interval(old(gs).move_duration.0),
                repeating: true,
                fired: false,
            }
        } else {
            old(gs).move_timer.0.spec_tick(elapsed_ms)
        }));
        assert(spawning <==> (old(gs).spawn_timer.0.spec_tick(elapsed_ms).fired && old(
            gs,
        ).food_count.0 < FOOD_CEILING && (exists|p: Position|
            spec_cell_free(gs.segments.0@, foods_reset, p))));
        assert(!spawning ==> gs.foods@ == spec_survivors(foods_reset, elapsed_ms));
    }
}

} // verus!
