use snake_core::events::Events;
use snake_core::events::EventReader;
use snake_core::events::GameEvent;
use snake_core::food::food_count;
use snake_core::food::food_despawner;
use snake_core::food::food_spawner;
use snake_core::food::snake_eating;
use snake_core::food::Food;
use snake_core::food::FoodCount;
use snake_core::food::FoodSpawnTimer;
use snake_core::food::LifeSpan;
use snake_core::position::Position;
use snake_core::snake::SnakeMoveTimer;
use snake_core::snake::SnakeSegments;
use snake_core::timer::Timer;

fn pos(x: i32, y: i32) -> Position {
    Position { x, y }
}

fn food_at(x: i32, y: i32, life_ms: u64) -> Food {
    Food { position: pos(x, y), life_span: LifeSpan(Timer::new(life_ms, false)) }
}

fn fired_spawn_timer() -> FoodSpawnTimer {
    // One more millisecond of elapsed time makes this timer fire.
    FoodSpawnTimer(Timer { remaining_ms: 1, period_ms: 2000, repeating: true, fired: false })
}

fn fired_move_timer() -> SnakeMoveTimer {
    SnakeMoveTimer(Timer { remaining_ms: 350, period_ms: 350, repeating: true, fired: true })
}

#[test]
fn spawner_creates_food_at_a_free_cell() {
    let mut timer = fired_spawn_timer();
    let segments = SnakeSegments(vec![pos(7, 7), pos(7, 6)]);
    let mut foods: Vec<Food> = Vec::new();
    let mut events = Events::new();
    food_spawner(&mut timer, 1, &FoodCount(0), &segments, &mut foods, &mut events);
    assert_eq!(foods.len(), 1);
    let f = foods[0];
    assert!(f.position.x >= 0 && f.position.x < 15);
    assert!(f.position.y >= 0 && f.position.y < 15);
    assert!(f.position != pos(7, 7) && f.position != pos(7, 6));
    assert_eq!(f.life_span.0.remaining_ms, 5000);
    assert!(!f.life_span.0.repeating);
    assert_eq!(events.queue, vec![GameEvent::FoodSpawned]);
}

#[test]
fn spawner_at_ceiling_never_spawns() {
    // Live count 10 blocks the spawn even though the timer fires.
    let mut timer = fired_spawn_timer();
    let segments = SnakeSegments(vec![pos(7, 7), pos(7, 6)]);
    let mut foods: Vec<Food> = Vec::new();
    let mut events = Events::new();
    food_spawner(&mut timer, 1, &FoodCount(10), &segments, &mut foods, &mut events);
    assert!(foods.is_empty());
    assert!(events.queue.is_empty());
}

#[test]
fn spawner_without_fired_timer_never_spawns() {
    let mut timer = FoodSpawnTimer(Timer::new(2000, true));
    let segments = SnakeSegments(vec![pos(7, 7), pos(7, 6)]);
    let mut foods: Vec<Food> = Vec::new();
    let mut events = Events::new();
    food_spawner(&mut timer, 1999, &FoodCount(0), &segments, &mut foods, &mut events);
    assert!(foods.is_empty());
    assert!(events.queue.is_empty());
}

#[test]
fn spawner_picks_the_single_free_cell() {
    // The snake covers every cell but (14, 14): the spawn must land there.
    let mut cells = Vec::new();
    for x in 0..15 {
        for y in 0..15 {
            if !(x == 14 && y == 14) {
                cells.push(pos(x, y));
            }
        }
    }
    let segments = SnakeSegments(cells);
    let mut timer = fired_spawn_timer();
    let mut foods: Vec<Food> = Vec::new();
    let mut events = Events::new();
    food_spawner(&mut timer, 1, &FoodCount(0), &segments, &mut foods, &mut events);
    assert_eq!(foods.len(), 1);
    assert_eq!(foods[0].position, pos(14, 14));
    assert_eq!(events.queue, vec![GameEvent::FoodSpawned]);
}

#[test]
fn spawner_never_stacks_food_on_live_food() {
    // The snake covers every cell but (14,13) and (14,14); a live food
    // already sits on (14,14), so the spawn must land on (14,13).
    let mut cells = Vec::new();
    for x in 0..15 {
        for y in 0..15 {
            if !(x == 14 && (y == 13 || y == 14)) {
                cells.push(pos(x, y));
            }
        }
    }
    let segments = SnakeSegments(cells);
    let mut timer = fired_spawn_timer();
    let mut foods = vec![food_at(14, 14, 5000)];
    let mut events = Events::new();
    food_spawner(&mut timer, 1, &FoodCount(1), &segments, &mut foods, &mut events);
    assert_eq!(foods.len(), 2);
    assert_eq!(foods[1].position, pos(14, 13));
    assert_eq!(events.queue, vec![GameEvent::FoodSpawned]);
}

#[test]
fn spawner_with_food_on_every_free_cell_no_ops() {
    // The snake covers every cell but (14,14), and a live food holds that
    // one: no cell is free, so the spawner silently does nothing.
    let mut cells = Vec::new();
    for x in 0..15 {
        for y in 0..15 {
            if !(x == 14 && y == 14) {
                cells.push(pos(x, y));
            }
        }
    }
    let segments = SnakeSegments(cells);
    let mut timer = fired_spawn_timer();
    let mut foods = vec![food_at(14, 14, 5000)];
    let mut events = Events::new();
    food_spawner(&mut timer, 1, &FoodCount(1), &segments, &mut foods, &mut events);
    assert_eq!(foods.len(), 1);
    assert!(events.queue.is_empty());
}

#[test]
fn spawner_on_a_full_grid_silently_no_ops() {
    let mut cells = Vec::new();
    for x in 0..15 {
        for y in 0..15 {
            cells.push(pos(x, y));
        }
    }
    let segments = SnakeSegments(cells);
    let mut timer = fired_spawn_timer();
    let mut foods: Vec<Food> = Vec::new();
    let mut events = Events::new();
    food_spawner(&mut timer, 1, &FoodCount(0), &segments, &mut foods, &mut events);
    assert!(foods.is_empty());
    assert!(events.queue.is_empty());
}

#[test]
fn food_rots_after_its_lifespan_with_one_event() {
    // Lifespan 5000 ms; 5001 ms of cumulative elapsed time across ticks
    // despawns it and publishes exactly one FoodRotted event.
    let mut foods = vec![food_at(3, 4, 5000)];
    let mut events = Events::new();
    food_despawner(&mut foods, 2000, &mut events);
    assert_eq!(foods.len(), 1);
    food_despawner(&mut foods, 2000, &mut events);
    assert_eq!(foods.len(), 1);
    food_despawner(&mut foods, 1001, &mut events);
    assert!(foods.is_empty());
    assert_eq!(events.queue, vec![GameEvent::FoodRotted]);
}

#[test]
fn food_expires_exactly_when_its_countdown_runs_out() {
    let mut foods = vec![food_at(3, 4, 5000)];
    let mut events = Events::new();
    food_despawner(&mut foods, 4999, &mut events);
    assert_eq!(foods.len(), 1);
    assert_eq!(foods[0].life_span.0.remaining_ms, 1);
    food_despawner(&mut foods, 1, &mut events);
    assert!(foods.is_empty());
    assert_eq!(events.queue, vec![GameEvent::FoodRotted]);
}

#[test]
fn despawner_ages_survivors_and_removes_the_expired() {
    let mut foods = vec![food_at(1, 1, 1000), food_at(2, 2, 5000)];
    let mut events = Events::new();
    food_despawner(&mut foods, 1000, &mut events);
    assert_eq!(foods.len(), 1);
    assert_eq!(foods[0].position, pos(2, 2));
    assert_eq!(foods[0].life_span.0.remaining_ms, 4000);
    assert_eq!(events.queue, vec![GameEvent::FoodRotted]);
}

#[test]
fn eating_removes_food_under_the_head_and_emits_growth() {
    let segments = SnakeSegments(vec![pos(4, 4), pos(4, 3)]);
    let mut foods = vec![food_at(4, 4, 5000), food_at(9, 9, 5000)];
    let mut events = Events::new();
    snake_eating(&fired_move_timer(), &segments, &mut foods, &mut events);
    assert_eq!(foods.len(), 1);
    assert_eq!(foods[0].position, pos(9, 9));
    assert_eq!(events.queue, vec![GameEvent::Growth]);
}

#[test]
fn eating_processes_every_simultaneous_match() {
    let segments = SnakeSegments(vec![pos(4, 4), pos(4, 3)]);
    let mut foods = vec![food_at(4, 4, 5000), food_at(4, 4, 3000)];
    let mut events = Events::new();
    snake_eating(&fired_move_timer(), &segments, &mut foods, &mut events);
    assert!(foods.is_empty());
    assert_eq!(events.queue, vec![GameEvent::Growth, GameEvent::Growth]);
}

#[test]
fn eating_waits_for_the_move_timer() {
    let idle = SnakeMoveTimer(Timer::new(350, true));
    let segments = SnakeSegments(vec![pos(4, 4), pos(4, 3)]);
    let mut foods = vec![food_at(4, 4, 5000)];
    let mut events = Events::new();
    snake_eating(&idle, &segments, &mut foods, &mut events);
    assert_eq!(foods.len(), 1);
    assert!(events.queue.is_empty());
}

#[test]
fn counter_follows_spawn_growth_rot_and_reset() {
    let mut events = Events::new();
    events.send(GameEvent::FoodSpawned);
    events.send(GameEvent::FoodSpawned);
    events.send(GameEvent::Growth);
    let mut fc = FoodCount(0);
    let mut reader = EventReader::new();
    food_count(&mut fc, &events, &mut reader);
    assert_eq!(fc.0, 1);
    events.send(GameEvent::FoodRotted);
    food_count(&mut fc, &events, &mut reader);
    assert_eq!(fc.0, 0);
    events.send(GameEvent::FoodSpawned);
    events.send(GameEvent::GameOver);
    food_count(&mut fc, &events, &mut reader);
    assert_eq!(fc.0, 0);
}

#[test]
fn counter_never_goes_below_zero() {
    // Decrements on an already-empty counter clamp at zero, whatever the
    // event order.
    let mut events = Events::new();
    events.send(GameEvent::Growth);
    events.send(GameEvent::FoodRotted);
    events.send(GameEvent::FoodSpawned);
    events.send(GameEvent::Growth);
    events.send(GameEvent::Growth);
    let mut fc = FoodCount(0);
    let mut reader = EventReader::new();
    food_count(&mut fc, &events, &mut reader);
    assert_eq!(fc.0, 0);
}

#[test]
fn independent_readers_observe_the_same_events() {
    let mut events = Events::new();
    events.send(GameEvent::FoodSpawned);
    let mut first = FoodCount(0);
    let mut first_reader = EventReader::new();
    food_count(&mut first, &events, &mut first_reader);
    let mut second = FoodCount(5);
    let mut second_reader = EventReader::new();
    food_count(&mut second, &events, &mut second_reader);
    assert_eq!(first.0, 1);
    assert_eq!(second.0, 6);
}
