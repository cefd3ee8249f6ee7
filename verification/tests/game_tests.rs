use snake_core::direction::Direction;
use snake_core::events::Events;
use snake_core::events::EventReader;
use snake_core::events::GameEvent;
use snake_core::food::food_count;
use snake_core::food::Food;
use snake_core::food::FoodCount;
use snake_core::food::FoodSpawnTimer;
use snake_core::food::LifeSpan;
use snake_core::game::game_over;
use snake_core::game::tick;
use snake_core::game::GameState;
use snake_core::position::BoundaryPolicy;
use snake_core::position::Position;
use snake_core::snake::SnakeHead;
use snake_core::snake::SnakeMoveTimer;
use snake_core::snake::SnakeSegments;
use snake_core::timer::Timer;

fn pos(x: i32, y: i32) -> Position {
    Position { x, y }
}

fn food_at(x: i32, y: i32, life_ms: u64) -> Food {
    Food { position: pos(x, y), life_span: LifeSpan(Timer::new(life_ms, false)) }
}

#[test]
fn game_over_clears_food_and_respawns_at_center() {
    let mut events = Events::new();
    events.send(GameEvent::GameOver);
    let mut reader = EventReader::new();
    let mut head = SnakeHead { direction: Direction::Left };
    let mut segments = SnakeSegments(vec![pos(1, 1), pos(1, 2), pos(1, 3)]);
    let mut foods = vec![food_at(5, 5, 5000), food_at(6, 6, 5000)];
    let mut timer = SnakeMoveTimer(Timer::new(20, true));
    game_over(&events, &mut reader, &mut head, &mut segments, &mut foods, &mut timer);
    assert!(foods.is_empty());
    assert_eq!(segments.0.len(), 2);
    assert_eq!(segments.0[0], pos(7, 7));
    assert_eq!(timer.0.period_ms, 350);
    assert_eq!(timer.0.remaining_ms, 350);
    // The counter tracker resets to zero on the same event.
    let mut fc = FoodCount(2);
    let mut count_reader = EventReader::new();
    food_count(&mut fc, &events, &mut count_reader);
    assert_eq!(fc.0, 0);
}

#[test]
fn game_over_respawn_places_tail_behind_head() {
    let mut events = Events::new();
    events.send(GameEvent::GameOver);
    let mut reader = EventReader::new();
    let mut head = SnakeHead { direction: Direction::Left };
    let mut segments = SnakeSegments(vec![pos(0, 0), pos(0, 1)]);
    let mut foods: Vec<Food> = Vec::new();
    let mut timer = SnakeMoveTimer(Timer::new(350, true));
    game_over(&events, &mut reader, &mut head, &mut segments, &mut foods, &mut timer);
    let expected_tail = match head.direction {
        Direction::Up => pos(7, 6),
        Direction::Down => pos(7, 8),
        Direction::Left => pos(8, 7),
        Direction::Right => pos(6, 7),
    };
    assert_eq!(segments.0, vec![pos(7, 7), expected_tail]);
}

#[test]
fn game_over_without_pending_event_changes_nothing() {
    let events = Events::new();
    let mut reader = EventReader::new();
    let mut head = SnakeHead { direction: Direction::Left };
    let mut segments = SnakeSegments(vec![pos(1, 1), pos(1, 2)]);
    let mut foods = vec![food_at(5, 5, 5000)];
    let mut timer = SnakeMoveTimer(Timer::new(20, true));
    game_over(&events, &mut reader, &mut head, &mut segments, &mut foods, &mut timer);
    assert_eq!(foods.len(), 1);
    assert_eq!(segments.0, vec![pos(1, 1), pos(1, 2)]);
    assert_eq!(timer.0.period_ms, 20);
}

#[test]
fn fresh_game_spawns_centered_snake() {
    let gs = GameState::new(BoundaryPolicy::WrapAround, Direction::Up);
    assert_eq!(gs.segments.0, vec![pos(7, 7), pos(7, 6)]);
    assert_eq!(gs.head.direction, Direction::Up);
    assert_eq!(gs.food_count.0, 0);
    assert!(gs.foods.is_empty());
    assert_eq!(gs.move_duration.0, 350);
}

#[test]
fn one_tick_with_elapsed_interval_moves_the_snake() {
    let mut gs = GameState::new(BoundaryPolicy::WrapAround, Direction::Up);
    tick(&mut gs, 350, None);
    assert_eq!(gs.segments.0, vec![pos(7, 8), pos(7, 7)]);
    assert_eq!(gs.last_tail.0, Some(pos(7, 6)));
}

#[test]
fn short_ticks_do_not_move_the_snake() {
    let mut gs = GameState::new(BoundaryPolicy::WrapAround, Direction::Up);
    tick(&mut gs, 100, None);
    tick(&mut gs, 100, None);
    assert_eq!(gs.segments.0, vec![pos(7, 7), pos(7, 6)]);
}

#[test]
fn ticks_spawn_food_and_track_the_counter() {
    let mut gs = GameState::new(BoundaryPolicy::WrapAround, Direction::Up);
    // The spawn timer has period 2000 ms; after it fires once, one food
    // item is live and the counter has followed the FoodSpawned event.
    for _ in 0..20 {
        tick(&mut gs, 100, None);
    }
    assert_eq!(gs.foods.len(), 1);
    assert_eq!(gs.food_count.0, 1);
    assert!(gs.food_count.0 <= 10);
}

#[test]
fn eating_through_a_whole_tick_grows_the_snake() {
    let mut gs = GameState::new(BoundaryPolicy::WrapAround, Direction::Up);
    // Lay a food item on the cell the head will enter on its next move.
    gs.foods.push(food_at(7, 8, 5000));
    gs.food_count = FoodCount(1);
    tick(&mut gs, 350, None);
    assert_eq!(gs.segments.0, vec![pos(7, 8), pos(7, 7), pos(7, 6)]);
    assert!(gs.foods.is_empty());
    assert_eq!(gs.food_count.0, 0);
    assert_eq!(gs.move_duration.0, 340);
}

#[test]
fn wall_death_tick_resets_the_game() {
    let mut gs = GameState::new(BoundaryPolicy::WallDeath, Direction::Up);
    // Disarm the food spawner so the walk below stays deterministic.
    gs.spawn_timer = FoodSpawnTimer(Timer::new(1000000, true));
    // Seven moves carry the head from (7,7) to (7,14); the eighth leaves
    // the arena, and the reset handler respawns within the same tick.
    for _ in 0..7 {
        tick(&mut gs, 350, None);
    }
    assert_eq!(gs.segments.0[0], pos(7, 14));
    gs.foods.push(food_at(3, 3, 50000));
    gs.food_count = FoodCount(1);
    tick(&mut gs, 350, None);
    assert_eq!(gs.segments.0.len(), 2);
    assert_eq!(gs.segments.0[0], pos(7, 7));
    assert!(gs.foods.is_empty());
    assert_eq!(gs.food_count.0, 0);
    assert_eq!(gs.move_duration.0, 350);
}
