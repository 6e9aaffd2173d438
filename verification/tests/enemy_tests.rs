use chicken_road::enemy::{
    enemy_hit_player_system, move_enemy_system, spawn_enemy, spawn_enemy_system, spawn_period_at,
    CarColor, Enemy, EnemySpawnConfig, EnemyVelocity, SpawnTimer, BASE_SPAWN_PERIOD,
    ENEMY_EXIT_X, ENEMY_START_X, FIRST_LANE, MIN_SPAWN_PERIOD, SECOND_LANE, THIRD_LANE,
};
use chicken_road::game::GameState;
use chicken_road::in_game::{Decoration, Scenery};
use chicken_road::player::{Direction, Player, PlayerState, PlayerVelocity, Sidewalk};
use chicken_road::store::{Entity, EntityId, EntityKind, EntityStore};
use chicken_road::world::{Aabb, Position, Scale, STEP};

fn car(x: i32, y: i32) -> Enemy {
    Enemy {
        position: Position { x, y },
        scale: Scale { x: 15, y: 15 },
        velocity: EnemyVelocity { x: 1 },
        color: CarColor::Red,
    }
}

fn player(x: i32, y: i32) -> Player {
    Player {
        position: Position { x, y },
        scale: Scale { x: 12, y: 12 },
        velocity: PlayerVelocity { x: 0, y: 0 },
        direction: Direction::Up,
        sprite_index: 6,
    }
}

fn alive() -> PlayerState {
    PlayerState { alive: true, level: 1, last_sidewalk: Sidewalk::Neither }
}

fn dead() -> PlayerState {
    PlayerState { alive: false, level: 1, last_sidewalk: Sidewalk::Neither }
}

fn the_car(store: &EntityStore, id: EntityId) -> Enemy {
    match store.get(id) {
        Some(Entity::Enemy(enemy)) => enemy,
        other => panic!("no car under {:?}: {:?}", id, other),
    }
}

#[test]
fn spawn_period_shrinks_by_fifty_milliseconds_a_level() {
    assert_eq!(spawn_period_at(0), 2_000_000);
    assert_eq!(spawn_period_at(1), 1_950_000);
    assert_eq!(spawn_period_at(2), 1_900_000);
    assert_eq!(spawn_period_at(10), 1_500_000);
    assert_eq!(spawn_period_at(38), 100_000);
    assert_eq!(spawn_period_at(39), 50_000);
}

#[test]
fn spawn_period_never_falls_below_its_minimum() {
    assert_eq!(spawn_period_at(40), MIN_SPAWN_PERIOD);
    assert_eq!(spawn_period_at(41), MIN_SPAWN_PERIOD);
    assert_eq!(spawn_period_at(255), MIN_SPAWN_PERIOD);
    assert_eq!(MIN_SPAWN_PERIOD, 50_000);
    assert_eq!(BASE_SPAWN_PERIOD, 2_000_000);
}

#[test]
fn new_timer_has_counted_nothing() {
    let timer = SpawnTimer::new();
    assert_eq!(timer, SpawnTimer { duration: 2_000_000, elapsed: 0, finished: false });
}

#[test]
fn timer_counts_up_to_its_period() {
    let mut timer = SpawnTimer::new();
    assert!(!timer.tick(750_000));
    assert_eq!(timer.elapsed, 750_000);
    assert!(!timer.finished);
    assert!(!timer.tick(1_249_999));
    assert_eq!(timer.elapsed, 1_999_999);
    assert!(timer.tick(1));
    assert_eq!(timer.elapsed, 0);
    assert!(timer.finished);
}

#[test]
fn timer_carries_time_beyond_its_period() {
    let mut timer = SpawnTimer::new();
    timer.tick(750_000);
    assert!(timer.tick(1_500_000));
    assert_eq!(timer.elapsed, 250_000);
    // The tick after a finished one is not finished again.
    assert!(!timer.tick(1_000_000));
    assert_eq!(timer.elapsed, 1_250_000);
    assert!(!timer.finished);
}

#[test]
fn timer_takes_off_every_whole_period() {
    let mut timer = SpawnTimer { duration: 1_000_000, elapsed: 0, finished: false };
    assert!(timer.tick(3_500_000));
    assert_eq!(timer.elapsed, 500_000);
    assert!(!timer.tick(200_000));
    assert_eq!(timer.elapsed, 700_000);
}

#[test]
fn timer_with_zero_delta_stays() {
    let mut timer = SpawnTimer { duration: 50_000, elapsed: 49_999, finished: true };
    assert!(!timer.tick(0));
    assert_eq!(timer, SpawnTimer { duration: 50_000, elapsed: 49_999, finished: false });
}

#[test]
fn timer_at_the_ends_of_its_range() {
    let mut timer = SpawnTimer { duration: 50_000, elapsed: u32::MAX, finished: false };
    assert!(timer.tick(u32::MAX));
    // 2 * (2^32 - 1) = 8_589_934_590 = 171_798 * 50_000 + 34_590
    assert_eq!(timer.elapsed, 34_590);
    let mut longest = SpawnTimer { duration: u32::MAX, elapsed: 0, finished: false };
    assert!(!longest.tick(u32::MAX - 1));
    assert!(longest.tick(1));
    assert_eq!(longest.elapsed, 0);
}

#[test]
fn set_level_changes_the_period_and_keeps_the_count() {
    let mut timer = SpawnTimer::new();
    timer.tick(1_960_000);
    timer.set_level(2);
    assert_eq!(timer, SpawnTimer { duration: 1_900_000, elapsed: 1_960_000, finished: false });
    // What was counted is beyond the new period: the next tick finishes.
    assert!(timer.tick(0));
    assert_eq!(timer.elapsed, 60_000);
}

#[test]
fn no_firing_before_the_period_is_over() {
    // Ticks of a sixtieth of a second: 119 of them stay below two seconds.
    let mut timer = SpawnTimer::new();
    for _ in 0..119 {
        assert!(!timer.tick(16_667));
    }
    assert_eq!(timer.elapsed, 119 * 16_667);
    assert!(timer.tick(16_667));
    assert_eq!(timer.elapsed, 120 * 16_667 - 2_000_000);
}

#[test]
fn spawn_enemy_enters_left_of_the_window() {
    let mut store = EntityStore::new();
    let first = spawn_enemy(&mut store, 0, 0);
    let second = spawn_enemy(&mut store, 1, 1);
    let third = spawn_enemy(&mut store, 2, 7);
    assert_eq!((first, second, third), (EntityId(0), EntityId(1), EntityId(2)));
    assert_eq!(the_car(&store, first), car(-3180, -1260));
    assert_eq!(the_car(&store, second), Enemy { color: CarColor::Green, ..car(-3180, 0) });
    assert_eq!(the_car(&store, third), Enemy { color: CarColor::Green, ..car(-3180, 1188) });
    assert_eq!(ENEMY_START_X, -3180);
    assert_eq!((FIRST_LANE, SECOND_LANE, THIRD_LANE), (-1260, 0, 1188));
}

#[test]
fn car_box_is_its_sprite_times_its_scale() {
    assert_eq!(
        car(7, 8).aabb(),
        Aabb { center: Position { x: 7, y: 8 }, width: 720, height: 360 }
    );
}

#[test]
fn car_step_adds_velocity_times_step() {
    assert_eq!(car(0, 5).step(), Some(car(25, 5)));
    let fast = Enemy { velocity: EnemyVelocity { x: 3 }, ..car(-100, 0) };
    assert_eq!(fast.step(), Some(Enemy { velocity: EnemyVelocity { x: 3 }, ..car(-25, 0) }));
}

#[test]
fn car_leaves_beyond_the_exit() {
    assert_eq!(ENEMY_EXIT_X, 5208);
    assert_eq!(car(5183, 0).step(), Some(car(5208, 0)));
    assert_eq!(car(5184, 0).step(), None);
    assert_eq!(car(i32::MAX, 0).step(), None);
    let fastest = Enemy { velocity: EnemyVelocity { x: 255 }, ..car(i32::MIN, 0) };
    assert_eq!(
        fastest.step(),
        Some(Enemy { velocity: EnemyVelocity { x: 255 }, ..car(i32::MIN + 6375, 0) })
    );
}

#[test]
fn car_x_after_n_ticks_follows_the_formula() {
    let mut store = EntityStore::new();
    let id = spawn_enemy(&mut store, 1, 0);
    for n in 1..=335 {
        move_enemy_system(&mut store, &alive());
        assert_eq!(the_car(&store, id).position.x, ENEMY_START_X + n * 1 * STEP);
        assert_eq!(the_car(&store, id).position.y, SECOND_LANE);
    }
    // 336 steps take it to 5220, beyond the exit.
    assert_eq!(the_car(&store, id).position.x, 5195);
    move_enemy_system(&mut store, &alive());
    assert_eq!(store.get(id), None);
}

#[test]
fn move_enemy_system_leaves_other_kinds_alone() {
    let mut store = EntityStore::new();
    let road = Entity::Decoration(Decoration {
        scenery: Scenery::Road,
        position: Position { x: 0, y: 0 },
    });
    let r = store.insert(road);
    let p = store.insert(Entity::Player(Player {
        velocity: PlayerVelocity { x: 1, y: 1 },
        ..player(0, 0)
    }));
    let c = store.insert(Entity::Enemy(car(0, 0)));
    move_enemy_system(&mut store, &alive());
    assert_eq!(store.get(r), Some(road));
    assert_eq!(
        store.get(p),
        Some(Entity::Player(Player { velocity: PlayerVelocity { x: 1, y: 1 }, ..player(0, 0) }))
    );
    assert_eq!(the_car(&store, c), car(25, 0));
    assert_eq!(store.upper_bound(), 3);
}

#[test]
fn dead_player_clears_every_car() {
    let mut store = EntityStore::new();
    let p = store.insert(Entity::Player(player(0, 0)));
    for lane in 0..3 {
        spawn_enemy(&mut store, lane, 0);
    }
    store.insert(Entity::Enemy(car(5000, 0)));
    move_enemy_system(&mut store, &dead());
    assert!(store.ids_of(EntityKind::Enemy).is_empty());
    assert_eq!(store.get(p), Some(Entity::Player(player(0, 0))));
}

#[test]
fn overlap_kills_the_player_once() {
    let mut store = EntityStore::new();
    let p = store.insert(Entity::Player(player(0, 0)));
    let c = store.insert(Entity::Enemy(car(-455, 0)));
    let mut state = PlayerState { alive: true, level: 4, last_sidewalk: Sidewalk::Top };
    let mut phase = GameState::InGame;
    enemy_hit_player_system(&mut store, &mut state, &mut phase);
    assert_eq!(state, PlayerState { alive: false, level: 4, last_sidewalk: Sidewalk::Top });
    assert_eq!(phase, GameState::GameOver);
    assert_eq!(store.get(p), None);
    assert_eq!(the_car(&store, c), car(-455, 0));
    // A second run finds no player and changes nothing.
    let mut again = GameState::Menu;
    enemy_hit_player_system(&mut store, &mut state, &mut again);
    assert_eq!(again, GameState::Menu);
    assert!(!state.alive);
    assert_eq!(the_car(&store, c), car(-455, 0));
}

#[test]
fn boxes_apart_on_either_axis_kill_nobody() {
    for (x, y) in [(-456, 0), (456, 0), (0, 276), (0, -276), (-456, 276), (3000, 0)] {
        let mut store = EntityStore::new();
        let p = store.insert(Entity::Player(player(0, 0)));
        store.insert(Entity::Enemy(car(x, y)));
        let mut state = alive();
        let mut phase = GameState::InGame;
        enemy_hit_player_system(&mut store, &mut state, &mut phase);
        assert_eq!(state, alive());
        assert_eq!(phase, GameState::InGame);
        assert_eq!(store.get(p), Some(Entity::Player(player(0, 0))));
    }
}

#[test]
fn the_car_box_is_wider_than_high() {
    // 300 apart: inside the car's half-width plus the player's, outside the half-heights.
    let mut store = EntityStore::new();
    store.insert(Entity::Player(player(0, 0)));
    store.insert(Entity::Enemy(car(0, 300)));
    let mut state = alive();
    let mut phase = GameState::InGame;
    enemy_hit_player_system(&mut store, &mut state, &mut phase);
    assert!(state.alive);
    let mut other = EntityStore::new();
    other.insert(Entity::Player(player(0, 0)));
    other.insert(Entity::Enemy(car(300, 0)));
    enemy_hit_player_system(&mut other, &mut state, &mut phase);
    assert!(!state.alive);
}

#[test]
fn several_overlapping_cars_kill_once() {
    let mut store = EntityStore::new();
    store.insert(Entity::Enemy(car(100, 0)));
    let p = store.insert(Entity::Player(player(0, 0)));
    store.insert(Entity::Enemy(car(-100, 0)));
    store.insert(Entity::Enemy(car(0, 100)));
    let mut state = alive();
    let mut phase = GameState::InGame;
    enemy_hit_player_system(&mut store, &mut state, &mut phase);
    assert!(!state.alive);
    assert_eq!(phase, GameState::GameOver);
    assert_eq!(store.get(p), None);
    assert_eq!(store.ids_of(EntityKind::Enemy).len(), 3);
}

#[test]
fn a_dead_player_is_not_hit() {
    let mut store = EntityStore::new();
    let p = store.insert(Entity::Player(player(0, 0)));
    store.insert(Entity::Enemy(car(0, 0)));
    let mut state = dead();
    let mut phase = GameState::InGame;
    enemy_hit_player_system(&mut store, &mut state, &mut phase);
    assert_eq!(phase, GameState::InGame);
    assert_eq!(store.get(p), Some(Entity::Player(player(0, 0))));
}

#[test]
fn two_players_are_not_hit() {
    let mut store = EntityStore::new();
    store.insert(Entity::Player(player(0, 0)));
    store.insert(Entity::Player(player(0, 0)));
    store.insert(Entity::Enemy(car(0, 0)));
    let mut state = alive();
    let mut phase = GameState::InGame;
    enemy_hit_player_system(&mut store, &mut state, &mut phase);
    assert!(state.alive);
    assert_eq!(phase, GameState::InGame);
    assert_eq!(store.ids_of(EntityKind::Player).len(), 2);
}

#[test]
fn spawn_system_waits_for_the_timer() {
    let mut store = EntityStore::new();
    let mut config = EnemySpawnConfig { timer: SpawnTimer::new() };
    spawn_enemy_system(&mut store, &mut config, 1_999_999, &alive());
    assert_eq!(store.upper_bound(), 0);
    assert_eq!(config.timer.elapsed, 1_999_999);
    spawn_enemy_system(&mut store, &mut config, 1, &alive());
    assert_eq!(store.upper_bound(), 1);
    let enemy = the_car(&store, EntityId(0));
    assert_eq!(enemy.position.x, ENEMY_START_X);
    assert!([FIRST_LANE, SECOND_LANE, THIRD_LANE].contains(&enemy.position.y));
    assert_eq!(enemy.velocity, EnemyVelocity { x: 1 });
    assert_eq!(enemy.scale, Scale { x: 15, y: 15 });
    assert_eq!(config.timer, SpawnTimer { duration: 2_000_000, elapsed: 0, finished: true });
}

#[test]
fn spawn_system_lets_one_car_in_however_long_the_tick() {
    let mut store = EntityStore::new();
    let mut config = EnemySpawnConfig { timer: SpawnTimer::new() };
    spawn_enemy_system(&mut store, &mut config, 7_000_000, &alive());
    assert_eq!(store.upper_bound(), 1);
    assert_eq!(config.timer.elapsed, 1_000_000);
}

#[test]
fn spawn_system_keeps_counting_while_the_player_is_dead() {
    let mut store = EntityStore::new();
    let mut config = EnemySpawnConfig { timer: SpawnTimer::new() };
    spawn_enemy_system(&mut store, &mut config, 2_500_000, &dead());
    assert_eq!(store.upper_bound(), 0);
    assert_eq!(config.timer, SpawnTimer { duration: 2_000_000, elapsed: 500_000, finished: true });
}

#[test]
fn chance_reaches_every_lane_and_colour() {
    let mut store = EntityStore::new();
    let mut config = EnemySpawnConfig { timer: SpawnTimer::new() };
    for _ in 0..400 {
        spawn_enemy_system(&mut store, &mut config, 2_000_000, &alive());
    }
    let cars = store.ids_of(EntityKind::Enemy);
    assert_eq!(cars.len(), 400);
    let mut lanes = [0; 3];
    let mut colours = [0; 2];
    for id in cars {
        let enemy = the_car(&store, id);
        match enemy.position.y {
            FIRST_LANE => lanes[0] += 1,
            SECOND_LANE => lanes[1] += 1,
            THIRD_LANE => lanes[2] += 1,
            other => panic!("a car off the lanes, at {}", other),
        }
        match enemy.color {
            CarColor::Red => colours[0] += 1,
            CarColor::Green => colours[1] += 1,
        }
    }
    assert!(lanes.iter().all(|&n| n > 0), "lanes {:?}", lanes);
    assert!(colours.iter().all(|&n| n > 0), "colours {:?}", colours);
}
