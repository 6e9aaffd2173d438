//! The cars: how they enter the road, drive along it, leave it, and hit the player.

use vstd::prelude::*;
use bevy::time::{Timer, TimerMode};
use rand::{thread_rng, Rng};
use std::time::Duration;
use crate::game::GameState;
use crate::player::PlayerState;
use crate::store::{
    entities_wf, has_none_of, lemma_single_player_found, single_player, Entity, EntityId,
    EntityKind, EntityStore,
};
use crate::world::{
    Aabb, Position, Scale, ENEMY_HEIGHT, ENEMY_WIDTH, STEP, UNITS_PER_PIXEL, WIN_WIDTH,
};

verus! {

/// The y of the lowest lane, -210 pixels.
pub const FIRST_LANE: i32 = -1260;

/// The y of the middle lane.
pub const SECOND_LANE: i32 = 0;

/// The y of the highest lane, 198 pixels.
pub const THIRD_LANE: i32 = 1188;

/// Number of lanes.
pub const LANE_COUNT: usize = 3;

/// Number of car colours.
pub const COLOR_COUNT: usize = 2;

/// Scale at which a car is drawn: two and a half pixels to the texel.
pub const ENEMY_SCALE: u16 = 15;

/// Where a car's centre enters: its own width to the left of the window's left edge.
pub const ENEMY_START_X: i32 = -3180;

/// The x beyond which a car has left the road: the window's width and a car's width.
pub const ENEMY_EXIT_X: i32 = 5208;

/// Time between two cars at the start of a session, in microseconds: two seconds.
pub const BASE_SPAWN_PERIOD: u32 = 2_000_000;

/// By how much each level shortens the time between two cars, in microseconds.
pub const SPAWN_PERIOD_DECREMENT: u32 = 50_000;

/// The shortest time between two cars, in microseconds. It is the last positive value
/// that the shortening yields, reached at level 39.
pub const MIN_SPAWN_PERIOD: u32 = 50_000;

/// Rightward speed of a car, in steps per tick. A car is never at rest.
#[derive(Clone, Copy, PartialEq, Eq, Debug, Structural)]
pub struct EnemyVelocity {
    pub x: u8,
}

/// The paint of a car. It changes nothing in how the car behaves.
#[derive(Clone, Copy, PartialEq, Eq, Debug, Structural)]
pub enum CarColor {
    Red,
    Green,
}

/// A car.
#[derive(Clone, Copy, PartialEq, Eq, Debug, Structural)]
pub struct Enemy {
    pub position: Position,
    pub scale: Scale,
    pub velocity: EnemyVelocity,
    pub color: CarColor,
}

/// The y of the lane with the given index; indices from 2 on name the highest lane.
pub open spec fn lane_y(lane_index: usize) -> i32 {
    if lane_index == 0 {
        FIRST_LANE
    } else if lane_index == 1 {
        SECOND_LANE
    } else {
        THIRD_LANE
    }
}

/// The colour with the given index: 0 is red, all else green.
pub open spec fn color_of(color_index: usize) -> CarColor {
    if color_index == 0 {
        CarColor::Red
    } else {
        CarColor::Green
    }
}

impl Enemy {
    /// A car as it enters the road on lane `lane_index`: left of the window,
    /// heading right at unit velocity.
    pub open spec fn entering(lane_index: usize, color_index: usize) -> Enemy {
        Enemy {
            position: Position { x: ENEMY_START_X, y: lane_y(lane_index) },
            scale: Scale { x: ENEMY_SCALE, y: ENEMY_SCALE },
            velocity: EnemyVelocity { x: 1 },
            color: color_of(color_index),
        }
    }

    /// The box that the player is tested against.
    pub open spec fn bounding_box(self) -> Aabb {
        Aabb {
            center: self.position,
            width: (ENEMY_WIDTH * self.scale.x) as u32,
            height: (ENEMY_HEIGHT * self.scale.y) as u32,
        }
    }

    /// The x of the car one tick later.
    pub open spec fn next_x(self) -> int {
        self.position.x + self.velocity.x * STEP
    }

    /// Whether the car is still on the road one tick later.
    pub open spec fn stays(self) -> bool {
        self.next_x() <= ENEMY_EXIT_X
    }

    /// The car one tick later. Only its x changes.
    pub open spec fn moved(self) -> Enemy {
        Enemy { position: Position { x: self.next_x() as i32, y: self.position.y }, ..self }
    }

    /// The car `ticks` ticks later, for a car that is on the road all the while.
    pub open spec fn moved_times(self, ticks: nat) -> Enemy
        decreases ticks,
    {
        if ticks == 0 {
            self
        } else {
            self.moved_times((ticks - 1) as nat).moved()
        }
    }

    /// Whether the car is on the road throughout the next `ticks` ticks.
    pub open spec fn on_road_for(self, ticks: nat) -> bool
        decreases ticks,
    {
        ticks == 0 || (self.on_road_for((ticks - 1) as nat) && self.moved_times(
            (ticks - 1) as nat,
        ).stays())
    }

    /// Computes the box that the player is tested against.
    pub fn aabb(&self) -> (aabb: Aabb)
        ensures
            aabb == self.bounding_box(),
    {
        Aabb {
            center: self.position,
            width: ENEMY_WIDTH * (self.scale.x as u32),
            height: ENEMY_HEIGHT * (self.scale.y as u32),
        }
    }

    /// Advances the car by one tick. Returns `None` when that takes it off the road.
    pub fn step(&self) -> (next: Option<Enemy>)
        ensures
            next == (if self.stays() {
                Some(self.moved())
            } else {
                None
            }),
    {
        let x: i64 = self.position.x as i64 + (self.velocity.x as i64) * (STEP as i64);
        if x > ENEMY_EXIT_X as i64 {
            None
        } else {
            Some(
                Enemy {
                    position: Position { x: x as i32, y: self.position.y },
                    scale: self.scale,
                    velocity: self.velocity,
                    color: self.color,
                },
            )
        }
    }
}

/// Until it leaves the road, a car covers one step of its velocity with every tick:
/// after `ticks` ticks its x is the x it started from plus `ticks` times its velocity
/// times `STEP`. Nothing else about it changes.
pub proof fn lemma_x_after_ticks(enemy: Enemy, ticks: nat)
    requires
        enemy.on_road_for(ticks),
    ensures
        enemy.moved_times(ticks).position.x == enemy.position.x + ticks * enemy.velocity.x * STEP,
        enemy.moved_times(ticks) == (Enemy {
            position: Position { x: enemy.moved_times(ticks).position.x, y: enemy.position.y },
            ..enemy
        }),
    decreases ticks,
{
    if ticks > 0 {
        let before = (ticks - 1) as nat;
        let velocity = enemy.velocity.x as int;
        lemma_x_after_ticks(enemy, before);
        assert(ticks * velocity * STEP == before * velocity * STEP + velocity * STEP)
            by (nonlinear_arith)
            requires
                ticks == before + 1,
        ;
    } else {
        assert(ticks * enemy.velocity.x * STEP == 0) by (nonlinear_arith)
            requires
                ticks == 0,
        ;
    }
}

/// A repeating countdown in microseconds. It holds what the game reads of a
/// `bevy::time::Timer` in repeating mode, and ticks as that timer does.
#[derive(Clone, Copy, PartialEq, Eq, Debug, Structural)]
pub struct SpawnTimer {
    /// The period.
    pub duration: u32,
    /// Time counted since the period last ran out.
    pub elapsed: u32,
    /// Whether the period ran out during the last tick.
    pub finished: bool,
}

/// When cars enter the road.
#[derive(Clone, Copy, PartialEq, Eq, Debug, Structural)]
pub struct EnemySpawnConfig {
    pub timer: SpawnTimer,
}

/// The time between two cars at `level`: two seconds less 50 milliseconds per level,
/// but never less than `MIN_SPAWN_PERIOD`.
pub open spec fn spawn_period(level: u8) -> u32 {
    if BASE_SPAWN_PERIOD - level * SPAWN_PERIOD_DECREMENT >= MIN_SPAWN_PERIOD {
        (BASE_SPAWN_PERIOD - level * SPAWN_PERIOD_DECREMENT) as u32
    } else {
        MIN_SPAWN_PERIOD
    }
}

/// Computes the time between two cars at `level`.
pub fn spawn_period_at(level: u8) -> (period: u32)
    ensures
        period == spawn_period(level),
        MIN_SPAWN_PERIOD <= period <= BASE_SPAWN_PERIOD,
{
    let cut: u32 = (level as u32) * SPAWN_PERIOD_DECREMENT;
    if cut <= BASE_SPAWN_PERIOD - MIN_SPAWN_PERIOD {
        BASE_SPAWN_PERIOD - cut
    } else {
        MIN_SPAWN_PERIOD
    }
}

impl SpawnTimer {
    /// The period is at least the shortest one in use.
    pub open spec fn wf(self) -> bool {
        self.duration >= MIN_SPAWN_PERIOD
    }

    /// The timer at the start of a session: it has the longest period and has
    /// counted nothing yet.
    pub open spec fn fresh() -> SpawnTimer {
        SpawnTimer { duration: BASE_SPAWN_PERIOD, elapsed: 0, finished: false }
    }

    /// Whether the period runs out during a tick of `delta` microseconds.
    pub open spec fn fires(self, delta: u32) -> bool {
        self.elapsed + delta >= self.duration
    }

    /// The timer after a tick of `delta` microseconds: time beyond the period carries
    /// over into the next one.
    pub open spec fn ticked(self, delta: u32) -> SpawnTimer {
        SpawnTimer {
            duration: self.duration,
            elapsed: ((self.elapsed + delta) % (self.duration as int)) as u32,
            finished: self.fires(delta),
        }
    }

    /// The timer after the ticks `deltas`, one after the other.
    pub open spec fn after_ticks(self, deltas: Seq<u32>) -> SpawnTimer
        decreases deltas.len(),
    {
        if deltas.len() == 0 {
            self
        } else {
            self.after_ticks(deltas.drop_last()).ticked(deltas.last())
        }
    }

    /// Whether the period runs out during any of the ticks `deltas`.
    pub open spec fn fires_during(self, deltas: Seq<u32>) -> bool
        decreases deltas.len(),
    {
        deltas.len() > 0 && (self.fires_during(deltas.drop_last()) || self.after_ticks(
            deltas.drop_last(),
        ).fires(deltas.last()))
    }

    /// The timer at the start of a session.
    pub fn new() -> (timer: SpawnTimer)
        ensures
            timer == SpawnTimer::fresh(),
            timer.wf(),
    {
        SpawnTimer { duration: BASE_SPAWN_PERIOD, elapsed: 0, finished: false }
    }

    /// Sets the period to that of `level`. Time counted so far is kept.
    pub fn set_level(&mut self, level: u8)
        ensures
            *final(self) == (SpawnTimer { duration: spawn_period(level), ..*old(self) }),
            final(self).wf(),
    {
        self.duration = spawn_period_at(level);
    }

    /// Counts `delta` microseconds. Returns whether the period ran out.
    pub fn tick(&mut self, delta: u32) -> (finished: bool)
        requires
            old(self).wf(),
        ensures
            *final(self) == old(self).ticked(delta),
            finished == old(self).fires(delta),
            final(self).wf(),
            final(self).elapsed < final(self).duration,
    {
        assert((self.elapsed + delta) / (self.duration as int) <= u32::MAX) by (nonlinear_arith)
            requires
                self.duration >= 2,
                self.elapsed + delta <= 2 * u32::MAX,
        ;
        let (elapsed, finished) = repeating_timer_tick(self.duration, self.elapsed, delta);
        self.elapsed = elapsed;
        self.finished = finished;
        finished
    }
}

/// A car enters with its centre its own drawn width left of the window, and has left
/// once its centre is the window's width and a car's width, undrawn, right of the origin.
pub proof fn lemma_road_measures()
    ensures
        2 * ENEMY_START_X == -WIN_WIDTH - 2 * ENEMY_WIDTH * ENEMY_SCALE,
        ENEMY_EXIT_X == WIN_WIDTH + ENEMY_WIDTH * UNITS_PER_PIXEL,
        LANE_COUNT == 3,
        COLOR_COUNT == 2,
{
}

/// The time that the ticks `deltas` take together, in microseconds.
pub open spec fn total_time(deltas: Seq<u32>) -> nat
    decreases deltas.len(),
{
    if deltas.len() == 0 {
        0
    } else {
        total_time(deltas.drop_last()) + deltas.last() as nat
    }
}

/// Up to level 39 the time between two cars is two seconds less 50 milliseconds for
/// every level. From level 40 on that would be no time at all, and the shortest
/// period stands in.
pub proof fn lemma_spawn_period_by_level(level: u8)
    ensures
        level <= 39 ==> spawn_period(level) == BASE_SPAWN_PERIOD - level * SPAWN_PERIOD_DECREMENT,
        level >= 39 ==> spawn_period(level) == MIN_SPAWN_PERIOD,
        forall|lower: u8| lower <= level ==> spawn_period(lower) >= spawn_period(level),
{
}

/// No car comes before its time. As long as the time that the timer had counted,
/// and the time of the ticks since, together stay below the period, the timer does
/// not run out in any of these ticks; and it has run out, in one of them, as soon as
/// they reach the period. After a tick that left nothing over, two cars are
/// therefore never less than a period apart.
pub proof fn lemma_fires_when_period_is_over(timer: SpawnTimer, deltas: Seq<u32>)
    requires
        timer.duration > 0,
    ensures
        timer.elapsed + total_time(deltas) < timer.duration ==> !timer.fires_during(deltas),
        timer.elapsed + total_time(deltas) < timer.duration ==> timer.after_ticks(
            deltas,
        ).elapsed == timer.elapsed + total_time(deltas),
        deltas.len() > 0 && timer.elapsed + total_time(deltas) >= timer.duration
            ==> timer.fires_during(deltas),
        timer.after_ticks(deltas).duration == timer.duration,
    decreases deltas.len(),
{
    if deltas.len() > 0 {
        let earlier = deltas.drop_last();
        lemma_fires_when_period_is_over(timer, earlier);
        let before = timer.after_ticks(earlier);
        if timer.elapsed + total_time(deltas) < timer.duration {
            assert(before.elapsed + deltas.last() < timer.duration);
            assert((before.elapsed + deltas.last()) % (timer.duration as int) == before.elapsed
                + deltas.last()) by (nonlinear_arith)
                requires
                    0 <= before.elapsed + deltas.last() < timer.duration,
            ;
        }
    }
}

/// The entities after a car has entered on lane `lane_index`, under the handle `next_id`.
pub open spec fn with_enemy(
    entities: Map<EntityId, Entity>,
    next_id: nat,
    lane_index: usize,
    color_index: usize,
) -> Map<EntityId, Entity> {
    entities.insert(
        EntityId(next_id as usize),
        Entity::Enemy(Enemy::entering(lane_index, color_index)),
    )
}

/// Puts a car on the road: on lane `lane_index`, painted in colour `color_index`.
pub fn spawn_enemy(store: &mut EntityStore, lane_index: usize, color_index: usize) -> (id:
    EntityId)
    requires
        lane_index < LANE_COUNT,
    ensures
        id.0 == old(store).next_id(),
        final(store)@ == with_enemy(old(store)@, old(store).next_id(), lane_index, color_index),
        final(store).next_id() == old(store).next_id() + 1,
{
    let y = if lane_index == 0 {
        FIRST_LANE
    } else if lane_index == 1 {
        SECOND_LANE
    } else {
        THIRD_LANE
    };
    let color = if color_index == 0 {
        CarColor::Red
    } else {
        CarColor::Green
    };
    store.insert(
        Entity::Enemy(
            Enemy {
                position: Position { x: ENEMY_START_X, y },
                scale: Scale { x: ENEMY_SCALE, y: ENEMY_SCALE },
                velocity: EnemyVelocity { x: 1 },
                color,
            },
        ),
    )
}

/// Counts `delta` microseconds on the spawn timer and, when its period runs out while
/// the player is alive, puts one car on the road, on a lane and in a colour left to
/// chance. While the player is dead the timer runs on and no car comes.
pub fn spawn_enemy_system(
    store: &mut EntityStore,
    spawn_timer: &mut EnemySpawnConfig,
    delta: u32,
    player_state: &PlayerState,
)
    requires
        old(spawn_timer).timer.wf(),
    ensures
        final(spawn_timer).timer == old(spawn_timer).timer.ticked(delta),
        final(spawn_timer).timer.wf(),
        !(old(spawn_timer).timer.fires(delta) && player_state.alive) ==> {
            &&& final(store)@ == old(store)@
            &&& final(store).next_id() == old(store).next_id()
        },
        old(spawn_timer).timer.fires(delta) && player_state.alive ==> {
            &&& final(store).next_id() == old(store).next_id() + 1
            &&& exists|lane_index: usize, color_index: usize|
                lane_index < LANE_COUNT && color_index < COLOR_COUNT && final(store)@
                    == #[trigger] with_enemy(
                    old(store)@,
                    old(store).next_id(),
                    lane_index,
                    color_index,
                )
        },
{
    let finished = spawn_timer.timer.tick(delta);
    if finished && player_state.alive {
        let lane_index = random_below(LANE_COUNT);
        let color_index = random_below(COLOR_COUNT);
        spawn_enemy(store, lane_index, color_index);
    }
}

/// What becomes of an entity when the cars move: a car advances, or leaves when it is
/// past the exit or the player is dead; anything else stays as it is.
pub open spec fn after_enemy_move(entity: Entity, alive: bool) -> Option<Entity> {
    match entity {
        Entity::Enemy(enemy) => if alive && enemy.stays() {
            Some(Entity::Enemy(enemy.moved()))
        } else {
            None
        },
        _ => Some(entity),
    }
}

/// The entities after the cars have moved.
pub open spec fn enemies_moved(entities: Map<EntityId, Entity>, alive: bool) -> Map<
    EntityId,
    Entity,
> {
    Map::new(
        |id: EntityId| entities.contains_key(id) && after_enemy_move(entities[id], alive) is Some,
        |id: EntityId| after_enemy_move(entities[id], alive)->Some_0,
    )
}

/// Moves every car by one tick and removes those that have left the road. While the
/// player is dead, removes every car.
pub fn move_enemy_system(store: &mut EntityStore, player_state: &PlayerState)
    ensures
        final(store)@ == enemies_moved(old(store)@, player_state.alive),
        final(store).next_id() == old(store).next_id(),
        !player_state.alive ==> has_none_of(final(store)@, EntityKind::Enemy),
{
    let ghost before = store@;
    let bound = store.upper_bound();
    let mut index: usize = 0;
    while index < bound
        invariant
            index <= bound,
            bound == store.next_id(),
            store.next_id() == old(store).next_id(),
            before == old(store)@,
            forall|id: EntityId| #[trigger] before.contains_key(id) ==> id.0 < bound,
            forall|id: EntityId|
                id.0 < index ==> (#[trigger] store@.contains_key(id)) == enemies_moved(
                    before,
                    player_state.alive,
                ).contains_key(id),
            forall|id: EntityId|
                id.0 < index && store@.contains_key(id) ==> #[trigger] store@[id] == enemies_moved(
                    before,
                    player_state.alive,
                )[id],
            forall|id: EntityId|
                id.0 >= index ==> (#[trigger] store@.contains_key(id)) == before.contains_key(id),
            forall|id: EntityId|
                id.0 >= index && store@.contains_key(id) ==> #[trigger] store@[id] == before[id],
        decreases bound - index,
    {
        let id = EntityId(index);
        match store.get(id) {
            Some(Entity::Enemy(enemy)) => {
                let next = if player_state.alive {
                    enemy.step()
                } else {
                    None
                };
                match next {
                    Some(moved) => {
                        store.replace(id, Entity::Enemy(moved));
                    },
                    None => {
                        store.remove(id);
                    },
                }
            },
            _ => {},
        }
        index += 1;
    }
    assert(store@ =~= enemies_moved(before, player_state.alive));
    proof {
        lemma_dead_player_clears_cars(before);
    }
}

/// While the player is dead, no car is left once the cars have moved.
pub proof fn lemma_dead_player_clears_cars(entities: Map<EntityId, Entity>)
    ensures
        has_none_of(enemies_moved(entities, false), EntityKind::Enemy),
{
    let after = enemies_moved(entities, false);
    assert forall|id: EntityId| after.contains_key(id) implies (
    #[trigger] after[id]).kind_of() != EntityKind::Enemy by {
        assert(!(entities[id] is Enemy));
    }
}

/// Moving the cars keeps the entities well-formed and leaves the player alone.
pub proof fn lemma_enemies_moved_wf(entities: Map<EntityId, Entity>, alive: bool)
    requires
        entities_wf(entities),
    ensures
        entities_wf(enemies_moved(entities, alive)),
{
    let after = enemies_moved(entities, alive);
    assert forall|a: EntityId, b: EntityId|
        after.contains_key(a) && after.contains_key(b) && #[trigger] after[a] is Player
            && #[trigger] after[b] is Player implies a == b by {
        assert(entities[a] is Player);
        assert(entities[b] is Player);
    }
    assert forall|id: EntityId| after.contains_key(id) implies (
    #[trigger] after[id] matches Entity::Player(player) ==> player.in_arena()) by {
        if after[id] is Player {
            assert(entities[id] is Player);
        }
    }
    assert forall|id: EntityId| after.contains_key(id) implies (
    #[trigger] after[id] matches Entity::Enemy(enemy) ==> enemy.velocity.x != 0) by {
        if after[id] is Enemy {
            assert(entities[id] is Enemy);
        }
    }
}

/// A car that enters keeps the entities well-formed.
pub proof fn lemma_with_enemy_wf(
    entities: Map<EntityId, Entity>,
    next_id: nat,
    lane_index: usize,
    color_index: usize,
)
    requires
        entities_wf(entities),
    ensures
        entities_wf(with_enemy(entities, next_id, lane_index, color_index)),
{
    let after = with_enemy(entities, next_id, lane_index, color_index);
    let new_id = EntityId(next_id as usize);
    assert forall|a: EntityId, b: EntityId|
        after.contains_key(a) && after.contains_key(b) && #[trigger] after[a] is Player
            && #[trigger] after[b] is Player implies a == b by {
        assert(a != new_id && b != new_id);
        assert(entities[a] is Player);
        assert(entities[b] is Player);
    }
    assert forall|id: EntityId| after.contains_key(id) implies (
    #[trigger] after[id] matches Entity::Player(player) ==> player.in_arena()) by {
        if after[id] is Player {
            assert(id != new_id);
            assert(entities[id] is Player);
        }
    }
    assert forall|id: EntityId| after.contains_key(id) implies (
    #[trigger] after[id] matches Entity::Enemy(enemy) ==> enemy.velocity.x != 0) by {
        if after[id] is Enemy && id != new_id {
            assert(entities[id] is Enemy);
        }
    }
}

/// Whether the car under `enemy_id` overlaps the player under `player_id`.
pub open spec fn hits(
    entities: Map<EntityId, Entity>,
    player_id: EntityId,
    enemy_id: EntityId,
) -> bool {
    &&& entities.contains_key(player_id)
    &&& entities.contains_key(enemy_id)
    &&& entities[player_id] matches Entity::Player(player)
    &&& entities[enemy_id] matches Entity::Enemy(enemy)
    &&& player.bounding_box().overlaps(enemy.bounding_box())
}

/// Whether a car overlaps the player. Without exactly one player there is nothing to hit.
pub open spec fn player_is_hit(entities: Map<EntityId, Entity>) -> bool {
    single_player(entities) matches Some(player_id) && exists|enemy_id: EntityId|
        hits(entities, player_id, enemy_id)
}

/// Tests the player against every car. On a hit the player dies: it is marked dead,
/// its entity is removed and the game is over. Without a hit, without a player, or
/// with the player dead already, nothing changes.
pub fn enemy_hit_player_system(
    store: &mut EntityStore,
    player_state: &mut PlayerState,
    game_state: &mut GameState,
)
    ensures
        old(player_state).alive && player_is_hit(old(store)@) ==> {
            &&& final(store)@ == old(store)@.remove(single_player(old(store)@)->Some_0)
            &&& *final(player_state) == (PlayerState { alive: false, ..*old(player_state) })
            &&& *final(game_state) == GameState::GameOver
        },
        !(old(player_state).alive && player_is_hit(old(store)@)) ==> {
            &&& final(store)@ == old(store)@
            &&& *final(player_state) == *old(player_state)
            &&& *final(game_state) == *old(game_state)
        },
        final(store).next_id() == old(store).next_id(),
{
    if !player_state.alive {
        return ;
    }
    let player_id = match store.player() {
        Some(player_id) => player_id,
        None => {
            return ;
        },
    };
    proof {
        lemma_single_player_found(store@);
    }
    let player_box = match store.get(player_id) {
        Some(Entity::Player(player)) => player.aabb(),
        _ => {
            return ;
        },
    };
    let bound = store.upper_bound();
    let mut index: usize = 0;
    let mut hit = false;
    while index < bound && !hit
        invariant
            index <= bound,
            bound == store.next_id(),
            store@ == old(store)@,
            store.next_id() == old(store).next_id(),
            forall|id: EntityId| #[trigger] store@.contains_key(id) ==> id.0 < bound,
            single_player(store@) == Some(player_id),
            store@.contains_key(player_id),
            store@[player_id] is Player,
            player_box == store@[player_id]->Player_0.bounding_box(),
            hit ==> exists|enemy_id: EntityId| hits(store@, player_id, enemy_id),
            !hit ==> forall|enemy_id: EntityId|
                enemy_id.0 < index ==> !hits(store@, player_id, enemy_id),
        decreases bound - index,
    {
        match store.get(EntityId(index)) {
            Some(Entity::Enemy(enemy)) => {
                if player_box.collide(&enemy.aabb()) {
                    hit = true;
                    assert(hits(store@, player_id, EntityId(index)));
                }
            },
            _ => {},
        }
        if !hit {
            assert forall|enemy_id: EntityId| enemy_id.0 < index + 1 implies !hits(
                store@,
                player_id,
                enemy_id,
            ) by {
                if enemy_id.0 == index {
                    assert(enemy_id == EntityId(index));
                }
            }
        }
        index += 1;
    }
    if hit {
        player_state.alive = false;
        store.remove(player_id);
        *game_state = GameState::GameOver;
    }
}

/// Once the player is hit and gone, no car hits it again.
pub proof fn lemma_hit_happens_once(entities: Map<EntityId, Entity>)
    requires
        player_is_hit(entities),
    ensures
        !player_is_hit(entities.remove(single_player(entities)->Some_0)),
{
    let player_id = single_player(entities)->Some_0;
    let after = entities.remove(player_id);
    lemma_single_player_found(entities);
    lemma_single_player_found(after);
    if single_player(after) is Some {
        let other = single_player(after)->Some_0;
        assert(after[other] is Player);
        assert(entities[other] is Player);
    }
}

/// One tick of a `bevy::time::Timer` in repeating mode, from plain values to plain
/// values: a timer with period `duration` that has counted `elapsed` is ticked by
/// `delta`, all in microseconds. The result is what it has counted afterwards, and
/// whether it finished. Taken from the timer's source and not proved here: the time
/// sums up, whole periods are taken off it, and the timer finished if there was one.
/// A period of zero, or more periods in one tick than a `u32` counts, are left out.
#[verifier::external_body]
fn repeating_timer_tick(duration: u32, elapsed: u32, delta: u32) -> (after: (u32, bool))
    requires
        duration > 0,
        (elapsed + delta) / (duration as int) <= u32::MAX,
    ensures
        after.0 == (elapsed + delta) % (duration as int),
        after.1 == (elapsed + delta >= duration),
{
    let mut timer = Timer::new(Duration::from_micros(duration as u64), TimerMode::Repeating);
    timer.set_elapsed(Duration::from_micros(elapsed as u64));
    timer.tick(Duration::from_micros(delta as u64));
    (timer.elapsed().as_micros() as u32, timer.finished())
}

/// A number below `bound`, drawn by `rand::Rng::gen_range` from the generator of the
/// thread, `rand::thread_rng`, which seeds itself from the operating system. Which
/// number comes is left to chance; all that is claimed is that it lies below `bound`.
/// An empty range is left out.
#[verifier::external_body]
fn random_below(bound: usize) -> (drawn: usize)
    requires
        bound > 0,
    ensures
        drawn < bound,
{
    thread_rng().gen_range(0..bound)
}

} // verus!
