//! A session on the road: its scenery, its beginning and end, and the count of crossings.

use vstd::prelude::*;
use crate::enemy::{spawn_period, EnemySpawnConfig, SpawnTimer};
use crate::player::{PlayerState, Sidewalk, MAX_LEVEL};
use crate::store::{lemma_single_player_found, single_player, Entity, EntityId, EntityStore};
use crate::world::{
    Position, BOTTOM_BAND_END, BOTTOM_BAND_START, TOP_BAND_END, TOP_BAND_START,
};

verus! {

/// The y of the centre of the top sidewalk, 350 pixels; the bottom one lies as far below.
pub const SIDE_WALK_Y: i32 = 2100;

/// What a piece of scenery shows.
#[derive(Clone, Copy, PartialEq, Eq, Debug, Structural)]
pub enum Scenery {
    Road,
    SideWalkTop,
    SideWalkBottom,
}

/// A piece of scenery. It never moves and nothing collides with it.
#[derive(Clone, Copy, PartialEq, Eq, Debug, Structural)]
pub struct Decoration {
    pub scenery: Scenery,
    pub position: Position,
}

impl Decoration {
    /// The road, in the middle of the window.
    pub open spec fn road() -> Decoration {
        Decoration { scenery: Scenery::Road, position: Position { x: 0, y: 0 } }
    }

    /// The sidewalk below the road.
    pub open spec fn side_walk_bottom() -> Decoration {
        Decoration {
            scenery: Scenery::SideWalkBottom,
            position: Position { x: 0, y: (-SIDE_WALK_Y) as i32 },
        }
    }

    /// The sidewalk above the road.
    pub open spec fn side_walk_top() -> Decoration {
        Decoration { scenery: Scenery::SideWalkTop, position: Position { x: 0, y: SIDE_WALK_Y } }
    }
}

/// The entities after the scenery has been set up, under the handles from `next_id` on.
pub open spec fn with_scenery(entities: Map<EntityId, Entity>, next_id: nat) -> Map<
    EntityId,
    Entity,
> {
    entities.insert(EntityId(next_id as usize), Entity::Decoration(Decoration::road())).insert(
        EntityId((next_id + 1) as usize),
        Entity::Decoration(Decoration::side_walk_bottom()),
    ).insert(EntityId((next_id + 2) as usize), Entity::Decoration(Decoration::side_walk_top()))
}

/// Begins a session: the player's state and the spawn timer start afresh, and the
/// road and its two sidewalks are set up.
pub fn in_game_setup_system(
    store: &mut EntityStore,
    player_state: &mut PlayerState,
    spawn_timer: &mut EnemySpawnConfig,
)
    ensures
        *final(player_state) == PlayerState::initial(),
        final(spawn_timer).timer == SpawnTimer::fresh(),
        final(store)@ == with_scenery(old(store)@, old(store).next_id()),
        final(store).next_id() == old(store).next_id() + 3,
{
    player_state.alive = true;
    player_state.level = 1;
    player_state.last_sidewalk = Sidewalk::Neither;
    spawn_timer.timer = SpawnTimer::new();
    store.insert(
        Entity::Decoration(
            Decoration { scenery: Scenery::Road, position: Position { x: 0, y: 0 } },
        ),
    );
    store.insert(
        Entity::Decoration(
            Decoration {
                scenery: Scenery::SideWalkBottom,
                position: Position { x: 0, y: -SIDE_WALK_Y },
            },
        ),
    );
    store.insert(
        Entity::Decoration(
            Decoration { scenery: Scenery::SideWalkTop, position: Position { x: 0, y: SIDE_WALK_Y } },
        ),
    );
}

/// The sidewalk that a player at height `y` reaches, having touched `last` before:
/// the top one on entering the band near it, unless it was the last touched; the
/// bottom one on entering the band near it, if the top one was the last touched.
pub open spec fn sidewalk_reached(last: Sidewalk, y: int) -> Option<Sidewalk> {
    if last != Sidewalk::Top && TOP_BAND_START < y < TOP_BAND_END {
        Some(Sidewalk::Top)
    } else if last == Sidewalk::Top && BOTTOM_BAND_END < y < BOTTOM_BAND_START {
        Some(Sidewalk::Bottom)
    } else {
        None
    }
}

/// A sidewalk counts once. Where the player reaches one, it reaches none again from
/// the same place; and the two are reached in turn, the top one never after itself
/// and the bottom one only after the top one.
pub proof fn lemma_sidewalk_counts_once(last: Sidewalk, y: int)
    ensures
        sidewalk_reached(last, y) matches Some(reached) ==> sidewalk_reached(reached, y) is None,
        sidewalk_reached(last, y) == Some(Sidewalk::Top) ==> last != Sidewalk::Top,
        sidewalk_reached(last, y) == Some(Sidewalk::Bottom) ==> last == Sidewalk::Top,
        sidewalk_reached(last, y) != Some(Sidewalk::Neither),
{
}

/// The sidewalk that the player among `entities` reaches, if there is exactly one
/// player and it reaches one.
pub open spec fn crossing(entities: Map<EntityId, Entity>, last: Sidewalk) -> Option<Sidewalk> {
    match single_player(entities) {
        Some(id) => sidewalk_reached(last, entities[id]->Player_0.position.y as int),
        None => None,
    }
}

/// The level that follows `level`: one more, up to `MAX_LEVEL`.
pub open spec fn next_level(level: u8) -> u8 {
    if level < MAX_LEVEL {
        (level + 1) as u8
    } else {
        level
    }
}

/// The player's state after the sidewalks have been looked at: reaching one is
/// remembered and raises the level.
pub open spec fn progressed(state: PlayerState, entities: Map<EntityId, Entity>) -> PlayerState {
    match crossing(entities, state.last_sidewalk) {
        Some(sidewalk) => PlayerState {
            last_sidewalk: sidewalk,
            level: next_level(state.level),
            ..state
        },
        None => state,
    }
}

/// The spawn timer after the sidewalks have been looked at: reaching one sets the
/// period to that of the level reached with it.
pub open spec fn timer_progressed(
    timer: SpawnTimer,
    state: PlayerState,
    entities: Map<EntityId, Entity>,
) -> SpawnTimer {
    match crossing(entities, state.last_sidewalk) {
        Some(_) => SpawnTimer { duration: spawn_period(next_level(state.level)), ..timer },
        None => timer,
    }
}

/// Counts the crossings of the road. When the player enters the band near the
/// sidewalk opposite to the one it touched last, that sidewalk is remembered, the
/// level rises by one and cars come faster.
pub fn sidewalk_hit_system(
    player_state: &mut PlayerState,
    store: &EntityStore,
    spawn_timer: &mut EnemySpawnConfig,
)
    ensures
        *final(player_state) == progressed(*old(player_state), store@),
        final(spawn_timer).timer == timer_progressed(
            old(spawn_timer).timer,
            *old(player_state),
            store@,
        ),
        old(spawn_timer).timer.wf() ==> final(spawn_timer).timer.wf(),
        final(player_state).level >= old(player_state).level,
{
    proof {
        lemma_single_player_found(store@);
    }
    let player_y_pos = match store.player() {
        Some(id) => match store.get(id) {
            Some(Entity::Player(player)) => player.position.y,
            _ => {
                return ;
            },
        },
        None => {
            return ;
        },
    };
    let next_level = if player_state.level < MAX_LEVEL {
        player_state.level + 1
    } else {
        player_state.level
    };
    let reached = match player_state.last_sidewalk {
        Sidewalk::Top => if player_y_pos < BOTTOM_BAND_START && player_y_pos > BOTTOM_BAND_END {
            Some(Sidewalk::Bottom)
        } else {
            None
        },
        _ => if player_y_pos > TOP_BAND_START && player_y_pos < TOP_BAND_END {
            Some(Sidewalk::Top)
        } else {
            None
        },
    };
    match reached {
        Some(sidewalk) => {
            player_state.last_sidewalk = sidewalk;
            player_state.level = next_level;
            spawn_timer.timer.set_level(next_level);
        },
        None => {},
    }
}

/// The entities that outlast a session: all but cars and scenery.
pub open spec fn torn_down(entities: Map<EntityId, Entity>) -> Map<EntityId, Entity> {
    Map::new(
        |id: EntityId| entities.contains_key(id) && entities[id] is Player,
        |id: EntityId| entities[id],
    )
}

/// Ends a session: removes every car and all scenery.
pub fn despawn_in_game_system(store: &mut EntityStore)
    ensures
        final(store)@ == torn_down(old(store)@),
        final(store).next_id() == old(store).next_id(),
{
    let ghost before = store@;
    let bound = store.upper_bound();
    let mut index: usize = 0;
    while index < bound
        invariant
            index <= bound,
            bound == store.next_id(),
            store.next_id() == old(store).next_id(),
            before == old(store)@,
            forall|id: EntityId| #[trigger] before.contains_key(id) ==> id.0 < bound,
            forall|id: EntityId|
                id.0 < index ==> (#[trigger] store@.contains_key(id)) == torn_down(
                    before,
                ).contains_key(id),
            forall|id: EntityId|
                id.0 >= index ==> (#[trigger] store@.contains_key(id)) == before.contains_key(id),
            forall|id: EntityId| store@.contains_key(id) ==> #[trigger] store@[id] == before[id],
        decreases bound - index,
    {
        let id = EntityId(index);
        match store.get(id) {
            Some(Entity::Player(_)) => {},
            Some(_) => {
                store.remove(id);
            },
            None => {},
        }
        index += 1;
    }
    assert(store@ =~= torn_down(before));
}

} // verus!
