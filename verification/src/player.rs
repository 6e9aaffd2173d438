//! The player: its state across a session, its steering, its movement and its animation.

use vstd::prelude::*;
use crate::store::{
    at_most_one_player, entities_wf, is_only_player, lemma_single_player_found,
    lemma_single_player_is, single_player, Entity, EntityId, EntityStore,
};
use crate::world::{
    clamp, clamped, Aabb, Position, Scale, ARENA_BOTTOM, ARENA_LEFT, ARENA_RIGHT, ARENA_TOP,
    BOTTOM_BAND_END, BOTTOM_BAND_START, PLAYER_DIM, SIDE_WALK, STEP, UNITS_PER_PIXEL, WIN_HEIGHT,
};

verus! {

/// First and last animation frame of the player walking right.
pub const PLAYER_RIGHT_SPRITE_INDEX: (usize, usize) = (0, 5);

/// First and last animation frame of the player walking up.
pub const PLAYER_UP_SPRITE_INDEX: (usize, usize) = (6, 11);

/// First and last animation frame of the player walking left.
pub const PLAYER_LEFT_SPRITE_INDEX: (usize, usize) = (12, 17);

/// First and last animation frame of the player walking down.
pub const PLAYER_DOWN_SPRITE_INDEX: (usize, usize) = (18, 23);

/// Scale at which the player is drawn: two pixels to the texel.
pub const PLAYER_SCALE: u16 = 12;

/// Where the player's centre starts: on the bottom sidewalk, half a sprite above its
/// middle line.
pub const PLAYER_START_Y: i32 = -2052;

/// The highest level the counter reaches; it stays there.
pub const MAX_LEVEL: u8 = 255;

/// The sidewalk that the player touched last.
#[derive(Clone, Copy, PartialEq, Eq, Debug, Structural)]
pub enum Sidewalk {
    Top,
    Bottom,
    /// Neither of the two, as long as a session is young.
    Neither,
}

/// What a session remembers of the player.
#[derive(Clone, Copy, PartialEq, Eq, Debug, Structural)]
pub struct PlayerState {
    /// Cleared when a car hits the player.
    pub alive: bool,
    /// Starts at 1 and grows by one with every crossing of the road.
    pub level: u8,
    /// The sidewalk reached last, so that lingering on one counts once.
    pub last_sidewalk: Sidewalk,
}

impl PlayerState {
    /// The state at the start of a session.
    pub open spec fn initial() -> PlayerState {
        PlayerState { alive: true, level: 1, last_sidewalk: Sidewalk::Neither }
    }
}

impl Default for PlayerState {
    fn default() -> (state: PlayerState)
        ensures
            state == PlayerState::initial(),
    {
        PlayerState { alive: true, level: 1, last_sidewalk: Sidewalk::Neither }
    }
}

/// Direction of travel of the player, one unit per axis at most.
#[derive(Clone, Copy, PartialEq, Eq, Debug, Structural)]
pub struct PlayerVelocity {
    pub x: i8,
    pub y: i8,
}

impl PlayerVelocity {
    /// The velocity of a player at rest.
    pub open spec fn zero() -> PlayerVelocity {
        PlayerVelocity { x: 0, y: 0 }
    }

    /// The unit velocity that points in `direction`.
    pub open spec fn towards(direction: Direction) -> PlayerVelocity {
        match direction {
            Direction::Up => PlayerVelocity { x: 0, y: 1 },
            Direction::Down => PlayerVelocity { x: 0, y: -1i8 },
            Direction::Left => PlayerVelocity { x: -1i8, y: 0 },
            Direction::Right => PlayerVelocity { x: 1, y: 0 },
        }
    }

    pub open spec fn is_zero(self) -> bool {
        self.x == 0 && self.y == 0
    }
}

/// The way the player faces. It selects the frames of the walking animation.
#[derive(Clone, Copy, PartialEq, Eq, Debug, Structural)]
pub enum Direction {
    Up,
    Down,
    Left,
    Right,
}

impl Direction {
    /// First and last frame of the animation for this direction.
    pub open spec fn frames(self) -> (usize, usize) {
        match self {
            Direction::Up => PLAYER_UP_SPRITE_INDEX,
            Direction::Down => PLAYER_DOWN_SPRITE_INDEX,
            Direction::Left => PLAYER_LEFT_SPRITE_INDEX,
            Direction::Right => PLAYER_RIGHT_SPRITE_INDEX,
        }
    }
}

/// The player's entity.
#[derive(Clone, Copy, PartialEq, Eq, Debug, Structural)]
pub struct Player {
    pub position: Position,
    pub scale: Scale,
    pub velocity: PlayerVelocity,
    pub direction: Direction,
    /// Frame of the sprite sheet shown at present.
    pub sprite_index: usize,
}

/// The frame that follows `current_index` in the animation from `dim.0` to `dim.1`:
/// the next one while inside the range, its first one from the last frame or from outside.
pub open spec fn next_sprite_index(dim: (usize, usize), current_index: usize) -> usize {
    if dim.0 <= current_index < dim.1 {
        (current_index + 1) as usize
    } else {
        dim.0
    }
}

/// Steps an animation: the frame after `current_index` in the range `dim`, cyclically.
pub fn get_sprite_index(dim: (usize, usize), current_index: usize) -> (index: usize)
    ensures
        index == next_sprite_index(dim, current_index),
        dim.0 <= dim.1 ==> dim.0 <= index <= dim.1,
{
    let index = if current_index >= dim.0 && current_index < dim.1 {
        current_index + 1
    } else {
        dim.0
    };
    index
}

impl Player {
    /// The player as a session starts: at rest on the bottom sidewalk, facing up.
    pub open spec fn initial() -> Player {
        Player {
            position: Position { x: 0, y: PLAYER_START_Y },
            scale: Scale { x: PLAYER_SCALE, y: PLAYER_SCALE },
            velocity: PlayerVelocity::zero(),
            direction: Direction::Up,
            sprite_index: PLAYER_UP_SPRITE_INDEX.0,
        }
    }

    /// The box that cars are tested against.
    pub open spec fn bounding_box(self) -> Aabb {
        Aabb {
            center: self.position,
            width: (PLAYER_DIM * self.scale.x) as u32,
            height: (PLAYER_DIM * self.scale.y) as u32,
        }
    }

    /// The player's centre lies in the arena.
    pub open spec fn in_arena(self) -> bool {
        &&& ARENA_LEFT <= self.position.x <= ARENA_RIGHT
        &&& ARENA_BOTTOM <= self.position.y <= ARENA_TOP
    }

    /// The player one tick later: moved by its velocity, held to the arena,
    /// and one frame further in its animation if it moved at all.
    pub open spec fn moved(self) -> Player {
        Player {
            position: Position {
                x: clamped(
                    self.position.x + self.velocity.x * STEP,
                    ARENA_LEFT as int,
                    ARENA_RIGHT as int,
                ) as i32,
                y: clamped(
                    self.position.y + self.velocity.y * STEP,
                    ARENA_BOTTOM as int,
                    ARENA_TOP as int,
                ) as i32,
            },
            sprite_index: if self.velocity.is_zero() {
                self.sprite_index
            } else {
                next_sprite_index(self.direction.frames(), self.sprite_index)
            },
            ..self
        }
    }

    /// The player steered by the key that wins, or brought to rest when none is held.
    /// A player at rest keeps the way it faces.
    pub open spec fn steered(self, key: Option<Direction>) -> Player {
        match key {
            Some(direction) => Player {
                velocity: PlayerVelocity::towards(direction),
                direction,
                ..self
            },
            None => Player { velocity: PlayerVelocity::zero(), ..self },
        }
    }

    /// Computes the box that cars are tested against.
    pub fn aabb(&self) -> (aabb: Aabb)
        ensures
            aabb == self.bounding_box(),
    {
        Aabb {
            center: self.position,
            width: PLAYER_DIM * (self.scale.x as u32),
            height: PLAYER_DIM * (self.scale.y as u32),
        }
    }

    /// Advances the player by one tick.
    pub fn step(&self) -> (next: Player)
        ensures
            next == self.moved(),
            next.in_arena(),
    {
        let x: i64 = self.position.x as i64 + (self.velocity.x as i64) * (STEP as i64);
        let y: i64 = self.position.y as i64 + (self.velocity.y as i64) * (STEP as i64);
        let sprite_index = if self.velocity.x != 0 || self.velocity.y != 0 {
            match self.direction {
                Direction::Up => get_sprite_index(PLAYER_UP_SPRITE_INDEX, self.sprite_index),
                Direction::Down => get_sprite_index(PLAYER_DOWN_SPRITE_INDEX, self.sprite_index),
                Direction::Left => get_sprite_index(PLAYER_LEFT_SPRITE_INDEX, self.sprite_index),
                Direction::Right => get_sprite_index(PLAYER_RIGHT_SPRITE_INDEX, self.sprite_index),
            }
        } else {
            self.sprite_index
        };
        Player {
            position: Position {
                x: clamp(x, ARENA_LEFT, ARENA_RIGHT),
                y: clamp(y, ARENA_BOTTOM, ARENA_TOP),
            },
            scale: self.scale,
            velocity: self.velocity,
            direction: self.direction,
            sprite_index,
        }
    }
}

/// The entities after `change` has been applied to the player, if there is exactly one.
pub open spec fn with_player(
    entities: Map<EntityId, Entity>,
    change: spec_fn(Player) -> Player,
) -> Map<EntityId, Entity> {
    match single_player(entities) {
        Some(id) => entities.insert(id, Entity::Player(change(entities[id]->Player_0))),
        None => entities,
    }
}

/// The entities after the player has moved.
pub open spec fn player_moved(entities: Map<EntityId, Entity>) -> Map<EntityId, Entity> {
    with_player(entities, |player: Player| player.moved())
}

/// The entities after the player has been steered by `key`.
pub open spec fn player_steered(entities: Map<EntityId, Entity>, key: Option<Direction>) -> Map<
    EntityId,
    Entity,
> {
    with_player(entities, |player: Player| player.steered(key))
}

/// Puts the player into the game, as a session starts.
pub fn spawn_player(store: &mut EntityStore) -> (id: EntityId)
    ensures
        id.0 == old(store).next_id(),
        final(store)@ == old(store)@.insert(id, Entity::Player(Player::initial())),
        final(store).next_id() == old(store).next_id() + 1,
{
    store.insert(
        Entity::Player(
            Player {
                position: Position { x: 0, y: PLAYER_START_Y },
                scale: Scale { x: PLAYER_SCALE, y: PLAYER_SCALE },
                velocity: PlayerVelocity { x: 0, y: 0 },
                direction: Direction::Up,
                sprite_index: PLAYER_UP_SPRITE_INDEX.0,
            },
        ),
    )
}

/// Moves the player by one tick and holds it to the arena. Without exactly one
/// player nothing changes.
pub fn move_player_system(store: &mut EntityStore)
    ensures
        final(store)@ == player_moved(old(store)@),
        final(store).next_id() == old(store).next_id(),
        single_player(final(store)@) == single_player(old(store)@),
        single_player(final(store)@) matches Some(id)
            ==> final(store)@[id]->Player_0.in_arena(),
{
    proof {
        lemma_single_player_found(store@);
    }
    match store.player() {
        Some(id) => {
            match store.get(id) {
                Some(Entity::Player(player)) => {
                    store.replace(id, Entity::Player(player.step()));
                    proof {
                        lemma_player_stays_single(old(store)@, id, player.moved());
                    }
                },
                _ => {},
            }
        },
        None => {},
    }
}

/// Steers the player by the keys held now: the key pressed last sets its velocity
/// and the way it faces, and with no key held it comes to rest. The tracker takes
/// the keys in whether or not there is a player.
pub fn player_input_system(kb: PressedKeys, tracker: &mut KeyTracker, store: &mut EntityStore)
    ensures
        *final(tracker) == old(tracker).after(kb),
        final(store)@ == player_steered(old(store)@, old(tracker).winner_after(kb)),
        final(store).next_id() == old(store).next_id(),
        single_player(final(store)@) == single_player(old(store)@),
{
    let key = tracker.observe(kb);
    proof {
        lemma_single_player_found(store@);
    }
    match store.player() {
        Some(id) => {
            match store.get(id) {
                Some(Entity::Player(player)) => {
                    let steered = match key {
                        Some(direction) => {
                            let velocity = match direction {
                                Direction::Up => PlayerVelocity { x: 0, y: 1 },
                                Direction::Down => PlayerVelocity { x: 0, y: -1 },
                                Direction::Left => PlayerVelocity { x: -1, y: 0 },
                                Direction::Right => PlayerVelocity { x: 1, y: 0 },
                            };
                            Player {
                                position: player.position,
                                scale: player.scale,
                                velocity,
                                direction,
                                sprite_index: player.sprite_index,
                            }
                        },
                        None => Player {
                            position: player.position,
                            scale: player.scale,
                            velocity: PlayerVelocity { x: 0, y: 0 },
                            direction: player.direction,
                            sprite_index: player.sprite_index,
                        },
                    };
                    store.replace(id, Entity::Player(steered));
                    proof {
                        lemma_player_stays_single(old(store)@, id, steered);
                    }
                },
                _ => {},
            }
        },
        None => {},
    }
}

/// Putting another player in the place of the only one leaves it the only one.
pub proof fn lemma_player_stays_single(
    entities: Map<EntityId, Entity>,
    id: EntityId,
    player: Player,
)
    requires
        single_player(entities) == Some(id),
    ensures
        single_player(entities.insert(id, Entity::Player(player))) == Some(id),
{
    lemma_single_player_found(entities);
    let after = entities.insert(id, Entity::Player(player));
    assert forall|other: EntityId|
        after.contains_key(other) && #[trigger] after[other] is Player implies other == id by {
        if other != id {
            assert(entities[other] is Player);
        }
    }
    lemma_single_player_is(after, id);
}

/// Moving the player keeps the entities well-formed, and brings a player into the
/// arena wherever it was.
pub proof fn lemma_player_moved_wf(entities: Map<EntityId, Entity>)
    requires
        at_most_one_player(entities),
        forall|id: EntityId|
            entities.contains_key(id) ==> (#[trigger] entities[id] matches Entity::Enemy(enemy)
                ==> enemy.velocity.x != 0),
    ensures
        entities_wf(player_moved(entities)),
        single_player(player_moved(entities)) == single_player(entities),
{
    lemma_single_player_found(entities);
    let after = player_moved(entities);
    match single_player(entities) {
        Some(id) => {
            lemma_player_stays_single(entities, id, entities[id]->Player_0.moved());
            assert forall|a: EntityId, b: EntityId|
                after.contains_key(a) && after.contains_key(b) && #[trigger] after[a] is Player
                    && #[trigger] after[b] is Player implies a == b by {
                assert(entities[id] is Player);
                if a != id {
                    assert(entities[a] is Player);
                }
                if b != id {
                    assert(entities[b] is Player);
                }
            }
            assert forall|other: EntityId|
                after.contains_key(other) implies (#[trigger] after[other] matches Entity::Player(
                    player,
                ) ==> player.in_arena()) by {
                if other != id && after[other] is Player {
                    assert(entities[other] is Player);
                    assert(entities[id] is Player);
                }
            }
        },
        None => {
            assert forall|other: EntityId|
                after.contains_key(other) implies (#[trigger] after[other] matches Entity::Player(
                    player,
                ) ==> player.in_arena()) by {
                if after[other] is Player {
                    assert forall|third: EntityId|
                        entities.contains_key(third) && #[trigger] entities[third] is Player
                        implies third == other by {
                        assert(entities[other] is Player);
                    }
                    assert(is_only_player(entities, other));
                }
            }
        },
    }
}

/// Steering the player keeps the entities well-formed.
pub proof fn lemma_player_steered_wf(entities: Map<EntityId, Entity>, key: Option<Direction>)
    requires
        entities_wf(entities),
    ensures
        entities_wf(player_steered(entities, key)),
        single_player(player_steered(entities, key)) == single_player(entities),
{
    lemma_single_player_found(entities);
    let after = player_steered(entities, key);
    match single_player(entities) {
        Some(id) => {
            lemma_player_stays_single(entities, id, entities[id]->Player_0.steered(key));
            assert forall|a: EntityId, b: EntityId|
                after.contains_key(a) && after.contains_key(b) && #[trigger] after[a] is Player
                    && #[trigger] after[b] is Player implies a == b by {
                assert(entities[id] is Player);
                if a != id {
                    assert(entities[a] is Player);
                }
                if b != id {
                    assert(entities[b] is Player);
                }
            }
            assert(entities[id] is Player);
        },
        None => {},
    }
}

/// The player starts on the bottom sidewalk, half a sprite above its middle line. That
/// is inside the arena and inside the band near the bottom sidewalk.
pub proof fn lemma_player_starts_in_arena()
    ensures
        2 * PLAYER_START_Y == -WIN_HEIGHT - SIDE_WALK + PLAYER_DIM * UNITS_PER_PIXEL,
        Player::initial().in_arena(),
        BOTTOM_BAND_END < PLAYER_START_Y < BOTTOM_BAND_START,
{
}

/// The four steering keys, each held or not.
#[derive(Clone, Copy, PartialEq, Eq, Debug, Structural)]
pub struct PressedKeys {
    pub left: bool,
    pub right: bool,
    pub up: bool,
    pub down: bool,
}

impl PressedKeys {
    /// No key held.
    pub open spec fn none() -> PressedKeys {
        PressedKeys { left: false, right: false, up: false, down: false }
    }

    /// Whether the key for `direction` is held.
    pub open spec fn holds(self, direction: Direction) -> bool {
        match direction {
            Direction::Up => self.up,
            Direction::Down => self.down,
            Direction::Left => self.left,
            Direction::Right => self.right,
        }
    }

    /// The keys held here that were not held in `before`.
    pub open spec fn pressed_since(self, before: PressedKeys) -> PressedKeys {
        PressedKeys {
            left: self.left && !before.left,
            right: self.right && !before.right,
            up: self.up && !before.up,
            down: self.down && !before.down,
        }
    }

    /// The held key that stands first in the order left, right, up, down.
    pub open spec fn first(self) -> Option<Direction> {
        if self.left {
            Some(Direction::Left)
        } else if self.right {
            Some(Direction::Right)
        } else if self.up {
            Some(Direction::Up)
        } else if self.down {
            Some(Direction::Down)
        } else {
            None
        }
    }

    /// Tests whether the key for `direction` is held.
    pub fn is_pressed(&self, direction: Direction) -> (held: bool)
        ensures
            held == self.holds(direction),
    {
        match direction {
            Direction::Up => self.up,
            Direction::Down => self.down,
            Direction::Left => self.left,
            Direction::Right => self.right,
        }
    }

    /// Finds the held key that stands first in the order left, right, up, down.
    pub fn first_pressed(&self) -> (key: Option<Direction>)
        ensures
            key == self.first(),
    {
        if self.left {
            Some(Direction::Left)
        } else if self.right {
            Some(Direction::Right)
        } else if self.up {
            Some(Direction::Up)
        } else if self.down {
            Some(Direction::Down)
        } else {
            None
        }
    }
}

/// Remembers the keyboard from one tick to the next, to tell which key was pressed last.
#[derive(Clone, Copy, PartialEq, Eq, Debug, Structural)]
pub struct KeyTracker {
    /// The keys held at the last tick.
    pub held: PressedKeys,
    /// The key that steered the player at the last tick.
    pub winner: Option<Direction>,
}

impl KeyTracker {
    /// A tracker that has seen no key yet.
    pub open spec fn initial() -> KeyTracker {
        KeyTracker { held: PressedKeys::none(), winner: None }
    }

    /// The key that steers the player once `now` is seen. The key pressed last wins:
    /// a key pressed since the last tick takes over; else the former winner goes on
    /// while it is held; else any key still held steps in. Keys that tie are taken
    /// in the order left, right, up, down.
    pub open spec fn winner_after(self, now: PressedKeys) -> Option<Direction> {
        let fresh = now.pressed_since(self.held);
        if fresh.first() is Some {
            fresh.first()
        } else if self.winner is Some && now.holds(self.winner->Some_0) {
            self.winner
        } else {
            now.first()
        }
    }

    /// The tracker once `now` is seen.
    pub open spec fn after(self, now: PressedKeys) -> KeyTracker {
        KeyTracker { held: now, winner: self.winner_after(now) }
    }

    /// A tracker that has seen no key yet.
    pub fn new() -> (tracker: KeyTracker)
        ensures
            tracker == KeyTracker::initial(),
    {
        KeyTracker {
            held: PressedKeys { left: false, right: false, up: false, down: false },
            winner: None,
        }
    }

    /// Takes in the keys held now and returns the key that steers the player.
    pub fn observe(&mut self, now: PressedKeys) -> (key: Option<Direction>)
        ensures
            *final(self) == old(self).after(now),
            key == old(self).winner_after(now),
    {
        let fresh = PressedKeys {
            left: now.left && !self.held.left,
            right: now.right && !self.held.right,
            up: now.up && !self.held.up,
            down: now.down && !self.held.down,
        };
        let newest = fresh.first_pressed();
        let key = if newest.is_some() {
            newest
        } else {
            let still_held = match self.winner {
                Some(direction) => now.is_pressed(direction),
                None => false,
            };
            if still_held {
                self.winner
            } else {
                now.first_pressed()
            }
        };
        self.held = now;
        self.winner = key;
        key
    }
}

/// The winning key is one that is held, and there is one whenever any key is held.
pub proof fn lemma_winner_is_held(tracker: KeyTracker, now: PressedKeys)
    ensures
        tracker.winner_after(now) matches Some(direction) ==> now.holds(direction),
        tracker.winner_after(now) is None <==> now == PressedKeys::none(),
{
}

/// A key that is pressed alone since the last tick wins, whatever else is held.
pub proof fn lemma_last_pressed_wins(tracker: KeyTracker, now: PressedKeys, direction: Direction)
    requires
        now.holds(direction),
        !tracker.held.holds(direction),
        forall|other: Direction|
            other != direction && now.holds(other) ==> #[trigger] tracker.held.holds(other),
    ensures
        tracker.winner_after(now) == Some(direction),
{
    assert(tracker.held.holds(Direction::Left) || direction == Direction::Left || !now.left);
    assert(tracker.held.holds(Direction::Right) || direction == Direction::Right || !now.right);
    assert(tracker.held.holds(Direction::Up) || direction == Direction::Up || !now.up);
    assert(tracker.held.holds(Direction::Down) || direction == Direction::Down || !now.down);
}

} // verus!
