//! The game as a whole: its three phases and the tick that drives a session.

use vstd::prelude::*;
use crate::enemy::{
    enemies_moved, enemy_hit_player_system, lemma_enemies_moved_wf, lemma_with_enemy_wf,
    move_enemy_system, player_is_hit, spawn_enemy, spawn_enemy_system, with_enemy,
    EnemySpawnConfig, SpawnTimer, COLOR_COUNT, LANE_COUNT,
};
use crate::in_game::{
    despawn_in_game_system, in_game_setup_system, progressed, sidewalk_hit_system,
    timer_progressed, torn_down, with_scenery,
};
use crate::player::{
    lemma_player_moved_wf, lemma_player_steered_wf, move_player_system, player_input_system,
    player_moved, player_steered, spawn_player, KeyTracker, Player, PlayerState, PressedKeys,
};
use crate::store::{
    entities_wf, has_none_of, lemma_single_player_found, rising, single_player, Entity, EntityId,
    EntityKind, EntityStore,
};

verus! {

/// The phase of the game.
#[derive(Clone, Copy, PartialEq, Eq, Debug, Hash, Structural)]
pub enum GameState {
    Menu,
    InGame,
    GameOver,
}

/// What the outside world hands to one tick.
#[derive(Clone, Copy, PartialEq, Eq, Debug, Structural)]
pub struct Input {
    /// The steering keys held now.
    pub keys: PressedKeys,
    /// Whether a new session is asked for, by the return key or by a click on the button.
    pub confirm: bool,
    /// Time since the last tick, in microseconds.
    pub delta: u32,
}

/// The phase after a new session has or has not been asked for: the request leads
/// from the menu and from the end of a game into a session.
pub open spec fn after_button(game_state: GameState, clicked: bool) -> GameState {
    if clicked && game_state != GameState::InGame {
        GameState::InGame
    } else {
        game_state
    }
}

/// Starts a session when one is asked for. During a session there is no button to
/// click, and nothing changes.
pub fn button_control_system(game_state: &mut GameState, clicked: bool)
    ensures
        *final(game_state) == after_button(*old(game_state), clicked),
{
    if clicked {
        match *game_state {
            GameState::InGame => {},
            _ => {
                *game_state = GameState::InGame;
            },
        }
    }
}

/// The game as the contracts see it.
#[verifier::ext_equal]
pub struct GameView {
    pub game_state: GameState,
    pub player_state: PlayerState,
    pub timer: SpawnTimer,
    pub tracker: KeyTracker,
    /// Every entity, by its handle.
    pub entities: Map<EntityId, Entity>,
    /// The number behind the handle that the next new entity gets.
    pub next_id: nat,
}

impl GameView {
    /// What holds of the game between any two ticks.
    pub open spec fn wf(self) -> bool {
        &&& self.timer.wf()
        &&& self.player_state.level >= 1
        &&& self.game_state == GameState::InGame ==> self.player_state.alive
        &&& self.game_state != GameState::InGame ==> self.entities
            == Map::<EntityId, Entity>::empty()
        &&& entities_wf(self.entities)
    }

    /// The game before anything has happened: the menu is shown.
    pub open spec fn initial() -> GameView {
        GameView {
            game_state: GameState::Menu,
            player_state: PlayerState::initial(),
            timer: SpawnTimer::fresh(),
            tracker: KeyTracker::initial(),
            entities: Map::empty(),
            next_id: 0,
        }
    }

    /// A session begins: state, timer and key tracker start afresh, the scenery is
    /// set up and the player is put on the bottom sidewalk.
    pub open spec fn started(self) -> GameView {
        GameView {
            game_state: GameState::InGame,
            player_state: PlayerState::initial(),
            timer: SpawnTimer::fresh(),
            tracker: KeyTracker::initial(),
            entities: with_scenery(self.entities, self.next_id).insert(
                EntityId((self.next_id + 3) as usize),
                Entity::Player(Player::initial()),
            ),
            next_id: self.next_id + 4,
        }
    }

    /// First phase of a tick: the keys steer the player.
    pub open spec fn steered(self, keys: PressedKeys) -> GameView {
        GameView {
            tracker: self.tracker.after(keys),
            entities: player_steered(self.entities, self.tracker.winner_after(keys)),
            ..self
        }
    }

    /// Second and third phase: player and cars move; the player is held to the
    /// arena, and cars that leave the road are removed.
    pub open spec fn moved(self) -> GameView {
        GameView {
            entities: enemies_moved(player_moved(self.entities), self.player_state.alive),
            ..self
        }
    }

    /// Whether a car hits the living player.
    pub open spec fn is_hit(self) -> bool {
        self.player_state.alive && player_is_hit(self.entities)
    }

    /// Fourth phase: a car that overlaps the player kills it and ends the game.
    pub open spec fn collided(self) -> GameView {
        if self.is_hit() {
            GameView {
                game_state: GameState::GameOver,
                player_state: PlayerState { alive: false, ..self.player_state },
                entities: self.entities.remove(single_player(self.entities)->Some_0),
                ..self
            }
        } else {
            self
        }
    }

    /// Fifth phase: reaching a sidewalk raises the level and shortens the spawn period.
    pub open spec fn progressed(self) -> GameView {
        GameView {
            player_state: progressed(self.player_state, self.entities),
            timer: timer_progressed(self.timer, self.player_state, self.entities),
            ..self
        }
    }

    /// Whether a car enters during a tick of `delta` microseconds.
    pub open spec fn spawns(self, delta: u32) -> bool {
        self.timer.fires(delta) && self.player_state.alive
    }

    /// Sixth phase: the spawn timer counts `delta` microseconds, and when it runs
    /// out while the player lives, a car enters on lane `lane_index`.
    pub open spec fn spawned(self, delta: u32, lane_index: usize, color_index: usize) -> GameView {
        GameView {
            timer: self.timer.ticked(delta),
            entities: if self.spawns(delta) {
                with_enemy(self.entities, self.next_id, lane_index, color_index)
            } else {
                self.entities
            },
            next_id: if self.spawns(delta) {
                self.next_id + 1
            } else {
                self.next_id
            },
            ..self
        }
    }

    /// The end of a tick: when the game is over, cars and scenery are removed.
    pub open spec fn settled(self) -> GameView {
        if self.game_state == GameState::GameOver {
            GameView { entities: torn_down(self.entities), ..self }
        } else {
            self
        }
    }

    /// One tick of a running session, its six phases in their order. Where a car
    /// enters, it does so on lane `lane_index` and in colour `color_index`.
    pub open spec fn played(self, input: Input, lane_index: usize, color_index: usize) -> GameView {
        self.steered(input.keys).moved().collided().progressed().spawned(
            input.delta,
            lane_index,
            color_index,
        ).settled()
    }

    /// One tick. Outside a session only the request for one counts.
    pub open spec fn ticked(self, input: Input, lane_index: usize, color_index: usize) -> GameView {
        if self.game_state == GameState::InGame {
            self.played(input, lane_index, color_index)
        } else if input.confirm {
            self.started()
        } else {
            self
        }
    }
}

/// What one tick changed among the entities, for whoever draws them.
#[derive(Debug)]
pub struct Changes {
    /// The handles of the entities that are new.
    pub created: Vec<EntityId>,
    /// The handles of the entities that are gone.
    pub destroyed: Vec<EntityId>,
}

impl Changes {
    /// Whether these changes are those from the entities `before` to the entities
    /// `after`: every new handle and every handle gone, each once and in rising order.
    pub open spec fn lead(self, before: Map<EntityId, Entity>, after: Map<EntityId, Entity>) -> bool {
        &&& forall|id: EntityId|
            self.created@.contains(id) <==> after.contains_key(id) && !before.contains_key(id)
        &&& forall|id: EntityId|
            self.destroyed@.contains(id) <==> before.contains_key(id) && !after.contains_key(id)
        &&& rising(self.created@)
        &&& rising(self.destroyed@)
    }
}

/// All that a game consists of.
struct Parts {
    game_state: GameState,
    player_state: PlayerState,
    spawn_timer: EnemySpawnConfig,
    tracker: KeyTracker,
    store: EntityStore,
}

impl View for Parts {
    type V = GameView;

    closed spec fn view(&self) -> GameView {
        GameView {
            game_state: self.game_state,
            player_state: self.player_state,
            timer: self.spawn_timer.timer,
            tracker: self.tracker,
            entities: self.store@,
            next_id: self.store.next_id(),
        }
    }
}

impl Parts {
    /// The parts of a game that shows its menu.
    fn new() -> (parts: Parts)
        ensures
            parts@ == GameView::initial(),
    {
        Parts {
            game_state: GameState::Menu,
            player_state: PlayerState::default(),
            spawn_timer: EnemySpawnConfig { timer: SpawnTimer::new() },
            tracker: KeyTracker::new(),
            store: EntityStore::new(),
        }
    }

    /// Begins a session.
    fn start(&mut self)
        ensures
            final(self)@ == old(self)@.started(),
    {
        self.game_state = GameState::InGame;
        self.tracker = KeyTracker::new();
        in_game_setup_system(&mut self.store, &mut self.player_state, &mut self.spawn_timer);
        spawn_player(&mut self.store);
    }

    /// The first five phases of a tick in a session.
    fn play(&mut self, input: &Input)
        ensures
            final(self)@ == old(self)@.steered(input.keys).moved().collided().progressed(),
    {
        player_input_system(input.keys, &mut self.tracker, &mut self.store);
        move_player_system(&mut self.store);
        move_enemy_system(&mut self.store, &self.player_state);
        enemy_hit_player_system(&mut self.store, &mut self.player_state, &mut self.game_state);
        sidewalk_hit_system(&mut self.player_state, &self.store, &mut self.spawn_timer);
    }

    /// The sixth phase, with the lane and colour of the car given or left to chance.
    fn spawn(&mut self, delta: u32, chosen: Option<(usize, usize)>) -> (drawn: Ghost<
        (usize, usize),
    >)
        requires
            old(self)@.timer.wf(),
            chosen matches Some(lane_and_color) ==> lane_and_color.0 < LANE_COUNT,
        ensures
            drawn@.0 < LANE_COUNT,
            chosen is None ==> drawn@.1 < COLOR_COUNT,
            chosen matches Some(lane_and_color) ==> drawn@ == lane_and_color,
            final(self)@ == old(self)@.spawned(delta, drawn@.0, drawn@.1),
    {
        match chosen {
            Some((lane_index, color_index)) => {
                let finished = self.spawn_timer.timer.tick(delta);
                if finished && self.player_state.alive {
                    spawn_enemy(&mut self.store, lane_index, color_index);
                }
                Ghost((lane_index, color_index))
            },
            None => {
                spawn_enemy_system(
                    &mut self.store,
                    &mut self.spawn_timer,
                    delta,
                    &self.player_state,
                );
                let ghost drawn = if old(self)@.spawns(delta) {
                    choose|lane_index: usize, color_index: usize|
                        lane_index < LANE_COUNT && color_index < COLOR_COUNT && self@.entities
                            == #[trigger] with_enemy(
                            old(self)@.entities,
                            old(self)@.next_id,
                            lane_index,
                            color_index,
                        )
                } else {
                    (0usize, 0usize)
                };
                Ghost(drawn)
            },
        }
    }

    /// The end of a tick in a session.
    fn settle(&mut self)
        ensures
            final(self)@ == old(self)@.settled(),
    {
        match self.game_state {
            GameState::GameOver => {
                despawn_in_game_system(&mut self.store);
            },
            _ => {},
        }
    }

    /// One tick, with the lane and colour of a car that enters given or left to chance.
    fn advance(&mut self, input: &Input, chosen: Option<(usize, usize)>) -> (outcome: (
        Changes,
        Ghost<(usize, usize)>,
    ))
        requires
            old(self)@.wf(),
            chosen matches Some(lane_and_color) ==> lane_and_color.0 < LANE_COUNT,
        ensures
            outcome.1@.0 < LANE_COUNT,
            chosen is None ==> outcome.1@.1 < COLOR_COUNT,
            chosen matches Some(lane_and_color) ==> outcome.1@ == lane_and_color,
            final(self)@ == old(self)@.ticked(*input, outcome.1@.0, outcome.1@.1),
            final(self)@.wf(),
            outcome.0.lead(old(self)@.entities, final(self)@.entities),
    {
        let known = self.store.ids_from(0);
        let bound = self.store.upper_bound();
        let drawn = match self.game_state {
            GameState::InGame => {
                self.play(input);
                proof {
                    lemma_play_keeps_timer(old(self)@, *input);
                }
                let drawn = self.spawn(input.delta, chosen);
                self.settle();
                drawn
            },
            _ => {
                if input.confirm {
                    self.start();
                }
                match chosen {
                    Some((lane_index, color_index)) => Ghost((lane_index, color_index)),
                    None => Ghost((0usize, 0usize)),
                }
            },
        };
        let created = self.store.ids_from(bound);
        let destroyed = self.store.gone_of(&known);
        proof {
            self.store.lemma_ids_below_next();
            lemma_tick_keeps_wf(old(self)@, *input, drawn@.0, drawn@.1);
            lemma_tick_issues_new_handles(old(self)@, *input, drawn@.0, drawn@.1);
        }
        (Changes { created, destroyed }, drawn)
    }
}

/// The game. A front end makes one, hands every frame to `tick`, and draws what
/// the entities are afterwards.
pub struct Game {
    parts: Parts,
}

impl View for Game {
    type V = GameView;

    closed spec fn view(&self) -> GameView {
        self.parts@
    }
}

impl Game {
    #[verifier::type_invariant]
    closed spec fn inv(self) -> bool {
        self.parts@.wf()
    }

    /// A game that shows its menu.
    pub fn new() -> (game: Game)
        ensures
            game@ == GameView::initial(),
            game@.wf(),
    {
        Game { parts: Parts::new() }
    }

    /// The phase of the game.
    pub fn game_state(&self) -> (game_state: GameState)
        ensures
            game_state == self@.game_state,
    {
        self.parts.game_state
    }

    /// What the session remembers of the player.
    pub fn player_state(&self) -> (player_state: PlayerState)
        ensures
            player_state == self@.player_state,
    {
        self.parts.player_state
    }

    /// The level reached.
    pub fn level(&self) -> (level: u8)
        ensures
            level == self@.player_state.level,
            level >= 1,
    {
        proof {
            use_type_invariant(self);
        }
        self.parts.player_state.level
    }

    /// The spawn timer.
    pub fn spawn_timer(&self) -> (timer: SpawnTimer)
        ensures
            timer == self@.timer,
    {
        self.parts.spawn_timer.timer
    }

    /// The entities.
    pub fn store(&self) -> (store: &EntityStore)
        ensures
            store@ == self@.entities,
            store.next_id() == self@.next_id,
    {
        &self.parts.store
    }

    /// Advances the game by one tick, with the lane and the colour given on which a
    /// car enters if one does. Returns which entities the tick created and destroyed.
    pub fn tick_with(&mut self, input: &Input, lane_index: usize, color_index: usize) -> (changes:
        Changes)
        requires
            lane_index < LANE_COUNT,
        ensures
            final(self)@ == old(self)@.ticked(*input, lane_index, color_index),
            final(self)@.wf(),
            changes.lead(old(self)@.entities, final(self)@.entities),
    {
        proof {
            use_type_invariant(&*self);
        }
        let mut parts = Parts::new();
        core::mem::swap(&mut self.parts, &mut parts);
        let (changes, _) = parts.advance(input, Some((lane_index, color_index)));
        self.parts = parts;
        changes
    }

    /// Advances the game by one tick. In a session the keys steer the player, player
    /// and cars move, a car that overlaps the player ends the game, reaching a
    /// sidewalk raises the level, and the spawn timer lets a car enter, on a lane and
    /// in a colour left to chance. Outside a session the request for one begins it.
    /// Returns which entities the tick created and destroyed.
    pub fn tick(&mut self, input: &Input) -> (changes: Changes)
        ensures
            exists|lane_index: usize, color_index: usize|
                lane_index < LANE_COUNT && color_index < COLOR_COUNT && final(self)@
                    == #[trigger] old(self)@.ticked(*input, lane_index, color_index),
            final(self)@.wf(),
            changes.lead(old(self)@.entities, final(self)@.entities),
            !final(self)@.player_state.alive ==> has_none_of(
                final(self)@.entities,
                EntityKind::Enemy,
            ),
            forall|id: EntityId|
                final(self)@.entities.contains_key(id) ==> (
                #[trigger] final(self)@.entities[id] matches Entity::Player(player)
                    ==> player.in_arena()),
            old(self)@.game_state == GameState::InGame ==> final(self)@.player_state.level
                >= old(self)@.player_state.level,
    {
        proof {
            use_type_invariant(&*self);
        }
        let mut parts = Parts::new();
        core::mem::swap(&mut self.parts, &mut parts);
        let (changes, drawn) = parts.advance(input, None);
        self.parts = parts;
        proof {
            lemma_tick_keeps_wf(old(self)@, *input, drawn@.0, drawn@.1);
        }
        changes
    }
}

/// The first five phases of a tick leave the spawn timer fit to be ticked.
proof fn lemma_play_keeps_timer(before: GameView, input: Input)
    requires
        before.timer.wf(),
    ensures
        before.steered(input.keys).moved().collided().progressed().timer.wf(),
{
}

/// A tick gives new entities new handles: whatever has a handle issued before the
/// tick was there before the tick.
pub proof fn lemma_tick_issues_new_handles(
    before: GameView,
    input: Input,
    lane_index: usize,
    color_index: usize,
)
    requires
        forall|id: EntityId| #[trigger] before.entities.contains_key(id) ==> id.0 < before.next_id,
        before.ticked(input, lane_index, color_index).next_id <= usize::MAX,
    ensures
        forall|id: EntityId|
            #[trigger] before.ticked(input, lane_index, color_index).entities.contains_key(id)
                && id.0 < before.next_id ==> before.entities.contains_key(id),
{
    if before.game_state == GameState::InGame {
        let steered = before.steered(input.keys);
        lemma_single_player_found(before.entities);
        let moved = steered.moved();
        lemma_single_player_found(steered.entities);
    }
}

/// A tick turns a well-formed game into a well-formed game, whatever the input and
/// wherever a car enters.
pub proof fn lemma_tick_keeps_wf(
    before: GameView,
    input: Input,
    lane_index: usize,
    color_index: usize,
)
    requires
        before.wf(),
    ensures
        before.ticked(input, lane_index, color_index).wf(),
        before.game_state == GameState::InGame ==> before.ticked(
            input,
            lane_index,
            color_index,
        ).player_state.level >= before.player_state.level,
{
    if before.game_state == GameState::InGame {
        let steered = before.steered(input.keys);
        lemma_player_steered_wf(before.entities, before.tracker.winner_after(input.keys));
        let moved = steered.moved();
        lemma_player_moved_wf(steered.entities);
        lemma_enemies_moved_wf(player_moved(steered.entities), steered.player_state.alive);
        let collided = moved.collided();
        lemma_single_player_found(moved.entities);
        assert(entities_wf(collided.entities));
        let progressed = collided.progressed();
        let spawned = progressed.spawned(input.delta, lane_index, color_index);
        lemma_with_enemy_wf(progressed.entities, progressed.next_id, lane_index, color_index);
        let settled = spawned.settled();
        if moved.is_hit() {
            let player_id = single_player(moved.entities)->Some_0;
            assert(!spawned.spawns(input.delta));
            assert forall|id: EntityId| !torn_down(spawned.entities).contains_key(id) by {
                if torn_down(spawned.entities).contains_key(id) {
                    assert(moved.entities[id] is Player);
                    assert(moved.entities[player_id] is Player);
                }
            }
            assert(settled.entities =~= Map::<EntityId, Entity>::empty());
        }
    } else if input.confirm {
        let started = before.started();
        let scenery = with_scenery(before.entities, before.next_id);
        let player_id = EntityId((before.next_id + 3) as usize);
        assert forall|id: EntityId| scenery.contains_key(id) implies #[trigger] scenery[id]
            is Decoration by {}
        assert forall|a: EntityId, b: EntityId|
            started.entities.contains_key(a) && started.entities.contains_key(b)
                && #[trigger] started.entities[a] is Player
                && #[trigger] started.entities[b] is Player implies a == b by {
            if a != player_id {
                assert(scenery[a] is Decoration);
            }
            if b != player_id {
                assert(scenery[b] is Decoration);
            }
        }
        assert forall|id: EntityId| started.entities.contains_key(id) implies (
        #[trigger] started.entities[id] matches Entity::Player(player) ==> player.in_arena()) by {
            if id != player_id {
                assert(scenery[id] is Decoration);
            }
        }
        assert forall|id: EntityId| started.entities.contains_key(id) implies (
        #[trigger] started.entities[id] matches Entity::Enemy(enemy) ==> enemy.velocity.x
            != 0) by {
            if id != player_id {
                assert(scenery[id] is Decoration);
            }
        }
    }
}

} // verus!
