//! The simulation core of a small arcade game: a chicken crosses a road, back and forth,
//! while cars drive along three lanes.
//!
//! The crate holds the rules of the game and nothing of its presentation. A front end
//! feeds [`game::Game::tick`] with the keys held and the time elapsed, and draws what
//! the entity store holds afterwards.

pub mod enemy;
pub mod game;
pub mod in_game;
pub mod player;
pub mod store;
pub mod world;
