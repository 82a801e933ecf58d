//! An in-memory roster: a registry of players, a registry of teams, and the
//! assignment of players to teams.
//!
//! A player record lives in a slot of the player registry and is reached
//! through a [`player::PlayerRef`], a small copyable handle. Every holder of a
//! handle reads the same record, so a change made through the registry is seen
//! by all of them. Deleting a player takes it out of the index and leaves its
//! record in place: the teams that have the player keep it, and their handles
//! read what they read before.
//!
//! Each operation is stated over a plain model of the registry it works on,
//! [`player::PlayerRegistryView`] or [`team::TeamRegistryView`], as a pair of
//! functions: what the operation returns, and the state that it leaves.

pub mod error;
pub mod player;
pub mod team;
pub mod text;
