//! A multiplayer room coordinator with a fixed-step physics simulation.
//!
//! Clients join a named room over a persistent connection; each room runs a
//! small side-scrolling game (player-controlled birds dodging moving walls).
//! The library holds the verified core: the session/room registry and its
//! text-command interpreter, the per-connection lifecycle state machine, the
//! simulation step, and the collision geometry. All coordinates are
//! fixed-point integers (millionths of a unit), so the numeric behaviour is
//! stated and proved exactly.

pub mod bird;
pub mod collision;
pub mod entropy;
pub mod fixed;
pub mod game;
pub mod laws;
pub mod lobby;
pub mod messages;
pub mod objects;
pub mod player;
pub mod socket;
pub mod text;
pub mod wall;

pub use bird::Bird;
pub use player::Player;
pub use wall::Wall;
