//! The simulation core of a small arcade shooter: a player ship fires
//! projectiles at descending enemy ships.
//!
//! Units are integers throughout: coordinates are in tenths of a pixel,
//! times in microseconds, angles in ten-thousandths of a radian. Frame sets
//! (the sprite sheets of each visual tier) are known here only by their
//! frame counts; the pixels stay with whoever draws.

pub mod timing;
pub mod projectile;
pub mod ship;
pub mod game;
pub mod lifecycle;

pub use projectile::Projectile;
pub use ship::{DestructionState, FrameTier, Ship, ShipFrames};
pub use game::Game;

pub use timing::{accumulate, shift};


