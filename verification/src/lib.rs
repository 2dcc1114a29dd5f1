//! A tile-grid adventure engine: a player moves through a 2D map of tiles,
//! collides with terrain, picks up items, and triggers stateful puzzle
//! interactions — craftable canoes, locked doors, a hook-and-chain bridge,
//! an elemental-crystal puzzle, and a multi-hit boss — while enemies take
//! random walks over the free cells.
//!
//! Every rule of the world-interaction model is stated as a contract and
//! proved: tile classification, collision resolution, the item-gated
//! interaction rule set, enemy motion, and level progression. Presentation
//! (drawing, input, pacing) is left to the caller, which reads the state
//! these modules expose.

pub mod game;
pub mod laws;
pub mod level;
pub mod maps;
pub mod player;
pub mod rng;
pub mod types;
