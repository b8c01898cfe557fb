//! Game rules of an open-world pirate sandbox: biomes and chunk streaming,
//! creature archetypes and rivalries, environmental damage, treasure and loot.
//!
//! Quantities that the game tunes with decimal literals are held here as exact
//! integers in fixed units (hundredths for weights, affinities and odds,
//! tenths of a world unit for body extents, whole hit points), and every random
//! roll is a 24-bit fraction: a roll `r` stands for `r / 2^24` in `[0, 1)`.

pub mod dice;
pub mod world;
pub mod chunks;
pub mod creatures;
pub mod combat;
pub mod treasure;
pub mod player;
pub mod render;
pub mod weather;
