//! The per-tick simulation core of a small 2D action game: a component
//! store over opaque entity identifiers, and the systems that translate
//! input intents, resolve movement against collision geometry, animate
//! sprites, drive autonomous walkers, collect pickups, track the player's
//! interaction probe, and run the dialogue / game-state machine.
pub mod animator;
pub mod collectibles;
pub mod collisions;
pub mod components;
pub mod dialoguebox;
pub mod geom;
pub mod keyboard;
pub mod physics;
pub mod randomwalker;
pub mod tick;
pub mod update_interaction;
pub mod world;
