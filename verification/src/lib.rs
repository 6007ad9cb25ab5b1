//! Game rules, entity bookkeeping and wire framing of a small multiplayer
//! space shooter, with their contracts proved by Verus.
//!
//! The windowing, rendering, audio, physics and socket code lives in the
//! program around this library; it hands the library plain values and acts
//! on what comes back.
pub mod generational_index;
pub mod wire;
pub mod components;
pub mod combat;
pub mod roster;
pub mod random;
pub mod controls;
pub mod client_state;
pub mod hud;
pub mod world;
