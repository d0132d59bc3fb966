//! Simulation core of a fixed-screen arcade shooter: a player-controlled
//! crossbow fires a single reusable bolt upward at a descending,
//! screen-bouncing formation of skeletons, with collision resolution,
//! scoring, wave respawns, and a pulsing game-over fade.
//!
//! The core is purely computational: it consumes a per-frame time delta
//! and the currently held keys, and maintains state that an external
//! renderer reads.  All quantities are fixed-point integers: coordinates
//! in micro-pixels (`geom::PX` units per pixel), durations in
//! microseconds, speeds in pixels per second, and the fade level in
//! `config::FADE_ONE` units.  Every update function carries a contract
//! relating the new state to a mathematical model of the old one, and
//! `laws` states the global frame-invariance properties.
#![verifier::loop_isolation(false)]

pub mod bolt;
pub mod config;
pub mod formation;
pub mod game;
pub mod geom;
pub mod laws;
pub mod player;
