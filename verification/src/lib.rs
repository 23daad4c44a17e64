//! Core of a tick-scheduled rhythm game: a song timeline built by prefix
//! summation, a rhythm engine that advances tick by tick and resolves the
//! note due now, a bounded distance-sampling state machine for player input,
//! a fixed-width track renderer, and the orchestrator state machine that
//! ties them together. Hardware access (pins, display, tone output, delays)
//! is left to the surrounding program; everything here is pure logic.

pub mod game;
pub mod render;
pub mod sampler;
pub mod songs;
pub mod orchestrator;
