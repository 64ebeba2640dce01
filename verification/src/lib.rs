//! Frame-data combat core for a side-view fighting game.
//!
//! A character is a catalogue of named actions. Each action is a run of
//! frames, and each frame carries the rectangles that can hit, be hit or
//! block. Every tick the host feeds the notifications of the last tick to the
//! state machine, resolves the rectangles of the frame on show, tests them
//! against each other and advances the animation clock:
//! intents, state, geometry, collision, clock.
//!
//! Coordinates are whole numbers of the host's smallest length unit and
//! times are whole nanoseconds, so every rule here is exact.

pub mod action;
pub mod character;
pub mod clock;
pub mod collision;
pub mod entity;
pub mod event;
pub mod geometry;
pub mod input;
pub mod resolve;
pub mod state;
pub mod world;
