//! A small ECS-oriented 2D engine core: timers, colours, packed geometry
//! descriptors, input state machines and instance planning.

pub mod app;
pub mod clock;
pub mod components;
pub mod input;
pub mod misc;
pub mod render;
pub mod settings;
pub mod stage;
pub mod table;
