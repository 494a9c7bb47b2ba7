//! A deterministic core for procedural vector animation.
//!
//! A scene is a timeline of motions over a tree of drawable objects. Asking
//! a scene what the world looks like at a time `t` starts from an empty world
//! and replays the whole timeline, so the answer depends on `t` alone.
//!
//! All quantities are integers: time is counted in ticks, progress is an exact
//! fraction, and coordinates are fixed-point numbers.

pub mod alpha;

pub mod trig;
pub mod geometry;
pub mod object;
pub mod fault;
pub mod object_tree;
pub mod world;
pub mod spacing;
pub mod dynamics;
pub mod easing;
pub mod properties;
pub mod timing;
pub mod motion;
pub mod scene;
pub mod building;
pub mod laws;
pub mod utils;
