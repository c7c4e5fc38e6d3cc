//! Geometry built for rendering, and which models a map draws.
pub mod debug;
pub mod map_models;
