//! Game logic read from map data.
pub mod entity;
