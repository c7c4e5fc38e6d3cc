//! Conversion of maps into exported models.
pub mod bsp;
pub mod bsp_log;
pub mod textures;
