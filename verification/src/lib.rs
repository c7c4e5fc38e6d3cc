//! Readers for GoldSrc asset formats (BSP maps, WAD3 texture archives and
//! MDL models) and a glTF text/buffer writer, with their contracts.
use vstd::prelude::*;

pub mod bytes;

pub mod text;

pub mod bsp_records;
pub mod bsp;
pub mod entities;
pub mod image_buf;
pub mod palette;
pub mod wad3;
pub mod wad_entries;
pub mod gltf;
pub mod mdl;
pub mod logic;
pub mod rendering;
pub mod export;
