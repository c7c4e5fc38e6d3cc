//! Decoding any entry of a texture archive by its kind, as an archive
//! browser shows it: the images of the entry and, for a font, its metrics.
use vstd::prelude::*;
use crate::image_buf::{RgbaImage, image_bytes, image_size};
use crate::palette::{spec_rgba, spec_keyed_rgba};
use crate::wad3::{
    CharInfo, TextureType, WadArchive, WadFileInfo, FONT_WIDTH, spec_char_info, spec_colour_level,
    spec_entry_in_bounds, spec_file_data, spec_font_h, spec_font_ok, spec_font_palette, spec_font_pixels,
    spec_font_row_count, spec_font_row_height, spec_image_ok, spec_img_h, spec_img_palette, spec_img_pixels,
    spec_img_w, spec_mipmapped_ok, font_ok, image_ok, mipmapped_ok,
};

verus! {

/// The layout of a font's glyphs.
pub struct FontMetadata {
    pub row_count: u32,
    pub row_height: u32,
    pub char_infos: [CharInfo; 256],
}

/// What an entry holds besides its images: its kind and, for a font, its
/// metrics.
pub struct ExtraTextureData {
    pub texture_type: TextureType,
    pub font: Option<FontMetadata>,
}

impl ExtraTextureData {
    pub fn new(texture_type: TextureType) -> (res: ExtraTextureData)
        ensures
            res.texture_type == texture_type,
            res.font is None,
    {
        ExtraTextureData { texture_type, font: None }
    }
}

/// The entry lies within the archive and its data decodes as its kind says:
/// mipmapped textures and decals through their palette, plain images and
/// fonts likewise.
pub open spec fn spec_entry_decodable(b: Seq<u8>, info: WadFileInfo) -> bool {
    &&& spec_entry_in_bounds(b, info)
    &&& match info.spec_kind() {
        TextureType::Decal | TextureType::MipmappedImage => spec_mipmapped_ok(spec_file_data(b, info)),
        TextureType::Image => spec_image_ok(spec_file_data(b, info)),
        TextureType::Font => spec_font_ok(spec_file_data(b, info)),
    }
}

/// `images` and `extra` are the entry decoded: the four mip levels of a
/// texture or decal, the single image of a plain image, or the atlas of a
/// font with the font's metrics.
pub open spec fn spec_decoded_entry(images: Seq<RgbaImage>, extra: ExtraTextureData, b: Seq<u8>, info: WadFileInfo) -> bool {
    let d = spec_file_data(b, info);
    &&& extra.texture_type == info.spec_kind()
    &&& match info.spec_kind() {
        TextureType::Decal | TextureType::MipmappedImage => {
            &&& images.len() == 4
            &&& forall|k: int| 0 <= k < 4 ==> spec_colour_level(#[trigger] images[k], d, k)
            &&& extra.font is None
        },
        TextureType::Image => {
            &&& images.len() == 1
            &&& image_bytes(images[0]) == spec_rgba(spec_img_pixels(d), spec_img_palette(d))
            &&& image_size(images[0]) == (spec_img_w(d) as u32, spec_img_h(d) as u32)
            &&& extra.font is None
        },
        TextureType::Font => {
            &&& images.len() == 1
            &&& image_bytes(images[0]) == spec_keyed_rgba(spec_font_pixels(d), spec_font_palette(d), 255)
            &&& image_size(images[0]) == (FONT_WIDTH, spec_font_h(d) as u32)
            &&& extra.font matches Some(f) && f.row_count == spec_font_row_count(d) && f.row_height
                == spec_font_row_height(d) && forall|i: int|
                0 <= i < 256 ==> #[trigger] f.char_infos[i] == spec_char_info(d, i)
        },
    }
}

/// Decodes an entry by its kind; `None` when it does not lie within the
/// archive or its data does not decode (see [`spec_entry_decodable`]).
pub fn get_decoded_data(archive: &WadArchive, info: &WadFileInfo) -> (res: Option<(Vec<RgbaImage>, ExtraTextureData)>)
    ensures
        res is Some <==> spec_entry_decodable(archive.bytes(), *info),
        res matches Some((images, extra)) ==> spec_decoded_entry(images@, extra, archive.bytes(), *info),
{
    let data = match archive.file_data(info) {
        Some(d) => d,
        None => return None,
    };
    let kind = info.kind();
    let mut extra_data = ExtraTextureData::new(kind);
    match kind {
        TextureType::Decal | TextureType::MipmappedImage => {
            if !mipmapped_ok(data) {
                return None;
            }
            let image_data = archive.decode_mipmaped_image(info);
            let images = vec![image_data.image, image_data.mipmap1, image_data.mipmap2, image_data.mipmap3];
            Some((images, extra_data))
        },
        TextureType::Image => {
            if !image_ok(data) {
                return None;
            }
            let image_data = archive.decode_image(info);
            Some((vec![image_data.image], extra_data))
        },
        TextureType::Font => {
            if !font_ok(data) {
                return None;
            }
            let font_data = archive.decode_font(info);
            extra_data.font = Some(
                FontMetadata {
                    row_count: font_data.row_count,
                    row_height: font_data.row_height,
                    char_infos: font_data.font_info,
                },
            );
            Some((vec![font_data.image], extra_data))
        },
    }
}

} // verus!
