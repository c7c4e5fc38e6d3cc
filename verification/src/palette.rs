//! Turning palette-indexed pixels into RGBA images.
use vstd::prelude::*;
use crate::image_buf::{RgbaImage, image_bytes, image_size, rgba_image_from_vec};

verus! {

/// The colour (0, 0, 255) marks transparent pixels in GoldSrc palettes.
pub open spec fn spec_is_key_colour(r: u8, g: u8, b: u8) -> bool {
    r == 0 && g == 0 && b == 255
}

/// Channel `ch` (0 red, 1 green, 2 blue, 3 alpha) of the RGBA pixel for
/// palette index `idx`: the palette colour, opaque, or all zero for the key
/// colour.
pub open spec fn spec_rgba_channel(idx: u8, palette: Seq<u8>, ch: int) -> u8 {
    let c = 3 * idx as int;
    let r = palette[c];
    let g = palette[c + 1];
    let b = palette[c + 2];
    if spec_is_key_colour(r, g, b) {
        0
    } else if ch == 0 {
        r
    } else if ch == 1 {
        g
    } else if ch == 2 {
        b
    } else {
        255
    }
}

/// Channel `ch` of the pixel for palette index `idx` in a font image: the
/// palette colour with red and blue swapped, opaque, or all zero for the key
/// colour and for index `alpha_key`.
pub open spec fn spec_keyed_channel(idx: u8, palette: Seq<u8>, alpha_key: u8, ch: int) -> u8 {
    let c = 3 * idx as int;
    let r = palette[c];
    let g = palette[c + 1];
    let b = palette[c + 2];
    if spec_is_key_colour(r, g, b) || idx == alpha_key {
        0
    } else if ch == 0 {
        b
    } else if ch == 1 {
        g
    } else if ch == 2 {
        r
    } else {
        255
    }
}

/// Channel `ch` of the opaque grey pixel of brightness `v`.
pub open spec fn spec_grey_channel(v: u8, ch: int) -> u8 {
    if ch == 3 {
        255
    } else {
        v
    }
}

/// The RGBA bytes of the palette-indexed pixels `indices`.
pub open spec fn spec_rgba(indices: Seq<u8>, palette: Seq<u8>) -> Seq<u8> {
    Seq::new(4 * indices.len(), |k: int| spec_rgba_channel(indices[k / 4], palette, k % 4))
}

/// The RGBA bytes of the font pixels `indices`.
pub open spec fn spec_keyed_rgba(indices: Seq<u8>, palette: Seq<u8>, alpha_key: u8) -> Seq<u8> {
    Seq::new(4 * indices.len(), |k: int| spec_keyed_channel(indices[k / 4], palette, alpha_key, k % 4))
}

/// The RGBA bytes of the grey pixels `values`.
pub open spec fn spec_grey_rgba(values: Seq<u8>) -> Seq<u8> {
    Seq::new(4 * values.len(), |k: int| spec_grey_channel(values[k / 4], k % 4))
}

/// Every index of `indices` names a colour that `palette` holds.
pub open spec fn spec_palette_covers(indices: Seq<u8>, palette: Seq<u8>) -> bool {
    forall|i: int| 0 <= i < indices.len() ==> 3 * (#[trigger] indices[i]) as int + 3 <= palette.len()
}

proof fn lemma_div_mod_4(i: int, j: int)
    requires
        0 <= i,
        0 <= j < 4,
    ensures
        (4 * i + j) / 4 == i,
        (4 * i + j) % 4 == j,
{
}

/// Pixel `j` of a palette image is the four bytes from `4 j`: the red,
/// green and blue bytes of palette colour `indices[j]` (the three bytes from
/// `3 indices[j]`) and 255, or four zeros when that colour is (0, 0, 255).
pub open spec fn spec_palette_pixel_at(out: Seq<u8>, j: int, idx: u8, palette: Seq<u8>) -> bool {
    let c = 3 * idx as int;
    let key = palette[c] == 0 && palette[c + 1] == 0 && palette[c + 2] == 255;
    &&& out[4 * j] == (if key { 0u8 } else { palette[c] })
    &&& out[4 * j + 1] == (if key { 0u8 } else { palette[c + 1] })
    &&& out[4 * j + 2] == (if key { 0u8 } else { palette[c + 2] })
    &&& out[4 * j + 3] == (if key { 0u8 } else { 255u8 })
}

/// Pixel `j` of a font image is the four bytes from `4 j`: palette colour
/// `idx` with red and blue swapped, then 255; or four zeros when that
/// colour is (0, 0, 255) or `idx` is `alpha_key`.
pub open spec fn spec_font_pixel_at(out: Seq<u8>, j: int, idx: u8, palette: Seq<u8>, alpha_key: u8) -> bool {
    let c = 3 * idx as int;
    let clear = (palette[c] == 0 && palette[c + 1] == 0 && palette[c + 2] == 255) || idx == alpha_key;
    &&& out[4 * j] == (if clear { 0u8 } else { palette[c + 2] })
    &&& out[4 * j + 1] == (if clear { 0u8 } else { palette[c + 1] })
    &&& out[4 * j + 2] == (if clear { 0u8 } else { palette[c] })
    &&& out[4 * j + 3] == (if clear { 0u8 } else { 255u8 })
}

/// Pixel `j` of a grey image is `v` three times, then 255.
pub open spec fn spec_grey_pixel_at(out: Seq<u8>, j: int, v: u8) -> bool {
    &&& out[4 * j] == v
    &&& out[4 * j + 1] == v
    &&& out[4 * j + 2] == v
    &&& out[4 * j + 3] == 255u8
}

proof fn lemma_rgba_pixel(indices: Seq<u8>, palette: Seq<u8>, j: int)
    requires
        0 <= j < indices.len(),
    ensures
        spec_palette_pixel_at(spec_rgba(indices, palette), j, indices[j], palette),
{
    let out = spec_rgba(indices, palette);
    lemma_div_mod_4(j, 0);
    lemma_div_mod_4(j, 1);
    lemma_div_mod_4(j, 2);
    lemma_div_mod_4(j, 3);
    assert(out[4 * j] == spec_rgba_channel(indices[j], palette, 0));
    assert(out[4 * j + 1] == spec_rgba_channel(indices[j], palette, 1));
    assert(out[4 * j + 2] == spec_rgba_channel(indices[j], palette, 2));
    assert(out[4 * j + 3] == spec_rgba_channel(indices[j], palette, 3));
}

proof fn lemma_keyed_pixel(indices: Seq<u8>, palette: Seq<u8>, alpha_key: u8, j: int)
    requires
        0 <= j < indices.len(),
    ensures
        spec_font_pixel_at(spec_keyed_rgba(indices, palette, alpha_key), j, indices[j], palette, alpha_key),
{
    let out = spec_keyed_rgba(indices, palette, alpha_key);
    lemma_div_mod_4(j, 0);
    lemma_div_mod_4(j, 1);
    lemma_div_mod_4(j, 2);
    lemma_div_mod_4(j, 3);
    assert(out[4 * j] == spec_keyed_channel(indices[j], palette, alpha_key, 0));
    assert(out[4 * j + 1] == spec_keyed_channel(indices[j], palette, alpha_key, 1));
    assert(out[4 * j + 2] == spec_keyed_channel(indices[j], palette, alpha_key, 2));
    assert(out[4 * j + 3] == spec_keyed_channel(indices[j], palette, alpha_key, 3));
}

proof fn lemma_grey_pixel(values: Seq<u8>, j: int)
    requires
        0 <= j < values.len(),
    ensures
        spec_grey_pixel_at(spec_grey_rgba(values), j, values[j]),
{
    let out = spec_grey_rgba(values);
    lemma_div_mod_4(j, 0);
    lemma_div_mod_4(j, 1);
    lemma_div_mod_4(j, 2);
    lemma_div_mod_4(j, 3);
    assert(out[4 * j] == spec_grey_channel(values[j], 0));
    assert(out[4 * j + 1] == spec_grey_channel(values[j], 1));
    assert(out[4 * j + 2] == spec_grey_channel(values[j], 2));
    assert(out[4 * j + 3] == spec_grey_channel(values[j], 3));
}

/// A palette image has four bytes per pixel, and pixel `j` is the colour of
/// `indices[j]` as [`spec_palette_pixel_at`] lays it out.
pub proof fn lemma_rgba_pixels(indices: Seq<u8>, palette: Seq<u8>)
    ensures
        spec_rgba(indices, palette).len() == 4 * indices.len(),
        forall|j: int|
            0 <= j < indices.len() ==> #[trigger] spec_palette_pixel_at(spec_rgba(indices, palette), j, indices[j], palette),
{
    assert forall|j: int| 0 <= j < indices.len() implies #[trigger] spec_palette_pixel_at(
        spec_rgba(indices, palette),
        j,
        indices[j],
        palette,
    ) by {
        lemma_rgba_pixel(indices, palette, j);
    }
}

/// A font image has four bytes per pixel, and pixel `j` is the colour of
/// `indices[j]` as [`spec_font_pixel_at`] lays it out.
pub proof fn lemma_keyed_pixels(indices: Seq<u8>, palette: Seq<u8>, alpha_key: u8)
    ensures
        spec_keyed_rgba(indices, palette, alpha_key).len() == 4 * indices.len(),
        forall|j: int|
            0 <= j < indices.len() ==> #[trigger] spec_font_pixel_at(
                spec_keyed_rgba(indices, palette, alpha_key),
                j,
                indices[j],
                palette,
                alpha_key,
            ),
{
    assert forall|j: int| 0 <= j < indices.len() implies #[trigger] spec_font_pixel_at(
        spec_keyed_rgba(indices, palette, alpha_key),
        j,
        indices[j],
        palette,
        alpha_key,
    ) by {
        lemma_keyed_pixel(indices, palette, alpha_key, j);
    }
}

/// A grey image has four bytes per pixel, and pixel `j` is `values[j]` three
/// times, then 255.
pub proof fn lemma_grey_pixels(values: Seq<u8>)
    ensures
        spec_grey_rgba(values).len() == 4 * values.len(),
        forall|j: int| 0 <= j < values.len() ==> #[trigger] spec_grey_pixel_at(spec_grey_rgba(values), j, values[j]),
{
    assert forall|j: int| 0 <= j < values.len() implies #[trigger] spec_grey_pixel_at(spec_grey_rgba(values), j, values[j]) by {
        lemma_grey_pixel(values, j);
    }
}

proof fn lemma_rgba_len_fits(w: int, h: int, n: int)
    requires
        w * h <= n,
    ensures
        4 * w * h <= 4 * n,
{
    assert(4 * w * h == 4 * (w * h)) by (nonlinear_arith);
}

/// Builds the RGBA image of palette-indexed pixels: the key colour
/// (0, 0, 255) becomes fully transparent black, every other colour opaque.
pub fn create_image(image_data: &[u8], palette_data: &[u8], texture_width: u32, texture_height: u32) -> (res: RgbaImage)
    requires
        spec_palette_covers(image_data@, palette_data@),
        texture_width * texture_height <= image_data@.len(),
        4 * image_data@.len() <= usize::MAX,
    ensures
        image_bytes(res) == spec_rgba(image_data@, palette_data@),
        image_size(res) == (texture_width, texture_height),
{
    let n = image_data.len();
    let mut out: Vec<u8> = Vec::new();
    let mut i: usize = 0;
    while i < n
        invariant
            n == image_data@.len(),
            4 * n <= usize::MAX,
            spec_palette_covers(image_data@, palette_data@),
            0 <= i <= n,
            out@.len() == 4 * i,
            forall|k: int| 0 <= k < 4 * i ==> out@[k] == spec_rgba_channel(image_data@[k / 4], palette_data@, k % 4),
        decreases n - i,
    {
        let palette_index = image_data[i];
        assert(3 * palette_index as int + 3 <= palette_data@.len());
        let index = (palette_index as usize) * 3;
        let r_color = palette_data[index + 0];
        let g_color = palette_data[index + 1];
        let b_color = palette_data[index + 2];
        let ghost before = out@;
        if r_color == 0 && g_color == 0 && b_color == 255 {
            out.push(0);
            out.push(0);
            out.push(0);
            out.push(0);
        } else {
            out.push(r_color);
            out.push(g_color);
            out.push(b_color);
            out.push(255);
        }
        proof {
            assert forall|k: int| 0 <= k < 4 * (i + 1) implies out@[k] == spec_rgba_channel(image_data@[k / 4], palette_data@, k % 4) by {
                if k >= 4 * i {
                    lemma_div_mod_4(i as int, k - 4 * i);
                } else {
                    assert(out@[k] == before[k]);
                }
            }
        }
        i += 1;
    }
    proof {
        assert(out@ =~= spec_rgba(image_data@, palette_data@));
    }
    proof {
        lemma_rgba_len_fits(texture_width as int, texture_height as int, n as int);
    }
    rgba_image_from_vec(texture_width, texture_height, out)
}

/// Builds the RGBA image of a font's palette-indexed pixels: the key colour
/// and the index `alpha_key` become fully transparent black, every other
/// colour opaque with its red and blue channels swapped.
pub fn create_image_with_alpha_key(
    image_data: &[u8],
    palette_data: &[u8],
    texture_width: u32,
    texture_height: u32,
    alpha_key: u8,
) -> (res: RgbaImage)
    requires
        spec_palette_covers(image_data@, palette_data@),
        texture_width * texture_height <= image_data@.len(),
        4 * image_data@.len() <= usize::MAX,
    ensures
        image_bytes(res) == spec_keyed_rgba(image_data@, palette_data@, alpha_key),
        image_size(res) == (texture_width, texture_height),
{
    let n = image_data.len();
    let mut out: Vec<u8> = Vec::new();
    let mut i: usize = 0;
    while i < n
        invariant
            n == image_data@.len(),
            4 * n <= usize::MAX,
            spec_palette_covers(image_data@, palette_data@),
            0 <= i <= n,
            out@.len() == 4 * i,
            forall|k: int|
                0 <= k < 4 * i ==> out@[k] == spec_keyed_channel(image_data@[k / 4], palette_data@, alpha_key, k % 4),
        decreases n - i,
    {
        let palette_index = image_data[i];
        assert(3 * palette_index as int + 3 <= palette_data@.len());
        let index = (palette_index as usize) * 3;
        let r_color = palette_data[index + 0];
        let g_color = palette_data[index + 1];
        let b_color = palette_data[index + 2];
        let ghost before = out@;
        if (r_color == 0 && g_color == 0 && b_color == 255) || palette_index == alpha_key {
            out.push(0);
            out.push(0);
            out.push(0);
            out.push(0);
        } else {
            out.push(b_color);
            out.push(g_color);
            out.push(r_color);
            out.push(255);
        }
        proof {
            assert forall|k: int| 0 <= k < 4 * (i + 1) implies out@[k] == spec_keyed_channel(
                image_data@[k / 4],
                palette_data@,
                alpha_key,
                k % 4,
            ) by {
                if k >= 4 * i {
                    lemma_div_mod_4(i as int, k - 4 * i);
                } else {
                    assert(out@[k] == before[k]);
                }
            }
        }
        i += 1;
    }
    proof {
        assert(out@ =~= spec_keyed_rgba(image_data@, palette_data@, alpha_key));
        lemma_rgba_len_fits(texture_width as int, texture_height as int, n as int);
    }
    rgba_image_from_vec(texture_width, texture_height, out)
}

/// Builds the opaque grey RGBA image of brightness values.
pub fn create_image_greyscale(image_data: &[u8], texture_width: u32, texture_height: u32) -> (res: RgbaImage)
    requires
        texture_width * texture_height <= image_data@.len(),
        4 * image_data@.len() <= usize::MAX,
    ensures
        image_bytes(res) == spec_grey_rgba(image_data@),
        image_size(res) == (texture_width, texture_height),
{
    let n = image_data.len();
    let mut out: Vec<u8> = Vec::new();
    let mut i: usize = 0;
    while i < n
        invariant
            n == image_data@.len(),
            4 * n <= usize::MAX,
            0 <= i <= n,
            out@.len() == 4 * i,
            forall|k: int| 0 <= k < 4 * i ==> out@[k] == spec_grey_channel(image_data@[k / 4], k % 4),
        decreases n - i,
    {
        let value = image_data[i];
        let ghost before = out@;
        out.push(value);
        out.push(value);
        out.push(value);
        out.push(255);
        proof {
            assert forall|k: int| 0 <= k < 4 * (i + 1) implies out@[k] == spec_grey_channel(image_data@[k / 4], k % 4) by {
                if k >= 4 * i {
                    lemma_div_mod_4(i as int, k - 4 * i);
                } else {
                    assert(out@[k] == before[k]);
                }
            }
        }
        i += 1;
    }
    proof {
        assert(out@ =~= spec_grey_rgba(image_data@));
        lemma_rgba_len_fits(texture_width as int, texture_height as int, n as int);
    }
    rgba_image_from_vec(texture_width, texture_height, out)
}

} // verus!
