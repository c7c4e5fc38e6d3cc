use goldsrc_assets::wad3::{
    decal_ok, font_ok, image_ok, mip_levels_ok, mipmapped_ok, CharInfo, TextureType, WadArchive,
    FONT_HEADER_SIZE,
};

/// An archive holding the given entries (name, kind byte, data), data first,
/// directory last.
fn archive(entries: &[(&str, u8, Vec<u8>)]) -> Vec<u8> {
    let mut out = b"WAD3".to_vec();
    out.extend_from_slice(&(entries.len() as u32).to_le_bytes());
    out.extend_from_slice(&[0, 0, 0, 0]);
    let mut positions = Vec::new();
    for (_, _, data) in entries {
        positions.push(out.len() as u32);
        out.extend_from_slice(data);
    }
    let dir_offset = out.len() as u32;
    out[8..12].copy_from_slice(&dir_offset.to_le_bytes());
    for ((name, kind, data), pos) in entries.iter().zip(positions) {
        out.extend_from_slice(&pos.to_le_bytes());
        out.extend_from_slice(&(data.len() as u32).to_le_bytes());
        out.extend_from_slice(&(data.len() as u32).to_le_bytes());
        out.push(*kind);
        out.push(0);
        out.extend_from_slice(&[0, 0]);
        let mut n = [0u8; 16];
        n[..name.len()].copy_from_slice(name.as_bytes());
        out.extend_from_slice(&n);
    }
    out
}

/// An 8x8 mipmapped texture whose pixels alternate between the two colours
/// of its palette; the second colour is the transparent key colour.
fn mip_texture(num_colors: u16) -> Vec<u8> {
    let mut d = vec![0u8; 16];
    d.extend_from_slice(&8u32.to_le_bytes());
    d.extend_from_slice(&8u32.to_le_bytes());
    for off in [40u32, 104, 120, 124] {
        d.extend_from_slice(&off.to_le_bytes());
    }
    for len in [64usize, 16, 4, 1] {
        for i in 0..len {
            d.push((i % 2) as u8);
        }
    }
    d.extend_from_slice(&num_colors.to_le_bytes());
    let palette = [10u8, 20, 30, 0, 0, 255];
    for i in 0..(3 * num_colors as usize) {
        d.push(if i < 6 { palette[i] } else { 7 });
    }
    d
}

/// A 2x1 plain image with a one-colour palette.
fn plain_image() -> Vec<u8> {
    let mut d = Vec::new();
    d.extend_from_slice(&2u32.to_le_bytes());
    d.extend_from_slice(&1u32.to_le_bytes());
    d.extend_from_slice(&[0, 0]);
    d.extend_from_slice(&1u16.to_le_bytes());
    d.extend_from_slice(&[1, 2, 3]);
    d
}

/// A font two rows high, whose glyph `i` starts at offset `i * 3`.
fn font() -> Vec<u8> {
    let mut d = Vec::new();
    d.extend_from_slice(&256u32.to_le_bytes());
    d.extend_from_slice(&2u32.to_le_bytes());
    d.extend_from_slice(&1u32.to_le_bytes());
    d.extend_from_slice(&1u32.to_le_bytes());
    for i in 0..256u32 {
        d.extend_from_slice(&((i * 3) as u16).to_le_bytes());
        d.extend_from_slice(&5u16.to_le_bytes());
    }
    assert_eq!(d.len(), FONT_HEADER_SIZE);
    for i in 0..512usize {
        d.push(if i == 0 { 255 } else { 0 });
    }
    d.extend_from_slice(&256u16.to_le_bytes());
    for _ in 0..256 {
        d.extend_from_slice(&[1, 2, 3]);
    }
    d
}

#[test]
fn archive_directory_is_read_in_order() {
    let bytes = archive(&[("FIRST", 0x43, mip_texture(2)), ("second", 0x42, plain_image())]);
    let wad = WadArchive::try_from_bytes(bytes).unwrap();
    let files = wad.entries();
    assert_eq!(files.len(), 2);
    assert_eq!(files[0].name, "FIRST");
    assert!(files[0].texture_type == TextureType::MipmappedImage);
    assert!(files[1].is_named("second"));
    assert!(!files[1].is_named("SECOND"));
    assert!(files[1].texture_type == TextureType::Image);
    assert!(wad.entry_in_bounds(&files[1]));
    assert_eq!(wad.file_data(&files[1]).unwrap(), plain_image().as_slice());
}

#[test]
fn archives_with_bad_headers_are_refused() {
    assert!(WadArchive::try_from_bytes(b"WAD2\0\0\0\0\x0c\0\0\0".to_vec()).is_none());
    assert!(WadArchive::try_from_bytes(b"WAD3".to_vec()).is_none());
    let mut bad_kind = archive(&[("x", 0x43, mip_texture(2))]);
    let at = bad_kind.len() - 32 + 12;
    bad_kind[at] = 0x41;
    assert!(WadArchive::try_from_bytes(bad_kind).is_none());
    let mut bad_bool = archive(&[("x", 0x43, mip_texture(2))]);
    let at = bad_bool.len() - 32 + 13;
    bad_bool[at] = 2;
    assert!(WadArchive::try_from_bytes(bad_bool).is_none());
    // A directory that runs past the end.
    let mut short = archive(&[("x", 0x43, mip_texture(2))]);
    short[4] = 2;
    assert!(WadArchive::try_from_bytes(short).is_none());
    assert!(WadArchive::try_from_bytes(archive(&[])).unwrap().entries().is_empty());
}

#[test]
fn texture_kinds_have_their_directory_bytes() {
    assert_eq!(TextureType::Decal.value(), 0x40);
    assert_eq!(TextureType::Image.value(), 0x42);
    assert_eq!(TextureType::MipmappedImage.value(), 0x43);
    assert_eq!(TextureType::Font.value(), 0x46);
}

#[test]
fn mipmapped_texture_decodes_through_its_palette() {
    let wad = WadArchive::try_from_bytes(archive(&[("t", 0x43, mip_texture(2))])).unwrap();
    let info = &wad.entries()[0];
    assert!(mipmapped_ok(wad.file_data(info).unwrap()));
    let tex = wad.decode_mipmaped_image(info);
    assert_eq!((tex.image_width, tex.image_height), (8, 8));
    assert_eq!((tex.image.width(), tex.image.height()), (8, 8));
    assert_eq!((tex.mipmap1.width(), tex.mipmap2.width(), tex.mipmap3.width()), (4, 2, 1));
    let raw = tex.image.as_raw();
    assert_eq!(raw.len(), 256);
    assert_eq!(&raw[0..8], &[10, 20, 30, 255, 0, 0, 0, 0]);
    assert_eq!(tex.mipmap3.as_raw(), &vec![10, 20, 30, 255]);
}

#[test]
fn textures_whose_pixels_leave_the_palette_are_not_decodable() {
    let one_colour = mip_texture(1);
    assert!(mip_levels_ok(&one_colour));
    assert!(!mipmapped_ok(&one_colour));
    assert!(!mip_levels_ok(&one_colour[..30]));
    let mut truncated = mip_texture(2);
    truncated.pop();
    assert!(mip_levels_ok(&truncated));
    assert!(!mipmapped_ok(&truncated));
}

#[test]
fn decals_decode_to_grey() {
    let wad = WadArchive::try_from_bytes(archive(&[("d", 0x40, mip_texture(256))])).unwrap();
    let info = &wad.entries()[0];
    let d = wad.file_data(info).unwrap();
    assert!(decal_ok(d));
    assert!(!decal_ok(&mip_texture(2)));
    let tex = wad.decode_decal(info);
    assert_eq!(&tex.image.as_raw()[0..8], &[0, 0, 0, 255, 1, 1, 1, 255]);
    assert_eq!(tex.mipmap3.as_raw(), &vec![0, 0, 0, 255]);
}

#[test]
fn plain_images_decode() {
    let wad = WadArchive::try_from_bytes(archive(&[("i", 0x42, plain_image())])).unwrap();
    let info = &wad.entries()[0];
    assert!(image_ok(wad.file_data(info).unwrap()));
    let img = wad.decode_image(info);
    assert_eq!((img.image_width, img.image_height), (2, 1));
    assert_eq!(img.image.as_raw(), &vec![1, 2, 3, 255, 1, 2, 3, 255]);
    let mut bad = plain_image();
    bad[8] = 1;
    assert!(!image_ok(&bad));
    assert!(!image_ok(&plain_image()[..9]));
}

#[test]
fn fonts_decode_glyph_table_and_atlas() {
    let wad = WadArchive::try_from_bytes(archive(&[("f", 0x46, font())])).unwrap();
    let info = &wad.entries()[0];
    assert!(font_ok(wad.file_data(info).unwrap()));
    let f = wad.decode_font(info);
    assert_eq!((f.image_width, f.image_height, f.row_count, f.row_height), (256, 2, 1, 1));
    assert!(f.font_info[0] == CharInfo { x: 0, y: 0, width: 5, height: 1 });
    // Glyph 100 starts at offset 300: row 1, column 44.
    assert!(f.font_info[100] == CharInfo { x: 44, y: 1, width: 5, height: 1 });
    let raw = f.image.as_raw();
    assert_eq!(raw.len(), 4 * 512);
    // Index 255 is transparent; the others swap red and blue.
    assert_eq!(&raw[0..8], &[0, 0, 0, 0, 3, 2, 1, 255]);
    assert!(CharInfo::default() == CharInfo { x: 0, y: 0, width: 0, height: 0 });
}

#[test]
fn fonts_with_zero_row_height_are_refused() {
    let mut d = font();
    d[12] = 0;
    assert!(!font_ok(&d));
    assert!(!font_ok(&font()[..FONT_HEADER_SIZE]));
}

use goldsrc_assets::wad_entries::{get_decoded_data, ExtraTextureData};

#[test]
fn entries_decode_by_their_kind() {
    let wad = WadArchive::try_from_bytes(archive(&[
        ("t", 0x43, mip_texture(2)),
        ("i", 0x42, plain_image()),
        ("f", 0x46, font()),
        ("bad", 0x43, mip_texture(1)),
    ]))
    .unwrap();
    let files = wad.entries();
    let (images, extra) = get_decoded_data(&wad, &files[0]).unwrap();
    assert_eq!(images.len(), 4);
    assert!(extra.texture_type == TextureType::MipmappedImage && extra.font.is_none());
    assert_eq!(images[3].as_raw(), &vec![10, 20, 30, 255]);
    let (images, extra) = get_decoded_data(&wad, &files[1]).unwrap();
    assert_eq!(images.len(), 1);
    assert!(extra.font.is_none());
    let (images, extra) = get_decoded_data(&wad, &files[2]).unwrap();
    assert_eq!(images[0].width(), 256);
    let font = extra.font.unwrap();
    assert_eq!((font.row_count, font.row_height), (1, 1));
    assert!(font.char_infos[1] == CharInfo { x: 3, y: 0, width: 5, height: 1 });
    assert!(get_decoded_data(&wad, &files[3]).is_none());
    let fresh = ExtraTextureData::new(TextureType::Font);
    assert!(fresh.texture_type == TextureType::Font && fresh.font.is_none());
}

#[test]
fn archive_checks_agree_with_the_reader() {
    let good = archive(&[("t", 0x43, mip_texture(2))]);
    assert!(goldsrc_assets::wad3::is_wad(&good));
    let mut bad_magic = good.clone();
    bad_magic[3] = b'2';
    assert!(!goldsrc_assets::wad3::is_wad(&bad_magic));
    let mut bad_kind = good.clone();
    let at = bad_kind.len() - 32 + 12;
    bad_kind[at] = 0x41;
    assert!(!goldsrc_assets::wad3::is_wad(&bad_kind));
    assert_eq!(WadArchive::from_bytes(good).entries().len(), 1);
}
