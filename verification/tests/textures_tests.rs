use goldsrc_assets::bsp::{BspReader, BSP_HEADER_SIZE, LUMP_TEXTURES};
use goldsrc_assets::entities::BspEntity;
use goldsrc_assets::export::bsp::WadCollection;
use goldsrc_assets::export::textures::{read_textures, wad_paths};
use goldsrc_assets::wad3::WadArchive;

fn map_with_textures(lump: Vec<u8>) -> BspReader {
    let mut data = vec![0u8; BSP_HEADER_SIZE];
    data[0..4].copy_from_slice(&30i32.to_le_bytes());
    let at = 4 + 8 * LUMP_TEXTURES;
    data[at..at + 4].copy_from_slice(&(BSP_HEADER_SIZE as i32).to_le_bytes());
    data[at + 4..at + 8].copy_from_slice(&(lump.len() as i32).to_le_bytes());
    data.extend_from_slice(&lump);
    BspReader::try_read(data).unwrap()
}

/// An 8x8 mipmapped texture named `name`; with `local` false its header
/// says that the pixels live in an archive.
fn texture(name: &str, local: bool, colour: u8) -> Vec<u8> {
    let mut d = vec![0u8; 16];
    d[..name.len()].copy_from_slice(name.as_bytes());
    d.extend_from_slice(&8u32.to_le_bytes());
    d.extend_from_slice(&8u32.to_le_bytes());
    let offsets: [u32; 4] = if local { [40, 104, 120, 124] } else { [0, 0, 0, 0] };
    for off in offsets {
        d.extend_from_slice(&off.to_le_bytes());
    }
    if local {
        d.extend_from_slice(&[0u8; 85]);
        d.extend_from_slice(&1u16.to_le_bytes());
        d.extend_from_slice(&[colour, 0, 0]);
    }
    d
}

fn archive_with(name: &str, data: Vec<u8>) -> WadArchive {
    let mut out = b"WAD3".to_vec();
    out.extend_from_slice(&1u32.to_le_bytes());
    out.extend_from_slice(&((12 + data.len()) as u32).to_le_bytes());
    out.extend_from_slice(&data);
    out.extend_from_slice(&12u32.to_le_bytes());
    out.extend_from_slice(&(data.len() as u32).to_le_bytes());
    out.extend_from_slice(&(data.len() as u32).to_le_bytes());
    out.extend_from_slice(&[0x43, 0, 0, 0]);
    let mut n = [0u8; 16];
    n[..name.len()].copy_from_slice(name.as_bytes());
    out.extend_from_slice(&n);
    WadArchive::try_from_bytes(out).unwrap()
}

fn texture_lump(entries: &[Vec<u8>]) -> Vec<u8> {
    let mut lump = (entries.len() as u32).to_le_bytes().to_vec();
    let mut offset = 4 + 4 * entries.len();
    for e in entries {
        lump.extend_from_slice(&(offset as i32).to_le_bytes());
        offset += e.len();
    }
    for e in entries {
        lump.extend_from_slice(e);
    }
    lump
}

#[test]
fn textures_come_from_the_map_or_from_archives_by_upper_case_name() {
    let reader = map_with_textures(texture_lump(&[texture("local", true, 11), texture("brick", false, 0)]));
    let mut wads = WadCollection::new();
    wads.add(archive_with("BRICK", texture("BRICK", true, 22)));
    let textures = read_textures(&reader, &wads).unwrap();
    assert_eq!(textures.len(), 2);
    assert_eq!(textures[0].name, "local");
    assert_eq!(textures[0].image_data.image_width, 8);
    assert_eq!(&textures[0].image_data.image.as_raw()[0..4], &[11, 0, 0, 255]);
    // The name keeps its case; the lookup uses the upper case.
    assert_eq!(textures[1].name, "brick");
    assert_eq!(&textures[1].image_data.mipmap3.as_raw()[0..4], &[22, 0, 0, 255]);
}

#[test]
fn a_texture_that_no_archive_holds_fails_the_read() {
    let reader = map_with_textures(texture_lump(&[texture("brick", false, 0)]));
    let wads = WadCollection::new();
    assert!(read_textures(&reader, &wads).is_none());
    let empty = map_with_textures(texture_lump(&[]));
    assert_eq!(read_textures(&empty, &wads).unwrap().len(), 0);
    // An offset table longer than the lump.
    let broken = map_with_textures(vec![5, 0, 0, 0]);
    assert!(read_textures(&broken, &wads).is_none());
}

#[test]
fn wad_keys_name_archives_relative_to_the_game_root() {
    let entities = vec![
        BspEntity(vec![("classname", "worldspawn"), ("wad", "\\quiver\\valve\\halflife.wad;\\quiver\\valve\\decals.wad")]),
        BspEntity(vec![("classname", "light")]),
        BspEntity(vec![("wad", "\\quiver\\extra.wad")]),
    ];
    assert_eq!(
        wad_paths(&entities).unwrap(),
        vec!["valve\\halflife.wad", "valve\\decals.wad", "extra.wad"]
    );
    let bad = vec![BspEntity(vec![("wad", "\\quiver\\a.wad;")])];
    assert!(wad_paths(&bad).is_none());
    let other = vec![BspEntity(vec![("wad", "c:\\a.wad")])];
    assert!(wad_paths(&other).is_none());
    assert!(wad_paths(&Vec::new()).unwrap().is_empty());
}
