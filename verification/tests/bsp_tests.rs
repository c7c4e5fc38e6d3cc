use goldsrc_assets::bsp::{
    BspContents, BspReader, BSP_HEADER_SIZE, LUMP_EDGES, LUMP_ENTITIES, LUMP_LEAVES, LUMP_NODES,
    LUMP_VERTICES,
};
use goldsrc_assets::bytes::F32Bits;
use goldsrc_assets::entities::{bytes_eq, BspEntity};

/// A version-30 map file whose lumps hold the given bytes, laid out one after
/// another behind the header.
fn map_file(lumps: &[(usize, Vec<u8>)]) -> Vec<u8> {
    let mut header = vec![0u8; BSP_HEADER_SIZE];
    header[0..4].copy_from_slice(&30i32.to_le_bytes());
    let mut body = Vec::new();
    for (index, bytes) in lumps {
        let offset = (BSP_HEADER_SIZE + body.len()) as i32;
        let at = 4 + 8 * index;
        header[at..at + 4].copy_from_slice(&offset.to_le_bytes());
        header[at + 4..at + 8].copy_from_slice(&(bytes.len() as i32).to_le_bytes());
        body.extend_from_slice(bytes);
    }
    header.extend_from_slice(&body);
    header
}

#[test]
fn reader_accepts_version_30_only() {
    assert!(BspReader::try_read(map_file(&[])).is_some());
    let mut wrong = map_file(&[]);
    wrong[0] = 29;
    assert!(BspReader::try_read(wrong).is_none());
    assert!(BspReader::try_read(vec![30, 0, 0, 0]).is_none());
}

#[test]
fn lump_bounds_are_checked() {
    let mut data = map_file(&[(LUMP_EDGES, vec![1, 0, 2, 0])]);
    let reader = BspReader::try_read(data.clone()).unwrap();
    assert!(reader.lump_in_bounds(LUMP_EDGES));
    assert_eq!(reader.read_lump_raw(LUMP_EDGES), &[1, 0, 2, 0]);
    // A length that runs past the end of the file.
    let at = 4 + 8 * LUMP_EDGES + 4;
    data[at..at + 4].copy_from_slice(&100i32.to_le_bytes());
    let reader = BspReader::try_read(data).unwrap();
    assert!(!reader.lump_in_bounds(LUMP_EDGES));
}

#[test]
fn records_are_decoded_in_order_and_partial_records_dropped() {
    let mut vertices = Vec::new();
    for v in [1.0f32, 2.0, 3.0, -4.5, 0.0, 8.25] {
        vertices.extend_from_slice(&v.to_le_bytes());
    }
    vertices.push(0xaa);
    let edges = vec![3, 0, 4, 0, 0xff, 0xff, 0, 1];
    let reader = BspReader::try_read(map_file(&[(LUMP_VERTICES, vertices), (LUMP_EDGES, edges)])).unwrap();
    let vs = reader.read_vertices();
    assert_eq!(vs.len(), 2);
    assert_eq!(vs[0].to_array(), [F32Bits(1.0f32.to_bits()), F32Bits(2.0f32.to_bits()), F32Bits(3.0f32.to_bits())]);
    assert_eq!(f32::from_bits(vs[1].y.0), 0.0);
    assert_eq!(f32::from_bits(vs[1].z.0), 8.25);
    let es = reader.read_edges();
    assert_eq!(es.len(), 2);
    assert_eq!(es[0].vertices, [3, 4]);
    assert_eq!(es[1].vertices, [0xffff, 0x100]);
}

#[test]
fn nodes_and_leaves_decode_their_fields() {
    let mut node = Vec::new();
    node.extend_from_slice(&7u32.to_le_bytes());
    for v in [1i16, -2, -10, -20, -30, 10, 20, 30] {
        node.extend_from_slice(&v.to_le_bytes());
    }
    node.extend_from_slice(&5u16.to_le_bytes());
    node.extend_from_slice(&6u16.to_le_bytes());
    let mut leaf = Vec::new();
    leaf.extend_from_slice(&(-3i32).to_le_bytes());
    leaf.extend_from_slice(&(-1i32).to_le_bytes());
    for v in [0i16, 0, 0, 1, 1, 1] {
        leaf.extend_from_slice(&v.to_le_bytes());
    }
    leaf.extend_from_slice(&2u16.to_le_bytes());
    leaf.extend_from_slice(&3u16.to_le_bytes());
    leaf.extend_from_slice(&[9, 8, 7, 6]);
    let reader = BspReader::try_read(map_file(&[(LUMP_NODES, node), (LUMP_LEAVES, leaf)])).unwrap();
    let nodes = reader.read_nodes();
    assert_eq!(nodes.len(), 1);
    assert_eq!(nodes[0].plane, 7);
    assert_eq!(nodes[0].children, [1, -2]);
    assert_eq!(nodes[0].mins, [-10, -20, -30]);
    assert_eq!(nodes[0].maxs, [10, 20, 30]);
    assert_eq!((nodes[0].first_face, nodes[0].faces), (5, 6));
    let leaves = reader.read_leaves();
    assert_eq!(leaves.len(), 1);
    assert_eq!(leaves[0].contents().value(), -3);
    assert!(leaves[0].contents() == BspContents::Water);
    assert_eq!((leaves[0].first_mark_surface, leaves[0].mark_surfaces), (2, 3));
    assert_eq!(leaves[0].ambient_levels, [9, 8, 7, 6]);
}

#[test]
fn contents_numbers_run_from_minus_one_to_minus_fifteen() {
    assert_eq!(BspContents::Empty.value(), -1);
    assert_eq!(BspContents::Solid.value(), -2);
    assert_eq!(BspContents::Sky.value(), -6);
    assert_eq!(BspContents::CurrentDown.value(), -14);
    assert_eq!(BspContents::Translucent.value(), -15);
}

#[test]
fn entity_text_parses_into_key_value_pairs() {
    let text = "{\n\"classname\" \"worldspawn\"\n\"wad\" \"halflife.wad\"\n}\n{\n\"classname\" \"light\"\n\"origin\" \"1 2 3\"\n\"origin\" \"4 5 6\"\n}\n";
    let mut lump = text.as_bytes().to_vec();
    lump.push(0);
    let reader = BspReader::try_read(map_file(&[(LUMP_ENTITIES, lump)])).unwrap();
    let source = reader.read_entities_str().unwrap();
    assert_eq!(source, text);
    let entities = BspEntity::try_parse_entities(source).unwrap();
    assert_eq!(entities.len(), 2);
    assert_eq!(entities[0].get("classname"), Some("worldspawn"));
    assert_eq!(entities[0].get("wad"), Some("halflife.wad"));
    assert!(!entities[0].contains_key("origin"));
    // A key given twice keeps its first place and its last value.
    assert_eq!(entities[1].0.len(), 2);
    assert_eq!(entities[1].get("origin"), Some("4 5 6"));
    assert_eq!(BspEntity::parse_entities(source).len(), 2);
}

#[test]
fn entity_text_that_is_not_a_block_list_is_refused() {
    assert!(BspEntity::try_parse_entities("\"key\" \"value\"\n").is_none());
    assert!(BspEntity::try_parse_entities("{\n}\n}\n").is_none());
    assert!(BspEntity::try_parse_entities("{\nno separator\n}\n").is_none());
    assert_eq!(BspEntity::try_parse_entities("").unwrap().len(), 0);
}

#[test]
fn byte_slices_compare_by_content() {
    assert!(bytes_eq(b"abc", b"abc"));
    assert!(!bytes_eq(b"abc", b"abd"));
    assert!(!bytes_eq(b"ab", b"abc"));
}
