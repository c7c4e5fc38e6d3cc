use goldsrc_assets::bsp_records::{
    BspEdge, BspFace, BspLeaf, BspMarkSurface, BspModel, BspNode, BspSurfaceEdge, BspTextureInfo,
};
use goldsrc_assets::bytes::F32Bits;
use goldsrc_assets::export::bsp::{
    convert, convert_models, convert_node, read_vertex_index, MapGeometry, SharedVertex, WadCollection,
};
use goldsrc_assets::wad3::WadArchive;

fn texture_info(texture_index: u32) -> BspTextureInfo {
    let z = F32Bits(0);
    BspTextureInfo { s: [z; 3], s_shift: z, t: [z; 3], t_shift: z, texture_index, flags: 0 }
}

fn leaf(first_mark_surface: u16, mark_surfaces: u16) -> BspLeaf {
    BspLeaf {
        contents: -1,
        vis_offset: -1,
        mins: [0; 3],
        maxs: [0; 3],
        first_mark_surface,
        mark_surfaces,
        ambient_levels: [0; 4],
    }
}

fn face(texture_info: u16) -> BspFace {
    BspFace { plane: 0, plane_side: 0, first_edge: 0, edges: 4, texture_info, styles: [0; 4], lightmap_offset: 0 }
}

fn edges() -> Vec<BspEdge> {
    vec![
        BspEdge { vertices: [9, 9] },
        BspEdge { vertices: [0, 1] },
        BspEdge { vertices: [1, 2] },
        BspEdge { vertices: [2, 3] },
        BspEdge { vertices: [3, 0] },
    ]
}

fn surface_edges() -> Vec<BspSurfaceEdge> {
    vec![BspSurfaceEdge(1), BspSurfaceEdge(2), BspSurfaceEdge(3), BspSurfaceEdge(4)]
}

#[test]
fn surface_edges_start_at_the_vertex_their_sign_selects() {
    let es = edges();
    assert_eq!(read_vertex_index(&BspSurfaceEdge(2), &es), 1);
    assert_eq!(read_vertex_index(&BspSurfaceEdge(-2), &es), 2);
    assert_eq!(read_vertex_index(&BspSurfaceEdge(0), &es), 9);
}

#[test]
fn a_quad_becomes_two_triangles_sharing_vertices() {
    let nodes = vec![BspNode { plane: 0, children: [-1, -2], mins: [0; 3], maxs: [0; 3], first_face: 0, faces: 0 }];
    let leaves = vec![leaf(0, 2), leaf(0, 0)];
    // The first mark surface names a textured quad, the second an untextured one.
    let marks = vec![BspMarkSurface(0), BspMarkSurface(1)];
    let faces = vec![face(1), face(0)];
    let ses = surface_edges();
    let es = edges();
    let infos = vec![texture_info(0), texture_info(5)];
    let g = MapGeometry {
        nodes: &nodes,
        leaves: &leaves,
        mark_surfaces: &marks,
        faces: &faces,
        surface_edges: &ses,
        edges: &es,
        texture_infos: &infos,
        vertex_count: 10,
        plane_count: 1,
        texture_count: 6,
    };
    let model = convert(&g).unwrap();
    assert_eq!(model.indices, vec![0, 1, 2, 3, 0, 2]);
    let corners: Vec<usize> = model.vertices.iter().map(|v| v.shared.vertex).collect();
    assert_eq!(corners, vec![2, 1, 0, 3]);
    assert!(model.vertices.iter().all(|v| v.shared.texture == 1 && v.plane == 0));
    assert_eq!(model.meshes.len(), 1);
    assert_eq!(model.meshes[0].texture_index, 5);
    assert_eq!(model.meshes[0].indices_range, 0..6);

    // Starting below the root at leaf 1 gives an empty model.
    let empty = convert_node(&g, -2, false).unwrap();
    assert!(empty.indices.is_empty() && empty.vertices.is_empty() && empty.meshes.is_empty());

    // The models of the map start at their head nodes.
    let z = F32Bits(0);
    let bsp_model = |head: i32| BspModel {
        mins: [z; 3],
        maxs: [z; 3],
        origin: [z; 3],
        head_nodes: [head, 0, 0, 0],
        vis_leaves: 0,
        first_face: 0,
        faces: 0,
    };
    let models = convert_models(&g, &[bsp_model(0), bsp_model(-1)]).unwrap();
    assert_eq!(models.len(), 2);
    assert_eq!(models[0].indices.len(), 6);
    assert_eq!(models[1].indices, vec![0, 1, 2, 3, 0, 2]);
}

#[test]
fn maps_that_refer_past_their_data_are_refused() {
    let nodes = vec![BspNode { plane: 0, children: [-1, -3], mins: [0; 3], maxs: [0; 3], first_face: 0, faces: 0 }];
    let leaves = vec![leaf(0, 1)];
    let marks = vec![BspMarkSurface(0)];
    let faces = vec![face(1)];
    let ses = surface_edges();
    let es = edges();
    let infos = vec![texture_info(0), texture_info(0)];
    let g = MapGeometry {
        nodes: &nodes,
        leaves: &leaves,
        mark_surfaces: &marks,
        faces: &faces,
        surface_edges: &ses,
        edges: &es,
        texture_infos: &infos,
        vertex_count: 4,
        plane_count: 1,
        texture_count: 1,
    };
    // Leaf 2 does not exist.
    assert!(convert(&g).is_none());
    // A vertex index past the vertex count.
    let g2 = MapGeometry { vertex_count: 3, ..g };
    assert!(convert_node(&g2, -1, false).is_none());
    assert!(convert_node(&MapGeometry { vertex_count: 4, ..g2 }, -1, false).is_some());
    // A node that is its own child never ends.
    let cyclic = vec![BspNode { plane: 0, children: [0, 0], mins: [0; 3], maxs: [0; 3], first_face: 0, faces: 0 }];
    let g3 = MapGeometry { nodes: &cyclic, ..g };
    assert!(convert_node(&g3, 0, true).is_none());
}

/// An archive with one image entry named `name`.
fn one_entry_archive(name: &str, red: u8) -> WadArchive {
    let data = [1u8, 0, 0, 0, 1, 0, 0, 0, 0, 1, 0, red, 2, 3];
    let mut out = b"WAD3".to_vec();
    out.extend_from_slice(&1u32.to_le_bytes());
    out.extend_from_slice(&((12 + data.len()) as u32).to_le_bytes());
    out.extend_from_slice(&data);
    out.extend_from_slice(&12u32.to_le_bytes());
    out.extend_from_slice(&(data.len() as u32).to_le_bytes());
    out.extend_from_slice(&(data.len() as u32).to_le_bytes());
    out.extend_from_slice(&[0x42, 0, 0, 0]);
    let mut n = [0u8; 16];
    n[..name.len()].copy_from_slice(name.as_bytes());
    out.extend_from_slice(&n);
    WadArchive::try_from_bytes(out).unwrap()
}

#[test]
fn texture_lookup_takes_the_first_archive_that_has_the_name() {
    let mut wads = WadCollection::new();
    assert!(wads.find("brick").is_none());
    wads.add(one_entry_archive("stone", 1));
    wads.add(one_entry_archive("brick", 2));
    wads.add(one_entry_archive("brick", 3));
    let (archive, file) = wads.find("brick").unwrap();
    assert_eq!(file.name, "brick");
    assert_eq!(archive.file_data(file).unwrap()[11], 2);
    let (archive, file) = wads.find("stone").unwrap();
    assert_eq!(archive.file_data(file).unwrap()[11], 1);
    assert!(wads.find("BRICK").is_none());
}
