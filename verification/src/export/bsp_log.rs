//! The text report of a map's lumps: every node, leaf, mark surface,
//! surface edge, face, edge, vertex, texture, entity and model, in that
//! order, one field per line.
use vstd::prelude::*;
use vstd::utf8::*;
use vstd::string::{StringSliceAdditionalSpecFns, StringExecFns};
use crate::bsp::{
    BspReader, BspTextureReader, spec_lump, spec_lump_in_bounds, spec_records, spec_texture_table_fits,
    spec_texture_offsets, LUMP_NODES, LUMP_LEAVES, LUMP_MARKSURFACES, LUMP_SURFEDGES, LUMP_FACES,
    LUMP_EDGES, LUMP_VERTICES, LUMP_TEXTURES, LUMP_ENTITIES, LUMP_MODELS,
};
use crate::bsp_records::{BspNode, BspLeaf, BspMarkSurface, BspSurfaceEdge, BspFace, BspEdge, BspVertex, BspModel, BspMipTextureHeader};
use crate::entities::{BspEntity, SpecEntity, spec_parse_entities, spec_entities_view, spec_pairs_view};
use crate::text::{decimal, signed_decimal, spec_decimal, spec_signed_decimal, spec_nul_end};

verus! {

broadcast use group_utf8_lib;

/// The decimal texts of the single-precision values of a map, made where
/// they can be formatted: for each vertex its `x, y, z`, and for each model
/// its mins, maxs and origin as `a, b, c`.
pub struct FloatTexts {
    pub vertices: Vec<String>,
    pub model_mins: Vec<String>,
    pub model_maxs: Vec<String>,
    pub model_origins: Vec<String>,
}

pub open spec fn spec_bool_text(b: bool) -> Seq<char> {
    if b {
        "true"@
    } else {
        "false"@
    }
}

fn bool_text(b: bool) -> (res: &'static str)
    ensures
        res@ == spec_bool_text(b),
{
    if b {
        "true"
    } else {
        "false"
    }
}

#[verifier::opaque]
pub open spec fn spec_node_text(i: int, n: BspNode) -> Seq<char> {
    "  Node "@
        + spec_decimal((i) as nat)
        + "\n    plane: "@
        + spec_decimal((n.plane) as nat)
        + "\n    children: [ "@
        + spec_signed_decimal(n.children[0] as int)
        + ", "@
        + spec_signed_decimal(n.children[1] as int)
        + " ]\n    mins: [ "@
        + spec_signed_decimal(n.mins[0] as int)
        + ", "@
        + spec_signed_decimal(n.mins[1] as int)
        + ", "@
        + spec_signed_decimal(n.mins[2] as int)
        + " ]\n    maxs: [ "@
        + spec_signed_decimal(n.maxs[0] as int)
        + ", "@
        + spec_signed_decimal(n.maxs[1] as int)
        + ", "@
        + spec_signed_decimal(n.maxs[2] as int)
        + " ]\n    first_face: "@
        + spec_decimal((n.first_face) as nat)
        + "\n    faces: "@
        + spec_decimal((n.faces) as nat)
        + "\n"@
}

fn node_text(i: usize, n: &BspNode) -> (res: String)
    ensures
        res@ == spec_node_text(i as int, *n),
{
    reveal(spec_node_text);
    let mut s = String::from_str("  Node ");
    s.append(decimal(i as u64).as_str());
    s.append("\n    plane: ");
    s.append(decimal(n.plane as u64).as_str());
    s.append("\n    children: [ ");
    s.append(signed_decimal(n.children[0] as i64).as_str());
    s.append(", ");
    s.append(signed_decimal(n.children[1] as i64).as_str());
    s.append(" ]\n    mins: [ ");
    s.append(signed_decimal(n.mins[0] as i64).as_str());
    s.append(", ");
    s.append(signed_decimal(n.mins[1] as i64).as_str());
    s.append(", ");
    s.append(signed_decimal(n.mins[2] as i64).as_str());
    s.append(" ]\n    maxs: [ ");
    s.append(signed_decimal(n.maxs[0] as i64).as_str());
    s.append(", ");
    s.append(signed_decimal(n.maxs[1] as i64).as_str());
    s.append(", ");
    s.append(signed_decimal(n.maxs[2] as i64).as_str());
    s.append(" ]\n    first_face: ");
    s.append(decimal(n.first_face as u64).as_str());
    s.append("\n    faces: ");
    s.append(decimal(n.faces as u64).as_str());
    s.append("\n");
    s
}

#[verifier::opaque]
pub open spec fn spec_leaf_text(i: int, n: BspLeaf) -> Seq<char> {
    "  Leaf "@
        + spec_decimal((i) as nat)
        + "\n    contents: "@
        + spec_signed_decimal(n.contents as int)
        + "\n    vis_offset: "@
        + spec_signed_decimal(n.vis_offset as int)
        + "\n    mins: [ "@
        + spec_signed_decimal(n.mins[0] as int)
        + ", "@
        + spec_signed_decimal(n.mins[1] as int)
        + ", "@
        + spec_signed_decimal(n.mins[2] as int)
        + " ]\n    maxs: [ "@
        + spec_signed_decimal(n.maxs[0] as int)
        + ", "@
        + spec_signed_decimal(n.maxs[1] as int)
        + ", "@
        + spec_signed_decimal(n.maxs[2] as int)
        + " ]\n    first_mark_surface: "@
        + spec_decimal((n.first_mark_surface) as nat)
        + "\n    mark_surfaces: "@
        + spec_decimal((n.mark_surfaces) as nat)
        + "\n    ambient_levels: [ "@
        + spec_decimal((n.ambient_levels[0]) as nat)
        + ", "@
        + spec_decimal((n.ambient_levels[1]) as nat)
        + ", "@
        + spec_decimal((n.ambient_levels[2]) as nat)
        + ", "@
        + spec_decimal((n.ambient_levels[3]) as nat)
        + " ]\n"@
}

fn leaf_text(i: usize, n: &BspLeaf) -> (res: String)
    ensures
        res@ == spec_leaf_text(i as int, *n),
{
    reveal(spec_leaf_text);
    let mut s = String::from_str("  Leaf ");
    s.append(decimal(i as u64).as_str());
    s.append("\n    contents: ");
    s.append(signed_decimal(n.contents as i64).as_str());
    s.append("\n    vis_offset: ");
    s.append(signed_decimal(n.vis_offset as i64).as_str());
    s.append("\n    mins: [ ");
    s.append(signed_decimal(n.mins[0] as i64).as_str());
    s.append(", ");
    s.append(signed_decimal(n.mins[1] as i64).as_str());
    s.append(", ");
    s.append(signed_decimal(n.mins[2] as i64).as_str());
    s.append(" ]\n    maxs: [ ");
    s.append(signed_decimal(n.maxs[0] as i64).as_str());
    s.append(", ");
    s.append(signed_decimal(n.maxs[1] as i64).as_str());
    s.append(", ");
    s.append(signed_decimal(n.maxs[2] as i64).as_str());
    s.append(" ]\n    first_mark_surface: ");
    s.append(decimal(n.first_mark_surface as u64).as_str());
    s.append("\n    mark_surfaces: ");
    s.append(decimal(n.mark_surfaces as u64).as_str());
    s.append("\n    ambient_levels: [ ");
    s.append(decimal(n.ambient_levels[0] as u64).as_str());
    s.append(", ");
    s.append(decimal(n.ambient_levels[1] as u64).as_str());
    s.append(", ");
    s.append(decimal(n.ambient_levels[2] as u64).as_str());
    s.append(", ");
    s.append(decimal(n.ambient_levels[3] as u64).as_str());
    s.append(" ]\n");
    s
}

#[verifier::opaque]
pub open spec fn spec_mark_surface_text(i: int, n: BspMarkSurface) -> Seq<char> {
    "  Mark Surface "@
        + spec_decimal((i) as nat)
        + "\n    index: "@
        + spec_decimal((n.0) as nat)
        + "\n"@
}

fn mark_surface_text(i: usize, n: &BspMarkSurface) -> (res: String)
    ensures
        res@ == spec_mark_surface_text(i as int, *n),
{
    reveal(spec_mark_surface_text);
    let mut s = String::from_str("  Mark Surface ");
    s.append(decimal(i as u64).as_str());
    s.append("\n    index: ");
    s.append(decimal(n.0 as u64).as_str());
    s.append("\n");
    s
}

#[verifier::opaque]
pub open spec fn spec_surface_edge_text(i: int, n: BspSurfaceEdge) -> Seq<char> {
    "  Surface Edge "@
        + spec_decimal((i) as nat)
        + "\n    index: "@
        + spec_signed_decimal(n.0 as int)
        + "\n"@
}

fn surface_edge_text(i: usize, n: &BspSurfaceEdge) -> (res: String)
    ensures
        res@ == spec_surface_edge_text(i as int, *n),
{
    reveal(spec_surface_edge_text);
    let mut s = String::from_str("  Surface Edge ");
    s.append(decimal(i as u64).as_str());
    s.append("\n    index: ");
    s.append(signed_decimal(n.0 as i64).as_str());
    s.append("\n");
    s
}

#[verifier::opaque]
pub open spec fn spec_face_text(i: int, n: BspFace) -> Seq<char> {
    "  Face "@
        + spec_decimal((i) as nat)
        + "\n    plane: "@
        + spec_decimal((n.plane) as nat)
        + "\n    plane_side: "@
        + spec_decimal((n.plane_side) as nat)
        + "\n    first_edge: "@
        + spec_decimal((n.first_edge) as nat)
        + "\n    edges: "@
        + spec_decimal((n.edges) as nat)
        + "\n    texture_info: "@
        + spec_decimal((n.texture_info) as nat)
        + "\n    styles: [ "@
        + spec_decimal((n.styles[0]) as nat)
        + ", "@
        + spec_decimal((n.styles[1]) as nat)
        + ", "@
        + spec_decimal((n.styles[2]) as nat)
        + ", "@
        + spec_decimal((n.styles[3]) as nat)
        + " ]\n    lightmap_offset: "@
        + spec_signed_decimal(n.lightmap_offset as int)
        + "\n"@
}

fn face_text(i: usize, n: &BspFace) -> (res: String)
    ensures
        res@ == spec_face_text(i as int, *n),
{
    reveal(spec_face_text);
    let mut s = String::from_str("  Face ");
    s.append(decimal(i as u64).as_str());
    s.append("\n    plane: ");
    s.append(decimal(n.plane as u64).as_str());
    s.append("\n    plane_side: ");
    s.append(decimal(n.plane_side as u64).as_str());
    s.append("\n    first_edge: ");
    s.append(decimal(n.first_edge as u64).as_str());
    s.append("\n    edges: ");
    s.append(decimal(n.edges as u64).as_str());
    s.append("\n    texture_info: ");
    s.append(decimal(n.texture_info as u64).as_str());
    s.append("\n    styles: [ ");
    s.append(decimal(n.styles[0] as u64).as_str());
    s.append(", ");
    s.append(decimal(n.styles[1] as u64).as_str());
    s.append(", ");
    s.append(decimal(n.styles[2] as u64).as_str());
    s.append(", ");
    s.append(decimal(n.styles[3] as u64).as_str());
    s.append(" ]\n    lightmap_offset: ");
    s.append(signed_decimal(n.lightmap_offset as i64).as_str());
    s.append("\n");
    s
}

#[verifier::opaque]
pub open spec fn spec_edge_text(i: int, n: BspEdge) -> Seq<char> {
    "  Edge "@
        + spec_decimal((i) as nat)
        + "\n    vertices: [ "@
        + spec_decimal((n.vertices[0]) as nat)
        + ", "@
        + spec_decimal((n.vertices[1]) as nat)
        + " ]\n"@
}

fn edge_text(i: usize, n: &BspEdge) -> (res: String)
    ensures
        res@ == spec_edge_text(i as int, *n),
{
    reveal(spec_edge_text);
    let mut s = String::from_str("  Edge ");
    s.append(decimal(i as u64).as_str());
    s.append("\n    vertices: [ ");
    s.append(decimal(n.vertices[0] as u64).as_str());
    s.append(", ");
    s.append(decimal(n.vertices[1] as u64).as_str());
    s.append(" ]\n");
    s
}

#[verifier::opaque]
pub open spec fn spec_vertex_text(i: int, xyz: Seq<char>) -> Seq<char> {
    "  Vertex "@
        + spec_decimal((i) as nat)
        + "\n    vertices: [ "@
        + xyz
        + " ]\n"@
}

fn vertex_text(i: usize, xyz: &String) -> (res: String)
    ensures
        res@ == spec_vertex_text(i as int, xyz@),
{
    reveal(spec_vertex_text);
    let mut s = String::from_str("  Vertex ");
    s.append(decimal(i as u64).as_str());
    s.append("\n    vertices: [ ");
    s.append(xyz.as_str());
    s.append(" ]\n");
    s
}

#[verifier::opaque]
pub open spec fn spec_texture_text(i: int, name: Seq<char>, local: bool) -> Seq<char> {
    "  "@
        + spec_decimal((i) as nat)
        + " - "@
        + name
        + " - "@
        + spec_bool_text(local)
        + "\n"@
}

fn texture_text(i: usize, name: &str, local: bool) -> (res: String)
    ensures
        res@ == spec_texture_text(i as int, name@, local),
{
    reveal(spec_texture_text);
    let mut s = String::from_str("  ");
    s.append(decimal(i as u64).as_str());
    s.append(" - ");
    s.append(name);
    s.append(" - ");
    s.append(bool_text(local));
    s.append("\n");
    s
}

#[verifier::opaque]
pub open spec fn spec_model_text(i: int, n: BspModel, mins: Seq<char>, maxs: Seq<char>, origin: Seq<char>) -> Seq<char> {
    "  Model "@
        + spec_decimal((i) as nat)
        + "\n    mins: [ "@
        + mins
        + " ]\n    maxs: [ "@
        + maxs
        + " ]\n    origin: [ "@
        + origin
        + " ]\n    head_nodes: [ "@
        + spec_signed_decimal(n.head_nodes[0] as int)
        + ", "@
        + spec_signed_decimal(n.head_nodes[1] as int)
        + ", "@
        + spec_signed_decimal(n.head_nodes[2] as int)
        + ", "@
        + spec_signed_decimal(n.head_nodes[3] as int)
        + " ]\n    vis_leaves: "@
        + spec_signed_decimal(n.vis_leaves as int)
        + "\n    first_face: "@
        + spec_signed_decimal(n.first_face as int)
        + "\n    faces: "@
        + spec_signed_decimal(n.faces as int)
        + "\n"@
}

fn model_text(i: usize, n: &BspModel, mins: &String, maxs: &String, origin: &String) -> (res: String)
    ensures
        res@ == spec_model_text(i as int, *n, mins@, maxs@, origin@),
{
    reveal(spec_model_text);
    let mut s = String::from_str("  Model ");
    s.append(decimal(i as u64).as_str());
    s.append("\n    mins: [ ");
    s.append(mins.as_str());
    s.append(" ]\n    maxs: [ ");
    s.append(maxs.as_str());
    s.append(" ]\n    origin: [ ");
    s.append(origin.as_str());
    s.append(" ]\n    head_nodes: [ ");
    s.append(signed_decimal(n.head_nodes[0] as i64).as_str());
    s.append(", ");
    s.append(signed_decimal(n.head_nodes[1] as i64).as_str());
    s.append(", ");
    s.append(signed_decimal(n.head_nodes[2] as i64).as_str());
    s.append(", ");
    s.append(signed_decimal(n.head_nodes[3] as i64).as_str());
    s.append(" ]\n    vis_leaves: ");
    s.append(signed_decimal(n.vis_leaves as i64).as_str());
    s.append("\n    first_face: ");
    s.append(signed_decimal(n.first_face as i64).as_str());
    s.append("\n    faces: ");
    s.append(signed_decimal(n.faces as i64).as_str());
    s.append("\n");
    s
}

#[verifier::opaque]
pub open spec fn spec_pair_text(key: Seq<char>, value: Seq<char>) -> Seq<char> {
    "    "@
        + key
        + ": "@
        + value
        + "\n"@
}

fn pair_text(key: &str, value: &str) -> (res: String)
    ensures
        res@ == spec_pair_text(key@, value@),
{
    reveal(spec_pair_text);
    let mut s = String::from_str("    ");
    s.append(key);
    s.append(": ");
    s.append(value);
    s.append("\n");
    s
}

#[verifier::opaque]
pub open spec fn spec_entity_head_text(i: int) -> Seq<char> {
    "  Entity "@
        + spec_decimal((i) as nat)
        + "\n"@
}

fn entity_head_text(i: usize) -> (res: String)
    ensures
        res@ == spec_entity_head_text(i as int),
{
    reveal(spec_entity_head_text);
    let mut s = String::from_str("  Entity ");
    s.append(decimal(i as u64).as_str());
    s.append("\n");
    s
}

pub open spec fn spec_nodes_lines(items: Seq<BspNode>, k: int) -> Seq<char>
    decreases k,
{
    if k <= 0 {
        Seq::empty()
    } else {
        spec_nodes_lines(items, k - 1) + spec_node_text(k - 1, items[k - 1])
    }
}

/// Appends the report of each node, in order.
pub fn log_nodes(log: &mut String, items: &Vec<BspNode>)
    ensures
        final(log)@ == old(log)@ + spec_nodes_lines(items@, items@.len() as int),
{
    let n = items.len();
    let mut i: usize = 0;
    while i < n
        invariant
            n == items@.len(),
            0 <= i <= n,
            log@ == old(log)@ + spec_nodes_lines(items@, i as int),
        decreases n - i,
    {
        let text = node_text(i, &items[i]);
        log.append(text.as_str());
        i += 1;
    }
}

pub open spec fn spec_leaves_lines(items: Seq<BspLeaf>, k: int) -> Seq<char>
    decreases k,
{
    if k <= 0 {
        Seq::empty()
    } else {
        spec_leaves_lines(items, k - 1) + spec_leaf_text(k - 1, items[k - 1])
    }
}

fn log_leaves(log: &mut String, items: &Vec<BspLeaf>)
    ensures
        final(log)@ == old(log)@ + spec_leaves_lines(items@, items@.len() as int),
{
    let n = items.len();
    let mut i: usize = 0;
    while i < n
        invariant
            n == items@.len(),
            0 <= i <= n,
            log@ == old(log)@ + spec_leaves_lines(items@, i as int),
        decreases n - i,
    {
        let text = leaf_text(i, &items[i]);
        log.append(text.as_str());
        i += 1;
    }
}

pub open spec fn spec_mark_surfaces_lines(items: Seq<BspMarkSurface>, k: int) -> Seq<char>
    decreases k,
{
    if k <= 0 {
        Seq::empty()
    } else {
        spec_mark_surfaces_lines(items, k - 1) + spec_mark_surface_text(k - 1, items[k - 1])
    }
}

fn log_mark_surfaces(log: &mut String, items: &Vec<BspMarkSurface>)
    ensures
        final(log)@ == old(log)@ + spec_mark_surfaces_lines(items@, items@.len() as int),
{
    let n = items.len();
    let mut i: usize = 0;
    while i < n
        invariant
            n == items@.len(),
            0 <= i <= n,
            log@ == old(log)@ + spec_mark_surfaces_lines(items@, i as int),
        decreases n - i,
    {
        let text = mark_surface_text(i, &items[i]);
        log.append(text.as_str());
        i += 1;
    }
}

pub open spec fn spec_surface_edges_lines(items: Seq<BspSurfaceEdge>, k: int) -> Seq<char>
    decreases k,
{
    if k <= 0 {
        Seq::empty()
    } else {
        spec_surface_edges_lines(items, k - 1) + spec_surface_edge_text(k - 1, items[k - 1])
    }
}

fn log_surface_edges(log: &mut String, items: &Vec<BspSurfaceEdge>)
    ensures
        final(log)@ == old(log)@ + spec_surface_edges_lines(items@, items@.len() as int),
{
    let n = items.len();
    let mut i: usize = 0;
    while i < n
        invariant
            n == items@.len(),
            0 <= i <= n,
            log@ == old(log)@ + spec_surface_edges_lines(items@, i as int),
        decreases n - i,
    {
        let text = surface_edge_text(i, &items[i]);
        log.append(text.as_str());
        i += 1;
    }
}

pub open spec fn spec_faces_lines(items: Seq<BspFace>, k: int) -> Seq<char>
    decreases k,
{
    if k <= 0 {
        Seq::empty()
    } else {
        spec_faces_lines(items, k - 1) + spec_face_text(k - 1, items[k - 1])
    }
}

fn log_faces(log: &mut String, items: &Vec<BspFace>)
    ensures
        final(log)@ == old(log)@ + spec_faces_lines(items@, items@.len() as int),
{
    let n = items.len();
    let mut i: usize = 0;
    while i < n
        invariant
            n == items@.len(),
            0 <= i <= n,
            log@ == old(log)@ + spec_faces_lines(items@, i as int),
        decreases n - i,
    {
        let text = face_text(i, &items[i]);
        log.append(text.as_str());
        i += 1;
    }
}

pub open spec fn spec_edges_lines(items: Seq<BspEdge>, k: int) -> Seq<char>
    decreases k,
{
    if k <= 0 {
        Seq::empty()
    } else {
        spec_edges_lines(items, k - 1) + spec_edge_text(k - 1, items[k - 1])
    }
}

fn log_edges(log: &mut String, items: &Vec<BspEdge>)
    ensures
        final(log)@ == old(log)@ + spec_edges_lines(items@, items@.len() as int),
{
    let n = items.len();
    let mut i: usize = 0;
    while i < n
        invariant
            n == items@.len(),
            0 <= i <= n,
            log@ == old(log)@ + spec_edges_lines(items@, i as int),
        decreases n - i,
    {
        let text = edge_text(i, &items[i]);
        log.append(text.as_str());
        i += 1;
    }
}

pub open spec fn spec_vertices_lines(texts: Seq<String>, k: int) -> Seq<char>
    decreases k,
{
    if k <= 0 {
        Seq::empty()
    } else {
        spec_vertices_lines(texts, k - 1) + spec_vertex_text(k - 1, texts[k - 1]@)
    }
}

fn log_vertices(log: &mut String, texts: &Vec<String>)
    ensures
        final(log)@ == old(log)@ + spec_vertices_lines(texts@, texts@.len() as int),
{
    let n = texts.len();
    let mut i: usize = 0;
    while i < n
        invariant
            n == texts@.len(),
            0 <= i <= n,
            log@ == old(log)@ + spec_vertices_lines(texts@, i as int),
        decreases n - i,
    {
        let text = vertex_text(i, &texts[i]);
        log.append(text.as_str());
        i += 1;
    }
}

pub open spec fn spec_models_lines(
    items: Seq<BspModel>,
    mins: Seq<String>,
    maxs: Seq<String>,
    origins: Seq<String>,
    k: int,
) -> Seq<char>
    decreases k,
{
    if k <= 0 {
        Seq::empty()
    } else {
        spec_models_lines(items, mins, maxs, origins, k - 1) + spec_model_text(
            k - 1,
            items[k - 1],
            mins[k - 1]@,
            maxs[k - 1]@,
            origins[k - 1]@,
        )
    }
}

fn log_models(log: &mut String, items: &Vec<BspModel>, texts: &FloatTexts)
    requires
        texts.model_mins@.len() == items@.len(),
        texts.model_maxs@.len() == items@.len(),
        texts.model_origins@.len() == items@.len(),
    ensures
        final(log)@ == old(log)@ + spec_models_lines(
            items@,
            texts.model_mins@,
            texts.model_maxs@,
            texts.model_origins@,
            items@.len() as int,
        ),
{
    let n = items.len();
    let mut i: usize = 0;
    while i < n
        invariant
            n == items@.len(),
            texts.model_mins@.len() == n,
            texts.model_maxs@.len() == n,
            texts.model_origins@.len() == n,
            0 <= i <= n,
            log@ == old(log)@ + spec_models_lines(
                items@,
                texts.model_mins@,
                texts.model_maxs@,
                texts.model_origins@,
                i as int,
            ),
        decreases n - i,
    {
        let text = model_text(i, &items[i], &texts.model_mins[i], &texts.model_maxs[i], &texts.model_origins[i]);
        log.append(text.as_str());
        i += 1;
    }
}

// ---- textures ---------------------------------------------------------------

/// Where the data of texture `i` of the texture lump ends.
pub open spec fn spec_texture_end(lump: Seq<u8>, i: int) -> int {
    let offs = spec_texture_offsets(lump);
    if i + 1 < offs.len() {
        offs[i + 1] as int
    } else {
        lump.len() as int
    }
}

/// The data of texture `i` lies within the lump and holds a header.
pub open spec fn spec_texture_entry_ok(lump: Seq<u8>, i: int) -> bool {
    let start = spec_texture_offsets(lump)[i] as int;
    let end = spec_texture_end(lump, i);
    0 <= start && start + 40 <= end && end <= lump.len()
}

/// The name bytes of texture `i`: its 16 name bytes up to the first zero.
pub open spec fn spec_texture_name_bytes(lump: Seq<u8>, i: int) -> Seq<u8> {
    let start = spec_texture_offsets(lump)[i] as int;
    let name = lump.subrange(start, start + 16);
    name.subrange(0, spec_nul_end(name))
}

/// Whether texture `i` is stored in the map itself.
pub open spec fn spec_texture_is_local(lump: Seq<u8>, i: int) -> bool {
    let start = spec_texture_offsets(lump)[i] as int;
    BspMipTextureHeader::spec_decode_at(lump.subrange(start, spec_texture_end(lump, i)), 0).offsets[0] != 0
}

/// Every texture's data can be found and its name is valid UTF-8.
pub open spec fn spec_textures_ok(lump: Seq<u8>) -> bool {
    forall|i: int|
        0 <= i < spec_texture_offsets(lump).len() ==> #[trigger] spec_texture_entry_ok(lump, i)
            && valid_utf8(spec_texture_name_bytes(lump, i))
}

pub open spec fn spec_textures_lines(lump: Seq<u8>, k: int) -> Seq<char>
    decreases k,
{
    if k <= 0 {
        Seq::empty()
    } else {
        spec_textures_lines(lump, k - 1) + spec_texture_text(
            k - 1,
            decode_utf8(spec_texture_name_bytes(lump, k - 1)),
            spec_texture_is_local(lump, k - 1),
        )
    }
}

fn texture_line(texture_reader: &BspTextureReader, i: usize, lump: Ghost<Seq<u8>>) -> (res: Option<String>)
    requires
        texture_reader.lump() == lump@,
        texture_reader.offsets() == spec_texture_offsets(lump@),
        i < texture_reader.offsets().len(),
    ensures
        res is Some <==> spec_texture_entry_ok(lump@, i as int) && valid_utf8(
            spec_texture_name_bytes(lump@, i as int),
        ),
        res matches Some(t) ==> t@ == spec_texture_text(
            i as int,
            decode_utf8(spec_texture_name_bytes(lump@, i as int)),
            spec_texture_is_local(lump@, i as int),
        ),
{
    if !texture_reader.entry_ok(i) {
        return None;
    }
    let texture = match texture_reader.get(i) {
        Some(t) => t,
        None => return None,
    };
    let ghost start = spec_texture_offsets(lump@)[i as int] as int;
    assert(texture.data().subrange(0, 16) =~= lump@.subrange(start, start + 16));
    let name = match texture.get_image_name() {
        Ok(name) => name,
        Err(_) => return None,
    };
    assert(decode_utf8(name.spec_bytes()) == name@);
    Some(texture_text(i, name, texture.has_local_image_data()))
}

#[verifier::spinoff_prover]
fn log_textures(log: &mut String, reader: &BspReader) -> (ok: bool)
    requires
        spec_lump_in_bounds(reader.bytes(), LUMP_TEXTURES as int),
        spec_texture_table_fits(spec_lump(reader.bytes(), LUMP_TEXTURES as int)),
    ensures
        ({
            let lump = spec_lump(reader.bytes(), LUMP_TEXTURES as int);
            &&& ok == spec_textures_ok(lump)
            &&& ok ==> final(log)@ == old(log)@ + spec_textures_lines(
                lump,
                spec_texture_offsets(lump).len() as int,
            )
        }),
{
    let ghost lump = spec_lump(reader.bytes(), LUMP_TEXTURES as int);
    let texture_reader = reader.read_textures();
    let n = texture_reader.len();
    let mut i: usize = 0;
    while i < n
        invariant
            lump == spec_lump(reader.bytes(), LUMP_TEXTURES as int),
            texture_reader.lump() == lump,
            texture_reader.offsets() == spec_texture_offsets(lump),
            n == texture_reader.offsets().len(),
            0 <= i <= n,
            forall|j: int|
                0 <= j < i ==> #[trigger] spec_texture_entry_ok(lump, j) && valid_utf8(
                    spec_texture_name_bytes(lump, j),
                ),
            log@ == old(log)@ + spec_textures_lines(lump, i as int),
        decreases n - i,
    {
        match texture_line(&texture_reader, i, Ghost(lump)) {
            Some(text) => {
                assert(spec_texture_entry_ok(lump, i as int) && valid_utf8(
                    spec_texture_name_bytes(lump, i as int),
                ));
                assert forall|j: int| 0 <= j < i + 1 implies #[trigger] spec_texture_entry_ok(lump, j)
                    && valid_utf8(spec_texture_name_bytes(lump, j)) by {
                    if j < i {
                    }
                }
                log.append(text.as_str());
            },
            None => {
                assert(!(spec_texture_entry_ok(lump, i as int) && valid_utf8(
                    spec_texture_name_bytes(lump, i as int),
                )));
                return false;
            },
        }
        i += 1;
    }
    true
}

// ---- entities ---------------------------------------------------------------

pub open spec fn spec_pairs_lines(e: SpecEntity, k: int) -> Seq<char>
    decreases k,
{
    if k <= 0 {
        Seq::empty()
    } else {
        spec_pairs_lines(e, k - 1) + spec_pair_text(decode_utf8(e[k - 1].0), decode_utf8(e[k - 1].1))
    }
}

pub open spec fn spec_entities_lines(es: Seq<SpecEntity>, k: int) -> Seq<char>
    decreases k,
{
    if k <= 0 {
        Seq::empty()
    } else {
        spec_entities_lines(es, k - 1) + spec_entity_head_text(k - 1) + spec_pairs_lines(
            es[k - 1],
            es[k - 1].len() as int,
        )
    }
}

/// The text of the entity lump: its bytes up to the first zero.
pub open spec fn spec_entity_text_bytes(b: Seq<u8>) -> Seq<u8> {
    let lump = spec_lump(b, LUMP_ENTITIES as int);
    lump.subrange(0, spec_nul_end(lump))
}

fn log_entities(log: &mut String, reader: &BspReader) -> (ok: bool)
    requires
        spec_lump_in_bounds(reader.bytes(), LUMP_ENTITIES as int),
    ensures
        ({
            let text = spec_entity_text_bytes(reader.bytes());
            &&& ok == (valid_utf8(text) && spec_parse_entities(text) is Some)
            &&& ok ==> final(log)@ == old(log)@ + spec_entities_lines(
                spec_parse_entities(text).unwrap(),
                spec_parse_entities(text).unwrap().len() as int,
            )
        }),
{
    let source = match reader.read_entities_str() {
        Ok(s) => s,
        Err(_) => return false,
    };
    let entities = match BspEntity::try_parse_entities(source) {
        Some(e) => e,
        None => return false,
    };
    let ghost es = spec_entities_view(entities@);
    let n = entities.len();
    let mut i: usize = 0;
    while i < n
        invariant
            n == entities@.len(),
            es == spec_entities_view(entities@),
            0 <= i <= n,
            log@ == old(log)@ + spec_entities_lines(es, i as int),
        decreases n - i,
    {
        let head = entity_head_text(i);
        log.append(head.as_str());
        let pairs = &entities[i].0;
        let m = pairs.len();
        let ghost e = es[i as int];
        assert(e == spec_pairs_view(pairs@));
        let mut j: usize = 0;
        while j < m
            invariant
                m == pairs@.len(),
                e == spec_pairs_view(pairs@),
                0 <= j <= m,
                log@ == old(log)@ + spec_entities_lines(es, i as int) + spec_entity_head_text(i as int)
                    + spec_pairs_lines(e, j as int),
            decreases m - j,
        {
            let (key, value) = pairs[j];
            assert(decode_utf8(key.spec_bytes()) == key@);
            assert(decode_utf8(value.spec_bytes()) == value@);
            let text = pair_text(key, value);
            log.append(text.as_str());
            j += 1;
        }
        i += 1;
    }
    true
}

// ---- the report ---------------------------------------------------------------

/// The lumps that the report reads are within the file, and there is a text
/// for each vertex and each model.
pub open spec fn spec_log_lumps_ok(b: Seq<u8>, texts: FloatTexts) -> bool {
    &&& spec_lump_in_bounds(b, LUMP_NODES as int)
    &&& spec_lump_in_bounds(b, LUMP_LEAVES as int)
    &&& spec_lump_in_bounds(b, LUMP_MARKSURFACES as int)
    &&& spec_lump_in_bounds(b, LUMP_SURFEDGES as int)
    &&& spec_lump_in_bounds(b, LUMP_FACES as int)
    &&& spec_lump_in_bounds(b, LUMP_EDGES as int)
    &&& spec_lump_in_bounds(b, LUMP_VERTICES as int)
    &&& texts.vertices@.len() == spec_records::<BspVertex>(spec_lump(b, LUMP_VERTICES as int)).len()
    &&& spec_lump_in_bounds(b, LUMP_TEXTURES as int)
    &&& spec_texture_table_fits(spec_lump(b, LUMP_TEXTURES as int))
    &&& spec_lump_in_bounds(b, LUMP_ENTITIES as int)
    &&& spec_lump_in_bounds(b, LUMP_MODELS as int)
    &&& texts.model_mins@.len() == spec_records::<BspModel>(spec_lump(b, LUMP_MODELS as int)).len()
    &&& texts.model_maxs@.len() == spec_records::<BspModel>(spec_lump(b, LUMP_MODELS as int)).len()
    &&& texts.model_origins@.len() == spec_records::<BspModel>(spec_lump(b, LUMP_MODELS as int)).len()
}

/// The lumps and texts that the report reads are all there, every texture
/// name is valid UTF-8, and the entity text is valid UTF-8 and parses.
pub open spec fn spec_log_ok(b: Seq<u8>, texts: FloatTexts) -> bool {
    &&& spec_log_lumps_ok(b, texts)
    &&& spec_textures_ok(spec_lump(b, LUMP_TEXTURES as int))
    &&& valid_utf8(spec_entity_text_bytes(b))
    &&& spec_parse_entities(spec_entity_text_bytes(b)) is Some
}

fn log_lumps_ok(reader: &BspReader, texts: &FloatTexts) -> (res: bool)
    ensures
        res == spec_log_lumps_ok(reader.bytes(), *texts),
{
    if !reader.lump_in_bounds(LUMP_NODES) || !reader.lump_in_bounds(LUMP_LEAVES)
        || !reader.lump_in_bounds(LUMP_MARKSURFACES) || !reader.lump_in_bounds(LUMP_SURFEDGES)
        || !reader.lump_in_bounds(LUMP_FACES) || !reader.lump_in_bounds(LUMP_EDGES)
        || !reader.lump_in_bounds(LUMP_VERTICES) || !reader.textures_in_bounds()
        || !reader.lump_in_bounds(LUMP_ENTITIES) || !reader.lump_in_bounds(LUMP_MODELS) {
        return false;
    }
    let vertices = reader.read_vertices();
    let models = reader.read_models();
    texts.vertices.len() == vertices.len() && texts.model_mins.len() == models.len()
        && texts.model_maxs.len() == models.len() && texts.model_origins.len() == models.len()
}

/// The part of the report that covers the tree and the polygons: nodes,
/// leaves, mark surfaces, surface edges, faces and edges.
#[verifier::opaque]
pub open spec fn spec_log_geometry(b: Seq<u8>) -> Seq<char> {
    let nodes = spec_records::<BspNode>(spec_lump(b, LUMP_NODES as int));
    let leaves = spec_records::<BspLeaf>(spec_lump(b, LUMP_LEAVES as int));
    let mark_surfaces = spec_records::<BspMarkSurface>(spec_lump(b, LUMP_MARKSURFACES as int));
    let surface_edges = spec_records::<BspSurfaceEdge>(spec_lump(b, LUMP_SURFEDGES as int));
    let faces = spec_records::<BspFace>(spec_lump(b, LUMP_FACES as int));
    let edges = spec_records::<BspEdge>(spec_lump(b, LUMP_EDGES as int));
    "Nodes:\n"@ + spec_nodes_lines(nodes, nodes.len() as int) + "Leaves:\n"@ + spec_leaves_lines(
        leaves,
        leaves.len() as int,
    ) + "Mark Surfaces:\n"@ + spec_mark_surfaces_lines(mark_surfaces, mark_surfaces.len() as int)
        + "Surface Edges:\n"@ + spec_surface_edges_lines(surface_edges, surface_edges.len() as int)
        + "Faces:\n"@ + spec_faces_lines(faces, faces.len() as int) + "Edges:\n"@ + spec_edges_lines(
        edges,
        edges.len() as int,
    )
}

#[verifier::opaque]
pub open spec fn spec_log_vertices(texts: FloatTexts) -> Seq<char> {
    "Vertices:\n"@ + spec_vertices_lines(texts.vertices@, texts.vertices@.len() as int)
}

#[verifier::opaque]
pub open spec fn spec_log_textures(b: Seq<u8>) -> Seq<char> {
    let textures = spec_lump(b, LUMP_TEXTURES as int);
    "Textures:\n"@ + spec_textures_lines(textures, spec_texture_offsets(textures).len() as int)
}

#[verifier::opaque]
pub open spec fn spec_log_entities(b: Seq<u8>) -> Seq<char> {
    let entities = spec_parse_entities(spec_entity_text_bytes(b)).unwrap();
    "Entities:\n"@ + spec_entities_lines(entities, entities.len() as int)
}

#[verifier::opaque]
pub open spec fn spec_log_models(b: Seq<u8>, texts: FloatTexts) -> Seq<char> {
    let models = spec_records::<BspModel>(spec_lump(b, LUMP_MODELS as int));
    "Models:\n"@ + spec_models_lines(
        models,
        texts.model_mins@,
        texts.model_maxs@,
        texts.model_origins@,
        models.len() as int,
    )
}

/// The report of map `b`.
pub open spec fn spec_log(b: Seq<u8>, texts: FloatTexts) -> Seq<char> {
    spec_log_geometry(b) + spec_log_vertices(texts) + spec_log_textures(b) + spec_log_entities(b)
        + spec_log_models(b, texts)
}

#[verifier::spinoff_prover]
#[verifier::rlimit(40)]
fn log_geometry(reader: &BspReader, log: &mut String)
    requires
        spec_lump_in_bounds(reader.bytes(), LUMP_NODES as int),
        spec_lump_in_bounds(reader.bytes(), LUMP_LEAVES as int),
        spec_lump_in_bounds(reader.bytes(), LUMP_MARKSURFACES as int),
        spec_lump_in_bounds(reader.bytes(), LUMP_SURFEDGES as int),
        spec_lump_in_bounds(reader.bytes(), LUMP_FACES as int),
        spec_lump_in_bounds(reader.bytes(), LUMP_EDGES as int),
    ensures
        final(log)@ == old(log)@ + spec_log_geometry(reader.bytes()),
{
    let ghost start = log@;
    let nodes = reader.read_nodes();
    log.append("Nodes:\n");
    log_nodes(log, &nodes);
    let ghost p1 = "Nodes:\n"@ + spec_nodes_lines(nodes@, nodes@.len() as int);
    assert(log@ =~= start + p1);
    let leaves = reader.read_leaves();
    log.append("Leaves:\n");
    log_leaves(log, &leaves);
    let ghost p2 = p1 + "Leaves:\n"@ + spec_leaves_lines(leaves@, leaves@.len() as int);
    assert(log@ =~= start + p2);
    let mark_surfaces = reader.read_mark_surfaces();
    log.append("Mark Surfaces:\n");
    log_mark_surfaces(log, &mark_surfaces);
    let ghost p3 = p2 + "Mark Surfaces:\n"@ + spec_mark_surfaces_lines(
        mark_surfaces@,
        mark_surfaces@.len() as int,
    );
    assert(log@ =~= start + p3);
    let surface_edges = reader.read_surface_edges();
    log.append("Surface Edges:\n");
    log_surface_edges(log, &surface_edges);
    let ghost p4 = p3 + "Surface Edges:\n"@ + spec_surface_edges_lines(
        surface_edges@,
        surface_edges@.len() as int,
    );
    assert(log@ =~= start + p4);
    let faces = reader.read_faces();
    log.append("Faces:\n");
    log_faces(log, &faces);
    let ghost p5 = p4 + "Faces:\n"@ + spec_faces_lines(faces@, faces@.len() as int);
    assert(log@ =~= start + p5);
    let edges = reader.read_edges();
    log.append("Edges:\n");
    log_edges(log, &edges);
    let ghost p6 = p5 + "Edges:\n"@ + spec_edges_lines(edges@, edges@.len() as int);
    assert(log@ =~= start + p6);
    reveal(spec_log_geometry);
    assert(spec_log_geometry(reader.bytes()) == p6);
}

/// Appends the report of the map to `log`; `false`, with only part of the
/// report written, when a lump or a text that it reads is missing.
#[verifier::spinoff_prover]
#[verifier::rlimit(40)]
pub fn log_bsp(reader: &BspReader, texts: &FloatTexts, log: &mut String) -> (ok: bool)
    ensures
        ok == spec_log_ok(reader.bytes(), *texts),
        ok ==> final(log)@ == old(log)@ + spec_log(reader.bytes(), *texts),
{
    let ghost b = reader.bytes();
    let ghost start = log@;
    if !log_lumps_ok(reader, texts) {
        return false;
    }
    let models = reader.read_models();
    log_geometry(reader, log);
    let ghost g = spec_log_geometry(b);
    log.append("Vertices:\n");
    log_vertices(log, &texts.vertices);
    let ghost v = spec_log_vertices(*texts);
    proof {
        reveal(spec_log_vertices);
        assert(log@ =~= start + g + v);
    }
    log.append("Textures:\n");
    if !log_textures(log, reader) {
        return false;
    }
    let ghost t = spec_log_textures(b);
    proof {
        reveal(spec_log_textures);
        assert(log@ =~= start + g + v + t);
    }
    log.append("Entities:\n");
    if !log_entities(log, reader) {
        return false;
    }
    let ghost e = spec_log_entities(b);
    proof {
        reveal(spec_log_entities);
        assert(log@ =~= start + g + v + t + e);
    }
    log.append("Models:\n");
    log_models(log, &models, texts);
    let ghost m = spec_log_models(b, *texts);
    proof {
        reveal(spec_log_models);
        assert(log@ =~= start + g + v + t + e + m);
        assert(start + spec_log(b, *texts) =~= start + g + v + t + e + m);
    }
    true
}

} // verus!
