//! From a map's visibility tree to an indexed triangle model: the leaves are
//! visited in tree order, each textured face of a leaf is split into a fan of
//! triangles, and corners that share a map vertex and a texture share one
//! model vertex.
use vstd::prelude::*;
use std::collections::HashMap;
use crate::bsp_records::{BspNode, BspLeaf, BspMarkSurface, BspFace, BspEdge, BspSurfaceEdge, BspTextureInfo, BspModel};
use crate::gltf::export::Mesh;
use crate::wad3::{WadArchive, WadFileInfo};

verus! {

broadcast use vstd::std_specs::hash::group_hash_axioms;

// ---- texture archives -------------------------------------------------------

/// The texture archives a map uses, searched in the order they were added.
pub struct WadCollection {
    wads: Vec<WadArchive>,
}

/// The first index from `j` of a file named `key`, or -1.
pub open spec fn spec_file_index_from(files: Seq<WadFileInfo>, key: Seq<char>, j: int) -> int
    decreases files.len() - j,
{
    if j < 0 || j >= files.len() {
        -1
    } else if files[j].spec_name() == key {
        j
    } else {
        spec_file_index_from(files, key, j + 1)
    }
}

/// The first archive from `i` holding a file named `key`, with that file's
/// index in it.
pub open spec fn spec_find_from(wads: Seq<WadArchive>, key: Seq<char>, i: int) -> Option<(int, int)>
    decreases wads.len() - i,
{
    if i < 0 || i >= wads.len() {
        None
    } else {
        let j = spec_file_index_from(wads[i].spec_files(), key, 0);
        if j >= 0 {
            Some((i, j))
        } else {
            spec_find_from(wads, key, i + 1)
        }
    }
}

proof fn lemma_file_index_range(files: Seq<WadFileInfo>, key: Seq<char>, j: int)
    requires
        0 <= j,
    ensures
        spec_file_index_from(files, key, j) == -1 || (j <= spec_file_index_from(files, key, j)
            < files.len() && files[spec_file_index_from(files, key, j)].spec_name() == key),
    decreases files.len() - j,
{
    if j < files.len() && files[j].spec_name() != key {
        lemma_file_index_range(files, key, j + 1);
    }
}

proof fn lemma_find_range(wads: Seq<WadArchive>, key: Seq<char>, i: int)
    requires
        0 <= i,
    ensures
        spec_find_from(wads, key, i) matches Some((a, f)) ==> i <= a < wads.len() && 0 <= f
            < wads[a].spec_files().len() && wads[a].spec_files()[f].spec_name() == key,
    decreases wads.len() - i,
{
    if i < wads.len() {
        lemma_file_index_range(wads[i].spec_files(), key, 0);
        lemma_find_range(wads, key, i + 1);
    }
}

proof fn lemma_file_index_first(files: Seq<WadFileInfo>, key: Seq<char>, j: int)
    requires
        0 <= j,
    ensures
        spec_file_index_from(files, key, j) == -1 ==> forall|k: int|
            j <= k < files.len() ==> #[trigger] files[k].spec_name() != key,
        spec_file_index_from(files, key, j) >= 0 ==> forall|k: int|
            j <= k < spec_file_index_from(files, key, j) ==> #[trigger] files[k].spec_name() != key,
    decreases files.len() - j,
{
    if j < files.len() && files[j].spec_name() != key {
        lemma_file_index_first(files, key, j + 1);
    }
}

/// An archive holds an entry named `key`.
pub open spec fn spec_holds(w: WadArchive, key: Seq<char>) -> bool {
    exists|f: int| 0 <= f < w.spec_files().len() && #[trigger] w.spec_files()[f].spec_name() == key
}

/// Looking a name up in the archives finds an entry of that name, in the
/// first archive that holds one, and it is the first entry of that name
/// there; it finds nothing exactly when no archive holds the name.
pub proof fn lemma_find_first(wads: Seq<WadArchive>, key: Seq<char>)
    ensures
        match spec_find_from(wads, key, 0) {
            Some((a, f)) => {
                &&& 0 <= a < wads.len()
                &&& 0 <= f < wads[a].spec_files().len()
                &&& wads[a].spec_files()[f].spec_name() == key
                &&& forall|k: int| 0 <= k < f ==> #[trigger] wads[a].spec_files()[k].spec_name() != key
                &&& forall|b: int| 0 <= b < a ==> !spec_holds(#[trigger] wads[b], key)
            },
            None => forall|b: int| 0 <= b < wads.len() ==> !spec_holds(#[trigger] wads[b], key),
        },
{
    lemma_find_first_from(wads, key, 0);
}

proof fn lemma_find_first_from(wads: Seq<WadArchive>, key: Seq<char>, i: int)
    requires
        0 <= i,
    ensures
        match spec_find_from(wads, key, i) {
            Some((a, f)) => {
                &&& i <= a < wads.len()
                &&& 0 <= f < wads[a].spec_files().len()
                &&& wads[a].spec_files()[f].spec_name() == key
                &&& forall|k: int| 0 <= k < f ==> #[trigger] wads[a].spec_files()[k].spec_name() != key
                &&& forall|b: int| i <= b < a ==> !spec_holds(#[trigger] wads[b], key)
            },
            None => forall|b: int| i <= b < wads.len() ==> !spec_holds(#[trigger] wads[b], key),
        },
    decreases wads.len() - i,
{
    if i < wads.len() {
        let files = wads[i].spec_files();
        lemma_file_index_range(files, key, 0);
        lemma_file_index_first(files, key, 0);
        lemma_find_first_from(wads, key, i + 1);
        if spec_file_index_from(files, key, 0) < 0 {
            assert(!spec_holds(wads[i], key));
        }
    }
}

impl WadCollection {
    /// The archives, in the order they were added.
    pub closed spec fn spec_wads(&self) -> Seq<WadArchive> {
        self.wads@
    }

    pub fn new() -> (res: Self)
        ensures
            res.spec_wads() == Seq::<WadArchive>::empty(),
    {
        Self { wads: Vec::new() }
    }

    pub fn add(&mut self, archive: WadArchive)
        ensures
            final(self).spec_wads() == old(self).spec_wads().push(archive),
    {
        self.wads.push(archive);
    }

    /// The first file named `key` in the first archive that has one.
    pub fn find(&self, key: &str) -> (res: Option<(&WadArchive, &WadFileInfo)>)
        ensures
            match spec_find_from(self.spec_wads(), key@, 0) {
                Some((a, f)) => res matches Some((w, file)) && *w == self.spec_wads()[a] && *file
                    == self.spec_wads()[a].spec_files()[f],
                None => res is None,
            },
    {
        proof {
            lemma_find_range(self.wads@, key@, 0);
        }
        let n = self.wads.len();
        let mut i: usize = 0;
        while i < n
            invariant
                n == self.wads@.len(),
                0 <= i <= n,
                spec_find_from(self.wads@, key@, 0) == spec_find_from(self.wads@, key@, i as int),
            decreases n - i,
        {
            let wad = &self.wads[i];
            let files = wad.entries();
            let m = files.len();
            let mut j: usize = 0;
            while j < m
                invariant
                    m == files@.len(),
                    0 <= j <= m,
                    n == self.wads@.len(),
                    0 <= i < n,
                    *wad == self.wads@[i as int],
                    spec_find_from(self.wads@, key@, 0) == spec_find_from(self.wads@, key@, i as int),
                    wad.spec_files() == files@,
                    spec_file_index_from(files@, key@, 0) == spec_file_index_from(
                        files@,
                        key@,
                        j as int,
                    ),
                decreases m - j,
            {
                if files[j].is_named(key) {
                    return Some((wad, &files[j]));
                }
                j += 1;
            }
            i += 1;
        }
        None
    }
}

// ---- corners of faces ---------------------------------------------------------

/// The index of the edge that a surface edge refers to: its magnitude.
pub open spec fn spec_edge_index(e: BspSurfaceEdge) -> int {
    if e.0 >= 0 {
        e.0 as int
    } else {
        -e.0
    }
}

/// A surface edge can be followed: its magnitude fits and names an edge.
pub open spec fn spec_edge_ok(e: BspSurfaceEdge, edges: Seq<BspEdge>) -> bool {
    e.0 != i32::MIN && spec_edge_index(e) < edges.len()
}

/// The vertex where a surface edge starts: the first vertex of its edge for a
/// positive index, the second otherwise.
pub open spec fn spec_edge_vertex(e: BspSurfaceEdge, edges: Seq<BspEdge>) -> u32 {
    let which: int = if e.0 > 0 { 0 } else { 1 };
    edges[spec_edge_index(e)].vertices[which] as u32
}

/// The vertex where `edge_index` starts.
pub fn read_vertex_index(edge_index: &BspSurfaceEdge, edges: &[BspEdge]) -> (res: u32)
    requires
        spec_edge_ok(*edge_index, edges@),
    ensures
        res == spec_edge_vertex(*edge_index, edges@),
{
    let edge_vertex_index: usize = if edge_index.0 > 0 { 0 } else { 1 };
    let index: usize = if edge_index.0 >= 0 { edge_index.0 as usize } else { (-edge_index.0) as usize };
    let edge = &edges[index];
    edge.vertices[edge_vertex_index] as u32
}

/// A corner as the model sees it: a map vertex drawn with a texture.
#[derive(Copy, Clone, Debug, PartialEq, Eq, Structural)]
pub struct SharedVertex {
    pub vertex: usize,
    pub texture: usize,
}

/// The surface edges of face `f` that triangulating it follows: the first
/// always, and the others when the face has more than two.
pub open spec fn spec_face_edges_ok(f: BspFace, surface_edges: Seq<BspSurfaceEdge>, edges: Seq<BspEdge>) -> bool {
    let s = f.first_edge as int;
    let n = f.edges as int;
    &&& 2 <= n
    &&& s + n <= surface_edges.len()
    &&& forall|i: int|
        0 <= i < n && (i == 0 || n > 2) ==> spec_edge_ok(#[trigger] surface_edges[s + i], edges)
}

/// The corners of face `f` as a triangle list: the fan around its first
/// vertex, each triangle listed from its far corner back to the first one.
pub open spec fn spec_face_triangles(f: BspFace, surface_edges: Seq<BspSurfaceEdge>, edges: Seq<BspEdge>) -> Seq<SharedVertex> {
    let s = f.first_edge as int;
    let n = f.edges as int;
    Seq::new(
        (3 * (n - 2)) as nat,
        |k: int|
            {
                let t = k / 3;
                let e = if k % 3 == 0 {
                    surface_edges[s + t + 2]
                } else if k % 3 == 1 {
                    surface_edges[s + t + 1]
                } else {
                    surface_edges[s]
                };
                SharedVertex { vertex: spec_edge_vertex(e, edges) as usize, texture: f.texture_info as usize }
            },
    )
}

fn face_triangles(f: &BspFace, surface_edges: &[BspSurfaceEdge], edges: &[BspEdge]) -> (res: Vec<SharedVertex>)
    requires
        spec_face_edges_ok(*f, surface_edges@, edges@),
    ensures
        res@ == spec_face_triangles(*f, surface_edges@, edges@),
{
    let s = f.first_edge as usize;
    let n = f.edges as usize;
    let texture = f.texture_info as usize;
    assert(spec_edge_ok(surface_edges@[s + 0], edges@));
    let first_vertex = read_vertex_index(&surface_edges[s], edges);
    let len = surface_edges.len();
    let mut triangle_list: Vec<SharedVertex> = Vec::new();
    let mut i: usize = 0;
    while i < n - 2
        invariant
            len == surface_edges@.len(),
            spec_face_edges_ok(*f, surface_edges@, edges@),
            s == f.first_edge,
            n == f.edges,
            texture == f.texture_info,
            first_vertex == spec_edge_vertex(surface_edges@[s as int], edges@),
            0 <= i <= n - 2,
            triangle_list@ == spec_face_triangles(*f, surface_edges@, edges@).take(3 * i),
        decreases n - 2 - i,
    {
        assert(spec_edge_ok(surface_edges@[s + (i + 2)], edges@));
        assert(spec_edge_ok(surface_edges@[s + (i + 1)], edges@));
        let v2 = read_vertex_index(&surface_edges[s + i + 2], edges);
        let v1 = read_vertex_index(&surface_edges[s + i + 1], edges);
        triangle_list.push(SharedVertex { vertex: v2 as usize, texture });
        triangle_list.push(SharedVertex { vertex: v1 as usize, texture });
        triangle_list.push(SharedVertex { vertex: first_vertex as usize, texture });
        proof {
            let full = spec_face_triangles(*f, surface_edges@, edges@);
            assert((3 * i) / 3 == i && (3 * i) % 3 == 0);
            assert((3 * i + 1) / 3 == i && (3 * i + 1) % 3 == 1);
            assert((3 * i + 2) / 3 == i && (3 * i + 2) % 3 == 2);
            assert(triangle_list@ =~= full.take(3 * i + 3));
        }
        i += 1;
    }
    assert(triangle_list@ =~= spec_face_triangles(*f, surface_edges@, edges@));
    triangle_list
}

// ---- the model ----------------------------------------------------------------

/// A vertex of the exported model: the corner it stands for and the plane
/// whose normal it takes (that of the first face it was met on).
#[derive(Copy, Clone, Debug)]
pub struct ExportVertex {
    pub shared: SharedVertex,
    pub plane: usize,
}

/// What the conversion reads from a map: the records of its lumps, and the
/// numbers of its vertices, planes and loaded textures.
pub struct MapGeometry<'a> {
    pub nodes: &'a [BspNode],
    pub leaves: &'a [BspLeaf],
    pub mark_surfaces: &'a [BspMarkSurface],
    pub faces: &'a [BspFace],
    pub surface_edges: &'a [BspSurfaceEdge],
    pub edges: &'a [BspEdge],
    pub texture_infos: &'a [BspTextureInfo],
    pub vertex_count: usize,
    pub plane_count: usize,
    pub texture_count: usize,
}

/// An indexed triangle model whose vertices name their map vertex, texture
/// and plane; the renderer or exporter fills in positions, normals and
/// texture coordinates from them.
pub struct ModelSource {
    pub indices: Vec<u32>,
    pub vertices: Vec<ExportVertex>,
    pub meshes: Vec<Mesh>,
}

/// A model as plain values: indices, vertices and meshes.
pub type SpecModel = (Seq<u32>, Seq<ExportVertex>, Seq<Mesh>);

pub open spec fn spec_model_view(m: ModelSource) -> SpecModel {
    (m.indices@, m.vertices@, m.meshes@)
}

/// The first index from `k` of a vertex for corner `c`, or -1.
pub open spec fn spec_vertex_index_from(verts: Seq<ExportVertex>, c: SharedVertex, k: int) -> int
    decreases verts.len() - k,
{
    if k < 0 || k >= verts.len() {
        -1
    } else if verts[k].shared == c {
        k
    } else {
        spec_vertex_index_from(verts, c, k + 1)
    }
}

/// Adds one corner: the index of the model vertex already made for it, or a
/// new vertex. A new vertex must name a map vertex that exists.
pub open spec fn spec_add_corner(st: (Seq<u32>, Seq<ExportVertex>), c: SharedVertex, plane: usize, vertex_count: nat) -> Option<(Seq<u32>, Seq<ExportVertex>)> {
    let k = spec_vertex_index_from(st.1, c, 0);
    if k >= 0 {
        Some((st.0.push(k as u32), st.1))
    } else if c.vertex >= vertex_count {
        None
    } else {
        Some((st.0.push(st.1.len() as u32), st.1.push(ExportVertex { shared: c, plane })))
    }
}

/// Adds corners in order.
pub open spec fn spec_add_corners(st: (Seq<u32>, Seq<ExportVertex>), cs: Seq<SharedVertex>, plane: usize, vertex_count: nat) -> Option<(Seq<u32>, Seq<ExportVertex>)>
    decreases cs.len(),
{
    if cs.len() == 0 {
        Some(st)
    } else {
        match spec_add_corners(st, cs.drop_last(), plane, vertex_count) {
            None => None,
            Some(s2) => spec_add_corner(s2, cs.last(), plane, vertex_count),
        }
    }
}

/// Face `f` can be added: its plane, its edges, its texture info and that
/// info's texture exist.
pub open spec fn spec_face_ok(g: MapGeometry, f: BspFace) -> bool {
    &&& f.plane < g.plane_count
    &&& spec_face_edges_ok(f, g.surface_edges@, g.edges@)
    &&& f.texture_info < g.texture_infos@.len()
    &&& g.texture_infos@[f.texture_info as int].texture_index < g.texture_count
}

/// Adds the triangles of face `f` and a mesh over their indices.
pub open spec fn spec_add_face(m: SpecModel, g: MapGeometry, f: BspFace) -> Option<SpecModel> {
    if !spec_face_ok(g, f) {
        None
    } else {
        match spec_add_corners(
            (m.0, m.1),
            spec_face_triangles(f, g.surface_edges@, g.edges@),
            f.plane as usize,
            g.vertex_count as nat,
        ) {
            None => None,
            Some((idx, vs)) => Some(
                (
                    idx,
                    vs,
                    m.2.push(
                        Mesh {
                            texture_index: g.texture_infos@[f.texture_info as int].texture_index as usize,
                            indices_range: core::ops::Range { start: m.0.len() as usize, end: idx.len() as usize },
                        },
                    ),
                ),
            ),
        }
    }
}

/// Adds the face of mark surface `i`, unless it is untextured (texture info 0).
pub open spec fn spec_add_mark_surface(m: SpecModel, g: MapGeometry, i: int) -> Option<SpecModel> {
    if i < 0 || i >= g.mark_surfaces@.len() {
        None
    } else {
        let fi = g.mark_surfaces@[i].0 as int;
        if fi >= g.faces@.len() {
            None
        } else if g.faces@[fi].texture_info == 0 {
            Some(m)
        } else {
            spec_add_face(m, g, g.faces@[fi])
        }
    }
}

/// Adds the first `k` mark surfaces of a leaf.
pub open spec fn spec_add_leaf_upto(m: SpecModel, g: MapGeometry, leaf: BspLeaf, k: int) -> Option<SpecModel>
    decreases k,
{
    if k <= 0 {
        Some(m)
    } else {
        match spec_add_leaf_upto(m, g, leaf, k - 1) {
            None => None,
            Some(m2) => spec_add_mark_surface(m2, g, leaf.first_mark_surface + k - 1),
        }
    }
}

/// Adds the faces of a leaf; its range of mark surfaces must end within 16
/// bits.
pub open spec fn spec_add_leaf(m: SpecModel, g: MapGeometry, leaf: BspLeaf) -> Option<SpecModel> {
    if leaf.first_mark_surface + leaf.mark_surfaces > 0xffff {
        None
    } else {
        spec_add_leaf_upto(m, g, leaf, leaf.mark_surfaces as int)
    }
}

/// The faces that a leaf names: for each of its `mark_surfaces` mark
/// surfaces from `first_mark_surface` on, the face that mark surface holds.
pub open spec fn spec_leaf_faces(g: MapGeometry, leaf: BspLeaf) -> Seq<BspFace> {
    Seq::new(
        leaf.mark_surfaces as nat,
        |k: int| g.faces@[g.mark_surfaces@[leaf.first_mark_surface + k].0 as int],
    )
}

/// Adds the given faces in order, passing over those without a texture
/// (texture info 0).
pub open spec fn spec_add_textured_faces(m: SpecModel, g: MapGeometry, fs: Seq<BspFace>) -> Option<SpecModel>
    decreases fs.len(),
{
    if fs.len() == 0 {
        Some(m)
    } else {
        match spec_add_textured_faces(m, g, fs.drop_last()) {
            None => None,
            Some(m2) => if fs.last().texture_info == 0 {
                Some(m2)
            } else {
                spec_add_face(m2, g, fs.last())
            },
        }
    }
}

/// A leaf whose mark surfaces and their faces exist contributes exactly the
/// textured faces named by `mark_surfaces[first_mark_surface ..
/// first_mark_surface + mark_surfaces]`, in that order.
pub proof fn lemma_leaf_adds_its_mark_surfaces(m: SpecModel, g: MapGeometry, leaf: BspLeaf)
    requires
        leaf.first_mark_surface + leaf.mark_surfaces <= 0xffff,
        leaf.first_mark_surface + leaf.mark_surfaces <= g.mark_surfaces@.len(),
        forall|k: int|
            leaf.first_mark_surface <= k < leaf.first_mark_surface + leaf.mark_surfaces ==> (
            #[trigger] g.mark_surfaces@[k]).0 < g.faces@.len(),
    ensures
        spec_add_leaf(m, g, leaf) == spec_add_textured_faces(m, g, spec_leaf_faces(g, leaf)),
{
    lemma_leaf_prefix(m, g, leaf, leaf.mark_surfaces as int);
    assert(spec_leaf_faces(g, leaf).take(leaf.mark_surfaces as int) =~= spec_leaf_faces(g, leaf));
}

proof fn lemma_leaf_prefix(m: SpecModel, g: MapGeometry, leaf: BspLeaf, k: int)
    requires
        0 <= k <= leaf.mark_surfaces,
        leaf.first_mark_surface + leaf.mark_surfaces <= g.mark_surfaces@.len(),
        forall|j: int|
            leaf.first_mark_surface <= j < leaf.first_mark_surface + leaf.mark_surfaces ==> (
            #[trigger] g.mark_surfaces@[j]).0 < g.faces@.len(),
    ensures
        spec_add_leaf_upto(m, g, leaf, k) == spec_add_textured_faces(m, g, spec_leaf_faces(g, leaf).take(k)),
    decreases k,
{
    if k > 0 {
        lemma_leaf_prefix(m, g, leaf, k - 1);
        let fs = spec_leaf_faces(g, leaf).take(k);
        assert(fs.drop_last() =~= spec_leaf_faces(g, leaf).take(k - 1));
        assert(g.mark_surfaces@[leaf.first_mark_surface + k - 1].0 < g.faces@.len());
        assert(fs.last() == g.faces@[g.mark_surfaces@[leaf.first_mark_surface + k - 1].0 as int]);
    }
}

/// Adds the leaves below `node_index` in tree order: a positive index (or 0
/// at the root) is a node, whose front and back children follow; a negative
/// index `i` is leaf `-1 - i`. `fuel` bounds the depth: a walk deeper than
/// the number of nodes goes round a cycle and never ends.
pub open spec fn spec_walk(m: SpecModel, g: MapGeometry, node_index: int, allow_zero: bool, fuel: nat) -> Option<SpecModel>
    decreases fuel,
{
    if node_index > 0 || (node_index == 0 && allow_zero) {
        if fuel == 0 || node_index >= g.nodes@.len() {
            None
        } else {
            let n = g.nodes@[node_index];
            match spec_walk(m, g, n.children[0] as int, false, (fuel - 1) as nat) {
                None => None,
                Some(m1) => spec_walk(m1, g, n.children[1] as int, false, (fuel - 1) as nat),
            }
        }
    } else {
        let leaf_index = -node_index - 1;
        if leaf_index < 0 || leaf_index >= g.leaves@.len() {
            None
        } else {
            spec_add_leaf(m, g, g.leaves@[leaf_index])
        }
    }
}

/// The model of the subtree at `node_index`.
pub open spec fn spec_convert(g: MapGeometry, node_index: int, allow_zero: bool) -> Option<SpecModel> {
    spec_walk((Seq::empty(), Seq::empty(), Seq::empty()), g, node_index, allow_zero, g.nodes@.len())
}

// ---- building it ----------------------------------------------------------------

/// The key of a corner in the map of model vertices.
pub open spec fn spec_key(v: SharedVertex) -> u64 {
    (v.vertex * 0x1_0000_0000 + v.texture) as u64
}

/// The map finds, for the corner of each model vertex, that vertex; corners
/// are 16-bit values and no two model vertices share a corner.
pub open spec fn spec_map_ok(map: Map<u64, usize>, verts: Seq<ExportVertex>) -> bool {
    &&& forall|k: int|
        0 <= k < verts.len() ==> (#[trigger] verts[k]).shared.vertex < 0x1_0000 && verts[k].shared.texture
            < 0x1_0000
    &&& forall|k: int|
        0 <= k < verts.len() ==> map.contains_key(spec_key(#[trigger] verts[k].shared)) && map[spec_key(
            verts[k].shared,
        )] == k
    &&& forall|key: u64|
        #[trigger] map.contains_key(key) ==> map[key] < verts.len() && spec_key(verts[map[key] as int].shared)
            == key
}

proof fn lemma_key_injective(a: SharedVertex, b: SharedVertex)
    requires
        a.vertex < 0x1_0000,
        a.texture < 0x1_0000,
        b.vertex < 0x1_0000,
        b.texture < 0x1_0000,
        spec_key(a) == spec_key(b),
    ensures
        a == b,
{
}

proof fn lemma_vertex_index_none(verts: Seq<ExportVertex>, c: SharedVertex, k: int)
    requires
        0 <= k,
        forall|j: int| k <= j < verts.len() ==> (#[trigger] verts[j]).shared != c,
    ensures
        spec_vertex_index_from(verts, c, k) == -1,
    decreases verts.len() - k,
{
    if k < verts.len() {
        lemma_vertex_index_none(verts, c, k + 1);
    }
}

proof fn lemma_vertex_index_found(verts: Seq<ExportVertex>, c: SharedVertex, k: int, at: int)
    requires
        0 <= k <= at < verts.len(),
        verts[at].shared == c,
        forall|j: int| k <= j < at ==> (#[trigger] verts[j]).shared != c,
    ensures
        spec_vertex_index_from(verts, c, k) == at,
    decreases at - k,
{
    if k < at {
        lemma_vertex_index_found(verts, c, k + 1, at);
    }
}

fn corner_key(v: SharedVertex) -> (res: u64)
    requires
        v.vertex < 0x1_0000,
        v.texture < 0x1_0000,
    ensures
        res == spec_key(v),
{
    v.vertex as u64 * 0x1_0000_0000 + v.texture as u64
}

/// Adds corners to the model; `false` when a new vertex names a map vertex
/// that does not exist.
fn add_corners(
    indices: &mut Vec<u32>,
    vertices: &mut Vec<ExportVertex>,
    map: &mut HashMap<u64, usize>,
    corners: &Vec<SharedVertex>,
    plane: usize,
    vertex_count: usize,
) -> (res: bool)
    requires
        spec_map_ok(old(map)@, old(vertices)@),
        forall|k: int|
            0 <= k < corners@.len() ==> (#[trigger] corners@[k]).vertex < 0x1_0000 && corners@[k].texture
                < 0x1_0000,
    ensures
        res == spec_add_corners((old(indices)@, old(vertices)@), corners@, plane, vertex_count as nat) is Some,
        res ==> spec_add_corners((old(indices)@, old(vertices)@), corners@, plane, vertex_count as nat) == Some(
            (final(indices)@, final(vertices)@),
        ),
        res ==> spec_map_ok(final(map)@, final(vertices)@),
{
    let n = corners.len();
    let mut i: usize = 0;
    while i < n
        invariant
            n == corners@.len(),
            0 <= i <= n,
            forall|k: int|
                0 <= k < corners@.len() ==> (#[trigger] corners@[k]).vertex < 0x1_0000
                    && corners@[k].texture < 0x1_0000,
            spec_add_corners((old(indices)@, old(vertices)@), corners@.take(i as int), plane, vertex_count as nat)
                == Some((indices@, vertices@)),
            spec_map_ok(map@, vertices@),
        decreases n - i,
    {
        let c = corners[i];
        proof {
            assert(corners@.take(i + 1).drop_last() =~= corners@.take(i as int));
            assert(corners@.take(i + 1).last() == c);
        }
        let key = corner_key(c);
        let ghost st = (indices@, vertices@);
        match map.get(&key) {
            Some(found) => {
                let index = *found;
                proof {
                    lemma_key_injective(vertices@[index as int].shared, c);
                    assert forall|j: int| 0 <= j < index implies (#[trigger] vertices@[j]).shared != c by {
                        if vertices@[j].shared == c {
                            assert(map@[spec_key(vertices@[j].shared)] == j);
                        }
                    }
                    lemma_vertex_index_found(vertices@, c, 0, index as int);
                }
                indices.push(index as u32);
            },
            None => {
                proof {
                    assert forall|j: int| 0 <= j < vertices@.len() implies (#[trigger] vertices@[j]).shared != c by {
                        if vertices@[j].shared == c {
                            assert(map@.contains_key(spec_key(vertices@[j].shared)));
                        }
                    }
                    lemma_vertex_index_none(vertices@, c, 0);
                }
                if c.vertex >= vertex_count {
                    proof {
                        let full = corners@;
                        assert forall|m: int| i + 1 <= m <= n implies #[trigger] spec_add_corners(
                            (old(indices)@, old(vertices)@),
                            full.take(m),
                            plane,
                            vertex_count as nat,
                        ) is None by {
                            lemma_add_corners_stays_none(
                                (old(indices)@, old(vertices)@),
                                full,
                                plane,
                                vertex_count as nat,
                                i + 1,
                                m,
                            );
                        }
                        assert(full.take(n as int) =~= full);
                    }
                    return false;
                }
                let index = vertices.len();
                indices.push(index as u32);
                vertices.push(ExportVertex { shared: c, plane });
                map.insert(key, index);
                proof {
                    assert forall|key2: u64| #[trigger] map@.contains_key(key2) implies map@[key2] < vertices@.len()
                        && spec_key(vertices@[map@[key2] as int].shared) == key2 by {
                        if key2 != key {
                            assert(st.1[map@[key2] as int] == vertices@[map@[key2] as int]);
                        }
                    }
                    assert forall|k: int| 0 <= k < vertices@.len() implies map@.contains_key(spec_key(#[trigger] vertices@[k].shared))
                        && map@[spec_key(vertices@[k].shared)] == k by {
                        if k < index {
                            assert(vertices@[k] == st.1[k]);
                            assert(st.1[k].shared != c);
                            if spec_key(st.1[k].shared) == key {
                                lemma_key_injective(st.1[k].shared, c);
                            }
                        }
                    }
                }
            },
        }
        i += 1;
    }
    assert(corners@.take(n as int) =~= corners@);
    true
}

/// Once adding corners has failed, adding more fails too.
proof fn lemma_add_corners_stays_none(
    st: (Seq<u32>, Seq<ExportVertex>),
    cs: Seq<SharedVertex>,
    plane: usize,
    vc: nat,
    i: int,
    m: int,
)
    requires
        0 <= i <= m <= cs.len(),
        spec_add_corners(st, cs.take(i), plane, vc) is None,
    ensures
        spec_add_corners(st, cs.take(m), plane, vc) is None,
    decreases m - i,
{
    if m > i {
        lemma_add_corners_stays_none(st, cs, plane, vc, i, m - 1);
        assert(cs.take(m).drop_last() =~= cs.take(m - 1));
    }
}

fn face_edges_ok(f: &BspFace, surface_edges: &[BspSurfaceEdge], edges: &[BspEdge]) -> (res: bool)
    ensures
        res == spec_face_edges_ok(*f, surface_edges@, edges@),
{
    let s = f.first_edge as usize;
    let n = f.edges as usize;
    let len = surface_edges.len();
    if n < 2 || s > len || len - s < n {
        return false;
    }
    let m = edges.len();
    let mut i: usize = 0;
    while i < n
        invariant
            len == surface_edges@.len(),
            m == edges@.len(),
            s == f.first_edge,
            n == f.edges,
            2 <= n,
            s + n <= len,
            0 <= i <= n,
            forall|j: int|
                0 <= j < i && (j == 0 || n > 2) ==> spec_edge_ok(#[trigger] surface_edges@[s + j], edges@),
        decreases n - i,
    {
        if i == 0 || n > 2 {
            let e = surface_edges[s + i].0;
            if e == i32::MIN {
                return false;
            }
            let index: usize = if e >= 0 { e as usize } else { (-e) as usize };
            if index >= m {
                assert(!spec_edge_ok(surface_edges@[s + i], edges@));
                return false;
            }
        }
        i += 1;
    }
    true
}

/// Adds face `f`: its triangles and a mesh over their indices.
fn add_face(out: &mut ModelSource, map: &mut HashMap<u64, usize>, g: &MapGeometry, f: &BspFace) -> (res: bool)
    requires
        spec_map_ok(old(map)@, old(out).vertices@),
    ensures
        res == spec_add_face(spec_model_view(*old(out)), *g, *f) is Some,
        res ==> spec_add_face(spec_model_view(*old(out)), *g, *f) == Some(spec_model_view(*final(out))),
        res ==> spec_map_ok(final(map)@, final(out).vertices@),
{
    if f.plane as usize >= g.plane_count {
        return false;
    }
    if !face_edges_ok(f, g.surface_edges, g.edges) {
        return false;
    }
    if f.texture_info as usize >= g.texture_infos.len() {
        return false;
    }
    let texture_index = g.texture_infos[f.texture_info as usize].texture_index;
    if texture_index as usize >= g.texture_count {
        return false;
    }
    let corners = face_triangles(f, g.surface_edges, g.edges);
    let start = out.indices.len();
    if !add_corners(&mut out.indices, &mut out.vertices, map, &corners, f.plane as usize, g.vertex_count) {
        return false;
    }
    let end = out.indices.len();
    out.meshes.push(Mesh { texture_index: texture_index as usize, indices_range: start..end });
    true
}

/// Once adding a leaf's mark surfaces has failed, adding more fails too.
proof fn lemma_leaf_upto_stays_none(m: SpecModel, g: MapGeometry, leaf: BspLeaf, i: int, k: int)
    requires
        0 <= i <= k,
        spec_add_leaf_upto(m, g, leaf, i) is None,
    ensures
        spec_add_leaf_upto(m, g, leaf, k) is None,
    decreases k - i,
{
    if k > i {
        lemma_leaf_upto_stays_none(m, g, leaf, i, k - 1);
    }
}

/// Adds the faces of a leaf.
fn add_leaf(out: &mut ModelSource, map: &mut HashMap<u64, usize>, g: &MapGeometry, leaf: &BspLeaf) -> (res: bool)
    requires
        spec_map_ok(old(map)@, old(out).vertices@),
    ensures
        res == spec_add_leaf(spec_model_view(*old(out)), *g, *leaf) is Some,
        res ==> spec_add_leaf(spec_model_view(*old(out)), *g, *leaf) == Some(spec_model_view(*final(out))),
        res ==> spec_map_ok(final(map)@, final(out).vertices@),
{
    let first = leaf.first_mark_surface as usize;
    let count = leaf.mark_surfaces as usize;
    if first + count > 0xffff {
        return false;
    }
    let ghost m0 = spec_model_view(*old(out));
    let mut k: usize = 0;
    while k < count
        invariant
            first == leaf.first_mark_surface,
            count == leaf.mark_surfaces,
            first + count <= 0xffff,
            0 <= k <= count,
            m0 == spec_model_view(*old(out)),
            spec_add_leaf_upto(m0, *g, *leaf, k as int) == Some(spec_model_view(*out)),
            spec_map_ok(map@, out.vertices@),
        decreases count - k,
    {
        let index = first + k;
        let ok = if index >= g.mark_surfaces.len() {
            false
        } else {
            let face_index = g.mark_surfaces[index].0 as usize;
            if face_index >= g.faces.len() {
                false
            } else if g.faces[face_index].texture_info == 0 {
                true
            } else {
                add_face(out, map, g, &g.faces[face_index])
            }
        };
        if !ok {
            proof {
                lemma_leaf_upto_stays_none(m0, *g, *leaf, k + 1, count as int);
            }
            return false;
        }
        k += 1;
    }
    true
}

/// Adds the leaves below `node_index`, in tree order.
fn walk(
    out: &mut ModelSource,
    map: &mut HashMap<u64, usize>,
    g: &MapGeometry,
    node_index: i16,
    allow_zero: bool,
    fuel: usize,
) -> (res: bool)
    requires
        spec_map_ok(old(map)@, old(out).vertices@),
    ensures
        res == spec_walk(spec_model_view(*old(out)), *g, node_index as int, allow_zero, fuel as nat) is Some,
        res ==> spec_walk(spec_model_view(*old(out)), *g, node_index as int, allow_zero, fuel as nat) == Some(
            spec_model_view(*final(out)),
        ),
        res ==> spec_map_ok(final(map)@, final(out).vertices@),
    decreases fuel,
{
    if node_index > 0 || (node_index == 0 && allow_zero) {
        if fuel == 0 || node_index as usize >= g.nodes.len() {
            return false;
        }
        let node = &g.nodes[node_index as usize];
        if !walk(out, map, g, node.children[0], false, fuel - 1) {
            return false;
        }
        walk(out, map, g, node.children[1], false, fuel - 1)
    } else {
        if node_index == 0 {
            return false;
        }
        let leaf_index: usize = (-1 - node_index as i32) as usize;
        if leaf_index >= g.leaves.len() {
            return false;
        }
        add_leaf(out, map, g, &g.leaves[leaf_index])
    }
}

/// The model of the subtree at `node_index` (node 0 is the root only when
/// `allow_zero` holds); `None` when a record it needs is missing or the tree
/// has a cycle.
pub fn convert_node(g: &MapGeometry, node_index: i16, allow_zero: bool) -> (res: Option<ModelSource>)
    requires
        node_index != 0 || allow_zero,
    ensures
        match spec_convert(*g, node_index as int, allow_zero) {
            Some(m) => res matches Some(model) && spec_model_view(model) == m,
            None => res is None,
        },
{
    let mut out = ModelSource { indices: Vec::new(), vertices: Vec::new(), meshes: Vec::new() };
    let mut map: HashMap<u64, usize> = HashMap::new();
    proof {
        assert(out.indices@ == Seq::<u32>::empty());
    }
    if walk(&mut out, &mut map, g, node_index, allow_zero, g.nodes.len()) {
        Some(out)
    } else {
        None
    }
}

/// The model of the whole map, from the root node.
pub fn convert(g: &MapGeometry) -> (res: Option<ModelSource>)
    ensures
        match spec_convert(*g, 0, true) {
            Some(m) => res matches Some(model) && spec_model_view(model) == m,
            None => res is None,
        },
{
    convert_node(g, 0, true)
}

/// The root node of a map model, as the 16-bit index that the tree uses.
pub open spec fn spec_model_root(model: BspModel) -> i16 {
    model.head_nodes[0] as i16
}

/// The model of a map model: the subtree at its root, where a root of 0 is
/// the map's root node.
pub open spec fn spec_convert_model(g: MapGeometry, model: BspModel) -> Option<SpecModel> {
    spec_convert(g, spec_model_root(model) as int, spec_model_root(model) == 0)
}

/// The model of each of the map's brush models, from its first head node.
pub fn convert_models(g: &MapGeometry, bsp_models: &[BspModel]) -> (res: Option<Vec<ModelSource>>)
    ensures
        res is Some <==> forall|i: int|
            0 <= i < bsp_models@.len() ==> (#[trigger] spec_convert_model(*g, bsp_models@[i])) is Some,
        res matches Some(models) ==> models@.len() == bsp_models@.len() && forall|i: int|
            0 <= i < bsp_models@.len() ==> spec_convert_model(*g, bsp_models@[i]) == Some(
                spec_model_view(#[trigger] models@[i]),
            ),
{
    let mut models: Vec<ModelSource> = Vec::new();
    let n = bsp_models.len();
    let mut i: usize = 0;
    while i < n
        invariant
            n == bsp_models@.len(),
            0 <= i <= n,
            models@.len() == i,
            forall|j: int|
                0 <= j < i ==> spec_convert_model(*g, bsp_models@[j]) == Some(
                    spec_model_view(#[trigger] models@[j]),
                ),
        decreases n - i,
    {
        let node_index = bsp_models[i].head_nodes[0] as i16;
        match convert_node(g, node_index, node_index == 0) {
            Some(model) => models.push(model),
            None => {
                assert(spec_convert_model(*g, bsp_models@[i as int]) is None);
                return None;
            },
        }
        i += 1;
    }
    assert forall|j: int| 0 <= j < n implies (#[trigger] spec_convert_model(*g, bsp_models@[j])) is Some by {
        assert(spec_convert_model(*g, bsp_models@[j]) == Some(spec_model_view(models@[j])));
    }
    Some(models)
}

// ---- what adding corners and faces does ----------------------------------------

proof fn lemma_vertex_index_spec(verts: Seq<ExportVertex>, c: SharedVertex, k: int)
    requires
        0 <= k,
    ensures
        spec_vertex_index_from(verts, c, k) == -1 ==> forall|j: int| k <= j < verts.len() ==> (#[trigger] verts[j]).shared != c,
        spec_vertex_index_from(verts, c, k) != -1 ==> k <= spec_vertex_index_from(verts, c, k) < verts.len()
            && verts[spec_vertex_index_from(verts, c, k)].shared == c,
    decreases verts.len() - k,
{
    if k < verts.len() && verts[k].shared != c {
        lemma_vertex_index_spec(verts, c, k + 1);
    }
}

/// No two vertices stand for the same corner.
pub open spec fn spec_corners_distinct(verts: Seq<ExportVertex>) -> bool {
    forall|a: int, b: int| 0 <= a < b < verts.len() ==> (#[trigger] verts[a]).shared != (#[trigger] verts[b]).shared
}

/// Adding corners keeps the indices and vertices already there, adds one
/// index per corner, and the index added for corner `i` refers to a vertex
/// that stands for that corner; a vertex is added only for a corner that no
/// vertex stood for, with the given plane, so no two vertices ever stand for
/// the same corner.
pub proof fn lemma_add_corners_indexed(st: (Seq<u32>, Seq<ExportVertex>), cs: Seq<SharedVertex>, plane: usize, vc: nat)
    requires
        st.1.len() + cs.len() < 0x1_0000_0000,
        spec_corners_distinct(st.1),
    ensures
        spec_add_corners(st, cs, plane, vc) matches Some(s2) ==> {
            &&& s2.0.len() == st.0.len() + cs.len()
            &&& s2.0.subrange(0, st.0.len() as int) == st.0
            &&& st.1.len() <= s2.1.len() <= st.1.len() + cs.len()
            &&& s2.1.subrange(0, st.1.len() as int) == st.1
            &&& spec_corners_distinct(s2.1)
            &&& forall|i: int| 0 <= i < cs.len() ==> (#[trigger] s2.0[st.0.len() + i]) < s2.1.len()
                && s2.1[s2.0[st.0.len() + i] as int].shared == cs[i]
            &&& forall|v: int| st.1.len() <= v < s2.1.len() ==> (#[trigger] s2.1[v]).plane == plane
                && s2.1[v].shared.vertex < vc
        },
    decreases cs.len(),
{
    if cs.len() > 0 {
        let prev = cs.drop_last();
        lemma_add_corners_indexed(st, prev, plane, vc);
        match spec_add_corners(st, prev, plane, vc) {
            Some(s1) => {
                let c = cs.last();
                let k = spec_vertex_index_from(s1.1, c, 0);
                lemma_vertex_index_spec(s1.1, c, 0);
                match spec_add_corner(s1, c, plane, vc) {
                    Some(s2) => {
                        assert(s2.0.subrange(0, s1.0.len() as int) =~= s1.0);
                        assert(s2.1.subrange(0, s1.1.len() as int) =~= s1.1);
                        assert(s2.0.subrange(0, st.0.len() as int) =~= s1.0.subrange(0, st.0.len() as int));
                        assert(s2.1.subrange(0, st.1.len() as int) =~= s1.1.subrange(0, st.1.len() as int));
                        assert forall|i: int| 0 <= i < cs.len() implies (#[trigger] s2.0[st.0.len() + i]) < s2.1.len()
                            && s2.1[s2.0[st.0.len() + i] as int].shared == cs[i] by {
                            if i < prev.len() {
                                assert(s2.0[st.0.len() + i] == s1.0[st.0.len() + i]);
                                assert(s1.0[st.0.len() + i] < s1.1.len() && s1.1[s1.0[st.0.len() + i] as int].shared == prev[i]);
                                assert(s2.1[s1.0[st.0.len() + i] as int] == s1.1[s1.0[st.0.len() + i] as int]);
                            }
                        }
                        assert forall|a: int, b: int| 0 <= a < b < s2.1.len() implies (#[trigger] s2.1[a]).shared
                            != (#[trigger] s2.1[b]).shared by {
                            if b >= s1.1.len() {
                                assert(s2.1[a] == s1.1[a]);
                            } else {
                                assert(s2.1[a] == s1.1[a]);
                                assert(s2.1[b] == s1.1[b]);
                            }
                        }
                        assert forall|v: int| st.1.len() <= v < s2.1.len() implies (#[trigger] s2.1[v]).plane == plane
                            && s2.1[v].shared.vertex < vc by {
                            if v < s1.1.len() {
                                assert(s2.1[v] == s1.1[v]);
                            }
                        }
                    },
                    None => {},
                }
            },
            None => {},
        }
    }
}

/// The starting vertex of surface edge `se` read from the edges: the first
/// vertex of edge `se` when positive, the second of edge `-se` otherwise.
pub open spec fn spec_surface_edge_start(se: i32, edges: Seq<BspEdge>) -> int {
    if se > 0 {
        edges[se as int].vertices[0] as int
    } else {
        edges[-(se as int)].vertices[1] as int
    }
}

/// Adding a face adds `3 (n - 2)` indices for its `n` edges, keeps what was
/// there, and adds one mesh over the new indices with the texture of the
/// face's texture info; triangle `t` refers, in order, to vertices standing
/// for the starting vertices of surface edges `t + 2`, `t + 1` and `0` of the
/// face, each drawn with the face's texture info.
pub proof fn lemma_add_face_triangles(m: SpecModel, g: MapGeometry, f: BspFace)
    requires
        m.1.len() + 3 * f.edges < 0x1_0000_0000,
        spec_corners_distinct(m.1),
    ensures
        spec_add_face(m, g, f) matches Some(m2) ==> {
            let n = f.edges as int;
            let base = m.0.len() as int;
            &&& m2.0.len() == base + 3 * (n - 2)
            &&& m2.0.subrange(0, base) == m.0
            &&& m2.1.subrange(0, m.1.len() as int) == m.1
            &&& spec_corners_distinct(m2.1)
            &&& m2.2 == m.2.push(Mesh {
                texture_index: g.texture_infos@[f.texture_info as int].texture_index as usize,
                indices_range: core::ops::Range { start: base as usize, end: m2.0.len() as usize },
            })
            &&& forall|t: int, c: int| 0 <= t < n - 2 && 0 <= c < 3 ==> {
                let x = #[trigger] m2.0[base + 3 * t + c];
                let e = if c == 0 { t + 2 } else if c == 1 { t + 1 } else { 0 };
                &&& x < m2.1.len()
                &&& m2.1[x as int].shared.vertex == spec_surface_edge_start(
                    g.surface_edges@[f.first_edge + e].0,
                    g.edges@,
                )
                &&& m2.1[x as int].shared.texture == f.texture_info
            }
        },
{
    if spec_face_ok(g, f) {
        let cs = spec_face_triangles(f, g.surface_edges@, g.edges@);
        lemma_add_corners_indexed((m.0, m.1), cs, f.plane as usize, g.vertex_count as nat);
        match spec_add_face(m, g, f) {
            Some(m2) => {
                let n = f.edges as int;
                let base = m.0.len() as int;
                assert forall|t: int, c: int| 0 <= t < n - 2 && 0 <= c < 3 implies {
                    let x = #[trigger] m2.0[base + 3 * t + c];
                    let e = if c == 0 { t + 2 } else if c == 1 { t + 1 } else { 0 };
                    &&& x < m2.1.len()
                    &&& m2.1[x as int].shared.vertex == spec_surface_edge_start(
                        g.surface_edges@[f.first_edge + e].0,
                        g.edges@,
                    )
                    &&& m2.1[x as int].shared.texture == f.texture_info
                } by {
                    let i = 3 * t + c;
                    assert(i / 3 == t && i % 3 == c);
                    assert(m2.0[base + i] < m2.1.len() && m2.1[m2.0[base + i] as int].shared == cs[i]);
                    let e = if c == 0 { t + 2 } else if c == 1 { t + 1 } else { 0 };
                    assert(0 <= e < n && (e == 0 || n > 2));
                    assert(spec_edge_ok(g.surface_edges@[f.first_edge + e], g.edges@));
                }
            },
            None => {},
        }
    }
}

// ---- what every converted model satisfies -------------------------------------

/// Index `x` refers to one of `n` vertices (indices are 32 bits wide, so
/// this says nothing of a model with more vertices than that).
pub open spec fn spec_index_ok(x: u32, n: int) -> bool {
    (x as int) < n || n > 0x1_0000_0000
}

/// Every index refers to a vertex, and every mesh covers a range of the
/// indices (of a model whose indices can be counted in a `usize`).
pub open spec fn spec_model_well_formed(m: SpecModel) -> bool {
    &&& forall|i: int| 0 <= i < m.0.len() ==> spec_index_ok(#[trigger] m.0[i], m.1.len() as int)
    &&& m.0.len() <= usize::MAX ==> forall|j: int|
        0 <= j < m.2.len() ==> (#[trigger] m.2[j]).indices_range.start <= m.2[j].indices_range.end
            <= m.0.len()
}

proof fn lemma_add_corners_ok(st: (Seq<u32>, Seq<ExportVertex>), cs: Seq<SharedVertex>, plane: usize, vc: nat)
    requires
        forall|i: int| 0 <= i < st.0.len() ==> spec_index_ok(#[trigger] st.0[i], st.1.len() as int),
    ensures
        spec_add_corners(st, cs, plane, vc) matches Some(s2) ==> {
            &&& s2.0.len() == st.0.len() + cs.len()
            &&& s2.1.len() >= st.1.len()
            &&& forall|i: int| 0 <= i < s2.0.len() ==> spec_index_ok(#[trigger] s2.0[i], s2.1.len() as int)
        },
    decreases cs.len(),
{
    if cs.len() > 0 {
        lemma_add_corners_ok(st, cs.drop_last(), plane, vc);
        match spec_add_corners(st, cs.drop_last(), plane, vc) {
            Some(s1) => {
                let c = cs.last();
                let k = spec_vertex_index_from(s1.1, c, 0);
                lemma_vertex_index_range(s1.1, c, 0);
                match spec_add_corner(s1, c, plane, vc) {
                    Some(s2) => {
                        assert forall|i: int| 0 <= i < s2.0.len() implies spec_index_ok(#[trigger] s2.0[i], s2.1.len() as int) by {
                            if i < s1.0.len() {
                                assert(s2.0[i] == s1.0[i]);
                            } else if k >= 0 {
                                assert(s2.0[i] == k as u32);
                            } else {
                                assert(s2.0[i] == s1.1.len() as u32);
                            }
                        }
                    },
                    None => {},
                }
            },
            None => {},
        }
    }
}

proof fn lemma_vertex_index_range(verts: Seq<ExportVertex>, c: SharedVertex, k: int)
    requires
        0 <= k,
    ensures
        spec_vertex_index_from(verts, c, k) == -1 || k <= spec_vertex_index_from(verts, c, k) < verts.len(),
    decreases verts.len() - k,
{
    if k < verts.len() && verts[k].shared != c {
        lemma_vertex_index_range(verts, c, k + 1);
    }
}

proof fn lemma_add_face_ok(m: SpecModel, g: MapGeometry, f: BspFace)
    requires
        spec_model_well_formed(m),
    ensures
        spec_add_face(m, g, f) matches Some(m2) ==> spec_model_well_formed(m2),
{
    if spec_face_ok(g, f) {
        let cs = spec_face_triangles(f, g.surface_edges@, g.edges@);
        lemma_add_corners_ok((m.0, m.1), cs, f.plane as usize, g.vertex_count as nat);
        match spec_add_face(m, g, f) {
            Some(m2) => {
                if m2.0.len() <= usize::MAX {
                    assert forall|j: int| 0 <= j < m2.2.len() implies (#[trigger] m2.2[j]).indices_range.start
                        <= m2.2[j].indices_range.end <= m2.0.len() by {
                        if j < m.2.len() {
                            assert(m2.2[j] == m.2[j]);
                        }
                    }
                }
            },
            None => {},
        }
    }
}

proof fn lemma_add_leaf_upto_ok(m: SpecModel, g: MapGeometry, leaf: BspLeaf, k: int)
    requires
        spec_model_well_formed(m),
    ensures
        spec_add_leaf_upto(m, g, leaf, k) matches Some(m2) ==> spec_model_well_formed(m2),
    decreases k,
{
    if k > 0 {
        lemma_add_leaf_upto_ok(m, g, leaf, k - 1);
        match spec_add_leaf_upto(m, g, leaf, k - 1) {
            Some(m1) => {
                let i = leaf.first_mark_surface + k - 1;
                if 0 <= i < g.mark_surfaces@.len() {
                    let fi = g.mark_surfaces@[i].0 as int;
                    if fi < g.faces@.len() && g.faces@[fi].texture_info != 0 {
                        lemma_add_face_ok(m1, g, g.faces@[fi]);
                    }
                }
            },
            None => {},
        }
    }
}

proof fn lemma_walk_ok(m: SpecModel, g: MapGeometry, node_index: int, allow_zero: bool, fuel: nat)
    requires
        spec_model_well_formed(m),
    ensures
        spec_walk(m, g, node_index, allow_zero, fuel) matches Some(m2) ==> spec_model_well_formed(m2),
    decreases fuel,
{
    if node_index > 0 || (node_index == 0 && allow_zero) {
        if fuel > 0 && node_index < g.nodes@.len() {
            let n = g.nodes@[node_index];
            lemma_walk_ok(m, g, n.children[0] as int, false, (fuel - 1) as nat);
            match spec_walk(m, g, n.children[0] as int, false, (fuel - 1) as nat) {
                Some(m1) => lemma_walk_ok(m1, g, n.children[1] as int, false, (fuel - 1) as nat),
                None => {},
            }
        }
    } else {
        let leaf_index = -node_index - 1;
        if 0 <= leaf_index < g.leaves@.len() {
            lemma_add_leaf_upto_ok(m, g, g.leaves@[leaf_index], g.leaves@[leaf_index].mark_surfaces as int);
        }
    }
}

/// Every index of a converted model refers to one of its vertices, and every
/// mesh covers a range of its indices.
pub proof fn lemma_converted_model_well_formed(g: MapGeometry, node_index: int, allow_zero: bool)
    ensures
        spec_convert(g, node_index, allow_zero) matches Some(m) ==> spec_model_well_formed(m),
{
    lemma_walk_ok((Seq::empty(), Seq::empty(), Seq::empty()), g, node_index, allow_zero, g.nodes@.len());
}

} // verus!
