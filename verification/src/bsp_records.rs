//! The fixed-size records stored in the lumps of a BSP file, and how each is
//! decoded from its little-endian bytes.
use vstd::prelude::*;
use crate::bytes::{
    F32Bits, spec_u16_le, spec_u32_le, spec_i16_le, spec_i32_le, le_u16, le_u32, le_i16, le_i32, byte_array_16,
    spec_bytes2, spec_bytes4, spec_signed2, spec_signed4, lemma_byte_values, lemma_two_byte_values,
};

verus! {

/// A record type that a lump holds as a packed array.
pub trait LumpRecord: Sized {
    /// The size of one record in bytes.
    spec fn spec_size() -> nat;

    /// The record stored in `b` at byte offset `pos`.
    spec fn spec_decode_at(b: Seq<u8>, pos: int) -> Self;

    fn size() -> (s: usize)
        ensures
            s as nat == Self::spec_size(),
            s > 0,
    ;

    fn decode_at(b: &[u8], pos: usize) -> (r: Self)
        requires
            pos + Self::spec_size() <= b@.len(),
        ensures
            r == Self::spec_decode_at(b@, pos as int),
    ;
}

/// A polygon of the map.
#[derive(Copy, Clone, Debug)]
pub struct BspFace {
    pub plane: u16,
    pub plane_side: u16,
    pub first_edge: u32,
    pub edges: u16,
    pub texture_info: u16,
    pub styles: [u8; 4],
    pub lightmap_offset: i32,
}

impl LumpRecord for BspFace {
    open spec fn spec_size() -> nat {
        20
    }

    open spec fn spec_decode_at(b: Seq<u8>, pos: int) -> Self {
        BspFace {
            plane: spec_u16_le(b, pos),
            plane_side: spec_u16_le(b, pos + 2),
            first_edge: spec_u32_le(b, pos + 4),
            edges: spec_u16_le(b, pos + 8),
            texture_info: spec_u16_le(b, pos + 10),
            styles: [b[pos + 12], b[pos + 13], b[pos + 14], b[pos + 15]],
            lightmap_offset: spec_i32_le(b, pos + 16),
        }
    }

    fn size() -> (s: usize) {
        20
    }

    fn decode_at(b: &[u8], pos: usize) -> (r: Self) {
        let _len = b.len();
        BspFace {
            plane: le_u16(b, pos),
            plane_side: le_u16(b, pos + 2),
            first_edge: le_u32(b, pos + 4),
            edges: le_u16(b, pos + 8),
            texture_info: le_u16(b, pos + 10),
            styles: [b[pos + 12], b[pos + 13], b[pos + 14], b[pos + 15]],
            lightmap_offset: le_i32(b, pos + 16),
        }
    }
}

/// An interior node of the visibility tree.
#[derive(Copy, Clone, Debug)]
pub struct BspNode {
    pub plane: u32,
    pub children: [i16; 2],
    pub mins: [i16; 3],
    pub maxs: [i16; 3],
    pub first_face: u16,
    pub faces: u16,
}

impl LumpRecord for BspNode {
    open spec fn spec_size() -> nat {
        24
    }

    open spec fn spec_decode_at(b: Seq<u8>, pos: int) -> Self {
        BspNode {
            plane: spec_u32_le(b, pos),
            children: [spec_i16_le(b, pos + 4), spec_i16_le(b, pos + 6)],
            mins: [spec_i16_le(b, pos + 8), spec_i16_le(b, pos + 10), spec_i16_le(b, pos + 12)],
            maxs: [spec_i16_le(b, pos + 14), spec_i16_le(b, pos + 16), spec_i16_le(b, pos + 18)],
            first_face: spec_u16_le(b, pos + 20),
            faces: spec_u16_le(b, pos + 22),
        }
    }

    fn size() -> (s: usize) {
        24
    }

    fn decode_at(b: &[u8], pos: usize) -> (r: Self) {
        let _len = b.len();
        BspNode {
            plane: le_u32(b, pos),
            children: [le_i16(b, pos + 4), le_i16(b, pos + 6)],
            mins: [le_i16(b, pos + 8), le_i16(b, pos + 10), le_i16(b, pos + 12)],
            maxs: [le_i16(b, pos + 14), le_i16(b, pos + 16), le_i16(b, pos + 18)],
            first_face: le_u16(b, pos + 20),
            faces: le_u16(b, pos + 22),
        }
    }
}

/// A leaf of the visibility tree.
#[derive(Copy, Clone, Debug)]
pub struct BspLeaf {
    pub contents: i32,
    pub vis_offset: i32,
    pub mins: [i16; 3],
    pub maxs: [i16; 3],
    pub first_mark_surface: u16,
    pub mark_surfaces: u16,
    pub ambient_levels: [u8; 4],
}

impl LumpRecord for BspLeaf {
    open spec fn spec_size() -> nat {
        28
    }

    open spec fn spec_decode_at(b: Seq<u8>, pos: int) -> Self {
        BspLeaf {
            contents: spec_i32_le(b, pos),
            vis_offset: spec_i32_le(b, pos + 4),
            mins: [spec_i16_le(b, pos + 8), spec_i16_le(b, pos + 10), spec_i16_le(b, pos + 12)],
            maxs: [spec_i16_le(b, pos + 14), spec_i16_le(b, pos + 16), spec_i16_le(b, pos + 18)],
            first_mark_surface: spec_u16_le(b, pos + 20),
            mark_surfaces: spec_u16_le(b, pos + 22),
            ambient_levels: [b[pos + 24], b[pos + 25], b[pos + 26], b[pos + 27]],
        }
    }

    fn size() -> (s: usize) {
        28
    }

    fn decode_at(b: &[u8], pos: usize) -> (r: Self) {
        let _len = b.len();
        BspLeaf {
            contents: le_i32(b, pos),
            vis_offset: le_i32(b, pos + 4),
            mins: [le_i16(b, pos + 8), le_i16(b, pos + 10), le_i16(b, pos + 12)],
            maxs: [le_i16(b, pos + 14), le_i16(b, pos + 16), le_i16(b, pos + 18)],
            first_mark_surface: le_u16(b, pos + 20),
            mark_surfaces: le_u16(b, pos + 22),
            ambient_levels: [b[pos + 24], b[pos + 25], b[pos + 26], b[pos + 27]],
        }
    }
}

/// An index into the face lump.
#[derive(Copy, Clone, Debug)]
pub struct BspMarkSurface(pub u16);

impl LumpRecord for BspMarkSurface {
    open spec fn spec_size() -> nat {
        2
    }

    open spec fn spec_decode_at(b: Seq<u8>, pos: int) -> Self {
        BspMarkSurface(spec_u16_le(b, pos))
    }

    fn size() -> (s: usize) {
        2
    }

    fn decode_at(b: &[u8], pos: usize) -> (r: Self) {
        let _len = b.len();
        BspMarkSurface(le_u16(b, pos))
    }
}

/// A signed index into the edge lump; a negative value walks the edge backwards.
#[derive(Copy, Clone, Debug)]
pub struct BspSurfaceEdge(pub i32);

impl LumpRecord for BspSurfaceEdge {
    open spec fn spec_size() -> nat {
        4
    }

    open spec fn spec_decode_at(b: Seq<u8>, pos: int) -> Self {
        BspSurfaceEdge(spec_i32_le(b, pos))
    }

    fn size() -> (s: usize) {
        4
    }

    fn decode_at(b: &[u8], pos: usize) -> (r: Self) {
        let _len = b.len();
        BspSurfaceEdge(le_i32(b, pos))
    }
}

/// Two indices into the vertex lump.
#[derive(Copy, Clone, Debug)]
pub struct BspEdge {
    pub vertices: [u16; 2],
}

impl LumpRecord for BspEdge {
    open spec fn spec_size() -> nat {
        4
    }

    open spec fn spec_decode_at(b: Seq<u8>, pos: int) -> Self {
        BspEdge { vertices: [spec_u16_le(b, pos), spec_u16_le(b, pos + 2)] }
    }

    fn size() -> (s: usize) {
        4
    }

    fn decode_at(b: &[u8], pos: usize) -> (r: Self) {
        let _len = b.len();
        BspEdge { vertices: [le_u16(b, pos), le_u16(b, pos + 2)] }
    }
}

/// A point of the map, each coordinate as the bits of an `f32`.
#[derive(Copy, Clone, Debug)]
pub struct BspVertex {
    pub x: F32Bits,
    pub y: F32Bits,
    pub z: F32Bits,
}

impl BspVertex {
    pub fn to_array(&self) -> (r: [F32Bits; 3])
        ensures
            r == [self.x, self.y, self.z],
    {
        [self.x, self.y, self.z]
    }
}

impl LumpRecord for BspVertex {
    open spec fn spec_size() -> nat {
        12
    }

    open spec fn spec_decode_at(b: Seq<u8>, pos: int) -> Self {
        BspVertex {
            x: F32Bits(spec_u32_le(b, pos)),
            y: F32Bits(spec_u32_le(b, pos + 4)),
            z: F32Bits(spec_u32_le(b, pos + 8)),
        }
    }

    fn size() -> (s: usize) {
        12
    }

    fn decode_at(b: &[u8], pos: usize) -> (r: Self) {
        let _len = b.len();
        BspVertex {
            x: F32Bits(le_u32(b, pos)),
            y: F32Bits(le_u32(b, pos + 4)),
            z: F32Bits(le_u32(b, pos + 8)),
        }
    }
}

/// The texture projection of a face.
#[derive(Copy, Clone, Debug)]
pub struct BspTextureInfo {
    pub s: [F32Bits; 3],
    pub s_shift: F32Bits,
    pub t: [F32Bits; 3],
    pub t_shift: F32Bits,
    pub texture_index: u32,
    pub flags: u32,
}

pub open spec fn spec_f32_bits3(b: Seq<u8>, pos: int) -> [F32Bits; 3] {
    [F32Bits(spec_u32_le(b, pos)), F32Bits(spec_u32_le(b, pos + 4)), F32Bits(spec_u32_le(b, pos + 8))]
}

fn f32_bits3(b: &[u8], pos: usize) -> (r: [F32Bits; 3])
    requires
        pos + 12 <= b@.len(),
    ensures
        r == spec_f32_bits3(b@, pos as int),
{
    let _len = b.len();
    [F32Bits(le_u32(b, pos)), F32Bits(le_u32(b, pos + 4)), F32Bits(le_u32(b, pos + 8))]
}

impl LumpRecord for BspTextureInfo {
    open spec fn spec_size() -> nat {
        40
    }

    open spec fn spec_decode_at(b: Seq<u8>, pos: int) -> Self {
        BspTextureInfo {
            s: spec_f32_bits3(b, pos),
            s_shift: F32Bits(spec_u32_le(b, pos + 12)),
            t: spec_f32_bits3(b, pos + 16),
            t_shift: F32Bits(spec_u32_le(b, pos + 28)),
            texture_index: spec_u32_le(b, pos + 32),
            flags: spec_u32_le(b, pos + 36),
        }
    }

    fn size() -> (s: usize) {
        40
    }

    fn decode_at(b: &[u8], pos: usize) -> (r: Self) {
        let _len = b.len();
        BspTextureInfo {
            s: f32_bits3(b, pos),
            s_shift: F32Bits(le_u32(b, pos + 12)),
            t: f32_bits3(b, pos + 16),
            t_shift: F32Bits(le_u32(b, pos + 28)),
            texture_index: le_u32(b, pos + 32),
            flags: le_u32(b, pos + 36),
        }
    }
}

/// A plane: its normal, its distance from the origin, and its axis type.
#[derive(Copy, Clone, Debug)]
pub struct BspPlane {
    pub normal: [F32Bits; 3],
    pub dist: F32Bits,
    pub ty: i32,
}

impl LumpRecord for BspPlane {
    open spec fn spec_size() -> nat {
        20
    }

    open spec fn spec_decode_at(b: Seq<u8>, pos: int) -> Self {
        BspPlane {
            normal: spec_f32_bits3(b, pos),
            dist: F32Bits(spec_u32_le(b, pos + 12)),
            ty: spec_i32_le(b, pos + 16),
        }
    }

    fn size() -> (s: usize) {
        20
    }

    fn decode_at(b: &[u8], pos: usize) -> (r: Self) {
        let _len = b.len();
        BspPlane { normal: f32_bits3(b, pos), dist: F32Bits(le_u32(b, pos + 12)), ty: le_i32(b, pos + 16) }
    }
}

/// A brush model: its bounds, origin, the roots of its trees, and its faces.
#[derive(Copy, Clone, Debug)]
pub struct BspModel {
    pub mins: [F32Bits; 3],
    pub maxs: [F32Bits; 3],
    pub origin: [F32Bits; 3],
    pub head_nodes: [i32; 4],
    pub vis_leaves: i32,
    pub first_face: i32,
    pub faces: i32,
}

impl LumpRecord for BspModel {
    open spec fn spec_size() -> nat {
        64
    }

    open spec fn spec_decode_at(b: Seq<u8>, pos: int) -> Self {
        BspModel {
            mins: spec_f32_bits3(b, pos),
            maxs: spec_f32_bits3(b, pos + 12),
            origin: spec_f32_bits3(b, pos + 24),
            head_nodes: [
                spec_i32_le(b, pos + 36),
                spec_i32_le(b, pos + 40),
                spec_i32_le(b, pos + 44),
                spec_i32_le(b, pos + 48),
            ],
            vis_leaves: spec_i32_le(b, pos + 52),
            first_face: spec_i32_le(b, pos + 56),
            faces: spec_i32_le(b, pos + 60),
        }
    }

    fn size() -> (s: usize) {
        64
    }

    fn decode_at(b: &[u8], pos: usize) -> (r: Self) {
        let _len = b.len();
        BspModel {
            mins: f32_bits3(b, pos),
            maxs: f32_bits3(b, pos + 12),
            origin: f32_bits3(b, pos + 24),
            head_nodes: [
                le_i32(b, pos + 36),
                le_i32(b, pos + 40),
                le_i32(b, pos + 44),
                le_i32(b, pos + 48),
            ],
            vis_leaves: le_i32(b, pos + 52),
            first_face: le_i32(b, pos + 56),
            faces: le_i32(b, pos + 60),
        }
    }
}

/// A node of a collision hull tree.
#[derive(Copy, Clone, Debug)]
pub struct BspClipNode {
    pub plane_index: i32,
    pub children: [i16; 2],
}

impl LumpRecord for BspClipNode {
    open spec fn spec_size() -> nat {
        8
    }

    open spec fn spec_decode_at(b: Seq<u8>, pos: int) -> Self {
        BspClipNode {
            plane_index: spec_i32_le(b, pos),
            children: [spec_i16_le(b, pos + 4), spec_i16_le(b, pos + 6)],
        }
    }

    fn size() -> (s: usize) {
        8
    }

    fn decode_at(b: &[u8], pos: usize) -> (r: Self) {
        let _len = b.len();
        BspClipNode { plane_index: le_i32(b, pos), children: [le_i16(b, pos + 4), le_i16(b, pos + 6)] }
    }
}

/// The number of textures in the texture lump.
#[derive(Copy, Clone, Debug)]
pub struct BspTextureHeader {
    pub num_textures: u32,
}

/// The header of one texture in the texture lump: its name, its size and the
/// offsets of its four mip levels (0 when the image lives in a WAD archive).
#[derive(Copy, Clone, Debug)]
pub struct BspMipTextureHeader {
    pub name: [u8; 16],
    pub width: u32,
    pub height: u32,
    pub offsets: [u32; 4],
}

impl BspMipTextureHeader {
    pub open spec fn spec_decode_at(b: Seq<u8>, pos: int) -> Self {
        BspMipTextureHeader {
            name: [
                b[pos], b[pos + 1], b[pos + 2], b[pos + 3], b[pos + 4], b[pos + 5], b[pos + 6],
                b[pos + 7], b[pos + 8], b[pos + 9], b[pos + 10], b[pos + 11], b[pos + 12],
                b[pos + 13], b[pos + 14], b[pos + 15],
            ],
            width: spec_u32_le(b, pos + 16),
            height: spec_u32_le(b, pos + 20),
            offsets: [
                spec_u32_le(b, pos + 24),
                spec_u32_le(b, pos + 28),
                spec_u32_le(b, pos + 32),
                spec_u32_le(b, pos + 36),
            ],
        }
    }

    pub fn decode_at(b: &[u8], pos: usize) -> (r: Self)
        requires
            pos + 40 <= b@.len(),
        ensures
            r == Self::spec_decode_at(b@, pos as int),
    {
        let _len = b.len();
        let name = byte_array_16(b, pos);
        proof {
            assert(name@ =~= b@.subrange(pos as int, pos + 16));
        }
        let r = BspMipTextureHeader {
            name,
            width: le_u32(b, pos + 16),
            height: le_u32(b, pos + 20),
            offsets: [le_u32(b, pos + 24), le_u32(b, pos + 28), le_u32(b, pos + 32), le_u32(b, pos + 36)],
        };
        proof {
            let spec_name = Self::spec_decode_at(b@, pos as int).name;
            assert(r.name@ =~= spec_name@);
            vstd::array::axiom_array_ext_equal(r.name, spec_name);
        }
        r
    }
}

// ---- byte layout of the records ---------------------------------------------

/// A face record is, in order: the plane (2 bytes), the side (2), the first
/// edge (4), the number of edges (2), the texture info (2), four light
/// styles (1 each) and the lightmap offset (4, signed).
pub proof fn lemma_face_layout(b: Seq<u8>, pos: int)
    requires
        0 <= pos,
        pos + 20 <= b.len(),
    ensures
        ({
            let f = BspFace::spec_decode_at(b, pos);
            &&& f.plane as int == spec_bytes2(b, pos)
            &&& f.plane_side as int == spec_bytes2(b, pos + 2)
            &&& f.first_edge as int == spec_bytes4(b, pos + 4)
            &&& f.edges as int == spec_bytes2(b, pos + 8)
            &&& f.texture_info as int == spec_bytes2(b, pos + 10)
            &&& f.styles@ == b.subrange(pos + 12, pos + 16)
            &&& f.lightmap_offset as int == spec_signed4(b, pos + 16)
        }),
{
    lemma_byte_values(b, pos);
    lemma_byte_values(b, pos + 4);
    lemma_byte_values(b, pos + 8);
    lemma_byte_values(b, pos + 16);
    lemma_two_byte_values(b, pos + 2);
    lemma_two_byte_values(b, pos + 10);
    assert(BspFace::spec_decode_at(b, pos).styles@ =~= b.subrange(pos + 12, pos + 16));
}

/// A node record is, in order: the plane (4 bytes), the two children (2
/// each, signed), the mins and maxs (three of 2 each, signed), the first
/// face (2) and the number of faces (2).
pub proof fn lemma_node_layout(b: Seq<u8>, pos: int)
    requires
        0 <= pos,
        pos + 24 <= b.len(),
    ensures
        ({
            let n = BspNode::spec_decode_at(b, pos);
            &&& n.plane as int == spec_bytes4(b, pos)
            &&& forall|k: int| 0 <= k < 2 ==> #[trigger] n.children[k] as int == spec_signed2(b, pos + 4 + 2 * k)
            &&& forall|k: int| 0 <= k < 3 ==> #[trigger] n.mins[k] as int == spec_signed2(b, pos + 8 + 2 * k)
            &&& forall|k: int| 0 <= k < 3 ==> #[trigger] n.maxs[k] as int == spec_signed2(b, pos + 14 + 2 * k)
            &&& n.first_face as int == spec_bytes2(b, pos + 20)
            &&& n.faces as int == spec_bytes2(b, pos + 22)
        }),
{
    lemma_byte_values(b, pos);
    lemma_two_byte_values(b, pos + 4);
    lemma_two_byte_values(b, pos + 6);
    lemma_two_byte_values(b, pos + 8);
    lemma_two_byte_values(b, pos + 10);
    lemma_two_byte_values(b, pos + 12);
    lemma_two_byte_values(b, pos + 14);
    lemma_two_byte_values(b, pos + 16);
    lemma_two_byte_values(b, pos + 18);
    lemma_two_byte_values(b, pos + 20);
    lemma_two_byte_values(b, pos + 22);
}

/// A leaf record is, in order: the contents (4 bytes, signed), the
/// visibility offset (4, signed), the mins and maxs (three of 2 each,
/// signed), the first mark surface (2), the number of mark surfaces (2) and
/// four ambient levels (1 each).
pub proof fn lemma_leaf_layout(b: Seq<u8>, pos: int)
    requires
        0 <= pos,
        pos + 28 <= b.len(),
    ensures
        ({
            let l = BspLeaf::spec_decode_at(b, pos);
            &&& l.contents as int == spec_signed4(b, pos)
            &&& l.vis_offset as int == spec_signed4(b, pos + 4)
            &&& forall|k: int| 0 <= k < 3 ==> #[trigger] l.mins[k] as int == spec_signed2(b, pos + 8 + 2 * k)
            &&& forall|k: int| 0 <= k < 3 ==> #[trigger] l.maxs[k] as int == spec_signed2(b, pos + 14 + 2 * k)
            &&& l.first_mark_surface as int == spec_bytes2(b, pos + 20)
            &&& l.mark_surfaces as int == spec_bytes2(b, pos + 22)
            &&& l.ambient_levels@ == b.subrange(pos + 24, pos + 28)
        }),
{
    lemma_byte_values(b, pos);
    lemma_byte_values(b, pos + 4);
    lemma_two_byte_values(b, pos + 8);
    lemma_two_byte_values(b, pos + 10);
    lemma_two_byte_values(b, pos + 12);
    lemma_two_byte_values(b, pos + 14);
    lemma_two_byte_values(b, pos + 16);
    lemma_two_byte_values(b, pos + 18);
    lemma_two_byte_values(b, pos + 20);
    lemma_two_byte_values(b, pos + 22);
    assert(BspLeaf::spec_decode_at(b, pos).ambient_levels@ =~= b.subrange(pos + 24, pos + 28));
}

/// A mark surface is the two-byte index of a face; a surface edge the
/// four-byte signed index of an edge; an edge two two-byte vertex indices;
/// a clip node a four-byte signed plane index and two signed two-byte
/// children.
pub proof fn lemma_small_record_layouts(b: Seq<u8>, pos: int)
    requires
        0 <= pos,
        pos + 8 <= b.len(),
    ensures
        BspMarkSurface::spec_decode_at(b, pos).0 as int == spec_bytes2(b, pos),
        BspSurfaceEdge::spec_decode_at(b, pos).0 as int == spec_signed4(b, pos),
        BspEdge::spec_decode_at(b, pos).vertices[0] as int == spec_bytes2(b, pos),
        BspEdge::spec_decode_at(b, pos).vertices[1] as int == spec_bytes2(b, pos + 2),
        BspClipNode::spec_decode_at(b, pos).plane_index as int == spec_signed4(b, pos),
        BspClipNode::spec_decode_at(b, pos).children[0] as int == spec_signed2(b, pos + 4),
        BspClipNode::spec_decode_at(b, pos).children[1] as int == spec_signed2(b, pos + 6),
{
    lemma_byte_values(b, pos);
    lemma_byte_values(b, pos + 4);
    lemma_two_byte_values(b, pos + 2);
    lemma_two_byte_values(b, pos + 6);
}

/// A vertex is three four-byte floats; a plane three four-byte floats of
/// its normal, its distance and a four-byte signed type; a texture info the
/// three floats of `s`, its shift, the three of `t`, its shift, then the
/// texture index and the flags (four bytes each).
pub proof fn lemma_float_record_layouts(b: Seq<u8>, pos: int)
    requires
        0 <= pos,
        pos + 40 <= b.len(),
    ensures
        BspVertex::spec_decode_at(b, pos).x.0 as int == spec_bytes4(b, pos),
        BspVertex::spec_decode_at(b, pos).y.0 as int == spec_bytes4(b, pos + 4),
        BspVertex::spec_decode_at(b, pos).z.0 as int == spec_bytes4(b, pos + 8),
        forall|k: int| 0 <= k < 3 ==> (#[trigger] BspPlane::spec_decode_at(b, pos).normal[k]).0 as int
            == spec_bytes4(b, pos + 4 * k),
        BspPlane::spec_decode_at(b, pos).dist.0 as int == spec_bytes4(b, pos + 12),
        BspPlane::spec_decode_at(b, pos).ty as int == spec_signed4(b, pos + 16),
        forall|k: int| 0 <= k < 3 ==> (#[trigger] BspTextureInfo::spec_decode_at(b, pos).s[k]).0 as int
            == spec_bytes4(b, pos + 4 * k),
        BspTextureInfo::spec_decode_at(b, pos).s_shift.0 as int == spec_bytes4(b, pos + 12),
        forall|k: int| 0 <= k < 3 ==> (#[trigger] BspTextureInfo::spec_decode_at(b, pos).t[k]).0 as int
            == spec_bytes4(b, pos + 16 + 4 * k),
        BspTextureInfo::spec_decode_at(b, pos).t_shift.0 as int == spec_bytes4(b, pos + 28),
        BspTextureInfo::spec_decode_at(b, pos).texture_index as int == spec_bytes4(b, pos + 32),
        BspTextureInfo::spec_decode_at(b, pos).flags as int == spec_bytes4(b, pos + 36),
{
    lemma_byte_values(b, pos + 0);
    lemma_byte_values(b, pos + 4);
    lemma_byte_values(b, pos + 8);
    lemma_byte_values(b, pos + 12);
    lemma_byte_values(b, pos + 16);
    lemma_byte_values(b, pos + 20);
    lemma_byte_values(b, pos + 24);
    lemma_byte_values(b, pos + 28);
    lemma_byte_values(b, pos + 32);
    lemma_byte_values(b, pos + 36);
}

/// A model record is, in order: the mins, maxs and origin (three four-byte
/// floats each), the four head nodes, the visible leaves, the first face and
/// the number of faces (four bytes each, signed).
pub proof fn lemma_model_layout(b: Seq<u8>, pos: int)
    requires
        0 <= pos,
        pos + 64 <= b.len(),
    ensures
        ({
            let m = BspModel::spec_decode_at(b, pos);
            &&& forall|k: int| 0 <= k < 3 ==> (#[trigger] m.mins[k]).0 as int == spec_bytes4(b, pos + 4 * k)
            &&& forall|k: int| 0 <= k < 3 ==> (#[trigger] m.maxs[k]).0 as int == spec_bytes4(b, pos + 12 + 4 * k)
            &&& forall|k: int| 0 <= k < 3 ==> (#[trigger] m.origin[k]).0 as int == spec_bytes4(b, pos + 24 + 4 * k)
            &&& forall|k: int| 0 <= k < 4 ==> #[trigger] m.head_nodes[k] as int == spec_signed4(b, pos + 36 + 4 * k)
            &&& m.vis_leaves as int == spec_signed4(b, pos + 52)
            &&& m.first_face as int == spec_signed4(b, pos + 56)
            &&& m.faces as int == spec_signed4(b, pos + 60)
        }),
{
    lemma_byte_values(b, pos + 0);
    lemma_byte_values(b, pos + 4);
    lemma_byte_values(b, pos + 8);
    lemma_byte_values(b, pos + 12);
    lemma_byte_values(b, pos + 16);
    lemma_byte_values(b, pos + 20);
    lemma_byte_values(b, pos + 24);
    lemma_byte_values(b, pos + 28);
    lemma_byte_values(b, pos + 32);
    lemma_byte_values(b, pos + 36);
    lemma_byte_values(b, pos + 40);
    lemma_byte_values(b, pos + 44);
    lemma_byte_values(b, pos + 48);
    lemma_byte_values(b, pos + 52);
    lemma_byte_values(b, pos + 56);
    lemma_byte_values(b, pos + 60);
}

} // verus!
