//! The geometry and textures of an MDL file: triangle strips and fans of the
//! meshes, the vertices and normals of the models, the body parts that group
//! the models, and the palette textures.
use vstd::prelude::*;
use vstd::slice::slice_to_vec;
use crate::bytes::{
    F32Bits, spec_i16_le, spec_u32_le, bincode_i16_at, byteorder_u32_at, spec_signed2, lemma_two_byte_values,
};
use crate::image_buf::{RgbaImage, image_bytes, image_size};
use crate::palette::{create_image, spec_rgba, spec_palette_covers};
use super::records::{
    MdlRecord, MeshHeader, VertexHeader, ModelHeader, BodyPartHeader, TextureHeader,
    spec_record_seq, spec_records_fit, read_records, spec_lossy_name, spec_f32s_3,
};

verus! {

/// A corner of a triangle: indices of its vertex and normal, and its texture
/// coordinates in texels.
#[derive(Copy, Clone, Debug, PartialEq, Eq, Structural)]
pub struct MdlMeshVertex {
    pub vertex_index: u32,
    pub normal_index: u32,
    pub s: u32,
    pub t: u32,
}

/// Whether corners form a strip or a fan.
#[derive(Copy, Clone, Debug, PartialEq, Eq, Structural)]
pub enum MdlMeshSequenceType {
    TriangleStrip,
    TriangleFan,
}

/// A triangle strip or fan.
pub struct MdlMeshSequence {
    pub ty: MdlMeshSequenceType,
    pub triverts: Vec<MdlMeshVertex>,
}

/// A mesh: its strips and fans, with one skin.
pub struct MdlMesh {
    pub sequences: Vec<MdlMeshSequence>,
    pub triverts_count: u32,
    pub skin_ref: u32,
    pub normal_count: u32,
}

/// A model: its meshes, vertex positions and normals (as bits), and the bone
/// of each vertex.
pub struct MdlModel {
    pub name: String,
    pub meshes: Vec<MdlMesh>,
    pub vertices: Vec<[F32Bits; 3]>,
    pub normals: Vec<[F32Bits; 3]>,
    pub vertex_bone_indices: Vec<u8>,
}

/// A body part and its models.
pub struct MdlBodyPart {
    pub name: String,
    pub models: Vec<MdlModel>,
}

/// A texture, converted to RGBA.
pub struct MdlTexture {
    pub name: String,
    pub width: u32,
    pub height: u32,
    pub image_data: RgbaImage,
}

// ---- strips and fans --------------------------------------------------------

/// The corner stored at `pos`.
pub open spec fn spec_mesh_vertex(b: Seq<u8>, pos: int) -> MdlMeshVertex {
    let v = VertexHeader::spec_decode_at(b, pos);
    MdlMeshVertex {
        vertex_index: v.vertex_index as u32,
        normal_index: v.normal_index as u32,
        s: v.s as u32,
        t: v.t as u32,
    }
}

/// A strip or fan as plain values: its kind and its corners.
pub type SpecStrip = (MdlMeshSequenceType, Seq<MdlMeshVertex>);

/// The strips and fans stored from `pos`: each is a signed 16-bit count
/// (positive for a strip, negative for a fan) followed by that many corners
/// of 8 bytes; a zero count ends the list. `None` when the list runs past the
/// end of `b` or a count is -32768, whose negation does not fit.
pub open spec fn spec_strips(b: Seq<u8>, pos: int) -> Option<Seq<SpecStrip>>
    decreases b.len() - pos,
{
    if pos < 0 || pos + 2 > b.len() {
        None
    } else {
        let n = spec_i16_le(b, pos);
        if n == 0 {
            Some(Seq::empty())
        } else if n == -32768 {
            None
        } else {
            let k: int = if n > 0 { n as int } else { -n };
            let start = pos + 2;
            if start + 8 * k > b.len() {
                None
            } else {
                let ty = if n > 0 {
                    MdlMeshSequenceType::TriangleStrip
                } else {
                    MdlMeshSequenceType::TriangleFan
                };
                let verts = Seq::new(k as nat, |i: int| spec_mesh_vertex(b, start + 8 * i));
                match spec_strips(b, start + 8 * k) {
                    Some(rest) => Some(seq![(ty, verts)] + rest),
                    None => None,
                }
            }
        }
    }
}

/// The strips of a mesh as plain values.
pub open spec fn spec_sequences_view(s: Seq<MdlMeshSequence>) -> Seq<SpecStrip> {
    s.map_values(|q: MdlMeshSequence| (q.ty, q.triverts@))
}

/// The number of corners of all the strips.
pub open spec fn spec_total(s: Seq<SpecStrip>) -> int
    decreases s.len(),
{
    if s.len() == 0 {
        0
    } else {
        spec_total(s.drop_last()) + s.last().1.len()
    }
}

pub open spec fn spec_prepend(p: Seq<SpecStrip>, o: Option<Seq<SpecStrip>>) -> Option<Seq<SpecStrip>> {
    match o {
        Some(r) => Some(p + r),
        None => None,
    }
}

/// Reads the corners of one strip or fan.
fn read_corners(b: &[u8], start: usize, k: usize) -> (res: Vec<MdlMeshVertex>)
    requires
        start + 8 * k <= b@.len(),
    ensures
        res@ == Seq::new(k as nat, |i: int| spec_mesh_vertex(b@, start + 8 * i)),
{
    let len = b.len();
    let mut out: Vec<MdlMeshVertex> = Vec::new();
    let mut j: usize = 0;
    while j < k
        invariant
            len == b@.len(),
            start + 8 * k <= b@.len(),
            0 <= j <= k,
            out@.len() == j,
            forall|i: int| 0 <= i < j ==> out@[i] == spec_mesh_vertex(b@, start + 8 * i),
        decreases k - j,
    {
        let pos = start + 8 * j;
        match VertexHeader::read_at(b, pos) {
            Some(v) => {
                out.push(
                    MdlMeshVertex {
                        vertex_index: v.vertex_index as u32,
                        normal_index: v.normal_index as u32,
                        s: v.s as u32,
                        t: v.t as u32,
                    },
                );
            },
            None => {
                assert(false);
            },
        }
        j += 1;
    }
    assert(out@ =~= Seq::new(k as nat, |i: int| spec_mesh_vertex(b@, start + 8 * i)));
    out
}

/// Reads the strips and fans stored from `start`, with the number of their
/// corners.
fn read_strips(b: &[u8], start: usize) -> (res: Option<(Vec<MdlMeshSequence>, usize)>)
    ensures
        res is Some <==> spec_strips(b@, start as int) is Some,
        res matches Some((seqs, total)) ==> {
            &&& spec_strips(b@, start as int) == Some(spec_sequences_view(seqs@))
            &&& total == spec_total(spec_sequences_view(seqs@))
        },
{
    let len = b.len();
    let mut seqs: Vec<MdlMeshSequence> = Vec::new();
    let mut total: usize = 0;
    let mut pos: usize = start;
    loop
        invariant
            len == b@.len(),
            start <= pos,
            spec_strips(b@, start as int) == spec_prepend(
                spec_sequences_view(seqs@),
                spec_strips(b@, pos as int),
            ),
            total == spec_total(spec_sequences_view(seqs@)),
            8 * total <= pos - start,
        decreases len - pos,
    {
        let n = match bincode_i16_at(b, pos) {
            Some(n) => n,
            None => return None,
        };
        if n == 0 {
            proof {
                assert(spec_sequences_view(seqs@) + Seq::<SpecStrip>::empty() =~= spec_sequences_view(seqs@));
            }
            return Some((seqs, total));
        }
        if n == -32768 {
            return None;
        }
        let (ty, k) = if n > 0 {
            (MdlMeshSequenceType::TriangleStrip, n as usize)
        } else {
            (MdlMeshSequenceType::TriangleFan, (-n) as usize)
        };
        let corner_start = pos + 2;
        if len - corner_start < 8 * k {
            return None;
        }
        let triverts = read_corners(b, corner_start, k);
        let ghost old_view = spec_sequences_view(seqs@);
        let ghost item: SpecStrip = (ty, triverts@);
        seqs.push(MdlMeshSequence { ty, triverts });
        proof {
            assert(spec_sequences_view(seqs@) =~= old_view.push(item));
            assert(spec_sequences_view(seqs@).drop_last() =~= old_view);
            match spec_strips(b@, (corner_start + 8 * k) as int) {
                Some(rest) => {
                    assert(old_view + (seq![item] + rest) =~= old_view.push(item) + rest);
                },
                None => {},
            }
        }
        total = total + k;
        pos = corner_start + 8 * k;
    }
}

/// Where strip `k` of `s` is stored, when the list starts at `pos`: each
/// strip takes its two-byte count and eight bytes per corner.
pub open spec fn spec_strip_offset(pos: int, s: Seq<SpecStrip>, k: int) -> int
    decreases k,
{
    if k <= 0 || s.len() == 0 {
        pos
    } else {
        spec_strip_offset(pos + 2 + 8 * s[0].1.len(), s.drop_first(), k - 1)
    }
}

/// Every strip read from `pos` is a triangle strip when its stored count is
/// positive and a fan when it is negative; it has as many corners as the
/// count's magnitude, each read from the eight bytes after the count in
/// order; and a zero count follows the last strip.
pub proof fn lemma_strips_follow_counts(b: Seq<u8>, pos: int)
    requires
        spec_strips(b, pos) is Some,
    ensures
        ({
            let s = spec_strips(b, pos).unwrap();
            &&& forall|k: int|
                0 <= k < s.len() ==> {
                    let p = #[trigger] spec_strip_offset(pos, s, k);
                    &&& 0 <= p && p + 2 <= b.len()
                    &&& spec_signed2(b, p) > 0 ==> s[k].0 == MdlMeshSequenceType::TriangleStrip
                    &&& spec_signed2(b, p) < 0 ==> s[k].0 == MdlMeshSequenceType::TriangleFan
                    &&& spec_signed2(b, p) != 0
                    &&& s[k].1.len() == (if spec_signed2(b, p) > 0 { spec_signed2(b, p) } else { -spec_signed2(b, p) })
                    &&& forall|i: int| 0 <= i < s[k].1.len() ==> #[trigger] s[k].1[i] == spec_mesh_vertex(b, p + 2 + 8 * i)
                }
            &&& 0 <= spec_strip_offset(pos, s, s.len() as int)
            &&& spec_strip_offset(pos, s, s.len() as int) + 2 <= b.len()
            &&& spec_signed2(b, spec_strip_offset(pos, s, s.len() as int)) == 0
        }),
    decreases b.len() - pos,
{
    lemma_two_byte_values(b, pos);
    let s = spec_strips(b, pos).unwrap();
    let n = spec_i16_le(b, pos);
    if n != 0 {
        let k: int = if n > 0 { n as int } else { -n };
        let next = pos + 2 + 8 * k;
        lemma_strips_follow_counts(b, next);
        let rest = spec_strips(b, next).unwrap();
        assert(s.drop_first() =~= rest);
        assert forall|j: int| 0 <= j < s.len() implies {
            let p = #[trigger] spec_strip_offset(pos, s, j);
            &&& 0 <= p && p + 2 <= b.len()
            &&& spec_signed2(b, p) > 0 ==> s[j].0 == MdlMeshSequenceType::TriangleStrip
            &&& spec_signed2(b, p) < 0 ==> s[j].0 == MdlMeshSequenceType::TriangleFan
            &&& spec_signed2(b, p) != 0
            &&& s[j].1.len() == (if spec_signed2(b, p) > 0 { spec_signed2(b, p) } else { -spec_signed2(b, p) })
            &&& forall|i: int| 0 <= i < s[j].1.len() ==> #[trigger] s[j].1[i] == spec_mesh_vertex(b, p + 2 + 8 * i)
        } by {
            if j > 0 {
                assert(s[j] == rest[j - 1]);
                assert(spec_strip_offset(pos, s, j) == spec_strip_offset(next, rest, j - 1));
            }
        }
        assert(spec_strip_offset(pos, s, s.len() as int) == spec_strip_offset(next, rest, rest.len() as int));
    }
}

/// `m` is the mesh that header `h` describes in `b`.
pub open spec fn spec_mesh_matches(m: MdlMesh, b: Seq<u8>, h: MeshHeader) -> bool {
    &&& spec_strips(b, h.trivert_offset as int) == Some(spec_sequences_view(m.sequences@))
    &&& m.triverts_count == spec_total(spec_sequences_view(m.sequences@)) as u32
    &&& m.skin_ref == h.skin_ref
    &&& m.normal_count == h.normal_count
}

/// Reads the mesh that `h` describes; `None` when its strips cannot be read.
pub fn read_mesh(b: &[u8], h: &MeshHeader) -> (res: Option<MdlMesh>)
    ensures
        res is Some <==> spec_strips(b@, h.trivert_offset as int) is Some,
        res matches Some(m) ==> spec_mesh_matches(m, b@, *h),
{
    let (sequences, total) = read_strips(b, h.trivert_offset as usize)?;
    Some(
        MdlMesh {
            sequences,
            triverts_count: total as u32,
            skin_ref: h.skin_ref,
            normal_count: h.normal_count,
        },
    )
}

// ---- vertices and normals ---------------------------------------------------

/// `count` triples of single-precision values (as bits) from `offset`.
pub open spec fn spec_vec3s(b: Seq<u8>, offset: int, count: int) -> Seq<[F32Bits; 3]> {
    Seq::new(count as nat, |i: int| spec_f32s_3(b, offset + 12 * i))
}

/// Reads `count` triples of little-endian single-precision values with
/// byteorder; `None` when they run past the end.
fn read_vec3s(b: &[u8], offset: u32, count: u32) -> (res: Option<Vec<[F32Bits; 3]>>)
    ensures
        res is Some <==> offset + 12 * count <= b@.len(),
        res matches Some(v) ==> v@ == spec_vec3s(b@, offset as int, count as int),
{
    let len = b.len();
    let total: u64 = offset as u64 + 12 * (count as u64);
    if total > len as u64 {
        return None;
    }
    let mut out: Vec<[F32Bits; 3]> = Vec::new();
    let mut i: u32 = 0;
    while i < count
        invariant
            len == b@.len(),
            total == offset + 12 * count,
            total <= len,
            0 <= i <= count,
            out@.len() == i,
            forall|j: int| 0 <= j < i ==> out@[j] == spec_f32s_3(b@, offset + 12 * j),
        decreases count - i,
    {
        let pos: usize = offset as usize + 12 * (i as usize);
        let x = byteorder_u32_at(b, pos);
        let y = byteorder_u32_at(b, pos + 4);
        let z = byteorder_u32_at(b, pos + 8);
        out.push([F32Bits(x), F32Bits(y), F32Bits(z)]);
        i += 1;
    }
    assert(out@ =~= spec_vec3s(b@, offset as int, count as int));
    Some(out)
}

/// Reads `count` bytes from `offset`; `None` when they run past the end.
fn read_bytes(b: &[u8], offset: u32, count: u32) -> (res: Option<Vec<u8>>)
    ensures
        res is Some <==> offset + count <= b@.len(),
        res matches Some(v) ==> v@ == b@.subrange(offset as int, offset + count),
{
    let len = b.len();
    if offset as u64 + count as u64 > len as u64 {
        return None;
    }
    let start = offset as usize;
    let end = start + count as usize;
    Some(slice_to_vec(&b[start..end]))
}

// ---- models -----------------------------------------------------------------

/// Every part of the model that `h` describes lies within `b`.
pub open spec fn spec_model_ok(b: Seq<u8>, h: ModelHeader) -> bool {
    &&& h.vertex_offset + 12 * h.vertex_count <= b.len()
    &&& h.normal_offset + 12 * h.normal_count <= b.len()
    &&& h.vertex_info_offset + h.vertex_count <= b.len()
    &&& spec_records_fit::<MeshHeader>(b, h.mesh_offset as int, h.mesh_count as int)
    &&& forall|i: int|
        0 <= i < h.mesh_count ==> (#[trigger] spec_record_seq::<MeshHeader>(
            b,
            h.mesh_offset as int,
            h.mesh_count as int,
        )[i]).spec_strips_ok(b)
}

impl MeshHeader {
    /// The strips of the mesh can be read from `b`.
    pub open spec fn spec_strips_ok(self, b: Seq<u8>) -> bool {
        spec_strips(b, self.trivert_offset as int) is Some
    }
}

/// `m` is the model that `h` describes in `b`.
pub open spec fn spec_model_matches(m: MdlModel, b: Seq<u8>, h: ModelHeader) -> bool {
    &&& m.name@ == spec_lossy_name(h.name@)
    &&& m.vertices@ == spec_vec3s(b, h.vertex_offset as int, h.vertex_count as int)
    &&& m.normals@ == spec_vec3s(b, h.normal_offset as int, h.normal_count as int)
    &&& m.vertex_bone_indices@ == b.subrange(
        h.vertex_info_offset as int,
        h.vertex_info_offset + h.vertex_count,
    )
    &&& m.meshes@.len() == h.mesh_count
    &&& forall|i: int|
        0 <= i < h.mesh_count ==> spec_mesh_matches(
            #[trigger] m.meshes@[i],
            b,
            spec_record_seq::<MeshHeader>(b, h.mesh_offset as int, h.mesh_count as int)[i],
        )
}

/// Reads the model that `h` describes; `None` when a part runs past the end.
pub fn read_model(b: &[u8], h: &ModelHeader) -> (res: Option<MdlModel>)
    ensures
        res is Some <==> spec_model_ok(b@, *h),
        res matches Some(m) ==> spec_model_matches(m, b@, *h),
{
    let vertices = read_vec3s(b, h.vertex_offset, h.vertex_count)?;
    let normals = read_vec3s(b, h.normal_offset, h.normal_count)?;
    let vertex_bone_indices = read_bytes(b, h.vertex_info_offset, h.vertex_count)?;
    let mesh_headers = read_records::<MeshHeader>(b, h.mesh_offset, h.mesh_count)?;
    let ghost hs = spec_record_seq::<MeshHeader>(b@, h.mesh_offset as int, h.mesh_count as int);
    let mut meshes: Vec<MdlMesh> = Vec::new();
    let n = mesh_headers.len();
    let mut i: usize = 0;
    while i < n
        invariant
            n == mesh_headers@.len(),
            mesh_headers@ == hs,
            hs == spec_record_seq::<MeshHeader>(b@, h.mesh_offset as int, h.mesh_count as int),
            n == h.mesh_count,
            0 <= i <= n,
            meshes@.len() == i,
            forall|j: int| 0 <= j < i ==> spec_mesh_matches(#[trigger] meshes@[j], b@, hs[j]),
            forall|j: int| 0 <= j < i ==> (#[trigger] hs[j]).spec_strips_ok(b@),
        decreases n - i,
    {
        match read_mesh(b, &mesh_headers[i]) {
            Some(m) => meshes.push(m),
            None => {
                assert(!hs[i as int].spec_strips_ok(b@));
                return None;
            },
        }
        i += 1;
    }
    Some(
        MdlModel {
            name: h.name_string(),
            meshes,
            vertices,
            normals,
            vertex_bone_indices,
        },
    )
}

// ---- body parts -------------------------------------------------------------

/// Every model of the body part that `h` describes can be read from `b`.
pub open spec fn spec_body_part_ok(b: Seq<u8>, h: BodyPartHeader) -> bool {
    &&& spec_records_fit::<ModelHeader>(b, h.model_offset as int, h.model_count as int)
    &&& forall|i: int|
        0 <= i < h.model_count ==> spec_model_ok(
            b,
            #[trigger] spec_record_seq::<ModelHeader>(b, h.model_offset as int, h.model_count as int)[i],
        )
}

/// `p` is the body part that `h` describes in `b`.
pub open spec fn spec_body_part_matches(p: MdlBodyPart, b: Seq<u8>, h: BodyPartHeader) -> bool {
    &&& p.name@ == spec_lossy_name(h.name@)
    &&& p.models@.len() == h.model_count
    &&& forall|i: int|
        0 <= i < h.model_count ==> spec_model_matches(
            #[trigger] p.models@[i],
            b,
            spec_record_seq::<ModelHeader>(b, h.model_offset as int, h.model_count as int)[i],
        )
}

/// Reads the body part that `h` describes with all its models.
pub fn read_body_part(b: &[u8], h: &BodyPartHeader) -> (res: Option<MdlBodyPart>)
    ensures
        res is Some <==> spec_body_part_ok(b@, *h),
        res matches Some(p) ==> spec_body_part_matches(p, b@, *h),
{
    let model_headers = read_records::<ModelHeader>(b, h.model_offset, h.model_count)?;
    let ghost hs = spec_record_seq::<ModelHeader>(b@, h.model_offset as int, h.model_count as int);
    let mut models: Vec<MdlModel> = Vec::new();
    let n = model_headers.len();
    let mut i: usize = 0;
    while i < n
        invariant
            n == model_headers@.len(),
            model_headers@ == hs,
            hs == spec_record_seq::<ModelHeader>(b@, h.model_offset as int, h.model_count as int),
            n == h.model_count,
            0 <= i <= n,
            models@.len() == i,
            forall|j: int| 0 <= j < i ==> spec_model_matches(#[trigger] models@[j], b@, hs[j]),
            forall|j: int| 0 <= j < i ==> spec_model_ok(b@, #[trigger] hs[j]),
        decreases n - i,
    {
        match read_model(b, &model_headers[i]) {
            Some(m) => models.push(m),
            None => {
                assert(!spec_model_ok(
                    b@,
                    spec_record_seq::<ModelHeader>(b@, h.model_offset as int, h.model_count as int)[i as int],
                ));
                return None;
            },
        }
        i += 1;
    }
    Some(MdlBodyPart { name: h.name_string(), models })
}

// ---- textures ---------------------------------------------------------------

/// The number of bytes of a 256-colour RGB palette.
pub const PALETTE_BYTES: usize = 768;

/// The texture that `h` describes can be read from `b`: its pixel count fits
/// 32 bits, its pixels and palette lie within `b`, and its RGBA image fits
/// in memory.
pub open spec fn spec_texture_ok(b: Seq<u8>, h: TextureHeader) -> bool {
    &&& h.width * h.height <= u32::MAX
    &&& h.offset + h.width * h.height + 768 <= b.len()
    &&& 4 * (h.width * h.height) <= usize::MAX
}

/// The palette indices of the texture that `h` describes.
pub open spec fn spec_texture_pixels(b: Seq<u8>, h: TextureHeader) -> Seq<u8> {
    b.subrange(h.offset as int, h.offset + h.width * h.height)
}

/// The palette that follows the texture's pixels.
pub open spec fn spec_texture_palette(b: Seq<u8>, h: TextureHeader) -> Seq<u8> {
    b.subrange(h.offset + h.width * h.height, h.offset + h.width * h.height + 768)
}

/// `t` is the texture that `h` describes in `b`.
pub open spec fn spec_texture_matches(t: MdlTexture, b: Seq<u8>, h: TextureHeader) -> bool {
    &&& t.name@ == spec_lossy_name(h.name@)
    &&& t.width == h.width
    &&& t.height == h.height
    &&& image_bytes(t.image_data) == spec_rgba(spec_texture_pixels(b, h), spec_texture_palette(b, h))
    &&& image_size(t.image_data) == (h.width, h.height)
}

/// Reads one texture and converts it to RGBA.
fn read_texture(b: &[u8], h: &TextureHeader) -> (res: Option<MdlTexture>)
    ensures
        res is Some <==> spec_texture_ok(b@, *h),
        res matches Some(t) ==> spec_texture_matches(t, b@, *h),
{
    let len = b.len();
    assert(h.width as u64 * h.height as u64 <= 0xffff_ffff * 0xffff_ffff) by (nonlinear_arith);
    let pixels: u64 = h.width as u64 * h.height as u64;
    if pixels > 0xffff_ffff {
        return None;
    }
    if h.offset as u64 + pixels + 768 > len as u64 {
        return None;
    }
    let n = pixels as usize;
    if n > usize::MAX / 4 {
        return None;
    }
    let start = h.offset as usize;
    let image_data = &b[start..start + n];
    let palette_data = &b[start + n..start + n + PALETTE_BYTES];
    proof {
        assert(image_data@ =~= spec_texture_pixels(b@, *h));
        assert(palette_data@ =~= spec_texture_palette(b@, *h));
        assert forall|i: int| 0 <= i < image_data@.len() implies 3 * (#[trigger] image_data@[i]) as int + 3
            <= palette_data@.len() by {
        }
    }
    let converted = create_image(image_data, palette_data, h.width, h.height);
    Some(MdlTexture { name: h.name_string(), width: h.width, height: h.height, image_data: converted })
}

/// Every texture of the directory at `offset` can be read from `b`.
pub open spec fn spec_textures_ok(b: Seq<u8>, offset: u32, count: u32) -> bool {
    &&& spec_records_fit::<TextureHeader>(b, offset as int, count as int)
    &&& forall|i: int|
        0 <= i < count ==> spec_texture_ok(
            b,
            #[trigger] spec_record_seq::<TextureHeader>(b, offset as int, count as int)[i],
        )
}

/// `ts` are the textures of the directory at `offset` in `b`.
pub open spec fn spec_textures_match(ts: Seq<MdlTexture>, b: Seq<u8>, offset: u32, count: u32) -> bool {
    &&& ts.len() == count
    &&& forall|i: int|
        0 <= i < count ==> spec_texture_matches(
            #[trigger] ts[i],
            b,
            spec_record_seq::<TextureHeader>(b, offset as int, count as int)[i],
        )
}

/// Reads the `count` textures whose directory starts at `offset`.
pub fn read_textures(b: &[u8], offset: u32, count: u32) -> (res: Option<Vec<MdlTexture>>)
    ensures
        res is Some <==> spec_textures_ok(b@, offset, count),
        res matches Some(ts) ==> spec_textures_match(ts@, b@, offset, count),
{
    let headers = read_records::<TextureHeader>(b, offset, count)?;
    let ghost hs = spec_record_seq::<TextureHeader>(b@, offset as int, count as int);
    let mut textures: Vec<MdlTexture> = Vec::new();
    let n = headers.len();
    let mut i: usize = 0;
    while i < n
        invariant
            n == headers@.len(),
            headers@ == hs,
            hs == spec_record_seq::<TextureHeader>(b@, offset as int, count as int),
            n == count,
            0 <= i <= n,
            textures@.len() == i,
            forall|j: int| 0 <= j < i ==> spec_texture_matches(#[trigger] textures@[j], b@, hs[j]),
            forall|j: int| 0 <= j < i ==> spec_texture_ok(b@, #[trigger] hs[j]),
        decreases n - i,
    {
        match read_texture(b, &headers[i]) {
            Some(t) => textures.push(t),
            None => {
                assert(!spec_texture_ok(
                    b@,
                    spec_record_seq::<TextureHeader>(b@, offset as int, count as int)[i as int],
                ));
                return None;
            },
        }
        i += 1;
    }
    Some(textures)
}

} // verus!
