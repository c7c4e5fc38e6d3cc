//! The fixed-size records of an MDL file and how each is decoded.
use vstd::prelude::*;
use vstd::utf8::*;
use crate::bytes::{
    F32Bits, spec_u16_le, spec_u32_le, spec_i32_le, bincode_u16_at, bincode_u32_at, bincode_i32_at, spec_bytes2, spec_bytes4,
    spec_signed4, lemma_byte_values, lemma_two_byte_values,
};
use crate::text::{lossy_name, utf8_name, spec_trim_nul, spec_utf8_lossy};

verus! {

/// A record stored at a byte offset of an MDL file.
pub trait MdlRecord: Sized {
    /// The size of the record in bytes.
    spec fn spec_size() -> nat;

    /// The record stored in `b` at byte offset `pos`.
    spec fn spec_decode_at(b: Seq<u8>, pos: int) -> Self;

    fn size() -> (s: usize)
        ensures
            s as nat == Self::spec_size(),
            0 < s <= 4096,
    ;

    /// Decodes the record at `pos`; `None` when it runs past the end.
    fn read_at(b: &[u8], pos: usize) -> (res: Option<Self>)
        ensures
            res == (if pos + Self::spec_size() <= b@.len() {
                Some(Self::spec_decode_at(b@, pos as int))
            } else {
                None::<Self>
            }),
    ;
}

/// The 32 bytes at `pos`, as an array.
pub open spec fn spec_byte_array_32(b: Seq<u8>, pos: int) -> [u8; 32] {
    [b[pos], b[pos + 1], b[pos + 2], b[pos + 3], b[pos + 4], b[pos + 5], b[pos + 6], b[pos + 7], b[pos + 8], b[pos + 9], b[pos + 10], b[pos + 11], b[pos + 12], b[pos + 13], b[pos + 14], b[pos + 15], b[pos + 16], b[pos + 17], b[pos + 18], b[pos + 19], b[pos + 20], b[pos + 21], b[pos + 22], b[pos + 23], b[pos + 24], b[pos + 25], b[pos + 26], b[pos + 27], b[pos + 28], b[pos + 29], b[pos + 30], b[pos + 31]]
}

fn byte_array_32(b: &[u8], pos: usize) -> (res: [u8; 32])
    requires
        pos + 32 <= b@.len(),
    ensures
        res == spec_byte_array_32(b@, pos as int),
{
    let mut out = [0u8; 32];
    let n = b.len();
    let mut i: usize = 0;
    while i < 32
        invariant
            0 <= i <= 32,
            pos + 32 <= b@.len(),
            n == b@.len(),
            forall|j: int| 0 <= j < i ==> out[j] == b@[pos + j],
        decreases 32 - i,
    {
        out[i] = b[pos + i];
        i += 1;
    }
    proof {
        let s = spec_byte_array_32(b@, pos as int);
        assert forall|j: int| 0 <= j < 32 implies out[j] == s[j] by {
            assert(s@[j] == b@[pos + j]);
        }
        vstd::array::axiom_array_ext_equal(out, s);
    }
    out
}

/// The 64 bytes at `pos`, as an array.
pub open spec fn spec_byte_array_64(b: Seq<u8>, pos: int) -> [u8; 64] {
    [b[pos], b[pos + 1], b[pos + 2], b[pos + 3], b[pos + 4], b[pos + 5], b[pos + 6], b[pos + 7], b[pos + 8], b[pos + 9], b[pos + 10], b[pos + 11], b[pos + 12], b[pos + 13], b[pos + 14], b[pos + 15], b[pos + 16], b[pos + 17], b[pos + 18], b[pos + 19], b[pos + 20], b[pos + 21], b[pos + 22], b[pos + 23], b[pos + 24], b[pos + 25], b[pos + 26], b[pos + 27], b[pos + 28], b[pos + 29], b[pos + 30], b[pos + 31], b[pos + 32], b[pos + 33], b[pos + 34], b[pos + 35], b[pos + 36], b[pos + 37], b[pos + 38], b[pos + 39], b[pos + 40], b[pos + 41], b[pos + 42], b[pos + 43], b[pos + 44], b[pos + 45], b[pos + 46], b[pos + 47], b[pos + 48], b[pos + 49], b[pos + 50], b[pos + 51], b[pos + 52], b[pos + 53], b[pos + 54], b[pos + 55], b[pos + 56], b[pos + 57], b[pos + 58], b[pos + 59], b[pos + 60], b[pos + 61], b[pos + 62], b[pos + 63]]
}

fn byte_array_64(b: &[u8], pos: usize) -> (res: [u8; 64])
    requires
        pos + 64 <= b@.len(),
    ensures
        res == spec_byte_array_64(b@, pos as int),
{
    let mut out = [0u8; 64];
    let n = b.len();
    let mut i: usize = 0;
    while i < 64
        invariant
            0 <= i <= 64,
            pos + 64 <= b@.len(),
            n == b@.len(),
            forall|j: int| 0 <= j < i ==> out[j] == b@[pos + j],
        decreases 64 - i,
    {
        out[i] = b[pos + i];
        i += 1;
    }
    proof {
        let s = spec_byte_array_64(b@, pos as int);
        assert forall|j: int| 0 <= j < 64 implies out[j] == s[j] by {
            assert(s@[j] == b@[pos + j]);
        }
        vstd::array::axiom_array_ext_equal(out, s);
    }
    out
}

/// The 2 single-precision values (as bits) at `pos`.
pub open spec fn spec_f32s_2(b: Seq<u8>, pos: int) -> [F32Bits; 2] {
    [F32Bits(spec_u32_le(b, pos)), F32Bits(spec_u32_le(b, pos + 4))]
}

fn read_f32s_2(b: &[u8], pos: usize) -> (res: Option<[F32Bits; 2]>)
    ensures
        res == (if pos + 8 <= b@.len() { Some(spec_f32s_2(b@, pos as int)) } else { None::<[F32Bits; 2]> }),
{
    let len = b.len();
    if pos > len || len - pos < 8 {
        return None;
    }
    Some([F32Bits(bincode_u32_at(b, pos)?), F32Bits(bincode_u32_at(b, pos + 4)?)])
}

/// The 3 single-precision values (as bits) at `pos`.
pub open spec fn spec_f32s_3(b: Seq<u8>, pos: int) -> [F32Bits; 3] {
    [F32Bits(spec_u32_le(b, pos)), F32Bits(spec_u32_le(b, pos + 4)), F32Bits(spec_u32_le(b, pos + 8))]
}

fn read_f32s_3(b: &[u8], pos: usize) -> (res: Option<[F32Bits; 3]>)
    ensures
        res == (if pos + 12 <= b@.len() { Some(spec_f32s_3(b@, pos as int)) } else { None::<[F32Bits; 3]> }),
{
    let len = b.len();
    if pos > len || len - pos < 12 {
        return None;
    }
    Some([F32Bits(bincode_u32_at(b, pos)?), F32Bits(bincode_u32_at(b, pos + 4)?), F32Bits(bincode_u32_at(b, pos + 8)?)])
}

/// The 6 single-precision values (as bits) at `pos`.
pub open spec fn spec_f32s_6(b: Seq<u8>, pos: int) -> [F32Bits; 6] {
    [F32Bits(spec_u32_le(b, pos)), F32Bits(spec_u32_le(b, pos + 4)), F32Bits(spec_u32_le(b, pos + 8)), F32Bits(spec_u32_le(b, pos + 12)), F32Bits(spec_u32_le(b, pos + 16)), F32Bits(spec_u32_le(b, pos + 20))]
}

fn read_f32s_6(b: &[u8], pos: usize) -> (res: Option<[F32Bits; 6]>)
    ensures
        res == (if pos + 24 <= b@.len() { Some(spec_f32s_6(b@, pos as int)) } else { None::<[F32Bits; 6]> }),
{
    let len = b.len();
    if pos > len || len - pos < 24 {
        return None;
    }
    Some([F32Bits(bincode_u32_at(b, pos)?), F32Bits(bincode_u32_at(b, pos + 4)?), F32Bits(bincode_u32_at(b, pos + 8)?), F32Bits(bincode_u32_at(b, pos + 12)?), F32Bits(bincode_u32_at(b, pos + 16)?), F32Bits(bincode_u32_at(b, pos + 20)?)])
}

/// The 2 little-endian `i32`s at `pos`.
pub open spec fn spec_i32s_2(b: Seq<u8>, pos: int) -> [i32; 2] {
    [spec_i32_le(b, pos), spec_i32_le(b, pos + 4)]
}

fn read_i32s_2(b: &[u8], pos: usize) -> (res: Option<[i32; 2]>)
    ensures
        res == (if pos + 8 <= b@.len() { Some(spec_i32s_2(b@, pos as int)) } else { None::<[i32; 2]> }),
{
    let len = b.len();
    if pos > len || len - pos < 8 {
        return None;
    }
    Some([bincode_i32_at(b, pos)?, bincode_i32_at(b, pos + 4)?])
}

/// The 6 little-endian `i32`s at `pos`.
pub open spec fn spec_i32s_6(b: Seq<u8>, pos: int) -> [i32; 6] {
    [spec_i32_le(b, pos), spec_i32_le(b, pos + 4), spec_i32_le(b, pos + 8), spec_i32_le(b, pos + 12), spec_i32_le(b, pos + 16), spec_i32_le(b, pos + 20)]
}

fn read_i32s_6(b: &[u8], pos: usize) -> (res: Option<[i32; 6]>)
    ensures
        res == (if pos + 24 <= b@.len() { Some(spec_i32s_6(b@, pos as int)) } else { None::<[i32; 6]> }),
{
    let len = b.len();
    if pos > len || len - pos < 24 {
        return None;
    }
    Some([bincode_i32_at(b, pos)?, bincode_i32_at(b, pos + 4)?, bincode_i32_at(b, pos + 8)?, bincode_i32_at(b, pos + 12)?, bincode_i32_at(b, pos + 16)?, bincode_i32_at(b, pos + 20)?])
}

/// The header at the start of an MDL file.
#[derive(Copy, Clone, Debug)]
pub struct MdlHeader {
    pub id: u32,
    pub version: u32,
    pub name: [u8; 64],
    pub data_length: u32,
    pub eye_position: [F32Bits; 3],
    pub hull_min: [F32Bits; 3],
    pub hull_max: [F32Bits; 3],
    pub view_bbmin: [F32Bits; 3],
    pub view_bbmax: [F32Bits; 3],
    pub flags: u32,
    pub bone_count: u32,
    pub bone_offset: u32,
    pub bone_controller_count: u32,
    pub bone_controller_offset: u32,
    pub hit_box_count: u32,
    pub hit_box_offset: u32,
    pub anim_seq_count: u32,
    pub anim_seq_offset: u32,
    pub seq_group_count: u32,
    pub seq_group_offset: u32,
    pub texture_count: u32,
    pub texture_offset: u32,
    pub texture_data_index: u32,
    pub skin_ref_count: u32,
    pub skin_families_count: u32,
    pub skin_offset: u32,
    pub body_part_count: u32,
    pub body_part_offset: u32,
    pub attachment_count: u32,
    pub attachment_offset: u32,
    pub sound_table: u32,
    pub sound_offset: u32,
    pub sound_groups: u32,
    pub sound_group_offset: u32,
    pub transitions_count: u32,
    pub transition_offset: u32,
}

impl MdlRecord for MdlHeader {
    open spec fn spec_size() -> nat {
        244
    }

    open spec fn spec_decode_at(b: Seq<u8>, pos: int) -> Self {
        MdlHeader {
            id: spec_u32_le(b, pos),
            version: spec_u32_le(b, pos + 4),
            name: spec_byte_array_64(b, pos + 8),
            data_length: spec_u32_le(b, pos + 72),
            eye_position: spec_f32s_3(b, pos + 76),
            hull_min: spec_f32s_3(b, pos + 88),
            hull_max: spec_f32s_3(b, pos + 100),
            view_bbmin: spec_f32s_3(b, pos + 112),
            view_bbmax: spec_f32s_3(b, pos + 124),
            flags: spec_u32_le(b, pos + 136),
            bone_count: spec_u32_le(b, pos + 140),
            bone_offset: spec_u32_le(b, pos + 144),
            bone_controller_count: spec_u32_le(b, pos + 148),
            bone_controller_offset: spec_u32_le(b, pos + 152),
            hit_box_count: spec_u32_le(b, pos + 156),
            hit_box_offset: spec_u32_le(b, pos + 160),
            anim_seq_count: spec_u32_le(b, pos + 164),
            anim_seq_offset: spec_u32_le(b, pos + 168),
            seq_group_count: spec_u32_le(b, pos + 172),
            seq_group_offset: spec_u32_le(b, pos + 176),
            texture_count: spec_u32_le(b, pos + 180),
            texture_offset: spec_u32_le(b, pos + 184),
            texture_data_index: spec_u32_le(b, pos + 188),
            skin_ref_count: spec_u32_le(b, pos + 192),
            skin_families_count: spec_u32_le(b, pos + 196),
            skin_offset: spec_u32_le(b, pos + 200),
            body_part_count: spec_u32_le(b, pos + 204),
            body_part_offset: spec_u32_le(b, pos + 208),
            attachment_count: spec_u32_le(b, pos + 212),
            attachment_offset: spec_u32_le(b, pos + 216),
            sound_table: spec_u32_le(b, pos + 220),
            sound_offset: spec_u32_le(b, pos + 224),
            sound_groups: spec_u32_le(b, pos + 228),
            sound_group_offset: spec_u32_le(b, pos + 232),
            transitions_count: spec_u32_le(b, pos + 236),
            transition_offset: spec_u32_le(b, pos + 240),
        }
    }

    fn size() -> (s: usize) {
        244
    }

    fn read_at(b: &[u8], pos: usize) -> (res: Option<Self>) {
        let len = b.len();
        if pos > len || len - pos < 244 {
            return None;
        }
        Some(MdlHeader {
            id: bincode_u32_at(b, pos)?,
            version: bincode_u32_at(b, pos + 4)?,
            name: byte_array_64(b, pos + 8),
            data_length: bincode_u32_at(b, pos + 72)?,
            eye_position: read_f32s_3(b, pos + 76)?,
            hull_min: read_f32s_3(b, pos + 88)?,
            hull_max: read_f32s_3(b, pos + 100)?,
            view_bbmin: read_f32s_3(b, pos + 112)?,
            view_bbmax: read_f32s_3(b, pos + 124)?,
            flags: bincode_u32_at(b, pos + 136)?,
            bone_count: bincode_u32_at(b, pos + 140)?,
            bone_offset: bincode_u32_at(b, pos + 144)?,
            bone_controller_count: bincode_u32_at(b, pos + 148)?,
            bone_controller_offset: bincode_u32_at(b, pos + 152)?,
            hit_box_count: bincode_u32_at(b, pos + 156)?,
            hit_box_offset: bincode_u32_at(b, pos + 160)?,
            anim_seq_count: bincode_u32_at(b, pos + 164)?,
            anim_seq_offset: bincode_u32_at(b, pos + 168)?,
            seq_group_count: bincode_u32_at(b, pos + 172)?,
            seq_group_offset: bincode_u32_at(b, pos + 176)?,
            texture_count: bincode_u32_at(b, pos + 180)?,
            texture_offset: bincode_u32_at(b, pos + 184)?,
            texture_data_index: bincode_u32_at(b, pos + 188)?,
            skin_ref_count: bincode_u32_at(b, pos + 192)?,
            skin_families_count: bincode_u32_at(b, pos + 196)?,
            skin_offset: bincode_u32_at(b, pos + 200)?,
            body_part_count: bincode_u32_at(b, pos + 204)?,
            body_part_offset: bincode_u32_at(b, pos + 208)?,
            attachment_count: bincode_u32_at(b, pos + 212)?,
            attachment_offset: bincode_u32_at(b, pos + 216)?,
            sound_table: bincode_u32_at(b, pos + 220)?,
            sound_offset: bincode_u32_at(b, pos + 224)?,
            sound_groups: bincode_u32_at(b, pos + 228)?,
            sound_group_offset: bincode_u32_at(b, pos + 232)?,
            transitions_count: bincode_u32_at(b, pos + 236)?,
            transition_offset: bincode_u32_at(b, pos + 240)?,
        })
    }
}

/// The directory entry of a texture.
#[derive(Copy, Clone, Debug)]
pub struct TextureHeader {
    pub name: [u8; 64],
    pub flags: u32,
    pub width: u32,
    pub height: u32,
    pub offset: u32,
}

impl MdlRecord for TextureHeader {
    open spec fn spec_size() -> nat {
        80
    }

    open spec fn spec_decode_at(b: Seq<u8>, pos: int) -> Self {
        TextureHeader {
            name: spec_byte_array_64(b, pos),
            flags: spec_u32_le(b, pos + 64),
            width: spec_u32_le(b, pos + 68),
            height: spec_u32_le(b, pos + 72),
            offset: spec_u32_le(b, pos + 76),
        }
    }

    fn size() -> (s: usize) {
        80
    }

    fn read_at(b: &[u8], pos: usize) -> (res: Option<Self>) {
        let len = b.len();
        if pos > len || len - pos < 80 {
            return None;
        }
        Some(TextureHeader {
            name: byte_array_64(b, pos),
            flags: bincode_u32_at(b, pos + 64)?,
            width: bincode_u32_at(b, pos + 68)?,
            height: bincode_u32_at(b, pos + 72)?,
            offset: bincode_u32_at(b, pos + 76)?,
        })
    }
}

/// The directory entry of a body part.
#[derive(Copy, Clone, Debug)]
pub struct BodyPartHeader {
    pub name: [u8; 64],
    pub model_count: u32,
    pub base: u32,
    pub model_offset: u32,
}

impl MdlRecord for BodyPartHeader {
    open spec fn spec_size() -> nat {
        76
    }

    open spec fn spec_decode_at(b: Seq<u8>, pos: int) -> Self {
        BodyPartHeader {
            name: spec_byte_array_64(b, pos),
            model_count: spec_u32_le(b, pos + 64),
            base: spec_u32_le(b, pos + 68),
            model_offset: spec_u32_le(b, pos + 72),
        }
    }

    fn size() -> (s: usize) {
        76
    }

    fn read_at(b: &[u8], pos: usize) -> (res: Option<Self>) {
        let len = b.len();
        if pos > len || len - pos < 76 {
            return None;
        }
        Some(BodyPartHeader {
            name: byte_array_64(b, pos),
            model_count: bincode_u32_at(b, pos + 64)?,
            base: bincode_u32_at(b, pos + 68)?,
            model_offset: bincode_u32_at(b, pos + 72)?,
        })
    }
}

/// The directory entry of a model of a body part.
#[derive(Copy, Clone, Debug)]
pub struct ModelHeader {
    pub name: [u8; 64],
    pub model_type: u32,
    pub bounding_radius: F32Bits,
    pub mesh_count: u32,
    pub mesh_offset: u32,
    pub vertex_count: u32,
    pub vertex_info_offset: u32,
    pub vertex_offset: u32,
    pub normal_count: u32,
    pub normal_info_offset: u32,
    pub normal_offset: u32,
    pub groups_count: u32,
    pub groups_offset: u32,
}

impl MdlRecord for ModelHeader {
    open spec fn spec_size() -> nat {
        112
    }

    open spec fn spec_decode_at(b: Seq<u8>, pos: int) -> Self {
        ModelHeader {
            name: spec_byte_array_64(b, pos),
            model_type: spec_u32_le(b, pos + 64),
            bounding_radius: F32Bits(spec_u32_le(b, pos + 68)),
            mesh_count: spec_u32_le(b, pos + 72),
            mesh_offset: spec_u32_le(b, pos + 76),
            vertex_count: spec_u32_le(b, pos + 80),
            vertex_info_offset: spec_u32_le(b, pos + 84),
            vertex_offset: spec_u32_le(b, pos + 88),
            normal_count: spec_u32_le(b, pos + 92),
            normal_info_offset: spec_u32_le(b, pos + 96),
            normal_offset: spec_u32_le(b, pos + 100),
            groups_count: spec_u32_le(b, pos + 104),
            groups_offset: spec_u32_le(b, pos + 108),
        }
    }

    fn size() -> (s: usize) {
        112
    }

    fn read_at(b: &[u8], pos: usize) -> (res: Option<Self>) {
        let len = b.len();
        if pos > len || len - pos < 112 {
            return None;
        }
        Some(ModelHeader {
            name: byte_array_64(b, pos),
            model_type: bincode_u32_at(b, pos + 64)?,
            bounding_radius: F32Bits(bincode_u32_at(b, pos + 68)?),
            mesh_count: bincode_u32_at(b, pos + 72)?,
            mesh_offset: bincode_u32_at(b, pos + 76)?,
            vertex_count: bincode_u32_at(b, pos + 80)?,
            vertex_info_offset: bincode_u32_at(b, pos + 84)?,
            vertex_offset: bincode_u32_at(b, pos + 88)?,
            normal_count: bincode_u32_at(b, pos + 92)?,
            normal_info_offset: bincode_u32_at(b, pos + 96)?,
            normal_offset: bincode_u32_at(b, pos + 100)?,
            groups_count: bincode_u32_at(b, pos + 104)?,
            groups_offset: bincode_u32_at(b, pos + 108)?,
        })
    }
}

/// The directory entry of a mesh of a model.
#[derive(Copy, Clone, Debug)]
pub struct MeshHeader {
    pub trivert_count: u32,
    pub trivert_offset: u32,
    pub skin_ref: u32,
    pub normal_count: u32,
    pub normal_offset: u32,
}

impl MdlRecord for MeshHeader {
    open spec fn spec_size() -> nat {
        20
    }

    open spec fn spec_decode_at(b: Seq<u8>, pos: int) -> Self {
        MeshHeader {
            trivert_count: spec_u32_le(b, pos),
            trivert_offset: spec_u32_le(b, pos + 4),
            skin_ref: spec_u32_le(b, pos + 8),
            normal_count: spec_u32_le(b, pos + 12),
            normal_offset: spec_u32_le(b, pos + 16),
        }
    }

    fn size() -> (s: usize) {
        20
    }

    fn read_at(b: &[u8], pos: usize) -> (res: Option<Self>) {
        let len = b.len();
        if pos > len || len - pos < 20 {
            return None;
        }
        Some(MeshHeader {
            trivert_count: bincode_u32_at(b, pos)?,
            trivert_offset: bincode_u32_at(b, pos + 4)?,
            skin_ref: bincode_u32_at(b, pos + 8)?,
            normal_count: bincode_u32_at(b, pos + 12)?,
            normal_offset: bincode_u32_at(b, pos + 16)?,
        })
    }
}

/// A corner of a triangle strip or fan.
#[derive(Copy, Clone, Debug)]
pub struct VertexHeader {
    pub vertex_index: u16,
    pub normal_index: u16,
    pub s: u16,
    pub t: u16,
}

impl MdlRecord for VertexHeader {
    open spec fn spec_size() -> nat {
        8
    }

    open spec fn spec_decode_at(b: Seq<u8>, pos: int) -> Self {
        VertexHeader {
            vertex_index: spec_u16_le(b, pos),
            normal_index: spec_u16_le(b, pos + 2),
            s: spec_u16_le(b, pos + 4),
            t: spec_u16_le(b, pos + 6),
        }
    }

    fn size() -> (s: usize) {
        8
    }

    fn read_at(b: &[u8], pos: usize) -> (res: Option<Self>) {
        let len = b.len();
        if pos > len || len - pos < 8 {
            return None;
        }
        Some(VertexHeader {
            vertex_index: bincode_u16_at(b, pos)?,
            normal_index: bincode_u16_at(b, pos + 2)?,
            s: bincode_u16_at(b, pos + 4)?,
            t: bincode_u16_at(b, pos + 6)?,
        })
    }
}

/// A bone of the skeleton.
#[derive(Copy, Clone, Debug)]
pub struct BoneHeader {
    pub name: [u8; 32],
    pub parent: i32,
    pub flags: u32,
    pub bone_controller: [i32; 6],
    pub value: [F32Bits; 6],
    pub scale: [F32Bits; 6],
}

impl MdlRecord for BoneHeader {
    open spec fn spec_size() -> nat {
        112
    }

    open spec fn spec_decode_at(b: Seq<u8>, pos: int) -> Self {
        BoneHeader {
            name: spec_byte_array_32(b, pos),
            parent: spec_i32_le(b, pos + 32),
            flags: spec_u32_le(b, pos + 36),
            bone_controller: spec_i32s_6(b, pos + 40),
            value: spec_f32s_6(b, pos + 64),
            scale: spec_f32s_6(b, pos + 88),
        }
    }

    fn size() -> (s: usize) {
        112
    }

    fn read_at(b: &[u8], pos: usize) -> (res: Option<Self>) {
        let len = b.len();
        if pos > len || len - pos < 112 {
            return None;
        }
        Some(BoneHeader {
            name: byte_array_32(b, pos),
            parent: bincode_i32_at(b, pos + 32)?,
            flags: bincode_u32_at(b, pos + 36)?,
            bone_controller: read_i32s_6(b, pos + 40)?,
            value: read_f32s_6(b, pos + 64)?,
            scale: read_f32s_6(b, pos + 88)?,
        })
    }
}

/// An animation sequence.
#[derive(Copy, Clone, Debug)]
pub struct AnimationSequence {
    pub name: [u8; 32],
    pub fps: F32Bits,
    pub flags: i32,
    pub activity: i32,
    pub activity_weight: i32,
    pub num_events: u32,
    pub event_offset: u32,
    pub num_frames: u32,
    pub num_pivots: u32,
    pub pivot_offset: u32,
    pub motion_type: i32,
    pub motion_bone: u32,
    pub linear_movement: [F32Bits; 3],
    pub auto_move_pos_offset: u32,
    pub auto_move_angle_offset: u32,
    pub bounds_min: [F32Bits; 3],
    pub bounds_max: [F32Bits; 3],
    pub num_blends: u32,
    pub animation_offset: u32,
    pub blend_type: [i32; 2],
    pub blend_start: [F32Bits; 2],
    pub blend_end: [F32Bits; 2],
    pub blend_parent: i32,
    pub sequence_group: i32,
    pub entry_node: i32,
    pub exit_node: i32,
    pub node_flags: i32,
    pub next_sequence: i32,
}

impl MdlRecord for AnimationSequence {
    open spec fn spec_size() -> nat {
        176
    }

    open spec fn spec_decode_at(b: Seq<u8>, pos: int) -> Self {
        AnimationSequence {
            name: spec_byte_array_32(b, pos),
            fps: F32Bits(spec_u32_le(b, pos + 32)),
            flags: spec_i32_le(b, pos + 36),
            activity: spec_i32_le(b, pos + 40),
            activity_weight: spec_i32_le(b, pos + 44),
            num_events: spec_u32_le(b, pos + 48),
            event_offset: spec_u32_le(b, pos + 52),
            num_frames: spec_u32_le(b, pos + 56),
            num_pivots: spec_u32_le(b, pos + 60),
            pivot_offset: spec_u32_le(b, pos + 64),
            motion_type: spec_i32_le(b, pos + 68),
            motion_bone: spec_u32_le(b, pos + 72),
            linear_movement: spec_f32s_3(b, pos + 76),
            auto_move_pos_offset: spec_u32_le(b, pos + 88),
            auto_move_angle_offset: spec_u32_le(b, pos + 92),
            bounds_min: spec_f32s_3(b, pos + 96),
            bounds_max: spec_f32s_3(b, pos + 108),
            num_blends: spec_u32_le(b, pos + 120),
            animation_offset: spec_u32_le(b, pos + 124),
            blend_type: spec_i32s_2(b, pos + 128),
            blend_start: spec_f32s_2(b, pos + 136),
            blend_end: spec_f32s_2(b, pos + 144),
            blend_parent: spec_i32_le(b, pos + 152),
            sequence_group: spec_i32_le(b, pos + 156),
            entry_node: spec_i32_le(b, pos + 160),
            exit_node: spec_i32_le(b, pos + 164),
            node_flags: spec_i32_le(b, pos + 168),
            next_sequence: spec_i32_le(b, pos + 172),
        }
    }

    fn size() -> (s: usize) {
        176
    }

    fn read_at(b: &[u8], pos: usize) -> (res: Option<Self>) {
        let len = b.len();
        if pos > len || len - pos < 176 {
            return None;
        }
        Some(AnimationSequence {
            name: byte_array_32(b, pos),
            fps: F32Bits(bincode_u32_at(b, pos + 32)?),
            flags: bincode_i32_at(b, pos + 36)?,
            activity: bincode_i32_at(b, pos + 40)?,
            activity_weight: bincode_i32_at(b, pos + 44)?,
            num_events: bincode_u32_at(b, pos + 48)?,
            event_offset: bincode_u32_at(b, pos + 52)?,
            num_frames: bincode_u32_at(b, pos + 56)?,
            num_pivots: bincode_u32_at(b, pos + 60)?,
            pivot_offset: bincode_u32_at(b, pos + 64)?,
            motion_type: bincode_i32_at(b, pos + 68)?,
            motion_bone: bincode_u32_at(b, pos + 72)?,
            linear_movement: read_f32s_3(b, pos + 76)?,
            auto_move_pos_offset: bincode_u32_at(b, pos + 88)?,
            auto_move_angle_offset: bincode_u32_at(b, pos + 92)?,
            bounds_min: read_f32s_3(b, pos + 96)?,
            bounds_max: read_f32s_3(b, pos + 108)?,
            num_blends: bincode_u32_at(b, pos + 120)?,
            animation_offset: bincode_u32_at(b, pos + 124)?,
            blend_type: read_i32s_2(b, pos + 128)?,
            blend_start: read_f32s_2(b, pos + 136)?,
            blend_end: read_f32s_2(b, pos + 144)?,
            blend_parent: bincode_i32_at(b, pos + 152)?,
            sequence_group: bincode_i32_at(b, pos + 156)?,
            entry_node: bincode_i32_at(b, pos + 160)?,
            exit_node: bincode_i32_at(b, pos + 164)?,
            node_flags: bincode_i32_at(b, pos + 168)?,
            next_sequence: bincode_i32_at(b, pos + 172)?,
        })
    }
}

/// A group of animation sequences stored together.
#[derive(Copy, Clone, Debug)]
pub struct AnimationSequenceGroup {
    pub label: [u8; 32],
    pub name: [u8; 64],
    pub unused_1: i32,
    pub unused_2: i32,
}

impl MdlRecord for AnimationSequenceGroup {
    open spec fn spec_size() -> nat {
        104
    }

    open spec fn spec_decode_at(b: Seq<u8>, pos: int) -> Self {
        AnimationSequenceGroup {
            label: spec_byte_array_32(b, pos),
            name: spec_byte_array_64(b, pos + 32),
            unused_1: spec_i32_le(b, pos + 96),
            unused_2: spec_i32_le(b, pos + 100),
        }
    }

    fn size() -> (s: usize) {
        104
    }

    fn read_at(b: &[u8], pos: usize) -> (res: Option<Self>) {
        let len = b.len();
        if pos > len || len - pos < 104 {
            return None;
        }
        Some(AnimationSequenceGroup {
            label: byte_array_32(b, pos),
            name: byte_array_64(b, pos + 32),
            unused_1: bincode_i32_at(b, pos + 96)?,
            unused_2: bincode_i32_at(b, pos + 100)?,
        })
    }
}

// ---- byte layout of the records ---------------------------------------------

/// The byte layout of the file header (244 bytes, little-endian), up to the
/// view bounds: its fields are read one after another, in the order they
/// are declared.
pub proof fn lemma_mdl_header_layout(b: Seq<u8>, pos: int)
    requires
        0 <= pos,
        pos + 244 <= b.len(),
    ensures
        ({
            let r = MdlHeader::spec_decode_at(b, pos);
            &&& r.id as int == spec_bytes4(b, pos)
            &&& r.version as int == spec_bytes4(b, pos + 4)
            &&& r.name@ == b.subrange(pos + 8, pos + 72)
            &&& r.data_length as int == spec_bytes4(b, pos + 72)
            &&& r.eye_position[0].0 as int == spec_bytes4(b, pos + 76)
            &&& r.eye_position[1].0 as int == spec_bytes4(b, pos + 80)
            &&& r.eye_position[2].0 as int == spec_bytes4(b, pos + 84)
            &&& r.hull_min[0].0 as int == spec_bytes4(b, pos + 88)
            &&& r.hull_min[1].0 as int == spec_bytes4(b, pos + 92)
            &&& r.hull_min[2].0 as int == spec_bytes4(b, pos + 96)
            &&& r.hull_max[0].0 as int == spec_bytes4(b, pos + 100)
            &&& r.hull_max[1].0 as int == spec_bytes4(b, pos + 104)
            &&& r.hull_max[2].0 as int == spec_bytes4(b, pos + 108)
            &&& r.view_bbmin[0].0 as int == spec_bytes4(b, pos + 112)
            &&& r.view_bbmin[1].0 as int == spec_bytes4(b, pos + 116)
            &&& r.view_bbmin[2].0 as int == spec_bytes4(b, pos + 120)
            &&& r.view_bbmax[0].0 as int == spec_bytes4(b, pos + 124)
            &&& r.view_bbmax[1].0 as int == spec_bytes4(b, pos + 128)
            &&& r.view_bbmax[2].0 as int == spec_bytes4(b, pos + 132)
        }),
{
    let r = MdlHeader::spec_decode_at(b, pos);
    assert(r.id as int == spec_bytes4(b, pos)) by {
        lemma_byte_values(b, pos);
    }
    assert(r.version as int == spec_bytes4(b, pos + 4)) by {
        lemma_byte_values(b, pos + 4);
    }
    assert(r.name@ == b.subrange(pos + 8, pos + 72)) by {
        assert(r.name@ =~= b.subrange(pos + 8, pos + 72));
    }
    assert(r.data_length as int == spec_bytes4(b, pos + 72)) by {
        lemma_byte_values(b, pos + 72);
    }
    assert(r.eye_position[0].0 as int == spec_bytes4(b, pos + 76)) by {
        lemma_byte_values(b, pos + 76);
    }
    assert(r.eye_position[1].0 as int == spec_bytes4(b, pos + 80)) by {
        lemma_byte_values(b, pos + 80);
    }
    assert(r.eye_position[2].0 as int == spec_bytes4(b, pos + 84)) by {
        lemma_byte_values(b, pos + 84);
    }
    assert(r.hull_min[0].0 as int == spec_bytes4(b, pos + 88)) by {
        lemma_byte_values(b, pos + 88);
    }
    assert(r.hull_min[1].0 as int == spec_bytes4(b, pos + 92)) by {
        lemma_byte_values(b, pos + 92);
    }
    assert(r.hull_min[2].0 as int == spec_bytes4(b, pos + 96)) by {
        lemma_byte_values(b, pos + 96);
    }
    assert(r.hull_max[0].0 as int == spec_bytes4(b, pos + 100)) by {
        lemma_byte_values(b, pos + 100);
    }
    assert(r.hull_max[1].0 as int == spec_bytes4(b, pos + 104)) by {
        lemma_byte_values(b, pos + 104);
    }
    assert(r.hull_max[2].0 as int == spec_bytes4(b, pos + 108)) by {
        lemma_byte_values(b, pos + 108);
    }
    assert(r.view_bbmin[0].0 as int == spec_bytes4(b, pos + 112)) by {
        lemma_byte_values(b, pos + 112);
    }
    assert(r.view_bbmin[1].0 as int == spec_bytes4(b, pos + 116)) by {
        lemma_byte_values(b, pos + 116);
    }
    assert(r.view_bbmin[2].0 as int == spec_bytes4(b, pos + 120)) by {
        lemma_byte_values(b, pos + 120);
    }
    assert(r.view_bbmax[0].0 as int == spec_bytes4(b, pos + 124)) by {
        lemma_byte_values(b, pos + 124);
    }
    assert(r.view_bbmax[1].0 as int == spec_bytes4(b, pos + 128)) by {
        lemma_byte_values(b, pos + 128);
    }
    assert(r.view_bbmax[2].0 as int == spec_bytes4(b, pos + 132)) by {
        lemma_byte_values(b, pos + 132);
    }
}

/// The byte layout of the file header from byte 136 on: the flags, then the
/// count and offset of each table, four bytes each, in the order they are
/// declared.
pub proof fn lemma_mdl_header_tables_layout(b: Seq<u8>, pos: int)
    requires
        0 <= pos,
        pos + 244 <= b.len(),
    ensures
        ({
            let r = MdlHeader::spec_decode_at(b, pos);
            &&& r.flags as int == spec_bytes4(b, pos + 136)
            &&& r.bone_count as int == spec_bytes4(b, pos + 140)
            &&& r.bone_offset as int == spec_bytes4(b, pos + 144)
            &&& r.bone_controller_count as int == spec_bytes4(b, pos + 148)
            &&& r.bone_controller_offset as int == spec_bytes4(b, pos + 152)
            &&& r.hit_box_count as int == spec_bytes4(b, pos + 156)
            &&& r.hit_box_offset as int == spec_bytes4(b, pos + 160)
            &&& r.anim_seq_count as int == spec_bytes4(b, pos + 164)
            &&& r.anim_seq_offset as int == spec_bytes4(b, pos + 168)
            &&& r.seq_group_count as int == spec_bytes4(b, pos + 172)
            &&& r.seq_group_offset as int == spec_bytes4(b, pos + 176)
            &&& r.texture_count as int == spec_bytes4(b, pos + 180)
            &&& r.texture_offset as int == spec_bytes4(b, pos + 184)
            &&& r.texture_data_index as int == spec_bytes4(b, pos + 188)
            &&& r.skin_ref_count as int == spec_bytes4(b, pos + 192)
            &&& r.skin_families_count as int == spec_bytes4(b, pos + 196)
            &&& r.skin_offset as int == spec_bytes4(b, pos + 200)
            &&& r.body_part_count as int == spec_bytes4(b, pos + 204)
            &&& r.body_part_offset as int == spec_bytes4(b, pos + 208)
            &&& r.attachment_count as int == spec_bytes4(b, pos + 212)
            &&& r.attachment_offset as int == spec_bytes4(b, pos + 216)
            &&& r.sound_table as int == spec_bytes4(b, pos + 220)
            &&& r.sound_offset as int == spec_bytes4(b, pos + 224)
            &&& r.sound_groups as int == spec_bytes4(b, pos + 228)
            &&& r.sound_group_offset as int == spec_bytes4(b, pos + 232)
            &&& r.transitions_count as int == spec_bytes4(b, pos + 236)
            &&& r.transition_offset as int == spec_bytes4(b, pos + 240)
        }),
{
    let r = MdlHeader::spec_decode_at(b, pos);
    assert(r.flags as int == spec_bytes4(b, pos + 136)) by {
        lemma_byte_values(b, pos + 136);
    }
    assert(r.bone_count as int == spec_bytes4(b, pos + 140)) by {
        lemma_byte_values(b, pos + 140);
    }
    assert(r.bone_offset as int == spec_bytes4(b, pos + 144)) by {
        lemma_byte_values(b, pos + 144);
    }
    assert(r.bone_controller_count as int == spec_bytes4(b, pos + 148)) by {
        lemma_byte_values(b, pos + 148);
    }
    assert(r.bone_controller_offset as int == spec_bytes4(b, pos + 152)) by {
        lemma_byte_values(b, pos + 152);
    }
    assert(r.hit_box_count as int == spec_bytes4(b, pos + 156)) by {
        lemma_byte_values(b, pos + 156);
    }
    assert(r.hit_box_offset as int == spec_bytes4(b, pos + 160)) by {
        lemma_byte_values(b, pos + 160);
    }
    assert(r.anim_seq_count as int == spec_bytes4(b, pos + 164)) by {
        lemma_byte_values(b, pos + 164);
    }
    assert(r.anim_seq_offset as int == spec_bytes4(b, pos + 168)) by {
        lemma_byte_values(b, pos + 168);
    }
    assert(r.seq_group_count as int == spec_bytes4(b, pos + 172)) by {
        lemma_byte_values(b, pos + 172);
    }
    assert(r.seq_group_offset as int == spec_bytes4(b, pos + 176)) by {
        lemma_byte_values(b, pos + 176);
    }
    assert(r.texture_count as int == spec_bytes4(b, pos + 180)) by {
        lemma_byte_values(b, pos + 180);
    }
    assert(r.texture_offset as int == spec_bytes4(b, pos + 184)) by {
        lemma_byte_values(b, pos + 184);
    }
    assert(r.texture_data_index as int == spec_bytes4(b, pos + 188)) by {
        lemma_byte_values(b, pos + 188);
    }
    assert(r.skin_ref_count as int == spec_bytes4(b, pos + 192)) by {
        lemma_byte_values(b, pos + 192);
    }
    assert(r.skin_families_count as int == spec_bytes4(b, pos + 196)) by {
        lemma_byte_values(b, pos + 196);
    }
    assert(r.skin_offset as int == spec_bytes4(b, pos + 200)) by {
        lemma_byte_values(b, pos + 200);
    }
    assert(r.body_part_count as int == spec_bytes4(b, pos + 204)) by {
        lemma_byte_values(b, pos + 204);
    }
    assert(r.body_part_offset as int == spec_bytes4(b, pos + 208)) by {
        lemma_byte_values(b, pos + 208);
    }
    assert(r.attachment_count as int == spec_bytes4(b, pos + 212)) by {
        lemma_byte_values(b, pos + 212);
    }
    assert(r.attachment_offset as int == spec_bytes4(b, pos + 216)) by {
        lemma_byte_values(b, pos + 216);
    }
    assert(r.sound_table as int == spec_bytes4(b, pos + 220)) by {
        lemma_byte_values(b, pos + 220);
    }
    assert(r.sound_offset as int == spec_bytes4(b, pos + 224)) by {
        lemma_byte_values(b, pos + 224);
    }
    assert(r.sound_groups as int == spec_bytes4(b, pos + 228)) by {
        lemma_byte_values(b, pos + 228);
    }
    assert(r.sound_group_offset as int == spec_bytes4(b, pos + 232)) by {
        lemma_byte_values(b, pos + 232);
    }
    assert(r.transitions_count as int == spec_bytes4(b, pos + 236)) by {
        lemma_byte_values(b, pos + 236);
    }
    assert(r.transition_offset as int == spec_bytes4(b, pos + 240)) by {
        lemma_byte_values(b, pos + 240);
    }
}

/// The byte layout of a texture header (80 bytes, little-endian): its fields are read
/// one after another, in the order they are declared.
pub proof fn lemma_texture_header_layout(b: Seq<u8>, pos: int)
    requires
        0 <= pos,
        pos + 80 <= b.len(),
    ensures
        ({
            let r = TextureHeader::spec_decode_at(b, pos);
            &&& r.name@ == b.subrange(pos + 0, pos + 64)
            &&& r.flags as int == spec_bytes4(b, pos + 64)
            &&& r.width as int == spec_bytes4(b, pos + 68)
            &&& r.height as int == spec_bytes4(b, pos + 72)
            &&& r.offset as int == spec_bytes4(b, pos + 76)
        }),
{
    let r = TextureHeader::spec_decode_at(b, pos);
    assert(r.name@ == b.subrange(pos, pos + 64)) by {
        assert(r.name@ =~= b.subrange(pos, pos + 64));
    }
    assert(r.flags as int == spec_bytes4(b, pos + 64)) by {
        lemma_byte_values(b, pos + 64);
    }
    assert(r.width as int == spec_bytes4(b, pos + 68)) by {
        lemma_byte_values(b, pos + 68);
    }
    assert(r.height as int == spec_bytes4(b, pos + 72)) by {
        lemma_byte_values(b, pos + 72);
    }
    assert(r.offset as int == spec_bytes4(b, pos + 76)) by {
        lemma_byte_values(b, pos + 76);
    }
}

/// The byte layout of a body part header (76 bytes, little-endian): its fields are read
/// one after another, in the order they are declared.
pub proof fn lemma_body_part_header_layout(b: Seq<u8>, pos: int)
    requires
        0 <= pos,
        pos + 76 <= b.len(),
    ensures
        ({
            let r = BodyPartHeader::spec_decode_at(b, pos);
            &&& r.name@ == b.subrange(pos + 0, pos + 64)
            &&& r.model_count as int == spec_bytes4(b, pos + 64)
            &&& r.base as int == spec_bytes4(b, pos + 68)
            &&& r.model_offset as int == spec_bytes4(b, pos + 72)
        }),
{
    let r = BodyPartHeader::spec_decode_at(b, pos);
    assert(r.name@ == b.subrange(pos, pos + 64)) by {
        assert(r.name@ =~= b.subrange(pos, pos + 64));
    }
    assert(r.model_count as int == spec_bytes4(b, pos + 64)) by {
        lemma_byte_values(b, pos + 64);
    }
    assert(r.base as int == spec_bytes4(b, pos + 68)) by {
        lemma_byte_values(b, pos + 68);
    }
    assert(r.model_offset as int == spec_bytes4(b, pos + 72)) by {
        lemma_byte_values(b, pos + 72);
    }
}

/// The byte layout of a model header (112 bytes, little-endian): its fields are read
/// one after another, in the order they are declared.
pub proof fn lemma_model_header_layout(b: Seq<u8>, pos: int)
    requires
        0 <= pos,
        pos + 112 <= b.len(),
    ensures
        ({
            let r = ModelHeader::spec_decode_at(b, pos);
            &&& r.name@ == b.subrange(pos + 0, pos + 64)
            &&& r.model_type as int == spec_bytes4(b, pos + 64)
            &&& r.bounding_radius.0 as int == spec_bytes4(b, pos + 68)
            &&& r.mesh_count as int == spec_bytes4(b, pos + 72)
            &&& r.mesh_offset as int == spec_bytes4(b, pos + 76)
            &&& r.vertex_count as int == spec_bytes4(b, pos + 80)
            &&& r.vertex_info_offset as int == spec_bytes4(b, pos + 84)
            &&& r.vertex_offset as int == spec_bytes4(b, pos + 88)
            &&& r.normal_count as int == spec_bytes4(b, pos + 92)
            &&& r.normal_info_offset as int == spec_bytes4(b, pos + 96)
            &&& r.normal_offset as int == spec_bytes4(b, pos + 100)
            &&& r.groups_count as int == spec_bytes4(b, pos + 104)
            &&& r.groups_offset as int == spec_bytes4(b, pos + 108)
        }),
{
    let r = ModelHeader::spec_decode_at(b, pos);
    assert(r.name@ == b.subrange(pos, pos + 64)) by {
        assert(r.name@ =~= b.subrange(pos, pos + 64));
    }
    assert(r.model_type as int == spec_bytes4(b, pos + 64)) by {
        lemma_byte_values(b, pos + 64);
    }
    assert(r.bounding_radius.0 as int == spec_bytes4(b, pos + 68)) by {
        lemma_byte_values(b, pos + 68);
    }
    assert(r.mesh_count as int == spec_bytes4(b, pos + 72)) by {
        lemma_byte_values(b, pos + 72);
    }
    assert(r.mesh_offset as int == spec_bytes4(b, pos + 76)) by {
        lemma_byte_values(b, pos + 76);
    }
    assert(r.vertex_count as int == spec_bytes4(b, pos + 80)) by {
        lemma_byte_values(b, pos + 80);
    }
    assert(r.vertex_info_offset as int == spec_bytes4(b, pos + 84)) by {
        lemma_byte_values(b, pos + 84);
    }
    assert(r.vertex_offset as int == spec_bytes4(b, pos + 88)) by {
        lemma_byte_values(b, pos + 88);
    }
    assert(r.normal_count as int == spec_bytes4(b, pos + 92)) by {
        lemma_byte_values(b, pos + 92);
    }
    assert(r.normal_info_offset as int == spec_bytes4(b, pos + 96)) by {
        lemma_byte_values(b, pos + 96);
    }
    assert(r.normal_offset as int == spec_bytes4(b, pos + 100)) by {
        lemma_byte_values(b, pos + 100);
    }
    assert(r.groups_count as int == spec_bytes4(b, pos + 104)) by {
        lemma_byte_values(b, pos + 104);
    }
    assert(r.groups_offset as int == spec_bytes4(b, pos + 108)) by {
        lemma_byte_values(b, pos + 108);
    }
}

/// The byte layout of a mesh header (20 bytes, little-endian): its fields are read
/// one after another, in the order they are declared.
pub proof fn lemma_mesh_header_layout(b: Seq<u8>, pos: int)
    requires
        0 <= pos,
        pos + 20 <= b.len(),
    ensures
        ({
            let r = MeshHeader::spec_decode_at(b, pos);
            &&& r.trivert_count as int == spec_bytes4(b, pos)
            &&& r.trivert_offset as int == spec_bytes4(b, pos + 4)
            &&& r.skin_ref as int == spec_bytes4(b, pos + 8)
            &&& r.normal_count as int == spec_bytes4(b, pos + 12)
            &&& r.normal_offset as int == spec_bytes4(b, pos + 16)
        }),
{
    let r = MeshHeader::spec_decode_at(b, pos);
    assert(r.trivert_count as int == spec_bytes4(b, pos)) by {
        lemma_byte_values(b, pos);
    }
    assert(r.trivert_offset as int == spec_bytes4(b, pos + 4)) by {
        lemma_byte_values(b, pos + 4);
    }
    assert(r.skin_ref as int == spec_bytes4(b, pos + 8)) by {
        lemma_byte_values(b, pos + 8);
    }
    assert(r.normal_count as int == spec_bytes4(b, pos + 12)) by {
        lemma_byte_values(b, pos + 12);
    }
    assert(r.normal_offset as int == spec_bytes4(b, pos + 16)) by {
        lemma_byte_values(b, pos + 16);
    }
}

/// The byte layout of a corner of a strip or fan (8 bytes, little-endian): its fields are read
/// one after another, in the order they are declared.
pub proof fn lemma_vertex_header_layout(b: Seq<u8>, pos: int)
    requires
        0 <= pos,
        pos + 8 <= b.len(),
    ensures
        ({
            let r = VertexHeader::spec_decode_at(b, pos);
            &&& r.vertex_index as int == spec_bytes2(b, pos)
            &&& r.normal_index as int == spec_bytes2(b, pos + 2)
            &&& r.s as int == spec_bytes2(b, pos + 4)
            &&& r.t as int == spec_bytes2(b, pos + 6)
        }),
{
    let r = VertexHeader::spec_decode_at(b, pos);
    assert(r.vertex_index as int == spec_bytes2(b, pos)) by {
        lemma_two_byte_values(b, pos);
    }
    assert(r.normal_index as int == spec_bytes2(b, pos + 2)) by {
        lemma_two_byte_values(b, pos + 2);
    }
    assert(r.s as int == spec_bytes2(b, pos + 4)) by {
        lemma_two_byte_values(b, pos + 4);
    }
    assert(r.t as int == spec_bytes2(b, pos + 6)) by {
        lemma_two_byte_values(b, pos + 6);
    }
}

/// The byte layout of a bone header (112 bytes, little-endian): its fields are read
/// one after another, in the order they are declared.
pub proof fn lemma_bone_header_layout(b: Seq<u8>, pos: int)
    requires
        0 <= pos,
        pos + 112 <= b.len(),
    ensures
        ({
            let r = BoneHeader::spec_decode_at(b, pos);
            &&& r.name@ == b.subrange(pos + 0, pos + 32)
            &&& r.parent as int == spec_signed4(b, pos + 32)
            &&& r.flags as int == spec_bytes4(b, pos + 36)
            &&& r.bone_controller[0] as int == spec_signed4(b, pos + 40)
            &&& r.bone_controller[1] as int == spec_signed4(b, pos + 44)
            &&& r.bone_controller[2] as int == spec_signed4(b, pos + 48)
            &&& r.bone_controller[3] as int == spec_signed4(b, pos + 52)
            &&& r.bone_controller[4] as int == spec_signed4(b, pos + 56)
            &&& r.bone_controller[5] as int == spec_signed4(b, pos + 60)
            &&& r.value[0].0 as int == spec_bytes4(b, pos + 64)
            &&& r.value[1].0 as int == spec_bytes4(b, pos + 68)
            &&& r.value[2].0 as int == spec_bytes4(b, pos + 72)
            &&& r.value[3].0 as int == spec_bytes4(b, pos + 76)
            &&& r.value[4].0 as int == spec_bytes4(b, pos + 80)
            &&& r.value[5].0 as int == spec_bytes4(b, pos + 84)
            &&& r.scale[0].0 as int == spec_bytes4(b, pos + 88)
            &&& r.scale[1].0 as int == spec_bytes4(b, pos + 92)
            &&& r.scale[2].0 as int == spec_bytes4(b, pos + 96)
            &&& r.scale[3].0 as int == spec_bytes4(b, pos + 100)
            &&& r.scale[4].0 as int == spec_bytes4(b, pos + 104)
            &&& r.scale[5].0 as int == spec_bytes4(b, pos + 108)
        }),
{
    let r = BoneHeader::spec_decode_at(b, pos);
    assert(r.name@ == b.subrange(pos, pos + 32)) by {
        assert(r.name@ =~= b.subrange(pos, pos + 32));
    }
    assert(r.parent as int == spec_signed4(b, pos + 32)) by {
        lemma_byte_values(b, pos + 32);
    }
    assert(r.flags as int == spec_bytes4(b, pos + 36)) by {
        lemma_byte_values(b, pos + 36);
    }
    assert(r.bone_controller[0] as int == spec_signed4(b, pos + 40)) by {
        lemma_byte_values(b, pos + 40);
    }
    assert(r.bone_controller[1] as int == spec_signed4(b, pos + 44)) by {
        lemma_byte_values(b, pos + 44);
    }
    assert(r.bone_controller[2] as int == spec_signed4(b, pos + 48)) by {
        lemma_byte_values(b, pos + 48);
    }
    assert(r.bone_controller[3] as int == spec_signed4(b, pos + 52)) by {
        lemma_byte_values(b, pos + 52);
    }
    assert(r.bone_controller[4] as int == spec_signed4(b, pos + 56)) by {
        lemma_byte_values(b, pos + 56);
    }
    assert(r.bone_controller[5] as int == spec_signed4(b, pos + 60)) by {
        lemma_byte_values(b, pos + 60);
    }
    assert(r.value[0].0 as int == spec_bytes4(b, pos + 64)) by {
        lemma_byte_values(b, pos + 64);
    }
    assert(r.value[1].0 as int == spec_bytes4(b, pos + 68)) by {
        lemma_byte_values(b, pos + 68);
    }
    assert(r.value[2].0 as int == spec_bytes4(b, pos + 72)) by {
        lemma_byte_values(b, pos + 72);
    }
    assert(r.value[3].0 as int == spec_bytes4(b, pos + 76)) by {
        lemma_byte_values(b, pos + 76);
    }
    assert(r.value[4].0 as int == spec_bytes4(b, pos + 80)) by {
        lemma_byte_values(b, pos + 80);
    }
    assert(r.value[5].0 as int == spec_bytes4(b, pos + 84)) by {
        lemma_byte_values(b, pos + 84);
    }
    assert(r.scale[0].0 as int == spec_bytes4(b, pos + 88)) by {
        lemma_byte_values(b, pos + 88);
    }
    assert(r.scale[1].0 as int == spec_bytes4(b, pos + 92)) by {
        lemma_byte_values(b, pos + 92);
    }
    assert(r.scale[2].0 as int == spec_bytes4(b, pos + 96)) by {
        lemma_byte_values(b, pos + 96);
    }
    assert(r.scale[3].0 as int == spec_bytes4(b, pos + 100)) by {
        lemma_byte_values(b, pos + 100);
    }
    assert(r.scale[4].0 as int == spec_bytes4(b, pos + 104)) by {
        lemma_byte_values(b, pos + 104);
    }
    assert(r.scale[5].0 as int == spec_bytes4(b, pos + 108)) by {
        lemma_byte_values(b, pos + 108);
    }
}

/// The byte layout of a sequence header (176 bytes, little-endian): its fields are read
/// one after another, in the order they are declared.
pub proof fn lemma_animation_sequence_layout(b: Seq<u8>, pos: int)
    requires
        0 <= pos,
        pos + 176 <= b.len(),
    ensures
        ({
            let r = AnimationSequence::spec_decode_at(b, pos);
            &&& r.name@ == b.subrange(pos + 0, pos + 32)
            &&& r.fps.0 as int == spec_bytes4(b, pos + 32)
            &&& r.flags as int == spec_signed4(b, pos + 36)
            &&& r.activity as int == spec_signed4(b, pos + 40)
            &&& r.activity_weight as int == spec_signed4(b, pos + 44)
            &&& r.num_events as int == spec_bytes4(b, pos + 48)
            &&& r.event_offset as int == spec_bytes4(b, pos + 52)
            &&& r.num_frames as int == spec_bytes4(b, pos + 56)
            &&& r.num_pivots as int == spec_bytes4(b, pos + 60)
            &&& r.pivot_offset as int == spec_bytes4(b, pos + 64)
            &&& r.motion_type as int == spec_signed4(b, pos + 68)
            &&& r.motion_bone as int == spec_bytes4(b, pos + 72)
            &&& r.linear_movement[0].0 as int == spec_bytes4(b, pos + 76)
            &&& r.linear_movement[1].0 as int == spec_bytes4(b, pos + 80)
            &&& r.linear_movement[2].0 as int == spec_bytes4(b, pos + 84)
            &&& r.auto_move_pos_offset as int == spec_bytes4(b, pos + 88)
            &&& r.auto_move_angle_offset as int == spec_bytes4(b, pos + 92)
            &&& r.bounds_min[0].0 as int == spec_bytes4(b, pos + 96)
            &&& r.bounds_min[1].0 as int == spec_bytes4(b, pos + 100)
            &&& r.bounds_min[2].0 as int == spec_bytes4(b, pos + 104)
            &&& r.bounds_max[0].0 as int == spec_bytes4(b, pos + 108)
            &&& r.bounds_max[1].0 as int == spec_bytes4(b, pos + 112)
            &&& r.bounds_max[2].0 as int == spec_bytes4(b, pos + 116)
            &&& r.num_blends as int == spec_bytes4(b, pos + 120)
            &&& r.animation_offset as int == spec_bytes4(b, pos + 124)
            &&& r.blend_type[0] as int == spec_signed4(b, pos + 128)
            &&& r.blend_type[1] as int == spec_signed4(b, pos + 132)
            &&& r.blend_start[0].0 as int == spec_bytes4(b, pos + 136)
            &&& r.blend_start[1].0 as int == spec_bytes4(b, pos + 140)
            &&& r.blend_end[0].0 as int == spec_bytes4(b, pos + 144)
            &&& r.blend_end[1].0 as int == spec_bytes4(b, pos + 148)
            &&& r.blend_parent as int == spec_signed4(b, pos + 152)
            &&& r.sequence_group as int == spec_signed4(b, pos + 156)
            &&& r.entry_node as int == spec_signed4(b, pos + 160)
            &&& r.exit_node as int == spec_signed4(b, pos + 164)
            &&& r.node_flags as int == spec_signed4(b, pos + 168)
            &&& r.next_sequence as int == spec_signed4(b, pos + 172)
        }),
{
    let r = AnimationSequence::spec_decode_at(b, pos);
    assert(r.name@ == b.subrange(pos, pos + 32)) by {
        assert(r.name@ =~= b.subrange(pos, pos + 32));
    }
    assert(r.fps.0 as int == spec_bytes4(b, pos + 32)) by {
        lemma_byte_values(b, pos + 32);
    }
    assert(r.flags as int == spec_signed4(b, pos + 36)) by {
        lemma_byte_values(b, pos + 36);
    }
    assert(r.activity as int == spec_signed4(b, pos + 40)) by {
        lemma_byte_values(b, pos + 40);
    }
    assert(r.activity_weight as int == spec_signed4(b, pos + 44)) by {
        lemma_byte_values(b, pos + 44);
    }
    assert(r.num_events as int == spec_bytes4(b, pos + 48)) by {
        lemma_byte_values(b, pos + 48);
    }
    assert(r.event_offset as int == spec_bytes4(b, pos + 52)) by {
        lemma_byte_values(b, pos + 52);
    }
    assert(r.num_frames as int == spec_bytes4(b, pos + 56)) by {
        lemma_byte_values(b, pos + 56);
    }
    assert(r.num_pivots as int == spec_bytes4(b, pos + 60)) by {
        lemma_byte_values(b, pos + 60);
    }
    assert(r.pivot_offset as int == spec_bytes4(b, pos + 64)) by {
        lemma_byte_values(b, pos + 64);
    }
    assert(r.motion_type as int == spec_signed4(b, pos + 68)) by {
        lemma_byte_values(b, pos + 68);
    }
    assert(r.motion_bone as int == spec_bytes4(b, pos + 72)) by {
        lemma_byte_values(b, pos + 72);
    }
    assert(r.linear_movement[0].0 as int == spec_bytes4(b, pos + 76)) by {
        lemma_byte_values(b, pos + 76);
    }
    assert(r.linear_movement[1].0 as int == spec_bytes4(b, pos + 80)) by {
        lemma_byte_values(b, pos + 80);
    }
    assert(r.linear_movement[2].0 as int == spec_bytes4(b, pos + 84)) by {
        lemma_byte_values(b, pos + 84);
    }
    assert(r.auto_move_pos_offset as int == spec_bytes4(b, pos + 88)) by {
        lemma_byte_values(b, pos + 88);
    }
    assert(r.auto_move_angle_offset as int == spec_bytes4(b, pos + 92)) by {
        lemma_byte_values(b, pos + 92);
    }
    assert(r.bounds_min[0].0 as int == spec_bytes4(b, pos + 96)) by {
        lemma_byte_values(b, pos + 96);
    }
    assert(r.bounds_min[1].0 as int == spec_bytes4(b, pos + 100)) by {
        lemma_byte_values(b, pos + 100);
    }
    assert(r.bounds_min[2].0 as int == spec_bytes4(b, pos + 104)) by {
        lemma_byte_values(b, pos + 104);
    }
    assert(r.bounds_max[0].0 as int == spec_bytes4(b, pos + 108)) by {
        lemma_byte_values(b, pos + 108);
    }
    assert(r.bounds_max[1].0 as int == spec_bytes4(b, pos + 112)) by {
        lemma_byte_values(b, pos + 112);
    }
    assert(r.bounds_max[2].0 as int == spec_bytes4(b, pos + 116)) by {
        lemma_byte_values(b, pos + 116);
    }
    assert(r.num_blends as int == spec_bytes4(b, pos + 120)) by {
        lemma_byte_values(b, pos + 120);
    }
    assert(r.animation_offset as int == spec_bytes4(b, pos + 124)) by {
        lemma_byte_values(b, pos + 124);
    }
    assert(r.blend_type[0] as int == spec_signed4(b, pos + 128)) by {
        lemma_byte_values(b, pos + 128);
    }
    assert(r.blend_type[1] as int == spec_signed4(b, pos + 132)) by {
        lemma_byte_values(b, pos + 132);
    }
    assert(r.blend_start[0].0 as int == spec_bytes4(b, pos + 136)) by {
        lemma_byte_values(b, pos + 136);
    }
    assert(r.blend_start[1].0 as int == spec_bytes4(b, pos + 140)) by {
        lemma_byte_values(b, pos + 140);
    }
    assert(r.blend_end[0].0 as int == spec_bytes4(b, pos + 144)) by {
        lemma_byte_values(b, pos + 144);
    }
    assert(r.blend_end[1].0 as int == spec_bytes4(b, pos + 148)) by {
        lemma_byte_values(b, pos + 148);
    }
    assert(r.blend_parent as int == spec_signed4(b, pos + 152)) by {
        lemma_byte_values(b, pos + 152);
    }
    assert(r.sequence_group as int == spec_signed4(b, pos + 156)) by {
        lemma_byte_values(b, pos + 156);
    }
    assert(r.entry_node as int == spec_signed4(b, pos + 160)) by {
        lemma_byte_values(b, pos + 160);
    }
    assert(r.exit_node as int == spec_signed4(b, pos + 164)) by {
        lemma_byte_values(b, pos + 164);
    }
    assert(r.node_flags as int == spec_signed4(b, pos + 168)) by {
        lemma_byte_values(b, pos + 168);
    }
    assert(r.next_sequence as int == spec_signed4(b, pos + 172)) by {
        lemma_byte_values(b, pos + 172);
    }
}

/// The byte layout of a sequence group (104 bytes, little-endian): its fields are read
/// one after another, in the order they are declared.
pub proof fn lemma_animation_sequence_group_layout(b: Seq<u8>, pos: int)
    requires
        0 <= pos,
        pos + 104 <= b.len(),
    ensures
        ({
            let r = AnimationSequenceGroup::spec_decode_at(b, pos);
            &&& r.label@ == b.subrange(pos + 0, pos + 32)
            &&& r.name@ == b.subrange(pos + 32, pos + 96)
            &&& r.unused_1 as int == spec_signed4(b, pos + 96)
            &&& r.unused_2 as int == spec_signed4(b, pos + 100)
        }),
{
    let r = AnimationSequenceGroup::spec_decode_at(b, pos);
    assert(r.label@ == b.subrange(pos, pos + 32)) by {
        assert(r.label@ =~= b.subrange(pos, pos + 32));
    }
    assert(r.name@ == b.subrange(pos + 32, pos + 96)) by {
        assert(r.name@ =~= b.subrange(pos + 32, pos + 96));
    }
    assert(r.unused_1 as int == spec_signed4(b, pos + 96)) by {
        lemma_byte_values(b, pos + 96);
    }
    assert(r.unused_2 as int == spec_signed4(b, pos + 100)) by {
        lemma_byte_values(b, pos + 100);
    }
}


// ---- runs of records --------------------------------------------------------

/// `count` records of type `T` stored one after another from `offset`.
pub open spec fn spec_record_seq<T: MdlRecord>(b: Seq<u8>, offset: int, count: int) -> Seq<T> {
    Seq::new(count as nat, |i: int| T::spec_decode_at(b, offset + i * T::spec_size()))
}

/// `count` records of type `T` from `offset` lie within `b`.
pub open spec fn spec_records_fit<T: MdlRecord>(b: Seq<u8>, offset: int, count: int) -> bool {
    offset + count * T::spec_size() <= b.len()
}

proof fn lemma_record_in_run(i: int, count: int, size: int)
    requires
        0 <= i < count,
        0 < size,
    ensures
        i * size + size <= count * size,
        0 <= i * size,
{
    assert(i * size + size == (i + 1) * size) by (nonlinear_arith);
    assert((i + 1) * size <= count * size) by (nonlinear_arith)
        requires
            i + 1 <= count,
            0 < size,
    ;
    assert(0 <= i * size) by (nonlinear_arith)
        requires
            0 <= i,
            0 < size,
    ;
}

/// Reads `count` records of type `T` stored one after another from `offset`,
/// as a reader positioned at `offset` would; `None` when they run past the end.
pub fn read_records<T: MdlRecord>(b: &[u8], offset: u32, count: u32) -> (res: Option<Vec<T>>)
    ensures
        res is Some <==> spec_records_fit::<T>(b@, offset as int, count as int),
        res matches Some(v) ==> v@ == spec_record_seq::<T>(b@, offset as int, count as int),
{
    let size = T::size();
    let len = b.len();
    assert(count as u64 * size as u64 <= 0xffff_ffff * 4096) by (nonlinear_arith)
        requires
            size <= 4096,
    ;
    let total: u64 = offset as u64 + count as u64 * size as u64;
    if total > len as u64 {
        return None;
    }
    let mut out: Vec<T> = Vec::new();
    let mut i: u32 = 0;
    while i < count
        invariant
            size as nat == T::spec_size(),
            0 < size <= 4096,
            len == b@.len(),
            total == offset + count * size,
            total <= len,
            0 <= i <= count,
            out@.len() == i,
            forall|j: int|
                0 <= j < i ==> out@[j] == T::spec_decode_at(b@, offset + j * T::spec_size()),
        decreases count - i,
    {
        proof {
            lemma_record_in_run(i as int, count as int, size as int);
        }
        let pos: usize = offset as usize + i as usize * size;
        match T::read_at(b, pos) {
            Some(r) => out.push(r),
            None => return None,
        }
        i += 1;
    }
    assert(out@ =~= spec_record_seq::<T>(b@, offset as int, count as int));
    Some(out)
}

// ---- names ------------------------------------------------------------------

/// How a 64-byte name field reads leniently: invalid UTF-8 as U+FFFD, without
/// leading and trailing NUL characters.
pub open spec fn spec_lossy_name(name: Seq<u8>) -> Seq<char> {
    decode_utf8(spec_trim_nul(encode_utf8(spec_utf8_lossy(name))))
}

impl MdlHeader {
    pub fn name(&self) -> (res: &[u8; 64])
        ensures
            *res == self.name,
    {
        &self.name
    }

    /// The model's name; `None` when the name field is not valid UTF-8.
    pub fn name_string(&self) -> (res: Option<String>)
        ensures
            res is Some <==> valid_utf8(self.name@),
            res matches Some(s) ==> s@ == decode_utf8(spec_trim_nul(self.name@)),
    {
        utf8_name(self.name.as_slice())
    }
}

impl TextureHeader {
    pub fn name(&self) -> (res: &[u8; 64])
        ensures
            *res == self.name,
    {
        &self.name
    }

    pub fn name_string(&self) -> (res: String)
        ensures
            res@ == spec_lossy_name(self.name@),
    {
        lossy_name(self.name.as_slice())
    }
}

impl BodyPartHeader {
    pub fn name(&self) -> (res: &[u8; 64])
        ensures
            *res == self.name,
    {
        &self.name
    }

    pub fn name_string(&self) -> (res: String)
        ensures
            res@ == spec_lossy_name(self.name@),
    {
        lossy_name(self.name.as_slice())
    }
}

impl ModelHeader {
    pub fn name(&self) -> (res: &[u8; 64])
        ensures
            *res == self.name,
    {
        &self.name
    }

    pub fn name_string(&self) -> (res: String)
        ensures
            res@ == spec_lossy_name(self.name@),
    {
        lossy_name(self.name.as_slice())
    }
}

impl AnimationSequenceGroup {
    pub fn name(&self) -> (res: &[u8; 64])
        ensures
            *res == self.name,
    {
        &self.name
    }
}

// ---- transform channels -----------------------------------------------------

/// An axis of a vector.
#[derive(Copy, Clone, Debug, PartialEq, Eq, Structural)]
pub enum VectorChannel {
    X,
    Y,
    Z,
}

/// The component of a bone's transform that an animation channel drives.
#[derive(Copy, Clone, Debug, PartialEq, Eq, Structural)]
pub enum ComponentTransformTarget {
    Translation(VectorChannel),
    Rotation(VectorChannel),
}

/// The axis of channel `index` (0 to 5): X, Y, Z, then X, Y, Z again.
pub open spec fn spec_vector_channel(index: int) -> VectorChannel {
    if index % 3 == 0 {
        VectorChannel::X
    } else if index % 3 == 1 {
        VectorChannel::Y
    } else {
        VectorChannel::Z
    }
}

/// Channels 0 to 2 translate along X, Y, Z; channels 3 to 5 rotate about them.
pub open spec fn spec_transform_target(index: int) -> ComponentTransformTarget {
    if index < 3 {
        ComponentTransformTarget::Translation(spec_vector_channel(index))
    } else {
        ComponentTransformTarget::Rotation(spec_vector_channel(index))
    }
}

impl VectorChannel {
    pub fn from_index(index: usize) -> (res: Self)
        requires
            index <= 5,
        ensures
            res == spec_vector_channel(index as int),
    {
        match index {
            0 | 3 => VectorChannel::X,
            1 | 4 => VectorChannel::Y,
            _ => VectorChannel::Z,
        }
    }
}

impl ComponentTransformTarget {
    pub fn from_index(index: usize) -> (res: Self)
        requires
            index <= 5,
        ensures
            res == spec_transform_target(index as int),
    {
        if index < 3 {
            ComponentTransformTarget::Translation(VectorChannel::from_index(index))
        } else {
            ComponentTransformTarget::Rotation(VectorChannel::from_index(index))
        }
    }
}

/// Records of a table are packed one after another: record `i` of a table
/// at `offset` starts `i` record sizes after it (244 bytes for the file
/// header, 80 for a texture, 76 for a body part, 112 for a model, 20 for a
/// mesh, 8 for a corner, 112 for a bone, 176 for a sequence, 104 for a
/// sequence group).
pub proof fn lemma_tables_are_packed(b: Seq<u8>, offset: int, count: int)
    ensures
        forall|i: int| 0 <= i < count ==> #[trigger] spec_record_seq::<MdlHeader>(b, offset, count)[i] == MdlHeader::spec_decode_at(b, offset + 244 * i),
        forall|i: int| 0 <= i < count ==> #[trigger] spec_record_seq::<TextureHeader>(b, offset, count)[i] == TextureHeader::spec_decode_at(b, offset + 80 * i),
        forall|i: int| 0 <= i < count ==> #[trigger] spec_record_seq::<BodyPartHeader>(b, offset, count)[i] == BodyPartHeader::spec_decode_at(b, offset + 76 * i),
        forall|i: int| 0 <= i < count ==> #[trigger] spec_record_seq::<ModelHeader>(b, offset, count)[i] == ModelHeader::spec_decode_at(b, offset + 112 * i),
        forall|i: int| 0 <= i < count ==> #[trigger] spec_record_seq::<MeshHeader>(b, offset, count)[i] == MeshHeader::spec_decode_at(b, offset + 20 * i),
        forall|i: int| 0 <= i < count ==> #[trigger] spec_record_seq::<VertexHeader>(b, offset, count)[i] == VertexHeader::spec_decode_at(b, offset + 8 * i),
        forall|i: int| 0 <= i < count ==> #[trigger] spec_record_seq::<BoneHeader>(b, offset, count)[i] == BoneHeader::spec_decode_at(b, offset + 112 * i),
        forall|i: int| 0 <= i < count ==> #[trigger] spec_record_seq::<AnimationSequence>(b, offset, count)[i] == AnimationSequence::spec_decode_at(b, offset + 176 * i),
        forall|i: int| 0 <= i < count ==> #[trigger] spec_record_seq::<AnimationSequenceGroup>(b, offset, count)[i] == AnimationSequenceGroup::spec_decode_at(b, offset + 104 * i),
{
}

} // verus!
