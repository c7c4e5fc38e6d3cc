//! Reading of MDL model files from their bytes.
use vstd::prelude::*;
use vstd::utf8::*;
use vstd::slice::slice_to_vec;
use crate::text::spec_trim_nul;

pub mod records;
pub mod geometry;
pub mod animation;

pub use records::{
    MdlRecord, MdlHeader, TextureHeader, BodyPartHeader, ModelHeader, MeshHeader, VertexHeader,
    BoneHeader, AnimationSequence, AnimationSequenceGroup, VectorChannel, ComponentTransformTarget,
    read_records, spec_record_seq, spec_records_fit,
};
pub use geometry::{
    MdlMeshVertex, MdlMeshSequenceType, MdlMeshSequence, MdlMesh, MdlModel, MdlBodyPart, MdlTexture,
    spec_body_part_ok, spec_body_part_matches, spec_textures_ok, spec_textures_match, read_body_part,
    read_textures,
};
pub use animation::{
    Animation, BoneAnimation, BoneChannelAnimation, EncodedAnimationValue, decode_animation_frame, read_animations,
    spec_animations, spec_animation_views,
};

verus! {

/// The size of the header at the start of an MDL file.
pub const MDL_HEADER_SIZE: usize = 244;

/// A model read from an MDL file: its textures, body parts, skeleton and
/// animations, with the file's bytes.
pub struct MdlFile {
    pub name: String,
    pub textures: Vec<MdlTexture>,
    pub body_parts: Vec<MdlBodyPart>,
    pub bones: Vec<BoneHeader>,
    pub animation_sequences: Vec<AnimationSequence>,
    pub animation_sequence_groups: Vec<AnimationSequenceGroup>,
    pub animations: Vec<Animation>,
    /// The model's header, with the texture directory fields of the texture
    /// file when the textures are stored there.
    pub header: MdlHeader,
    pub raw_data: Vec<u8>,
}

/// The header of the file `b`.
pub open spec fn spec_header(b: Seq<u8>) -> MdlHeader {
    MdlHeader::spec_decode_at(b, 0)
}

/// The bytes of an optional file.
pub open spec fn spec_opt_bytes(o: Option<&[u8]>) -> Option<Seq<u8>> {
    match o {
        Some(t) => Some(t@),
        None => None,
    }
}

/// Where the textures of the model `data` are read from, with the header
/// that locates them: the model file itself, or, when its header lists no
/// texture, the separate texture file (which must be given and have a header).
pub open spec fn spec_texture_source(data: Seq<u8>, tex: Option<Seq<u8>>) -> Option<(Seq<u8>, MdlHeader)> {
    if spec_header(data).texture_count != 0 {
        Some((data, spec_header(data)))
    } else {
        match tex {
            Some(t) => if 244 <= t.len() {
                Some((t, spec_header(t)))
            } else {
                None
            },
            None => None,
        }
    }
}

/// Every part of the model `data` can be read.
pub open spec fn spec_mdl_ok(data: Seq<u8>, tex: Option<Seq<u8>>) -> bool {
    let h = spec_header(data);
    &&& 244 <= data.len()
    &&& valid_utf8(h.name@)
    &&& spec_texture_source(data, tex) matches Some((tb, th))
    &&& spec_textures_ok(tb, th.texture_offset, th.texture_count)
    &&& spec_records_fit::<BodyPartHeader>(data, h.body_part_offset as int, h.body_part_count as int)
    &&& forall|i: int|
        0 <= i < h.body_part_count ==> spec_body_part_ok(
            data,
            #[trigger] spec_record_seq::<BodyPartHeader>(
                data,
                h.body_part_offset as int,
                h.body_part_count as int,
            )[i],
        )
    &&& spec_records_fit::<BoneHeader>(data, h.bone_offset as int, h.bone_count as int)
    &&& spec_records_fit::<AnimationSequence>(data, h.anim_seq_offset as int, h.anim_seq_count as int)
    &&& spec_records_fit::<AnimationSequenceGroup>(
        data,
        h.seq_group_offset as int,
        h.seq_group_count as int,
    )
    &&& spec_animations(
        data,
        spec_record_seq::<AnimationSequence>(data, h.anim_seq_offset as int, h.anim_seq_count as int),
        spec_record_seq::<AnimationSequenceGroup>(data, h.seq_group_offset as int, h.seq_group_count as int),
        spec_record_seq::<BoneHeader>(data, h.bone_offset as int, h.bone_count as int),
        0,
    ) is Some
}

/// The header a model keeps: the header of `data`, with the texture count,
/// offset and data index of the header its textures are read through.
pub open spec fn spec_mdl_header(data: Seq<u8>, tex: Option<Seq<u8>>) -> MdlHeader {
    let h = spec_header(data);
    match spec_texture_source(data, tex) {
        Some((_, th)) => MdlHeader {
            texture_count: th.texture_count,
            texture_offset: th.texture_offset,
            texture_data_index: th.texture_data_index,
            ..h
        },
        None => h,
    }
}

/// `f` is the model that `data` (with its texture file `tex`) holds.
pub open spec fn spec_mdl_matches(f: MdlFile, data: Seq<u8>, tex: Option<Seq<u8>>) -> bool {
    let h = spec_header(data);
    let seqs = spec_record_seq::<AnimationSequence>(data, h.anim_seq_offset as int, h.anim_seq_count as int);
    let groups = spec_record_seq::<AnimationSequenceGroup>(
        data,
        h.seq_group_offset as int,
        h.seq_group_count as int,
    );
    let bones = spec_record_seq::<BoneHeader>(data, h.bone_offset as int, h.bone_count as int);
    &&& f.name@ == decode_utf8(spec_trim_nul(h.name@))
    &&& spec_texture_source(data, tex) matches Some((tb, th))
    &&& spec_textures_match(f.textures@, tb, th.texture_offset, th.texture_count)
    &&& f.body_parts@.len() == h.body_part_count
    &&& forall|i: int|
        0 <= i < h.body_part_count ==> spec_body_part_matches(
            #[trigger] f.body_parts@[i],
            data,
            spec_record_seq::<BodyPartHeader>(data, h.body_part_offset as int, h.body_part_count as int)[i],
        )
    &&& f.bones@ == bones
    &&& f.animation_sequences@ == seqs
    &&& f.animation_sequence_groups@ == groups
    &&& spec_animations(data, seqs, groups, bones, 0) == Some(spec_animation_views(f.animations@))
    &&& f.header == spec_mdl_header(data, tex)
    &&& f.raw_data@ == data
}

impl MdlFile {
    /// Whether the model `data` keeps its textures in a separate file (its
    /// header lists no texture); `None` when `data` has no header.
    pub fn textures_in_separate_file(data: &[u8]) -> (res: Option<bool>)
        ensures
            res is Some <==> 244 <= data@.len(),
            res matches Some(r) ==> r == (spec_header(data@).texture_count == 0),
    {
        let header = MdlHeader::read_at(data, 0)?;
        Some(header.texture_count == 0)
    }

    /// Reads the model stored in `data`; `texture_data` is the separate
    /// texture file, needed when the model's header lists no texture. `None`
    /// when a part cannot be read.
    pub fn from_bytes(data: &[u8], texture_data: Option<&[u8]>) -> (res: Option<MdlFile>)
        ensures
            res is Some <==> spec_mdl_ok(data@, spec_opt_bytes(texture_data)),
            res matches Some(f) ==> spec_mdl_matches(f, data@, spec_opt_bytes(texture_data)),
    {
        let ghost tex = spec_opt_bytes(texture_data);
        let mut header = MdlHeader::read_at(data, 0)?;
        let file_name = header.name_string()?;
        let textures = if header.texture_count == 0 {
            let texture_bytes = texture_data?;
            let texture_header = MdlHeader::read_at(texture_bytes, 0)?;
            header.texture_count = texture_header.texture_count;
            header.texture_offset = texture_header.texture_offset;
            header.texture_data_index = texture_header.texture_data_index;
            read_textures(texture_bytes, texture_header.texture_offset, texture_header.texture_count)?
        } else {
            read_textures(data, header.texture_offset, header.texture_count)?
        };
        let h = MdlHeader::read_at(data, 0)?;
        let ghost bphs = spec_record_seq::<BodyPartHeader>(
            data@,
            h.body_part_offset as int,
            h.body_part_count as int,
        );
        let body_part_headers = read_records::<BodyPartHeader>(data, h.body_part_offset, h.body_part_count)?;
        let mut body_parts: Vec<MdlBodyPart> = Vec::new();
        let n = body_part_headers.len();
        let mut i: usize = 0;
        while i < n
            invariant
                n == body_part_headers@.len(),
                body_part_headers@ == bphs,
                bphs == spec_record_seq::<BodyPartHeader>(
                    data@,
                    h.body_part_offset as int,
                    h.body_part_count as int,
                ),
                n == h.body_part_count,
                h == spec_header(data@),
                0 <= i <= n,
                body_parts@.len() == i,
                forall|j: int|
                    0 <= j < i ==> spec_body_part_matches(#[trigger] body_parts@[j], data@, bphs[j]),
                forall|j: int| 0 <= j < i ==> spec_body_part_ok(data@, #[trigger] bphs[j]),
            decreases n - i,
        {
            match read_body_part(data, &body_part_headers[i]) {
                Some(p) => body_parts.push(p),
                None => {
                    assert(!spec_body_part_ok(data@, bphs[i as int]));
                    return None;
                },
            }
            i += 1;
        }
        let bones = read_records::<BoneHeader>(data, h.bone_offset, h.bone_count)?;
        let sequences = read_records::<AnimationSequence>(data, h.anim_seq_offset, h.anim_seq_count)?;
        let sequence_groups = read_records::<AnimationSequenceGroup>(
            data,
            h.seq_group_offset,
            h.seq_group_count,
        )?;
        let animations = read_animations(data, &sequences, &sequence_groups, &bones)?;
        Some(
            MdlFile {
                name: file_name,
                textures,
                body_parts,
                bones,
                animation_sequences: sequences,
                animation_sequence_groups: sequence_groups,
                animations,
                header,
                raw_data: slice_to_vec(data),
            },
        )
    }

    /// The bytes of the model file.
    pub fn raw_data(&self) -> (res: &[u8])
        ensures
            res@ == self.raw_data@,
    {
        self.raw_data.as_slice()
    }
}

} // verus!
