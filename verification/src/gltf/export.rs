//! The glTF document: mesh primitives with their index accessors, the
//! optional sections, and the document that ties buffers, views, accessors,
//! nodes and meshes together.
use vstd::prelude::*;
use vstd::string::StringExecFns;
use crate::text::{decimal, spec_decimal};
use super::{join, spec_join, spec_texts, NodeIndex};
use super::buffer::{
    BufferWriter, BufferViewIndex, BufferViewTarget, BufferView, Accessor, BufferType, MinMax, BufferTypeEx,
    spec_fold_min, spec_fold_max, spec_flatten, spec_view_text, spec_accessor_text, BufferTypeMinMax,
};
use crate::bytes::F32Bits;
use super::skin::{Skins, spec_skin_text};
use super::animation::Animations;

verus! {

/// A mesh of a model: the range of its indices and the texture it uses.
pub struct Mesh {
    pub texture_index: usize,
    pub indices_range: core::ops::Range<usize>,
}

/// The JSON text of the material data, made where the material values are
/// known: one entry per material, texture, image and sampler.
pub struct MaterialTexts {
    pub materials: Vec<String>,
    pub textures: Vec<String>,
    pub images: Vec<String>,
    pub samplers: Vec<String>,
}

/// The values of a vertex attribute: two or three single-precision
/// components per vertex, as their bit patterns.
pub enum AttributeData {
    Vec2(Vec<[F32Bits; 2]>),
    Vec3(Vec<[F32Bits; 3]>),
}

/// A vertex attribute: its name, its values, and the text of its bounds when
/// the accessor has them.
pub struct VertexAttribute {
    pub name: String,
    pub data: AttributeData,
    pub min_max: Option<MinMax<String>>,
}

/// The bytes of an attribute's values.
pub open spec fn spec_attribute_bytes(a: VertexAttribute) -> Seq<u8> {
    match a.data {
        AttributeData::Vec2(d) => spec_flatten(d@),
        AttributeData::Vec3(d) => spec_flatten(d@),
    }
}

/// The number of an attribute's values.
pub open spec fn spec_attribute_count(a: VertexAttribute) -> nat {
    match a.data {
        AttributeData::Vec2(d) => d@.len(),
        AttributeData::Vec3(d) => d@.len(),
    }
}

/// The bytes of some attributes' values, one attribute after another.
pub open spec fn spec_attributes_bytes(attrs: Seq<VertexAttribute>) -> Seq<u8>
    decreases attrs.len(),
{
    if attrs.len() == 0 {
        Seq::empty()
    } else {
        spec_attributes_bytes(attrs.drop_last()) + spec_attribute_bytes(attrs.last())
    }
}

/// The view of an attribute whose bytes start at `offset`.
pub open spec fn spec_attribute_view(a: VertexAttribute, offset: int) -> BufferView {
    BufferView {
        buffer: 0,
        byte_offset: offset as usize,
        byte_len: spec_attribute_bytes(a).len() as usize,
        stride: match a.data {
            AttributeData::Vec2(_) => <[F32Bits; 2] as BufferType>::spec_stride(),
            AttributeData::Vec3(_) => <[F32Bits; 3] as BufferType>::spec_stride(),
        },
        target: Some(BufferViewTarget::ArrayBuffer),
    }
}

/// The views of some attributes, one after another from byte `start`.
pub open spec fn spec_attribute_views(attrs: Seq<VertexAttribute>, start: int) -> Seq<BufferView>
    decreases attrs.len(),
{
    if attrs.len() == 0 {
        Seq::empty()
    } else {
        spec_attribute_views(attrs.drop_last(), start).push(
            spec_attribute_view(attrs.last(), start + spec_attributes_bytes(attrs.drop_last()).len()),
        )
    }
}

/// The accessor of an attribute over all of view `view`.
pub open spec fn spec_attribute_accessor(a: VertexAttribute, view: int) -> Accessor {
    Accessor {
        buffer_view: view as usize,
        byte_offset: 0,
        count: spec_attribute_count(a) as usize,
        component_ty: match a.data {
            AttributeData::Vec2(_) => <[F32Bits; 2] as BufferType>::spec_component_ty(),
            AttributeData::Vec3(_) => <[F32Bits; 3] as BufferType>::spec_component_ty(),
        },
        ty: match a.data {
            AttributeData::Vec2(_) => <[F32Bits; 2] as BufferType>::spec_data_ty(),
            AttributeData::Vec3(_) => <[F32Bits; 3] as BufferType>::spec_data_ty(),
        },
        min_max: a.min_max,
    }
}

/// The accessors of some attributes, over views numbered from `first_view`.
pub open spec fn spec_attribute_accessors(attrs: Seq<VertexAttribute>, first_view: int) -> Seq<Accessor> {
    Seq::new(attrs.len(), |k: int| spec_attribute_accessor(attrs[k], first_view + k))
}

/// The line of a vertex attribute in a primitive's `attributes` object.
pub open spec fn spec_attribute_line(name: Seq<char>, accessor: usize) -> Seq<char> {
    "            \""@ + name + "\" : "@ + spec_decimal(accessor as nat)
}

/// The members of a primitive's `attributes` object, for attributes whose
/// accessors are numbered from `first_accessor`.
pub open spec fn spec_attributes_text(attrs: Seq<VertexAttribute>, first_accessor: int) -> Seq<char> {
    spec_join(
        Seq::new(attrs.len(), |k: int| spec_attribute_line(attrs[k].name@, (first_accessor + k) as usize)),
        ",\n"@,
    )
}

/// The view that holds a model's indices, at byte `offset`.
pub open spec fn spec_indices_view(indices: Seq<u32>, offset: int) -> BufferView {
    BufferView {
        buffer: 0,
        byte_offset: offset as usize,
        byte_len: spec_flatten(indices).len() as usize,
        stride: <u32 as BufferType>::spec_stride(),
        target: Some(BufferViewTarget::ElementArrayBuffer),
    }
}

/// The JSON object of a primitive.
pub open spec fn spec_primitive_text(attributes: Seq<char>, accessor: nat, material: nat) -> Seq<char> {
    "         {\n            \"attributes\" : {\n"@ + attributes + "\n            },\n            \"indices\" : "@ + spec_decimal(accessor) + ",\n            \"material\" : "@
        + spec_decimal(material) + "\n        }"@
}

/// The primitives of the meshes, whose index accessors are numbered from
/// `first_accessor`.
pub open spec fn spec_primitives(attributes: Seq<char>, first_accessor: nat, meshes: Seq<Mesh>) -> Seq<Seq<char>> {
    Seq::new(
        meshes.len(),
        |k: int| spec_primitive_text(attributes, (first_accessor + k) as nat, meshes[k].texture_index as nat),
    )
}

/// A section with its items, one per line after the opening line.
pub open spec fn spec_section(open: Seq<char>, items: Seq<Seq<char>>, close: Seq<char>) -> Seq<Seq<char>> {
    if items.len() == 0 {
        Seq::empty()
    } else {
        seq![open + spec_join(items, ",\n"@) + close]
    }
}

/// The optional sections of the document, in order, leaving out the empty ones.
pub open spec fn spec_parts(
    skins: Seq<Seq<char>>,
    animations: Seq<Seq<char>>,
    materials: Seq<Seq<char>>,
    textures: Seq<Seq<char>>,
    images: Seq<Seq<char>>,
    samplers: Seq<Seq<char>>,
) -> Seq<Seq<char>> {
    spec_section("    \"skins\" : [\n        "@, skins, "\n    ]"@)
        + spec_section("    \"animations\" : [\n        "@, animations, "\n    ]"@)
        + spec_section("    \"materials\" : [\n"@, materials, "\n    ]"@)
        + spec_section("    \"textures\" : [\n"@, textures, "\n    ]"@)
        + spec_section("    \"images\" : [\n"@, images, "\n    ]"@)
        + spec_section("    \"samplers\" : [\n"@, samplers, "\n    ]"@)
}

/// The text of the document.
pub open spec fn spec_document(
    scene_root: nat,
    nodes: Seq<char>,
    primitives: Seq<char>,
    buffer_name: Seq<char>,
    buffer_len: nat,
    views: Seq<char>,
    accessors: Seq<char>,
    parts: Seq<char>,
) -> Seq<char> {
    "{\n        \"scene\" : 0,\n        \"scenes\" : [\n            {\n                \"nodes\" : [ "@ + spec_decimal(scene_root) + " ]\n            }\n        ],\n        \"nodes\" : [\n"@ + nodes + "\n        ],\n        \n        \"meshes\" : [\n            {\n            \"primitives\" : [ \n"@ + primitives
        + "\n             ]\n            }\n        ],\n\n          \"buffers\" : [\n            {\n                \"uri\" : \""@ + buffer_name + "\",\n                \"byteLength\" : "@ + spec_decimal(buffer_len) + "\n            }\n          ],\n\n            \"bufferViews\" : [\n                "@ + views
        + "\n            ],\n\n            \"accessors\" : [\n                "@ + accessors + "\n            ],\n\n"@ + parts + ",\n\n            \"asset\" : {\n                \"version\" : \"2.0\"\n            }\n        }\n    "@
}

fn section(open: &str, items: &Vec<String>, close: &str, out: &mut Vec<String>)
    ensures
        spec_texts(final(out)@) == spec_texts(old(out)@) + spec_section(open@, spec_texts(items@), close@),
{
    if items.len() == 0 {
        assert(spec_texts(out@) =~= spec_texts(out@) + Seq::<Seq<char>>::empty());
        return;
    }
    let mut text = String::from_str(open);
    text.append(join(items, ",\n").as_str());
    text.append(close);
    let ghost before = spec_texts(out@);
    out.push(text);
    assert(spec_texts(out@) =~= before + spec_section(open@, spec_texts(items@), close@));
}

/// The index accessors of `meshes`, one per mesh in order, over `indices_view`.
pub open spec fn spec_mesh_accessors_match(
    accessors: Seq<super::buffer::Accessor>,
    first: int,
    indices_view: BufferViewIndex,
    indices: Seq<u32>,
    meshes: Seq<Mesh>,
) -> bool {
    &&& accessors.len() == first + meshes.len()
    &&& forall|k: int|
        0 <= k < meshes.len() ==> {
            let a = #[trigger] accessors[first + k];
            let r = meshes[k].indices_range;
            let slice = indices.subrange(r.start as int, r.end as int);
            &&& a.buffer_view == indices_view.0
            &&& a.byte_offset == r.start * 4
            &&& a.count == r.end - r.start
            &&& a.component_ty == <u32 as super::buffer::BufferType>::spec_component_ty()
            &&& a.ty == <u32 as super::buffer::BufferType>::spec_data_ty()
            &&& a.min_max matches Some(m)
            &&& m.min@ == spec_fold_min(slice).spec_write_value()
            &&& m.max@ == spec_fold_max(slice).spec_write_value()
        }
}

proof fn lemma_attribute_views_len(attrs: Seq<VertexAttribute>, start: int)
    ensures
        spec_attribute_views(attrs, start).len() == attrs.len(),
    decreases attrs.len(),
{
    if attrs.len() > 0 {
        lemma_attribute_views_len(attrs.drop_last(), start);
    }
}

/// Writes the document of a model: first a view holding the indices, then a
/// view and an accessor for each vertex attribute, then an index accessor
/// (with its bounds) for each mesh over the index view, and the text that
/// ties them together with the nodes, materials, skins and animations.
pub fn write_gltf(
    buffer_name: &str,
    buffer_writer: &mut BufferWriter,
    indices: &[u32],
    meshes: &[Mesh],
    vertex_attributes: &Vec<VertexAttribute>,
    material_data: &MaterialTexts,
    scene_root: NodeIndex,
    nodes: &Vec<String>,
    skins: &Skins,
    animations: &Animations,
) -> (res: String)
    requires
        indices@.len() * 4 <= usize::MAX,
        forall|k: int|
            0 <= k < meshes@.len() ==> (#[trigger] meshes@[k]).indices_range.start
                <= meshes@[k].indices_range.end <= indices@.len(),
    ensures
        old(buffer_writer).spec_views_in_buffer() ==> final(buffer_writer).spec_views_in_buffer(),
        final(buffer_writer).spec_sizes_fit(),
        final(buffer_writer).spec_buffer() == old(buffer_writer).spec_buffer() + spec_flatten(indices@)
            + spec_attributes_bytes(vertex_attributes@),
        final(buffer_writer).spec_views() == old(buffer_writer).spec_views().push(
            spec_indices_view(indices@, old(buffer_writer).spec_buffer().len() as int),
        ) + spec_attribute_views(
            vertex_attributes@,
            old(buffer_writer).spec_buffer().len() + spec_flatten(indices@).len() as int,
        ),
        final(buffer_writer).spec_accessors().subrange(
            0,
            old(buffer_writer).spec_accessors().len() + vertex_attributes@.len() as int,
        ) == old(buffer_writer).spec_accessors() + spec_attribute_accessors(
            vertex_attributes@,
            old(buffer_writer).spec_views().len() + 1 as int,
        ),
        spec_mesh_accessors_match(
            final(buffer_writer).spec_accessors(),
            old(buffer_writer).spec_accessors().len() + vertex_attributes@.len() as int,
            BufferViewIndex(old(buffer_writer).spec_views().len() as usize),
            indices@,
            meshes@,
        ),
        res@ == spec_document(
            scene_root.0 as nat,
            spec_join(spec_texts(nodes@), ",\n"@),
            spec_join(
                spec_primitives(
                    spec_attributes_text(vertex_attributes@, old(buffer_writer).spec_accessors().len() as int),
                    old(buffer_writer).spec_accessors().len() + vertex_attributes@.len(),
                    meshes@,
                ),
                ",\n"@,
            ),
            buffer_name@,
            final(buffer_writer).spec_buffer().len(),
            spec_join(
                final(buffer_writer).spec_views().map_values(|v: super::buffer::BufferView| spec_view_text(v)),
                ",\n"@,
            ),
            spec_join(
                final(buffer_writer).spec_accessors().map_values(|a: super::buffer::Accessor| spec_accessor_text(a)),
                ",\n"@,
            ),
            spec_join(
                spec_parts(
                    skins.spec_skins().map_values(|s: super::skin::Skin| spec_skin_text(s)),
                    animations.spec_animations().map_values(|a: super::animation::Animation| a.spec_text()),
                    spec_texts(material_data.materials@),
                    spec_texts(material_data.textures@),
                    spec_texts(material_data.images@),
                    spec_texts(material_data.samplers@),
                ),
                ",\n"@,
            ),
        ),
{
    let ghost ob = old(buffer_writer).spec_buffer();
    let ghost ov = old(buffer_writer).spec_views();
    let ghost oa = old(buffer_writer).spec_accessors();
    let ghost in_buffer = old(buffer_writer).spec_views_in_buffer();
    let ghost attrs = vertex_attributes@;

    // The indices, in a view of their own.
    let indices_view = buffer_writer.create_view(indices, Some(BufferViewTarget::ElementArrayBuffer));
    let ghost iv_views = buffer_writer.spec_views();
    let ghost start: int = ob.len() + spec_flatten(indices@).len() as int;

    // The vertex attributes, each in a view with an accessor over it.
    let mut attribute_lines: Vec<String> = Vec::new();
    let m = vertex_attributes.len();
    let mut i: usize = 0;
    assert(attrs.take(0) =~= Seq::<VertexAttribute>::empty());
    assert(iv_views + spec_attribute_views(attrs.take(0), start) =~= iv_views);
    assert(oa + spec_attribute_accessors(attrs.take(0), ov.len() + 1 as int) =~= oa);
    assert(buffer_writer.spec_buffer() =~= ob + spec_flatten(indices@) + spec_attributes_bytes(attrs.take(0)));
    while i < m
        invariant
            m == attrs.len(),
            attrs == vertex_attributes@,
            0 <= i <= m,
            indices_view.0 == ov.len(),
            iv_views == ov.push(spec_indices_view(indices@, ob.len() as int)),
            start == ob.len() + spec_flatten(indices@).len() as int,
            buffer_writer.spec_buffer() == ob + spec_flatten(indices@) + spec_attributes_bytes(attrs.take(i as int)),
            buffer_writer.spec_views() == iv_views + spec_attribute_views(attrs.take(i as int), start),
            buffer_writer.spec_accessors() == oa + spec_attribute_accessors(attrs.take(i as int), ov.len() + 1 as int),
            in_buffer ==> buffer_writer.spec_views_in_buffer(),
            attribute_lines@.len() == i,
            forall|j: int|
                0 <= j < i ==> (#[trigger] attribute_lines@[j])@ == spec_attribute_line(
                    attrs[j].name@,
                    (oa.len() + j) as usize,
                ),
        decreases m - i,
    {
        let a = &vertex_attributes[i];
        let ghost t = attrs.take(i as int);
        let ghost t1 = attrs.take(i + 1);
        proof {
            assert(t1.drop_last() =~= t);
            assert(t1.last() == attrs[i as int]);
        }
        let ghost b0 = buffer_writer.spec_buffer();
        let ghost v0 = buffer_writer.spec_views();
        let ghost a0 = buffer_writer.spec_accessors();
        let accessor = match &a.data {
            AttributeData::Vec2(d) => {
                let view = buffer_writer.create_view(d.as_slice(), Some(BufferViewTarget::ArrayBuffer));
                match &a.min_max {
                    Some(t) => buffer_writer.create_accessor_with_min_max_text::<[F32Bits; 2]>(
                        view,
                        0,
                        d.len(),
                        MinMax { min: t.min.clone(), max: t.max.clone() },
                    ),
                    None => buffer_writer.create_accessor::<[F32Bits; 2]>(view, 0, d.len()),
                }
            },
            AttributeData::Vec3(d) => {
                let view = buffer_writer.create_view(d.as_slice(), Some(BufferViewTarget::ArrayBuffer));
                match &a.min_max {
                    Some(t) => buffer_writer.create_accessor_with_min_max_text::<[F32Bits; 3]>(
                        view,
                        0,
                        d.len(),
                        MinMax { min: t.min.clone(), max: t.max.clone() },
                    ),
                    None => buffer_writer.create_accessor::<[F32Bits; 3]>(view, 0, d.len()),
                }
            },
        };
        proof {
            lemma_attribute_views_len(t, start);
            assert(v0.len() == ov.len() + 1 + i);
            assert(buffer_writer.spec_buffer() =~= ob + spec_flatten(indices@) + spec_attributes_bytes(t1));
            assert(buffer_writer.spec_views() =~= iv_views + spec_attribute_views(t1, start));
            assert(buffer_writer.spec_accessors() =~= oa + spec_attribute_accessors(t1, ov.len() + 1 as int));
        }
        let mut line = String::from_str("            \"");
        line.append(a.name.as_str());
        line.append("\" : ");
        line.append(decimal(accessor.0 as u64).as_str());
        attribute_lines.push(line);
        i += 1;
    }
    assert(attrs.take(m as int) =~= attrs);
    assert(spec_texts(attribute_lines@) =~= Seq::new(
        attrs.len(),
        |k: int| spec_attribute_line(attrs[k].name@, (oa.len() + k) as usize),
    ));
    let attributes = join(&attribute_lines, ",\n");
    let ghost mid_accessors = buffer_writer.spec_accessors();
    let ghost mid_buffer = buffer_writer.spec_buffer();
    let ghost mid_views = buffer_writer.spec_views();

    let ghost first = (oa.len() + attrs.len()) as int;
    let mut primitive_accessors: Vec<(usize, usize)> = Vec::new();
    let n = meshes.len();
    let mut k: usize = 0;
    while k < n
        invariant
            n == meshes@.len(),
            0 <= k <= n,
            indices@.len() * 4 <= usize::MAX,
            forall|j: int|
                0 <= j < meshes@.len() ==> (#[trigger] meshes@[j]).indices_range.start
                    <= meshes@[j].indices_range.end <= indices@.len(),
            buffer_writer.spec_buffer() == mid_buffer,
            buffer_writer.spec_views() == mid_views,
            buffer_writer.spec_accessors().subrange(0, first) == mid_accessors,
            first == mid_accessors.len(),
            indices_view.0 == ov.len(),
            spec_mesh_accessors_match(
                buffer_writer.spec_accessors(),
                first,
                BufferViewIndex(ov.len() as usize),
                indices@,
                meshes@.take(k as int),
            ),
            primitive_accessors@.len() == k,
            forall|j: int|
                0 <= j < k ==> (#[trigger] primitive_accessors@[j]).0 == first + j
                    && primitive_accessors@[j].1 == meshes@[j].texture_index,
        decreases n - k,
    {
        let start = meshes[k].indices_range.start;
        let end = meshes[k].indices_range.end;
        let slice = &indices[start..end];
        let (min, max) = u32::find_min_max(slice);
        let ghost before = buffer_writer.spec_accessors();
        let accessor = buffer_writer.create_accessor_with_min_max(
            indices_view,
            start * 4,
            end - start,
            MinMax { min, max },
        );
        proof {
            let after = buffer_writer.spec_accessors();
            assert(after.drop_last() == before);
            assert(after.subrange(0, first) =~= before.subrange(0, first));
            assert forall|j: int| 0 <= j < k + 1 implies {
                let a = #[trigger] after[first + j];
                let r = meshes@.take(k + 1)[j].indices_range;
                let sl = indices@.subrange(r.start as int, r.end as int);
                &&& a.buffer_view == indices_view.0
                &&& a.byte_offset == r.start * 4
                &&& a.count == r.end - r.start
                &&& a.component_ty == <u32 as super::buffer::BufferType>::spec_component_ty()
                &&& a.ty == <u32 as super::buffer::BufferType>::spec_data_ty()
                &&& a.min_max matches Some(m)
                &&& m.min@ == spec_fold_min(sl).spec_write_value()
                &&& m.max@ == spec_fold_max(sl).spec_write_value()
            } by {
                if j < k {
                    assert(after[first + j] == before[first + j]);
                    assert(meshes@.take(k + 1)[j] == meshes@.take(k as int)[j]);
                } else {
                    assert(slice@ =~= indices@.subrange(start as int, end as int));
                }
            }
        }
        primitive_accessors.push((accessor.0, meshes[k].texture_index));
        k += 1;
    }
    assert(meshes@.take(n as int) =~= meshes@);

    // The primitives.
    let mut primitives: Vec<String> = Vec::new();
    let mut j: usize = 0;
    while j < n
        invariant
            n == meshes@.len(),
            n == primitive_accessors@.len(),
            0 <= j <= n,
            primitives@.len() == j,
            forall|q: int|
                0 <= q < n ==> (#[trigger] primitive_accessors@[q]).0 == first + q
                    && primitive_accessors@[q].1 == meshes@[q].texture_index,
            forall|q: int|
                0 <= q < j ==> (#[trigger] primitives@[q])@ == spec_primitive_text(
                    attributes@,
                    (first + q) as nat,
                    meshes@[q].texture_index as nat,
                ),
        decreases n - j,
    {
        let (accessor, material) = primitive_accessors[j];
        let mut text = String::from_str("         {\n            \"attributes\" : {\n");
        text.append(attributes.as_str());
        text.append("\n            },\n            \"indices\" : ");
        text.append(decimal(accessor as u64).as_str());
        text.append(",\n            \"material\" : ");
        text.append(decimal(material as u64).as_str());
        text.append("\n        }");
        primitives.push(text);
        j += 1;
    }
    assert(spec_texts(primitives@) =~= spec_primitives(
        spec_attributes_text(vertex_attributes@, oa.len() as int),
        first as nat,
        meshes@,
    ));
    let primitives = join(&primitives, ",\n");

    // Views and accessors.
    let buffer_views = buffer_writer.write_buffer_views();
    let gltf_accessors = buffer_writer.write_accessors();
    assert(spec_texts(buffer_views@) =~= buffer_writer.spec_views().map_values(
        |v: super::buffer::BufferView| spec_view_text(v),
    ));
    assert(spec_texts(gltf_accessors@) =~= buffer_writer.spec_accessors().map_values(
        |a: super::buffer::Accessor| spec_accessor_text(a),
    ));
    let buffer_views = join(&buffer_views, ",\n");
    let accessors = join(&gltf_accessors, ",\n");

    // The optional sections.
    let mut gltf_parts: Vec<String> = Vec::new();
    let skin_texts = skins.write_skins();
    assert(spec_texts(skin_texts@) =~= skins.spec_skins().map_values(|s: super::skin::Skin| spec_skin_text(s)));
    section("    \"skins\" : [\n        ", &skin_texts, "\n    ]", &mut gltf_parts);
    let animation_texts = animations.write_animations();
    assert(spec_texts(animation_texts@) =~= animations.spec_animations().map_values(
        |a: super::animation::Animation| a.spec_text(),
    ));
    section("    \"animations\" : [\n        ", &animation_texts, "\n    ]", &mut gltf_parts);
    section("    \"materials\" : [\n", &material_data.materials, "\n    ]", &mut gltf_parts);
    section("    \"textures\" : [\n", &material_data.textures, "\n    ]", &mut gltf_parts);
    section("    \"images\" : [\n", &material_data.images, "\n    ]", &mut gltf_parts);
    section("    \"samplers\" : [\n", &material_data.samplers, "\n    ]", &mut gltf_parts);
    assert(spec_texts(gltf_parts@) =~= spec_parts(
        spec_texts(skin_texts@),
        spec_texts(animation_texts@),
        spec_texts(material_data.materials@),
        spec_texts(material_data.textures@),
        spec_texts(material_data.images@),
        spec_texts(material_data.samplers@),
    ));
    let parts_text = join(&gltf_parts, ",\n");

    let mut text = String::from_str("{\n        \"scene\" : 0,\n        \"scenes\" : [\n            {\n                \"nodes\" : [ ");
    text.append(decimal(scene_root.0 as u64).as_str());
    text.append(" ]\n            }\n        ],\n        \"nodes\" : [\n");
    text.append(join(nodes, ",\n").as_str());
    text.append("\n        ],\n        \n        \"meshes\" : [\n            {\n            \"primitives\" : [ \n");
    text.append(primitives.as_str());
    text.append("\n             ]\n            }\n        ],\n\n          \"buffers\" : [\n            {\n                \"uri\" : \"");
    text.append(buffer_name);
    text.append("\",\n                \"byteLength\" : ");
    text.append(decimal(buffer_writer.buffer_len() as u64).as_str());
    text.append("\n            }\n          ],\n\n            \"bufferViews\" : [\n                ");
    text.append(buffer_views.as_str());
    text.append("\n            ],\n\n            \"accessors\" : [\n                ");
    text.append(accessors.as_str());
    text.append("\n            ],\n\n");
    text.append(parts_text.as_str());
    text.append(",\n\n            \"asset\" : {\n                \"version\" : \"2.0\"\n            }\n        }\n    ");
    text
}

} // verus!
