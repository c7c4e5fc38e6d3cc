use goldsrc_assets::gltf::{add_and_get_index, convert_coordinates, join};

#[test]
fn add_and_get_index_returns_previous_length() {
    let mut v = vec![10u32, 20];
    let index = add_and_get_index(&mut v, 30);
    assert_eq!(index, 2);
    assert_eq!(v, vec![10, 20, 30]);
}

#[test]
fn convert_coordinates_cycles_axes() {
    let hl = [1, 2, 3];
    let gltf = convert_coordinates(hl);
    assert_eq!(gltf, [2, 3, 1]);
    assert_eq!(convert_coordinates(convert_coordinates(gltf)), hl);
}

#[test]
fn join_puts_separator_between_parts() {
    let parts = vec!["a".to_string(), "b".to_string(), "c".to_string()];
    assert_eq!(join(&parts, ", "), "a, b, c");
    assert_eq!(join(&Vec::new(), ", "), "");
}

use goldsrc_assets::gltf::animation::{
    Animation, AnimationInterpolation, Animations, Channel, ChannelTarget, GltfTargetPath, Sampler,
    SamplerIndex,
};
use goldsrc_assets::gltf::buffer::{
    AccessorComponentType, AccessorDataType, AccessorIndex, BufferTypeEx, BufferViewAndAccessorPair,
    BufferViewIndex, BufferViewTarget, BufferWriter, MinMax,
};
use goldsrc_assets::gltf::material::{
    Image, ImageIndex, MagFilter, MaterialTables, MinFilter, Sampler as TextureSampler,
    SamplerIndex as TextureSamplerIndex, Texture, Wrap,
};
use goldsrc_assets::gltf::skin::{Skin, Skins};
use goldsrc_assets::gltf::NodeIndex;
use goldsrc_assets::rendering::debug::{
    add_pointing_triangle, append_quad, append_triangle, create_debug_pyramid, create_primitive, DebugVertex,
};

fn view_text(offset: usize, len: usize, extras: &str) -> String {
    format!(
        r#"        {{
            "buffer" : {},
            "byteOffset" : {},
            "byteLength" : {}{}
        }}"#,
        0, offset, len, extras
    )
}

fn accessor_text(view: usize, component: usize, count: usize, ty: &str, extras: &str) -> String {
    format!(
        r#"                {{
                    "bufferView" : {},
                    "byteOffset" : {},
                    "componentType" : {},
                    "count" : {},
                    "type" : "{}"{}
                }}"#,
        view, 0, component, count, ty, extras
    )
}

#[test]
fn buffer_writer_lays_out_views_and_accessors() {
    let mut writer = BufferWriter::new();
    let indices: Vec<u16> = vec![0, 1, 2, 0x0102];
    let index_pair = writer.create_view_and_accessor_with_min_max(&indices, Some(BufferViewTarget::ElementArrayBuffer));
    assert_eq!(index_pair.view.0, 0);
    assert_eq!(index_pair.accessor.0, 0);
    let colours: Vec<[u8; 4]> = vec![[1, 9, 3, 4], [5, 2, 7, 0]];
    let colour_pair = writer.create_view_and_accessor_with_min_max(&colours, None);
    assert_eq!((colour_pair.view.0, colour_pair.accessor.0), (1, 1));
    let plain = writer.create_view_and_accessor(&[7u32], Some(BufferViewTarget::ArrayBuffer));
    assert_eq!((plain.view.0, plain.accessor.0), (2, 2));
    assert_eq!(writer.buffer_len(), 8 + 8 + 4);

    let views = writer.write_buffer_views();
    assert_eq!(views.len(), 3);
    assert_eq!(views[0], view_text(0, 8, ",\n\"target\" : 34963"));
    assert_eq!(views[1], view_text(8, 8, ",\n\"byteStride\" : 4"));
    assert_eq!(views[2], view_text(16, 4, ",\n\"target\" : 34962"));

    let accessors = writer.write_accessors();
    assert_eq!(accessors.len(), 3);
    let min_max = |max: &str, min: &str| {
        format!(
            ",\n{}",
            format!(
                r#"                    "max" : {},
                    "min" : {}"#,
                max, min
            )
        )
    };
    assert_eq!(accessors[0], accessor_text(0, 5123, 4, "SCALAR", &min_max(" [ 258 ]", " [ 0 ]")));
    assert_eq!(accessors[1], accessor_text(1, 5121, 2, "VEC4", &min_max(" [ 5, 9, 7, 4 ]", " [ 1, 2, 3, 0 ]")));
    assert_eq!(accessors[2], accessor_text(2, 5125, 1, "SCALAR", ""));

    let bytes = writer.to_inner();
    assert_eq!(&bytes[0..8], &[0, 0, 1, 0, 2, 0, 2, 1]);
    assert_eq!(&bytes[8..16], &[1, 9, 3, 4, 5, 2, 7, 0]);
    assert_eq!(&bytes[16..20], &7u32.to_le_bytes());
}

#[test]
fn accessors_can_share_a_view() {
    let mut writer = BufferWriter::new();
    let view = writer.create_view(&[1u8, 2, 3, 4], None);
    let a = writer.create_accessor::<u8>(view, 0, 2);
    let b = writer.create_accessor_with_min_max_text::<u8>(
        view,
        2,
        2,
        MinMax { min: " [ 3 ]".to_string(), max: " [ 4 ]".to_string() },
    );
    let c = writer.create_accessor_with_min_max::<u8>(view, 1, 1, MinMax { min: 2, max: 2 });
    assert_eq!((view.0, a.0, b.0, c.0), (0, 0, 1, 2));
    let accessors = writer.write_accessors();
    assert!(accessors[1].contains("\"byteOffset\" : 2,"));
    assert!(accessors[1].ends_with("\"max\" :  [ 4 ],\n                    \"min\" :  [ 3 ]\n                }"));
    assert!(accessors[2].contains("\"min\" :  [ 2 ]"));
    assert_eq!(writer.write_buffer_views()[0], view_text(0, 4, ""));
}

#[test]
fn min_max_of_values_folds_from_the_type_limits() {
    assert_eq!(u16::find_min_max(&[5, 3, 9]), (3, 9));
    assert_eq!(u8::find_min_max(&[]), (255, 0));
    assert_eq!(<[u8; 4]>::find_min_max(&[[1, 9, 3, 4], [5, 2, 7, 0]]), ([1, 2, 3, 0], [5, 9, 7, 4]));
}

#[test]
fn enum_codes_follow_the_gltf_numbers() {
    assert_eq!(BufferViewTarget::ArrayBuffer.value(), 34962);
    assert_eq!(BufferViewTarget::ElementArrayBuffer.value(), 34963);
    assert_eq!(AccessorComponentType::SignedByte.value(), 5120);
    assert_eq!(AccessorComponentType::Float.value(), 5126);
    assert_eq!(AccessorDataType::Mat4.as_str(), "MAT4");
    assert_eq!(AccessorDataType::Vec2.as_str(), "VEC2");
    assert_eq!(GltfTargetPath::Rotation.get_gltf_str(), "rotation");
    assert_eq!(GltfTargetPath::Weights.get_gltf_str(), "weights");
    assert_eq!(AnimationInterpolation::Linear.as_str(), "LINEAR");
    assert_eq!(MagFilter::Linear.value(), 9729);
    assert_eq!(MinFilter::LinearMipMapLinear.value(), 9987);
    assert_eq!(Wrap::ClampToEdge.value(), 33701);
    assert_eq!(Wrap::Repeat.value(), 10497);
}

#[test]
fn skins_are_written_with_their_joints() {
    let mut skins = Skins::new();
    assert!(skins.is_empty());
    let first = skins.add_skin(Skin { inverse_bind_matrices: AccessorIndex(4), joints: vec![NodeIndex(1), NodeIndex(2)] });
    let second = skins.add_skin(Skin { inverse_bind_matrices: AccessorIndex(5), joints: vec![] });
    assert_eq!((first.0, second.0), (0, 1));
    assert!(!skins.is_empty());
    let text = skins.write_skins();
    let expected = |matrices: usize, joints: &str| {
        format!(
            r#"          {{
                        "inverseBindMatrices" : {},
                        "joints" : [
        {}
                        ]
                    }}"#,
            matrices, joints
        )
    };
    assert_eq!(text[0], expected(4, "                           1,\n                           2"));
    assert_eq!(text[1], expected(5, ""));
}

#[test]
fn animations_are_written_with_channels_and_samplers() {
    let mut animation = Animation::new("walk".to_string());
    let s = animation.add_sampler(Sampler { input: AccessorIndex(3), interpolation: AnimationInterpolation::Linear, output: AccessorIndex(4) });
    assert_eq!(s.0, 0);
    let c = animation.add_channel(Channel { sampler: SamplerIndex(0), target: ChannelTarget { node: NodeIndex(7), path: GltfTargetPath::Translation } });
    assert_eq!(c.0, 0);
    let channel = format!(
        r#"           {{
                "sampler" : {},
                "target" : {{
                    "node" : {},
                    "path" : "{}"
                }}
            }}"#,
        0, 7, "translation"
    );
    let sampler = format!(
        r#"           {{
                "input" : {},
                "interpolation" : "{}",
                "output" : {}
            }}"#,
        3, "LINEAR", 4,
    );
    let expected = format!(
        r#"        {{
            "channels" : [
{}
            ],
            "name" : "{}",
            "samplers" : [
{}
            ]
        }}"#,
        channel, "walk", sampler
    );
    assert_eq!(animation.write(), expected);
    let mut animations = Animations::new(2);
    assert!(animations.is_empty());
    assert_eq!(animations.add_animation(animation).0, 0);
    assert_eq!(animations.add_animation(Animation::new("idle".to_string())).0, 1);
    let written = animations.write_animations();
    assert_eq!(written[0], expected);
    assert!(written[1].contains("\"channels\" : [\n\n            ],"));
}

#[test]
fn texture_tables_are_written_in_order() {
    let mut tables = MaterialTables::new();
    let image = tables.add_images(Image { uri: "a.png".to_string() });
    let sampler = tables.add_sampler(TextureSampler {
        mag_filter: MagFilter::Nearest,
        min_filter: MinFilter::NearestMipMapLinear,
        wrap_s: Wrap::MirroredRepeat,
        wrap_t: Wrap::Repeat,
    });
    let texture = tables.add_texture(Texture { sampler: TextureSamplerIndex(sampler.0), source: ImageIndex(image.0) });
    assert_eq!((image.0, sampler.0, texture.0), (0, 0, 0));
    assert_eq!(
        tables.write_textures()[0],
        format!(
            r#"           {{
                "sampler" : {},
                "source" : {}
            }}"#,
            0, 0
        )
    );
    assert_eq!(
        tables.write_images()[0],
        format!(
            r#"         {{
                "uri" : "{}"
            }}"#,
            "a.png"
        )
    );
    assert_eq!(
        tables.write_samplers()[0],
        format!(
            r#"{{
                "magFilter" : {},
                "minFilter" : {},
                "wrapS" : {},
                "wrapT" : {}
            }}"#,
            9728, 9986, 33648, 10497
        )
    );
}

#[test]
fn debug_boxes_have_eight_corners_and_twelve_triangles() {
    let mut indices = vec![99u32];
    let mut vertices = vec![DebugVertex { pos: [0, 0, 0], uv: [0, 0] }];
    let range = create_primitive(&[-1, -2, -3], &[1, 2, 3], &mut indices, &mut vertices);
    assert_eq!(range, 1..37);
    assert_eq!(vertices.len(), 9);
    assert_eq!(vertices[1].pos, [-1, 2, -3]);
    assert_eq!(vertices[8].pos, [1, -2, 3]);
    assert_eq!(vertices[8].uv, [1, 1]);
    assert_eq!(&indices[1..7], &[1, 2, 3, 4, 3, 2]);
    assert!(indices[1..].iter().all(|&i| (1..9).contains(&i)));
    let mut quad = Vec::new();
    append_quad(0, 1, 2, 3, &mut quad);
    assert_eq!(quad, vec![0, 1, 2, 3, 2, 1]);
    append_triangle(7, 8, 9, &mut quad);
    assert_eq!(&quad[6..], &[7, 8, 9]);
}

#[test]
fn debug_pyramids_have_five_corners_and_eight_triangles() {
    let mut indices = vec![7u32, 7, 7];
    let mut vertices = vec!['x', 'y'];
    let range = create_debug_pyramid(['a', 'b', 'c', 'd', 'e'], &mut indices, &mut vertices);
    assert_eq!(range, 3..27);
    assert_eq!(vertices, vec!['x', 'y', 'a', 'b', 'c', 'd', 'e']);
    assert_eq!(
        &indices[3..],
        &[2, 3, 4, 5, 4, 3, 3, 2, 5, 4, 5, 2, 3, 2, 6, 5, 3, 6, 4, 5, 6, 2, 4, 6]
    );
    let mut more = Vec::new();
    let mut corners = Vec::new();
    add_pointing_triangle([0u8, 1, 2, 3, 4], &mut more, &mut corners);
    assert_eq!(more.len(), 24);
    assert!(more.iter().all(|&i| i < 5));
    assert_eq!(&more[12..15], &[1, 0, 4]);
}

#[test]
fn view_and_accessor_pairs_keep_their_indices() {
    let pair = BufferViewAndAccessorPair::new(BufferViewIndex(3), AccessorIndex(5));
    assert_eq!((pair.view.0, pair.accessor.0), (3, 5));
}

use goldsrc_assets::gltf::node::{Node, Nodes};
use goldsrc_assets::gltf::skin::SkinIndex;
use goldsrc_assets::gltf::MeshIndex;

#[test]
fn nodes_write_the_fields_they_have() {
    let mut nodes = Nodes::new(2);
    let root = nodes.add_node(Node {
        mesh: Some(MeshIndex(0)),
        skin: Some(SkinIndex(1)),
        name: Some("root".to_string()),
        translation: Some(["1".to_string(), "-2.5".to_string(), "0".to_string()]),
        rotation: Some(["0".to_string(), "0".to_string(), "0.70710677".to_string(), "0.70710677".to_string()]),
        children: vec![NodeIndex(1), NodeIndex(2)],
    });
    let leaf = nodes.add_node(Node { mesh: None, skin: None, name: None, translation: None, rotation: None, children: vec![] });
    assert_eq!((root.0, leaf.0), (0, 1));
    let text = nodes.write_nodes();
    let fields = [
        format!(r#"            "mesh" : {}"#, 0),
        format!(r#"            "skin" : {}"#, 1),
        format!(r#"            "name" : "{}""#, "root"),
        format!(r#"            "translation" : [ {}, {}, {} ]"#, 1.0f32, -2.5f32, 0.0f32),
        format!(r#"            "rotation" : [ {}, {}, {}, {} ]"#, 0.0f32, 0.0f32, 0.70710677f32, 0.70710677f32),
        format!(r#"            "children" : [ {} ]"#, "1, 2"),
    ]
    .join(",\n");
    let expected = format!(
        r#"        {{
{}
        }}"#,
        fields
    );
    assert_eq!(text[0], expected);
    assert_eq!(text[1], "        {\n\n        }");
}

#[test]
fn values_written_to_the_buffer_read_back() {
    let mut writer = BufferWriter::new();
    writer.create_view(&[0xbeefu16, 7], None);
    writer.create_view(&[0xdead_beefu32], None);
    let bytes = writer.to_inner();
    assert_eq!(goldsrc_assets::bytes::le_u16(&bytes, 0), 0xbeef);
    assert_eq!(goldsrc_assets::bytes::le_u16(&bytes, 2), 7);
    assert_eq!(goldsrc_assets::bytes::le_u32(&bytes, 4), 0xdead_beef);
}

use goldsrc_assets::bytes::F32Bits;
use goldsrc_assets::gltf::export::{write_gltf, AttributeData, MaterialTexts, Mesh, VertexAttribute};

#[test]
fn documents_put_the_indices_first_then_the_attributes() {
    let mut writer = BufferWriter::new();
    let indices = vec![0u32, 1, 2, 2, 1, 0];
    let meshes = vec![Mesh { texture_index: 0, indices_range: 0..3 }, Mesh { texture_index: 1, indices_range: 3..6 }];
    let one = F32Bits(1.0f32.to_bits());
    let zero = F32Bits(0);
    let attributes = vec![
        VertexAttribute {
            name: "POSITION".to_string(),
            data: AttributeData::Vec3(vec![[zero; 3], [one; 3], [one, zero, one]]),
            min_max: Some(MinMax { min: " [ 0, 0, 0 ]".to_string(), max: " [ 1, 1, 1 ]".to_string() }),
        },
        VertexAttribute { name: "TEXCOORD_0".to_string(), data: AttributeData::Vec2(vec![[zero; 2]; 3]), min_max: None },
    ];
    let materials = MaterialTexts { materials: vec![], textures: vec![], images: vec![], samplers: vec![] };
    let text = write_gltf(
        "data.bin",
        &mut writer,
        &indices,
        &meshes,
        &attributes,
        &materials,
        NodeIndex(0),
        &vec!["        {\n        }".to_string()],
        &Skins::new(),
        &Animations::new(0),
    );
    let views = writer.write_buffer_views();
    assert_eq!(views.len(), 3);
    assert_eq!(views[0], view_text(0, 24, ",\n\"target\" : 34963"));
    assert_eq!(views[1], view_text(24, 36, ",\n\"byteStride\" : 12,\n\"target\" : 34962"));
    assert_eq!(views[2], view_text(60, 24, ",\n\"byteStride\" : 8,\n\"target\" : 34962"));
    let accessors = writer.write_accessors();
    assert_eq!(accessors.len(), 4);
    assert!(accessors[0].contains("\"bufferView\" : 1,") && accessors[0].contains("\"max\" :  [ 1, 1, 1 ]"));
    assert!(accessors[1].contains("\"bufferView\" : 2,") && accessors[1].contains("\"type\" : \"VEC2\""));
    assert!(accessors[3].contains("\"bufferView\" : 0,") && accessors[3].contains("\"byteOffset\" : 12,"));
    assert!(accessors[3].contains("\"max\" :  [ 2 ]"));
    assert!(text.contains("\"POSITION\" : 0,\n            \"TEXCOORD_0\" : 1"));
    assert!(text.contains("\"indices\" : 3,\n            \"material\" : 1"));
    assert!(text.contains("\"byteLength\" : 84"));
    assert_eq!(writer.buffer_len(), 84);
}
