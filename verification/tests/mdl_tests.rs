use goldsrc_assets::mdl::{ComponentTransformTarget, VectorChannel};
use goldsrc_assets::mdl::{decode_animation_frame, MdlFile, MdlMeshSequenceType, MdlMeshVertex};

fn put_u32(b: &mut [u8], at: usize, v: u32) {
    b[at..at + 4].copy_from_slice(&v.to_le_bytes());
}

fn put_name(b: &mut [u8], at: usize, name: &str) {
    b[at..at + name.len()].copy_from_slice(name.as_bytes());
}

/// A model with one 2x1 texture, one body part holding one model with one
/// mesh (a fan of three corners), two vertices and one normal.
fn model_file() -> Vec<u8> {
    let mut b = vec![0u8; 1368];
    put_name(&mut b, 0, "IDST");
    put_u32(&mut b, 4, 10);
    put_name(&mut b, 8, "box");
    put_u32(&mut b, 180, 1);
    put_u32(&mut b, 184, 244);
    put_u32(&mut b, 204, 1);
    put_u32(&mut b, 208, 1094);
    // Texture header.
    put_name(&mut b, 244, "skin");
    put_u32(&mut b, 244 + 68, 2);
    put_u32(&mut b, 244 + 72, 1);
    put_u32(&mut b, 244 + 76, 324);
    // Pixels and palette: colour 0 is (1, 2, 3), colour 1 the key colour.
    b[324] = 0;
    b[325] = 1;
    b[326..329].copy_from_slice(&[1, 2, 3]);
    b[329..332].copy_from_slice(&[0, 0, 255]);
    // Body part.
    put_name(&mut b, 1094, "body");
    put_u32(&mut b, 1094 + 64, 1);
    put_u32(&mut b, 1094 + 68, 1);
    put_u32(&mut b, 1094 + 72, 1170);
    // Model.
    put_name(&mut b, 1170, "model");
    put_u32(&mut b, 1170 + 72, 1);
    put_u32(&mut b, 1170 + 76, 1282);
    put_u32(&mut b, 1170 + 80, 2);
    put_u32(&mut b, 1170 + 84, 1302);
    put_u32(&mut b, 1170 + 88, 1304);
    put_u32(&mut b, 1170 + 92, 1);
    put_u32(&mut b, 1170 + 100, 1328);
    // Mesh.
    put_u32(&mut b, 1282, 1);
    put_u32(&mut b, 1286, 1340);
    put_u32(&mut b, 1294, 1);
    // Bones of the vertices, vertices and the normal.
    b[1302] = 0;
    b[1303] = 1;
    for (i, v) in [1.0f32, 2.0, 3.0, 4.0, 5.0, 6.0, 0.0, 0.0, 1.0].iter().enumerate() {
        put_u32(&mut b, 1304 + 4 * i, v.to_bits());
    }
    // A fan of three corners, then the end of the list.
    b[1340..1342].copy_from_slice(&(-3i16).to_le_bytes());
    for i in 0..3u16 {
        let at = 1342 + 8 * i as usize;
        for (j, v) in [i % 2, 0, 10 * i, 20 * i].iter().enumerate() {
            b[at + 2 * j..at + 2 * j + 2].copy_from_slice(&v.to_le_bytes());
        }
    }
    b
}

#[test]
fn a_model_is_read_with_its_texture_and_geometry() {
    let data = model_file();
    assert_eq!(MdlFile::textures_in_separate_file(&data), Some(false));
    let file = MdlFile::from_bytes(&data, None).unwrap();
    assert_eq!(file.name, "box");
    assert_eq!(file.textures.len(), 1);
    let tex = &file.textures[0];
    assert_eq!((tex.name.as_str(), tex.width, tex.height), ("skin", 2, 1));
    assert_eq!(tex.image_data.as_raw(), &vec![1, 2, 3, 255, 0, 0, 0, 0]);
    assert_eq!(file.body_parts.len(), 1);
    let part = &file.body_parts[0];
    assert_eq!(part.name, "body");
    let model = &part.models[0];
    assert_eq!(model.name, "model");
    assert_eq!(model.vertices.len(), 2);
    assert_eq!(f32::from_bits(model.vertices[1][2].0), 6.0);
    assert_eq!(f32::from_bits(model.normals[0][2].0), 1.0);
    assert_eq!(model.vertex_bone_indices, vec![0, 1]);
    let mesh = &model.meshes[0];
    // The count is the total over the strips, not the header's.
    assert_eq!((mesh.triverts_count, mesh.skin_ref, mesh.normal_count), (3, 0, 1));
    assert_eq!(mesh.sequences.len(), 1);
    assert!(mesh.sequences[0].ty == MdlMeshSequenceType::TriangleFan);
    assert!(mesh.sequences[0].triverts[2] == MdlMeshVertex { vertex_index: 0, normal_index: 0, s: 20, t: 40 });
    assert!(file.animations.is_empty());
    assert_eq!(file.raw_data(), data.as_slice());
}

#[test]
fn models_whose_parts_run_past_the_end_are_refused() {
    let data = model_file();
    assert!(MdlFile::from_bytes(&data[..1360], None).is_none());
    assert!(MdlFile::from_bytes(&data[..200], None).is_none());
    assert_eq!(MdlFile::textures_in_separate_file(&data[..200]), None);
    let mut bad_strip = data.clone();
    bad_strip[1340..1342].copy_from_slice(&(-32768i16).to_le_bytes());
    assert!(MdlFile::from_bytes(&bad_strip, None).is_none());
}

#[test]
fn textures_can_come_from_a_separate_file() {
    let data = model_file();
    let mut without = data.clone();
    put_u32(&mut without, 180, 0);
    assert_eq!(MdlFile::textures_in_separate_file(&without), Some(true));
    // Without the texture file the model cannot be read.
    assert!(MdlFile::from_bytes(&without, None).is_none());
    let file = MdlFile::from_bytes(&without, Some(&data)).unwrap();
    assert_eq!(file.textures.len(), 1);
    assert_eq!(file.header.texture_count, 1);
    assert_eq!(file.header.texture_offset, 244);
}

#[test]
fn animation_frames_are_run_length_decoded() {
    // Run 1: two stored values covering three frames; run 2: one value
    // covering two frames.
    let mut d = vec![2u8, 3];
    d.extend_from_slice(&5i16.to_le_bytes());
    d.extend_from_slice(&(-6i16).to_le_bytes());
    d.extend_from_slice(&[1, 2]);
    d.extend_from_slice(&9i16.to_le_bytes());
    assert_eq!(decode_animation_frame(&d, 0, 0), Some(5));
    assert_eq!(decode_animation_frame(&d, 0, 1), Some(-6));
    assert_eq!(decode_animation_frame(&d, 0, 2), Some(-6));
    assert_eq!(decode_animation_frame(&d, 0, 3), Some(9));
    assert_eq!(decode_animation_frame(&d, 0, 4), Some(9));
    assert_eq!(decode_animation_frame(&d, 0, 5), None);
    assert_eq!(decode_animation_frame(&d, 9, 0), None);
}

#[test]
fn channel_indices_name_vector_components() {
    assert!(VectorChannel::from_index(0) == VectorChannel::X);
    assert!(VectorChannel::from_index(4) == VectorChannel::Y);
    assert!(VectorChannel::from_index(5) == VectorChannel::Z);
    assert!(ComponentTransformTarget::from_index(1) == ComponentTransformTarget::Translation(VectorChannel::Y));
    assert!(ComponentTransformTarget::from_index(3) == ComponentTransformTarget::Rotation(VectorChannel::X));
}
