//! Geometry for debug markers: axis-aligned boxes and pointing pyramids
//! built from corner indices, as triangle lists.
use vstd::prelude::*;
use crate::gltf::add_and_get_index;

verus! {

/// A corner of a debug box: its integer position and its texture
/// coordinates (each 0 or 1). The renderer gives it a zero normal.
#[derive(Copy, Clone, Debug)]
pub struct DebugVertex {
    pub pos: [i16; 3],
    pub uv: [u8; 2],
}

/// Appends the triangle `vertex_0, vertex_1, vertex_2`.
pub fn append_triangle(vertex_0: u32, vertex_1: u32, vertex_2: u32, indices: &mut Vec<u32>)
    ensures
        final(indices)@ == old(indices)@ + seq![vertex_0, vertex_1, vertex_2],
{
    let mut new_indices = vec![vertex_0, vertex_1, vertex_2];
    indices.append(&mut new_indices);
}

/// Appends the two triangles of a quad: `0, 1, 2` and `3, 2, 1`.
pub fn append_quad(vertex_0: u32, vertex_1: u32, vertex_2: u32, vertex_3: u32, indices: &mut Vec<u32>)
    ensures
        final(indices)@ == old(indices)@ + seq![vertex_0, vertex_1, vertex_2, vertex_3, vertex_2, vertex_1],
{
    append_triangle(vertex_0, vertex_1, vertex_2, indices);
    append_triangle(vertex_3, vertex_2, vertex_1, indices);
    assert(final(indices)@ =~= old(indices)@ + seq![vertex_0, vertex_1, vertex_2, vertex_3, vertex_2, vertex_1]);
}

/// The eight corners of the box from `mins` to `maxs`, back face first.
pub open spec fn spec_prism_vertices(mins: [i16; 3], maxs: [i16; 3]) -> Seq<DebugVertex> {
    seq![
        DebugVertex { pos: [mins[0], maxs[1], mins[2]], uv: [0, 0] },
        DebugVertex { pos: [maxs[0], maxs[1], mins[2]], uv: [1, 0] },
        DebugVertex { pos: [mins[0], mins[1], mins[2]], uv: [1, 1] },
        DebugVertex { pos: [maxs[0], mins[1], mins[2]], uv: [0, 1] },
        DebugVertex { pos: [mins[0], maxs[1], maxs[2]], uv: [0, 1] },
        DebugVertex { pos: [maxs[0], maxs[1], maxs[2]], uv: [1, 1] },
        DebugVertex { pos: [mins[0], mins[1], maxs[2]], uv: [0, 1] },
        DebugVertex { pos: [maxs[0], mins[1], maxs[2]], uv: [1, 1] },
    ]
}

/// Which corner (0 to 7, in the order of [`spec_prism_vertices`]) each index
/// of the box's twelve triangles refers to.
pub open spec fn spec_prism_pattern() -> Seq<int> {
    seq![0, 1, 2, 3, 2, 1, 4, 6, 5, 7, 5, 6, 0, 4, 1, 5, 1, 4, 2, 3, 6, 7, 6, 3, 4, 0, 6, 2, 6, 0, 5, 7, 1, 3, 1, 7]
}

/// The indices of the box's triangles when its first corner has index `base`;
/// indices are 32 bits wide and wrap.
pub open spec fn spec_prism_indices(base: int) -> Seq<u32> {
    spec_prism_pattern().map_values(|k: int| (base + k) as u32)
}

fn add_rect_prism(mins: &[i16; 3], maxs: &[i16; 3], indices: &mut Vec<u32>, vertices: &mut Vec<DebugVertex>)
    ensures
        final(vertices)@ == old(vertices)@ + spec_prism_vertices(*mins, *maxs),
        final(indices)@ == old(indices)@ + spec_prism_indices(old(vertices)@.len() as int),
{
    let back_top_left = add_and_get_index(
        vertices,
        DebugVertex { pos: [mins[0], maxs[1], mins[2]], uv: [0, 0] },
    ) as u32;
    let back_top_right = add_and_get_index(
        vertices,
        DebugVertex { pos: [maxs[0], maxs[1], mins[2]], uv: [1, 0] },
    ) as u32;
    let back_bottom_left = add_and_get_index(
        vertices,
        DebugVertex { pos: [mins[0], mins[1], mins[2]], uv: [1, 1] },
    ) as u32;
    let back_bottom_right = add_and_get_index(
        vertices,
        DebugVertex { pos: [maxs[0], mins[1], mins[2]], uv: [0, 1] },
    ) as u32;
    let front_top_left = add_and_get_index(
        vertices,
        DebugVertex { pos: [mins[0], maxs[1], maxs[2]], uv: [0, 1] },
    ) as u32;
    let front_top_right = add_and_get_index(
        vertices,
        DebugVertex { pos: [maxs[0], maxs[1], maxs[2]], uv: [1, 1] },
    ) as u32;
    let front_bottom_left = add_and_get_index(
        vertices,
        DebugVertex { pos: [mins[0], mins[1], maxs[2]], uv: [0, 1] },
    ) as u32;
    let front_bottom_right = add_and_get_index(
        vertices,
        DebugVertex { pos: [maxs[0], mins[1], maxs[2]], uv: [1, 1] },
    ) as u32;

    // Back
    append_quad(back_top_left, back_top_right, back_bottom_left, back_bottom_right, indices);
    // Front
    append_quad(front_top_left, front_bottom_left, front_top_right, front_bottom_right, indices);
    // Top
    append_quad(back_top_left, front_top_left, back_top_right, front_top_right, indices);
    // Bottom
    append_quad(back_bottom_left, back_bottom_right, front_bottom_left, front_bottom_right, indices);
    // Left
    append_quad(front_top_left, back_top_left, front_bottom_left, back_bottom_left, indices);
    // Right
    append_quad(front_top_right, front_bottom_right, back_top_right, back_bottom_right, indices);
    assert(final(vertices)@ =~= old(vertices)@ + spec_prism_vertices(*mins, *maxs));
    assert(final(indices)@ =~= old(indices)@ + spec_prism_indices(old(vertices)@.len() as int));
}

/// Adds a box from `mins` to `maxs` and returns the range of its indices.
pub fn create_primitive(
    mins: &[i16; 3],
    maxs: &[i16; 3],
    indices: &mut Vec<u32>,
    vertices: &mut Vec<DebugVertex>,
) -> (res: core::ops::Range<usize>)
    ensures
        final(vertices)@ == old(vertices)@ + spec_prism_vertices(*mins, *maxs),
        final(indices)@ == old(indices)@ + spec_prism_indices(old(vertices)@.len() as int),
        res.start == old(indices)@.len(),
        res.end == final(indices)@.len(),
{
    let start = indices.len();
    add_rect_prism(mins, maxs, indices, vertices);
    let end = indices.len();
    start..end
}

/// Which corner (0 to 4: top left, top right, bottom left, bottom right, and
/// the tip) each index of a pointing pyramid's faces refers to: the base as
/// a quad seen from both sides, then the four sides that meet at the tip.
pub open spec fn spec_pyramid_pattern() -> Seq<int> {
    seq![0, 1, 2, 3, 2, 1, 1, 0, 3, 2, 3, 0, 1, 0, 4, 3, 1, 4, 2, 3, 4, 0, 2, 4]
}

/// The indices of a pyramid's triangles when its first corner has index
/// `base`; indices are 32 bits wide and wrap.
pub open spec fn spec_pyramid_indices(base: int) -> Seq<u32> {
    spec_pyramid_pattern().map_values(|k: int| (base + k) as u32)
}

/// Adds the five corners of a pyramid that points from its base to its tip
/// (`corners`: top left, top right, bottom left and bottom right of the base,
/// then the tip) and the indices of its faces.
pub fn add_pointing_triangle<V: Copy>(corners: [V; 5], indices: &mut Vec<u32>, vertices: &mut Vec<V>)
    ensures
        final(vertices)@ == old(vertices)@ + corners@,
        final(indices)@ == old(indices)@ + spec_pyramid_indices(old(vertices)@.len() as int),
{
    let top_left = add_and_get_index(vertices, corners[0]) as u32;
    let top_right = add_and_get_index(vertices, corners[1]) as u32;
    let bottom_left = add_and_get_index(vertices, corners[2]) as u32;
    let bottom_right = add_and_get_index(vertices, corners[3]) as u32;
    let front = add_and_get_index(vertices, corners[4]) as u32;

    append_quad(top_left, top_right, bottom_left, bottom_right, indices);
    append_quad(top_right, top_left, bottom_right, bottom_left, indices);
    append_triangle(top_right, top_left, front, indices);
    append_triangle(bottom_right, top_right, front, indices);
    append_triangle(bottom_left, bottom_right, front, indices);
    append_triangle(top_left, bottom_left, front, indices);
    assert(final(vertices)@ =~= old(vertices)@ + corners@);
    assert(final(indices)@ =~= old(indices)@ + spec_pyramid_indices(old(vertices)@.len() as int));
}

/// Adds a pyramid with the given corners and returns the range of its
/// indices.
pub fn create_debug_pyramid<V: Copy>(
    corners: [V; 5],
    indices: &mut Vec<u32>,
    vertices: &mut Vec<V>,
) -> (res: core::ops::Range<usize>)
    ensures
        final(vertices)@ == old(vertices)@ + corners@,
        final(indices)@ == old(indices)@ + spec_pyramid_indices(old(vertices)@.len() as int),
        res.start == old(indices)@.len(),
        res.end == final(indices)@.len(),
{
    let start = indices.len();
    add_pointing_triangle(corners, indices, vertices);
    let end = indices.len();
    start..end
}

/// Every index of a pyramid refers to one of its own corners, and there are
/// 24.
pub proof fn lemma_pyramid_indices_in_range(base: int)
    requires
        0 <= base,
        base + 5 <= 0x1_0000_0000,
    ensures
        spec_pyramid_indices(base).len() == 24,
        forall|i: int|
            0 <= i < 24 ==> base <= #[trigger] spec_pyramid_indices(base)[i] < base + 5,
{
    assert forall|i: int| 0 <= i < 24 implies base <= #[trigger] spec_pyramid_indices(base)[i] < base + 5 by {
        assert(0 <= spec_pyramid_pattern()[i] < 5);
    }
}

/// Every index of a box refers to one of its own corners, and there are 36.
pub proof fn lemma_prism_indices_in_range(base: int)
    requires
        0 <= base,
        base + 8 <= 0x1_0000_0000,
    ensures
        spec_prism_indices(base).len() == 36,
        forall|i: int|
            0 <= i < 36 ==> base <= #[trigger] spec_prism_indices(base)[i] < base + 8,
{
    assert forall|i: int| 0 <= i < 36 implies base <= #[trigger] spec_prism_indices(base)[i] < base + 8 by {
        assert(0 <= spec_prism_pattern()[i] < 8);
    }
}

} // verus!
