//! Shared pieces of the glTF writer: index allocation, the coordinate
//! conversion from Half-Life axes, and joining text fragments.
use vstd::prelude::*;
use vstd::string::StringExecFns;

pub mod buffer;
pub mod skin;
pub mod animation;
pub mod export;
pub mod material;
pub mod node;

verus! {

/// Appends `value` to `vec` and returns the index it was stored at.
pub fn add_and_get_index<T>(vec: &mut Vec<T>, value: T) -> (index: usize)
    ensures
        index == old(vec)@.len(),
        final(vec)@ == old(vec)@.push(value),
{
    let index = vec.len();
    vec.push(value);
    index
}

/// Half-Life axes (X forward, Y left, Z up) to glTF axes (X left, Y up,
/// Z forward).
pub open spec fn spec_convert_coordinates<T>(hl: Seq<T>) -> Seq<T> {
    seq![hl[1], hl[2], hl[0]]
}

/// Reorders a Half-Life `[x, y, z]` triple into glTF's axis order.
pub fn convert_coordinates<T: Copy>(half_life_xyz: [T; 3]) -> (res: [T; 3])
    ensures
        res@ == spec_convert_coordinates(half_life_xyz@),
{
    let res = [half_life_xyz[1], half_life_xyz[2], half_life_xyz[0]];
    assert(res@ =~= spec_convert_coordinates(half_life_xyz@));
    res
}

/// The axis conversion only moves components: every component of the input
/// appears in the output, and converting three times gives the input back.
pub proof fn lemma_convert_coordinates_cycle<T>(a: Seq<T>)
    requires
        a.len() == 3,
    ensures
        spec_convert_coordinates(a).len() == 3,
        forall|i: int| 0 <= i < 3 ==> #[trigger] spec_convert_coordinates(a).contains(a[i]),
        spec_convert_coordinates(spec_convert_coordinates(spec_convert_coordinates(a))) =~= a,
{
    let c = spec_convert_coordinates(a);
    assert(c[2] == a[0] && c[0] == a[1] && c[1] == a[2]);
}

/// The index of a mesh of the scene.
#[derive(Copy, Clone, Debug)]
pub struct MeshIndex(pub usize);

/// An indexed model: its indices, its vertices, and the meshes that cover
/// ranges of the indices.
pub struct Model<V> {
    pub indices: Vec<u32>,
    pub vertices: Vec<V>,
    pub meshes: Vec<export::Mesh>,
}

/// The index of a node of the scene.
#[derive(Copy, Clone, Debug)]
pub struct NodeIndex(pub usize);

/// The texts of `parts`, with `sep` between each two of them.
pub open spec fn spec_join(parts: Seq<Seq<char>>, sep: Seq<char>) -> Seq<char>
    decreases parts.len(),
{
    if parts.len() == 0 {
        Seq::empty()
    } else if parts.len() == 1 {
        parts[0]
    } else {
        spec_join(parts.drop_last(), sep) + sep + parts.last()
    }
}

/// The texts of some strings.
pub open spec fn spec_texts(parts: Seq<String>) -> Seq<Seq<char>> {
    parts.map_values(|p: String| p@)
}

/// Concatenates `parts` with `sep` between each two of them.
pub fn join(parts: &Vec<String>, sep: &str) -> (res: String)
    ensures
        res@ == spec_join(spec_texts(parts@), sep@),
{
    let mut acc = String::new();
    let n = parts.len();
    let mut i: usize = 0;
    while i < n
        invariant
            n == parts@.len(),
            0 <= i <= n,
            acc@ == spec_join(spec_texts(parts@.take(i as int)), sep@),
        decreases n - i,
    {
        proof {
            assert(spec_texts(parts@.take(i + 1)).drop_last() =~= spec_texts(parts@.take(i as int)));
            assert(spec_texts(parts@.take(i + 1)).last() == parts@[i as int]@);
        }
        if i > 0 {
            acc.append(sep);
        }
        acc.append(parts[i].as_str());
        i += 1;
    }
    assert(parts@.take(n as int) =~= parts@);
    acc
}

} // verus!
