//! Skins of a glTF scene and their JSON text.
use vstd::prelude::*;
use vstd::string::StringExecFns;
use crate::text::{decimal, spec_decimal};
use super::{add_and_get_index, join, spec_join, spec_texts, NodeIndex};
use super::buffer::AccessorIndex;

verus! {

/// The index of a skin.
#[derive(Copy, Clone, Debug)]
pub struct SkinIndex(pub usize);

/// The joints of a skinned mesh and the accessor of their inverse bind
/// matrices.
pub struct Skin {
    pub inverse_bind_matrices: AccessorIndex,
    pub joints: Vec<NodeIndex>,
}

/// The skins of a scene, by index.
pub struct Skins {
    skins: Vec<Skin>,
}

/// The line of a joint in a skin's `joints` array.
pub open spec fn spec_joint_line(joint: NodeIndex) -> Seq<char> {
    "                           "@ + spec_decimal(joint.0 as nat)
}

/// The JSON object of a skin.
pub open spec fn spec_skin_text(skin: Skin) -> Seq<char> {
    "          {\n                        \"inverseBindMatrices\" : "@ + spec_decimal(skin.inverse_bind_matrices.0 as nat)
        + ",\n                        \"joints\" : [\n        "@
        + spec_join(skin.joints@.map_values(|j: NodeIndex| spec_joint_line(j)), ",\n"@)
        + "\n                        ]\n                    }"@
}

impl Skins {
    /// The skins added so far, by index.
    pub closed spec fn spec_skins(&self) -> Seq<Skin> {
        self.skins@
    }

    pub fn new() -> (res: Self)
        ensures
            res.spec_skins() == Seq::<Skin>::empty(),
    {
        Self { skins: Vec::new() }
    }

    /// Adds a skin; its index is the number of skins added before it.
    pub fn add_skin(&mut self, skin: Skin) -> (res: SkinIndex)
        ensures
            final(self).spec_skins() == old(self).spec_skins().push(skin),
            res.0 == old(self).spec_skins().len(),
    {
        let index = add_and_get_index(&mut self.skins, skin);
        SkinIndex(index)
    }

    pub fn is_empty(&self) -> (res: bool)
        ensures
            res == (self.spec_skins().len() == 0),
    {
        self.skins.len() == 0
    }

    /// The JSON objects of the skins, in index order.
    pub fn write_skins(&self) -> (res: Vec<String>)
        ensures
            res@.len() == self.spec_skins().len(),
            forall|i: int|
                0 <= i < res@.len() ==> #[trigger] res@[i]@ == spec_skin_text(self.spec_skins()[i]),
    {
        let mut skins: Vec<String> = Vec::new();
        let n = self.skins.len();
        let mut i: usize = 0;
        while i < n
            invariant
                n == self.skins@.len(),
                0 <= i <= n,
                skins@.len() == i,
                forall|k: int| 0 <= k < i ==> #[trigger] skins@[k]@ == spec_skin_text(self.skins@[k]),
            decreases n - i,
        {
            let skin = &self.skins[i];
            let mut joints: Vec<String> = Vec::new();
            let m = skin.joints.len();
            let mut j: usize = 0;
            while j < m
                invariant
                    m == skin.joints@.len(),
                    0 <= j <= m,
                    joints@.len() == j,
                    forall|k: int|
                        0 <= k < j ==> #[trigger] joints@[k]@ == spec_joint_line(skin.joints@[k]),
                decreases m - j,
            {
                let mut line = String::from_str("                           ");
                line.append(decimal(skin.joints[j].0 as u64).as_str());
                joints.push(line);
                j += 1;
            }
            assert(spec_texts(joints@) =~= skin.joints@.map_values(|jt: NodeIndex| spec_joint_line(jt)));
            let joints_text = join(&joints, ",\n");
            let mut text = String::from_str("          {\n                        \"inverseBindMatrices\" : ");
            text.append(decimal(skin.inverse_bind_matrices.0 as u64).as_str());
            text.append(",\n                        \"joints\" : [\n        ");
            text.append(joints_text.as_str());
            text.append("\n                        ]\n                    }");
            skins.push(text);
            i += 1;
        }
        skins
    }
}

/// The texts of some skins, as `write_skins` writes them.
pub open spec fn spec_skin_texts(skins: Seq<Skin>) -> Seq<Seq<char>> {
    skins.map_values(|s: Skin| spec_skin_text(s))
}

/// The skins a collection holds after `adds` are added to it in turn, one
/// `add_skin` call each, starting from `start`.
pub open spec fn spec_skins_after(start: Seq<Skin>, adds: Seq<Skin>) -> Seq<Skin>
    decreases adds.len(),
{
    if adds.len() == 0 {
        start
    } else {
        spec_skins_after(start, adds.drop_last()).push(adds.last())
    }
}

/// After any sequence of `add_skin` calls on a new collection, it holds the
/// added skins in the order of the calls, so `write_skins` gives one text per
/// added skin, the `i`th being the text of the `i`th skin added.
pub proof fn lemma_written_skins(adds: Seq<Skin>)
    ensures
        spec_skins_after(Seq::empty(), adds) == adds,
        spec_skin_texts(spec_skins_after(Seq::empty(), adds)).len() == adds.len(),
        forall|i: int|
            0 <= i < adds.len() ==> #[trigger] spec_skin_texts(spec_skins_after(Seq::empty(), adds))[i]
                == spec_skin_text(adds[i]),
    decreases adds.len(),
{
    if adds.len() > 0 {
        lemma_written_skins(adds.drop_last());
        assert(spec_skins_after(Seq::empty(), adds) =~= adds);
    } else {
        assert(spec_skins_after(Seq::empty(), adds) =~= adds);
    }
}

} // verus!
