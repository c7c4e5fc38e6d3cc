//! Nodes of a glTF scene and their JSON text.
use vstd::prelude::*;
use vstd::string::StringExecFns;
use crate::text::{decimal, spec_decimal};
use super::{add_and_get_index, join, spec_join, spec_texts, MeshIndex, NodeIndex};
use super::skin::SkinIndex;

verus! {

/// A node of the scene. Its translation and rotation are given as the
/// decimal texts of their single-precision components (x, y, z and, for the
/// rotation, w), as Rust's `Display` writes them.
pub struct Node {
    pub mesh: Option<MeshIndex>,
    pub skin: Option<SkinIndex>,
    pub name: Option<String>,
    pub translation: Option<[String; 3]>,
    pub rotation: Option<[String; 4]>,
    pub children: Vec<NodeIndex>,
}

/// The nodes of a scene, by index.
pub struct Nodes {
    nodes: Vec<Node>,
}

/// The text of a child in a node's `children` array.
pub open spec fn spec_child_text(c: NodeIndex) -> Seq<char> {
    spec_decimal(c.0 as nat)
}

/// The fields of a node's JSON object, in order: each that the node has.
pub open spec fn spec_node_fields(n: Node) -> Seq<Seq<char>> {
    let f0 = Seq::<Seq<char>>::empty();
    let f1 = match n.mesh {
        Some(m) => f0.push("            \"mesh\" : "@ + spec_decimal(m.0 as nat)),
        None => f0,
    };
    let f2 = match n.skin {
        Some(s) => f1.push("            \"skin\" : "@ + spec_decimal(s.0 as nat)),
        None => f1,
    };
    let f3 = match n.name {
        Some(name) => f2.push("            \"name\" : \""@ + name@ + "\""@),
        None => f2,
    };
    let f4 = match n.translation {
        Some(t) => f3.push(
            "            \"translation\" : [ "@ + t[0]@ + ", "@ + t[1]@ + ", "@ + t[2]@ + " ]"@,
        ),
        None => f3,
    };
    let f5 = match n.rotation {
        Some(r) => f4.push(
            "            \"rotation\" : [ "@ + r[0]@ + ", "@ + r[1]@ + ", "@ + r[2]@ + ", "@ + r[3]@
                + " ]"@,
        ),
        None => f4,
    };
    if n.children@.len() > 0 {
        f5.push(
            "            \"children\" : [ "@ + spec_join(
                n.children@.map_values(|c: NodeIndex| spec_child_text(c)),
                ", "@,
            ) + " ]"@,
        )
    } else {
        f5
    }
}

/// The JSON object of a node.
pub open spec fn spec_node_text(n: Node) -> Seq<char> {
    "        {\n"@ + spec_join(spec_node_fields(n), ",\n"@) + "\n        }"@
}

/// The `children` field of a node with at least one child.
fn children_field(children: &Vec<NodeIndex>) -> (res: String)
    ensures
        res@ == "            \"children\" : [ "@ + spec_join(
            children@.map_values(|c: NodeIndex| spec_child_text(c)),
            ", "@,
        ) + " ]"@,
{
    let mut texts: Vec<String> = Vec::new();
    let m = children.len();
    let mut j: usize = 0;
    while j < m
        invariant
            m == children@.len(),
            0 <= j <= m,
            texts@.len() == j,
            forall|k: int| 0 <= k < j ==> #[trigger] texts@[k]@ == spec_child_text(children@[k]),
        decreases m - j,
    {
        texts.push(decimal(children[j].0 as u64));
        j += 1;
    }
    assert(spec_texts(texts@) =~= children@.map_values(|c: NodeIndex| spec_child_text(c)));
    let joined = join(&texts, ", ");
    let mut field = String::from_str("            \"children\" : [ ");
    field.append(joined.as_str());
    field.append(" ]");
    field
}

/// The JSON object of a node.
fn node_text(node: &Node) -> (res: String)
    ensures
        res@ == spec_node_text(*node),
{
    let mut fields: Vec<String> = Vec::new();
    match node.mesh {
        Some(m) => {
            let mut f = String::from_str("            \"mesh\" : ");
            f.append(decimal(m.0 as u64).as_str());
            fields.push(f);
        },
        None => {},
    }
    match node.skin {
        Some(s) => {
            let mut f = String::from_str("            \"skin\" : ");
            f.append(decimal(s.0 as u64).as_str());
            fields.push(f);
        },
        None => {},
    }
    match &node.name {
        Some(name) => {
            let mut f = String::from_str("            \"name\" : \"");
            f.append(name.as_str());
            f.append("\"");
            fields.push(f);
        },
        None => {},
    }
    match &node.translation {
        Some(t) => {
            let mut f = String::from_str("            \"translation\" : [ ");
            f.append(t[0].as_str());
            f.append(", ");
            f.append(t[1].as_str());
            f.append(", ");
            f.append(t[2].as_str());
            f.append(" ]");
            fields.push(f);
        },
        None => {},
    }
    match &node.rotation {
        Some(r) => {
            let mut f = String::from_str("            \"rotation\" : [ ");
            f.append(r[0].as_str());
            f.append(", ");
            f.append(r[1].as_str());
            f.append(", ");
            f.append(r[2].as_str());
            f.append(", ");
            f.append(r[3].as_str());
            f.append(" ]");
            fields.push(f);
        },
        None => {},
    }
    if node.children.len() > 0 {
        fields.push(children_field(&node.children));
    }
    proof {
        assert(spec_texts(fields@) =~= spec_node_fields(*node));
    }
    let joined = join(&fields, ",\n");
    let mut text = String::from_str("        {\n");
    text.append(joined.as_str());
    text.append("\n        }");
    text
}

impl Nodes {
    /// The nodes added so far, by index.
    pub closed spec fn spec_nodes(&self) -> Seq<Node> {
        self.nodes@
    }

    pub fn new(capacity: usize) -> (res: Self)
        ensures
            res.spec_nodes() == Seq::<Node>::empty(),
    {
        Self { nodes: Vec::with_capacity(capacity) }
    }

    /// Adds a node; its index is the number of nodes added before it.
    pub fn add_node(&mut self, node: Node) -> (res: NodeIndex)
        ensures
            final(self).spec_nodes() == old(self).spec_nodes().push(node),
            res.0 == old(self).spec_nodes().len(),
    {
        NodeIndex(add_and_get_index(&mut self.nodes, node))
    }

    /// The JSON objects of the nodes, in index order.
    pub fn write_nodes(&self) -> (res: Vec<String>)
        ensures
            res@.len() == self.spec_nodes().len(),
            forall|i: int| 0 <= i < res@.len() ==> #[trigger] res@[i]@ == spec_node_text(self.spec_nodes()[i]),
    {
        let mut out: Vec<String> = Vec::with_capacity(self.nodes.len());
        let n = self.nodes.len();
        let mut i: usize = 0;
        while i < n
            invariant
                n == self.nodes@.len(),
                0 <= i <= n,
                out@.len() == i,
                forall|k: int| 0 <= k < i ==> #[trigger] out@[k]@ == spec_node_text(self.nodes@[k]),
            decreases n - i,
        {
            out.push(node_text(&self.nodes[i]));
            i += 1;
        }
        out
    }
}

} // verus!
