use vstd::prelude::*;

use crate::types::{Color, MeshId, WorldPos};

verus! {

broadcast use vstd::std_specs::vec::axiom_vec_index_decreases;

/// A local transform: a translation followed by a rotation about the vertical axis
/// (in millidegrees).
#[derive(Clone, Copy, Debug, PartialEq, Eq, Structural)]
pub struct Transform {
    pub pos: WorldPos,
    pub rot: i64,
}

/// One drawable or purely organizational point of the scene. Children are drawn
/// after their parent, with the parent's transform applied before their own.
#[derive(Debug)]
pub struct SceneNode {
    pub pos: WorldPos,
    pub rot: i64,
    pub mesh_id: Option<MeshId>,
    pub color: Color,
    pub children: Vec<SceneNode>,
}

impl SceneNode {
    /// A node without children.
    pub fn new(pos: WorldPos, rot: i64, mesh_id: Option<MeshId>, color: Color) -> (n: SceneNode)
        ensures
            n.pos == pos,
            n.rot == rot,
            n.mesh_id == mesh_id,
            n.color == color,
            n.children@.len() == 0,
    {
        SceneNode { pos, rot, mesh_id, color, children: Vec::new() }
    }

    pub open spec fn local(&self) -> Transform {
        Transform { pos: self.pos, rot: self.rot }
    }
}

/// One draw call: the mesh, its tint, and the chain of local transforms from the
/// root node down to the drawn node (outermost first).
#[derive(Clone, Debug)]
pub struct DrawItem {
    pub mesh_id: MeshId,
    pub color: Color,
    pub path: Vec<Transform>,
}

/// The mathematical content of a `DrawItem`.
pub struct DrawItemView {
    pub mesh_id: MeshId,
    pub color: Color,
    pub path: Seq<Transform>,
}

impl View for DrawItem {
    type V = DrawItemView;

    open spec fn view(&self) -> DrawItemView {
        DrawItemView { mesh_id: self.mesh_id, color: self.color, path: self.path@ }
    }
}

pub open spec fn items_view(s: Seq<DrawItem>) -> Seq<DrawItemView> {
    s.map_values(|d: DrawItem| d@)
}

/// The draw calls of the tree rooted at `n`, in pre-order, when its parent chain is `path`.
/// A node without a mesh issues no call but still passes its transform down.
pub open spec fn node_items(n: SceneNode, path: Seq<Transform>) -> Seq<DrawItemView>
    decreases n, n.children.len() + 1,
{
    let p = path.push(n.local());
    let own = match n.mesh_id {
        Some(m) => seq![DrawItemView { mesh_id: m, color: n.color, path: p }],
        None => Seq::empty(),
    };
    own + children_items(n, 0, p)
}

/// The draw calls of the children of `n` from index `i` on, in order.
pub open spec fn children_items(n: SceneNode, i: int, path: Seq<Transform>) -> Seq<DrawItemView>
    decreases n, n.children.len() - i,
{
    if 0 <= i < n.children.len() {
        node_items(n.children[i], path) + children_items(n, i + 1, path)
    } else {
        Seq::empty()
    }
}

/// A copy of a transform chain.
fn copy_path(v: &Vec<Transform>) -> (r: Vec<Transform>)
    ensures
        r@ == v@,
{
    let mut r: Vec<Transform> = Vec::new();
    let mut i: usize = 0;
    while i < v.len()
        invariant
            i <= v@.len(),
            r@ == v@.subrange(0, i as int),
        decreases v@.len() - i,
    {
        r.push(v[i]);
        assert(v@.subrange(0, i + 1) == v@.subrange(0, i as int).push(v@[i as int]));
        i = i + 1;
    }
    assert(v@.subrange(0, i as int) == v@);
    r
}

/// Appends the draw calls of the tree rooted at `node` to `out`, in pre-order.
pub fn collect_draw_items(node: &SceneNode, path: &mut Vec<Transform>, out: &mut Vec<DrawItem>)
    ensures
        final(path)@ == old(path)@,
        items_view(final(out)@) == items_view(old(out)@) + node_items(*node, old(path)@),
    decreases node, node.children.len() + 1,
{
    let ghost start = items_view(out@);
    let ghost p0 = path@;
    path.push(Transform { pos: node.pos, rot: node.rot });
    let ghost p = path@;
    if let Some(m) = node.mesh_id {
        let item = DrawItem { mesh_id: m, color: node.color, path: copy_path(path) };
        out.push(item);
        assert(items_view(out@) == start + seq![item@]) by {
            assert(items_view(out@) == items_view(old(out)@).push(item@));
        }
    }
    let ghost own = match node.mesh_id {
        Some(m) => seq![DrawItemView { mesh_id: m, color: node.color, path: p }],
        None => Seq::<DrawItemView>::empty(),
    };
    assert(items_view(out@) == start + own);
    let mut i: usize = 0;
    while i < node.children.len()
        invariant
            i <= node.children@.len(),
            path@ == p,
            items_view(out@) + children_items(*node, i as int, p) == start + own + children_items(
                *node,
                0,
                p,
            ),
        decreases node.children@.len() - i,
    {
        let ghost before = items_view(out@);
        collect_draw_items(&node.children[i], path, out);
        assert(children_items(*node, i as int, p) == node_items(node.children[i as int], p)
            + children_items(*node, i + 1, p));
        assert(items_view(out@) + children_items(*node, i + 1, p) == before + children_items(
            *node,
            i as int,
            p,
        ));
        i = i + 1;
    }
    assert(children_items(*node, i as int, p) == Seq::<DrawItemView>::empty());
    assert(items_view(out@) == start + own + children_items(*node, 0, p));
    path.pop();
    assert(path@ == p0);
}

} // verus!
