use vstd::prelude::*;

use crate::scene_node::SceneNode;
use crate::types::{Color, NodeId, SceneError, WorldPos};

verus! {

/// Arena of scene nodes. A node's id is its slot; removal empties the slot, so
/// ids are never reused.
pub struct NodeStore {
    slots: Vec<Option<SceneNode>>,
}

impl View for NodeStore {
    type V = Seq<Option<SceneNode>>;

    closed spec fn view(&self) -> Seq<Option<SceneNode>> {
        self.slots@
    }
}

impl NodeStore {
    /// The id that the next `add` hands out.
    pub open spec fn next_id(&self) -> nat {
        self@.len()
    }

    /// `id` names a node that was added and not removed.
    pub open spec fn live(&self, id: NodeId) -> bool {
        id.id < self@.len() && self@[id.id as int] is Some
    }

    /// The node stored under a live id.
    pub open spec fn node(&self, id: NodeId) -> SceneNode {
        self@[id.id as int]->Some_0
    }

    /// Same number of slots as `before`, and every slot but `id`'s unchanged.
    pub open spec fn others_kept(&self, before: &NodeStore, id: NodeId) -> bool {
        &&& self@.len() == before@.len()
        &&& forall|j: int| 0 <= j < before@.len() && j != id.id ==> self@[j] == before@[j]
    }

    /// There is room for one more id.
    pub open spec fn can_add(&self) -> bool {
        self@.len() < u64::MAX
    }

    pub fn new() -> (s: NodeStore)
        ensures
            s@ == Seq::<Option<SceneNode>>::empty(),
    {
        NodeStore { slots: Vec::new() }
    }

    /// Number of ids handed out so far (live or removed).
    pub fn next_id_exec(&self) -> (n: u64)
        requires
            self@.len() <= u64::MAX,
        ensures
            n == self.next_id(),
    {
        self.slots.len() as u64
    }

    /// Whether `id` is live.
    pub fn contains(&self, id: NodeId) -> (r: bool)
        ensures
            r == self.live(id),
    {
        if id.id < self.slots.len() as u64 {
            self.slots[id.id as usize].is_some()
        } else {
            false
        }
    }

    /// Stores `node` under a fresh id, greater than every id handed out before.
    pub fn add(&mut self, node: SceneNode) -> (id: NodeId)
        requires
            old(self).can_add(),
        ensures
            id.id == old(self).next_id(),
            final(self)@ == old(self)@.push(Some(node)),
            !old(self).live(id),
            final(self).live(id),
    {
        let id = NodeId { id: self.slots.len() as u64 };
        self.slots.push(Some(node));
        id
    }

    /// Removes a live node and hands it back.
    pub fn remove(&mut self, id: NodeId) -> (r: Result<SceneNode, SceneError>)
        ensures
            old(self).live(id) ==> r == Ok::<SceneNode, SceneError>(old(self).node(id))
                && final(self)@ == old(self)@.update(id.id as int, None),
            !old(self).live(id) ==> r == Err::<SceneNode, SceneError>(SceneError::UnknownNode)
                && final(self)@ == old(self)@,
    {
        if id.id < self.slots.len() as u64 {
            let i = id.id as usize;
            let mut slot: Option<SceneNode> = None;
            std::mem::swap(&mut self.slots[i], &mut slot);
            match slot {
                Some(n) => Ok(n),
                None => Err(SceneError::UnknownNode),
            }
        } else {
            Err(SceneError::UnknownNode)
        }
    }

    /// The node stored under `id`.
    pub fn get(&self, id: NodeId) -> (r: Result<&SceneNode, SceneError>)
        ensures
            self.live(id) ==> r == Ok::<&SceneNode, SceneError>(&self.node(id)),
            !self.live(id) ==> r == Err::<&SceneNode, SceneError>(SceneError::UnknownNode),
    {
        if id.id < self.slots.len() as u64 {
            match &self.slots[id.id as usize] {
                Some(n) => Ok(n),
                None => Err(SceneError::UnknownNode),
            }
        } else {
            Err(SceneError::UnknownNode)
        }
    }

    /// Moves and turns a live node; leaves everything else as it is.
    pub fn set_transform(&mut self, id: NodeId, pos: WorldPos, rot: i64) -> (r: Result<(), SceneError>)
        ensures
            old(self).live(id) ==> {
                &&& r is Ok
                &&& final(self).live(id)
                &&& final(self).node(id) == (SceneNode { pos, rot, ..old(self).node(id) })
                &&& final(self).others_kept(old(self), id)
            },
            !old(self).live(id) ==> {
                &&& r == Err::<(), SceneError>(SceneError::UnknownNode)
                &&& final(self)@ == old(self)@
            },
    {
        if id.id < self.slots.len() as u64 {
            let i = id.id as usize;
            let mut slot: Option<SceneNode> = None;
            std::mem::swap(&mut self.slots[i], &mut slot);
            match slot {
                Some(mut n) => {
                    n.pos = pos;
                    n.rot = rot;
                    self.slots.set(i, Some(n));
                    Ok(())
                },
                None => {
                    self.slots.set(i, None);
                    Err(SceneError::UnknownNode)
                },
            }
        } else {
            Err(SceneError::UnknownNode)
        }
    }

    /// Re-tints a live node; leaves everything else as it is.
    pub fn set_color(&mut self, id: NodeId, color: Color) -> (r: Result<(), SceneError>)
        ensures
            old(self).live(id) ==> {
                &&& r is Ok
                &&& final(self).live(id)
                &&& final(self).node(id) == (SceneNode { color, ..old(self).node(id) })
                &&& final(self).others_kept(old(self), id)
            },
            !old(self).live(id) ==> {
                &&& r == Err::<(), SceneError>(SceneError::UnknownNode)
                &&& final(self)@ == old(self)@
            },
    {
        if id.id < self.slots.len() as u64 {
            let i = id.id as usize;
            let mut slot: Option<SceneNode> = None;
            std::mem::swap(&mut self.slots[i], &mut slot);
            match slot {
                Some(mut n) => {
                    n.color = color;
                    self.slots.set(i, Some(n));
                    Ok(())
                },
                None => {
                    self.slots.set(i, None);
                    Err(SceneError::UnknownNode)
                },
            }
        } else {
            Err(SceneError::UnknownNode)
        }
    }

    /// The slot at position `i`: the node with id `i`, if it is live.
    pub fn slot(&self, i: usize) -> (r: Option<&SceneNode>)
        requires
            i < self@.len(),
        ensures
            self@[i as int] is Some ==> r == Some(&self@[i as int]->Some_0),
            self@[i as int] is None ==> r is None,
    {
        match &self.slots[i] {
            Some(n) => Some(n),
            None => None,
        }
    }

    /// Number of slots (ids handed out so far).
    pub fn slot_count(&self) -> (n: usize)
        ensures
            n == self@.len(),
    {
        self.slots.len()
    }
}

/// One operation on a node store.
pub enum StoreOp {
    Add(SceneNode),
    Remove(NodeId),
}

/// The slots after `op`, as `NodeStore::add` and `NodeStore::remove` leave them.
pub open spec fn store_step(slots: Seq<Option<SceneNode>>, op: StoreOp) -> Seq<Option<SceneNode>> {
    match op {
        StoreOp::Add(n) => slots.push(Some(n)),
        StoreOp::Remove(id) => if id.id < slots.len() && slots[id.id as int] is Some {
            slots.update(id.id as int, None)
        } else {
            slots
        },
    }
}

/// The slots after the operations `ops`, in order.
pub open spec fn store_run(slots: Seq<Option<SceneNode>>, ops: Seq<StoreOp>) -> Seq<Option<SceneNode>>
    decreases ops.len(),
{
    if ops.len() == 0 {
        slots
    } else {
        store_step(store_run(slots, ops.drop_last()), ops.last())
    }
}

/// Once a live node is removed, no later sequence of adds and removes makes its id
/// live again: `get` on it fails with `UnknownNode` from then on. Adds only ever
/// append slots, so no id is handed out twice.
pub proof fn lemma_removed_id_stays_unknown(before: Seq<Option<SceneNode>>, id: NodeId, ops: Seq<StoreOp>)
    requires
        id.id < before.len(),
        before[id.id as int] is Some,
    ensures
        ({
            let r = store_run(store_step(before, StoreOp::Remove(id)), ops);
            id.id < r.len() && r[id.id as int] is None
        }),
    decreases ops.len(),
{
    let start = store_step(before, StoreOp::Remove(id));
    assert(start == before.update(id.id as int, None));
    if ops.len() > 0 {
        lemma_removed_id_stays_unknown(before, id, ops.drop_last());
        let prev = store_run(start, ops.drop_last());
        let r = store_run(start, ops);
        assert(r == store_step(prev, ops.last()));
        match ops.last() {
            StoreOp::Add(n) => {
                assert(r[id.id as int] == prev[id.id as int]);
            },
            StoreOp::Remove(other) => {},
        }
    }
}

} // verus!
