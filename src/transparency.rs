use vstd::prelude::*;

use crate::types::NodeId;

verus! {

/// One transparent node and the depth key it is filed under.
#[derive(Clone, Copy, Debug, PartialEq, Eq, Structural)]
pub struct TransparentEntry {
    pub z: i64,
    pub node: NodeId,
}

/// Keys never decrease along the sequence.
pub open spec fn sorted_by_depth(s: Seq<TransparentEntry>) -> bool {
    forall|i: int, j: int| 0 <= i <= j < s.len() ==> s[i].z <= s[j].z
}

/// No node id occurs twice.
pub open spec fn ids_unique(s: Seq<TransparentEntry>) -> bool {
    forall|i: int, j: int| 0 <= i < s.len() && 0 <= j < s.len() && s[i].node == s[j].node ==> i == j
}

/// The node ids filed under key `z`, in the order in which they are stored.
pub open spec fn ids_at(s: Seq<TransparentEntry>, z: i64) -> Seq<NodeId>
    decreases s.len(),
{
    if s.len() == 0 {
        Seq::empty()
    } else {
        let rest = ids_at(s.drop_last(), z);
        if s.last().z == z {
            rest.push(s.last().node)
        } else {
            rest
        }
    }
}

/// Depth-ordered index of the transparent nodes of a scene. Nodes with equal
/// keys keep the order in which they were filed, so that iteration in key
/// order gives a stable back-to-front draw sequence.
pub struct TransparencyIndex {
    entries: Vec<TransparentEntry>,
}

impl View for TransparencyIndex {
    type V = Seq<TransparentEntry>;

    closed spec fn view(&self) -> Seq<TransparentEntry> {
        self.entries@
    }
}

impl TransparencyIndex {
    /// Well-formed: sorted by key, each node id at most once.
    pub open spec fn wf(&self) -> bool {
        sorted_by_depth(self@) && ids_unique(self@)
    }

    /// `id` is filed, under any key.
    pub open spec fn has(&self, id: NodeId) -> bool {
        exists|i: int| 0 <= i < self@.len() && self@[i].node == id
    }

    /// `id` is filed under key `z`.
    pub open spec fn has_at(&self, id: NodeId, z: i64) -> bool {
        exists|i: int| 0 <= i < self@.len() && self@[i] == (TransparentEntry { z, node: id })
    }

    pub fn new() -> (r: TransparencyIndex)
        ensures
            r@ == Seq::<TransparentEntry>::empty(),
            r.wf(),
    {
        TransparencyIndex { entries: Vec::new() }
    }

    /// Number of filed nodes.
    pub fn len(&self) -> (n: usize)
        ensures
            n == self@.len(),
    {
        self.entries.len()
    }

    /// Position of `id` in the index, if it is filed.
    pub fn position_of(&self, id: NodeId) -> (r: Option<usize>)
        ensures
            match r {
                Some(i) => i < self@.len() && self@[i as int].node == id,
                None => !self.has(id),
            },
    {
        let mut i: usize = 0;
        while i < self.entries.len()
            invariant
                i <= self.entries@.len(),
                forall|k: int| 0 <= k < i ==> self.entries@[k].node != id,
            decreases self.entries@.len() - i,
        {
            if self.entries[i].node == id {
                return Some(i);
            }
            i = i + 1;
        }
        None
    }

    /// Files `id` under key `z`, after every entry whose key is not greater.
    pub fn insert(&mut self, z: i64, id: NodeId)
        requires
            old(self).wf(),
            !old(self).has(id),
        ensures
            final(self).wf(),
            exists|p: int|
                0 <= p <= old(self)@.len() && final(self)@ == old(self)@.insert(
                    p,
                    TransparentEntry { z, node: id },
                ) && (forall|i: int| 0 <= i < p ==> old(self)@[i].z <= z) && (forall|i: int|
                    p <= i < old(self)@.len() ==> old(self)@[i].z > z),
            final(self).has_at(id, z),
            forall|w: i64| #[trigger] final(self).has_at(id, w) ==> w == z,
            forall|x: NodeId, w: i64| x != id ==> (#[trigger] final(self).has_at(x, w) <==> old(self).has_at(x, w)),
            forall|x: NodeId| x != id ==> (#[trigger] final(self).has(x) <==> old(self).has(x)),
    {
        let mut p: usize = 0;
        while p < self.entries.len() && self.entries[p].z <= z
            invariant
                p <= self.entries@.len(),
                forall|i: int| 0 <= i < p ==> self.entries@[i].z <= z,
            decreases self.entries@.len() - p,
        {
            p = p + 1;
        }
        let ghost before = self.entries@;
        assert(forall|i: int| p <= i < before.len() ==> before[i].z > z) by {
            if p < before.len() {
                assert(before[p as int].z > z);
            }
        }
        self.entries.insert(p, TransparentEntry { z, node: id });
        let ghost after = self.entries@;
        assert forall|i: int, j: int| 0 <= i <= j < after.len() implies after[i].z <= after[j].z by {
            if i < p && j > p {
                assert(after[i] == before[i]);
                assert(after[j] == before[j - 1]);
            }
        }
        assert forall|i: int, j: int|
            0 <= i < after.len() && 0 <= j < after.len() && after[i].node == after[j].node implies i
            == j by {
            if i != p && j != p {
                let bi = if i < p { i } else { i - 1 };
                let bj = if j < p { j } else { j - 1 };
                assert(after[i] == before[bi]);
                assert(after[j] == before[bj]);
            } else if i == p && j != p {
                let bj = if j < p { j } else { j - 1 };
                assert(after[j] == before[bj]);
            } else if j == p && i != p {
                let bi = if i < p { i } else { i - 1 };
                assert(after[i] == before[bi]);
            }
        }
        assert(self@ == before.insert(p as int, TransparentEntry { z, node: id }));
        assert(after[p as int] == TransparentEntry { z, node: id });
        assert forall|w: i64| #[trigger] self.has_at(id, w) implies w == z by {
            let k = choose|k: int| 0 <= k < after.len() && after[k] == (TransparentEntry { z: w, node: id });
            if k != p {
                let bk = if k < p { k } else { k - 1 };
                assert(after[k] == before[bk]);
            }
        }
        assert forall|x: NodeId, w: i64| x != id implies (#[trigger] self.has_at(x, w) <==> old(self).has_at(x, w)) by {
            if self.has_at(x, w) {
                let k = choose|k: int| 0 <= k < after.len() && after[k] == (TransparentEntry { z: w, node: x });
                let bk = if k < p { k } else { k - 1 };
                assert(after[k] == before[bk]);
            }
            if old(self).has_at(x, w) {
                let k = choose|k: int| 0 <= k < before.len() && before[k] == (TransparentEntry { z: w, node: x });
                let ak = if k < p { k } else { k + 1 };
                assert(after[ak] == before[k]);
            }
        }
        assert forall|x: NodeId| x != id implies (#[trigger] self.has(x) <==> old(self).has(x)) by {
            if self.has(x) {
                let k = choose|k: int| 0 <= k < after.len() && after[k].node == x;
                let bk = if k < p { k } else { k - 1 };
                assert(after[k] == before[bk]);
            }
            if old(self).has(x) {
                let k = choose|k: int| 0 <= k < before.len() && before[k].node == x;
                let ak = if k < p { k } else { k + 1 };
                assert(after[ak] == before[k]);
            }
        }
    }

    /// Removes `id` from whatever key it is filed under. Returns whether it was filed.
    pub fn remove(&mut self, id: NodeId) -> (found: bool)
        requires
            old(self).wf(),
        ensures
            final(self).wf(),
            found == old(self).has(id),
            !final(self).has(id),
            found ==> exists|p: int|
                0 <= p < old(self)@.len() && old(self)@[p].node == id && final(self)@ == old(
                    self,
                )@.remove(p),
            !found ==> final(self)@ == old(self)@,
            forall|x: NodeId, w: i64| x != id ==> (#[trigger] final(self).has_at(x, w) <==> old(self).has_at(x, w)),
            forall|x: NodeId| x != id ==> (#[trigger] final(self).has(x) <==> old(self).has(x)),
    {
        match self.position_of(id) {
            Some(p) => {
                let ghost before = self.entries@;
                self.entries.remove(p);
                let ghost after = self.entries@;
                assert(before[p as int].node == id);
                assert(after == before.remove(p as int));
                assert(old(self)@ == before);
                assert forall|x: NodeId, w: i64| x != id implies (#[trigger] self.has_at(x, w) <==> old(self).has_at(x, w)) by {
                    let e = TransparentEntry { z: w, node: x };
                    if exists|k: int| 0 <= k < after.len() && after[k] == e {
                        let k = choose|k: int| 0 <= k < after.len() && after[k] == e;
                        let bk = if k < p { k } else { k + 1 };
                        assert(after[k] == before[bk]);
                        assert(old(self)@[bk] == e);
                    }
                    if exists|k: int| 0 <= k < before.len() && before[k] == e {
                        let k = choose|k: int| 0 <= k < before.len() && before[k] == e;
                        assert(k != p);
                        let ak = if k < p { k } else { k - 1 };
                        assert(after[ak] == before[k]);
                        assert(self@[ak] == e);
                    }
                }
                assert forall|x: NodeId| x != id implies (#[trigger] self.has(x) <==> old(self).has(x)) by {
                    if exists|k: int| 0 <= k < after.len() && after[k].node == x {
                        let k = choose|k: int| 0 <= k < after.len() && after[k].node == x;
                        let bk = if k < p { k } else { k + 1 };
                        assert(after[k] == before[bk]);
                        assert(old(self)@[bk].node == x);
                    }
                    if exists|k: int| 0 <= k < before.len() && before[k].node == x {
                        let k = choose|k: int| 0 <= k < before.len() && before[k].node == x;
                        assert(k != p);
                        let ak = if k < p { k } else { k - 1 };
                        assert(after[ak] == before[k]);
                        assert(self@[ak].node == x);
                    }
                }
                let ghost after = self.entries@;
                assert forall|i: int, j: int| 0 <= i <= j < after.len() implies after[i].z
                    <= after[j].z by {
                    let bi = if i < p { i } else { i + 1 };
                    let bj = if j < p { j } else { j + 1 };
                    assert(after[i] == before[bi]);
                    assert(after[j] == before[bj]);
                }
                assert forall|i: int, j: int|
                    0 <= i < after.len() && 0 <= j < after.len() && after[i].node
                        == after[j].node implies i == j by {
                    let bi = if i < p { i } else { i + 1 };
                    let bj = if j < p { j } else { j + 1 };
                    assert(after[i] == before[bi]);
                    assert(after[j] == before[bj]);
                }
                assert(!self.has(id)) by {
                    if self.has(id) {
                        let k = choose|k: int| 0 <= k < after.len() && after[k].node == id;
                        let bk = if k < p { k } else { k + 1 };
                        assert(after[k] == before[bk]);
                    }
                }
                true
            },
            None => false,
        }
    }

    /// Moves `id` from key `old_key` to key `new_key`. Does nothing, and returns
    /// false, when `id` is not filed under `old_key`.
    pub fn relocate(&mut self, id: NodeId, old_key: i64, new_key: i64) -> (moved: bool)
        requires
            old(self).wf(),
        ensures
            final(self).wf(),
            moved == old(self).has_at(id, old_key),
            moved ==> final(self).has_at(id, new_key),
            moved ==> forall|other: NodeId, z: i64|
                other != id ==> (final(self).has_at(other, z) <==> old(self).has_at(other, z)),
            !moved ==> final(self)@ == old(self)@,
    {
        match self.position_of(id) {
            Some(p) => {
                if self.entries[p].z == old_key {
                    let ghost before = self@;
                    self.remove(id);
                    let ghost mid = self@;
                    self.insert(new_key, id);
                    let ghost after = self@;
                    assert(self.has_at(id, new_key)) by {
                        let q = choose|q: int|
                            0 <= q <= mid.len() && after == mid.insert(
                                q,
                                TransparentEntry { z: new_key, node: id },
                            );
                        assert(after[q] == TransparentEntry { z: new_key, node: id });
                    }
                    assert forall|other: NodeId, z: i64| other != id implies (self.has_at(other, z)
                        <==> old(self).has_at(other, z)) by {
                        let r = choose|r: int|
                            0 <= r < before.len() && before[r].node == id && mid == before.remove(
                                r,
                            );
                        let q = choose|q: int|
                            0 <= q <= mid.len() && after == mid.insert(
                                q,
                                TransparentEntry { z: new_key, node: id },
                            );
                        let e = TransparentEntry { z, node: other };
                        if self.has_at(other, z) {
                            let k = choose|k: int| 0 <= k < after.len() && after[k] == e;
                            let mk = if k < q { k } else { k - 1 };
                            assert(after[k] == mid[mk]);
                            let bk = if mk < r { mk } else { mk + 1 };
                            assert(mid[mk] == before[bk]);
                        }
                        if old(self).has_at(other, z) {
                            let k = choose|k: int| 0 <= k < before.len() && before[k] == e;
                            let mk = if k < r { k } else { k - 1 };
                            assert(mid[mk] == before[k]);
                            let ak = if mk < q { mk } else { mk + 1 };
                            assert(after[ak] == mid[mk]);
                        }
                    }
                    true
                } else {
                    assert(!self.has_at(id, old_key)) by {
                        if self.has_at(id, old_key) {
                            let k = choose|k: int|
                                0 <= k < self@.len() && self@[k] == (TransparentEntry {
                                    z: old_key,
                                    node: id,
                                });
                            assert(k == p);
                        }
                    }
                    false
                }
            },
            None => false,
        }
    }

    /// The filed node ids in key order (back to front).
    pub fn ordered_ids(&self) -> (r: Vec<NodeId>)
        ensures
            r@ == self@.map_values(|e: TransparentEntry| e.node),
    {
        let mut r: Vec<NodeId> = Vec::new();
        let mut i: usize = 0;
        while i < self.entries.len()
            invariant
                i <= self.entries@.len(),
                r@ == self.entries@.subrange(0, i as int).map_values(|e: TransparentEntry| e.node),
            decreases self.entries@.len() - i,
        {
            r.push(self.entries[i].node);
            assert(self.entries@.subrange(0, i + 1) == self.entries@.subrange(0, i as int).push(
                self.entries@[i as int],
            ));
            i = i + 1;
        }
        assert(self.entries@.subrange(0, i as int) == self.entries@);
        r
    }

    /// The node ids filed under key `z`, in filing order.
    pub fn bucket(&self, z: i64) -> (r: Vec<NodeId>)
        ensures
            r@ == ids_at(self@, z),
    {
        let mut r: Vec<NodeId> = Vec::new();
        let mut i: usize = 0;
        while i < self.entries.len()
            invariant
                i <= self.entries@.len(),
                r@ == ids_at(self.entries@.subrange(0, i as int), z),
            decreases self.entries@.len() - i,
        {
            let ghost s = self.entries@.subrange(0, i + 1);
            assert(s.drop_last() == self.entries@.subrange(0, i as int));
            if self.entries[i].z == z {
                r.push(self.entries[i].node);
            }
            i = i + 1;
        }
        assert(self.entries@.subrange(0, i as int) == self.entries@);
        r
    }

    /// The entry at position `i` in key order.
    pub fn entry(&self, i: usize) -> (e: TransparentEntry)
        requires
            i < self@.len(),
        ensures
            e == self@[i as int],
    {
        self.entries[i]
    }
}

/// Walking a well-formed index in order meets keys that never decrease, and no
/// node twice: the back-to-front draw order. Every operation on the index keeps
/// it well-formed.
pub proof fn lemma_index_in_depth_order(ix: TransparencyIndex, i: int, j: int)
    requires
        ix.wf(),
        0 <= i <= j < ix@.len(),
    ensures
        ix@[i].z <= ix@[j].z,
        i != j ==> ix@[i].node != ix@[j].node,
{
}

} // verus!
