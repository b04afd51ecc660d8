use vstd::prelude::*;

use crate::types::{IndivId, NodeId, SceneError};

verus! {

/// One entity and the node that shows it.
#[derive(Clone, Copy, Debug, PartialEq, Eq, Structural)]
pub struct Binding {
    pub indiv: IndivId,
    pub node: NodeId,
}

/// No entity occurs twice and no node occurs twice: the table is a bijection
/// between the entities and the nodes it holds.
pub open spec fn bijective(s: Seq<Binding>) -> bool {
    &&& forall|i: int, j: int|
        0 <= i < s.len() && 0 <= j < s.len() && s[i].indiv == s[j].indiv ==> i == j
    &&& forall|i: int, j: int|
        0 <= i < s.len() && 0 <= j < s.len() && s[i].node == s[j].node ==> i == j
}

/// Association between entities and their nodes, one node per entity.
pub struct EntityBindings {
    pairs: Vec<Binding>,
}

impl View for EntityBindings {
    type V = Seq<Binding>;

    closed spec fn view(&self) -> Seq<Binding> {
        self.pairs@
    }
}

impl EntityBindings {
    pub open spec fn wf(&self) -> bool {
        bijective(self@)
    }

    /// `e` has a node.
    pub open spec fn bound(&self, e: IndivId) -> bool {
        exists|i: int| 0 <= i < self@.len() && self@[i].indiv == e
    }

    /// `n` is the node of some entity.
    pub open spec fn claimed(&self, n: NodeId) -> bool {
        exists|i: int| 0 <= i < self@.len() && self@[i].node == n
    }

    /// `e` is bound to `n`.
    pub open spec fn maps(&self, e: IndivId, n: NodeId) -> bool {
        exists|i: int| 0 <= i < self@.len() && self@[i] == (Binding { indiv: e, node: n })
    }

    pub fn new() -> (b: EntityBindings)
        ensures
            b@ == Seq::<Binding>::empty(),
            b.wf(),
    {
        EntityBindings { pairs: Vec::new() }
    }

    /// Number of bound entities.
    pub fn len(&self) -> (n: usize)
        ensures
            n == self@.len(),
    {
        self.pairs.len()
    }

    fn position_of_indiv(&self, e: IndivId) -> (r: Option<usize>)
        ensures
            match r {
                Some(i) => i < self@.len() && self@[i as int].indiv == e,
                None => !self.bound(e),
            },
    {
        let mut i: usize = 0;
        while i < self.pairs.len()
            invariant
                i <= self.pairs@.len(),
                forall|k: int| 0 <= k < i ==> self.pairs@[k].indiv != e,
            decreases self.pairs@.len() - i,
        {
            if self.pairs[i].indiv == e {
                return Some(i);
            }
            i = i + 1;
        }
        None
    }

    /// The node of entity `e`.
    pub fn node_of(&self, e: IndivId) -> (r: Option<NodeId>)
        requires
            self.wf(),
        ensures
            match r {
                Some(n) => self.maps(e, n),
                None => !self.bound(e),
            },
    {
        match self.position_of_indiv(e) {
            Some(i) => {
                assert(self@[i as int] == Binding { indiv: e, node: self.pairs@[i as int].node });
                Some(self.pairs[i].node)
            },
            None => None,
        }
    }

    /// The entity that node `n` shows.
    pub fn indiv_of(&self, n: NodeId) -> (r: Option<IndivId>)
        requires
            self.wf(),
        ensures
            match r {
                Some(e) => self.maps(e, n),
                None => !self.claimed(n),
            },
    {
        let mut i: usize = 0;
        while i < self.pairs.len()
            invariant
                i <= self.pairs@.len(),
                forall|k: int| 0 <= k < i ==> self.pairs@[k].node != n,
            decreases self.pairs@.len() - i,
        {
            if self.pairs[i].node == n {
                assert(self@[i as int] == Binding { indiv: self.pairs@[i as int].indiv, node: n });
                return Some(self.pairs[i].indiv);
            }
            i = i + 1;
        }
        None
    }

    /// Binds `e` to `n`. Fails with `DuplicateBinding`, changing nothing, when `e`
    /// already has a node.
    pub fn bind(&mut self, e: IndivId, n: NodeId) -> (r: Result<(), SceneError>)
        requires
            old(self).wf(),
            !old(self).claimed(n),
        ensures
            final(self).wf(),
            old(self).bound(e) ==> r == Err::<(), SceneError>(SceneError::DuplicateBinding)
                && final(self)@ == old(self)@,
            !old(self).bound(e) ==> r is Ok && final(self)@ == old(self)@.push(
                Binding { indiv: e, node: n },
            ),
    {
        match self.position_of_indiv(e) {
            Some(_) => Err(SceneError::DuplicateBinding),
            None => {
                self.pairs.push(Binding { indiv: e, node: n });
                Ok(())
            },
        }
    }

    /// Drops the binding of `e` and returns its node.
    pub fn unbind(&mut self, e: IndivId) -> (r: Option<NodeId>)
        requires
            old(self).wf(),
        ensures
            final(self).wf(),
            !final(self).bound(e),
            match r {
                Some(n) => old(self).maps(e, n) && exists|p: int|
                    0 <= p < old(self)@.len() && old(self)@[p] == (Binding { indiv: e, node: n })
                        && final(self)@ == old(self)@.remove(p),
                None => !old(self).bound(e) && final(self)@ == old(self)@,
            },
    {
        match self.position_of_indiv(e) {
            Some(p) => {
                let ghost before = self.pairs@;
                let b = self.pairs.remove(p);
                let ghost after = self.pairs@;
                assert forall|i: int, j: int|
                    0 <= i < after.len() && 0 <= j < after.len() && after[i].indiv
                        == after[j].indiv implies i == j by {
                    let bi = if i < p { i } else { i + 1 };
                    let bj = if j < p { j } else { j + 1 };
                    assert(after[i] == before[bi]);
                    assert(after[j] == before[bj]);
                }
                assert forall|i: int, j: int|
                    0 <= i < after.len() && 0 <= j < after.len() && after[i].node
                        == after[j].node implies i == j by {
                    let bi = if i < p { i } else { i + 1 };
                    let bj = if j < p { j } else { j + 1 };
                    assert(after[i] == before[bi]);
                    assert(after[j] == before[bj]);
                }
                assert(!self.bound(e)) by {
                    if self.bound(e) {
                        let k = choose|k: int| 0 <= k < after.len() && after[k].indiv == e;
                        let bk = if k < p { k } else { k + 1 };
                        assert(after[k] == before[bk]);
                    }
                }
                assert(before[p as int] == Binding { indiv: e, node: b.node });
                Some(b.node)
            },
            None => None,
        }
    }

    /// The binding at position `i`.
    pub fn entry(&self, i: usize) -> (b: Binding)
        requires
            i < self@.len(),
        ensures
            b == self@[i as int],
    {
        self.pairs[i]
    }
}

/// In a well-formed table an entity is bound to at most one node.
pub proof fn lemma_entity_has_one_node(b: EntityBindings, e: IndivId, n1: NodeId, n2: NodeId)
    requires
        b.wf(),
        b.maps(e, n1),
        b.maps(e, n2),
    ensures
        n1 == n2,
{
    let i = choose|i: int| 0 <= i < b@.len() && b@[i] == (Binding { indiv: e, node: n1 });
    let j = choose|j: int| 0 <= j < b@.len() && b@[j] == (Binding { indiv: e, node: n2 });
    assert(b@[i].indiv == b@[j].indiv);
}

/// In a well-formed table a node is claimed by at most one entity.
pub proof fn lemma_node_has_one_entity(b: EntityBindings, e1: IndivId, e2: IndivId, n: NodeId)
    requires
        b.wf(),
        b.maps(e1, n),
        b.maps(e2, n),
    ensures
        e1 == e2,
{
    let i = choose|i: int| 0 <= i < b@.len() && b@[i] == (Binding { indiv: e1, node: n });
    let j = choose|j: int| 0 <= j < b@.len() && b@[j] == (Binding { indiv: e2, node: n });
    assert(b@[i].node == b@[j].node);
}

} // verus!
