use vstd::prelude::*;

use crate::types::{MeshId, SceneError};

verus! {

/// The loaded meshes, addressed by the order in which they were added.
pub struct MeshManager<M> {
    meshes: Vec<M>,
}

impl<M> View for MeshManager<M> {
    type V = Seq<M>;

    closed spec fn view(&self) -> Seq<M> {
        self.meshes@
    }
}

impl<M> MeshManager<M> {
    pub fn new() -> (m: MeshManager<M>)
        ensures
            m@.len() == 0,
    {
        MeshManager { meshes: Vec::new() }
    }

    /// Registers `mesh` under the next id.
    pub fn add(&mut self, mesh: M) -> (id: MeshId)
        requires
            old(self)@.len() < u16::MAX,
        ensures
            id.id == old(self)@.len(),
            final(self)@ == old(self)@.push(mesh),
    {
        let id = MeshId { id: self.meshes.len() as u16 };
        self.meshes.push(mesh);
        id
    }

    /// Replaces the mesh `id`; `MissingDrawable` when there is none.
    pub fn set(&mut self, id: MeshId, mesh: M) -> (r: Result<(), SceneError>)
        ensures
            id.id < old(self)@.len() ==> r is Ok && final(self)@ == old(self)@.update(id.id as int, mesh),
            id.id >= old(self)@.len() ==> r == Err::<(), SceneError>(SceneError::MissingDrawable)
                && final(self)@ == old(self)@,
    {
        let index = id.id as usize;
        if index < self.meshes.len() {
            self.meshes.set(index, mesh);
            Ok(())
        } else {
            Err(SceneError::MissingDrawable)
        }
    }

    /// The mesh `id`; `MissingDrawable` when there is none.
    pub fn get(&self, id: MeshId) -> (r: Result<&M, SceneError>)
        ensures
            id.id < self@.len() ==> r == Ok::<&M, SceneError>(&self@[id.id as int]),
            id.id >= self@.len() ==> r == Err::<&M, SceneError>(SceneError::MissingDrawable),
    {
        let index = id.id as usize;
        if index < self.meshes.len() {
            Ok(&self.meshes[index])
        } else {
            Err(SceneError::MissingDrawable)
        }
    }

    /// Number of registered meshes.
    pub fn len(&self) -> (n: usize)
        ensures
            n == self@.len(),
    {
        self.meshes.len()
    }
}

} // verus!
