use vstd::prelude::*;

pub mod types;
pub mod transparency;
pub mod scene_node;
pub mod node_store;
pub mod bindings;
pub mod camera;
pub mod battlefield;
pub mod scene;
pub mod input;
pub mod screen;
pub mod button;
pub mod gui;
pub mod visualizer;
pub mod mesh_manager;
pub mod geom;
pub mod fs;

verus! {

} // verus!
