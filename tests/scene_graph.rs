use battle_view::battlefield::Battlefield;
use battle_view::bindings::EntityBindings;
use battle_view::mesh_manager::MeshManager;
use battle_view::node_store::NodeStore;
use battle_view::scene::Scene;
use battle_view::scene_node::{SceneNode, Transform};
use battle_view::transparency::TransparencyIndex;
use battle_view::types::{Color, IndivId, MeshId, NodeId, SceneError, Size2, WorldPos};

fn pos(x: i64, y: i64, z: i64) -> WorldPos {
    WorldPos { x, y, z }
}

fn tint(a: u8) -> Color {
    Color { r: 255, g: 255, b: 255, a }
}

fn node(p: WorldPos, a: u8) -> SceneNode {
    SceneNode::new(p, 0, Some(MeshId { id: 0 }), tint(a))
}

fn scene() -> Scene {
    Scene::new(Size2 { w: 5, h: 5 }, Size2 { w: 800, h: 600 })
}

#[test]
fn store_hands_out_fresh_ids_and_forgets_removed_ones() {
    let mut store = NodeStore::new();
    let a = store.add(node(pos(0, 0, 0), 255));
    let b = store.add(node(pos(1, 0, 0), 255));
    assert_eq!(a, NodeId { id: 0 });
    assert_eq!(b, NodeId { id: 1 });
    assert!(store.remove(a).is_ok());
    assert!(matches!(store.get(a), Err(SceneError::UnknownNode)));
    assert!(matches!(store.remove(a), Err(SceneError::UnknownNode)));
    let c = store.add(node(pos(2, 0, 0), 255));
    assert_eq!(c, NodeId { id: 2 });
    assert!(!store.contains(a));
    assert!(store.contains(b));
    assert_eq!(store.get(b).unwrap().pos, pos(1, 0, 0));
    assert!(matches!(store.get(NodeId { id: 7 }), Err(SceneError::UnknownNode)));
}

#[test]
fn index_orders_by_depth_and_keeps_filing_order_on_ties() {
    let mut ix = TransparencyIndex::new();
    ix.insert(5, NodeId { id: 1 });
    ix.insert(-3, NodeId { id: 2 });
    ix.insert(5, NodeId { id: 3 });
    ix.insert(0, NodeId { id: 4 });
    let ids: Vec<u64> = ix.ordered_ids().iter().map(|n| n.id).collect();
    assert_eq!(ids, vec![2, 4, 1, 3]);
    assert_eq!(ix.bucket(5), vec![NodeId { id: 1 }, NodeId { id: 3 }]);
    assert!(ix.relocate(NodeId { id: 2 }, -3, 9));
    assert!(!ix.relocate(NodeId { id: 2 }, -3, 1));
    let ids: Vec<u64> = ix.ordered_ids().iter().map(|n| n.id).collect();
    assert_eq!(ids, vec![4, 1, 3, 2]);
    assert!(ix.bucket(-3).is_empty());
    assert!(ix.remove(NodeId { id: 1 }));
    assert!(!ix.remove(NodeId { id: 1 }));
    assert_eq!(ix.len(), 3);
    let mut last = i64::MIN;
    for i in 0..ix.len() {
        let e = ix.entry(i);
        assert!(e.z >= last);
        last = e.z;
    }
}

#[test]
fn alpha_crossing_full_opacity_moves_node_in_and_out_of_index() {
    let mut s = scene();
    let id = s.add_node(node(pos(0, 0, 7), 255));
    assert_eq!(s.transparent_node_ids().len(), 0);
    s.set_node_color(id, tint(100)).unwrap();
    assert_eq!(s.transparent_node_ids().bucket(7), vec![id]);
    s.set_node_color(id, tint(50)).unwrap();
    assert_eq!(s.transparent_node_ids().len(), 1);
    s.set_node_color(id, tint(255)).unwrap();
    assert_eq!(s.transparent_node_ids().len(), 0);
    s.set_node_color(id, tint(254)).unwrap();
    assert_eq!(s.transparent_node_ids().ordered_ids(), vec![id]);
    assert!(matches!(s.set_node_color(NodeId { id: 9 }, tint(0)), Err(SceneError::UnknownNode)));
}

#[test]
fn moving_a_transparent_node_relocates_it() {
    let mut s = scene();
    let a = s.add_node(node(pos(0, 0, 1), 10));
    let b = s.add_node(node(pos(0, 0, 2), 10));
    assert_eq!(s.transparent_node_ids().ordered_ids(), vec![a, b]);
    s.set_node_transform(a, pos(4, 4, 3), 90_000).unwrap();
    assert_eq!(s.transparent_node_ids().ordered_ids(), vec![b, a]);
    assert_eq!(s.node(a).unwrap().rot, 90_000);
    assert!(matches!(s.set_node_transform(NodeId { id: 5 }, pos(0, 0, 0), 0), Err(SceneError::UnknownNode)));
}

#[test]
fn removing_a_node_purges_index_and_binding() {
    let mut s = scene();
    let id = s.add_indiv(IndivId { id: 3 }, node(pos(0, 0, 0), 20)).unwrap();
    assert_eq!(s.transparent_node_ids().len(), 1);
    let removed = s.remove_node(id).unwrap();
    assert_eq!(removed.color.a, 20);
    assert_eq!(s.transparent_node_ids().len(), 0);
    assert_eq!(s.indiv_id_to_node_id_opt(IndivId { id: 3 }), None);
    assert!(matches!(s.remove_node(id), Err(SceneError::UnknownNode)));
}

#[test]
fn second_binding_of_an_entity_is_refused() {
    let mut s = scene();
    let id = s.add_indiv(IndivId { id: 1 }, node(pos(0, 0, 0), 255)).unwrap();
    let again = s.add_indiv(IndivId { id: 1 }, node(pos(9, 9, 0), 255));
    assert!(matches!(again, Err(SceneError::DuplicateBinding)));
    assert_eq!(s.nodes().slot_count(), 1);
    assert_eq!(s.indiv_id_to_node_id(IndivId { id: 1 }), Ok(id));
    assert!(matches!(s.indiv_id_to_node_id(IndivId { id: 2 }), Err(SceneError::UnknownNode)));
    assert!(matches!(s.remove_indiv(IndivId { id: 2 }), Err(SceneError::UnknownNode)));
}

#[test]
fn binding_table_is_one_to_one() {
    let mut b = EntityBindings::new();
    assert!(b.bind(IndivId { id: 1 }, NodeId { id: 10 }).is_ok());
    assert!(b.bind(IndivId { id: 2 }, NodeId { id: 11 }).is_ok());
    assert!(matches!(b.bind(IndivId { id: 1 }, NodeId { id: 12 }), Err(SceneError::DuplicateBinding)));
    assert_eq!(b.node_of(IndivId { id: 1 }), Some(NodeId { id: 10 }));
    assert_eq!(b.indiv_of(NodeId { id: 11 }), Some(IndivId { id: 2 }));
    assert_eq!(b.unbind(IndivId { id: 1 }), Some(NodeId { id: 10 }));
    assert_eq!(b.indiv_of(NodeId { id: 10 }), None);
    assert_eq!(b.len(), 1);
}

#[test]
fn sync_twice_with_same_battlefield_changes_nothing() {
    let bf = Battlefield::new();
    let mut s = scene();
    s.sync(&bf);
    assert_eq!(s.nodes().slot_count(), 25);
    assert_eq!(s.entity_bindings().len(), 25);
    assert_eq!(s.transparent_node_ids().len(), 0);
    let n = s.indiv_id_to_node_id(IndivId { id: 7 }).unwrap();
    let shown = s.node(n).unwrap();
    assert_eq!(shown.pos, pos(1000, 2000, 0));
    assert_eq!(shown.mesh_id, Some(MeshId { id: 0 }));
    assert_eq!(shown.color, Color::white());
    s.sync(&bf);
    assert_eq!(s.nodes().slot_count(), 25);
    assert_eq!(s.entity_bindings().len(), 25);
    assert_eq!(s.indiv_id_to_node_id(IndivId { id: 7 }).unwrap(), n);
}

#[test]
fn sync_writes_unit_positions_into_bound_nodes() {
    let bf = Battlefield::new();
    let mut s = scene();
    let id = s.add_indiv(IndivId { id: 0 }, node(pos(9, 9, 4), 30)).unwrap();
    s.sync(&bf);
    assert_eq!(s.nodes().slot_count(), 25);
    assert_eq!(s.node(id).unwrap().pos, pos(0, 0, 0));
    assert_eq!(s.node(id).unwrap().color.a, 30);
    assert_eq!(s.transparent_node_ids().bucket(0), vec![id]);
}

#[test]
fn sync_keeps_nodes_of_units_not_on_the_battlefield() {
    let bf = Battlefield::new();
    let mut s = scene();
    let id = s.add_indiv(IndivId { id: 999 }, node(pos(1, 1, 0), 255)).unwrap();
    s.sync(&bf);
    assert_eq!(s.nodes().slot_count(), 26);
    assert_eq!(s.indiv_id_to_node_id(IndivId { id: 999 }).unwrap(), id);
}

#[test]
fn entity_bound_then_made_transparent_then_removed() {
    let mut s = scene();
    let e1 = IndivId { id: 1 };
    let id = s.add_indiv(e1, SceneNode::new(pos(2000, 3000, 0), 0, Some(MeshId { id: 0 }), Color::white())).unwrap();
    assert_eq!(s.nodes().slot_count(), 1);
    assert_eq!(s.node(id).unwrap().pos, pos(2000, 3000, 0));
    assert_eq!(s.node(id).unwrap().color.a, 255);
    assert_eq!(s.transparent_node_ids().len(), 0);
    s.set_node_color(id, Color { r: 255, g: 255, b: 255, a: 128 }).unwrap();
    assert_eq!(s.transparent_node_ids().bucket(0), vec![id]);
    s.remove_indiv(e1).unwrap();
    assert_eq!(s.indiv_id_to_node_id_opt(e1), None);
    assert!(matches!(s.node(id), Err(SceneError::UnknownNode)));
    assert!(s.transparent_node_ids().ordered_ids().is_empty());
}

#[test]
fn draw_list_puts_opaque_first_then_transparent_back_to_front() {
    let mut s = scene();
    let far = s.add_node(SceneNode::new(pos(0, 0, -5), 0, Some(MeshId { id: 1 }), tint(100)));
    let mut parent = SceneNode::new(pos(10, 0, 0), 45_000, Some(MeshId { id: 2 }), tint(255));
    parent.children.push(SceneNode::new(pos(1, 1, 0), 0, None, tint(255)));
    parent.children[0].children.push(SceneNode::new(pos(2, 2, 0), 0, Some(MeshId { id: 3 }), tint(255)));
    let _opaque = s.add_node(parent);
    let near = s.add_node(SceneNode::new(pos(0, 0, 5), 0, Some(MeshId { id: 4 }), tint(100)));
    let _ = (far, near);
    let items = s.draw_list();
    let meshes: Vec<u16> = items.iter().map(|d| d.mesh_id.id).collect();
    assert_eq!(meshes, vec![2, 3, 1, 4]);
    assert_eq!(items[0].path, vec![Transform { pos: pos(10, 0, 0), rot: 45_000 }]);
    assert_eq!(items[1].path, vec![
        Transform { pos: pos(10, 0, 0), rot: 45_000 },
        Transform { pos: pos(1, 1, 0), rot: 0 },
        Transform { pos: pos(2, 2, 0), rot: 0 },
    ]);
    assert_eq!(items[2].color.a, 100);
}

#[test]
fn draw_syncs_then_lists_every_unit() {
    let bf = Battlefield::new();
    let mut s = scene();
    let items = s.draw(&bf);
    assert_eq!(items.len(), 25);
    assert!(items.iter().all(|d| d.path.len() == 1));
}

#[test]
fn missing_mesh_is_reported() {
    let mut mm: MeshManager<&str> = MeshManager::new();
    let id = mm.add("grass");
    assert_eq!(id, MeshId { id: 0 });
    assert_eq!(mm.get(id), Ok(&"grass"));
    assert!(matches!(mm.get(MeshId { id: 1 }), Err(SceneError::MissingDrawable)));
    assert!(matches!(mm.set(MeshId { id: 3 }, "rock"), Err(SceneError::MissingDrawable)));
    assert!(mm.set(id, "rock").is_ok());
    assert_eq!(mm.get(id), Ok(&"rock"));
    assert_eq!(mm.len(), 1);
}

#[test]
fn new_battlefield_is_a_five_by_five_grid() {
    let bf = Battlefield::new();
    assert_eq!(bf.map_size(), Size2 { w: 5, h: 5 });
    assert_eq!(bf.get_indiv_iter().len(), 25);
    let u = bf.get_indiv(&IndivId { id: 13 }).unwrap();
    assert_eq!((u.pos.x, u.pos.y), (2000, 3000));
    assert!(bf.get_indiv(&IndivId { id: 25 }).is_none());
}

#[test]
fn removing_one_entity_keeps_the_others() {
    let mut s = scene();
    let a = s.add_indiv(IndivId { id: 1 }, node(pos(0, 0, 0), 255)).unwrap();
    let b = s.add_indiv(IndivId { id: 2 }, node(pos(1, 0, 0), 40)).unwrap();
    let c = s.add_indiv(IndivId { id: 3 }, node(pos(2, 0, 0), 255)).unwrap();
    s.remove_indiv(IndivId { id: 2 }).unwrap();
    assert_eq!(s.indiv_id_to_node_id_opt(IndivId { id: 1 }), Some(a));
    assert_eq!(s.indiv_id_to_node_id_opt(IndivId { id: 2 }), None);
    assert_eq!(s.indiv_id_to_node_id_opt(IndivId { id: 3 }), Some(c));
    assert_eq!(s.entity_bindings().len(), 2);
    assert!(matches!(s.node(b), Err(SceneError::UnknownNode)));
    assert_eq!(s.node(c).unwrap().pos, pos(2, 0, 0));
}

#[test]
fn sync_leaves_other_nodes_and_node_attributes_alone() {
    let bf = Battlefield::new();
    let mut s = scene();
    let mut shown = SceneNode::new(pos(7, 7, 0), 5, Some(MeshId { id: 9 }), tint(30));
    shown.children.push(node(pos(1, 1, 0), 255));
    let bound = s.add_indiv(IndivId { id: 4 }, shown).unwrap();
    let loose = s.add_node(node(pos(3, 3, 3), 80));
    let absent = s.add_indiv(IndivId { id: 500 }, node(pos(5, 5, 5), 255)).unwrap();
    s.sync(&bf);
    let n = s.node(bound).unwrap();
    assert_eq!(n.pos, pos(0, 4000, 0));
    assert_eq!(n.rot, 0);
    assert_eq!(n.mesh_id, Some(MeshId { id: 9 }));
    assert_eq!(n.color.a, 30);
    assert_eq!(n.children.len(), 1);
    assert_eq!(s.node(loose).unwrap().pos, pos(3, 3, 3));
    assert_eq!(s.node(absent).unwrap().pos, pos(5, 5, 5));
    let fresh = s.indiv_id_to_node_id(IndivId { id: 0 }).unwrap();
    assert!(fresh.id >= 3);
}
