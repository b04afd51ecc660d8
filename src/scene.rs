use vstd::prelude::*;

use crate::battlefield::{Battlefield, Indiv};
use crate::bindings::EntityBindings;
use crate::camera::{Camera, Direction, Rect};
use crate::input::{ElementState, InputEvent, InputState, Key, MouseButton, TouchPhase};
use crate::screen::{EventStatus, ScreenCommand, ScreenType};
use crate::node_store::NodeStore;
use crate::scene_node::{SceneNode, DrawItem, DrawItemView, items_view, node_items, collect_draw_items, Transform};
use crate::transparency::TransparencyIndex;
use crate::types::{Color, IndivId, MeshId, NodeId, SceneError, ScreenPos, Size2, WorldPos, UNITS_PER_TILE};

verus! {

/// The index files exactly the live transparent nodes, each under its depth.
pub open spec fn index_matches(st: NodeStore, ix: TransparencyIndex) -> bool {
    &&& forall|x: NodeId, w: i64|
        #[trigger] ix.has_at(x, w) ==> st.live(x) && st.node(x).color.spec_is_transparent() && st.node(x).pos.z == w
    &&& forall|id: NodeId|
        #[trigger] st.live(id) && st.node(id).color.spec_is_transparent() ==> ix.has(id)
}

/// The index keeps matching the store across a change that touches the store
/// and the index only at node `id`, provided `id` itself is filed right afterwards.
proof fn lemma_index_matches_after(
    st0: NodeStore,
    ix0: TransparencyIndex,
    st1: NodeStore,
    ix1: TransparencyIndex,
    id: NodeId,
)
    requires
        index_matches(st0, ix0),
        forall|x: NodeId| x != id ==> st1.live(x) == st0.live(x),
        forall|x: NodeId| x != id && st0.live(x) ==> st1.node(x) == st0.node(x),
        forall|x: NodeId, w: i64| x != id ==> (#[trigger] ix1.has_at(x, w) <==> ix0.has_at(x, w)),
        forall|w: i64|
            #[trigger] ix1.has_at(id, w) ==> st1.live(id) && st1.node(id).color.spec_is_transparent()
                && st1.node(id).pos.z == w,
        st1.live(id) && st1.node(id).color.spec_is_transparent() ==> ix1.has(id),
    ensures
        index_matches(st1, ix1),
{
    assert forall|x: NodeId, w: i64| #[trigger] ix1.has_at(x, w) implies st1.live(x)
        && st1.node(x).color.spec_is_transparent() && st1.node(x).pos.z == w by {
        if x != id {
            assert(ix0.has_at(x, w));
        }
    }
    assert forall|x: NodeId| #[trigger] st1.live(x) && st1.node(x).color.spec_is_transparent() implies ix1.has(x) by {
        if x != id {
            assert(st0.live(x));
            assert(ix0.has(x));
            let i = choose|i: int| 0 <= i < ix0@.len() && ix0@[i].node == x;
            assert(ix0.has_at(x, ix0@[i].z));
            assert(ix1.has_at(x, ix0@[i].z));
            let j = choose|j: int| 0 <= j < ix1@.len() && ix1@[j] == (crate::transparency::TransparentEntry { z: ix0@[i].z, node: x });
            assert(ix1@[j].node == x);
        }
    }
}

/// When no entry of a node other than `id` changed, no node other than `id`
/// entered or left the index.
proof fn lemma_has_follows_has_at(ix0: TransparencyIndex, ix1: TransparencyIndex, id: NodeId)
    requires
        forall|x: NodeId, w: i64| x != id ==> (#[trigger] ix1.has_at(x, w) <==> ix0.has_at(x, w)),
    ensures
        forall|x: NodeId| x != id ==> (ix1.has(x) <==> ix0.has(x)),
{
    assert forall|x: NodeId| x != id implies (ix1.has(x) <==> ix0.has(x)) by {
        if ix1.has(x) {
            let i = choose|i: int| 0 <= i < ix1@.len() && ix1@[i].node == x;
            assert(ix1.has_at(x, ix1@[i].z));
            let j = choose|j: int| 0 <= j < ix0@.len() && ix0@[j] == (crate::transparency::TransparentEntry { z: ix1@[i].z, node: x });
            assert(ix0@[j].node == x);
        }
        if ix0.has(x) {
            let i = choose|i: int| 0 <= i < ix0@.len() && ix0@[i].node == x;
            assert(ix0.has_at(x, ix0@[i].z));
            assert(ix1.has_at(x, ix0@[i].z));
            let j = choose|j: int| 0 <= j < ix1@.len() && ix1@[j] == (crate::transparency::TransparentEntry { z: ix0@[i].z, node: x });
            assert(ix1@[j].node == x);
        }
    }
}

/// Every bound node is live.
pub open spec fn bindings_live(st: NodeStore, b: EntityBindings) -> bool {
    forall|i: int| 0 <= i < b@.len() ==> st.live(#[trigger] b@[i].node)
}

/// Whether the node in slot `s` (if any) is drawn in the opaque pass.
pub open spec fn opaque_slot(s: Option<SceneNode>) -> bool {
    s is Some && !s->Some_0.color.spec_is_transparent()
}

/// Draw calls of the opaque pass over the first `n` slots, in slot order.
pub open spec fn opaque_items(slots: Seq<Option<SceneNode>>, n: int) -> Seq<DrawItemView>
    decreases n,
{
    if n <= 0 {
        Seq::empty()
    } else {
        let rest = opaque_items(slots, n - 1);
        if opaque_slot(slots[n - 1]) {
            rest + node_items(slots[n - 1]->Some_0, Seq::empty())
        } else {
            rest
        }
    }
}

/// Draw calls of the transparent pass over the first `n` index entries, back to front.
pub open spec fn transparent_items(st: NodeStore, ix: TransparencyIndex, n: int) -> Seq<
    DrawItemView,
>
    decreases n,
{
    if n <= 0 {
        Seq::empty()
    } else {
        transparent_items(st, ix, n - 1) + node_items(st.node(ix@[n - 1].node), Seq::empty())
    }
}

/// The camera position bound for a map of `map_size` tiles: the negated world
/// position of the map's far corner.
pub open spec fn max_camera_pos(map_size: Size2) -> WorldPos {
    WorldPos {
        x: -(map_size.w * UNITS_PER_TILE) as i64,
        y: -((map_size.h - 1) * UNITS_PER_TILE) as i64,
        z: 0,
    }
}

fn get_max_camera_pos(map_size: Size2) -> (p: WorldPos)
    ensures
        p == max_camera_pos(map_size),
{
    WorldPos {
        x: -(map_size.w as i64 * UNITS_PER_TILE),
        y: -((map_size.h as i64 - 1) * UNITS_PER_TILE),
        z: 0,
    }
}

fn get_initial_camera_pos(map_size: Size2) -> (p: WorldPos)
    ensures
        p == (WorldPos { x: (max_camera_pos(map_size).x / 2) as i64, y: (max_camera_pos(map_size).y / 2) as i64, z: 0 }),
{
    let m = get_max_camera_pos(map_size);
    let x: i64 = if m.x >= 0 { m.x / 2 } else { -((-m.x + 1) / 2) };
    let y: i64 = if m.y >= 0 { m.y / 2 } else { -((-m.y + 1) / 2) };
    WorldPos { x, y, z: 0 }
}

/// World units the camera travels while the pointer is dragged across the whole window.
pub const DRAG_PAN_SPAN: i64 = 24 * UNITS_PER_TILE;
/// Millidegrees the camera turns while the pointer is dragged across the window's width.
pub const DRAG_TURN_SPAN: i64 = 180_000;
/// Millidegrees the camera tilts while the pointer is dragged across the window's height.
pub const DRAG_TILT_SPAN: i64 = 45_000;
/// World units the camera travels for one key press.
pub const KEY_PAN: i64 = 2 * UNITS_PER_TILE;
/// Per-mille zoom factor for zooming in.
pub const ZOOM_IN: u64 = 700;
/// Per-mille zoom factor for zooming out.
pub const ZOOM_OUT: u64 = 1300;
/// Scroll amounts (hundredths of a line) up to this size are ignored.
pub const SCROLL_DEAD_ZONE: i32 = 10;

/// `d` pixels out of `size` scaled to `span`, rounded towards zero; nothing when
/// the window has no extent.
pub open spec fn pixels_to(d: int, span: int, size: int) -> int {
    if size <= 0 {
        0
    } else if d >= 0 {
        d * span / size
    } else {
        -((-d) * span / size)
    }
}

fn pixels_to_exec(d: i64, span: i64, size: i32) -> (r: i64)
    requires
        -0x1_0000_0000 <= d <= 0x1_0000_0000,
        0 <= span <= 1_000_000,
    ensures
        r == pixels_to(d as int, span as int, size as int),
{
    if size <= 0 {
        0
    } else {
        let m: u64 = if d >= 0 { d as u64 } else { (-d) as u64 };
        assert(m <= 0x1_0000_0000);
        assert(m as int * span as int <= 0x1_0000_0000 * 1_000_000) by (nonlinear_arith)
            requires
                0 <= m <= 0x1_0000_0000,
                0 <= span <= 1_000_000,
        ;
        let p: u64 = m * (span as u64);
        let q: u64 = p / (size as u64);
        assert(q <= p) by (nonlinear_arith)
            requires
                q == p as int / size as int,
                size >= 1,
                p >= 0,
        ;
        if d >= 0 {
            q as i64
        } else {
            -(q as i64)
        }
    }
}

/// The camera after the pointer moved from where `input` last saw it to `pos`:
/// dragging with the left button pans, with the right button turns and tilts.
pub open spec fn after_pointer_move(c: Camera, input: InputState, pos: ScreenPos) -> Camera {
    let dx = pos.x - input.mouse.pos.x;
    let dy = pos.y - input.mouse.pos.y;
    if input.mouse.is_left_button_pressed {
        c.panned(Direction::West, pixels_to(dx, DRAG_PAN_SPAN as int, input.win_size.w as int)).panned(
            Direction::South,
            pixels_to(dy, DRAG_PAN_SPAN as int, input.win_size.h as int),
        )
    } else if input.mouse.is_right_button_pressed {
        c.turned(pixels_to(dx, DRAG_TURN_SPAN as int, input.win_size.w as int)).tilted(
            pixels_to(dy, DRAG_TILT_SPAN as int, input.win_size.h as int),
        )
    } else {
        c
    }
}

/// The camera after the release of `key`.
pub open spec fn after_key(c: Camera, key: Key) -> Camera {
    match key {
        Key::W | Key::Up => c.panned(Direction::South, KEY_PAN as int),
        Key::S | Key::Down => c.panned(Direction::North, KEY_PAN as int),
        Key::D | Key::Right => c.panned(Direction::East, KEY_PAN as int),
        Key::A | Key::Left => c.panned(Direction::West, KEY_PAN as int),
        Key::Subtract | Key::Key1 => c.zoomed(ZOOM_OUT as int),
        Key::Add | Key::Key2 => c.zoomed(ZOOM_IN as int),
        _ => c,
    }
}

/// The camera after the scene handled `event`, seen with `input`.
pub open spec fn camera_after_event(c: Camera, input: InputState, event: InputEvent) -> Camera {
    match event {
        InputEvent::Resized(_) => c.resized(input.win_size),
        InputEvent::MouseMoved(pos) => after_pointer_move(c, input, pos),
        InputEvent::MouseWheel { delta_y } => if delta_y > SCROLL_DEAD_ZONE {
            c.zoomed(ZOOM_IN as int)
        } else if delta_y < -SCROLL_DEAD_ZONE {
            c.zoomed(ZOOM_OUT as int)
        } else {
            c
        },
        InputEvent::KeyboardInput { state: ElementState::Released, key } => after_key(c, key),
        InputEvent::Touch { pos, phase: _ } => after_pointer_move(c, input, pos),
        _ => c,
    }
}

/// The requests that the scene issues for `event`.
pub open spec fn scene_commands(event: InputEvent) -> Seq<ScreenCommand> {
    if event.is_quit_key() {
        seq![ScreenCommand::ChangeScreen(ScreenType::ShuttingDown)]
    } else {
        Seq::empty()
    }
}

/// The scene: nodes, the depth index of the transparent ones, the entity
/// bindings and the camera.
pub struct Scene {
    store: NodeStore,
    index: TransparencyIndex,
    bindings: EntityBindings,
    camera: Camera,
}

impl Scene {
    pub closed spec fn store(&self) -> NodeStore {
        self.store
    }

    pub closed spec fn index(&self) -> TransparencyIndex {
        self.index
    }

    pub closed spec fn bindings(&self) -> EntityBindings {
        self.bindings
    }

    pub closed spec fn cam(&self) -> Camera {
        self.camera
    }

    pub open spec fn wf(&self) -> bool {
        &&& self.index().wf()
        &&& self.bindings().wf()
        &&& self.cam().wf()
        &&& index_matches(self.store(), self.index())
        &&& bindings_live(self.store(), self.bindings())
    }

    /// An empty scene for a map of `map_size` tiles, viewed through a window of
    /// `win_size`. The camera is bounded by the map and starts over its middle.
    pub fn new(map_size: Size2, win_size: Size2) -> (s: Scene)
        ensures
            s.wf(),
            s.store()@.len() == 0,
            s.index()@.len() == 0,
            s.bindings()@.len() == 0,
            s.cam().bounds == Rect::spec_spanning_origin(max_camera_pos(map_size)),
            s.cam().x == max_camera_pos(map_size).x / 2,
            s.cam().y == max_camera_pos(map_size).y / 2,
            s.cam().yaw == 0,
            s.cam().pitch == crate::camera::INITIAL_PITCH,
            s.cam().zoom == crate::camera::ZOOM_ONE,
            s.cam().viewport == win_size,
    {
        let mut camera = Camera::new(win_size);
        let bounds = Rect::spanning_origin(get_max_camera_pos(map_size));
        camera.set_bounds(bounds);
        camera.set_pos(get_initial_camera_pos(map_size));
        Scene {
            store: NodeStore::new(),
            index: TransparencyIndex::new(),
            bindings: EntityBindings::new(),
            camera,
        }
    }

    /// Id of the node that the next `add_node` creates.
    pub open spec fn next_node_id(&self) -> nat {
        self.store().next_id()
    }

    /// Adds `node` under a fresh id, filing it in the transparency index when its
    /// color is not fully opaque.
    pub fn add_node(&mut self, node: SceneNode) -> (id: NodeId)
        requires
            old(self).wf(),
            old(self).store().can_add(),
        ensures
            final(self).wf(),
            id.id == old(self).next_node_id(),
            !old(self).store().live(id),
            final(self).store()@ == old(self).store()@.push(Some(node)),
            final(self).bindings() == old(self).bindings(),
            final(self).cam() == old(self).cam(),
            node.color.spec_is_transparent() ==> exists|p: int|
                0 <= p <= old(self).index()@.len() && final(self).index()@ == old(
                    self,
                ).index()@.insert(p, crate::transparency::TransparentEntry { z: node.pos.z, node: id }),
            !node.color.spec_is_transparent() ==> final(self).index()@ == old(self).index()@,
            node.color.spec_is_transparent() ==> final(self).index().has_at(id, node.pos.z),
            forall|x: NodeId| x != id ==> (final(self).index().has(x) <==> old(self).index().has(x)),
    {
        let ghost st0 = self.store;
        let ghost ix0 = self.index;
        let transparent = node.color.is_transparent();
        let z = node.pos.z;
        let id = self.store.add(node);
        assert forall|x: NodeId| x != id implies self.store.live(x) == st0.live(x) by {}
        assert forall|x: NodeId| x != id && st0.live(x) implies self.store.node(x) == st0.node(x) by {}
        if transparent {
            assert(!self.index.has(id)) by {
                if self.index.has(id) {
                    let i = choose|i: int| 0 <= i < ix0@.len() && ix0@[i].node == id;
                    assert(ix0.has_at(id, ix0@[i].z));
                }
            }
            self.index.insert(z, id);
        } else {
            assert forall|w: i64| #[trigger] self.index.has_at(id, w) implies false by {
                assert(ix0.has_at(id, w));
            }
        }
        proof {
            lemma_index_matches_after(st0, ix0, self.store, self.index, id);
        }
        id
    }

    /// Removes a live node: it leaves the store and the transparency index, and the
    /// binding of the entity it showed, if any, is dropped with it.
    pub fn remove_node(&mut self, node_id: NodeId) -> (r: Result<SceneNode, SceneError>)
        requires
            old(self).wf(),
        ensures
            final(self).wf(),
            final(self).cam() == old(self).cam(),
            old(self).store().live(node_id) ==> {
                &&& r == Ok::<SceneNode, SceneError>(old(self).store().node(node_id))
                &&& final(self).store()@ == old(self).store()@.update(node_id.id as int, None)
                &&& !final(self).index().has(node_id)
                &&& forall|x: NodeId| x != node_id ==> (final(self).index().has(x) <==> old(self).index().has(x))
                &&& !final(self).bindings().claimed(node_id)
                &&& forall|e: IndivId, n: NodeId|
                    n != node_id ==> (final(self).bindings().maps(e, n) <==> old(self).bindings().maps(e, n))
                &&& old(self).bindings().claimed(node_id) ==> exists|q: int|
                    0 <= q < old(self).bindings()@.len() && old(self).bindings()@[q].node == node_id
                        && final(self).bindings()@ == old(self).bindings()@.remove(q)
                &&& !old(self).bindings().claimed(node_id) ==> final(self).bindings()@ == old(self).bindings()@
            },
            !old(self).store().live(node_id) ==> {
                &&& r == Err::<SceneNode, SceneError>(SceneError::UnknownNode)
                &&& final(self).store() == old(self).store()
                &&& final(self).index() == old(self).index()
                &&& final(self).bindings() == old(self).bindings()
            },
    {
        if !self.store.contains(node_id) {
            return Err(SceneError::UnknownNode);
        }
        let ghost st0 = self.store;
        let ghost b0 = self.bindings@;
        match self.bindings.indiv_of(node_id) {
            Some(e) => {
                let _ = self.bindings.unbind(e);
                let ghost b1 = self.bindings@;
                let ghost q = choose|q: int|
                    0 <= q < b0.len() && b0[q] == (crate::bindings::Binding { indiv: e, node: node_id })
                        && b1 == b0.remove(q);
                assert forall|x: IndivId, n: NodeId| n != node_id implies (self.bindings.maps(x, n)
                    <==> old(self).bindings().maps(x, n)) by {
                    let bx = crate::bindings::Binding { indiv: x, node: n };
                    if self.bindings.maps(x, n) {
                        let k = choose|k: int| 0 <= k < b1.len() && b1[k] == bx;
                        if k < q { assert(b1[k] == b0[k]); } else { assert(b1[k] == b0[k + 1]); }
                    }
                    if old(self).bindings().maps(x, n) {
                        let k = choose|k: int| 0 <= k < b0.len() && b0[k] == bx;
                        if k < q { assert(b1[k] == b0[k]); } else if k > q { assert(b1[k - 1] == b0[k]); }
                    }
                }
                assert(!self.bindings.claimed(node_id)) by {
                    if self.bindings.claimed(node_id) {
                        let k = choose|k: int| 0 <= k < b1.len() && b1[k].node == node_id;
                        if k < q { assert(b1[k] == b0[k]); } else { assert(b1[k] == b0[k + 1]); }
                    }
                }
                assert forall|k: int| 0 <= k < b1.len() implies b1[k].node != node_id && st0.live(
                    #[trigger] b1[k].node,
                ) by {
                    if k < q { assert(b1[k] == b0[k]); } else { assert(b1[k] == b0[k + 1]); }
                }
            },
            None => {},
        }
        let r = self.store.remove(node_id);
        let ghost ixs0 = self.index;
        let found = self.index.remove(node_id);
        assert forall|x: NodeId| x != node_id implies self.store.live(x) == st0.live(x) by {}
        assert forall|x: NodeId| x != node_id && st0.live(x) implies self.store.node(x) == st0.node(x) by {}
        assert forall|w: i64| #[trigger] self.index.has_at(node_id, w) implies false by {
            let i = choose|i: int| 0 <= i < self.index@.len() && self.index@[i] == (crate::transparency::TransparentEntry { z: w, node: node_id });
            assert(self.index@[i].node == node_id);
        }
        proof {
            lemma_index_matches_after(st0, ixs0, self.store, self.index, node_id);
        }
        assert forall|k: int| 0 <= k < self.bindings@.len() implies self.store.live(
            #[trigger] self.bindings@[k].node,
        ) by {
            assert(!self.bindings.claimed(node_id));
            assert(self.bindings@[k].node != node_id);
        }
        r
    }

    /// Gives a live node a new color, moving it into or out of the transparency
    /// index when its alpha crosses full opacity.
    pub fn set_node_color(&mut self, node_id: NodeId, color: Color) -> (r: Result<(), SceneError>)
        requires
            old(self).wf(),
        ensures
            final(self).wf(),
            final(self).cam() == old(self).cam(),
            final(self).bindings() == old(self).bindings(),
            old(self).store().live(node_id) ==> {
                &&& r is Ok
                &&& final(self).store().live(node_id)
                &&& final(self).store().node(node_id) == (SceneNode { color, ..old(self).store().node(node_id) })
                &&& final(self).store().others_kept(&old(self).store(), node_id)
                &&& (final(self).index().has(node_id) <==> color.spec_is_transparent())
                &&& forall|x: NodeId| x != node_id ==> (final(self).index().has(x) <==> old(self).index().has(x))
            },
            !old(self).store().live(node_id) ==> {
                &&& r == Err::<(), SceneError>(SceneError::UnknownNode)
                &&& final(self).store() == old(self).store()
                &&& final(self).index() == old(self).index()
            },
    {
        let (was_transparent, z) = match self.store.get(node_id) {
            Ok(n) => (n.color.is_transparent(), n.pos.z),
            Err(e) => {
                return Err(e);
            },
        };
        let ghost st0 = self.store;
        let ghost ix0 = self.index;
        let _ = self.store.set_color(node_id, color);
        assert forall|x: NodeId| x != node_id implies self.store.live(x) == st0.live(x) by {
            assert(self.store@[x.id as int] == st0@[x.id as int] || x.id >= st0@.len());
        }
        assert forall|x: NodeId| x != node_id && st0.live(x) implies self.store.node(x) == st0.node(x) by {
            assert(self.store@[x.id as int] == st0@[x.id as int]);
        }
        let now_transparent = color.is_transparent();
        if was_transparent && !now_transparent {
            self.index.remove(node_id);
            assert forall|w: i64| #[trigger] self.index.has_at(node_id, w) implies false by {
                let i = choose|i: int| 0 <= i < self.index@.len() && self.index@[i] == (crate::transparency::TransparentEntry { z: w, node: node_id });
                assert(self.index@[i].node == node_id);
            }
        } else if !was_transparent && now_transparent {
            assert(!self.index.has(node_id)) by {
                if self.index.has(node_id) {
                    let i = choose|i: int| 0 <= i < ix0@.len() && ix0@[i].node == node_id;
                    assert(ix0.has_at(node_id, ix0@[i].z));
                }
            }
            self.index.insert(z, node_id);
        } else if was_transparent {
            assert forall|w: i64| #[trigger] self.index.has_at(node_id, w) implies w == z by {
                assert(ix0.has_at(node_id, w));
            }
        } else {
            assert forall|w: i64| #[trigger] self.index.has_at(node_id, w) implies false by {
                assert(ix0.has_at(node_id, w));
            }
        }
        proof {
            lemma_index_matches_after(st0, ix0, self.store, self.index, node_id);
            if self.index.has(node_id) {
                let i = choose|i: int| 0 <= i < self.index@.len() && self.index@[i].node == node_id;
                assert(self.index.has_at(node_id, self.index@[i].z));
            }
            lemma_has_follows_has_at(ix0, self.index, node_id);
        }
        assert forall|k: int| 0 <= k < self.bindings@.len() implies self.store.live(
            #[trigger] self.bindings@[k].node,
        ) by {
            assert(st0.live(self.bindings@[k].node));
        }
        Ok(())
    }

    /// Moves and turns a live node. A transparent node whose depth changes is
    /// relocated in the index; otherwise the index is left untouched.
    pub fn set_node_transform(&mut self, node_id: NodeId, pos: WorldPos, rot: i64) -> (r: Result<(), SceneError>)
        requires
            old(self).wf(),
        ensures
            final(self).wf(),
            final(self).cam() == old(self).cam(),
            final(self).bindings() == old(self).bindings(),
            old(self).store().live(node_id) ==> {
                &&& r is Ok
                &&& final(self).store().live(node_id)
                &&& final(self).store().node(node_id) == (SceneNode { pos, rot, ..old(self).store().node(node_id) })
                &&& final(self).store().others_kept(&old(self).store(), node_id)
                &&& old(self).store().node(node_id).pos.z == pos.z ==> final(self).index() == old(self).index()
                &&& forall|x: NodeId| (final(self).index().has(x) <==> old(self).index().has(x))
            },
            !old(self).store().live(node_id) ==> {
                &&& r == Err::<(), SceneError>(SceneError::UnknownNode)
                &&& final(self).store() == old(self).store()
                &&& final(self).index() == old(self).index()
            },
    {
        let (transparent, old_z) = match self.store.get(node_id) {
            Ok(n) => (n.color.is_transparent(), n.pos.z),
            Err(e) => {
                return Err(e);
            },
        };
        let ghost st0 = self.store;
        let ghost ix0 = self.index;
        let _ = self.store.set_transform(node_id, pos, rot);
        assert forall|x: NodeId| x != node_id implies self.store.live(x) == st0.live(x) by {
            assert(self.store@[x.id as int] == st0@[x.id as int] || x.id >= st0@.len());
        }
        assert forall|x: NodeId| x != node_id && st0.live(x) implies self.store.node(x) == st0.node(x) by {
            assert(self.store@[x.id as int] == st0@[x.id as int]);
        }
        if transparent && old_z != pos.z {
            assert(self.index.has_at(node_id, old_z)) by {
                assert(ix0.has(node_id));
                let j = choose|j: int| 0 <= j < ix0@.len() && ix0@[j].node == node_id;
                assert(ix0.has_at(node_id, ix0@[j].z));
            }
            self.index.relocate(node_id, old_z, pos.z);
            assert forall|w: i64| #[trigger] self.index.has_at(node_id, w) implies w == pos.z by {
                let i = choose|i: int| 0 <= i < self.index@.len() && self.index@[i] == (crate::transparency::TransparentEntry { z: w, node: node_id });
                let j = choose|j: int| 0 <= j < self.index@.len() && self.index@[j] == (crate::transparency::TransparentEntry { z: pos.z, node: node_id });
                assert(self.index@[i].node == self.index@[j].node);
            }
        } else {
            assert forall|w: i64| #[trigger] self.index.has_at(node_id, w) implies w == pos.z && transparent by {
                assert(ix0.has_at(node_id, w));
            }
        }
        proof {
            lemma_index_matches_after(st0, ix0, self.store, self.index, node_id);
            lemma_has_follows_has_at(ix0, self.index, node_id);
            if transparent {
                assert(ix0.has(node_id));
                assert(self.index.has(node_id));
            } else {
                if ix0.has(node_id) {
                    let j = choose|j: int| 0 <= j < ix0@.len() && ix0@[j].node == node_id;
                    assert(ix0.has_at(node_id, ix0@[j].z));
                }
                if self.index.has(node_id) {
                    let j = choose|j: int| 0 <= j < self.index@.len() && self.index@[j].node == node_id;
                    assert(self.index.has_at(node_id, self.index@[j].z));
                }
            }
        }
        assert forall|k: int| 0 <= k < self.bindings@.len() implies self.store.live(
            #[trigger] self.bindings@[k].node,
        ) by {
            assert(st0.live(self.bindings@[k].node));
        }
        Ok(())
    }

    /// Creates a node for entity `indiv_id` and binds the two. Fails with
    /// `DuplicateBinding`, changing nothing, when the entity already has a node.
    pub fn add_indiv(&mut self, indiv_id: IndivId, node: SceneNode) -> (r: Result<NodeId, SceneError>)
        requires
            old(self).wf(),
            old(self).store().can_add(),
        ensures
            final(self).wf(),
            final(self).cam() == old(self).cam(),
            old(self).bindings().bound(indiv_id) ==> {
                &&& r == Err::<NodeId, SceneError>(SceneError::DuplicateBinding)
                &&& final(self).store() == old(self).store()
                &&& final(self).index() == old(self).index()
                &&& final(self).bindings() == old(self).bindings()
            },
            !old(self).bindings().bound(indiv_id) ==> {
                &&& r is Ok
                &&& r->Ok_0.id == old(self).next_node_id()
                &&& final(self).store()@ == old(self).store()@.push(Some(node))
                &&& final(self).bindings()@ == old(self).bindings()@.push(
                    crate::bindings::Binding { indiv: indiv_id, node: r->Ok_0 },
                )
                &&& (node.color.spec_is_transparent() ==> final(self).index().has_at(r->Ok_0, node.pos.z))
                &&& (!node.color.spec_is_transparent() ==> final(self).index()@ == old(self).index()@)
                &&& forall|x: NodeId| x != r->Ok_0 ==> (final(self).index().has(x) <==> old(self).index().has(x))
            },
    {
        if self.bindings.node_of(indiv_id).is_some() {
            return Err(SceneError::DuplicateBinding);
        }
        let node_id = self.add_node(node);
        assert(!self.bindings.claimed(node_id)) by {
            if self.bindings.claimed(node_id) {
                let k = choose|k: int| 0 <= k < self.bindings@.len() && self.bindings@[k].node == node_id;
                assert(old(self).store().live(self.bindings@[k].node));
            }
        }
        let _ = self.bindings.bind(indiv_id, node_id);
        assert forall|k: int| 0 <= k < self.bindings@.len() implies self.store.live(
            #[trigger] self.bindings@[k].node,
        ) by {
            if k < old(self).bindings()@.len() {
                assert(old(self).store().live(self.bindings@[k].node));
            }
        }
        Ok(node_id)
    }

    /// Drops entity `indiv_id`: its binding and its node (with the node's index
    /// entry) go together. Fails with `UnknownNode` when the entity has no node.
    pub fn remove_indiv(&mut self, indiv_id: IndivId) -> (r: Result<(), SceneError>)
        requires
            old(self).wf(),
        ensures
            final(self).wf(),
            final(self).cam() == old(self).cam(),
            !final(self).bindings().bound(indiv_id),
            old(self).bindings().bound(indiv_id) ==> r is Ok && exists|n: NodeId| {
                &&& old(self).bindings().maps(indiv_id, n)
                &&& final(self).store()@ == old(self).store()@.update(n.id as int, None)
                &&& !final(self).index().has(n)
                &&& forall|x: NodeId| x != n ==> (final(self).index().has(x) <==> old(self).index().has(x))
                &&& !final(self).bindings().claimed(n)
                &&& exists|q: int|
                    0 <= q < old(self).bindings()@.len() && old(self).bindings()@[q] == (crate::bindings::Binding {
                        indiv: indiv_id,
                        node: n,
                    }) && final(self).bindings()@ == old(self).bindings()@.remove(q)
            },
            !old(self).bindings().bound(indiv_id) ==> {
                &&& r == Err::<(), SceneError>(SceneError::UnknownNode)
                &&& final(self).store() == old(self).store()
                &&& final(self).index() == old(self).index()
                &&& final(self).bindings() == old(self).bindings()
            },
    {
        match self.bindings.node_of(indiv_id) {
            None => Err(SceneError::UnknownNode),
            Some(n) => {
                let ghost b0 = self.bindings@;
                assert(self.store.live(n)) by {
                    let k = choose|k: int| 0 <= k < b0.len() && b0[k] == (crate::bindings::Binding { indiv: indiv_id, node: n });
                    assert(self.store.live(b0[k].node));
                }
                let _ = self.remove_node(n);
                let ghost c = choose|c: int| 0 <= c < b0.len() && b0[c] == (crate::bindings::Binding { indiv: indiv_id, node: n });
                assert(old(self).bindings().claimed(n));
                let ghost q = choose|q: int|
                    0 <= q < b0.len() && b0[q].node == n && self.bindings@ == b0.remove(q);
                assert(q == c);
                assert(!self.bindings.bound(indiv_id)) by {
                    if self.bindings.bound(indiv_id) {
                        let k = choose|k: int| 0 <= k < self.bindings@.len() && self.bindings@[k].indiv == indiv_id;
                        let m = self.bindings@[k].node;
                        if m != n {
                            assert(self.bindings.maps(indiv_id, m));
                            assert(old(self).bindings().maps(indiv_id, m));
                            let a = choose|a: int| 0 <= a < b0.len() && b0[a] == (crate::bindings::Binding { indiv: indiv_id, node: m });
                            let c = choose|c: int| 0 <= c < b0.len() && b0[c] == (crate::bindings::Binding { indiv: indiv_id, node: n });
                        } else {
                            assert(self.bindings.claimed(n));
                        }
                    }
                }
                Ok(())
            },
        }
    }

    /// The node of entity `indiv_id`, if it has one.
    pub fn indiv_id_to_node_id_opt(&self, indiv_id: IndivId) -> (r: Option<NodeId>)
        requires
            self.wf(),
        ensures
            match r {
                Some(n) => self.bindings().maps(indiv_id, n),
                None => !self.bindings().bound(indiv_id),
            },
    {
        self.bindings.node_of(indiv_id)
    }

    /// The node of entity `indiv_id`; `UnknownNode` when it has none.
    pub fn indiv_id_to_node_id(&self, indiv_id: IndivId) -> (r: Result<NodeId, SceneError>)
        requires
            self.wf(),
        ensures
            match r {
                Ok(n) => self.bindings().maps(indiv_id, n) && self.store().live(n),
                Err(e) => e == SceneError::UnknownNode && !self.bindings().bound(indiv_id),
            },
    {
        match self.bindings.node_of(indiv_id) {
            Some(n) => {
                proof {
                    let k = choose|k: int| 0 <= k < self.bindings@.len() && self.bindings@[k] == (crate::bindings::Binding { indiv: indiv_id, node: n });
                    assert(self.store.live(self.bindings@[k].node));
                }
                Ok(n)
            },
            None => Err(SceneError::UnknownNode),
        }
    }

    /// The node stored under `node_id`.
    pub fn node(&self, node_id: NodeId) -> (r: Result<&SceneNode, SceneError>)
        ensures
            self.store().live(node_id) ==> r == Ok::<&SceneNode, SceneError>(&self.store().node(node_id)),
            !self.store().live(node_id) ==> r == Err::<&SceneNode, SceneError>(SceneError::UnknownNode),
    {
        self.store.get(node_id)
    }

    /// The node store.
    pub fn nodes(&self) -> (r: &NodeStore)
        ensures
            *r == self.store(),
    {
        &self.store
    }

    /// The depth index of the transparent nodes.
    pub fn transparent_node_ids(&self) -> (r: &TransparencyIndex)
        ensures
            *r == self.index(),
    {
        &self.index
    }

    /// The entity bindings.
    pub fn entity_bindings(&self) -> (r: &EntityBindings)
        ensures
            *r == self.bindings(),
    {
        &self.bindings
    }

    /// The camera.
    pub fn camera(&self) -> (c: Camera)
        ensures
            c == self.cam(),
    {
        self.camera
    }

    /// Unit `u` has a live node that stands where `u` stands and faces as `u` faces.
    pub open spec fn shows(&self, u: Indiv) -> bool {
        exists|n: NodeId|
            {
                &&& #[trigger] self.bindings().maps(u.id, n)
                &&& self.store().live(n)
                &&& self.store().node(n).pos == u.pos.spec_to_world_pos()
                &&& self.store().node(n).rot == u.rot
            }
    }

    /// Unit `u` has a node made from its template, under an id not below `fresh_from`:
    /// where `u` stands, facing as `u` faces, with the mesh of its type, opaque
    /// white, without children.
    pub open spec fn shows_new(&self, u: Indiv, fresh_from: nat) -> bool {
        exists|n: NodeId|
            {
                &&& #[trigger] self.bindings().maps(u.id, n)
                &&& n.id >= fresh_from
                &&& self.store().live(n)
                &&& self.store().node(n).pos == u.pos.spec_to_world_pos()
                &&& self.store().node(n).rot == u.rot
                &&& self.store().node(n).mesh_id == Some(MeshId { id: u.type_id.id })
                &&& self.store().node(n).color == (Color { r: 255, g: 255, b: 255, a: 255 })
                &&& self.store().node(n).children@.len() == 0
            }
    }

    /// Every unit of `units` is shown.
    pub open spec fn shows_all(&self, units: Seq<Indiv>) -> bool {
        forall|k: int| 0 <= k < units.len() ==> self.shows(#[trigger] units[k])
    }

    /// Node `n` is bound, in this scene, to one of `units`.
    pub open spec fn bound_to_any(&self, units: Seq<Indiv>, n: NodeId) -> bool {
        exists|k: int| 0 <= k < units.len() && #[trigger] self.bindings().maps(units[k].id, n)
    }

    /// What `sync` promises of `after`, made from `before` and the units `units`:
    /// the node of a unit that was bound gets the unit's position and facing and
    /// keeps everything else; a unit that was not bound gets a fresh node from its
    /// template; every other node is left as it was.
    pub open spec fn synced(before: Scene, units: Seq<Indiv>, after: Scene) -> bool {
        &&& after.wf()
        &&& after.cam() == before.cam()
        &&& after.shows_all(units)
        &&& forall|k: int, n: NodeId|
            0 <= k < units.len() && #[trigger] before.bindings().maps(units[k].id, n) ==> {
                &&& after.store().live(n)
                &&& after.store().node(n) == (SceneNode {
                    pos: units[k].pos.spec_to_world_pos(),
                    rot: units[k].rot,
                    ..before.store().node(n)
                })
            }
        &&& forall|n: NodeId|
            #[trigger] before.store().live(n) && !before.bound_to_any(units, n) ==> after.store().live(n)
                && after.store().node(n) == before.store().node(n)
        &&& forall|k: int|
            0 <= k < units.len() && !before.bindings().bound(#[trigger] units[k].id) ==> after.shows_new(
                units[k],
                before.next_node_id(),
            )
        &&& forall|e: IndivId, n: NodeId| before.bindings().maps(e, n) ==> #[trigger] after.bindings().maps(e, n)
        &&& after.store()@.len() <= before.store()@.len() + units.len()
        &&& before.shows_all(units) ==> {
            &&& after.store()@ == before.store()@
            &&& after.index()@ == before.index()@
            &&& after.bindings()@ == before.bindings()@
        }
    }

    /// Brings the nodes up to date with `battlefield`: a unit that has a node gets
    /// its position and facing written into it (nothing else changes, and nothing
    /// at all when they already agree); a unit without one gets a new node from
    /// its template, bound to it. Nodes of units that are not on the battlefield
    /// are kept.
    pub fn sync(&mut self, battlefield: &Battlefield)
        requires
            old(self).wf(),
            battlefield.wf(),
            old(self).store()@.len() + battlefield.units().len() <= u64::MAX,
        ensures
            Scene::synced(*old(self), battlefield.units(), *final(self)),
    {
        let units = battlefield.get_indiv_iter();
        let ghost us = units@;
        let mut i: usize = 0;
        while i < units.len()
            invariant
                self.wf(),
                old(self).wf(),
                us == units@,
                us == battlefield.units(),
                crate::battlefield::unique_indivs(us),
                i <= us.len(),
                self.cam() == old(self).cam(),
                self.store()@.len() <= old(self).store()@.len() + i,
                old(self).store()@.len() + us.len() <= u64::MAX,
                forall|k: int| 0 <= k < i ==> self.shows(#[trigger] us[k]),
                forall|k: int|
                    0 <= k < i && !old(self).bindings().bound(#[trigger] us[k].id) ==> self.shows_new(
                        us[k],
                        old(self).next_node_id(),
                    ),
                self.store()@.len() >= old(self).store()@.len(),
                forall|k: int, n: NodeId|
                    0 <= k < i && #[trigger] old(self).bindings().maps(us[k].id, n) ==> {
                        &&& self.store().live(n)
                        &&& self.store().node(n) == (SceneNode {
                            pos: us[k].pos.spec_to_world_pos(),
                            rot: us[k].rot,
                            ..old(self).store().node(n)
                        })
                    },
                forall|n: NodeId|
                    #[trigger] old(self).store().live(n) && !old(self).bound_to_any(us.subrange(0, i as int), n)
                        ==> self.store().live(n) && self.store().node(n) == old(self).store().node(n),
                forall|e: IndivId, n: NodeId|
                    old(self).bindings().maps(e, n) ==> #[trigger] self.bindings().maps(e, n),
                forall|e: IndivId|
                    #[trigger] self.bindings().bound(e) ==> old(self).bindings().bound(e) || exists|k: int|
                        0 <= k < i && us[k].id == e,
                old(self).shows_all(us) ==> {
                    &&& self.store()@ == old(self).store()@
                    &&& self.index()@ == old(self).index()@
                    &&& self.bindings()@ == old(self).bindings()@
                },
            decreases us.len() - i,
        {
            let u = units[i];
            let pos = u.pos.to_world_pos();
            let ghost before = *self;
            match self.bindings.node_of(u.id) {
                Some(n) => {
                    assert(self.store.live(n)) by {
                        let k = choose|k: int| 0 <= k < self.bindings@.len() && self.bindings@[k] == (crate::bindings::Binding { indiv: u.id, node: n });
                        assert(self.store.live(self.bindings@[k].node));
                    }
                    assert(old(self).bindings().maps(u.id, n)) by {
                        assert(before.bindings().bound(u.id)) by {
                            let k = choose|k: int| 0 <= k < before.bindings()@.len() && before.bindings()@[k] == (crate::bindings::Binding { indiv: u.id, node: n });
                        }
                        if !old(self).bindings().bound(u.id) {
                            let j = choose|j: int| 0 <= j < i && us[j].id == u.id;
                            assert(j == i);
                        }
                        let k = choose|k: int| 0 <= k < old(self).bindings()@.len() && old(self).bindings()@[k].indiv == u.id;
                        let m = old(self).bindings()@[k].node;
                        assert(old(self).bindings().maps(u.id, m));
                        assert(self.bindings().maps(u.id, m));
                        crate::bindings::lemma_entity_has_one_node(self.bindings, u.id, n, m);
                    }
                    assert(!old(self).bound_to_any(us.subrange(0, i as int), n)) by {
                        if old(self).bound_to_any(us.subrange(0, i as int), n) {
                            let k = choose|k: int| 0 <= k < i && #[trigger] old(self).bindings().maps(us.subrange(0, i as int)[k].id, n);
                            assert(us.subrange(0, i as int)[k] == us[k]);
                            crate::bindings::lemma_node_has_one_entity(old(self).bindings(), us[k].id, u.id, n);
                        }
                    }
                    assert(old(self).store().live(n)) by {
                        let k = choose|k: int| 0 <= k < old(self).bindings()@.len() && old(self).bindings()@[k] == (crate::bindings::Binding { indiv: u.id, node: n });
                        assert(old(self).store().live(old(self).bindings()@[k].node));
                    }
                    assert(self.store().node(n) == old(self).store().node(n));
                    let same = match self.store.get(n) {
                        Ok(node) => node.pos == pos && node.rot == u.rot,
                        Err(_) => false,
                    };
                    if !same {
                        proof {
                            if old(self).shows_all(us) {
                                let m = choose|m: NodeId| {
                                    &&& #[trigger] old(self).bindings().maps(u.id, m)
                                    &&& old(self).store().live(m)
                                    &&& old(self).store().node(m).pos == u.pos.spec_to_world_pos()
                                    &&& old(self).store().node(m).rot == u.rot
                                };
                                assert(old(self).shows(us[i as int]));
                                assert(self.bindings.maps(u.id, m));
                                crate::bindings::lemma_entity_has_one_node(self.bindings, u.id, n, m);
                            }
                        }
                        let _ = self.set_node_transform(n, pos, u.rot);
                        assert forall|k: int| 0 <= k < i implies self.shows(#[trigger] us[k]) by {
                            assert(before.shows(us[k]));
                            let m = choose|m: NodeId| {
                                &&& #[trigger] before.bindings().maps(us[k].id, m)
                                &&& before.store().live(m)
                                &&& before.store().node(m).pos == us[k].pos.spec_to_world_pos()
                                &&& before.store().node(m).rot == us[k].rot
                            };
                            if m == n {
                                crate::bindings::lemma_node_has_one_entity(before.bindings(), us[k].id, u.id, n);
                            }
                            assert(self.bindings().maps(us[k].id, m));
                        }
                        assert forall|k: int|
                            0 <= k < i && !old(self).bindings().bound(#[trigger] us[k].id) implies self.shows_new(us[k], old(self).next_node_id()) by {
                            assert(before.shows_new(us[k], old(self).next_node_id()));
                            let m = choose|m: NodeId| {
                                &&& #[trigger] before.bindings().maps(us[k].id, m)
                                &&& before.store().live(m)
                                &&& before.store().node(m).pos == us[k].pos.spec_to_world_pos()
                                &&& before.store().node(m).rot == us[k].rot
                                &&& m.id >= old(self).next_node_id()
                                &&& m.id >= old(self).next_node_id()
                            &&& before.store().node(m).mesh_id == Some(MeshId { id: us[k].type_id.id })
                                &&& before.store().node(m).color == (Color { r: 255, g: 255, b: 255, a: 255 })
                                &&& before.store().node(m).children@.len() == 0
                            };
                            if m == n {
                                crate::bindings::lemma_node_has_one_entity(before.bindings(), us[k].id, u.id, n);
                            }
                            assert(self.bindings().maps(us[k].id, m));
                        }
                    }
                    assert(self.bindings().maps(u.id, n));
                    assert(self.shows(us[i as int]));
                    assert(self.store().live(n) && self.store().node(n) == (SceneNode {
                        pos: us[i as int].pos.spec_to_world_pos(),
                        rot: us[i as int].rot,
                        ..old(self).store().node(n)
                    }));
                    assert(forall|m: NodeId| m != n && before.store().live(m) ==> self.store().live(m)
                        && self.store().node(m) == before.store().node(m)) by {
                        assert forall|m: NodeId| m != n && before.store().live(m) implies self.store().live(m)
                            && self.store().node(m) == before.store().node(m) by {
                            assert(self.store()@[m.id as int] == before.store()@[m.id as int]);
                        }
                    }
                    assert forall|k: int, m: NodeId|
                        0 <= k < i + 1 && #[trigger] old(self).bindings().maps(us[k].id, m) implies {
                        &&& self.store().live(m)
                        &&& self.store().node(m) == (SceneNode {
                            pos: us[k].pos.spec_to_world_pos(),
                            rot: us[k].rot,
                            ..old(self).store().node(m)
                        })
                    } by {
                        if k == i {
                            crate::bindings::lemma_entity_has_one_node(old(self).bindings(), u.id, m, n);
                        } else if m == n {
                            crate::bindings::lemma_node_has_one_entity(old(self).bindings(), us[k].id, u.id, n);
                        }
                    }
                    assert forall|m: NodeId|
                        #[trigger] old(self).store().live(m) && !old(self).bound_to_any(us.subrange(0, i + 1), m)
                            implies self.store().live(m) && self.store().node(m) == old(self).store().node(m) by {
                        if old(self).bound_to_any(us.subrange(0, i as int), m) {
                            let k = choose|k: int| 0 <= k < i && #[trigger] old(self).bindings().maps(us.subrange(0, i as int)[k].id, m);
                            assert(us.subrange(0, i as int)[k] == us.subrange(0, i + 1)[k]);
                        }
                        if m == n {
                            assert(us.subrange(0, i + 1)[i as int] == us[i as int]);
                        }
                    }
                },
                None => {
                    let node = SceneNode::new(pos, u.rot, Some(MeshId { id: u.type_id.id }), Color::white());
                    proof {
                        if old(self).shows_all(us) {
                            assert(old(self).shows(us[i as int]));
                            let m = choose|m: NodeId| #[trigger] old(self).bindings().maps(u.id, m) && old(self).store().live(m);
                            assert(self.bindings().maps(u.id, m));
                        }
                    }
                    let r = self.add_indiv(u.id, node);
                    let n = r.unwrap();
                    assert(self.bindings@[self.bindings@.len() - 1] == crate::bindings::Binding { indiv: u.id, node: n });
                    assert(self.bindings().maps(u.id, n));
                    assert(self.shows_new(us[i as int], old(self).next_node_id()));
                    assert forall|k: int| 0 <= k < i implies self.shows(#[trigger] us[k]) by {
                        assert(before.shows(us[k]));
                        let m = choose|m: NodeId| {
                            &&& #[trigger] before.bindings().maps(us[k].id, m)
                            &&& before.store().live(m)
                            &&& before.store().node(m).pos == us[k].pos.spec_to_world_pos()
                            &&& before.store().node(m).rot == us[k].rot
                        };
                        let a = choose|a: int| 0 <= a < before.bindings()@.len() && before.bindings()@[a] == (crate::bindings::Binding { indiv: us[k].id, node: m });
                        assert(self.bindings@[a] == before.bindings()@[a]);
                        assert(self.bindings().maps(us[k].id, m));
                    }
                    assert forall|k: int|
                        0 <= k < i && !old(self).bindings().bound(#[trigger] us[k].id) implies self.shows_new(us[k], old(self).next_node_id()) by {
                        assert(before.shows_new(us[k], old(self).next_node_id()));
                        let m = choose|m: NodeId| {
                            &&& #[trigger] before.bindings().maps(us[k].id, m)
                            &&& before.store().live(m)
                            &&& before.store().node(m).pos == us[k].pos.spec_to_world_pos()
                            &&& before.store().node(m).rot == us[k].rot
                            &&& m.id >= old(self).next_node_id()
                            &&& before.store().node(m).mesh_id == Some(MeshId { id: us[k].type_id.id })
                            &&& before.store().node(m).color == (Color { r: 255, g: 255, b: 255, a: 255 })
                            &&& before.store().node(m).children@.len() == 0
                        };
                        let a = choose|a: int| 0 <= a < before.bindings()@.len() && before.bindings()@[a] == (crate::bindings::Binding { indiv: us[k].id, node: m });
                        assert(self.bindings@[a] == before.bindings()@[a]);
                        assert(self.bindings().maps(us[k].id, m));
                    }
                    assert forall|e: IndivId|
                        #[trigger] self.bindings().bound(e) implies old(self).bindings().bound(e) || exists|k: int|
                            0 <= k < i + 1 && us[k].id == e by {
                        let a = choose|a: int| 0 <= a < self.bindings@.len() && self.bindings@[a].indiv == e;
                        if a < before.bindings()@.len() {
                            assert(self.bindings@[a] == before.bindings()@[a]);
                            assert(before.bindings().bound(e));
                        } else {
                            assert(us[i as int].id == e);
                        }
                    }
                    assert(!old(self).bindings().bound(u.id)) by {
                        if old(self).bindings().bound(u.id) {
                            let a = choose|a: int| 0 <= a < old(self).bindings()@.len() && old(self).bindings()@[a].indiv == u.id;
                            assert(old(self).bindings().maps(u.id, old(self).bindings()@[a].node));
                            assert(before.bindings().maps(u.id, old(self).bindings()@[a].node));
                        }
                    }
                    assert forall|m: NodeId| #[trigger] old(self).store().live(m) implies self.store()@[m.id as int]
                        == before.store()@[m.id as int] by {}
                    assert forall|k: int, m: NodeId|
                        0 <= k < i + 1 && #[trigger] old(self).bindings().maps(us[k].id, m) implies {
                        &&& self.store().live(m)
                        &&& self.store().node(m) == (SceneNode {
                            pos: us[k].pos.spec_to_world_pos(),
                            rot: us[k].rot,
                            ..old(self).store().node(m)
                        })
                    } by {
                        if k == i {
                            assert(old(self).bindings().bound(u.id));
                        }
                        assert(before.store().live(m));
                        let a = choose|a: int| 0 <= a < old(self).bindings()@.len() && old(self).bindings()@[a] == (crate::bindings::Binding { indiv: us[k].id, node: m });
                        assert(old(self).store().live(old(self).bindings()@[a].node));
                    }
                    assert forall|m: NodeId|
                        #[trigger] old(self).store().live(m) && !old(self).bound_to_any(us.subrange(0, i + 1), m)
                            implies self.store().live(m) && self.store().node(m) == old(self).store().node(m) by {
                        if old(self).bound_to_any(us.subrange(0, i as int), m) {
                            let k = choose|k: int| 0 <= k < i && #[trigger] old(self).bindings().maps(us.subrange(0, i as int)[k].id, m);
                            assert(us.subrange(0, i as int)[k] == us.subrange(0, i + 1)[k]);
                        }
                    }
                    assert forall|e: IndivId, m: NodeId|
                        old(self).bindings().maps(e, m) implies #[trigger] self.bindings().maps(e, m) by {
                        assert(before.bindings().maps(e, m));
                        let a = choose|a: int| 0 <= a < before.bindings()@.len() && before.bindings()@[a] == (crate::bindings::Binding { indiv: e, node: m });
                        assert(self.bindings@[a] == before.bindings()@[a]);
                    }
                },
            }
            i = i + 1;
        }
    }

    /// The draw calls of one frame: first every opaque node tree, in id order, then
    /// every transparent node tree, back to front in index order. Within a tree,
    /// a node is drawn before its children and carries its ancestors' transforms.
    pub fn draw_list(&self) -> (r: Vec<DrawItem>)
        requires
            self.wf(),
        ensures
            items_view(r@) == opaque_items(self.store()@, self.store()@.len() as int)
                + transparent_items(self.store(), self.index(), self.index()@.len() as int),
    {
        let mut out: Vec<DrawItem> = Vec::new();
        let mut path: Vec<Transform> = Vec::new();
        let n = self.store.slot_count();
        let mut i: usize = 0;
        while i < n
            invariant
                n == self.store@.len(),
                i <= n,
                path@ == Seq::<Transform>::empty(),
                items_view(out@) == opaque_items(self.store@, i as int),
            decreases n - i,
        {
            match self.store.slot(i) {
                Some(node) => {
                    if !node.color.is_transparent() {
                        collect_draw_items(node, &mut path, &mut out);
                    }
                },
                None => {},
            }
            i = i + 1;
        }
        let ghost opaque = items_view(out@);
        let m = self.index.len();
        let mut j: usize = 0;
        while j < m
            invariant
                self.wf(),
                m == self.index@.len(),
                j <= m,
                path@ == Seq::<Transform>::empty(),
                items_view(out@) == opaque + transparent_items(self.store, self.index, j as int),
            decreases m - j,
        {
            let e = self.index.entry(j);
            assert(self.index.has_at(e.node, e.z));
            assert(self.store.live(e.node));
            match self.store.get(e.node) {
                Ok(node) => {
                    collect_draw_items(node, &mut path, &mut out);
                },
                Err(_) => {},
            }
            j = j + 1;
        }
        out
    }

    /// One frame: brings the nodes up to date with `battlefield` (see `sync`) and
    /// returns the frame's draw calls (see `draw_list`).
    pub fn draw(&mut self, battlefield: &Battlefield) -> (r: Vec<DrawItem>)
        requires
            old(self).wf(),
            battlefield.wf(),
            old(self).store()@.len() + battlefield.units().len() <= u64::MAX,
        ensures
            Scene::synced(*old(self), battlefield.units(), *final(self)),
            items_view(r@) == opaque_items(final(self).store()@, final(self).store()@.len() as int)
                + transparent_items(final(self).store(), final(self).index(), final(self).index()@.len() as int),
    {
        self.sync(battlefield);
        self.draw_list()
    }

    /// Handles `event`, seen with `input`: moves, turns or zooms the camera and
    /// asks to shut down on `Q` or `Escape`. The scene claims every event and
    /// changes nothing but its camera.
    pub fn handle_event(&mut self, input: &InputState, event: &InputEvent, commands: &mut Vec<ScreenCommand>) -> (r: EventStatus)
        requires
            old(self).wf(),
        ensures
            final(self).wf(),
            r == EventStatus::Handled,
            final(self).cam() == camera_after_event(old(self).cam(), *input, *event),
            final(self).store() == old(self).store(),
            final(self).index() == old(self).index(),
            final(self).bindings() == old(self).bindings(),
            final(commands)@ == old(commands)@ + scene_commands(*event),
    {
        match *event {
            InputEvent::Resized(_) => {
                self.camera.resize(input.win_size);
            },
            InputEvent::MouseMoved(pos) => {
                self.handle_event_mouse_move(input, pos);
            },
            InputEvent::MouseInput { state: ElementState::Released, button: MouseButton::Left } => {
                self.handle_event_lmb_release();
            },
            InputEvent::MouseWheel { delta_y } => {
                self.handle_event_mouse_scroll(delta_y);
            },
            InputEvent::KeyboardInput { state: ElementState::Released, key } => {
                self.handle_event_key_press(key, commands);
            },
            InputEvent::Touch { pos, phase } => {
                self.handle_event_mouse_move(input, pos);
                if phase == TouchPhase::Ended {
                    self.handle_event_lmb_release();
                }
            },
            _ => {},
        }
        assert(commands@ =~= old(commands)@ + scene_commands(*event));
        EventStatus::Handled
    }

    fn handle_event_mouse_move(&mut self, input: &InputState, pos: ScreenPos)
        requires
            old(self).wf(),
        ensures
            final(self).wf(),
            *final(self) == (Scene { camera: after_pointer_move(old(self).camera, *input, pos), ..*old(self) }),
    {
        if input.mouse.is_left_button_pressed {
            self.handle_camera_move(input, pos);
        } else if input.mouse.is_right_button_pressed {
            self.handle_camera_rotate(input, pos);
        }
    }

    fn handle_camera_move(&mut self, input: &InputState, pos: ScreenPos)
        requires
            old(self).wf(),
        ensures
            final(self).wf(),
            *final(self) == (Scene {
                camera: old(self).camera.panned(
                    Direction::West,
                    pixels_to(pos.x - input.mouse.pos.x, DRAG_PAN_SPAN as int, input.win_size.w as int),
                ).panned(
                    Direction::South,
                    pixels_to(pos.y - input.mouse.pos.y, DRAG_PAN_SPAN as int, input.win_size.h as int),
                ),
                ..*old(self)
            }),
    {
        let dx = pos.x as i64 - input.mouse.pos.x as i64;
        let dy = pos.y as i64 - input.mouse.pos.y as i64;
        self.camera.pan(Direction::West, pixels_to_exec(dx, DRAG_PAN_SPAN, input.win_size.w));
        self.camera.pan(Direction::South, pixels_to_exec(dy, DRAG_PAN_SPAN, input.win_size.h));
    }

    fn handle_camera_rotate(&mut self, input: &InputState, pos: ScreenPos)
        requires
            old(self).wf(),
        ensures
            final(self).wf(),
            *final(self) == (Scene {
                camera: old(self).camera.turned(
                    pixels_to(pos.x - input.mouse.pos.x, DRAG_TURN_SPAN as int, input.win_size.w as int),
                ).tilted(
                    pixels_to(pos.y - input.mouse.pos.y, DRAG_TILT_SPAN as int, input.win_size.h as int),
                ),
                ..*old(self)
            }),
    {
        let dx = pos.x as i64 - input.mouse.pos.x as i64;
        let dy = pos.y as i64 - input.mouse.pos.y as i64;
        self.camera.add_horizontal_angle(pixels_to_exec(dx, DRAG_TURN_SPAN, input.win_size.w));
        self.camera.add_vertical_angle(pixels_to_exec(dy, DRAG_TILT_SPAN, input.win_size.h));
    }

    fn handle_event_mouse_scroll(&mut self, delta_y: i32)
        requires
            old(self).wf(),
        ensures
            final(self).wf(),
            *final(self) == (Scene {
                camera: if delta_y > SCROLL_DEAD_ZONE {
                    old(self).camera.zoomed(ZOOM_IN as int)
                } else if delta_y < -SCROLL_DEAD_ZONE {
                    old(self).camera.zoomed(ZOOM_OUT as int)
                } else {
                    old(self).camera
                },
                ..*old(self)
            }),
    {
        if delta_y > SCROLL_DEAD_ZONE {
            self.camera.change_zoom(ZOOM_IN);
        } else if delta_y < -SCROLL_DEAD_ZONE {
            self.camera.change_zoom(ZOOM_OUT);
        }
    }

    fn handle_event_key_press(&mut self, key: Key, commands: &mut Vec<ScreenCommand>)
        requires
            old(self).wf(),
        ensures
            final(self).wf(),
            *final(self) == (Scene { camera: after_key(old(self).camera, key), ..*old(self) }),
            (key == Key::Q || key == Key::Escape) ==> final(commands)@ == old(commands)@.push(
                ScreenCommand::ChangeScreen(ScreenType::ShuttingDown),
            ),
            !(key == Key::Q || key == Key::Escape) ==> final(commands)@ == old(commands)@,
    {
        match key {
            Key::Q | Key::Escape => {
                commands.push(ScreenCommand::ChangeScreen(ScreenType::ShuttingDown));
            },
            Key::W | Key::Up => {
                self.camera.pan(Direction::South, KEY_PAN);
            },
            Key::S | Key::Down => {
                self.camera.pan(Direction::North, KEY_PAN);
            },
            Key::D | Key::Right => {
                self.camera.pan(Direction::East, KEY_PAN);
            },
            Key::A | Key::Left => {
                self.camera.pan(Direction::West, KEY_PAN);
            },
            Key::Subtract | Key::Key1 => {
                self.camera.change_zoom(ZOOM_OUT);
            },
            Key::Add | Key::Key2 => {
                self.camera.change_zoom(ZOOM_IN);
            },
            _ => {},
        }
    }

    /// A left click on the world picks nothing yet.
    fn handle_event_lmb_release(&mut self)
        ensures
            *final(self) == *old(self),
    {
    }

    /// Records a new window size; the camera's projection must be rebuilt.
    pub fn resize(&mut self, win_size: Size2)
        requires
            old(self).wf(),
        ensures
            final(self).wf(),
            final(self).cam() == old(self).cam().resized(win_size),
            final(self).store() == old(self).store(),
            final(self).index() == old(self).index(),
            final(self).bindings() == old(self).bindings(),
    {
        self.camera.resize(win_size);
    }

    /// Records that the renderer rebuilt the camera's projection.
    pub fn mark_projection_built(&mut self)
        requires
            old(self).wf(),
        ensures
            final(self).wf(),
            final(self).cam() == (Camera { projection_stale: false, ..old(self).cam() }),
            final(self).store() == old(self).store(),
            final(self).index() == old(self).index(),
            final(self).bindings() == old(self).bindings(),
    {
        self.camera.mark_projection_built();
    }
}

/// Syncing twice with the same battlefield: the second pass creates no node and
/// leaves the node store, the transparency index and the bindings as the first
/// pass left them.
pub proof fn lemma_sync_idempotent(s0: Scene, units: Seq<Indiv>, s1: Scene, s2: Scene)
    requires
        Scene::synced(s0, units, s1),
        Scene::synced(s1, units, s2),
    ensures
        s2.store()@ == s1.store()@,
        s2.index()@ == s1.index()@,
        s2.bindings()@ == s1.bindings()@,
        s2.next_node_id() == s1.next_node_id(),
{
}

/// In a well-formed scene a node is in the transparency index exactly when it is
/// live and its alpha is below full opacity, filed once, under its depth.
pub proof fn lemma_transparency_membership(s: Scene, id: NodeId)
    requires
        s.wf(),
    ensures
        s.index().has(id) <==> (s.store().live(id) && s.store().node(id).color.spec_is_transparent()),
        s.index().has(id) ==> s.index().has_at(id, s.store().node(id).pos.z),
        forall|i: int, j: int|
            0 <= i < s.index()@.len() && 0 <= j < s.index()@.len() && s.index()@[i].node == id
                && s.index()@[j].node == id ==> i == j,
{
    if s.index().has(id) {
        let k = choose|k: int| 0 <= k < s.index()@.len() && s.index()@[k].node == id;
        assert(s.index().has_at(id, s.index()@[k].z));
        assert(s.index()@[k] == crate::transparency::TransparentEntry { z: s.store().node(id).pos.z, node: id });
    }
    if s.store().live(id) && s.store().node(id).color.spec_is_transparent() {
        assert(s.index().has(id));
    }
}

} // verus!
