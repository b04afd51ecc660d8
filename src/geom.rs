use vstd::prelude::*;

use crate::battlefield::Position;
use crate::types::WorldPos;

verus! {

/// The map position under a point of world space (on the ground level).
pub fn world_pos_to_map_pos(pos: WorldPos) -> (p: Position)
    ensures
        p == (Position { x: pos.x, y: pos.y, level: 0 }),
{
    Position::new(pos.x, pos.y)
}

/// The point of world space on the ground at a map position.
pub fn map_pos_to_world_pos(p: Position) -> (w: WorldPos)
    ensures
        w == (WorldPos { x: p.x, y: p.y, z: 0 }),
{
    WorldPos { x: p.x, y: p.y, z: 0 }
}

} // verus!
