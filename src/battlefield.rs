use vstd::prelude::*;

use crate::types::{IndivId, Size2, UnitTypeId, WorldPos, UNITS_PER_TILE};

verus! {

/// A position on the map, in world units (`UNITS_PER_TILE` per tile), on a level.
#[derive(Clone, Copy, Debug, PartialEq, Eq, Structural)]
pub struct Position {
    pub x: i64,
    pub y: i64,
    pub level: u8,
}

impl Position {
    /// A position on the ground level.
    pub fn new(x: i64, y: i64) -> (p: Position)
        ensures
            p == (Position { x, y, level: 0 }),
    {
        Position { x, y, level: 0 }
    }

    pub open spec fn spec_to_world_pos(self) -> WorldPos {
        WorldPos { x: self.x, y: self.y, z: 0 }
    }

    /// The point of world space on the ground under this position.
    #[verifier::when_used_as_spec(spec_to_world_pos)]
    pub fn to_world_pos(self) -> (w: WorldPos)
        ensures
            w == self.spec_to_world_pos(),
    {
        WorldPos { x: self.x, y: self.y, z: 0 }
    }
}

/// A unit on the battlefield.
#[derive(Clone, Copy, Debug, PartialEq, Eq, Structural)]
pub struct Indiv {
    pub id: IndivId,
    pub pos: Position,
    /// Facing, in millidegrees.
    pub rot: i64,
    pub player_id: u8,
    pub type_id: UnitTypeId,
    pub hp: i8,
    pub xp: i8,
}

/// No two units share an id.
pub open spec fn unique_indivs(s: Seq<Indiv>) -> bool {
    forall|i: int, j: int| 0 <= i < s.len() && 0 <= j < s.len() && s[i].id == s[j].id ==> i == j
}

/// The `k`-th unit of a new battlefield: row `k / 5`, column `k % 5`.
pub open spec fn grid_unit(k: int) -> Indiv {
    Indiv {
        id: IndivId { id: k as u32 },
        pos: Position {
            x: ((k / 5) * UNITS_PER_TILE) as i64,
            y: ((k % 5) * UNITS_PER_TILE) as i64,
            level: 0,
        },
        rot: 0,
        player_id: 0,
        type_id: UnitTypeId { id: 0 },
        hp: 0,
        xp: 0,
    }
}

/// Side of the square grid of units that a new battlefield is filled with.
pub const GRID_SIDE: u32 = 5;

/// The domain state that the scene shows: the units and the size of the map.
#[derive(Clone, Debug)]
pub struct Battlefield {
    indivs: Vec<Indiv>,
    map_size: Size2,
    next_indiv_id: u32,
}

impl Battlefield {
    pub closed spec fn units(&self) -> Seq<Indiv> {
        self.indivs@
    }

    pub closed spec fn size(&self) -> Size2 {
        self.map_size
    }

    /// Size of the map, in tiles.
    pub fn map_size(&self) -> (r: Size2)
        ensures
            r == self.size(),
    {
        self.map_size
    }

    pub closed spec fn next_id(&self) -> u32 {
        self.next_indiv_id
    }

    /// Unit ids are unique and all below the next id to hand out.
    pub open spec fn wf(&self) -> bool {
        &&& unique_indivs(self.units())
        &&& forall|i: int| 0 <= i < self.units().len() ==> self.units()[i].id.id < self.next_id()
    }

    /// The battlefield that a battle starts on: a 5 by 5 map with one unit on each
    /// tile, ids in row order from 0.
    pub open spec fn is_initial(&self) -> bool {
        &&& self.wf()
        &&& self.size() == (Size2 { w: 5, h: 5 })
        &&& self.units().len() == 25
        &&& forall|k: int| 0 <= k < 25 ==> (#[trigger] self.units()[k]) == grid_unit(k)
    }

    /// A 5 by 5 map with one unit on each tile, ids in row order from 0.
    pub fn new() -> (b: Battlefield)
        ensures
            b.is_initial(),
    {
        let mut b = Battlefield {
            indivs: Vec::new(),
            map_size: Size2 { w: 5, h: 5 },
            next_indiv_id: 0,
        };
        let mut i: u32 = 0;
        while i < GRID_SIDE
            invariant
                0 <= i <= 5,
                b.wf(),
                b.map_size == (Size2 { w: 5, h: 5 }),
                b.next_id() == 5 * i,
                b.units().len() == 5 * i,
                forall|k: int|
                    0 <= k < 5 * i ==> (#[trigger] b.units()[k]) == grid_unit(k),
            decreases 5 - i,
        {
            let mut j: u32 = 0;
            while j < GRID_SIDE
                invariant
                    0 <= i < 5,
                    0 <= j <= 5,
                    b.wf(),
                    b.map_size == (Size2 { w: 5, h: 5 }),
                    b.next_id() == 5 * i + j,
                    b.units().len() == 5 * i + j,
                    forall|k: int|
                        0 <= k < 5 * i + j ==> (#[trigger] b.units()[k]) == grid_unit(k),
                decreases 5 - j,
            {
                let ghost k: int = 5 * i + j;
                assert(k / 5 == i && k % 5 == j) by (nonlinear_arith)
                    requires
                        k == 5 * i + j,
                        0 <= j < 5,
                        0 <= i,
                ;
                b.add_indiv_at(Position::new(i as i64 * UNITS_PER_TILE, j as i64 * UNITS_PER_TILE));
                j = j + 1;
            }
            i = i + 1;
        }
        b
    }

    /// Adds a unit of type 0, facing angle 0, at `pos`, under the next free id.
    fn add_indiv_at(&mut self, pos: Position)
        requires
            old(self).wf(),
            old(self).next_id() < u32::MAX,
        ensures
            final(self).wf(),
            final(self).map_size == old(self).map_size,
            final(self).next_id() == old(self).next_id() + 1,
            final(self).units() == old(self).units().push(
                Indiv {
                    id: IndivId { id: old(self).next_id() },
                    pos,
                    rot: 0,
                    player_id: 0,
                    type_id: UnitTypeId { id: 0 },
                    hp: 0,
                    xp: 0,
                },
            ),
    {
        let id = self.next_indiv_id;
        self.indivs.push(
            Indiv {
                id: IndivId { id },
                pos,
                rot: 0,
                player_id: 0,
                type_id: UnitTypeId { id: 0 },
                hp: 0,
                xp: 0,
            },
        );
        self.next_indiv_id = id + 1;
    }

    /// The unit with id `indiv_id`.
    pub fn get_indiv(&self, indiv_id: &IndivId) -> (r: Option<&Indiv>)
        requires
            self.wf(),
        ensures
            match r {
                Some(u) => exists|k: int|
                    0 <= k < self.units().len() && self.units()[k] == *u && u.id == *indiv_id,
                None => forall|k: int|
                    0 <= k < self.units().len() ==> self.units()[k].id != *indiv_id,
            },
    {
        let mut k: usize = 0;
        while k < self.indivs.len()
            invariant
                k <= self.indivs@.len(),
                forall|m: int| 0 <= m < k ==> self.indivs@[m].id != *indiv_id,
            decreases self.indivs@.len() - k,
        {
            if self.indivs[k].id == *indiv_id {
                assert(self.units()[k as int] == self.indivs@[k as int]);
                return Some(&self.indivs[k]);
            }
            k = k + 1;
        }
        None
    }

    /// All units, in the order in which they were added.
    pub fn get_indiv_iter(&self) -> (r: &Vec<Indiv>)
        ensures
            r@ == self.units(),
    {
        &self.indivs
    }
}

} // verus!
