use vstd::prelude::*;

use crate::types::{Size2, WorldPos, FULL_TURN};

verus! {

/// Lowest pitch (angle above the ground plane), in millidegrees.
pub const MIN_PITCH: i64 = 30_000;
/// Highest pitch, in millidegrees.
pub const MAX_PITCH: i64 = 75_000;
/// Pitch of a new camera.
pub const INITIAL_PITCH: i64 = 45_000;
/// Zoom factors are per-mille: this is a factor of one.
pub const ZOOM_ONE: u64 = 1000;

/// `v` forced into `[lo, hi]`.
pub open spec fn clamp(v: int, lo: int, hi: int) -> int {
    if v < lo {
        lo
    } else if v > hi {
        hi
    } else {
        v
    }
}

/// `v` capped at the largest zoom a `u64` can hold.
pub open spec fn saturate(v: int) -> int {
    if v > u64::MAX {
        u64::MAX as int
    } else {
        v
    }
}

/// An angle brought into `[0, FULL_TURN)`.
pub open spec fn wrap_angle(a: int) -> int {
    a % (FULL_TURN as int)
}

/// An axis-aligned rectangle of the ground plane.
#[derive(Clone, Copy, Debug, PartialEq, Eq, Structural)]
pub struct Rect {
    pub min_x: i64,
    pub min_y: i64,
    pub max_x: i64,
    pub max_y: i64,
}

impl Rect {
    pub open spec fn wf(self) -> bool {
        self.min_x <= self.max_x && self.min_y <= self.max_y
    }

    pub open spec fn contains(self, x: int, y: int) -> bool {
        self.min_x <= x <= self.max_x && self.min_y <= y <= self.max_y
    }

    pub open spec fn spec_spanning_origin(corner: WorldPos) -> Rect {
        Rect {
            min_x: if corner.x < 0 { corner.x } else { 0 },
            max_x: if corner.x < 0 { 0 } else { corner.x },
            min_y: if corner.y < 0 { corner.y } else { 0 },
            max_y: if corner.y < 0 { 0 } else { corner.y },
        }
    }

    /// The rectangle spanned by the origin and `corner`.
    #[verifier::when_used_as_spec(spec_spanning_origin)]
    pub fn spanning_origin(corner: WorldPos) -> (r: Rect)
        ensures
            r.wf(),
            r == Rect::spec_spanning_origin(corner),
    {
        Rect {
            min_x: if corner.x < 0 { corner.x } else { 0 },
            max_x: if corner.x < 0 { 0 } else { corner.x },
            min_y: if corner.y < 0 { corner.y } else { 0 },
            max_y: if corner.y < 0 { 0 } else { corner.y },
        }
    }
}

/// A planar direction on the ground, by its angle from the x axis.
#[derive(Clone, Copy, Debug, PartialEq, Eq, Structural)]
pub enum Direction {
    /// Angle 0: towards growing x.
    East,
    /// Quarter turn: towards growing y.
    North,
    /// Half turn: towards shrinking x.
    West,
    /// Three quarter turns: towards shrinking y.
    South,
}

impl Direction {
    /// The unit step of the direction, as (dx, dy).
    pub open spec fn step(self) -> (int, int) {
        match self {
            Direction::East => (1, 0),
            Direction::North => (0, 1),
            Direction::West => (-1, 0),
            Direction::South => (0, -1),
        }
    }
}

/// `v` clamped into `[lo, hi]`, computed.
fn clamp_i128(v: i128, lo: i64, hi: i64) -> (r: i64)
    requires
        lo <= hi,
    ensures
        r == clamp(v as int, lo as int, hi as int),
{
    if v < lo as i128 {
        lo
    } else if v > hi as i128 {
        hi
    } else {
        v as i64
    }
}

/// The viewer: a position on the ground clamped to a rectangle, yaw and pitch,
/// a zoom factor, and the viewport whose projection is cached by the renderer.
#[derive(Clone, Copy, Debug, PartialEq, Eq, Structural)]
pub struct Camera {
    pub x: i64,
    pub y: i64,
    pub bounds: Rect,
    pub yaw: i64,
    pub pitch: i64,
    pub zoom: u64,
    pub viewport: Size2,
    pub projection_stale: bool,
}

impl Camera {
    pub open spec fn wf(self) -> bool {
        &&& self.bounds.wf()
        &&& self.bounds.contains(self.x as int, self.y as int)
        &&& 0 <= self.yaw < FULL_TURN
        &&& MIN_PITCH <= self.pitch <= MAX_PITCH
    }

    /// The camera after `pan(dir, distance)`.
    pub open spec fn panned(self, dir: Direction, distance: int) -> Camera {
        Camera {
            x: clamp(self.x + dir.step().0 * distance, self.bounds.min_x as int, self.bounds.max_x as int) as i64,
            y: clamp(self.y + dir.step().1 * distance, self.bounds.min_y as int, self.bounds.max_y as int) as i64,
            projection_stale: true,
            ..self
        }
    }

    /// The camera after `add_horizontal_angle(delta)`.
    pub open spec fn turned(self, delta: int) -> Camera {
        Camera { yaw: wrap_angle(self.yaw + delta) as i64, projection_stale: true, ..self }
    }

    /// The camera after `add_vertical_angle(delta)`.
    pub open spec fn tilted(self, delta: int) -> Camera {
        Camera {
            pitch: clamp(self.pitch + delta, MIN_PITCH as int, MAX_PITCH as int) as i64,
            projection_stale: true,
            ..self
        }
    }

    /// The camera after `change_zoom(factor)`.
    pub open spec fn zoomed(self, factor: int) -> Camera {
        Camera {
            zoom: saturate(self.zoom * factor / (ZOOM_ONE as int)) as u64,
            projection_stale: true,
            ..self
        }
    }

    /// The camera after `resize(viewport)`.
    pub open spec fn resized(self, viewport: Size2) -> Camera {
        Camera { viewport, projection_stale: true, ..self }
    }

    /// A camera at the origin, looking along the x axis, with no room to pan.
    pub fn new(viewport: Size2) -> (c: Camera)
        ensures
            c.wf(),
            c.x == 0 && c.y == 0,
            c.bounds == (Rect { min_x: 0, min_y: 0, max_x: 0, max_y: 0 }),
            c.yaw == 0,
            c.pitch == INITIAL_PITCH,
            c.zoom == ZOOM_ONE,
            c.viewport == viewport,
            c.projection_stale,
    {
        Camera {
            x: 0,
            y: 0,
            bounds: Rect { min_x: 0, min_y: 0, max_x: 0, max_y: 0 },
            yaw: 0,
            pitch: INITIAL_PITCH,
            zoom: ZOOM_ONE,
            viewport,
            projection_stale: true,
        }
    }

    /// Sets the rectangle that the position is kept in, and pulls the position into it.
    pub fn set_bounds(&mut self, bounds: Rect)
        requires
            old(self).wf(),
            bounds.wf(),
        ensures
            final(self).wf(),
            *final(self) == (Camera {
                x: clamp(old(self).x as int, bounds.min_x as int, bounds.max_x as int) as i64,
                y: clamp(old(self).y as int, bounds.min_y as int, bounds.max_y as int) as i64,
                bounds,
                projection_stale: true,
                ..*old(self)
            }),
    {
        self.bounds = bounds;
        self.x = clamp_i128(self.x as i128, bounds.min_x, bounds.max_x);
        self.y = clamp_i128(self.y as i128, bounds.min_y, bounds.max_y);
        self.projection_stale = true;
    }

    /// Moves to `pos` (its ground coordinates), clamped to the bounds.
    pub fn set_pos(&mut self, pos: WorldPos)
        requires
            old(self).wf(),
        ensures
            final(self).wf(),
            *final(self) == (Camera {
                x: clamp(pos.x as int, old(self).bounds.min_x as int, old(self).bounds.max_x as int) as i64,
                y: clamp(pos.y as int, old(self).bounds.min_y as int, old(self).bounds.max_y as int) as i64,
                projection_stale: true,
                ..*old(self)
            }),
    {
        self.x = clamp_i128(pos.x as i128, self.bounds.min_x, self.bounds.max_x);
        self.y = clamp_i128(pos.y as i128, self.bounds.min_y, self.bounds.max_y);
        self.projection_stale = true;
    }

    /// Translates the position by `distance` along `dir`, then clamps it to the bounds.
    pub fn pan(&mut self, dir: Direction, distance: i64)
        requires
            old(self).wf(),
        ensures
            final(self).wf(),
            final(self).bounds.contains(final(self).x as int, final(self).y as int),
            *final(self) == old(self).panned(dir, distance as int),
    {
        let d = distance as i128;
        let (nx, ny): (i128, i128) = match dir {
            Direction::East => (self.x as i128 + d, self.y as i128),
            Direction::North => (self.x as i128, self.y as i128 + d),
            Direction::West => (self.x as i128 - d, self.y as i128),
            Direction::South => (self.x as i128, self.y as i128 - d),
        };
        self.x = clamp_i128(nx, self.bounds.min_x, self.bounds.max_x);
        self.y = clamp_i128(ny, self.bounds.min_y, self.bounds.max_y);
        self.projection_stale = true;
    }

    /// Turns about the vertical axis by `delta` millidegrees; the yaw wraps around
    /// a full turn.
    pub fn add_horizontal_angle(&mut self, delta: i64)
        requires
            old(self).wf(),
        ensures
            final(self).wf(),
            *final(self) == old(self).turned(delta as int),
    {
        let full: i128 = FULL_TURN as i128;
        let s: i128 = self.yaw as i128 + delta as i128;
        let r: i128 = if s >= 0 {
            (s as u128 % full as u128) as i128
        } else {
            let m: i128 = ((-s) as u128 % full as u128) as i128;
            if m == 0 {
                0
            } else {
                full - m
            }
        };
        assert(r == wrap_angle(s as int)) by {
            if s < 0 {
                let ghost si: int = s as int;
                let ghost f: int = 360_000;
                let ghost q: int = (-si) / f;
                let ghost m: int = (-si) % f;
                assert(-si == f * q + m && 0 <= m < f) by (nonlinear_arith)
                    requires
                        f == 360_000,
                        q == (-si) / f,
                        m == (-si) % f,
                ;
                if m == 0 {
                    assert(si % f == 0) by (nonlinear_arith)
                        requires
                            si == f * (-q),
                            f == 360_000,
                    ;
                } else {
                    assert(si % f == f - m) by (nonlinear_arith)
                        requires
                            si == f * (-q - 1) + (f - m),
                            0 < f - m < f,
                            f == 360_000,
                    ;
                }
            }
        }
        self.yaw = r as i64;
        self.projection_stale = true;
    }

    /// Tilts by `delta` millidegrees; the pitch is clamped to `[MIN_PITCH, MAX_PITCH]`.
    pub fn add_vertical_angle(&mut self, delta: i64)
        requires
            old(self).wf(),
        ensures
            final(self).wf(),
            *final(self) == old(self).tilted(delta as int),
    {
        self.pitch = clamp_i128(self.pitch as i128 + delta as i128, MIN_PITCH, MAX_PITCH);
        self.projection_stale = true;
    }

    /// Turns horizontally by `horizontal` and tilts by `vertical` (millidegrees).
    pub fn rotate(&mut self, horizontal: i64, vertical: i64)
        requires
            old(self).wf(),
        ensures
            final(self).wf(),
            *final(self) == old(self).turned(horizontal as int).tilted(vertical as int),
    {
        self.add_horizontal_angle(horizontal);
        self.add_vertical_angle(vertical);
    }

    /// Multiplies the zoom by `factor` per-mille, rounded down. The zoom is not
    /// bounded; only a result beyond what a `u64` holds is capped there.
    pub fn change_zoom(&mut self, factor: u64)
        requires
            old(self).wf(),
        ensures
            final(self).wf(),
            *final(self) == old(self).zoomed(factor as int),
    {
        let z = self.zoom as u128;
        let f = factor as u128;
        assert(z * f <= 0xffff_ffff_ffff_ffff * 0xffff_ffff_ffff_ffff) by (nonlinear_arith)
            requires
                z <= 0xffff_ffff_ffff_ffff,
                f <= 0xffff_ffff_ffff_ffff,
        ;
        let scaled: u128 = z * f / (ZOOM_ONE as u128);
        self.zoom = if scaled > u64::MAX as u128 {
            u64::MAX
        } else {
            scaled as u64
        };
        self.projection_stale = true;
    }

    /// Records a new viewport size; the cached projection must be rebuilt.
    pub fn resize(&mut self, viewport: Size2)
        requires
            old(self).wf(),
        ensures
            final(self).wf(),
            *final(self) == old(self).resized(viewport),
    {
        self.viewport = viewport;
        self.projection_stale = true;
    }

    /// Records that the renderer has rebuilt the projection from the current state.
    pub fn mark_projection_built(&mut self)
        ensures
            *final(self) == (Camera { projection_stale: false, ..*old(self) }),
    {
        self.projection_stale = false;
    }
}

/// The camera after panning by each `(direction, distance)` of `moves`, in order.
pub open spec fn pan_all(c: Camera, moves: Seq<(Direction, int)>) -> Camera
    decreases moves.len(),
{
    if moves.len() == 0 {
        c
    } else {
        pan_all(c, moves.drop_last()).panned(moves.last().0, moves.last().1)
    }
}

/// Whatever pans are made, the camera stays well-formed, so its position stays in
/// its bounding rectangle; the rectangle itself never changes.
pub proof fn lemma_pans_stay_in_bounds(c: Camera, moves: Seq<(Direction, int)>)
    requires
        c.wf(),
    ensures
        pan_all(c, moves).wf(),
        pan_all(c, moves).bounds == c.bounds,
        c.bounds.contains(pan_all(c, moves).x as int, pan_all(c, moves).y as int),
    decreases moves.len(),
{
    if moves.len() > 0 {
        lemma_pans_stay_in_bounds(c, moves.drop_last());
    }
}

/// Zooming by `a` and then by `b` (per-mille) matches zooming by the exact product
/// up to rounding: the result, in millionths, is never above `zoom * a * b` and
/// falls short of it by less than `1000 * b + 1_000_000`. So either order of the
/// two zooms lands within rounding of the same value. Holds for every zoom whose
/// steps stay within what a `u64` holds.
pub proof fn lemma_zoom_composition(c: Camera, a: nat, b: nat)
    requires
        c.zoom * a / 1000 <= u64::MAX,
        (c.zoom * a / 1000) * b / 1000 <= u64::MAX,
    ensures
        c.zoomed(a as int).zoomed(b as int).zoom * 1_000_000 <= c.zoom * a * b,
        c.zoomed(a as int).zoomed(b as int).zoom * 1_000_000 > c.zoom * a * b - 1000 * b - 1_000_000,
{
    let z = c.zoom as int;
    let q1 = z * a / 1000;
    let q2 = q1 * b / 1000;
    assert(c.zoomed(a as int).zoom == q1);
    assert(c.zoomed(a as int).zoomed(b as int).zoom == q2);
    assert(1000 * q1 <= z * a < 1000 * q1 + 1000) by (nonlinear_arith)
        requires
            q1 == z * a / 1000,
            z >= 0,
            a >= 0,
    ;
    assert(1000 * q2 <= q1 * b < 1000 * q2 + 1000) by (nonlinear_arith)
        requires
            q2 == q1 * b / 1000,
            q1 >= 0,
            b >= 0,
    ;
    assert(q2 * 1_000_000 <= z * a * b) by (nonlinear_arith)
        requires
            1000 * q2 <= q1 * b,
            1000 * q1 <= z * a,
            b >= 0,
    ;
    assert(z * a * b <= 1000 * q1 * b + 1000 * b) by (nonlinear_arith)
        requires
            z * a < 1000 * q1 + 1000,
            b >= 0,
    ;
    assert(1000 * (q1 * b) < 1_000_000 * q2 + 1_000_000) by (nonlinear_arith)
        requires
            q1 * b < 1000 * q2 + 1000,
    ;
    assert(q2 * 1_000_000 > z * a * b - 1000 * b - 1_000_000) by (nonlinear_arith)
        requires
            1000 * (q1 * b) < 1_000_000 * q2 + 1_000_000,
            z * a * b <= 1000 * q1 * b + 1000 * b,
    ;
}

} // verus!
