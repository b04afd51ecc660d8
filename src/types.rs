use vstd::prelude::*;

verus! {

/// Number of world units in one map tile: world coordinates are fixed-point
/// integers with this many units per tile.
pub const UNITS_PER_TILE: i64 = 1000;

/// Alpha value of a fully opaque color.
pub const OPAQUE: u8 = 255;

/// One full turn in the angle unit used throughout (millidegrees).
pub const FULL_TURN: i64 = 360_000;

/// Identifier of a scene node. Ids are handed out in increasing order and never reused.
#[derive(Clone, Copy, Debug, PartialEq, Eq, Structural, Hash)]
pub struct NodeId {
    pub id: u64,
}

/// Identifier of a unit (an individual on the battlefield).
#[derive(Clone, Copy, Debug, PartialEq, Eq, Structural, Hash, PartialOrd, Ord)]
pub struct IndivId {
    pub id: u32,
}

/// Identifier of a unit type; it doubles as the id of the type's mesh.
#[derive(Clone, Copy, Debug, PartialEq, Eq, Structural, Hash, PartialOrd, Ord)]
pub struct UnitTypeId {
    pub id: u16,
}

/// Identifier of a mesh registered with a `MeshManager`.
#[derive(Clone, Copy, Debug, PartialEq, Eq, Structural, Hash)]
pub struct MeshId {
    pub id: u16,
}

/// Identifier of a button inside a `ButtonManager`.
#[derive(Clone, Copy, Debug, PartialEq, Eq, Structural, Hash)]
pub struct ButtonId {
    pub id: i32,
}

/// A position on the screen, in pixels.
#[derive(Clone, Copy, Debug, PartialEq, Eq, Structural)]
pub struct ScreenPos {
    pub x: i32,
    pub y: i32,
}

/// A two-dimensional size (a window, a texture, a map).
#[derive(Clone, Copy, Debug, PartialEq, Eq, Structural)]
pub struct Size2 {
    pub w: i32,
    pub h: i32,
}

/// A point in world space, in fixed-point units (`UNITS_PER_TILE` per tile).
/// `z` is the depth coordinate.
#[derive(Clone, Copy, Debug, PartialEq, Eq, Structural)]
pub struct WorldPos {
    pub x: i64,
    pub y: i64,
    pub z: i64,
}

/// Failures of scene operations.
#[derive(Clone, Copy, Debug, PartialEq, Eq, Structural)]
pub enum SceneError {
    /// The operation named a node id that is not live.
    UnknownNode,
    /// The entity is already bound to a node.
    DuplicateBinding,
    /// A node names a mesh that was never loaded.
    MissingDrawable,
}

/// An RGBA color with 8-bit channels; `a == OPAQUE` means fully opaque.
#[derive(Clone, Copy, Debug, PartialEq, Eq, Structural)]
pub struct Color {
    pub r: u8,
    pub g: u8,
    pub b: u8,
    pub a: u8,
}

impl Color {
    /// Opaque white, the tint of a freshly created unit node.
    pub fn white() -> (c: Color)
        ensures
            c == (Color { r: 255, g: 255, b: 255, a: OPAQUE }),
    {
        Color { r: 255, g: 255, b: 255, a: OPAQUE }
    }

    pub open spec fn spec_is_transparent(self) -> bool {
        self.a < OPAQUE
    }

    /// Whether the color needs back-to-front blending (alpha below full opacity).
    #[verifier::when_used_as_spec(spec_is_transparent)]
    pub fn is_transparent(self) -> (r: bool)
        ensures
            r == self.spec_is_transparent(),
    {
        self.a < OPAQUE
    }
}

} // verus!
