use vstd::prelude::*;

use crate::config::ArenaConfig;

verus! {

/// A point or an extent in the plane.
#[derive(Clone, Copy, Debug, PartialEq, Eq, Structural)]
pub struct Vec2i {
    pub x: i64,
    pub y: i64,
}

/// Where an entity stands and how large it is drawn.
#[derive(Clone, Copy, Debug, PartialEq, Eq, Structural)]
pub struct Transform {
    pub x: i64,
    pub y: i64,
    /// Drawing order: higher is drawn on top.
    pub z: i64,
    pub width: i64,
    pub height: i64,
    pub rotation_degrees: i64,
}

/// One of the four walls that enclose the arena.
#[derive(Clone, Copy, Debug, PartialEq, Eq, Structural)]
pub enum WallLocation {
    Left,
    Right,
    Bottom,
    Top,
}

impl WallLocation {
    /// Centre of the wall.
    pub open spec fn spec_position(self, arena: ArenaConfig) -> (int, int) {
        match self {
            WallLocation::Left => (arena.left_wall as int, 0),
            WallLocation::Right => (arena.right_wall as int, 0),
            WallLocation::Bottom => (0, arena.bottom_wall as int),
            WallLocation::Top => (0, arena.top_wall as int),
        }
    }

    /// Extent of the wall. Side walls reach past the corners by one
    /// thickness so that no gap is left where two walls meet.
    pub open spec fn spec_size(self, arena: ArenaConfig) -> (int, int) {
        let height = arena.top_wall - arena.bottom_wall;
        let width = arena.right_wall - arena.left_wall;
        match self {
            WallLocation::Left | WallLocation::Right => (
                arena.wall_thickness as int,
                height + arena.wall_thickness,
            ),
            WallLocation::Bottom | WallLocation::Top => (
                width + arena.wall_thickness,
                arena.wall_thickness as int,
            ),
        }
    }

    /// Centre of the wall: on a side bound at mid height, or on the top or
    /// bottom bound at mid width.
    pub fn position(&self, arena: &ArenaConfig) -> (r: Vec2i)
        ensures
            (r.x as int, r.y as int) == self.spec_position(*arena),
            *self == WallLocation::Left ==> r.x == arena.left_wall && r.y == 0,
            *self == WallLocation::Right ==> r.x == arena.right_wall && r.y == 0,
            *self == WallLocation::Bottom ==> r.x == 0 && r.y == arena.bottom_wall,
            *self == WallLocation::Top ==> r.x == 0 && r.y == arena.top_wall,
    {
        match self {
            WallLocation::Left => Vec2i { x: arena.left_wall as i64, y: 0 },
            WallLocation::Right => Vec2i { x: arena.right_wall as i64, y: 0 },
            WallLocation::Bottom => Vec2i { x: 0, y: arena.bottom_wall as i64 },
            WallLocation::Top => Vec2i { x: 0, y: arena.top_wall as i64 },
        }
    }

    /// Extent of the wall; both sides are positive in a well-formed arena.
    pub fn size(&self, arena: &ArenaConfig) -> (r: Vec2i)
        requires
            arena.wf(),
        ensures
            (r.x as int, r.y as int) == self.spec_size(*arena),
            r.x > 0,
            r.y > 0,
    {
        let arena_height = arena.arena_height();
        let arena_width = arena.arena_width();
        let thickness = arena.wall_thickness as i64;
        match self {
            WallLocation::Left | WallLocation::Right => Vec2i { x: thickness, y: arena_height + thickness },
            WallLocation::Bottom | WallLocation::Top => Vec2i { x: arena_width + thickness, y: thickness },
        }
    }
}

} // verus!
