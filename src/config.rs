use vstd::prelude::*;

verus! {

/// Left bound of the arena.
pub const LEFT_WALL: i32 = -450;

/// Right bound of the arena.
pub const RIGHT_WALL: i32 = 450;

/// Upper bound of the arena.
pub const TOP_WALL: i32 = 250;

/// Lower bound of the arena.
pub const BOTTOM_WALL: i32 = -250;

/// Thickness of every wall.
pub const WALL_THICKNESS: i32 = 30;

/// The bounds of the arena, fixed once at startup and shared by reference.
#[derive(Clone, Copy, Debug, PartialEq, Eq, Structural)]
pub struct ArenaConfig {
    pub left_wall: i32,
    pub right_wall: i32,
    pub top_wall: i32,
    pub bottom_wall: i32,
    pub wall_thickness: i32,
}

impl ArenaConfig {
    /// The arena has positive width and height, and walls have a thickness.
    pub open spec fn wf(&self) -> bool {
        &&& self.left_wall < self.right_wall
        &&& self.bottom_wall < self.top_wall
        &&& self.wall_thickness > 0
    }

    /// Checks a set of bounds; `None` when they do not form an arena.
    pub fn new(left_wall: i32, right_wall: i32, top_wall: i32, bottom_wall: i32, wall_thickness: i32) -> (r: Option<ArenaConfig>)
        ensures
            r.is_some() <==> (left_wall < right_wall && bottom_wall < top_wall && wall_thickness > 0),
            r.is_some() ==> r.unwrap().wf(),
            r.is_some() ==> r == Some(ArenaConfig { left_wall, right_wall, top_wall, bottom_wall, wall_thickness }),
    {
        if left_wall < right_wall && bottom_wall < top_wall && wall_thickness > 0 {
            Some(ArenaConfig { left_wall, right_wall, top_wall, bottom_wall, wall_thickness })
        } else {
            None
        }
    }

    /// The arena the game is played in.
    pub fn standard() -> (r: ArenaConfig)
        ensures
            r.wf(),
            r.left_wall == LEFT_WALL,
            r.right_wall == RIGHT_WALL,
            r.top_wall == TOP_WALL,
            r.bottom_wall == BOTTOM_WALL,
            r.wall_thickness == WALL_THICKNESS,
    {
        ArenaConfig {
            left_wall: LEFT_WALL,
            right_wall: RIGHT_WALL,
            top_wall: TOP_WALL,
            bottom_wall: BOTTOM_WALL,
            wall_thickness: WALL_THICKNESS,
        }
    }

    /// Distance between the bottom and the top bound.
    pub fn arena_height(&self) -> (r: i64)
        ensures
            r == self.top_wall - self.bottom_wall,
    {
        self.top_wall as i64 - self.bottom_wall as i64
    }

    /// Distance between the left and the right bound.
    pub fn arena_width(&self) -> (r: i64)
        ensures
            r == self.right_wall - self.left_wall,
    {
        self.right_wall as i64 - self.left_wall as i64
    }
}

} // verus!
