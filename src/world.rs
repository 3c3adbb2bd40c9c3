use vstd::prelude::*;

use crate::config::ArenaConfig;
use crate::geometry::{Transform, WallLocation};

verus! {

/// Length of a racket along the axis it moves on.
pub const RACKET_LENGTH: i64 = 120;

/// Thickness of a racket.
pub const RACKET_THICKNESS: i64 = 40;

/// Gap kept between a racket and the side wall behind it.
pub const RACKET_WALL_OFFSET: i64 = 20;

/// Rackets are drawn turned a quarter turn.
pub const RACKET_ROTATION_DEGREES: i64 = 90;

/// Side length of the square ball.
pub const BALL_SIZE: i64 = 30;

/// Drawing layer of the ball, above the rackets and walls.
pub const BALL_LAYER: i64 = 1;

/// An opaque entity identifier, never handed out twice by one store.
#[derive(Clone, Copy, Debug, PartialEq, Eq, Structural)]
pub struct Entity {
    pub id: u64,
}

/// A logical input control.
#[derive(Clone, Copy, Debug, PartialEq, Eq, Structural)]
pub enum Control {
    W,
    S,
    Up,
    Down,
}

/// The two controls that move one player's racket.
#[derive(Clone, Copy, Debug, PartialEq, Eq, Structural)]
pub struct MovementKeys {
    pub up: Control,
    pub down: Control,
}

/// A control binding: which controls move the racket of `player_number`.
#[derive(Clone, Copy, Debug, PartialEq, Eq, Structural)]
pub struct Player {
    pub player_number: i32,
    pub movement_keys: MovementKeys,
}

/// The racket of `player_number`, and where it stands.
#[derive(Clone, Copy, Debug, PartialEq, Eq, Structural)]
pub struct Racket {
    pub player_number: i32,
    pub transform: Transform,
}

/// The ball.
#[derive(Clone, Copy, Debug, PartialEq, Eq, Structural)]
pub struct Ball {
    pub transform: Transform,
}

/// A wall, placed from the arena bounds.
#[derive(Clone, Copy, Debug, PartialEq, Eq, Structural)]
pub struct Wall {
    pub location: WallLocation,
    pub transform: Transform,
}

impl Wall {
    /// The transform of the wall at `location` in `arena`.
    pub open spec fn spec_transform(location: WallLocation, arena: ArenaConfig) -> Transform {
        Transform {
            x: location.spec_position(arena).0 as i64,
            y: location.spec_position(arena).1 as i64,
            z: 0,
            width: location.spec_size(arena).0 as i64,
            height: location.spec_size(arena).1 as i64,
            rotation_degrees: 0,
        }
    }

    pub fn new(location: WallLocation, arena: &ArenaConfig) -> (r: Wall)
        requires
            arena.wf(),
        ensures
            r.location == location,
            r.transform == Wall::spec_transform(location, *arena),
            r.transform.width > 0,
            r.transform.height > 0,
    {
        let position = location.position(arena);
        let size = location.size(arena);
        Wall {
            location,
            transform: Transform {
                x: position.x,
                y: position.y,
                z: 0,
                width: size.x,
                height: size.y,
                rotation_degrees: 0,
            },
        }
    }
}

/// The player bound to W and S, or the one bound to the arrow keys.
pub open spec fn spec_player(second: bool) -> Player {
    if second {
        Player { player_number: 2, movement_keys: MovementKeys { up: Control::Up, down: Control::Down } }
    } else {
        Player { player_number: 1, movement_keys: MovementKeys { up: Control::W, down: Control::S } }
    }
}

/// The racket of the first player stands near the left wall, that of the
/// second near the right wall, both at mid height.
pub open spec fn spec_racket(second: bool, arena: ArenaConfig) -> Racket {
    Racket {
        player_number: if second { 2 } else { 1 },
        transform: Transform {
            x: if second {
                (arena.right_wall - RACKET_THICKNESS - RACKET_WALL_OFFSET) as i64
            } else {
                (arena.left_wall + RACKET_THICKNESS + RACKET_WALL_OFFSET) as i64
            },
            y: 0,
            z: 0,
            width: RACKET_LENGTH,
            height: RACKET_THICKNESS,
            rotation_degrees: RACKET_ROTATION_DEGREES,
        },
    }
}

/// The ball at rest in the middle of the arena.
pub open spec fn spec_ball() -> Ball {
    Ball {
        transform: Transform {
            x: 0,
            y: 0,
            z: BALL_LAYER,
            width: BALL_SIZE,
            height: BALL_SIZE,
            rotation_degrees: 0,
        },
    }
}

/// The first player, or the second when `second` holds.
pub fn new_player(second: bool) -> (r: Player)
    ensures
        r == spec_player(second),
{
    if second {
        Player { player_number: 2, movement_keys: MovementKeys { up: Control::Up, down: Control::Down } }
    } else {
        Player { player_number: 1, movement_keys: MovementKeys { up: Control::W, down: Control::S } }
    }
}

/// The racket of the first player, or of the second when `second` holds.
pub fn new_racket(second: bool, arena: &ArenaConfig) -> (r: Racket)
    ensures
        r == spec_racket(second, *arena),
{
    let x = if second {
        arena.right_wall as i64 - RACKET_THICKNESS - RACKET_WALL_OFFSET
    } else {
        arena.left_wall as i64 + RACKET_THICKNESS + RACKET_WALL_OFFSET
    };
    let player_number: i32 = if second { 2 } else { 1 };
    Racket {
        player_number,
        transform: Transform {
            x,
            y: 0,
            z: 0,
            width: RACKET_LENGTH,
            height: RACKET_THICKNESS,
            rotation_degrees: RACKET_ROTATION_DEGREES,
        },
    }
}

/// The ball as a game starts.
pub fn new_ball() -> (r: Ball)
    ensures
        r == spec_ball(),
{
    Ball {
        transform: Transform {
            x: 0,
            y: 0,
            z: BALL_LAYER,
            width: BALL_SIZE,
            height: BALL_SIZE,
            rotation_degrees: 0,
        },
    }
}

} // verus!
