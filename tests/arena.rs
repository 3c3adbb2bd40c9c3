use pong::config::{ArenaConfig, BOTTOM_WALL, LEFT_WALL, RIGHT_WALL, TOP_WALL, WALL_THICKNESS};
use pong::geometry::{Vec2i, WallLocation};
use pong::world::Wall;

const ALL_WALLS: [WallLocation; 4] = [
    WallLocation::Left,
    WallLocation::Right,
    WallLocation::Bottom,
    WallLocation::Top,
];

#[test]
fn every_wall_has_positive_size() {
    let arena = ArenaConfig::standard();
    for w in ALL_WALLS {
        let s = w.size(&arena);
        assert!(s.x > 0 && s.y > 0);
    }
}

#[test]
fn side_walls_stand_at_horizontal_bounds() {
    let arena = ArenaConfig::standard();
    assert_eq!(WallLocation::Left.position(&arena), Vec2i { x: LEFT_WALL as i64, y: 0 });
    assert_eq!(WallLocation::Right.position(&arena), Vec2i { x: RIGHT_WALL as i64, y: 0 });
}

#[test]
fn top_and_bottom_walls_stand_at_vertical_bounds() {
    let arena = ArenaConfig::standard();
    assert_eq!(WallLocation::Top.position(&arena), Vec2i { x: 0, y: TOP_WALL as i64 });
    assert_eq!(WallLocation::Bottom.position(&arena), Vec2i { x: 0, y: BOTTOM_WALL as i64 });
}

#[test]
fn standard_wall_sizes() {
    let arena = ArenaConfig::standard();
    assert_eq!((LEFT_WALL, RIGHT_WALL, TOP_WALL, BOTTOM_WALL, WALL_THICKNESS), (-450, 450, 250, -250, 30));
    assert_eq!(WallLocation::Left.size(&arena), Vec2i { x: 30, y: 530 });
    assert_eq!(WallLocation::Right.size(&arena), Vec2i { x: 30, y: 530 });
    assert_eq!(WallLocation::Top.size(&arena), Vec2i { x: 930, y: 30 });
    assert_eq!(WallLocation::Bottom.size(&arena), Vec2i { x: 930, y: 30 });
}

#[test]
fn arena_extent() {
    let arena = ArenaConfig::standard();
    assert_eq!(arena.arena_height(), 500);
    assert_eq!(arena.arena_width(), 900);
}

#[test]
fn bounds_are_checked() {
    assert_eq!(ArenaConfig::new(-450, 450, 250, -250, 30), Some(ArenaConfig::standard()));
    assert_eq!(ArenaConfig::new(450, -450, 250, -250, 30), None);
    assert_eq!(ArenaConfig::new(-450, 450, -250, 250, 30), None);
    assert_eq!(ArenaConfig::new(-450, -450, 250, -250, 30), None);
    assert_eq!(ArenaConfig::new(-450, 450, 250, 250, 30), None);
    assert_eq!(ArenaConfig::new(-450, 450, 250, -250, 0), None);
}

#[test]
fn small_arena_geometry() {
    let arena = ArenaConfig::new(-10, 30, 5, -1, 2).unwrap();
    assert_eq!(WallLocation::Left.position(&arena), Vec2i { x: -10, y: 0 });
    assert_eq!(WallLocation::Bottom.position(&arena), Vec2i { x: 0, y: -1 });
    assert_eq!(WallLocation::Right.size(&arena), Vec2i { x: 2, y: 8 });
    assert_eq!(WallLocation::Bottom.size(&arena), Vec2i { x: 42, y: 2 });
}

#[test]
fn wall_transform_from_location() {
    let arena = ArenaConfig::standard();
    let w = Wall::new(WallLocation::Top, &arena);
    assert_eq!(w.location, WallLocation::Top);
    assert_eq!((w.transform.x, w.transform.y, w.transform.z), (0, 250, 0));
    assert_eq!((w.transform.width, w.transform.height), (930, 30));
    assert_eq!(w.transform.rotation_degrees, 0);
}
