use pong::config::ArenaConfig;
use pong::geometry::WallLocation;
use pong::store::World;
use pong::world::{new_ball, new_player, new_racket, Control, Entity, Player};

#[test]
fn setup_layout() {
    let w = World::setup(&ArenaConfig::standard());
    assert_eq!(w.next_id, 9);
    assert_eq!(w.players.len(), 2);
    assert_eq!(w.players[0].0, Entity { id: 0 });
    assert_eq!(w.players[0].1.player_number, 1);
    assert_eq!(w.players[0].1.movement_keys.up, Control::W);
    assert_eq!(w.players[0].1.movement_keys.down, Control::S);
    assert_eq!(w.players[1].1.player_number, 2);
    assert_eq!(w.players[1].1.movement_keys.up, Control::Up);
    assert_eq!(w.players[1].1.movement_keys.down, Control::Down);
    assert_eq!(w.rackets.len(), 2);
    assert_eq!(w.rackets[0].0, Entity { id: 2 });
    assert_eq!(w.rackets[0].1.player_number, 1);
    assert_eq!(w.rackets[0].1.transform.x, -390);
    assert_eq!(w.rackets[1].1.player_number, 2);
    assert_eq!(w.rackets[1].1.transform.x, 390);
    assert_eq!(w.rackets[1].1.transform.rotation_degrees, 90);
    assert_eq!((w.rackets[1].1.transform.width, w.rackets[1].1.transform.height), (120, 40));
    assert_eq!(w.balls.len(), 1);
    assert_eq!(w.balls[0].0, Entity { id: 4 });
    assert_eq!(w.balls[0].1, new_ball());
    let locations: Vec<WallLocation> = w.walls.iter().map(|x| x.1.location).collect();
    assert_eq!(
        locations,
        vec![WallLocation::Left, WallLocation::Right, WallLocation::Bottom, WallLocation::Top]
    );
    assert_eq!(w.walls[3].0, Entity { id: 8 });
}

#[test]
fn entities_are_fresh() {
    let mut w = World::new();
    let a = w.create_entity();
    let b = w.create_entity();
    assert_ne!(a, b);
    assert_eq!(w.next_id, 2);
    assert!(w.players.is_empty());
}

#[test]
fn attach_records_in_insertion_order() {
    let mut w = World::new();
    let arena = ArenaConfig::standard();
    let e = w.create_entity();
    w.attach_player(e, new_player(true));
    w.attach_racket(e, new_racket(true, &arena));
    let f = w.spawn_player(new_player(false));
    assert_eq!(f, Entity { id: 1 });
    assert_eq!(w.players.len(), 2);
    assert_eq!(w.players[0], (e, new_player(true)));
    assert_eq!(w.players[1].1, Player { player_number: 1, ..new_player(false) });
    assert_eq!(w.rackets[0].0, e);
}

#[test]
fn find_racket_by_player() {
    let w = World::setup(&ArenaConfig::standard());
    assert_eq!(w.find_racket(1), Some(0));
    assert_eq!(w.find_racket(2), Some(1));
    assert_eq!(w.find_racket(3), None);
}
