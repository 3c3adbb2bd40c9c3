use pong::config::ArenaConfig;
use pong::game::Game;
use pong::movement::{InputState, RACKET_SPEED, RACKET_STEP, TICKS_PER_SECOND};
use pong::schedule::FixedStep;
use pong::store::World;
use pong::world::{new_player, new_racket, Control};

fn ys(w: &World) -> (i64, i64) {
    (w.rackets[0].1.transform.y, w.rackets[1].1.transform.y)
}

fn held(controls: &[Control]) -> InputState {
    InputState { held: controls.to_vec() }
}

#[test]
fn pressed_reports_held_controls() {
    let input = held(&[Control::S, Control::Up]);
    assert!(input.pressed(Control::S));
    assert!(input.pressed(Control::Up));
    assert!(!input.pressed(Control::W));
    assert!(!held(&[]).pressed(Control::Down));
}

#[test]
fn step_is_speed_over_rate() {
    assert_eq!(RACKET_STEP * TICKS_PER_SECOND, RACKET_SPEED);
    assert_eq!(RACKET_STEP, 2);
}

#[test]
fn no_input_leaves_rackets_in_place() {
    let mut w = World::setup(&ArenaConfig::standard());
    let before = w.rackets.clone();
    w.move_rackets(&held(&[]));
    assert_eq!(w.rackets, before);
}

#[test]
fn unrelated_control_leaves_rackets_in_place() {
    let mut w = World::setup(&ArenaConfig::standard());
    w.players.truncate(1);
    w.move_rackets(&held(&[Control::Up, Control::Down]));
    assert_eq!(ys(&w), (0, 0));
}

#[test]
fn up_moves_one_step() {
    let mut w = World::setup(&ArenaConfig::standard());
    w.move_rackets(&held(&[Control::W]));
    assert_eq!(ys(&w), (2, 0));
    assert_eq!(w.rackets[0].1.transform.x, -390);
}

#[test]
fn down_moves_one_step() {
    let mut w = World::setup(&ArenaConfig::standard());
    w.move_rackets(&held(&[Control::Down]));
    assert_eq!(ys(&w), (0, -2));
}

#[test]
fn up_wins_over_down() {
    let mut w = World::setup(&ArenaConfig::standard());
    w.move_rackets(&held(&[Control::S, Control::W, Control::Down, Control::Up]));
    assert_eq!(ys(&w), (2, 2));
}

#[test]
fn players_move_independently() {
    let mut a = World::setup(&ArenaConfig::standard());
    let mut b = World::setup(&ArenaConfig::standard());
    a.move_rackets(&held(&[Control::Down]));
    b.move_rackets(&held(&[Control::Down, Control::W]));
    assert_eq!(a.rackets[1], b.rackets[1]);
    assert_eq!(ys(&a), (0, -2));
    assert_eq!(ys(&b), (2, -2));
}

#[test]
fn thirty_ticks_up() {
    let mut w = World::setup(&ArenaConfig::standard());
    let input = held(&[Control::W]);
    for _ in 0..30 {
        w.move_rackets(&input);
    }
    assert_eq!(ys(&w), (60, 0));
}

#[test]
fn run_ticks_matches_repeated_ticks() {
    let mut w = World::setup(&ArenaConfig::standard());
    w.run_ticks(30, &held(&[Control::W, Control::Down]));
    assert_eq!(ys(&w), (60, -60));
    w.run_ticks(0, &held(&[Control::S]));
    assert_eq!(ys(&w), (60, -60));
}

#[test]
fn racket_without_player_stays() {
    let arena = ArenaConfig::standard();
    let mut w = World::new();
    w.spawn_player(new_player(false));
    w.spawn_racket(new_racket(true, &arena));
    w.move_rackets(&held(&[Control::Up, Control::W]));
    assert_eq!(w.rackets[0].1.transform.y, 0);
}

#[test]
fn fixed_step_counts_whole_ticks() {
    let mut s = FixedStep::new();
    assert_eq!(s.advance(0), 0);
    assert_eq!(s.advance(10_000), 0);
    assert_eq!(s.accumulated, 600_000);
    assert_eq!(s.advance(10_000), 1);
    assert_eq!(s.accumulated, 200_000);
    assert_eq!(s.advance(1_000_000), 60);
    assert_eq!(s.accumulated, 200_000);
    assert_eq!(s.advance(50_000), 3);
    assert_eq!(s.accumulated, 200_000);
}

#[test]
fn one_second_of_frames_runs_sixty_ticks() {
    let mut s = FixedStep::new();
    let mut total = 0;
    for _ in 0..144 {
        total += s.advance(6_944);
    }
    assert_eq!(total, 59);
    total += s.advance(1_000_000 - 144 * 6_944);
    assert_eq!(total, 60);
    assert_eq!(s.accumulated, 0);
}

#[test]
fn game_frame_runs_ticks() {
    let mut g = Game::new(&ArenaConfig::standard());
    let input = held(&[Control::W]);
    assert_eq!(g.frame(500_000, &input), 30);
    assert_eq!(ys(&g.world), (60, 0));
    assert_eq!(g.frame(8_000, &input), 0);
    assert_eq!(ys(&g.world), (60, 0));
    assert_eq!(g.frame(9_000, &input), 1);
    assert_eq!(ys(&g.world), (62, 0));
}
