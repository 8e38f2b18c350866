use birdlobby::bird::Bird;
use birdlobby::collision::{abs, collision_circle, collision_circle_rectange};
use birdlobby::game::Game;
use birdlobby::player::Player;
use birdlobby::wall::Wall;

const DT: i64 = 16_667;

#[test]
fn abs_works() {
    assert_eq!(abs(5), 5);
    assert_eq!(abs(-5), 5);
    assert_eq!(abs(0), 0);
}

#[test]
fn circle_circle_collision() {
    let a = Bird::new((200_000, 500_000), (0, 0), 25_000);
    let b = Bird::new((200_000, 500_000), (0, 0), 25_000);
    // Zero squared distance against an unsquared radius sum of 0.05.
    assert!(collision_circle(&a, &b));
    // One unit apart: squared distance 1.0 (1_000_000) is not below 50_000.
    let c = Bird::new((1_200_000, 500_000), (0, 0), 25_000);
    assert!(!collision_circle(&a, &c));
}

#[test]
fn circle_rectangle_collision() {
    let bird = Bird::new((200_000, 500_000), (0, 0), 25_000);
    let on_top = Wall::new((200_000, 500_000), (-500_000, 0), 50_000, 200_000);
    assert!(collision_circle_rectange(&bird, &on_top));
    // Just outside on the x axis: half width + radius = 50_000 < offset.
    let right = Wall::new((250_001, 500_000), (-500_000, 0), 50_000, 200_000);
    assert!(!collision_circle_rectange(&bird, &right));
    // Exactly at the expanded edge still counts as contact.
    let edge = Wall::new((250_000, 500_000), (-500_000, 0), 50_000, 200_000);
    assert!(collision_circle_rectange(&bird, &edge));
    // Outside on the y axis: half height + radius = 125_000.
    let below = Wall::new((200_000, 374_999), (-500_000, 0), 50_000, 200_000);
    assert!(!collision_circle_rectange(&bird, &below));
}

#[test]
fn add_player_spawns_bird_at_fixed_state() {
    let mut g = Game::new();
    let eid = g.add_player(Player::new(42));
    assert_eq!(g.players.len(), 1);
    assert_eq!(g.players[0].id, 42);
    assert!(!g.players[0].ready);
    assert_eq!(g.birds.len(), 1);
    assert_eq!(g.birds[0].0, 42);
    let b = g.birds[0].1;
    assert_eq!(b.id, eid);
    assert_eq!((b.px, b.py), (200_000, 500_000));
    assert_eq!((b.vx, b.vy), (0, 0));
    assert_eq!(b.radius, 25_000);
    assert!(b.active);
    assert!(!b.jump);
}

#[test]
fn set_input_only_touches_existing_birds() {
    let mut g = Game::new();
    assert_eq!(g.set_input(1, true), None);
    g.add_player(Player::new(1));
    assert_eq!(g.set_input(1, true), Some(()));
    assert!(g.birds[0].1.jump);
    assert_eq!(g.set_input(2, true), None);
}

#[test]
fn ready_reports_and_starts() {
    let mut g = Game::new();
    // Nobody registered: not found, and an empty room never starts.
    assert!(!g.ready(5));
    assert!(!g.running);
    g.add_player(Player::new(5));
    g.add_player(Player::new(6));
    assert!(g.ready(5));
    assert!(!g.running);
    assert!(g.ready(6));
    assert!(g.running);
    // Running stays set under further calls, found or not.
    assert!(!g.ready(7));
    assert!(g.running);
}

#[test]
fn tick_is_noop_until_running() {
    let mut g = Game::new();
    g.add_player(Player::new(1));
    let before = g.birds[0].1;
    g.update(DT);
    assert_eq!(g.birds[0].1, before);
    assert_eq!(g.walls.len(), 0);
}

#[test]
fn tick_applies_gravity_exactly() {
    let mut g = Game::new();
    g.add_player(Player::new(1));
    g.start();
    g.update(DT);
    let b = g.birds[0].1;
    // vy drops by gravity * dt; y integrates the new vy, truncating.
    assert_eq!(b.vy, -16_667);
    assert_eq!(b.px, 200_000);
    assert_eq!(b.py, 500_000 - 277);
    assert!(b.active);
    // A wall is spawned once running, to bring the count toward two.
    assert_eq!(g.walls.len(), 1);
    let w = g.walls[0];
    assert!((1_200_000..1_500_000).contains(&w.px));
    assert!((0..1_000_000).contains(&w.py));
    assert_eq!((w.vx, w.vy), (-500_000, 0));
    assert_eq!((w.width, w.height), (50_000, 200_000));
}

#[test]
fn jump_cancels_fall_and_caps() {
    let mut g = Game::new();
    g.add_player(Player::new(1));
    g.start();
    g.update(DT);
    assert_eq!(g.birds[0].1.vy, -16_667);
    g.set_input(1, true);
    g.update(DT);
    let b = g.birds[0].1;
    // The downward component is cancelled and 30 * gravity * dt is added,
    // then clamped to 60 * gravity * dt.
    assert_eq!(b.vy, 30 * 16_667);
    assert!(!b.jump);
}

#[test]
fn collision_freezes_bird_for_good() {
    let mut g = Game::new();
    g.add_player(Player::new(1));
    g.start();
    // A wall parked on the spawn point.
    g.walls.push(Wall::new((205_000, 500_000), (0, 0), 50_000, 200_000));
    g.walls.push(Wall::new((900_000, 500_000), (0, 0), 50_000, 200_000));
    g.update(DT);
    let b = g.birds[0].1;
    assert!(!b.active);
    let frozen = (b.px, b.py, b.vx, b.vy);
    g.update(DT);
    let b2 = g.birds[0].1;
    assert!(!b2.active);
    assert_eq!((b2.px, b2.py, b2.vx, b2.vy), frozen);
}

#[test]
fn walls_scroll_and_are_culled_at_the_edge() {
    let mut g = Game::new();
    g.start();
    // After one step this wall sits at -203_333, past the cull line.
    g.walls.push(Wall::new((-195_000, 500_000), (-500_000, 0), 50_000, 200_000));
    g.walls.push(Wall::new((900_000, 100_000), (-500_000, 0), 50_000, 200_000));
    g.walls.push(Wall::new((900_000, 900_000), (-500_000, 0), 50_000, 200_000));
    g.update(DT);
    // The crossed wall is gone, the two survivors moved, count stays two:
    // no spawn.
    assert_eq!(g.walls.len(), 2);
    assert_eq!(g.walls[0].px, 900_000 - 8_333);
    assert_eq!(g.walls[0].py, 100_000);
    assert_eq!(g.walls[1].py, 900_000);
}

#[test]
fn spawn_restores_wall_supply() {
    let mut g = Game::new();
    g.start();
    g.walls.push(Wall::new((900_000, 100_000), (-500_000, 0), 50_000, 200_000));
    g.update(DT);
    assert_eq!(g.walls.len(), 2);
    let spawned = g.walls[1];
    assert!((1_200_000..1_500_000).contains(&spawned.px));
    assert!((0..1_000_000).contains(&spawned.py));
}

#[test]
fn falling_speed_stops_at_terminal_velocity() {
    let mut g = Game::new();
    g.add_player(Player::new(1));
    g.start();
    for _ in 0..100 {
        g.update(DT);
    }
    let b = g.birds[0].1;
    // vy loses gravity * dt per tick and is clamped at -1 unit per second.
    assert_eq!(b.vy, -1_000_000);
    assert!(b.active);
}
