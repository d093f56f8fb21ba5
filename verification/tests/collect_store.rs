//! The proximity collector, the deferred deletion protocol, and the
//! geometry tests the systems are built on.
use std::collections::VecDeque;

use tick_sim::collectibles::Collectibles;
use tick_sim::collisions::Collisions;
use tick_sim::components::{CollisionBox, Gamestate, Position, Velocity};
use tick_sim::geom::{Point, Rect};
use tick_sim::randomwalker::RandomWalker;
use tick_sim::tick::run_tick;
use tick_sim::world::World;

fn add_body(world: &mut World, x: i32, y: i32, w: u32, h: u32) -> usize {
    let id = world.spawn();
    world.set_position(id, Some(Position(Point { x, y })));
    world.set_collision_box(id, Some(CollisionBox { width: w, height: h }));
    id
}

#[test]
fn overlapping_collectible_is_gone_by_the_tick_boundary() {
    let mut world = World::new();
    let player = add_body(&mut world, 0, 0, 26, 36);
    world.set_playable(player, true);
    let fruit = add_body(&mut world, 5, 5, 16, 16);
    world.set_collectible(fruit, true);
    world.set_unplayable(fruit, true);

    let mut state = Gamestate::Running;
    let mut dialogue = VecDeque::new();
    let mut commands = VecDeque::new();
    run_tick(&mut world, &mut commands, &None, &mut state, &mut dialogue, 7);

    assert!(!world.ents[fruit].alive);
    assert!(world.ents[fruit].position.is_none());
    assert!(world.ents[fruit].collision_box.is_none());
    assert!(!world.ents[fruit].collectible);

    let mut commands = VecDeque::new();
    run_tick(&mut world, &mut commands, &None, &mut state, &mut dialogue, 7);
    assert!(!world.ents[fruit].alive);
    assert!(world.ents[fruit].position.is_none());
}

#[test]
fn distant_collectible_stays() {
    let mut world = World::new();
    let player = add_body(&mut world, 0, 0, 26, 36);
    world.set_playable(player, true);
    let fruit = add_body(&mut world, 500, 500, 16, 16);
    world.set_collectible(fruit, true);

    Collectibles::run(&mut world);
    world.maintain();
    assert!(world.ents[fruit].alive);
    assert!(world.ents[fruit].position.is_some());
}

#[test]
fn deleting_twice_is_a_no_op() {
    let mut world = World::new();
    let id = add_body(&mut world, 0, 0, 8, 8);
    world.delete(id);
    world.maintain();
    assert!(!world.ents[id].alive);
    world.delete(id);
    world.maintain();
    assert!(!world.ents[id].alive);
    assert_eq!(world.len(), 1);
}

#[test]
fn guard_zeroes_speed_on_overlap_but_keeps_the_queue() {
    let mut world = World::new();
    let player = add_body(&mut world, 0, 0, 26, 36);
    world.set_keyboard_controlled(player, true);
    let mut queue = VecDeque::new();
    queue.push_back(tick_sim::components::Direction::Right);
    world.set_velocity(player, Some(Velocity { speed: 5, direction: queue }));
    add_body(&mut world, 5, 5, 16, 16);

    Collisions::run(&mut world);
    let v = world.ents[player].velocity.as_ref().unwrap();
    assert_eq!(v.speed, 0);
    assert_eq!(v.direction.len(), 1);
}

#[test]
fn guard_leaves_clear_movers_alone() {
    let mut world = World::new();
    let player = add_body(&mut world, 0, 0, 26, 36);
    world.set_keyboard_controlled(player, true);
    world.set_velocity(player, Some(Velocity { speed: 5, direction: VecDeque::new() }));
    add_body(&mut world, 500, 500, 16, 16);

    Collisions::run(&mut world);
    assert_eq!(world.ents[player].velocity.as_ref().unwrap().speed, 5);
}

#[test]
fn walker_is_quiet_off_the_cadence() {
    let mut world = World::new();
    let npc = world.spawn();
    world.set_npc_walker(npc, true);
    world.set_velocity(
        npc,
        Some(Velocity {
            speed: 0,
            direction: VecDeque::new(),
        }),
    );
    RandomWalker::run(&mut world, 49);
    assert_eq!(world.ents[npc].velocity.as_ref().unwrap().direction.len(), 0);
}

#[test]
fn walker_pushes_at_most_one_direction_per_tick() {
    let mut world = World::new();
    let npc = world.spawn();
    world.set_npc_walker(npc, true);
    world.set_velocity(
        npc,
        Some(Velocity {
            speed: 2,
            direction: VecDeque::new(),
        }),
    );
    for round in 1..=10u64 {
        RandomWalker::run(&mut world, 0);
        let v = world.ents[npc].velocity.as_ref().unwrap();
        assert!(v.direction.len() <= round as usize);
        assert_eq!(v.speed, 2);
    }
}

#[test]
fn rect_geometry_matches_the_cell_model() {
    let r = Rect::from_center(Point { x: 10, y: 0 }, 16, 16);
    assert_eq!((r.x, r.y, r.w, r.h), (2, -8, 16, 16));
    assert!(r.contains_point(Point { x: 2, y: 0 }));
    assert!(r.contains_point(Point { x: 17, y: 7 }));
    assert!(!r.contains_point(Point { x: 18, y: 0 }));

    let other = Rect::from_center(Point { x: 0, y: 0 }, 26, 36);
    assert!(r.has_intersection(&other));
    let far = Rect::from_center(Point { x: 100, y: 100 }, 4, 4);
    assert!(!r.has_intersection(&far));

    // an axis-aligned sweep into the box touches it; a parallel sweep
    // beside it does not
    assert!(tick_sim::geom::segment_hits_rect(
        Point { x: 0, y: 0 },
        Point { x: 5, y: 0 },
        &r
    ));
    assert!(!tick_sim::geom::segment_hits_rect(
        Point { x: 0, y: 20 },
        Point { x: 5, y: 20 },
        &r
    ));
    // a zero-area box blocks nothing
    let empty = Rect { x: 0, y: 0, w: 0, h: 16 };
    assert!(!tick_sim::geom::segment_hits_rect(
        Point { x: -5, y: 0 },
        Point { x: 5, y: 0 },
        &empty
    ));
}
