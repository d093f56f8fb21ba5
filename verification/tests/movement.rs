//! Movement scenarios: free movement, stopping, and absolute blocking.
use std::collections::VecDeque;

use tick_sim::components::{
    CollisionBox, Direction, FlagForMovement, Gamestate, MovementCommand, Position, Velocity,
};
use tick_sim::geom::Point;
use tick_sim::physics::Physics;
use tick_sim::tick::run_tick;
use tick_sim::world::World;

fn add_player(world: &mut World, x: i32, y: i32) -> usize {
    let id = world.spawn();
    world.set_position(id, Some(Position(Point { x, y })));
    world.set_velocity(
        id,
        Some(Velocity {
            speed: 0,
            direction: VecDeque::new(),
        }),
    );
    world.set_collision_box(id, Some(CollisionBox { width: 26, height: 36 }));
    world.set_movement_flag(
        id,
        Some(FlagForMovement {
            moving: false,
            new_pos: Position(Point { x: 0, y: 0 }),
        }),
    );
    world.set_playable(id, true);
    world.set_keyboard_controlled(id, true);
    world.set_facing(id, Some(tick_sim::components::Facing { direction: Direction::Down }));
    id
}

fn add_obstacle(world: &mut World, x: i32, y: i32, w: u32, h: u32) -> usize {
    let id = world.spawn();
    world.set_position(id, Some(Position(Point { x, y })));
    world.set_collision_box(id, Some(CollisionBox { width: w, height: h }));
    world.set_unplayable(id, true);
    id
}

fn player_pos(world: &World, id: usize) -> (i32, i32) {
    let p = world.ents[id].position.unwrap().0;
    (p.x, p.y)
}

#[test]
fn move_right_three_ticks_then_stop() {
    let mut world = World::new();
    let player = add_player(&mut world, 0, 0);
    let mut state = Gamestate::Running;
    let mut dialogue = VecDeque::new();

    let mut commands = VecDeque::new();
    commands.push_back(MovementCommand::Move(Direction::Right));
    run_tick(&mut world, &mut commands, &None, &mut state, &mut dialogue, 7);
    assert_eq!(player_pos(&world, player), (5, 0));

    for _ in 0..2 {
        let mut commands = VecDeque::new();
        run_tick(&mut world, &mut commands, &None, &mut state, &mut dialogue, 7);
    }
    assert_eq!(player_pos(&world, player), (15, 0));

    let mut commands = VecDeque::new();
    commands.push_back(MovementCommand::Stop(Direction::Right));
    run_tick(&mut world, &mut commands, &None, &mut state, &mut dialogue, 7);
    assert_eq!(player_pos(&world, player), (15, 0));

    let mut commands = VecDeque::new();
    run_tick(&mut world, &mut commands, &None, &mut state, &mut dialogue, 7);
    assert_eq!(player_pos(&world, player), (15, 0));
}

#[test]
fn free_movement_displaces_speed_per_tick() {
    let mut world = World::new();
    let id = world.spawn();
    world.set_position(id, Some(Position(Point { x: 0, y: 0 })));
    let mut queue = VecDeque::new();
    queue.push_back(Direction::Up);
    world.set_velocity(id, Some(Velocity { speed: 3, direction: queue }));
    world.set_collision_box(id, Some(CollisionBox { width: 10, height: 10 }));
    world.set_movement_flag(
        id,
        Some(FlagForMovement {
            moving: false,
            new_pos: Position(Point { x: 0, y: 0 }),
        }),
    );

    Physics::run(&mut world);
    Physics::run(&mut world);
    let p = world.ents[id].position.unwrap().0;
    assert_eq!((p.x, p.y), (0, -6));
}

#[test]
fn adjacent_blocker_stops_movement_forever() {
    let mut world = World::new();
    let player = add_player(&mut world, 0, 0);
    add_obstacle(&mut world, 10, 0, 16, 16);

    let mut state = Gamestate::Running;
    let mut dialogue = VecDeque::new();
    let mut commands = VecDeque::new();
    commands.push_back(MovementCommand::Move(Direction::Right));
    run_tick(&mut world, &mut commands, &None, &mut state, &mut dialogue, 7);
    for _ in 0..5 {
        let mut commands = VecDeque::new();
        run_tick(&mut world, &mut commands, &None, &mut state, &mut dialogue, 7);
    }
    assert_eq!(player_pos(&world, player), (0, 0));
}

#[test]
fn stop_removes_all_occurrences_and_faces_front() {
    let mut world = World::new();
    let player = add_player(&mut world, 0, 0);
    let mut state = Gamestate::Running;
    let mut dialogue = VecDeque::new();
    let mut commands = VecDeque::new();
    commands.push_back(MovementCommand::Move(Direction::Right));
    commands.push_back(MovementCommand::Move(Direction::Up));
    commands.push_back(MovementCommand::Move(Direction::Right));
    commands.push_back(MovementCommand::Stop(Direction::Right));
    tick_sim::keyboard::Keyboard::run(&mut world, &mut commands, &None, &mut state, &mut dialogue);
    let v = world.ents[player].velocity.as_ref().unwrap();
    assert_eq!(v.direction.len(), 1);
    assert_eq!(v.direction[0], Direction::Up);
    assert_eq!(v.speed, 5);
    assert_eq!(
        world.ents[player].facing.as_ref().unwrap().direction,
        Direction::Up
    );
}

#[test]
fn movement_intents_ignored_while_paused() {
    let mut world = World::new();
    let player = add_player(&mut world, 0, 0);
    let mut state = Gamestate::Pause;
    let mut dialogue = VecDeque::new();
    let mut commands = VecDeque::new();
    commands.push_back(MovementCommand::Move(Direction::Right));
    run_tick(&mut world, &mut commands, &None, &mut state, &mut dialogue, 7);
    assert_eq!(player_pos(&world, player), (0, 0));
    assert_eq!(commands.len(), 1);
    assert_eq!(state, Gamestate::Pause);
}
