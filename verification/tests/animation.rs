//! Animation: walk cycles wrap around, object animations clamp at the
//! last frame, and the dialogue state freezes the world.
use std::collections::VecDeque;

use tick_sim::animator::Animator;
use tick_sim::components::{
    Direction, EntityAnimation, Gamestate, Interactable, InteractableType, MovementAnimation,
    MovementCommand, Position, Sprite, Velocity,
};
use tick_sim::geom::{Point, Rect};
use tick_sim::tick::run_tick;
use tick_sim::world::World;

fn frame(spritesheet: usize, x: i32) -> Sprite {
    Sprite {
        spritesheet,
        region: Rect { x, y: 0, w: 16, h: 16 },
    }
}

#[test]
fn walk_cycle_advances_modulo_its_length() {
    let mut world = World::new();
    let id = world.spawn();
    let mut queue = VecDeque::new();
    queue.push_back(Direction::Left);
    world.set_velocity(id, Some(Velocity { speed: 1, direction: queue }));
    world.set_sprite(id, Some(frame(0, -1)));
    world.set_movement_animation(
        id,
        Some(MovementAnimation {
            current_frame: 0,
            up_frames: vec![frame(0, 0), frame(0, 1), frame(0, 2)],
            right_frames: vec![frame(1, 0), frame(1, 1), frame(1, 2)],
            down_frames: vec![frame(2, 0), frame(2, 1), frame(2, 2)],
            left_frames: vec![frame(3, 0), frame(3, 1), frame(3, 2)],
        }),
    );

    let expected = [1usize, 2, 0, 1];
    for e in expected {
        Animator::run(&mut world);
        let a = world.ents[id].movement_animation.as_ref().unwrap();
        assert_eq!(a.current_frame, e);
        assert_eq!(world.ents[id].sprite.unwrap(), frame(3, e as i32));
    }
}

#[test]
fn idle_entities_do_not_animate() {
    let mut world = World::new();
    let id = world.spawn();
    world.set_velocity(
        id,
        Some(Velocity {
            speed: 1,
            direction: VecDeque::new(),
        }),
    );
    world.set_sprite(id, Some(frame(0, -1)));
    world.set_movement_animation(
        id,
        Some(MovementAnimation {
            current_frame: 0,
            up_frames: vec![frame(0, 0)],
            right_frames: vec![frame(1, 0)],
            down_frames: vec![frame(2, 0)],
            left_frames: vec![frame(3, 0)],
        }),
    );
    Animator::run(&mut world);
    assert_eq!(
        world.ents[id].movement_animation.as_ref().unwrap().current_frame,
        0
    );
    assert_eq!(world.ents[id].sprite.unwrap(), frame(0, -1));
}

#[test]
fn object_animation_clamps_at_the_last_frame() {
    let mut world = World::new();
    let id = world.spawn();
    world.set_sprite(id, Some(frame(0, -1)));
    world.set_interactable(
        id,
        Some(Interactable {
            interactions: 1,
            max_interactions: 1,
            interaction_type: InteractableType::Chest,
        }),
    );
    world.set_entity_animation(
        id,
        Some(EntityAnimation {
            current_frame: 0,
            frames: vec![frame(0, 0), frame(0, 1), frame(0, 2)],
        }),
    );

    for e in [1usize, 2, 2, 2] {
        Animator::run(&mut world);
        assert_eq!(
            world.ents[id].entity_animation.as_ref().unwrap().current_frame,
            e
        );
        // the shown frame is the advanced one, clamped at the end
        assert_eq!(world.ents[id].sprite.unwrap(), frame(0, e as i32));
    }
}

#[test]
fn closed_chest_does_not_animate() {
    let mut world = World::new();
    let id = world.spawn();
    world.set_sprite(id, Some(frame(0, -1)));
    world.set_interactable(
        id,
        Some(Interactable {
            interactions: 0,
            max_interactions: 1,
            interaction_type: InteractableType::Chest,
        }),
    );
    world.set_entity_animation(
        id,
        Some(EntityAnimation {
            current_frame: 0,
            frames: vec![frame(0, 0), frame(0, 1)],
        }),
    );
    Animator::run(&mut world);
    assert_eq!(
        world.ents[id].entity_animation.as_ref().unwrap().current_frame,
        0
    );
    assert_eq!(world.ents[id].sprite.unwrap(), frame(0, -1));
}

#[test]
fn dialogue_state_freezes_movement() {
    let mut world = World::new();
    let id = world.spawn();
    world.set_position(id, Some(Position(Point { x: 0, y: 0 })));
    let mut queue = VecDeque::new();
    queue.push_back(Direction::Right);
    world.set_velocity(id, Some(Velocity { speed: 5, direction: queue }));
    world.set_collision_box(
        id,
        Some(tick_sim::components::CollisionBox { width: 8, height: 8 }),
    );
    world.set_movement_flag(
        id,
        Some(tick_sim::components::FlagForMovement {
            moving: false,
            new_pos: Position(Point { x: 0, y: 0 }),
        }),
    );
    world.set_keyboard_controlled(id, true);

    let mut state = Gamestate::Dialogue;
    let mut dialogue = VecDeque::new();
    let mut commands = VecDeque::new();
    commands.push_back(MovementCommand::Move(Direction::Right));
    tick_sim::keyboard::Keyboard::run(&mut world, &mut commands, &None, &mut state, &mut dialogue);
    // the intent queue is left untouched and no velocity was changed
    assert_eq!(commands.len(), 1);
    assert_eq!(world.ents[id].velocity.as_ref().unwrap().speed, 5);
    assert_eq!(state, Gamestate::Dialogue);

    // a full tick still resolves motion for the queued direction, but
    // issues no new intents while the dialogue is up
    let mut commands = VecDeque::new();
    run_tick(&mut world, &mut commands, &None, &mut state, &mut dialogue, 7);
    let p = world.ents[id].position.unwrap().0;
    assert_eq!((p.x, p.y), (5, 0));
}
