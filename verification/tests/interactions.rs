//! Interaction scenarios: counters against their maximum, the chest
//! one-shot, and the interaction zone's orientation.
use std::collections::VecDeque;

use tick_sim::components::{
    CollisionBox, Direction, Facing, Gamestate, Interactable, InteractableType, InteractionZone,
    PlayerCommands, Position,
};
use tick_sim::geom::{Point, Rect};
use tick_sim::keyboard::Keyboard;
use tick_sim::update_interaction::IZUpdater;
use tick_sim::world::World;

fn add_prober(world: &mut World, x: i32, y: i32) -> usize {
    let id = world.spawn();
    world.set_position(id, Some(Position(Point { x, y })));
    world.set_collision_box(id, Some(CollisionBox { width: 26, height: 36 }));
    world.set_facing(id, Some(Facing { direction: Direction::Down }));
    world.set_interaction_zone(
        id,
        Some(InteractionZone {
            rect: Rect { x: 0, y: 0, w: 50, h: 80 },
            flipped: false,
        }),
    );
    id
}

fn add_chest(world: &mut World, x: i32, y: i32, max: i64) -> usize {
    let id = world.spawn();
    world.set_position(id, Some(Position(Point { x, y })));
    world.set_interactable(
        id,
        Some(Interactable {
            interactions: 0,
            max_interactions: max,
            interaction_type: InteractableType::Chest,
        }),
    );
    world.set_unplayable(id, true);
    id
}

fn counter(world: &World, id: usize) -> i64 {
    world.ents[id].interactable.as_ref().unwrap().interactions
}

#[test]
fn chest_opens_once_and_only_once() {
    let mut world = World::new();
    let prober = add_prober(&mut world, 0, 0);
    let chest = add_chest(&mut world, 10, 10, 1);
    let mut state = Gamestate::Running;
    let mut dialogue = VecDeque::new();
    let zone_before = world.ents[prober].interaction_zone.unwrap();

    let mut commands = VecDeque::new();
    Keyboard::run(
        &mut world,
        &mut commands,
        &Some(PlayerCommands::Interact),
        &mut state,
        &mut dialogue,
    );
    assert_eq!(counter(&world, chest), 1);
    assert_eq!(world.ents[prober].interaction_zone.unwrap(), zone_before);

    let mut commands = VecDeque::new();
    Keyboard::run(
        &mut world,
        &mut commands,
        &Some(PlayerCommands::Interact),
        &mut state,
        &mut dialogue,
    );
    assert_eq!(counter(&world, chest), 1);
}

#[test]
fn unlimited_counter_grows_with_each_interaction() {
    let mut world = World::new();
    add_prober(&mut world, 0, 0);
    let lever = {
        let id = add_chest(&mut world, 10, 10, 0);
        let mut it = world.ents[id].interactable.unwrap();
        it.interaction_type = InteractableType::Lever;
        world.set_interactable(id, Some(it));
        id
    };
    let mut state = Gamestate::Running;
    let mut dialogue = VecDeque::new();
    for _ in 0..5 {
        let mut commands = VecDeque::new();
        Keyboard::run(
            &mut world,
            &mut commands,
            &Some(PlayerCommands::Interact),
            &mut state,
            &mut dialogue,
        );
    }
    assert_eq!(counter(&world, lever), 5);
}

#[test]
fn counter_never_exceeds_positive_max() {
    let mut it = Interactable {
        interactions: 0,
        max_interactions: 3,
        interaction_type: InteractableType::Pickup,
    };
    for _ in 0..7 {
        it.interact();
        assert!(it.interactions <= 3);
    }
    assert_eq!(it.interactions, 3);
}

#[test]
fn object_outside_probe_is_not_engaged() {
    let mut world = World::new();
    add_prober(&mut world, 0, 0);
    let chest = add_chest(&mut world, 200, 200, 1);
    let mut state = Gamestate::Running;
    let mut dialogue = VecDeque::new();
    let mut commands = VecDeque::new();
    Keyboard::run(
        &mut world,
        &mut commands,
        &Some(PlayerCommands::Interact),
        &mut state,
        &mut dialogue,
    );
    assert_eq!(counter(&world, chest), 0);
}

#[test]
fn menu_command_switches_state() {
    let mut world = World::new();
    let mut state = Gamestate::Running;
    let mut dialogue = VecDeque::new();
    let mut commands = VecDeque::new();
    Keyboard::run(
        &mut world,
        &mut commands,
        &Some(PlayerCommands::Menu),
        &mut state,
        &mut dialogue,
    );
    assert_eq!(state, Gamestate::Menu);
}

#[test]
fn zone_flips_to_follow_facing() {
    let mut world = World::new();
    let prober = add_prober(&mut world, 0, 0);
    world.set_facing(prober, Some(Facing { direction: Direction::Right }));
    IZUpdater::run(&mut world);
    let z = world.ents[prober].interaction_zone.unwrap();
    assert!(z.flipped);
    assert_eq!((z.rect.w, z.rect.h), (80, 50));
    assert!(z.rect.w > z.rect.h);
    // centered at ((26 + 80) / 2, 0) = (53, 0): corner (53 - 40, 0 - 25)
    assert_eq!((z.rect.x, z.rect.y), (13, -25));

    world.set_facing(prober, Some(Facing { direction: Direction::Up }));
    IZUpdater::run(&mut world);
    let z = world.ents[prober].interaction_zone.unwrap();
    assert!(!z.flipped);
    assert_eq!((z.rect.w, z.rect.h), (50, 80));
    assert!(z.rect.w < z.rect.h);
    // centered at (0, -(36 + 80) / 2) = (0, -58): corner (-25, -98)
    assert_eq!((z.rect.x, z.rect.y), (-25, -98));
}

#[test]
fn zone_flip_is_self_inverse() {
    let mut z = InteractionZone {
        rect: Rect { x: 3, y: 4, w: 50, h: 80 },
        flipped: false,
    };
    let orig = z;
    z.flip();
    assert_eq!((z.rect.w, z.rect.h), (80, 50));
    assert!(z.flipped);
    z.flip();
    assert_eq!(z, orig);
}

#[test]
fn collision_box_flip_swaps_extents() {
    let mut c = CollisionBox { width: 26, height: 36 };
    c.flip();
    assert_eq!((c.width, c.height), (36, 26));
    c.flip();
    assert_eq!((c.width, c.height), (26, 36));
}
