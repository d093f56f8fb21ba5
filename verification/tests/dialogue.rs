//! Dialogue: script parsing, entering the dialogue state, and draining
//! the queue with interact commands.
use std::collections::VecDeque;

use tick_sim::components::{
    CollisionBox, Dialogue, Direction, Facing, Gamestate, Interactable, InteractableType,
    InteractionZone, PlayerCommands, Position, Sprite,
};
use tick_sim::dialoguebox::{enter_dialogue, parse_dialogue};
use tick_sim::geom::{Point, Rect};
use tick_sim::keyboard::Keyboard;
use tick_sim::world::World;

#[test]
fn parses_one_record() {
    let script = b"bob: \"Bob\", says\nHello there\n";
    let records = parse_dialogue(script);
    assert_eq!(records.len(), 1);
    assert_eq!(records[0].speaker_name, b"Bob".to_vec());
    assert_eq!(records[0].dialogue_text, b"Hello there".to_vec());
}

#[test]
fn parses_records_in_order_and_skips_malformed_lines() {
    let script = b"noise\n: \"Ann\", intro\nFirst line\njunk without pattern\n: \"Ben\", reply\nSecond line\n";
    let records = parse_dialogue(script);
    assert_eq!(records.len(), 2);
    assert_eq!(records[0].speaker_name, b"Ann".to_vec());
    assert_eq!(records[0].dialogue_text, b"First line".to_vec());
    assert_eq!(records[1].speaker_name, b"Ben".to_vec());
    assert_eq!(records[1].dialogue_text, b"Second line".to_vec());
}

#[test]
fn speaker_runs_to_the_last_delimiter_on_the_line() {
    // two quote-comma-space delimiters: the speaker takes everything up
    // to the last one that still leaves a discard before the line break
    let records = parse_dialogue(b": \"A\", b\", c\nText\n");
    assert_eq!(records.len(), 1);
    assert_eq!(records[0].speaker_name, b"A\", b".to_vec());
    assert_eq!(records[0].dialogue_text, b"Text".to_vec());
}

#[test]
fn malformed_script_yields_no_records() {
    assert_eq!(parse_dialogue(b"just some text\nwith no pattern\n").len(), 0);
    assert_eq!(parse_dialogue(b"").len(), 0);
    // a header with an empty text line after it yields nothing
    assert_eq!(parse_dialogue(b": \"Ann\", x\n\nlater\n").len(), 0);
    // a header as the very last line yields nothing
    assert_eq!(parse_dialogue(b": \"Ann\", x").len(), 0);
}

#[test]
fn empty_parse_leaves_game_running() {
    let mut state = Gamestate::Running;
    let mut queue = VecDeque::new();
    let records = parse_dialogue(b"nothing here\n");
    let count = enter_dialogue(&mut state, &mut queue, records);
    assert_eq!(count, 0);
    assert_eq!(state, Gamestate::Running);
    assert_eq!(queue.len(), 0);
}

#[test]
fn queue_of_k_entries_drains_in_exactly_k_interacts() {
    let script = b": \"Ann\", a\nOne\n: \"Ben\", b\nTwo\n: \"Cay\", c\nThree\n";
    let records = parse_dialogue(script);
    assert_eq!(records.len(), 3);

    let mut state = Gamestate::Running;
    let mut queue = VecDeque::new();
    enter_dialogue(&mut state, &mut queue, records);
    assert_eq!(state, Gamestate::Dialogue);
    assert_eq!(queue.len(), 3);

    let mut world = World::new();
    for expected_left in [2usize, 1, 0] {
        let mut commands = VecDeque::new();
        Keyboard::run(
            &mut world,
            &mut commands,
            &Some(PlayerCommands::Interact),
            &mut state,
            &mut queue,
        );
        assert_eq!(queue.len(), expected_left);
        if expected_left > 0 {
            assert_eq!(state, Gamestate::Dialogue);
        } else {
            assert_eq!(state, Gamestate::Running);
        }
    }
}

#[test]
fn character_in_probe_requests_its_script() {
    let mut world = World::new();
    let prober = world.spawn();
    world.set_position(prober, Some(Position(Point { x: 0, y: 0 })));
    world.set_collision_box(prober, Some(CollisionBox { width: 26, height: 36 }));
    world.set_facing(prober, Some(Facing { direction: Direction::Down }));
    world.set_interaction_zone(
        prober,
        Some(InteractionZone {
            rect: Rect { x: 0, y: 0, w: 50, h: 80 },
            flipped: false,
        }),
    );

    let npc = world.spawn();
    world.set_position(npc, Some(Position(Point { x: 20, y: 20 })));
    world.set_interactable(
        npc,
        Some(Interactable {
            interactions: 0,
            max_interactions: 0,
            interaction_type: InteractableType::Character,
        }),
    );
    world.set_dialogue(
        npc,
        Some(Dialogue {
            sprite: Sprite {
                spritesheet: 4,
                region: Rect { x: 0, y: 0, w: 800, h: 200 },
            },
            dialogue_file: String::from("assets/test_dialogue.txt"),
            show: false,
        }),
    );

    let mut state = Gamestate::Running;
    let mut queue = VecDeque::new();
    let mut commands = VecDeque::new();
    let requests = Keyboard::run(
        &mut world,
        &mut commands,
        &Some(PlayerCommands::Interact),
        &mut state,
        &mut queue,
    );
    assert_eq!(requests.len(), 1);
    assert_eq!(requests[0], "assets/test_dialogue.txt");
    // conversing does not advance the character's counter
    assert_eq!(world.ents[npc].interactable.as_ref().unwrap().interactions, 0);
    // the state changes only once the loaded script has entered the queue
    assert_eq!(state, Gamestate::Running);
    let records = parse_dialogue(b": \"Reaper\", grim\nWelcome\n");
    enter_dialogue(&mut state, &mut queue, records);
    assert_eq!(state, Gamestate::Dialogue);
    assert_eq!(queue.front().unwrap().dialogue_text, b"Welcome".to_vec());
}
