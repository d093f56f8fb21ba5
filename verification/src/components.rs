//! The component types an entity can carry, the two process-wide states
//! (game state and dialogue queue entries), and the input commands.
//!
//! Components that own growable data (`Vec`, `VecDeque`, `String`) get a
//! ghost model type as their mathematical view, so that system contracts
//! can be stated as plain functions over constructible values.
use vstd::prelude::*;

use crate::geom::{Point, Rect};

verus! {

/// A movement direction; also the facing of an entity.
#[derive(Clone, Copy, Debug, PartialEq, Eq, Structural)]
pub enum Direction {
    Right,
    Down,
    Left,
    Up,
}

impl Default for Direction {
    fn default() -> (d: Self)
        ensures
            d == Direction::Down,
    {
        Direction::Down
    }
}

/// A size class for dialogue backgrounds.
#[derive(Clone, Copy, Debug, PartialEq, Eq, Structural)]
pub enum Size3 {
    Small,
    Medium,
    Large,
}

impl Default for Size3 {
    fn default() -> (s: Self)
        ensures
            s == Size3::Small,
    {
        Size3::Small
    }
}

/// What an interactable entity is, deciding the effect of an interaction.
#[derive(Clone, Copy, Debug, PartialEq, Eq, Structural)]
pub enum InteractableType {
    Chest,
    Pickup,
    DestroyedOnUse,
    Character,
    Lever,
}

/// The single process-wide mode that gates which systems act on input.
#[derive(Clone, Copy, Debug, PartialEq, Eq, Structural)]
pub enum Gamestate {
    Running,
    Pause,
    Menu,
    Dialogue,
}

/// A movement intent from the input layer.
#[derive(Clone, Copy, Debug, PartialEq, Eq, Structural)]
pub enum MovementCommand {
    Stop(Direction),
    Move(Direction),
}

/// A high-level command from the input layer.
#[derive(Clone, Copy, Debug, PartialEq, Eq, Structural)]
pub enum PlayerCommands {
    Interact,
    Menu,
}

/// World-space location of an entity.
#[derive(Clone, Copy, Debug, PartialEq, Eq, Structural)]
pub struct Position(pub Point);

impl Default for Position {
    fn default() -> (p: Self)
        ensures
            p == Position(Point { x: 0, y: 0 }),
    {
        Position(Point { x: 0, y: 0 })
    }
}

/// Speed scalar plus the ordered queue of pending directions; only the
/// front of the queue is the active direction in a tick.
#[derive(Debug)]
pub struct Velocity {
    pub speed: i32,
    pub direction: std::collections::VecDeque<Direction>,
}

/// Mathematical view of a `Velocity`.
pub ghost struct VelM {
    pub speed: int,
    pub dirs: Seq<Direction>,
}

impl View for Velocity {
    type V = VelM;

    open spec fn view(&self) -> VelM {
        VelM { speed: self.speed as int, dirs: self.direction@ }
    }
}

impl Default for Velocity {
    fn default() -> (v: Self)
        ensures
            v@.speed == 0,
            v@.dirs === Seq::<Direction>::empty(),
    {
        Velocity { speed: 0, direction: std::collections::VecDeque::new() }
    }
}

/// The direction an entity currently faces.
#[derive(Clone, Copy, Debug, PartialEq, Eq, Structural)]
pub struct Facing {
    pub direction: Direction,
}

impl Default for Facing {
    fn default() -> (f: Self)
        ensures
            f == (Facing { direction: Direction::Down }),
    {
        Facing { direction: Direction::Down }
    }
}

/// Axis-aligned collision extent of an entity; the position is its center.
#[derive(Clone, Copy, Debug, PartialEq, Eq, Structural)]
pub struct CollisionBox {
    pub width: u32,
    pub height: u32,
}

/// A collision box with width and height exchanged.
pub open spec fn flip_box(c: CollisionBox) -> CollisionBox {
    CollisionBox { width: c.height, height: c.width }
}

impl CollisionBox {
    /// Exchange width and height.
    pub fn flip(&mut self)
        ensures
            *final(self) == flip_box(*old(self)),
    {
        let w = self.width;
        let h = self.height;
        self.height = w;
        self.width = h;
    }
}

impl Default for CollisionBox {
    fn default() -> (c: Self)
        ensures
            c == (CollisionBox { width: 0, height: 0 }),
    {
        CollisionBox { width: 0, height: 0 }
    }
}

/// The double-buffered movement commit: a staged target position and
/// whether it should be applied at the end of the tick.
#[derive(Clone, Copy, Debug, PartialEq, Eq, Structural)]
pub struct FlagForMovement {
    pub moving: bool,
    pub new_pos: Position,
}

impl Default for FlagForMovement {
    fn default() -> (f: Self)
        ensures
            f == (FlagForMovement { moving: false, new_pos: Position(Point { x: 0, y: 0 }) }),
    {
        FlagForMovement { moving: false, new_pos: Position(Point { x: 0, y: 0 }) }
    }
}

/// The counter after one successful interaction attempt: it advances
/// unless the maximum is positive and already reached.
pub open spec fn interact_step(count: int, max: int) -> int {
    if max > count || max == 0 {
        count + 1
    } else {
        count
    }
}

/// The counter after `n` interaction attempts.
pub open spec fn interact_steps(count: int, max: int, n: nat) -> int
    decreases n,
{
    if n == 0 {
        count
    } else {
        interact_step(interact_steps(count, max, (n - 1) as nat), max)
    }
}

/// With a positive maximum, the interaction counter never passes it,
/// however many interactions are attempted.
pub proof fn lemma_interact_counter_capped(count: int, max: int, n: nat)
    requires
        0 <= count <= max,
        0 < max,
    ensures
        count <= interact_steps(count, max, n) <= max,
    decreases n,
{
    if n > 0 {
        lemma_interact_counter_capped(count, max, (n - 1) as nat);
    }
}

/// With a maximum of zero the counter is unbounded: every attempt
/// advances it by one.
pub proof fn lemma_interact_counter_unbounded(count: int, n: nat)
    ensures
        interact_steps(count, 0, n) == count + n,
    decreases n,
{
    if n > 0 {
        lemma_interact_counter_unbounded(count, (n - 1) as nat);
    }
}

/// An entity that reacts to the interaction probe: a counter of performed
/// interactions, the maximum allowed (zero meaning unlimited), and the
/// kind deciding the effect.
#[derive(Clone, Copy, Debug, PartialEq, Eq, Structural)]
pub struct Interactable {
    pub interactions: i64,
    pub max_interactions: i64,
    pub interaction_type: InteractableType,
}

impl Interactable {
    /// Record one interaction attempt: advance the counter unless the
    /// maximum is positive and already reached. With a positive maximum
    /// the counter stays below it, so only the unlimited case needs
    /// headroom for the increment.
    pub fn interact(&mut self)
        requires
            old(self).max_interactions == 0 ==> old(self).interactions < i64::MAX,
        ensures
            final(self).interactions == interact_step(
                old(self).interactions as int,
                old(self).max_interactions as int,
            ),
            final(self).max_interactions == old(self).max_interactions,
            final(self).interaction_type == old(self).interaction_type,
    {
        if self.max_interactions > self.interactions || self.max_interactions == 0 {
            self.interactions = self.interactions + 1;
        }
    }
}

impl Default for Interactable {
    fn default() -> (i: Self)
        ensures
            i == (Interactable {
                interactions: 0,
                max_interactions: 1,
                interaction_type: InteractableType::DestroyedOnUse,
            }),
    {
        Interactable {
            interactions: 0,
            max_interactions: 1,
            interaction_type: InteractableType::DestroyedOnUse,
        }
    }
}

/// The directional probe attached to the player: a rectangle plus a flag
/// recording whether its width and height are currently exchanged.
#[derive(Clone, Copy, Debug, PartialEq, Eq, Structural)]
pub struct InteractionZone {
    pub rect: Rect,
    pub flipped: bool,
}

/// A zone with width and height exchanged and the orientation flag toggled.
pub open spec fn flip_zone(z: InteractionZone) -> InteractionZone {
    InteractionZone {
        rect: Rect { x: z.rect.x, y: z.rect.y, w: z.rect.h, h: z.rect.w },
        flipped: !z.flipped,
    }
}

/// Flipping a zone twice restores it exactly: same corner, same width and
/// height, same orientation flag.
pub proof fn lemma_flip_zone_involution(z: InteractionZone)
    ensures
        flip_zone(flip_zone(z)) == z,
{
}

impl InteractionZone {
    /// Exchange the probe's width and height and toggle its flag, keeping
    /// the top-left corner.
    pub fn flip(&mut self)
        ensures
            *final(self) == flip_zone(*old(self)),
    {
        let w = self.rect.w;
        let h = self.rect.h;
        self.rect.h = w;
        self.rect.w = h;
        self.flipped = !self.flipped;
    }
}

impl Default for InteractionZone {
    fn default() -> (z: Self)
        ensures
            z == (InteractionZone { rect: Rect { x: 0, y: 0, w: 50, h: 80 }, flipped: false }),
    {
        InteractionZone { rect: Rect { x: 0, y: 0, w: 50, h: 80 }, flipped: false }
    }
}

/// A spritesheet index and the source rectangle to blit from it.
#[derive(Clone, Copy, Debug, PartialEq, Eq, Structural)]
pub struct Sprite {
    pub spritesheet: usize,
    pub region: Rect,
}

/// Per-direction walk cycles and the index of the frame now showing.
#[derive(Debug)]
pub struct MovementAnimation {
    pub current_frame: usize,
    pub up_frames: Vec<Sprite>,
    pub right_frames: Vec<Sprite>,
    pub down_frames: Vec<Sprite>,
    pub left_frames: Vec<Sprite>,
}

/// Mathematical view of a `MovementAnimation`.
pub ghost struct MoveAnimM {
    pub current_frame: nat,
    pub up_frames: Seq<Sprite>,
    pub right_frames: Seq<Sprite>,
    pub down_frames: Seq<Sprite>,
    pub left_frames: Seq<Sprite>,
}

impl View for MovementAnimation {
    type V = MoveAnimM;

    open spec fn view(&self) -> MoveAnimM {
        MoveAnimM {
            current_frame: self.current_frame as nat,
            up_frames: self.up_frames@,
            right_frames: self.right_frames@,
            down_frames: self.down_frames@,
            left_frames: self.left_frames@,
        }
    }
}

/// A single frame sequence, advanced while an interaction counter is
/// positive and clamped at the last frame.
#[derive(Debug)]
pub struct EntityAnimation {
    pub current_frame: usize,
    pub frames: Vec<Sprite>,
}

/// Mathematical view of an `EntityAnimation`.
pub ghost struct EntAnimM {
    pub current_frame: nat,
    pub frames: Seq<Sprite>,
}

impl View for EntityAnimation {
    type V = EntAnimM;

    open spec fn view(&self) -> EntAnimM {
        EntAnimM { current_frame: self.current_frame as nat, frames: self.frames@ }
    }
}

impl Default for EntityAnimation {
    fn default() -> (a: Self)
        ensures
            a@.current_frame == 0,
            a@.frames === Seq::<Sprite>::empty(),
    {
        EntityAnimation { current_frame: 0, frames: Vec::new() }
    }
}

/// A dialogue script attached to an entity: the file holding the script,
/// the backdrop sprite, and whether the box is showing.
#[derive(Debug)]
pub struct Dialogue {
    pub sprite: Sprite,
    pub dialogue_file: String,
    pub show: bool,
}

/// Mathematical view of a `Dialogue`.
pub ghost struct DialogueM {
    pub sprite: Sprite,
    pub dialogue_file: Seq<char>,
    pub show: bool,
}

impl View for Dialogue {
    type V = DialogueM;

    open spec fn view(&self) -> DialogueM {
        DialogueM { sprite: self.sprite, dialogue_file: self.dialogue_file@, show: self.show }
    }
}

/// One parsed dialogue entry: who speaks and what is said, as bytes of
/// the script, plus the backdrop size class.
#[allow(non_camel_case_types)]
#[derive(Debug)]
pub struct Dialogue_Single_item {
    pub speaker_name: Vec<u8>,
    pub dialogue_text: Vec<u8>,
    pub background_size: Size3,
}

/// Mathematical view of a `Dialogue_Single_item`.
pub ghost struct DialogueItemM {
    pub speaker_name: Seq<u8>,
    pub dialogue_text: Seq<u8>,
    pub background_size: Size3,
}

impl View for Dialogue_Single_item {
    type V = DialogueItemM;

    open spec fn view(&self) -> DialogueItemM {
        DialogueItemM {
            speaker_name: self.speaker_name@,
            dialogue_text: self.dialogue_text@,
            background_size: self.background_size,
        }
    }
}

/// The render layer's single-slot cache of the last dialogue text it
/// rasterized, with the size of the rendered texture.
#[allow(non_camel_case_types)]
#[derive(Debug)]
pub struct Dialogue_Helper {
    pub text: String,
    pub width: u32,
    pub height: u32,
}

/// A named ability an entity may carry.
pub struct Ability {
    pub name: String,
    pub range: i32,
    pub animation: EntityAnimation,
    pub effects: i32,
}

/// Tag: the player-controlled entity.
#[derive(Clone, Copy, Debug)]
pub struct Playable;

/// Tag: a world entity that blocks movement.
#[derive(Clone, Copy, Debug)]
pub struct Unplayable;

/// Tag: an entity driven by keyboard input.
#[derive(Clone, Copy, Debug)]
pub struct KeyboardControlled;

/// Tag: an entity that wanders on its own.
#[derive(Clone, Copy, Debug)]
pub struct NPCWalker;

/// Tag: an entity removed when the player walks over it.
#[derive(Clone, Copy, Debug)]
pub struct Collectible;

} // verus!
