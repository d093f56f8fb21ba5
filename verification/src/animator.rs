//! The animator: one pass advances walk cycles — entities with a
//! movement animation, a sprite and a nonempty direction queue show the
//! next frame (wrapping around) of the sequence matching the active
//! direction — and a second pass advances object animations: entities
//! with an entity animation, a sprite and a positive interaction counter
//! step forward, clamped at the last frame, and show the frame reached.
use vstd::prelude::*;

use crate::components::{Direction, EntAnimM, MoveAnimM, Sprite};
use crate::world::{blank_slot, wf_world, SlotModel, World};

verus! {

/// The walk-cycle frame sequence for a direction.
pub open spec fn frames_for(a: MoveAnimM, d: Direction) -> Seq<Sprite> {
    match d {
        Direction::Left => a.left_frames,
        Direction::Right => a.right_frames,
        Direction::Up => a.up_frames,
        Direction::Down => a.down_frames,
    }
}

/// Does the walk-cycle pass act on this entity?
pub open spec fn is_walk_animated(s: SlotModel) -> bool {
    &&& s.movement_animation is Some
    &&& s.sprite is Some
    &&& s.velocity is Some
    &&& s.velocity->0.dirs.len() > 0
}

/// Does the object-animation pass act on this entity?
pub open spec fn is_object_animated(s: SlotModel) -> bool {
    &&& s.entity_animation is Some
    &&& s.sprite is Some
    &&& s.interactable is Some
    &&& s.interactable->0.interactions > 0
}

/// Frame sequences an animator can run: walk cycles are nonempty in all
/// four directions with an in-range frame counter, and object animations
/// are nonempty with the current frame in range.
pub open spec fn anim_wf_slot(s: SlotModel) -> bool {
    &&& s.movement_animation is Some ==> {
        let a = s.movement_animation->0;
        a.up_frames.len() > 0 && a.right_frames.len() > 0 && a.down_frames.len() > 0
            && a.left_frames.len() > 0
    }
    &&& s.entity_animation is Some ==> {
        let a = s.entity_animation->0;
        a.frames.len() > 0 && a.current_frame < a.frames.len()
    }
}

/// Every slot's animations are runnable.
pub open spec fn anims_wf(m: Seq<SlotModel>) -> bool {
    forall|i: int| 0 <= i < m.len() ==> anim_wf_slot(#[trigger] m[i])
}

/// What the walk-cycle pass makes of one slot: step the frame counter
/// modulo the active sequence's length and show that frame.
pub open spec fn walk_anim_slot(s: SlotModel) -> SlotModel {
    if is_walk_animated(s) {
        let a = s.movement_animation->0;
        let frames = frames_for(a, s.velocity->0.dirs[0]);
        let next = (a.current_frame % frames.len() + 1) % frames.len();
        SlotModel {
            movement_animation: Some(MoveAnimM { current_frame: next as nat, ..a }),
            sprite: Some(frames[next as int]),
            ..s
        }
    } else {
        s
    }
}

/// What the object-animation pass makes of one slot: step the frame
/// counter forward, clamped at the last frame, and show the frame it
/// lands on.
pub open spec fn object_anim_slot(s: SlotModel) -> SlotModel {
    if is_object_animated(s) {
        let a = s.entity_animation->0;
        let next: nat = if a.current_frame < a.frames.len() - 1 {
            a.current_frame + 1
        } else {
            a.current_frame
        };
        SlotModel {
            entity_animation: Some(EntAnimM { current_frame: next as nat, frames: a.frames }),
            sprite: Some(a.frames[next as int]),
            ..s
        }
    } else {
        s
    }
}

/// The whole store after both animation passes.
pub open spec fn animator_spec(m: Seq<SlotModel>) -> Seq<SlotModel> {
    m.map_values(|s: SlotModel| walk_anim_slot(s)).map_values(|s: SlotModel| object_anim_slot(s))
}

/// The animator system.
pub struct Animator;

impl Animator {
    /// Advance every walk cycle with a pending direction, then every
    /// object animation with a positive interaction counter.
    pub fn run(world: &mut World)
        requires
            anims_wf(old(world)@),
        ensures
            final(world)@ =~= animator_spec(old(world)@),
            final(world)@.len() == old(world)@.len(),
            anims_wf(final(world)@),
            wf_world(old(world)@) ==> wf_world(final(world)@),
    {
        let ghost m0 = world@;
        walk_pass(world);
        let ghost m1 = world@;
        proof {
            assert forall|k: int| 0 <= k < m1.len() implies anim_wf_slot(#[trigger] m1[k]) by {
                assert(m1[k] == walk_anim_slot(m0[k]));
                assert(anim_wf_slot(m0[k]));
            }
        }
        object_pass(world);
        assert(final(world)@ =~= animator_spec(old(world)@));
        proof {
            let m2 = world@;
            assert forall|k: int| 0 <= k < m2.len() implies anim_wf_slot(#[trigger] m2[k]) by {
                assert(m2[k] == object_anim_slot(m1[k]));
                assert(anim_wf_slot(m1[k]));
            }
            if wf_world(m0) {
                assert forall|k: int|
                    0 <= k < m2.len() && !m2[k].alive implies m2[k] == blank_slot(false) by {
                    assert(m2[k] == object_anim_slot(walk_anim_slot(m0[k])));
                }
                assert(wf_world(m2));
            }
        }
    }
}

/// The walk-cycle pass of the animator.
#[verifier::loop_isolation(false)]
fn walk_pass(world: &mut World)
    requires
        anims_wf(old(world)@),
    ensures
        final(world)@ =~= old(world)@.map_values(|s: SlotModel| walk_anim_slot(s)),
{
    let n = world.ents.len();
    let mut i: usize = 0;
    while i < n
        invariant
            world.ents@.len() == n,
            i <= n,
            forall|k: int|
                0 <= k < i ==> #[trigger] world.ents@[k]@ == walk_anim_slot(old(world)@[k]),
            forall|k: int| i <= k < n ==> #[trigger] world.ents@[k] == old(world).ents@[k],
        decreases n - i,
    {
        let step: Option<(usize, Sprite)> = {
            let slot = &world.ents[i];
            if slot.sprite.is_some() {
                match (&slot.movement_animation, &slot.velocity) {
                    (Some(a), Some(v)) => {
                        if v.direction.len() > 0 {
                            let frames = match v.direction[0] {
                                Direction::Left => &a.left_frames,
                                Direction::Right => &a.right_frames,
                                Direction::Up => &a.up_frames,
                                Direction::Down => &a.down_frames,
                            };
                            assert(frames@ == frames_for(
                                old(world)@[i as int].movement_animation->0,
                                old(world)@[i as int].velocity->0.dirs[0],
                            ));
                            assert(frames@.len() > 0);
                            let len = frames.len();
                            let next = (a.current_frame % len + 1) % len;
                            Some((next, frames[next]))
                        } else {
                            None
                        }
                    },
                    _ => None,
                }
            } else {
                None
            }
        };
        match step {
            Some((next, spr)) => {
                assert(is_walk_animated(old(world)@[i as int]));
                let slot = &mut world.ents[i];
                match &mut slot.movement_animation {
                    Some(a) => {
                        a.current_frame = next;
                    },
                    None => {},
                }
                slot.sprite = Some(spr);
                assert(world.ents@[i as int]@ == walk_anim_slot(old(world)@[i as int]));
            },
            None => {
                assert(!is_walk_animated(old(world)@[i as int]));
                assert(world.ents@[i as int]@ == walk_anim_slot(old(world)@[i as int]));
            },
        }
        i = i + 1;
    }
    assert(final(world)@ =~= old(world)@.map_values(|s: SlotModel| walk_anim_slot(s)));
}

/// The object-animation pass of the animator.
#[verifier::loop_isolation(false)]
fn object_pass(world: &mut World)
    requires
        anims_wf(old(world)@),
    ensures
        final(world)@ =~= old(world)@.map_values(|s: SlotModel| object_anim_slot(s)),
{
    let n = world.ents.len();
    let mut i: usize = 0;
    while i < n
        invariant
            world.ents@.len() == n,
            i <= n,
            forall|k: int|
                0 <= k < i ==> #[trigger] world.ents@[k]@ == object_anim_slot(old(world)@[k]),
            forall|k: int| i <= k < n ==> #[trigger] world.ents@[k] == old(world).ents@[k],
        decreases n - i,
    {
        let step: Option<(usize, Sprite)> = {
            let slot = &world.ents[i];
            if slot.sprite.is_some() {
                match (&slot.entity_animation, &slot.interactable) {
                    (Some(a), Some(obj)) => {
                        if obj.interactions > 0 {
                            assert(a@.frames.len() > 0 && a@.current_frame < a@.frames.len());
                            let next = if a.current_frame < a.frames.len() - 1 {
                                a.current_frame + 1
                            } else {
                                a.current_frame
                            };
                            let spr = a.frames[next];
                            Some((next, spr))
                        } else {
                            None
                        }
                    },
                    _ => None,
                }
            } else {
                None
            }
        };
        match step {
            Some((next, spr)) => {
                assert(is_object_animated(old(world)@[i as int]));
                let slot = &mut world.ents[i];
                match &mut slot.entity_animation {
                    Some(a) => {
                        a.current_frame = next;
                    },
                    None => {},
                }
                slot.sprite = Some(spr);
                assert(world.ents@[i as int]@ == object_anim_slot(old(world)@[i as int]));
            },
            None => {
                assert(!is_object_animated(old(world)@[i as int]));
                assert(world.ents@[i as int]@ == object_anim_slot(old(world)@[i as int]));
            },
        }
        i = i + 1;
    }
    assert(final(world)@ =~= old(world)@.map_values(|s: SlotModel| object_anim_slot(s)));
}

} // verus!
