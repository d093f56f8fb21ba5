//! The collision guard: a coarser safety net on top of the motion
//! resolver. For every keyboard-controlled mover it tests plain
//! bounding-box overlap against every entity that is not keyboard
//! controlled, and on any overlap zeroes the mover's speed. The
//! direction queue is left alone, so an accepted move can resume later.
use vstd::prelude::*;

use crate::components::VelM;
use crate::geom::{rects_overlap, spec_rect_from_center, Rect};
use crate::physics::pos_pt;
use crate::world::{blank_slot, wf_world, SlotModel, World};

verus! {

/// The bounding rectangle of an entity, centered on its position.
pub open spec fn body_rect(s: SlotModel) -> Rect {
    spec_rect_from_center(pos_pt(s), s.collision_box->0.width, s.collision_box->0.height)
}

/// Does this entity get guarded: keyboard controlled, with a position, a
/// collision box and a velocity?
pub open spec fn is_guarded(s: SlotModel) -> bool {
    &&& s.keyboard_controlled
    &&& s.position is Some
    &&& s.collision_box is Some
    &&& s.velocity is Some
}

/// Does this entity count as scenery for the guard: not keyboard
/// controlled, with a position and a collision box?
pub open spec fn is_guard_obstacle(s: SlotModel) -> bool {
    &&& !s.keyboard_controlled
    &&& s.position is Some
    &&& s.collision_box is Some
}

/// Does the guarded entity at `i` overlap any scenery entity?
pub open spec fn guard_hit(m: Seq<SlotModel>, i: int) -> bool {
    exists|j: int|
        0 <= j < m.len() && is_guard_obstacle(m[j]) && rects_overlap(
            body_rect(m[i]),
            body_rect(m[j]),
        )
}

/// What the guard makes of one slot: an overlapping guarded mover has its
/// speed zeroed, everything else is untouched.
pub open spec fn guard_slot(m: Seq<SlotModel>, i: int) -> SlotModel {
    if is_guarded(m[i]) && guard_hit(m, i) {
        SlotModel {
            velocity: Some(VelM { speed: 0, dirs: m[i].velocity->0.dirs }),
            ..m[i]
        }
    } else {
        m[i]
    }
}

/// The whole store after the guard pass.
pub open spec fn collisions_spec(m: Seq<SlotModel>) -> Seq<SlotModel> {
    Seq::new(m.len(), |i: int| guard_slot(m, i))
}

/// The fields the guard never changes in any slot.
pub open spec fn guard_statics_eq(a: SlotModel, b: SlotModel) -> bool {
    &&& a.position == b.position
    &&& a.collision_box == b.collision_box
    &&& a.keyboard_controlled == b.keyboard_controlled
}

/// The collision guard system.
pub struct Collisions;

impl Collisions {
    /// Zero the speed of every keyboard-controlled mover whose bounding
    /// box overlaps any entity that is not keyboard controlled.
    #[verifier::loop_isolation(false)]
    pub fn run(world: &mut World)
        ensures
            final(world)@ =~= collisions_spec(old(world)@),
            final(world)@.len() == old(world)@.len(),
            wf_world(old(world)@) ==> wf_world(final(world)@),
    {
        let n = world.ents.len();
        let mut i: usize = 0;
        while i < n
            invariant
                world.ents@.len() == n,
                i <= n,
                forall|k: int|
                    0 <= k < i ==> #[trigger] world.ents@[k]@ == guard_slot(old(world)@, k),
                forall|k: int| i <= k < n ==> #[trigger] world.ents@[k] == old(world).ents@[k],
                forall|k: int|
                    0 <= k < n ==> guard_statics_eq(#[trigger] world.ents@[k]@, old(world)@[k]),
            decreases n - i,
        {
            let actor: Option<Rect> = {
                let slot = &world.ents[i];
                if slot.keyboard_controlled && slot.position.is_some() && slot.velocity.is_some() {
                    match &slot.collision_box {
                        Some(c) => Some(
                            Rect::from_center(slot.position.unwrap().0, c.width, c.height),
                        ),
                        None => None,
                    }
                } else {
                    None
                }
            };
            match actor {
                Some(actor_rect) => {
                    assert(is_guarded(old(world)@[i as int]));
                    assert(actor_rect == body_rect(old(world)@[i as int]));
                    let mut hit = false;
                    let mut j: usize = 0;
                    while j < n
                        invariant
                            j <= n,
                            hit == exists|l: int|
                                0 <= l < j && is_guard_obstacle(old(world)@[l]) && rects_overlap(
                                    body_rect(old(world)@[i as int]),
                                    body_rect(old(world)@[l]),
                                ),
                        decreases n - j,
                    {
                        let obs: Option<Rect> = {
                            let slot = &world.ents[j];
                            if !slot.keyboard_controlled && slot.position.is_some() {
                                match &slot.collision_box {
                                    Some(c) => Some(
                                        Rect::from_center(slot.position.unwrap().0, c.width, c.height),
                                    ),
                                    None => None,
                                }
                            } else {
                                None
                            }
                        };
                        proof {
                            assert(guard_statics_eq(world.ents@[j as int]@, old(world)@[j as int]));
                        }
                        match obs {
                            Some(obs_rect) => {
                                assert(is_guard_obstacle(old(world)@[j as int]));
                                assert(obs_rect == body_rect(old(world)@[j as int]));
                                if actor_rect.has_intersection(&obs_rect) {
                                    hit = true;
                                }
                            },
                            None => {
                                assert(!is_guard_obstacle(old(world)@[j as int]));
                            },
                        }
                        j = j + 1;
                    }
                    assert(hit == guard_hit(old(world)@, i as int));
                    if hit {
                        let slot = &mut world.ents[i];
                        match &mut slot.velocity {
                            Some(v) => {
                                v.speed = 0;
                            },
                            None => {},
                        }
                    }
                    assert(world.ents@[i as int]@ == guard_slot(old(world)@, i as int));
                },
                None => {
                    assert(!is_guarded(old(world)@[i as int]));
                    assert(world.ents@[i as int]@ == guard_slot(old(world)@, i as int));
                },
            }
            i = i + 1;
        }
        assert(final(world)@ =~= collisions_spec(old(world)@));
        proof {
            if wf_world(old(world)@) {
                assert forall|k: int|
                    0 <= k < n && !world@[k].alive implies world@[k] == blank_slot(false) by {
                    assert(world@[k] == guard_slot(old(world)@, k));
                }
                assert(wf_world(world@));
            }
        }
    }
}

} // verus!
