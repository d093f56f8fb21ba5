//! The interaction zone tracker: every tick it re-orients and
//! repositions the probe rectangle attached to each facing entity.
//! When the facing switches between the vertical pair (up, down) and the
//! horizontal pair (left, right) the probe's width and height are
//! exchanged, and the probe is centered one half of the combined extents
//! outward from the owner along the facing axis, so its long axis stays
//! perpendicular to the facing.
use vstd::prelude::*;

use crate::components::{flip_zone, CollisionBox, Direction, InteractionZone};
use crate::geom::{clamp_i32, sat_add_i32, spec_rect_from_center, Point};
use crate::physics::pos_pt;
use crate::world::{blank_slot, wf_world, SlotModel, World};

verus! {

/// Does this direction point along the horizontal axis?
pub open spec fn is_horizontal(d: Direction) -> bool {
    d == Direction::Left || d == Direction::Right
}

/// Does the probe need its width and height exchanged for this facing:
/// vertical facings use the unflipped probe, horizontal ones the flipped.
pub open spec fn needs_flip(z: InteractionZone, d: Direction) -> bool {
    if is_horizontal(d) {
        !z.flipped
    } else {
        z.flipped
    }
}

/// Does this entity own a tracked probe: position, probe, facing and
/// collision box all present?
pub open spec fn is_probe_owner(s: SlotModel) -> bool {
    &&& s.position is Some
    &&& s.interaction_zone is Some
    &&& s.facing is Some
    &&& s.collision_box is Some
}

/// Where the probe's center belongs: the owner's position pushed outward
/// along the facing axis by half the sum of the owner's and the probe's
/// extents on that axis.
pub open spec fn probe_center(p: Point, d: Direction, c: CollisionBox, z: InteractionZone) -> Point {
    match d {
        Direction::Up => Point {
            x: p.x,
            y: clamp_i32(p.y - (c.height + z.rect.h) / 2) as i32,
        },
        Direction::Down => Point {
            x: p.x,
            y: clamp_i32(p.y + (c.height + z.rect.h) / 2) as i32,
        },
        Direction::Left => Point {
            x: clamp_i32(p.x - (c.width + z.rect.w) / 2) as i32,
            y: p.y,
        },
        Direction::Right => Point {
            x: clamp_i32(p.x + (c.width + z.rect.w) / 2) as i32,
            y: p.y,
        },
    }
}

/// The probe after one tracking step: re-oriented for the facing, then
/// centered outward from the owner.
pub open spec fn updated_zone(s: SlotModel) -> InteractionZone {
    let d = s.facing->0.direction;
    let z1 = if needs_flip(s.interaction_zone->0, d) {
        flip_zone(s.interaction_zone->0)
    } else {
        s.interaction_zone->0
    };
    let c = probe_center(pos_pt(s), d, s.collision_box->0, z1);
    InteractionZone { rect: spec_rect_from_center(c, z1.rect.w, z1.rect.h), flipped: z1.flipped }
}

/// What the tracker makes of one slot.
pub open spec fn iz_slot(s: SlotModel) -> SlotModel {
    if is_probe_owner(s) {
        SlotModel { interaction_zone: Some(updated_zone(s)), ..s }
    } else {
        s
    }
}

/// The whole store after the tracking pass.
pub open spec fn iz_spec(m: Seq<SlotModel>) -> Seq<SlotModel> {
    m.map_values(|s: SlotModel| iz_slot(s))
}

/// The probe's long axis is perpendicular to the facing: starting from a
/// probe whose flag matches its aspect (taller than wide when unflipped,
/// wider than tall when flipped), one tracking step leaves the probe
/// wider than tall exactly for horizontal facings, and its flag records
/// the orientation.
pub proof fn lemma_zone_perpendicular(s: SlotModel)
    requires
        is_probe_owner(s),
        !s.interaction_zone->0.flipped ==> s.interaction_zone->0.rect.w
            < s.interaction_zone->0.rect.h,
        s.interaction_zone->0.flipped ==> s.interaction_zone->0.rect.w
            > s.interaction_zone->0.rect.h,
    ensures
        updated_zone(s).flipped == is_horizontal(s.facing->0.direction),
        is_horizontal(s.facing->0.direction) ==> updated_zone(s).rect.w > updated_zone(s).rect.h,
        !is_horizontal(s.facing->0.direction) ==> updated_zone(s).rect.w < updated_zone(s).rect.h,
{
}

/// The interaction zone tracker system.
pub struct IZUpdater;

impl IZUpdater {
    /// Re-orient and reposition every tracked probe for its owner's
    /// current facing.
    #[verifier::loop_isolation(false)]
    pub fn run(world: &mut World)
        ensures
            final(world)@ =~= iz_spec(old(world)@),
            final(world)@.len() == old(world)@.len(),
            wf_world(old(world)@) ==> wf_world(final(world)@),
    {
        let n = world.ents.len();
        let mut i: usize = 0;
        while i < n
            invariant
                world.ents@.len() == n,
                i <= n,
                forall|k: int|
                    0 <= k < i ==> #[trigger] world.ents@[k]@ == iz_slot(old(world)@[k]),
                forall|k: int| i <= k < n ==> #[trigger] world.ents@[k] == old(world).ents@[k],
            decreases n - i,
        {
            let owner: Option<(Point, Direction, CollisionBox, InteractionZone)> = {
                let slot = &world.ents[i];
                if slot.position.is_some() && slot.interaction_zone.is_some()
                    && slot.facing.is_some() && slot.collision_box.is_some() {
                    Some(
                        (
                            slot.position.unwrap().0,
                            match &slot.facing {
                                Some(f) => f.direction,
                                None => Direction::Down,
                            },
                            slot.collision_box.unwrap(),
                            slot.interaction_zone.unwrap(),
                        ),
                    )
                } else {
                    None
                }
            };
            match owner {
                Some((p, d, c, z0)) => {
                    assert(is_probe_owner(old(world)@[i as int]));
                    let mut z = z0;
                    let flip_now = match d {
                        Direction::Up => z.flipped,
                        Direction::Down => z.flipped,
                        Direction::Left => !z.flipped,
                        Direction::Right => !z.flipped,
                    };
                    if flip_now {
                        z.flip();
                    }
                    let center: Point = match d {
                        Direction::Up => Point {
                            x: p.x,
                            y: sat_add_i32(p.y, -(((c.height as u64 + z.rect.h as u64) / 2) as i64)),
                        },
                        Direction::Down => Point {
                            x: p.x,
                            y: sat_add_i32(p.y, ((c.height as u64 + z.rect.h as u64) / 2) as i64),
                        },
                        Direction::Left => Point {
                            x: sat_add_i32(p.x, -(((c.width as u64 + z.rect.w as u64) / 2) as i64)),
                            y: p.y,
                        },
                        Direction::Right => Point {
                            x: sat_add_i32(p.x, ((c.width as u64 + z.rect.w as u64) / 2) as i64),
                            y: p.y,
                        },
                    };
                    assert(center == probe_center(pos_pt(old(world)@[i as int]), d, c, z));
                    z.rect.center_on(center);
                    assert(z == updated_zone(old(world)@[i as int]));
                    let slot = &mut world.ents[i];
                    slot.interaction_zone = Some(z);
                    assert(world.ents@[i as int]@ == iz_slot(old(world)@[i as int]));
                },
                None => {
                    assert(!is_probe_owner(old(world)@[i as int]));
                    assert(world.ents@[i as int]@ == iz_slot(old(world)@[i as int]));
                },
            }
            i = i + 1;
        }
        assert(final(world)@ =~= iz_spec(old(world)@));
        proof {
            if wf_world(old(world)@) {
                assert forall|k: int|
                    0 <= k < n && !world@[k].alive implies world@[k] == blank_slot(false) by {
                    assert(world@[k] == iz_slot(old(world)@[k]));
                }
                assert(wf_world(world@));
            }
        }
    }
}

} // verus!
