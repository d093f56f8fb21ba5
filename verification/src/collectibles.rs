//! The proximity collector: every collectible whose bounding box
//! overlaps the bounding box of a player entity is marked for deletion;
//! the deferred `maintain` pass at the tick boundary then removes it
//! from the store for good.
use vstd::prelude::*;

use crate::collisions::body_rect;
use crate::geom::{rects_overlap, Rect};
use crate::world::{blank_slot, wf_world, SlotModel, World};

verus! {

/// A player body: tagged playable, with a position and a collision box.
pub open spec fn is_player_body(s: SlotModel) -> bool {
    &&& s.playable
    &&& s.position is Some
    &&& s.collision_box is Some
}

/// A collectible body: tagged collectible, with a position and a
/// collision box.
pub open spec fn is_collectible_body(s: SlotModel) -> bool {
    &&& s.collectible
    &&& s.position is Some
    &&& s.collision_box is Some
}

/// Is the collectible at `j` picked up: does some player body overlap it?
pub open spec fn is_collected(m: Seq<SlotModel>, j: int) -> bool {
    &&& is_collectible_body(m[j])
    &&& exists|i: int|
        0 <= i < m.len() && is_player_body(m[i]) && rects_overlap(
            body_rect(m[j]),
            body_rect(m[i]),
        )
}

/// What the collector makes of one slot: a picked-up, live collectible
/// is marked for deletion, everything else is untouched.
pub open spec fn collect_slot(m: Seq<SlotModel>, j: int) -> SlotModel {
    if is_collected(m, j) && m[j].alive {
        SlotModel { pending_delete: true, ..m[j] }
    } else {
        m[j]
    }
}

/// The whole store after the collection pass.
pub open spec fn collectibles_spec(m: Seq<SlotModel>) -> Seq<SlotModel> {
    Seq::new(m.len(), |j: int| collect_slot(m, j))
}

/// The fields the collector never changes in any slot.
pub open spec fn collect_statics_eq(a: SlotModel, b: SlotModel) -> bool {
    &&& a.position == b.position
    &&& a.collision_box == b.collision_box
    &&& a.playable == b.playable
    &&& a.collectible == b.collectible
    &&& a.alive == b.alive
}

/// The proximity collector system.
pub struct Collectibles;

impl Collectibles {
    /// Mark every collectible overlapping a player body for deletion at
    /// the end of the tick.
    #[verifier::loop_isolation(false)]
    pub fn run(world: &mut World)
        ensures
            final(world)@ =~= collectibles_spec(old(world)@),
            final(world)@.len() == old(world)@.len(),
            wf_world(old(world)@) ==> wf_world(final(world)@),
    {
        let n = world.ents.len();
        let mut j: usize = 0;
        while j < n
            invariant
                world.ents@.len() == n,
                j <= n,
                forall|k: int|
                    0 <= k < j ==> #[trigger] world.ents@[k]@ == collect_slot(old(world)@, k),
                forall|k: int| j <= k < n ==> #[trigger] world.ents@[k] == old(world).ents@[k],
                forall|k: int|
                    0 <= k < n ==> collect_statics_eq(#[trigger] world.ents@[k]@, old(world)@[k]),
            decreases n - j,
        {
            let item: Option<Rect> = {
                let slot = &world.ents[j];
                if slot.collectible && slot.position.is_some() {
                    match &slot.collision_box {
                        Some(c) => Some(Rect::from_center(slot.position.unwrap().0, c.width, c.height)),
                        None => None,
                    }
                } else {
                    None
                }
            };
            match item {
                Some(item_rect) => {
                    assert(is_collectible_body(old(world)@[j as int]));
                    assert(item_rect == body_rect(old(world)@[j as int]));
                    let mut hit = false;
                    let mut i: usize = 0;
                    while i < n
                        invariant
                            i <= n,
                            hit == exists|l: int|
                                0 <= l < i && is_player_body(old(world)@[l]) && rects_overlap(
                                    body_rect(old(world)@[j as int]),
                                    body_rect(old(world)@[l]),
                                ),
                        decreases n - i,
                    {
                        let player: Option<Rect> = {
                            let slot = &world.ents[i];
                            if slot.playable && slot.position.is_some() {
                                match &slot.collision_box {
                                    Some(c) => Some(
                                        Rect::from_center(slot.position.unwrap().0, c.width, c.height),
                                    ),
                                    None => None,
                                }
                            } else {
                                None
                            }
                        };
                        proof {
                            assert(collect_statics_eq(world.ents@[i as int]@, old(world)@[i as int]));
                        }
                        match player {
                            Some(player_rect) => {
                                assert(is_player_body(old(world)@[i as int]));
                                assert(player_rect == body_rect(old(world)@[i as int]));
                                if item_rect.has_intersection(&player_rect) {
                                    hit = true;
                                }
                            },
                            None => {
                                assert(!is_player_body(old(world)@[i as int]));
                            },
                        }
                        i = i + 1;
                    }
                    assert(hit == is_collected(old(world)@, j as int));
                    if hit {
                        let slot = &mut world.ents[j];
                        if slot.alive {
                            slot.pending_delete = true;
                        }
                    }
                    assert(world.ents@[j as int]@ == collect_slot(old(world)@, j as int));
                },
                None => {
                    assert(!is_collectible_body(old(world)@[j as int]));
                    assert(world.ents@[j as int]@ == collect_slot(old(world)@, j as int));
                },
            }
            j = j + 1;
        }
        assert(final(world)@ =~= collectibles_spec(old(world)@));
        proof {
            if wf_world(old(world)@) {
                assert forall|k: int|
                    0 <= k < n && !world@[k].alive implies world@[k] == blank_slot(false) by {
                    assert(world@[k] == collect_slot(old(world)@, k));
                }
                assert(wf_world(world@));
            }
        }
    }
}

} // verus!
