//! The component store: an arena of per-entity slots, one `Option` per
//! component kind and one flag per capability tag.
//!
//! Entities are opaque indices into the arena. Systems iterate the arena
//! and act on the slots that carry the components they join on. Deletion
//! is a two-step protocol: `delete` only marks a live entity, and
//! `maintain`, run once after all systems of a tick, detaches every
//! component of the marked entities and retires their identifiers, so no
//! system ever observes a half-deleted entity mid-tick.
use vstd::prelude::*;

use crate::components::{
    CollisionBox, Dialogue, DialogueM, EntAnimM, EntityAnimation, Facing, FlagForMovement,
    Interactable, InteractionZone, MoveAnimM, MovementAnimation, Position, Sprite, VelM, Velocity,
};

verus! {

/// All the components and tags one entity can carry.
pub struct EntitySlot {
    pub position: Option<Position>,
    pub velocity: Option<Velocity>,
    pub collision_box: Option<CollisionBox>,
    pub facing: Option<Facing>,
    pub movement_flag: Option<FlagForMovement>,
    pub interactable: Option<Interactable>,
    pub interaction_zone: Option<InteractionZone>,
    pub movement_animation: Option<MovementAnimation>,
    pub entity_animation: Option<EntityAnimation>,
    pub sprite: Option<Sprite>,
    pub dialogue: Option<Dialogue>,
    pub playable: bool,
    pub unplayable: bool,
    pub keyboard_controlled: bool,
    pub npc_walker: bool,
    pub collectible: bool,
    pub alive: bool,
    pub pending_delete: bool,
}

/// Mathematical view of an entity slot.
pub ghost struct SlotModel {
    pub position: Option<Position>,
    pub velocity: Option<VelM>,
    pub collision_box: Option<CollisionBox>,
    pub facing: Option<Facing>,
    pub movement_flag: Option<FlagForMovement>,
    pub interactable: Option<Interactable>,
    pub interaction_zone: Option<InteractionZone>,
    pub movement_animation: Option<MoveAnimM>,
    pub entity_animation: Option<EntAnimM>,
    pub sprite: Option<Sprite>,
    pub dialogue: Option<DialogueM>,
    pub playable: bool,
    pub unplayable: bool,
    pub keyboard_controlled: bool,
    pub npc_walker: bool,
    pub collectible: bool,
    pub alive: bool,
    pub pending_delete: bool,
}

impl View for EntitySlot {
    type V = SlotModel;

    open spec fn view(&self) -> SlotModel {
        SlotModel {
            position: self.position,
            velocity: match self.velocity {
                Some(v) => Some(v@),
                None => None,
            },
            collision_box: self.collision_box,
            facing: self.facing,
            movement_flag: self.movement_flag,
            interactable: self.interactable,
            interaction_zone: self.interaction_zone,
            movement_animation: match self.movement_animation {
                Some(a) => Some(a@),
                None => None,
            },
            entity_animation: match self.entity_animation {
                Some(a) => Some(a@),
                None => None,
            },
            sprite: self.sprite,
            dialogue: match self.dialogue {
                Some(d) => Some(d@),
                None => None,
            },
            playable: self.playable,
            unplayable: self.unplayable,
            keyboard_controlled: self.keyboard_controlled,
            npc_walker: self.npc_walker,
            collectible: self.collectible,
            alive: self.alive,
            pending_delete: self.pending_delete,
        }
    }
}

/// A slot carrying nothing: no components, no tags, not marked.
pub open spec fn blank_slot(alive: bool) -> SlotModel {
    SlotModel {
        position: None,
        velocity: None,
        collision_box: None,
        facing: None,
        movement_flag: None,
        interactable: None,
        interaction_zone: None,
        movement_animation: None,
        entity_animation: None,
        sprite: None,
        dialogue: None,
        playable: false,
        unplayable: false,
        keyboard_controlled: false,
        npc_walker: false,
        collectible: false,
        alive,
        pending_delete: false,
    }
}

/// A retired entity carries nothing and is not marked for deletion.
pub open spec fn wf_world(m: Seq<SlotModel>) -> bool {
    forall|i: int| 0 <= i < m.len() ==> (!m[i].alive ==> m[i] == blank_slot(false))
}

/// What `maintain` makes of one slot: marked slots are emptied and
/// retired, all others are untouched.
pub open spec fn maintain_slot(s: SlotModel) -> SlotModel {
    if s.pending_delete {
        blank_slot(false)
    } else {
        s
    }
}

/// A store stays well formed when one live slot is rewritten: the slot
/// at `id` is still alive afterwards and every other slot is untouched.
proof fn lemma_wf_after_live_update(pre: Seq<SlotModel>, post: Seq<SlotModel>, id: int)
    requires
        wf_world(pre),
        post.len() == pre.len(),
        0 <= id < post.len(),
        post[id].alive,
        forall|k: int| 0 <= k < post.len() && k != id ==> #[trigger] post[k] == pre[k],
    ensures
        wf_world(post),
{
    assert forall|k: int| 0 <= k < post.len() && !post[k].alive implies post[k] == blank_slot(
        false,
    ) by {
        assert(post[k] == pre[k]);
    }
}

/// The component store.
pub struct World {
    pub ents: Vec<EntitySlot>,
}

impl View for World {
    type V = Seq<SlotModel>;

    open spec fn view(&self) -> Seq<SlotModel> {
        Seq::new(self.ents@.len(), |i: int| self.ents@[i]@)
    }
}

fn blank_entity_slot() -> (s: EntitySlot)
    ensures
        s@ == blank_slot(false),
        s.alive == false,
{
    EntitySlot {
        position: None,
        velocity: None,
        collision_box: None,
        facing: None,
        movement_flag: None,
        interactable: None,
        interaction_zone: None,
        movement_animation: None,
        entity_animation: None,
        sprite: None,
        dialogue: None,
        playable: false,
        unplayable: false,
        keyboard_controlled: false,
        npc_walker: false,
        collectible: false,
        alive: false,
        pending_delete: false,
    }
}

impl World {
    /// An empty store: no entities at all.
    pub fn new() -> (w: World)
        ensures
            w@ =~= Seq::<SlotModel>::empty(),
            wf_world(w@),
    {
        World { ents: Vec::new() }
    }

    /// How many entity identifiers have been handed out (live or retired).
    pub fn len(&self) -> (n: usize)
        ensures
            n == self@.len(),
    {
        self.ents.len()
    }

    /// Mint a fresh entity with no components; its identifier is the new
    /// arena index.
    pub fn spawn(&mut self) -> (id: usize)
        requires
            old(self)@.len() < usize::MAX,
        ensures
            id == old(self)@.len(),
            final(self)@ =~= old(self)@.push(blank_slot(true)),
            wf_world(old(self)@) ==> wf_world(final(self)@),
    {
        let id = self.ents.len();
        let mut s = blank_entity_slot();
        s.alive = true;
        self.ents.push(s);
        assert(self@ =~= old(self)@.push(blank_slot(true)));
        id
    }


    /// Attach (or overwrite), or with `None` detach, the `Position`
    /// component of a live entity.
    pub fn set_position(&mut self, id: usize, p: Option<Position>)
        requires
            id < old(self)@.len(),
            old(self)@[id as int].alive,
        ensures
            final(self)@ =~= old(self)@.update(
                id as int,
                SlotModel {
                    position: p,
                    ..old(self)@[id as int]
                },
            ),
            wf_world(old(self)@) ==> wf_world(final(self)@),
    {
        let slot = &mut self.ents[id];
        slot.position = p;
        proof {
            if wf_world(old(self)@) {
                assert forall|k: int|
                    0 <= k < self@.len() && k != id as int implies #[trigger] self@[k] == old(
                        self,
                    )@[k] by {
                    assert(self@[k] == old(self)@[k]);
                }
                lemma_wf_after_live_update(old(self)@, self@, id as int);
            }
        }
    }

    /// Attach (or overwrite), or with `None` detach, the `Velocity`
    /// component of a live entity.
    pub fn set_velocity(&mut self, id: usize, v: Option<Velocity>)
        requires
            id < old(self)@.len(),
            old(self)@[id as int].alive,
        ensures
            final(self)@ =~= old(self)@.update(
                id as int,
                SlotModel {
                    velocity: match v {
                        Some(x) => Some(x@),
                        None => None,
                    },
                    ..old(self)@[id as int]
                },
            ),
            wf_world(old(self)@) ==> wf_world(final(self)@),
    {
        let slot = &mut self.ents[id];
        slot.velocity = v;
        proof {
            if wf_world(old(self)@) {
                assert forall|k: int|
                    0 <= k < self@.len() && k != id as int implies #[trigger] self@[k] == old(
                        self,
                    )@[k] by {
                    assert(self@[k] == old(self)@[k]);
                }
                lemma_wf_after_live_update(old(self)@, self@, id as int);
            }
        }
    }

    /// Attach (or overwrite), or with `None` detach, the `CollisionBox`
    /// component of a live entity.
    pub fn set_collision_box(&mut self, id: usize, c: Option<CollisionBox>)
        requires
            id < old(self)@.len(),
            old(self)@[id as int].alive,
        ensures
            final(self)@ =~= old(self)@.update(
                id as int,
                SlotModel {
                    collision_box: c,
                    ..old(self)@[id as int]
                },
            ),
            wf_world(old(self)@) ==> wf_world(final(self)@),
    {
        let slot = &mut self.ents[id];
        slot.collision_box = c;
        proof {
            if wf_world(old(self)@) {
                assert forall|k: int|
                    0 <= k < self@.len() && k != id as int implies #[trigger] self@[k] == old(
                        self,
                    )@[k] by {
                    assert(self@[k] == old(self)@[k]);
                }
                lemma_wf_after_live_update(old(self)@, self@, id as int);
            }
        }
    }

    /// Attach (or overwrite), or with `None` detach, the `Facing`
    /// component of a live entity.
    pub fn set_facing(&mut self, id: usize, f: Option<Facing>)
        requires
            id < old(self)@.len(),
            old(self)@[id as int].alive,
        ensures
            final(self)@ =~= old(self)@.update(
                id as int,
                SlotModel {
                    facing: f,
                    ..old(self)@[id as int]
                },
            ),
            wf_world(old(self)@) ==> wf_world(final(self)@),
    {
        let slot = &mut self.ents[id];
        slot.facing = f;
        proof {
            if wf_world(old(self)@) {
                assert forall|k: int|
                    0 <= k < self@.len() && k != id as int implies #[trigger] self@[k] == old(
                        self,
                    )@[k] by {
                    assert(self@[k] == old(self)@[k]);
                }
                lemma_wf_after_live_update(old(self)@, self@, id as int);
            }
        }
    }

    /// Attach (or overwrite), or with `None` detach, the `FlagForMovement`
    /// component of a live entity.
    pub fn set_movement_flag(&mut self, id: usize, f: Option<FlagForMovement>)
        requires
            id < old(self)@.len(),
            old(self)@[id as int].alive,
        ensures
            final(self)@ =~= old(self)@.update(
                id as int,
                SlotModel {
                    movement_flag: f,
                    ..old(self)@[id as int]
                },
            ),
            wf_world(old(self)@) ==> wf_world(final(self)@),
    {
        let slot = &mut self.ents[id];
        slot.movement_flag = f;
        proof {
            if wf_world(old(self)@) {
                assert forall|k: int|
                    0 <= k < self@.len() && k != id as int implies #[trigger] self@[k] == old(
                        self,
                    )@[k] by {
                    assert(self@[k] == old(self)@[k]);
                }
                lemma_wf_after_live_update(old(self)@, self@, id as int);
            }
        }
    }

    /// Attach (or overwrite), or with `None` detach, the `Interactable`
    /// component of a live entity.
    pub fn set_interactable(&mut self, id: usize, it: Option<Interactable>)
        requires
            id < old(self)@.len(),
            old(self)@[id as int].alive,
        ensures
            final(self)@ =~= old(self)@.update(
                id as int,
                SlotModel {
                    interactable: it,
                    ..old(self)@[id as int]
                },
            ),
            wf_world(old(self)@) ==> wf_world(final(self)@),
    {
        let slot = &mut self.ents[id];
        slot.interactable = it;
        proof {
            if wf_world(old(self)@) {
                assert forall|k: int|
                    0 <= k < self@.len() && k != id as int implies #[trigger] self@[k] == old(
                        self,
                    )@[k] by {
                    assert(self@[k] == old(self)@[k]);
                }
                lemma_wf_after_live_update(old(self)@, self@, id as int);
            }
        }
    }

    /// Attach (or overwrite), or with `None` detach, the `InteractionZone`
    /// component of a live entity.
    pub fn set_interaction_zone(&mut self, id: usize, z: Option<InteractionZone>)
        requires
            id < old(self)@.len(),
            old(self)@[id as int].alive,
        ensures
            final(self)@ =~= old(self)@.update(
                id as int,
                SlotModel {
                    interaction_zone: z,
                    ..old(self)@[id as int]
                },
            ),
            wf_world(old(self)@) ==> wf_world(final(self)@),
    {
        let slot = &mut self.ents[id];
        slot.interaction_zone = z;
        proof {
            if wf_world(old(self)@) {
                assert forall|k: int|
                    0 <= k < self@.len() && k != id as int implies #[trigger] self@[k] == old(
                        self,
                    )@[k] by {
                    assert(self@[k] == old(self)@[k]);
                }
                lemma_wf_after_live_update(old(self)@, self@, id as int);
            }
        }
    }

    /// Attach (or overwrite), or with `None` detach, the `MovementAnimation`
    /// component of a live entity.
    pub fn set_movement_animation(&mut self, id: usize, a: Option<MovementAnimation>)
        requires
            id < old(self)@.len(),
            old(self)@[id as int].alive,
        ensures
            final(self)@ =~= old(self)@.update(
                id as int,
                SlotModel {
                    movement_animation: match a {
                        Some(x) => Some(x@),
                        None => None,
                    },
                    ..old(self)@[id as int]
                },
            ),
            wf_world(old(self)@) ==> wf_world(final(self)@),
    {
        let slot = &mut self.ents[id];
        slot.movement_animation = a;
        proof {
            if wf_world(old(self)@) {
                assert forall|k: int|
                    0 <= k < self@.len() && k != id as int implies #[trigger] self@[k] == old(
                        self,
                    )@[k] by {
                    assert(self@[k] == old(self)@[k]);
                }
                lemma_wf_after_live_update(old(self)@, self@, id as int);
            }
        }
    }

    /// Attach (or overwrite), or with `None` detach, the `EntityAnimation`
    /// component of a live entity.
    pub fn set_entity_animation(&mut self, id: usize, a: Option<EntityAnimation>)
        requires
            id < old(self)@.len(),
            old(self)@[id as int].alive,
        ensures
            final(self)@ =~= old(self)@.update(
                id as int,
                SlotModel {
                    entity_animation: match a {
                        Some(x) => Some(x@),
                        None => None,
                    },
                    ..old(self)@[id as int]
                },
            ),
            wf_world(old(self)@) ==> wf_world(final(self)@),
    {
        let slot = &mut self.ents[id];
        slot.entity_animation = a;
        proof {
            if wf_world(old(self)@) {
                assert forall|k: int|
                    0 <= k < self@.len() && k != id as int implies #[trigger] self@[k] == old(
                        self,
                    )@[k] by {
                    assert(self@[k] == old(self)@[k]);
                }
                lemma_wf_after_live_update(old(self)@, self@, id as int);
            }
        }
    }

    /// Attach (or overwrite), or with `None` detach, the `Sprite`
    /// component of a live entity.
    pub fn set_sprite(&mut self, id: usize, sp: Option<Sprite>)
        requires
            id < old(self)@.len(),
            old(self)@[id as int].alive,
        ensures
            final(self)@ =~= old(self)@.update(
                id as int,
                SlotModel {
                    sprite: sp,
                    ..old(self)@[id as int]
                },
            ),
            wf_world(old(self)@) ==> wf_world(final(self)@),
    {
        let slot = &mut self.ents[id];
        slot.sprite = sp;
        proof {
            if wf_world(old(self)@) {
                assert forall|k: int|
                    0 <= k < self@.len() && k != id as int implies #[trigger] self@[k] == old(
                        self,
                    )@[k] by {
                    assert(self@[k] == old(self)@[k]);
                }
                lemma_wf_after_live_update(old(self)@, self@, id as int);
            }
        }
    }

    /// Attach (or overwrite), or with `None` detach, the `Dialogue`
    /// component of a live entity.
    pub fn set_dialogue(&mut self, id: usize, d: Option<Dialogue>)
        requires
            id < old(self)@.len(),
            old(self)@[id as int].alive,
        ensures
            final(self)@ =~= old(self)@.update(
                id as int,
                SlotModel {
                    dialogue: match d {
                        Some(x) => Some(x@),
                        None => None,
                    },
                    ..old(self)@[id as int]
                },
            ),
            wf_world(old(self)@) ==> wf_world(final(self)@),
    {
        let slot = &mut self.ents[id];
        slot.dialogue = d;
        proof {
            if wf_world(old(self)@) {
                assert forall|k: int|
                    0 <= k < self@.len() && k != id as int implies #[trigger] self@[k] == old(
                        self,
                    )@[k] by {
                    assert(self@[k] == old(self)@[k]);
                }
                lemma_wf_after_live_update(old(self)@, self@, id as int);
            }
        }
    }

    /// Set or clear the `playable` capability tag of a live entity.
    pub fn set_playable(&mut self, id: usize, on: bool)
        requires
            id < old(self)@.len(),
            old(self)@[id as int].alive,
        ensures
            final(self)@ =~= old(self)@.update(
                id as int,
                SlotModel { playable: on, ..old(self)@[id as int] },
            ),
            wf_world(old(self)@) ==> wf_world(final(self)@),
    {
        let slot = &mut self.ents[id];
        slot.playable = on;
        proof {
            if wf_world(old(self)@) {
                assert forall|k: int|
                    0 <= k < self@.len() && k != id as int implies #[trigger] self@[k] == old(
                        self,
                    )@[k] by {
                    assert(self@[k] == old(self)@[k]);
                }
                lemma_wf_after_live_update(old(self)@, self@, id as int);
            }
        }
    }

    /// Set or clear the `unplayable` capability tag of a live entity.
    pub fn set_unplayable(&mut self, id: usize, on: bool)
        requires
            id < old(self)@.len(),
            old(self)@[id as int].alive,
        ensures
            final(self)@ =~= old(self)@.update(
                id as int,
                SlotModel { unplayable: on, ..old(self)@[id as int] },
            ),
            wf_world(old(self)@) ==> wf_world(final(self)@),
    {
        let slot = &mut self.ents[id];
        slot.unplayable = on;
        proof {
            if wf_world(old(self)@) {
                assert forall|k: int|
                    0 <= k < self@.len() && k != id as int implies #[trigger] self@[k] == old(
                        self,
                    )@[k] by {
                    assert(self@[k] == old(self)@[k]);
                }
                lemma_wf_after_live_update(old(self)@, self@, id as int);
            }
        }
    }

    /// Set or clear the `keyboard_controlled` capability tag of a live entity.
    pub fn set_keyboard_controlled(&mut self, id: usize, on: bool)
        requires
            id < old(self)@.len(),
            old(self)@[id as int].alive,
        ensures
            final(self)@ =~= old(self)@.update(
                id as int,
                SlotModel { keyboard_controlled: on, ..old(self)@[id as int] },
            ),
            wf_world(old(self)@) ==> wf_world(final(self)@),
    {
        let slot = &mut self.ents[id];
        slot.keyboard_controlled = on;
        proof {
            if wf_world(old(self)@) {
                assert forall|k: int|
                    0 <= k < self@.len() && k != id as int implies #[trigger] self@[k] == old(
                        self,
                    )@[k] by {
                    assert(self@[k] == old(self)@[k]);
                }
                lemma_wf_after_live_update(old(self)@, self@, id as int);
            }
        }
    }

    /// Set or clear the `npc_walker` capability tag of a live entity.
    pub fn set_npc_walker(&mut self, id: usize, on: bool)
        requires
            id < old(self)@.len(),
            old(self)@[id as int].alive,
        ensures
            final(self)@ =~= old(self)@.update(
                id as int,
                SlotModel { npc_walker: on, ..old(self)@[id as int] },
            ),
            wf_world(old(self)@) ==> wf_world(final(self)@),
    {
        let slot = &mut self.ents[id];
        slot.npc_walker = on;
        proof {
            if wf_world(old(self)@) {
                assert forall|k: int|
                    0 <= k < self@.len() && k != id as int implies #[trigger] self@[k] == old(
                        self,
                    )@[k] by {
                    assert(self@[k] == old(self)@[k]);
                }
                lemma_wf_after_live_update(old(self)@, self@, id as int);
            }
        }
    }

    /// Set or clear the `collectible` capability tag of a live entity.
    pub fn set_collectible(&mut self, id: usize, on: bool)
        requires
            id < old(self)@.len(),
            old(self)@[id as int].alive,
        ensures
            final(self)@ =~= old(self)@.update(
                id as int,
                SlotModel { collectible: on, ..old(self)@[id as int] },
            ),
            wf_world(old(self)@) ==> wf_world(final(self)@),
    {
        let slot = &mut self.ents[id];
        slot.collectible = on;
        proof {
            if wf_world(old(self)@) {
                assert forall|k: int|
                    0 <= k < self@.len() && k != id as int implies #[trigger] self@[k] == old(
                        self,
                    )@[k] by {
                    assert(self@[k] == old(self)@[k]);
                }
                lemma_wf_after_live_update(old(self)@, self@, id as int);
            }
        }
    }

    /// Mark a live entity for deletion at the end of the tick; retired
    /// identifiers are left alone, so deleting twice is a no-op.
    pub fn delete(&mut self, id: usize)
        requires
            id < old(self)@.len(),
        ensures
            final(self)@ =~= (if old(self)@[id as int].alive {
                old(self)@.update(
                    id as int,
                    SlotModel { pending_delete: true, ..old(self)@[id as int] },
                )
            } else {
                old(self)@
            }),
            wf_world(old(self)@) ==> wf_world(final(self)@),
    {
        let slot = &mut self.ents[id];
        if slot.alive {
            slot.pending_delete = true;
        }
        assert(self@ =~= (if old(self)@[id as int].alive {
            old(self)@.update(id as int, SlotModel { pending_delete: true, ..old(self)@[id as int] })
        } else {
            old(self)@
        }));
    }

    /// Apply all pending deletions: detach every component of each marked
    /// entity and retire its identifier.
    #[verifier::loop_isolation(false)]
    pub fn maintain(&mut self)
        ensures
            final(self)@ =~= old(self)@.map_values(|s: SlotModel| maintain_slot(s)),
            wf_world(old(self)@) ==> wf_world(final(self)@),
    {
        let n = self.ents.len();
        let mut i: usize = 0;
        while i < n
            invariant
                n == old(self).ents@.len(),
                i <= n,
                self.ents@.len() == n,
                forall|k: int| 0 <= k < i ==> #[trigger] self.ents@[k]@ == maintain_slot(
                    old(self).ents@[k]@,
                ),
                forall|k: int| i <= k < n ==> #[trigger] self.ents@[k] == old(self).ents@[k],
            decreases n - i,
        {
            if self.ents[i].pending_delete {
                let blank = blank_entity_slot();
                self.ents.set(i, blank);
                assert(self.ents@[i as int]@ == blank_slot(false));
                assert(old(self).ents@[i as int]@.pending_delete);
            } else {
                assert(!old(self).ents@[i as int]@.pending_delete);
            }
            i = i + 1;
        }
        assert(self@ =~= old(self)@.map_values(|s: SlotModel| maintain_slot(s)));
    }
}

} // verus!
