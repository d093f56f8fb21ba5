//! One full simulation tick: the input translator first, then the
//! motion resolver and the collision guard, then the animator, the
//! autonomous walker, the proximity collector and the interaction zone
//! tracker, and finally the deferred structural maintenance that applies
//! all deletions marked during the tick. The walker is the one
//! stochastic stage, so the tick's contract pins every stage as a
//! function and quantifies over the walker's possible outcomes.
use vstd::prelude::*;

use std::collections::VecDeque;

use crate::animator::{animator_spec, anims_wf, Animator};
use crate::collectibles::{collectibles_spec, Collectibles};
use crate::collisions::{collisions_spec, Collisions};
use crate::components::{Dialogue_Single_item, Gamestate, MovementCommand, PlayerCommands};
use crate::keyboard::{
    interact_phase_upto, kb_dialogue_after, kb_requests, kb_state_after, kb_world_after,
    movement_phase, Keyboard,
};
use crate::physics::{physics_spec, Physics};
use crate::randomwalker::{walker_rel, RandomWalker};
use crate::update_interaction::{iz_spec, IZUpdater};
use crate::world::{maintain_slot, wf_world, SlotModel, World};

verus! {

/// The animation components of a slot.
pub open spec fn anims_of(s: SlotModel) -> (
    Option<crate::components::MoveAnimM>,
    Option<crate::components::EntAnimM>,
) {
    (s.movement_animation, s.entity_animation)
}

/// The interaction phase leaves every slot's animations alone.
pub proof fn lemma_interact_phase_anims(m: Seq<SlotModel>, i: int, k: int)
    requires
        0 <= k < m.len(),
    ensures
        interact_phase_upto(m, i).len() == m.len(),
        anims_of(interact_phase_upto(m, i)[k]) == anims_of(m[k]),
    decreases (if i > 0 { i } else { 0 }),
{
    crate::keyboard::lemma_interact_phase_len(m, i);
    if i > 0 {
        lemma_interact_phase_anims(m, i - 1, k);
    }
}

/// The stages between the input translator and the animator leave every
/// slot's animations alone, so a store with runnable animations still
/// has them when the animator runs.
pub proof fn lemma_anims_wf_into_animator(
    m: Seq<SlotModel>,
    cs: Seq<MovementCommand>,
    pc: Option<PlayerCommands>,
    gs: Gamestate,
)
    requires
        anims_wf(m),
    ensures
        anims_wf(collisions_spec(physics_spec(kb_world_after(m, cs, pc, gs)))),
{
    let m1 = kb_world_after(m, cs, pc, gs);
    let m2 = physics_spec(m1);
    let m3 = collisions_spec(m2);
    if gs is Running && pc == Some(PlayerCommands::Interact) {
        let mm = movement_phase(m, cs);
        crate::keyboard::lemma_interact_phase_len(mm, mm.len() as int);
    }
    assert(m3.len() == m.len() && m2.len() == m.len() && m1.len() == m.len());
    assert forall|k: int| 0 <= k < m3.len() implies crate::animator::anim_wf_slot(
        #[trigger] m3[k],
    ) by {
        if gs is Running {
            let mm = movement_phase(m, cs);
            assert(mm[k] == crate::keyboard::moved_slot(m[k], cs));
            if pc == Some(PlayerCommands::Interact) {
                lemma_interact_phase_anims(mm, mm.len() as int, k);
            }
        }
        assert(anims_of(m1[k]) == anims_of(m[k]));
        assert(m2[k] == crate::physics::commit_slot(crate::physics::stage_slot(m1, k)));
        assert(m3[k] == crate::collisions::guard_slot(m2, k));
        assert(anims_of(m3[k]) == anims_of(m[k]));
        assert(crate::animator::anim_wf_slot(m[k]));
    }
    assert(anims_wf(m3));
}

/// The stages after the animator leave every slot's animations alone or
/// blank them out, so the store's animations stay runnable across whole
/// ticks.
pub proof fn lemma_anims_wf_out_of_animator(
    m3: Seq<SlotModel>,
    wr: Seq<SlotModel>,
    elapsed_ms: u64,
)
    requires
        anims_wf(m3),
        walker_rel(m3, wr, elapsed_ms),
    ensures
        anims_wf(iz_spec(collectibles_spec(wr)).map_values(|s: SlotModel| maintain_slot(s))),
{
    let m4 = collectibles_spec(wr);
    let m5 = iz_spec(m4);
    let m6 = m5.map_values(|s: SlotModel| maintain_slot(s));
    assert forall|k: int| 0 <= k < m6.len() implies crate::animator::anim_wf_slot(
        #[trigger] m6[k],
    ) by {
        assert(anims_of(wr[k]) == anims_of(m3[k]));
        assert(m4[k] == crate::collectibles::collect_slot(wr, k));
        assert(m5[k] == crate::update_interaction::iz_slot(m4[k]));
        assert(m6[k] == maintain_slot(m5[k]));
        assert(crate::animator::anim_wf_slot(m3[k]));
    }
}

/// The store as the autonomous walker finds it: after the input
/// translator, the motion resolver, the collision guard and the
/// animator.
pub open spec fn tick_before_walker(
    m: Seq<SlotModel>,
    cs: Seq<MovementCommand>,
    pc: Option<PlayerCommands>,
    gs: Gamestate,
) -> Seq<SlotModel> {
    animator_spec(collisions_spec(physics_spec(kb_world_after(m, cs, pc, gs))))
}

/// The store at the tick boundary, as a function of what the walker
/// left behind: the proximity collector, the zone tracker, and the
/// deferred structural maintenance.
pub open spec fn tick_after_walker(wr: Seq<SlotModel>) -> Seq<SlotModel> {
    iz_spec(collectibles_spec(wr)).map_values(|s: SlotModel| maintain_slot(s))
}

/// Run one full simulation tick. The returned strings name the dialogue
/// scripts the caller should load, parse with
/// `crate::dialoguebox::parse_dialogue`, and hand to
/// `crate::dialoguebox::enter_dialogue` before the next tick.
pub fn run_tick(
    world: &mut World,
    movement_commands: &mut VecDeque<MovementCommand>,
    player_command: &Option<PlayerCommands>,
    gamestate: &mut Gamestate,
    dialogue_list: &mut VecDeque<Dialogue_Single_item>,
    elapsed_ms: u64,
) -> (dialogue_requests: Vec<String>)
    requires
        anims_wf(old(world)@),
    ensures
        exists|wr: Seq<SlotModel>|
            {
                &&& #[trigger] walker_rel(
                    tick_before_walker(
                        old(world)@,
                        old(movement_commands)@,
                        *player_command,
                        *old(gamestate),
                    ),
                    wr,
                    elapsed_ms,
                )
                &&& final(world)@ =~= tick_after_walker(wr)
            },
        *final(gamestate) == kb_state_after(*old(gamestate), *player_command, old(dialogue_list)@),
        final(dialogue_list)@ =~= kb_dialogue_after(
            *old(gamestate),
            *player_command,
            old(dialogue_list)@,
        ),
        final(movement_commands)@ =~= (if *old(gamestate) is Running {
            Seq::<MovementCommand>::empty()
        } else {
            old(movement_commands)@
        }),
        dialogue_requests@.map_values(|r: String| r@) =~= kb_requests(
            old(world)@,
            old(movement_commands)@,
            *player_command,
            *old(gamestate),
        ),
        anims_wf(final(world)@),
        wf_world(old(world)@) ==> wf_world(final(world)@),
{
    let requests = Keyboard::run(
        world,
        movement_commands,
        player_command,
        gamestate,
        dialogue_list,
    );
    proof {
        lemma_anims_wf_into_animator(
            old(world)@,
            old(movement_commands)@,
            *player_command,
            *old(gamestate),
        );
    }
    Physics::run(world);
    Collisions::run(world);
    Animator::run(world);
    let ghost m3 = world@;
    RandomWalker::run(world, elapsed_ms);
    let ghost wr = world@;
    Collectibles::run(world);
    IZUpdater::run(world);
    world.maintain();
    proof {
        lemma_anims_wf_out_of_animator(m3, wr, elapsed_ms);
        assert(m3 =~= tick_before_walker(
            old(world)@,
            old(movement_commands)@,
            *player_command,
            *old(gamestate),
        ));
        assert(walker_rel(
            tick_before_walker(
                old(world)@,
                old(movement_commands)@,
                *player_command,
                *old(gamestate),
            ),
            wr,
            elapsed_ms,
        ));
        assert(final(world)@ =~= tick_after_walker(wr));
    }
    requests
}

} // verus!
