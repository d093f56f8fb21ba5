//! The input translator, interaction resolver and game-state machine.
//!
//! While the game is running, the queued movement intents are drained in
//! order: `Move` sets the fixed player speed and appends its direction
//! to each keyboard-controlled entity's queue, `Stop` removes every
//! occurrence of its direction, and after each intent the facing is
//! synced to the queue's new front. An `Interact` command then probes
//! each interaction zone: every interactable whose position lies inside
//! the probe and whose counter allows it reacts — plain kinds advance
//! their counter, while characters carrying a dialogue ask for their
//! script to be loaded (the caller reads the file, parses it, and enters
//! the dialogue state through `crate::dialoguebox::enter_dialogue`). A
//! `Menu` command switches to the menu. While in dialogue, `Interact`
//! pops one entry from the dialogue queue and returns to running when
//! the queue empties; paused and menu states ignore input altogether.
use vstd::prelude::*;

use std::collections::VecDeque;

use crate::components::{
    interact_step, Dialogue_Single_item, Direction, Facing, Gamestate, Interactable,
    InteractableType, MovementCommand, PlayerCommands, VelM,
};
use crate::geom::{rect_contains, Point, Rect};
use crate::physics::pos_pt;
use crate::world::{blank_slot, wf_world, EntitySlot, SlotModel, World};

verus! {

/// The speed given to keyboard-controlled movers by a `Move` intent.
pub const PLAYER_MOVEMENT_SPEED: i32 = 5;

/// The parts of a keyboard-controlled entity the movement intents act
/// on: speed, direction queue and facing.
pub ghost struct MoveState {
    pub speed: int,
    pub dirs: Seq<Direction>,
    pub facing: Direction,
}

/// Does the movement phase act on this entity?
pub open spec fn is_kb_mover(s: SlotModel) -> bool {
    &&& s.keyboard_controlled
    &&& s.velocity is Some
    &&& s.facing is Some
}

pub open spec fn slot_move_state(s: SlotModel) -> MoveState {
    MoveState {
        speed: s.velocity->0.speed,
        dirs: s.velocity->0.dirs,
        facing: s.facing->0.direction,
    }
}

/// The queue with every occurrence of `d` removed, the order of the
/// rest kept.
pub open spec fn without_dir(s: Seq<Direction>, d: Direction) -> Seq<Direction>
    decreases s.len(),
{
    if s.len() == 0 {
        s
    } else {
        let rest = without_dir(s.drop_last(), d);
        if s.last() != d {
            rest.push(s.last())
        } else {
            rest
        }
    }
}

/// Removing `d` from a queue extended at the back keeps the cleaned
/// front and appends the new element exactly when it is not `d`.
pub proof fn lemma_without_dir_snoc(s: Seq<Direction>, d: Direction, x: Direction)
    ensures
        without_dir(s.push(x), d) == (if x != d {
            without_dir(s, d).push(x)
        } else {
            without_dir(s, d)
        }),
{
    assert(s.push(x).drop_last() =~= s);
    assert(s.push(x).last() == x);
    assert(s.push(x).len() == s.len() + 1);
}

/// One movement intent: `Move` sets the player speed and queues its
/// direction, `Stop` removes every occurrence of its direction; then
/// the facing follows the queue's new front, if any.
pub open spec fn apply_command(st: MoveState, c: MovementCommand) -> MoveState {
    let st1 = match c {
        MovementCommand::Move(d) => MoveState {
            speed: PLAYER_MOVEMENT_SPEED as int,
            dirs: st.dirs.push(d),
            facing: st.facing,
        },
        MovementCommand::Stop(d) => MoveState {
            speed: st.speed,
            dirs: without_dir(st.dirs, d),
            facing: st.facing,
        },
    };
    if st1.dirs.len() > 0 {
        MoveState { speed: st1.speed, dirs: st1.dirs, facing: st1.dirs[0] }
    } else {
        st1
    }
}

/// The whole queue of intents, drained in order.
pub open spec fn apply_commands(st: MoveState, cs: Seq<MovementCommand>) -> MoveState
    decreases cs.len(),
{
    if cs.len() == 0 {
        st
    } else {
        apply_commands(apply_command(st, cs[0]), cs.drop_first())
    }
}

/// Draining a queue and then one more intent is draining the queue with
/// that intent appended.
pub proof fn lemma_apply_commands_snoc(st: MoveState, cs: Seq<MovementCommand>, c: MovementCommand)
    ensures
        apply_commands(st, cs.push(c)) == apply_command(apply_commands(st, cs), c),
    decreases cs.len(),
{
    reveal_with_fuel(apply_commands, 3);
    if cs.len() == 0 {
        assert(cs.push(c).drop_first() =~= cs);
    } else {
        assert(cs.push(c).drop_first() =~= cs.drop_first().push(c));
        lemma_apply_commands_snoc(apply_command(st, cs[0]), cs.drop_first(), c);
    }
}

/// What one intent makes of one slot.
pub open spec fn command_slot(s: SlotModel, c: MovementCommand) -> SlotModel {
    if is_kb_mover(s) {
        let st = apply_command(slot_move_state(s), c);
        SlotModel {
            velocity: Some(VelM { speed: st.speed, dirs: st.dirs }),
            facing: Some(Facing { direction: st.facing }),
            ..s
        }
    } else {
        s
    }
}

/// What the whole movement phase makes of one slot.
pub open spec fn moved_slot(s: SlotModel, cs: Seq<MovementCommand>) -> SlotModel {
    if is_kb_mover(s) {
        let st = apply_commands(slot_move_state(s), cs);
        SlotModel {
            velocity: Some(VelM { speed: st.speed, dirs: st.dirs }),
            facing: Some(Facing { direction: st.facing }),
            ..s
        }
    } else {
        s
    }
}

/// The store after the movement phase.
pub open spec fn movement_phase(m: Seq<SlotModel>, cs: Seq<MovementCommand>) -> Seq<SlotModel> {
    m.map_values(|s: SlotModel| moved_slot(s, cs))
}

/// Applying the queue and then one intent to a slot is applying the
/// queue with that intent appended.
pub proof fn lemma_moved_slot_snoc(s: SlotModel, cs: Seq<MovementCommand>, c: MovementCommand)
    ensures
        command_slot(moved_slot(s, cs), c) == moved_slot(s, cs.push(c)),
{
    if is_kb_mover(s) {
        lemma_apply_commands_snoc(slot_move_state(s), cs, c);
    }
}

/// Remove every occurrence of `d` from the queue, keeping the order of
/// the rest: each element is popped from the front once and pushed back
/// unless it is `d`.
fn remove_direction(q: &mut VecDeque<Direction>, d: Direction)
    ensures
        final(q)@ == without_dir(old(q)@, d),
{
    let len = q.len();
    let mut k: usize = 0;
    while k < len
        invariant
            len == old(q)@.len(),
            k <= len,
            q@ =~= old(q)@.subrange(k as int, len as int) + without_dir(old(q)@.take(k as int), d),
        decreases len - k,
    {
        let ghost tail = old(q)@.subrange(k + 1, len as int);
        let ghost kept = without_dir(old(q)@.take(k as int), d);
        match q.pop_front() {
            Some(x) => {
                proof {
                    assert(x == old(q)@[k as int]);
                    assert(q@ =~= tail + kept);
                }
                if x != d {
                    q.push_back(x);
                    proof {
                        assert(q@ =~= tail + kept.push(x));
                        assert(old(q)@.take(k + 1) =~= old(q)@.take(k as int).push(x));
                        lemma_without_dir_snoc(old(q)@.take(k as int), d, x);
                        assert(q@ =~= tail + without_dir(old(q)@.take(k + 1), d));
                    }
                } else {
                    proof {
                        assert(old(q)@.take(k + 1) =~= old(q)@.take(k as int).push(x));
                        lemma_without_dir_snoc(old(q)@.take(k as int), d, x);
                        assert(q@ =~= tail + without_dir(old(q)@.take(k + 1), d));
                    }
                }
            },
            None => {},
        }
        k = k + 1;
    }
    proof {
        assert(old(q)@.take(len as int) =~= old(q)@);
        assert(q@ =~= without_dir(old(q)@, d));
    }
}

/// Apply one movement intent to one entity slot.
fn apply_command_slot(slot: &mut EntitySlot, c: MovementCommand)
    ensures
        final(slot)@ == command_slot(old(slot)@, c),
{
    let acts = slot.keyboard_controlled && slot.velocity.is_some() && slot.facing.is_some();
    if acts {
        match &mut slot.velocity {
            Some(v) => {
                match c {
                    MovementCommand::Move(d) => {
                        v.speed = PLAYER_MOVEMENT_SPEED;
                        v.direction.push_back(d);
                    },
                    MovementCommand::Stop(d) => {
                        remove_direction(&mut v.direction, d);
                    },
                }
            },
            None => {},
        }
        let front: Option<Direction> = {
            match &slot.velocity {
                Some(v) => {
                    if v.direction.len() > 0 {
                        Some(v.direction[0])
                    } else {
                        None
                    }
                },
                None => None,
            }
        };
        match front {
            Some(d0) => {
                match &mut slot.facing {
                    Some(f) => {
                        f.direction = d0;
                    },
                    None => {},
                }
            },
            None => {},
        }
        assert(slot@ == command_slot(old(slot)@, c));
    } else {
        assert(!is_kb_mover(old(slot)@));
    }
}

/// Drain the movement-intent queue in order over the whole store.
#[verifier::loop_isolation(false)]
fn movement_drain(world: &mut World, q: &mut VecDeque<MovementCommand>)
    ensures
        final(world)@ =~= movement_phase(old(world)@, old(q)@),
        final(q)@.len() == 0,
        final(world)@.len() == old(world)@.len(),
{
    let n = world.ents.len();
    let ghost cs = old(q)@;
    let ghost total = cs.len();
    let ghost mut t: int = 0;
    while q.len() != 0
        invariant
            world.ents@.len() == n,
            0 <= t <= total,
            q@ =~= cs.skip(t),
            forall|k: int|
                0 <= k < n ==> #[trigger] world.ents@[k]@ == moved_slot(old(world)@[k], cs.take(t)),
        decreases total - t,
    {
        let c_opt = q.pop_front();
        match c_opt {
            Some(c) => {
                proof {
                    assert(c == cs[t]);
                    assert(q@ =~= cs.skip(t + 1));
                }
                let mut i: usize = 0;
                while i < n
                    invariant
                        world.ents@.len() == n,
                        i <= n,
                        forall|k: int|
                            0 <= k < i ==> #[trigger] world.ents@[k]@ == moved_slot(
                                old(world)@[k],
                                cs.take(t + 1),
                            ),
                        forall|k: int|
                            i <= k < n ==> #[trigger] world.ents@[k]@ == moved_slot(
                                old(world)@[k],
                                cs.take(t),
                            ),
                    decreases n - i,
                {
                    let slot = &mut world.ents[i];
                    apply_command_slot(slot, c);
                    proof {
                        lemma_moved_slot_snoc(old(world)@[i as int], cs.take(t), c);
                        assert(cs.take(t).push(c) =~= cs.take(t + 1));
                        assert(world.ents@[i as int]@ == moved_slot(
                            old(world)@[i as int],
                            cs.take(t + 1),
                        ));
                    }
                    i = i + 1;
                }
                proof {
                    t = t + 1;
                }
            },
            None => {},
        }
    }
    proof {
        assert(t == total);
        assert(cs.take(total as int) =~= cs);
        assert(final(world)@ =~= movement_phase(old(world)@, cs));
    }
}

/// May this interactable react to a probe with rectangle `zr`: its
/// position lies inside the probe and its counter is below a positive
/// maximum, or the maximum is zero (unlimited).
pub open spec fn eligible(zr: Rect, s: SlotModel) -> bool {
    &&& s.position is Some
    &&& s.interactable is Some
    &&& rect_contains(zr, pos_pt(s))
    &&& ((s.interactable->0.interactions < s.interactable->0.max_interactions
        && s.interactable->0.max_interactions > 0) || s.interactable->0.max_interactions == 0)
}

/// What one probe makes of one interactable slot: every eligible plain
/// kind advances its counter (characters only converse, and a counter
/// already at the integer limit stays put); everything else is
/// untouched.
pub open spec fn interact_object_slot(zr: Rect, s: SlotModel) -> SlotModel {
    if eligible(zr, s) && !(s.interactable->0.interaction_type is Character)
        && s.interactable->0.interactions < i64::MAX {
        let it = s.interactable->0;
        SlotModel {
            interactable: Some(
                Interactable {
                    interactions: interact_step(
                        it.interactions as int,
                        it.max_interactions as int,
                    ) as i64,
                    max_interactions: it.max_interactions,
                    interaction_type: it.interaction_type,
                },
            ),
            ..s
        }
    } else {
        s
    }
}

/// Does this slot ask for its dialogue script: an eligible character
/// that carries a dialogue component.
pub open spec fn wants_dialogue(zr: Rect, s: SlotModel) -> bool {
    &&& eligible(zr, s)
    &&& s.interactable->0.interaction_type is Character
    &&& s.dialogue is Some
}

/// The store after one probe has visited every slot.
pub open spec fn zone_pass(m: Seq<SlotModel>, zr: Rect) -> Seq<SlotModel> {
    m.map_values(|s: SlotModel| interact_object_slot(zr, s))
}

/// The dialogue files asked for by the first `j` slots under one probe,
/// in slot order.
pub open spec fn zone_requests(m: Seq<SlotModel>, zr: Rect, j: int) -> Seq<Seq<char>>
    decreases j,
{
    if j <= 0 {
        Seq::empty()
    } else {
        zone_requests(m, zr, j - 1) + (if wants_dialogue(zr, m[j - 1]) {
            seq![m[j - 1].dialogue->0.dialogue_file]
        } else {
            Seq::empty()
        })
    }
}

/// The store after the probes of the first `i` slots have resolved, in
/// slot order; eligibility under a later probe sees the counters the
/// earlier probes left behind.
pub open spec fn interact_phase_upto(m: Seq<SlotModel>, i: int) -> Seq<SlotModel>
    decreases i,
{
    if i <= 0 {
        m
    } else {
        let prev = interact_phase_upto(m, i - 1);
        if prev[i - 1].interaction_zone is Some {
            zone_pass(prev, prev[i - 1].interaction_zone->0.rect)
        } else {
            prev
        }
    }
}

/// The dialogue files asked for under the probes of the first `i` slots.
pub open spec fn interact_requests_upto(m: Seq<SlotModel>, i: int) -> Seq<Seq<char>>
    decreases i,
{
    if i <= 0 {
        Seq::empty()
    } else {
        let prev = interact_phase_upto(m, i - 1);
        interact_requests_upto(m, i - 1) + (if prev[i - 1].interaction_zone is Some {
            zone_requests(prev, prev[i - 1].interaction_zone->0.rect, prev.len() as int)
        } else {
            Seq::empty()
        })
    }
}

/// The interaction phase never adds or removes entities.
pub proof fn lemma_interact_phase_len(m: Seq<SlotModel>, i: int)
    ensures
        interact_phase_upto(m, i).len() == m.len(),
    decreases (if i > 0 { i } else { 0 }),
{
    if i > 0 {
        lemma_interact_phase_len(m, i - 1);
    }
}

/// The interaction phase never changes whether an entity is alive.
pub proof fn lemma_interact_phase_alive(m: Seq<SlotModel>, i: int, k: int)
    requires
        0 <= k < m.len(),
    ensures
        interact_phase_upto(m, i).len() == m.len(),
        interact_phase_upto(m, i)[k].alive == m[k].alive,
    decreases (if i > 0 { i } else { 0 }),
{
    lemma_interact_phase_len(m, i);
    if i > 0 {
        lemma_interact_phase_alive(m, i - 1, k);
    }
}

/// A retired, component-free slot is untouched by the interaction phase.
pub proof fn lemma_interact_phase_blank(m: Seq<SlotModel>, i: int, k: int)
    requires
        0 <= k < m.len(),
        m[k] == blank_slot(false),
    ensures
        interact_phase_upto(m, i).len() == m.len(),
        interact_phase_upto(m, i)[k] == m[k],
    decreases (if i > 0 { i } else { 0 }),
{
    lemma_interact_phase_len(m, i);
    if i > 0 {
        lemma_interact_phase_blank(m, i - 1, k);
    }
}

/// Resolve every probe in the store, visiting probes and, under each
/// probe, candidate slots in entity order; the returned strings name
/// the dialogue files of the characters that were engaged.
#[verifier::loop_isolation(false)]
fn interact_pass(world: &mut World) -> (reqs: Vec<String>)
    ensures
        final(world)@ =~= interact_phase_upto(old(world)@, old(world)@.len() as int),
        reqs@.map_values(|r: String| r@) =~= interact_requests_upto(
            old(world)@,
            old(world)@.len() as int,
        ),
        final(world)@.len() == old(world)@.len(),
{
    let n = world.ents.len();
    let mut reqs: Vec<String> = Vec::new();
    let mut i: usize = 0;
    while i < n
        invariant
            world.ents@.len() == n,
            i <= n,
            forall|k: int|
                0 <= k < n ==> #[trigger] world.ents@[k]@ == interact_phase_upto(
                    old(world)@,
                    i as int,
                )[k],
            reqs@.map_values(|r: String| r@) =~= interact_requests_upto(old(world)@, i as int),
        decreases n - i,
    {
        proof {
            lemma_interact_phase_len(old(world)@, i as int);
            lemma_interact_phase_len(old(world)@, i + 1);
        }
        let ghost mi = interact_phase_upto(old(world)@, i as int);
        let zone: Option<Rect> = {
            let slot = &world.ents[i];
            match &slot.interaction_zone {
                Some(z) => Some(z.rect),
                None => None,
            }
        };
        match zone {
            Some(zr) => {
                proof {
                    assert(world.ents@[i as int]@ == mi[i as int]);
                    assert(mi[i as int].interaction_zone is Some);
                    assert(zr == mi[i as int].interaction_zone->0.rect);
                }
                let mut j: usize = 0;
                while j < n
                    invariant
                        world.ents@.len() == n,
                        j <= n,
                        forall|k: int|
                            0 <= k < j ==> #[trigger] world.ents@[k]@ == interact_object_slot(
                                zr,
                                mi[k],
                            ),
                        forall|k: int| j <= k < n ==> #[trigger] world.ents@[k]@ == mi[k],
                        reqs@.map_values(|r: String| r@) =~= interact_requests_upto(
                            old(world)@,
                            i as int,
                        ) + zone_requests(mi, zr, j as int),
                    decreases n - j,
                {
                    let obj: Option<(Point, Interactable)> = {
                        let slot = &world.ents[j];
                        match (&slot.position, &slot.interactable) {
                            (Some(p), Some(it)) => Some((p.0, *it)),
                            _ => None,
                        }
                    };
                    let ghost reqs_pre = reqs@.map_values(|r: String| r@);
                    match obj {
                        Some((p, it)) => {
                            let ok = zr.contains_point(p) && ((it.interactions
                                < it.max_interactions && it.max_interactions > 0)
                                || it.max_interactions == 0);
                            proof {
                                assert(ok == eligible(zr, mi[j as int]));
                            }
                            if ok {
                                match it.interaction_type {
                                    InteractableType::Character => {
                                        let file: Option<String> = {
                                            let slot = &world.ents[j];
                                            match &slot.dialogue {
                                                Some(dg) => Some(dg.dialogue_file.clone()),
                                                None => None,
                                            }
                                        };
                                        match file {
                                            Some(f) => {
                                                proof {
                                                    assert(wants_dialogue(zr, mi[j as int]));
                                                    assert(f@ == mi[
                                                        j as int
                                                    ].dialogue->0.dialogue_file);
                                                }
                                                reqs.push(f);
                                                proof {
                                                    assert(reqs@.map_values(|r: String| r@)
                                                        =~= reqs_pre.push(f@));
                                                }
                                            },
                                            None => {
                                                proof {
                                                    assert(!wants_dialogue(zr, mi[j as int]));
                                                }
                                            },
                                        }
                                    },
                                    _ => {
                                        let slot = &mut world.ents[j];
                                        match &mut slot.interactable {
                                            Some(obj_it) => {
                                                if obj_it.interactions < i64::MAX {
                                                    obj_it.interact();
                                                }
                                            },
                                            None => {},
                                        }
                                    },
                                }
                            }
                            proof {
                                assert(world.ents@[j as int]@ == interact_object_slot(
                                    zr,
                                    mi[j as int],
                                ));
                            }
                        },
                        None => {
                            proof {
                                assert(!eligible(zr, mi[j as int]));
                                assert(world.ents@[j as int]@ == interact_object_slot(
                                    zr,
                                    mi[j as int],
                                ));
                            }
                        },
                    }
                    proof {
                        if wants_dialogue(zr, mi[j as int]) {
                            assert(zone_requests(mi, zr, j + 1) =~= zone_requests(mi, zr, j as int)
                                + seq![mi[j as int].dialogue->0.dialogue_file]);
                        } else {
                            assert(zone_requests(mi, zr, j + 1) =~= zone_requests(
                                mi,
                                zr,
                                j as int,
                            ));
                        }
                        assert(reqs@.map_values(|r: String| r@) =~= interact_requests_upto(
                            old(world)@,
                            i as int,
                        ) + zone_requests(mi, zr, j + 1));
                    }
                    j = j + 1;
                }
                proof {
                    assert(interact_phase_upto(old(world)@, i + 1) == zone_pass(mi, zr));
                    assert(forall|k: int|
                        0 <= k < n ==> #[trigger] world.ents@[k]@ == interact_phase_upto(
                            old(world)@,
                            i + 1,
                        )[k]);
                    assert(zone_requests(mi, zr, n as int) == zone_requests(
                        mi,
                        zr,
                        mi.len() as int,
                    ));
                    assert(reqs@.map_values(|r: String| r@) =~= interact_requests_upto(
                        old(world)@,
                        i + 1,
                    ));
                }
            },
            None => {
                proof {
                    assert(world.ents@[i as int]@ == mi[i as int]);
                    assert(!(mi[i as int].interaction_zone is Some));
                    assert(interact_phase_upto(old(world)@, i + 1) == mi);
                    assert(interact_requests_upto(old(world)@, i + 1) =~= interact_requests_upto(
                        old(world)@,
                        i as int,
                    ));
                }
            },
        }
        i = i + 1;
    }
    proof {
        lemma_interact_phase_len(old(world)@, n as int);
    }
    assert(final(world)@ =~= interact_phase_upto(old(world)@, n as int));
    reqs
}

/// The game state after one translator run.
pub open spec fn kb_state_after(
    gs: Gamestate,
    pc: Option<PlayerCommands>,
    dl: Seq<Dialogue_Single_item>,
) -> Gamestate {
    if gs is Running && pc == Some(PlayerCommands::Menu) {
        Gamestate::Menu
    } else if gs is Dialogue && pc == Some(PlayerCommands::Interact) {
        if dl.len() <= 1 {
            Gamestate::Running
        } else {
            Gamestate::Dialogue
        }
    } else {
        gs
    }
}

/// The dialogue queue after one translator run.
pub open spec fn kb_dialogue_after(
    gs: Gamestate,
    pc: Option<PlayerCommands>,
    dl: Seq<Dialogue_Single_item>,
) -> Seq<Dialogue_Single_item> {
    if gs is Dialogue && pc == Some(PlayerCommands::Interact) {
        if dl.len() > 0 {
            dl.drop_first()
        } else {
            dl
        }
    } else {
        dl
    }
}

/// The store after one translator run.
pub open spec fn kb_world_after(
    m: Seq<SlotModel>,
    cs: Seq<MovementCommand>,
    pc: Option<PlayerCommands>,
    gs: Gamestate,
) -> Seq<SlotModel> {
    if gs is Running {
        let m1 = movement_phase(m, cs);
        if pc == Some(PlayerCommands::Interact) {
            interact_phase_upto(m1, m1.len() as int)
        } else {
            m1
        }
    } else {
        m
    }
}

/// The dialogue files one translator run asks the caller to load.
pub open spec fn kb_requests(
    m: Seq<SlotModel>,
    cs: Seq<MovementCommand>,
    pc: Option<PlayerCommands>,
    gs: Gamestate,
) -> Seq<Seq<char>> {
    if gs is Running && pc == Some(PlayerCommands::Interact) {
        interact_requests_upto(movement_phase(m, cs), m.len() as int)
    } else {
        Seq::empty()
    }
}

/// The game state and dialogue queue after `j` `Interact` commands.
pub open spec fn drain_iter(gs: Gamestate, dl: Seq<Dialogue_Single_item>, j: nat) -> (
    Gamestate,
    Seq<Dialogue_Single_item>,
)
    decreases j,
{
    if j == 0 {
        (gs, dl)
    } else {
        let prev = drain_iter(gs, dl, (j - 1) as nat);
        (
            kb_state_after(prev.0, Some(PlayerCommands::Interact), prev.1),
            kb_dialogue_after(prev.0, Some(PlayerCommands::Interact), prev.1),
        )
    }
}

/// A dialogue of `K` entries drains in exactly `K` `Interact` commands:
/// before the last one the game is still in dialogue with the remaining
/// entries queued in order, and exactly on the `K`-th the queue is empty
/// and the game is running again.
pub proof fn lemma_dialogue_drains(dl: Seq<Dialogue_Single_item>, j: nat)
    requires
        dl.len() > 0,
        j <= dl.len(),
    ensures
        j < dl.len() ==> drain_iter(Gamestate::Dialogue, dl, j) == (
            Gamestate::Dialogue,
            dl.skip(j as int),
        ),
        j == dl.len() ==> drain_iter(Gamestate::Dialogue, dl, j) == (
            Gamestate::Running,
            Seq::<Dialogue_Single_item>::empty(),
        ),
    decreases j,
{
    if j > 0 {
        lemma_dialogue_drains(dl, (j - 1) as nat);
        assert(dl.skip(j - 1).drop_first() =~= dl.skip(j as int));
        if j == dl.len() {
            assert(dl.skip(j as int) =~= Seq::<Dialogue_Single_item>::empty());
        }
    }
}

/// The input translator, interaction resolver and game-state machine.
pub struct Keyboard;

impl Keyboard {
    /// Run one translation pass: drain movement intents and resolve the
    /// player command under the current game state. The returned strings
    /// name the dialogue scripts the caller should load, parse and hand
    /// to `crate::dialoguebox::enter_dialogue`.
    pub fn run(
        world: &mut World,
        movement_commands: &mut VecDeque<MovementCommand>,
        player_command: &Option<PlayerCommands>,
        gamestate: &mut Gamestate,
        dialogue_list: &mut VecDeque<Dialogue_Single_item>,
    ) -> (dialogue_requests: Vec<String>)
        ensures
            final(world)@ =~= kb_world_after(
                old(world)@,
                old(movement_commands)@,
                *player_command,
                *old(gamestate),
            ),
            final(movement_commands)@ =~= (if *old(gamestate) is Running {
                Seq::<MovementCommand>::empty()
            } else {
                old(movement_commands)@
            }),
            *final(gamestate) == kb_state_after(
                *old(gamestate),
                *player_command,
                old(dialogue_list)@,
            ),
            final(dialogue_list)@ =~= kb_dialogue_after(
                *old(gamestate),
                *player_command,
                old(dialogue_list)@,
            ),
            dialogue_requests@.map_values(|r: String| r@) =~= kb_requests(
                old(world)@,
                old(movement_commands)@,
                *player_command,
                *old(gamestate),
            ),
            final(world)@.len() == old(world)@.len(),
            wf_world(old(world)@) ==> wf_world(final(world)@),
    {
        let mut requests: Vec<String> = Vec::new();
        let running = match gamestate {
            Gamestate::Running => true,
            _ => false,
        };
        let in_dialogue = match gamestate {
            Gamestate::Dialogue => true,
            _ => false,
        };
        if running {
            movement_drain(world, movement_commands);
            match player_command {
                Some(PlayerCommands::Interact) => {
                    proof {
                        lemma_interact_phase_len(
                            movement_phase(old(world)@, old(movement_commands)@),
                            old(world)@.len() as int,
                        );
                    }
                    requests = interact_pass(world);
                },
                Some(PlayerCommands::Menu) => {
                    *gamestate = Gamestate::Menu;
                },
                None => {},
            }
        } else if in_dialogue {
            match player_command {
                Some(PlayerCommands::Interact) => {
                    dialogue_list.pop_front();
                    if dialogue_list.len() == 0 {
                        *gamestate = Gamestate::Running;
                    }
                },
                _ => {},
            }
        }
        proof {
            if wf_world(old(world)@) {
                let m2 = world@;
                assert forall|k: int|
                    0 <= k < m2.len() && !m2[k].alive implies m2[k] == blank_slot(false) by {
                    if *old(gamestate) is Running {
                        let m1 = movement_phase(old(world)@, old(movement_commands)@);
                        assert(m1[k] == moved_slot(old(world)@[k], old(movement_commands)@));
                        if *player_command == Some(PlayerCommands::Interact) {
                            lemma_interact_phase_alive(m1, m1.len() as int, k);
                            assert(m1[k].alive == m2[k].alive);
                            assert(old(world)@[k] == blank_slot(false));
                            lemma_interact_phase_blank(m1, m1.len() as int, k);
                        } else {
                            assert(old(world)@[k] == blank_slot(false));
                        }
                    }
                }
                assert(wf_world(m2));
            }
        }
        requests
    }
}

} // verus!
