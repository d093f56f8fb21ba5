//! The autonomous walker: on ticks that fall on the sampling cadence
//! (every fiftieth elapsed millisecond), each NPC walker pushes, with
//! ninety percent probability, a uniformly drawn direction onto its
//! velocity queue. The draws come from the thread-local generator, so
//! the contract states only what holds of every outcome: a walker's
//! queue either stays as it was or grows by exactly one direction at
//! the back.
use vstd::prelude::*;

use rand::Rng;

use crate::components::{Direction, VelM};
use crate::world::{blank_slot, wf_world, SlotModel, World};

verus! {

#[verifier::external_type_specification]
#[verifier::external_body]
pub struct ExThreadRng(rand::rngs::ThreadRng);

/// Relies on rand::thread_rng: a handle to the calling thread's
/// lazily-seeded generator.
#[verifier::external_body]
fn fresh_rng() -> rand::rngs::ThreadRng {
    rand::thread_rng()
}

/// Relies on rand::Rng::gen_range: a sample uniform over `[0, n)`; the
/// range is nonempty, so the call cannot panic, and every outcome is
/// below `n`.
#[verifier::external_body]
fn rand_below(rng: &mut rand::rngs::ThreadRng, n: u32) -> (r: u32)
    requires
        n > 0,
    ensures
        r < n,
{
    rng.gen_range(0..n)
}

/// The direction drawn for a sample in `[0, 4)`.
pub open spec fn dir_from_sample(r: u32) -> Direction {
    if r == 0 {
        Direction::Right
    } else if r == 1 {
        Direction::Down
    } else if r == 2 {
        Direction::Left
    } else {
        Direction::Up
    }
}

/// Exec counterpart of `dir_from_sample`.
fn sample_to_dir(r: u32) -> (d: Direction)
    ensures
        d == dir_from_sample(r),
{
    if r == 0 {
        Direction::Right
    } else if r == 1 {
        Direction::Down
    } else if r == 2 {
        Direction::Left
    } else {
        Direction::Up
    }
}

/// Does the walker pass act on this entity?
pub open spec fn is_walker(s: SlotModel) -> bool {
    &&& s.npc_walker
    &&& s.velocity is Some
}

/// One possible outcome for a walker's slot: either untouched, or with
/// one direction appended to its queue and nothing else changed.
pub open spec fn walker_stepped(pre: SlotModel, post: SlotModel) -> bool {
    ||| post == pre
    ||| exists|d: Direction|
        post == (SlotModel {
            velocity: Some(VelM { speed: pre.velocity->0.speed, dirs: pre.velocity->0.dirs.push(d) }),
            ..pre
        })
}

/// What one walker pass may do to the store: on the sampling cadence
/// every walker steps (or stays), and every other slot is untouched; off
/// the cadence nothing changes at all.
pub open spec fn walker_rel(pre: Seq<SlotModel>, post: Seq<SlotModel>, elapsed_ms: u64) -> bool {
    &&& post.len() == pre.len()
    &&& forall|i: int|
        0 <= i < pre.len() ==> if is_walker(#[trigger] pre[i]) && elapsed_ms % 50 == 0 {
            walker_stepped(pre[i], post[i])
        } else {
            post[i] == pre[i]
        }
}

/// The autonomous walker system.
pub struct RandomWalker;

impl RandomWalker {
    /// Inject stochastic direction changes into every NPC walker's
    /// queue, sampled on the elapsed-milliseconds cadence.
    #[verifier::loop_isolation(false)]
    pub fn run(world: &mut World, elapsed_ms: u64)
        ensures
            walker_rel(old(world)@, final(world)@, elapsed_ms),
            final(world)@.len() == old(world)@.len(),
            wf_world(old(world)@) ==> wf_world(final(world)@),
    {
        let n = world.ents.len();
        if elapsed_ms % 50 != 0 {
            return ;
        }
        let mut rng = fresh_rng();
        let mut i: usize = 0;
        while i < n
            invariant
                world.ents@.len() == n,
                i <= n,
                forall|k: int|
                    0 <= k < i ==> (if is_walker(old(world)@[k]) {
                        walker_stepped(old(world)@[k], #[trigger] world.ents@[k]@)
                    } else {
                        world.ents@[k]@ == old(world)@[k]
                    }),
                forall|k: int| i <= k < n ==> #[trigger] world.ents@[k] == old(world).ents@[k],
            decreases n - i,
        {
            let walker = {
                let slot = &world.ents[i];
                slot.npc_walker && slot.velocity.is_some()
            };
            if walker {
                assert(is_walker(old(world)@[i as int]));
                let chance = rand_below(&mut rng, 10);
                if chance < 9 {
                    let d = sample_to_dir(rand_below(&mut rng, 4));
                    let slot = &mut world.ents[i];
                    match &mut slot.velocity {
                        Some(v) => {
                            v.direction.push_back(d);
                        },
                        None => {},
                    }
                    assert(world.ents@[i as int]@ == (SlotModel {
                        velocity: Some(
                            VelM {
                                speed: old(world)@[i as int].velocity->0.speed,
                                dirs: old(world)@[i as int].velocity->0.dirs.push(d),
                            },
                        ),
                        ..old(world)@[i as int]
                    }));
                    assert(walker_stepped(old(world)@[i as int], world.ents@[i as int]@));
                } else {
                    assert(walker_stepped(old(world)@[i as int], world.ents@[i as int]@));
                }
            } else {
                assert(!is_walker(old(world)@[i as int]));
            }
            i = i + 1;
        }
        proof {
            if wf_world(old(world)@) {
                assert forall|k: int|
                    0 <= k < n && !world@[k].alive implies world@[k] == blank_slot(false) by {
                    assert(world@[k] == old(world)@[k]);
                }
                assert(wf_world(world@));
            }
        }
    }
}

} // verus!
