//! The motion resolver: for every entity with a pending direction it
//! computes a tentative position one speed-step along the active
//! direction's axis, validates the swept segment from the old to the
//! tentative position against the bounding rectangle of every other
//! blocking entity, and stages the outcome in the movement flag; a second
//! pass commits all staged positions. Any intersecting obstacle rejects
//! the move, so the result does not depend on the order obstacles are
//! examined, and staging before committing keeps it independent of the
//! order entities are examined.
use vstd::prelude::*;

use crate::components::{Direction, FlagForMovement, Position};
use crate::geom::{clamp_i32, sat_add_i32, seg_hits_rect, spec_rect_from_center, Point, Rect};
use crate::world::{blank_slot, wf_world, SlotModel, World};

verus! {

/// Signed unit step along the x axis for a direction.
pub open spec fn dir_dx(d: Direction) -> int {
    match d {
        Direction::Right => 1,
        Direction::Left => -1,
        Direction::Down => 0,
        Direction::Up => 0,
    }
}

/// Signed unit step along the y axis for a direction.
pub open spec fn dir_dy(d: Direction) -> int {
    match d {
        Direction::Right => 0,
        Direction::Left => 0,
        Direction::Down => 1,
        Direction::Up => -1,
    }
}

/// The point one speed-step from `p` along `d`, clamped to the
/// coordinate range.
pub open spec fn step_target(p: Point, d: Direction, speed: int) -> Point {
    Point {
        x: clamp_i32(p.x + speed * dir_dx(d)) as i32,
        y: clamp_i32(p.y + speed * dir_dy(d)) as i32,
    }
}

/// The position point of a slot that has a `Position` component.
pub open spec fn pos_pt(s: SlotModel) -> Point {
    match s.position {
        Some(p) => p.0,
        None => Point { x: 0, y: 0 },
    }
}

/// Does this entity take part in the movement pass: position, velocity,
/// collision box and movement flag, with a nonempty direction queue?
pub open spec fn is_mover(s: SlotModel) -> bool {
    &&& s.position is Some
    &&& s.velocity is Some
    &&& s.collision_box is Some
    &&& s.movement_flag is Some
    &&& s.velocity->0.dirs.len() > 0
}

/// The active direction of a mover: the front of its queue.
pub open spec fn active_dir(s: SlotModel) -> Direction {
    s.velocity->0.dirs[0]
}

/// The tentative position a mover heads for this tick.
pub open spec fn mover_target(s: SlotModel) -> Point {
    step_target(pos_pt(s), active_dir(s), s.velocity->0.speed)
}

/// Does this entity block movement: tagged as scenery, with a position
/// and a collision box?
pub open spec fn is_obstacle(s: SlotModel) -> bool {
    &&& s.unplayable
    &&& s.position is Some
    &&& s.collision_box is Some
}

/// The bounding rectangle of a blocking entity, centered on its position.
pub open spec fn obstacle_rect(s: SlotModel) -> Rect {
    spec_rect_from_center(pos_pt(s), s.collision_box->0.width, s.collision_box->0.height)
}

/// Is the mover at index `i` blocked: does its swept segment touch the
/// rectangle of any other blocking entity?
pub open spec fn move_blocked(m: Seq<SlotModel>, i: int) -> bool {
    exists|j: int|
        0 <= j < m.len() && j != i && is_obstacle(m[j]) && seg_hits_rect(
            pos_pt(m[i]),
            mover_target(m[i]),
            obstacle_rect(m[j]),
        )
}

/// What the staging pass makes of the slot at index `i`: movers get their
/// flag set (cleared and left at the old staged target when blocked,
/// pointed at the tentative position otherwise); all others are untouched.
pub open spec fn stage_slot(m: Seq<SlotModel>, i: int) -> SlotModel {
    if is_mover(m[i]) {
        if move_blocked(m, i) {
            SlotModel {
                movement_flag: Some(
                    FlagForMovement { moving: false, new_pos: m[i].movement_flag->0.new_pos },
                ),
                ..m[i]
            }
        } else {
            SlotModel {
                movement_flag: Some(
                    FlagForMovement { moving: true, new_pos: Position(mover_target(m[i])) },
                ),
                ..m[i]
            }
        }
    } else {
        m[i]
    }
}

/// The whole store after the staging pass.
pub open spec fn stage_all(m: Seq<SlotModel>) -> Seq<SlotModel> {
    Seq::new(m.len(), |i: int| stage_slot(m, i))
}

/// What the commit pass makes of one slot: a staged position is applied
/// whenever the flag says the entity is moving.
pub open spec fn commit_slot(s: SlotModel) -> SlotModel {
    if s.position is Some && s.movement_flag is Some && s.movement_flag->0.moving {
        SlotModel { position: Some(s.movement_flag->0.new_pos), ..s }
    } else {
        s
    }
}

/// The whole motion resolution: stage every mover, then commit.
pub open spec fn physics_spec(m: Seq<SlotModel>) -> Seq<SlotModel> {
    stage_all(m).map_values(|s: SlotModel| commit_slot(s))
}

/// The store after `n` motion-resolution ticks.
pub open spec fn physics_iter(m: Seq<SlotModel>, n: nat) -> Seq<SlotModel>
    decreases n,
{
    if n == 0 {
        m
    } else {
        physics_spec(physics_iter(m, (n - 1) as nat))
    }
}

/// The fields the staging pass never touches in any slot.
pub open spec fn statics_eq(a: SlotModel, b: SlotModel) -> bool {
    &&& a.position == b.position
    &&& a.collision_box == b.collision_box
    &&& a.unplayable == b.unplayable
}

/// Exec counterpart of `step_target`.
fn step_point(p: Point, d: Direction, speed: i32) -> (q: Point)
    ensures
        q == step_target(p, d, speed as int),
        p.x == q.x || p.y == q.y,
{
    let dx: i64 = match d {
        Direction::Right => speed as i64,
        Direction::Left => -(speed as i64),
        Direction::Down => 0,
        Direction::Up => 0,
    };
    let dy: i64 = match d {
        Direction::Right => 0,
        Direction::Left => 0,
        Direction::Down => speed as i64,
        Direction::Up => -(speed as i64),
    };
    let q = Point { x: sat_add_i32(p.x, dx), y: sat_add_i32(p.y, dy) };
    assert(dx as int == (speed as int) * dir_dx(d) && dy as int == (speed as int) * dir_dy(d));
    assert(i32::MIN as int <= clamp_i32(p.x + (speed as int) * dir_dx(d)) <= i32::MAX as int);
    assert(i32::MIN as int <= clamp_i32(p.y + (speed as int) * dir_dy(d)) <= i32::MAX as int);
    assert(q.x == clamp_i32(p.x + (speed as int) * dir_dx(d)) as i32);
    assert(q.y == clamp_i32(p.y + (speed as int) * dir_dy(d)) as i32);
    q
}

/// The motion resolver system.
pub struct Physics;

impl Physics {
    /// Run one movement tick over the whole store: stage every mover
    /// against every blocking entity, then commit all staged positions.
    #[verifier::loop_isolation(false)]
    pub fn run(world: &mut World)
        ensures
            final(world)@ =~= physics_spec(old(world)@),
            final(world)@.len() == old(world)@.len(),
            wf_world(old(world)@) ==> wf_world(final(world)@),
    {
        let n = world.ents.len();
        let mut i: usize = 0;
        while i < n
            invariant
                world.ents@.len() == n,
                i <= n,
                forall|k: int|
                    0 <= k < i ==> #[trigger] world.ents@[k]@ == stage_slot(old(world)@, k),
                forall|k: int| i <= k < n ==> #[trigger] world.ents@[k] == old(world).ents@[k],
                forall|k: int|
                    0 <= k < n ==> statics_eq(#[trigger] world.ents@[k]@, old(world)@[k]),
            decreases n - i,
        {
            let mover: Option<(Point, Direction, i32)> = {
                let slot = &world.ents[i];
                if slot.position.is_some() && slot.collision_box.is_some()
                    && slot.movement_flag.is_some() {
                    match &slot.velocity {
                        Some(v) => {
                            if v.direction.len() > 0 {
                                Some((slot.position.unwrap().0, v.direction[0], v.speed))
                            } else {
                                None
                            }
                        },
                        None => None,
                    }
                } else {
                    None
                }
            };
            match mover {
                Some((pos, d, speed)) => {
                    assert(is_mover(old(world)@[i as int]));
                    assert(pos == pos_pt(old(world)@[i as int]));
                    assert(d == active_dir(old(world)@[i as int]));
                    assert(speed as int == old(world)@[i as int].velocity->0.speed);
                    let target = step_point(pos, d, speed);
                    assert(target == mover_target(old(world)@[i as int]));
                    let mut blocked = false;
                    let mut j: usize = 0;
                    while j < n
                        invariant
                            j <= n,
                            blocked == exists|l: int|
                                0 <= l < j && l != i && is_obstacle(old(world)@[l])
                                    && seg_hits_rect(
                                    pos_pt(old(world)@[i as int]),
                                    mover_target(old(world)@[i as int]),
                                    obstacle_rect(old(world)@[l]),
                                ),
                        decreases n - j,
                    {
                        if j != i {
                            let obs: Option<(Point, u32, u32)> = {
                                let slot = &world.ents[j];
                                if slot.unplayable && slot.position.is_some()
                                    && slot.collision_box.is_some() {
                                    let c = match &slot.collision_box {
                                        Some(c) => (c.width, c.height),
                                        None => (0, 0),
                                    };
                                    Some((slot.position.unwrap().0, c.0, c.1))
                                } else {
                                    None
                                }
                            };
                            assert(statics_eq(world.ents@[j as int]@, old(world)@[j as int]));
                            match obs {
                                Some((opos, ow, oh)) => {
                                    assert(is_obstacle(old(world)@[j as int]));
                                    let orect = Rect::from_center(opos, ow, oh);
                                    assert(orect == obstacle_rect(old(world)@[j as int]));
                                    if crate::geom::segment_hits_rect(pos, target, &orect) {
                                        blocked = true;
                                    }
                                },
                                None => {
                                    assert(!is_obstacle(old(world)@[j as int]));
                                },
                            }
                        }
                        j = j + 1;
                    }
                    assert(blocked == move_blocked(old(world)@, i as int));
                    let slot = &mut world.ents[i];
                    match &mut slot.movement_flag {
                        Some(f) => {
                            if blocked {
                                f.moving = false;
                            } else {
                                f.moving = true;
                                f.new_pos = Position(target);
                            }
                        },
                        None => {},
                    }
                    assert(world.ents@[i as int]@ == stage_slot(old(world)@, i as int));
                },
                None => {
                    assert(!is_mover(old(world)@[i as int]));
                    assert(world.ents@[i as int]@ == stage_slot(old(world)@, i as int));
                },
            }
            i = i + 1;
        }
        let ghost staged = stage_all(old(world)@);
        assert(forall|k: int| 0 <= k < n ==> #[trigger] world.ents@[k]@ == staged[k]);
        let mut i: usize = 0;
        while i < n
            invariant
                world.ents@.len() == n,
                i <= n,
                forall|k: int|
                    0 <= k < i ==> #[trigger] world.ents@[k]@ == commit_slot(staged[k]),
                forall|k: int| i <= k < n ==> #[trigger] world.ents@[k]@ == staged[k],
            decreases n - i,
        {
            let to_commit: Option<Position> = {
                let slot = &world.ents[i];
                if slot.position.is_some() {
                    match &slot.movement_flag {
                        Some(f) => if f.moving {
                            Some(f.new_pos)
                        } else {
                            None
                        },
                        None => None,
                    }
                } else {
                    None
                }
            };
            match to_commit {
                Some(np) => {
                    assert(np == staged[i as int].movement_flag->0.new_pos);
                    let slot = &mut world.ents[i];
                    slot.position = Some(np);
                    assert(world.ents@[i as int]@ == commit_slot(staged[i as int]));
                },
                None => {
                    assert(world.ents@[i as int]@ == commit_slot(staged[i as int]));
                },
            }
            i = i + 1;
        }
        assert(final(world)@ =~= physics_spec(old(world)@));
        proof {
            if wf_world(old(world)@) {
                assert forall|k: int|
                    0 <= k < n && !world@[k].alive implies world@[k] == blank_slot(false) by {
                    assert(old(world)@[k] == blank_slot(false) || old(world)@[k].alive);
                    assert(stage_slot(old(world)@, k) == old(world)@[k]
                        || old(world)@[k].alive);
                }
                assert(wf_world(world@));
            }
        }
    }
}

/// With no blocking entity anywhere, one tick carries a mover exactly one
/// speed-step along its active direction and marks it as moving.
pub proof fn lemma_free_step(m: Seq<SlotModel>, i: int)
    requires
        0 <= i < m.len(),
        is_mover(m[i]),
        forall|j: int| 0 <= j < m.len() && j != i ==> !is_obstacle(#[trigger] m[j]),
    ensures
        physics_spec(m).len() == m.len(),
        physics_spec(m)[i] == (SlotModel {
            position: Some(Position(mover_target(m[i]))),
            movement_flag: Some(
                FlagForMovement { moving: true, new_pos: Position(mover_target(m[i])) },
            ),
            ..m[i]
        }),
{
    assert(!move_blocked(m, i));
    assert(physics_spec(m)[i] == commit_slot(stage_slot(m, i)));
}

/// Scaling facts for one more speed-step along a unit axis direction.
proof fn lemma_scaled_step_bounds(nm1: int, s: int, dx: int)
    by (nonlinear_arith)
    requires
        nm1 >= 0,
        s >= 0,
        -1 <= dx <= 1,
    ensures
        (nm1 + 1) * s * dx == nm1 * s * dx + s * dx,
        dx >= 0 ==> 0 <= nm1 * s * dx <= (nm1 + 1) * s * dx,
        dx < 0 ==> (nm1 + 1) * s * dx <= nm1 * s * dx <= 0,
{
}

/// Movement in the open: with no blocking entity anywhere and no clamping
/// at the coordinate rim, `n` ticks displace a mover by exactly `n` times
/// its speed along the active direction's axis, with no lateral drift.
pub proof fn lemma_unobstructed_movement(m: Seq<SlotModel>, i: int, n: nat)
    requires
        0 <= i < m.len(),
        is_mover(m[i]),
        forall|j: int| 0 <= j < m.len() && j != i ==> !is_obstacle(#[trigger] m[j]),
        m[i].velocity->0.speed >= 0,
        i32::MIN <= pos_pt(m[i]).x + n * m[i].velocity->0.speed * dir_dx(active_dir(m[i])),
        pos_pt(m[i]).x + n * m[i].velocity->0.speed * dir_dx(active_dir(m[i])) <= i32::MAX,
        i32::MIN <= pos_pt(m[i]).y + n * m[i].velocity->0.speed * dir_dy(active_dir(m[i])),
        pos_pt(m[i]).y + n * m[i].velocity->0.speed * dir_dy(active_dir(m[i])) <= i32::MAX,
    ensures
        physics_iter(m, n).len() == m.len(),
        physics_iter(m, n)[i].position is Some,
        pos_pt(physics_iter(m, n)[i]).x == pos_pt(m[i]).x + n * m[i].velocity->0.speed * dir_dx(
            active_dir(m[i]),
        ),
        pos_pt(physics_iter(m, n)[i]).y == pos_pt(m[i]).y + n * m[i].velocity->0.speed * dir_dy(
            active_dir(m[i]),
        ),
        physics_iter(m, n)[i].velocity == m[i].velocity,
    decreases n,
{
    let s = m[i].velocity->0.speed;
    let d = active_dir(m[i]);
    let dx = dir_dx(d);
    let dy = dir_dy(d);
    if n > 0 {
        let prev = physics_iter(m, (n - 1) as nat);
        lemma_scaled_step_bounds((n - 1) as int, s, dx);
        lemma_scaled_step_bounds((n - 1) as int, s, dy);
        lemma_unobstructed_movement(m, i, (n - 1) as nat);
        lemma_statics_stable(m, i, (n - 1) as nat);
        assert(is_mover(prev[i]));
        assert forall|j: int| 0 <= j < prev.len() && j != i implies !is_obstacle(
            #[trigger] prev[j],
        ) by {
            lemma_statics_stable(m, j, (n - 1) as nat);
        }
        lemma_free_step(prev, i);
        assert(physics_iter(m, n)[i] == physics_spec(prev)[i]);
        assert(active_dir(prev[i]) == d && prev[i].velocity->0.speed == s);
        assert(pos_pt(physics_iter(m, n)[i]).x == clamp_i32(pos_pt(prev[i]).x + s * dx));
        assert(pos_pt(physics_iter(m, n)[i]).y == clamp_i32(pos_pt(prev[i]).y + s * dy));
        assert(((n - 1) as nat) * s * dx == (n - 1) * s * dx && ((n - 1) as nat) * s * dy == (n
            - 1) * s * dy);
        assert(pos_pt(prev[i]).x == pos_pt(m[i]).x + (n - 1) * s * dx);
        assert(pos_pt(prev[i]).y == pos_pt(m[i]).y + (n - 1) * s * dy);
        assert(clamp_i32(pos_pt(m[i]).x + (n - 1) * s * dx + s * dx) == pos_pt(m[i]).x + n * s
            * dx);
        assert(clamp_i32(pos_pt(m[i]).y + (n - 1) * s * dy + s * dy) == pos_pt(m[i]).y + n * s
            * dy);
        assert(pos_pt(physics_iter(m, n)[i]).x == pos_pt(m[i]).x + n * s * dx);
        assert(pos_pt(physics_iter(m, n)[i]).y == pos_pt(m[i]).y + n * s * dy);
    } else {
        assert(n * s * dx == 0 && n * s * dy == 0) by (nonlinear_arith)
            requires
                n == 0,
        ;
    }
}

/// Presence of components and tags is stable under the motion resolver:
/// it changes only the contents of positions and movement flags.
pub proof fn lemma_statics_stable(m: Seq<SlotModel>, j: int, n: nat)
    requires
        0 <= j < m.len(),
    ensures
        physics_iter(m, n).len() == m.len(),
        physics_iter(m, n)[j].position is Some <==> m[j].position is Some,
        physics_iter(m, n)[j].collision_box == m[j].collision_box,
        physics_iter(m, n)[j].unplayable == m[j].unplayable,
        physics_iter(m, n)[j].velocity == m[j].velocity,
        physics_iter(m, n)[j].movement_flag is Some <==> m[j].movement_flag is Some,
    decreases n,
{
    if n > 0 {
        lemma_statics_stable(m, j, (n - 1) as nat);
        let prev = physics_iter(m, (n - 1) as nat);
        assert(physics_iter(m, n)[j] == commit_slot(stage_slot(prev, j)));
    }
}

/// An entity with no movement flag is never displaced by the motion
/// resolver, however many ticks pass.
pub proof fn lemma_unflagged_never_moves(m: Seq<SlotModel>, j: int, n: nat)
    requires
        0 <= j < m.len(),
        m[j].movement_flag is None,
    ensures
        physics_iter(m, n).len() == m.len(),
        physics_iter(m, n)[j] == m[j],
    decreases n,
{
    if n > 0 {
        lemma_unflagged_never_moves(m, j, (n - 1) as nat);
        let prev = physics_iter(m, (n - 1) as nat);
        assert(physics_iter(m, n)[j] == commit_slot(stage_slot(prev, j)));
    }
}

/// A blocked mover among unflagged scenery never moves: as long as every
/// other entity lacks a movement flag and some blocking entity intersects
/// the mover's swept segment, its position is the same after any number
/// of ticks.
pub proof fn lemma_blocked_never_moves(m: Seq<SlotModel>, i: int, n: nat)
    requires
        0 <= i < m.len(),
        is_mover(m[i]),
        move_blocked(m, i),
        forall|j: int| 0 <= j < m.len() && j != i ==> (#[trigger] m[j]).movement_flag is None,
    ensures
        physics_iter(m, n).len() == m.len(),
        physics_iter(m, n)[i].position == m[i].position,
        physics_iter(m, n)[i].velocity == m[i].velocity,
        is_mover(physics_iter(m, n)[i]),
        move_blocked(physics_iter(m, n), i),
    decreases n,
{
    if n > 0 {
        lemma_blocked_never_moves(m, i, (n - 1) as nat);
        let prev = physics_iter(m, (n - 1) as nat);
        let cur = physics_iter(m, n);
        assert forall|j: int| 0 <= j < prev.len() && j != i implies (
        #[trigger] prev[j]) == m[j] by {
            lemma_unflagged_never_moves(m, j, (n - 1) as nat);
        }
        assert(cur[i] == commit_slot(stage_slot(prev, i)));
        assert(cur[i].position == prev[i].position);
        assert(pos_pt(cur[i]) == pos_pt(prev[i]));
        assert(cur[i].velocity == prev[i].velocity);
        assert forall|j: int| 0 <= j < cur.len() && j != i implies (#[trigger] cur[j]) == m[j] by {
            lemma_unflagged_never_moves(m, j, n);
        }
        let witness = choose|j: int|
            0 <= j < prev.len() && j != i && is_obstacle(prev[j]) && seg_hits_rect(
                pos_pt(prev[i]),
                mover_target(prev[i]),
                obstacle_rect(prev[j]),
            );
        assert(cur[witness] == m[witness] && prev[witness] == m[witness]);
        assert(is_obstacle(cur[witness]) && seg_hits_rect(
            pos_pt(cur[i]),
            mover_target(cur[i]),
            obstacle_rect(cur[witness]),
        ));
        assert(move_blocked(cur, i));
    }
}

} // verus!
