//! Movement system.
//!
//! Naive steering toward the commanded target, in fixed-point
//! arithmetic: the distance still to cover is the integer square root
//! of the squared planar distance, and each tick moves the unit its
//! per-tick speed along the straight line, or snaps it to the target
//! when the step would overshoot. Within a tenth of a tile the unit has
//! arrived and its target is dropped.

use vstd::prelude::*;

use crate::components::{dist_sq_xz, pos_in_bounds, SimPosition};
use crate::world::{world_wf, EntityRecord, SimWorld};

verus! {

/// `r` is the integer square root of `n`.
pub open spec fn is_isqrt(n: int, r: int) -> bool {
    0 <= r && r * r <= n < (r + 1) * (r + 1)
}

/// The integer square root.
pub open spec fn isqrt_spec(n: int) -> int
    recommends
        n >= 0,
{
    choose|r: int| is_isqrt(n, r)
}

/// The integer square root is unique.
pub proof fn lemma_isqrt_unique(n: int, a: int, b: int)
    requires
        is_isqrt(n, a),
        is_isqrt(n, b),
    ensures
        a == b,
{
    if a < b {
        assert((a + 1) * (a + 1) <= b * b) by (nonlinear_arith)
            requires
                0 <= a,
                a + 1 <= b,
        ;
    }
    if b < a {
        assert((b + 1) * (b + 1) <= a * a) by (nonlinear_arith)
            requires
                0 <= b,
                b + 1 <= a,
        ;
    }
}

/// Integer square root by bisection.
pub fn isqrt64(n: u64) -> (r: u64)
    ensures
        is_isqrt(n as int, r as int),
        r == isqrt_spec(n as int),
{
    let mut lo: u64 = 0;
    let mut hi: u64 = 4_294_967_296;
    proof {
        assert((4_294_967_296int) * (4_294_967_296int) > n as int) by (nonlinear_arith)
            requires
                n <= u64::MAX,
        ;
    }
    while hi - lo > 1
        invariant
            lo < hi <= 4_294_967_296,
            (lo as int) * (lo as int) <= n as int,
            (hi as int) * (hi as int) > n as int,
        decreases hi - lo,
    {
        let mid = lo + (hi - lo) / 2;
        proof {
            assert((mid as int) * (mid as int) <= (4_294_967_296int) * (4_294_967_296int))
                by (nonlinear_arith)
                requires
                    0 <= mid <= 4_294_967_296,
            ;
        }
        if (mid as u128) * (mid as u128) <= n as u128 {
            lo = mid;
        } else {
            hi = mid;
        }
    }
    proof {
        assert(is_isqrt(n as int, lo as int));
        lemma_isqrt_unique(n as int, lo as int, isqrt_spec(n as int));
    }
    lo
}

/// Arrival threshold: within a tenth of a tile the unit has arrived.
pub open spec fn arrival_threshold_sq() -> int {
    10_000
}

/// The coordinate reached when moving from `from` toward `to` by
/// `step` out of `dist` of the remaining straight-line distance.
pub open spec fn axis_step(from: int, to: int, step: int, dist: int) -> int
    recommends
        0 <= step < dist,
{
    let d = if to >= from {
        to - from
    } else {
        from - to
    };
    let off = d * step / dist;
    if to >= from {
        from + off
    } else {
        from - off
    }
}

/// One entity after a movement tick at `rate` ticks per second. Only
/// units with a movement target move. Within the arrival threshold the
/// target is dropped (when it asks to stop on arrival); a step that
/// would overshoot snaps to the target; otherwise the unit moves its
/// per-tick speed along the straight line.
pub open spec fn move_stepped(r: EntityRecord, rate: u32) -> EntityRecord
    recommends
        rate >= 1,
{
    match (r.unit, r.move_target) {
        (Some(u), Some(t)) => {
            let target = SimPosition { x: t.x, y: r.pos.y, z: t.z };
            let d2 = dist_sq_xz(r.pos, target);
            if d2 < arrival_threshold_sq() {
                if t.stop_on_arrival {
                    EntityRecord { move_target: None, ..r }
                } else {
                    r
                }
            } else {
                let dist = isqrt_spec(d2);
                let step = u.move_speed as int / rate as int;
                if step >= dist {
                    EntityRecord { pos: target, ..r }
                } else {
                    EntityRecord {
                        pos: SimPosition {
                            x: axis_step(r.pos.x as int, t.x as int, step, dist) as i64,
                            y: r.pos.y,
                            z: axis_step(r.pos.z as int, t.z as int, step, dist) as i64,
                        },
                        ..r
                    }
                }
            }
        },
        _ => r,
    }
}

/// A movement step keeps each coordinate between where the unit stood
/// and where it is headed.
proof fn lemma_axis_step_between(from: int, to: int, step: int, dist: int)
    requires
        0 <= step < dist,
    ensures
        from <= to ==> from <= axis_step(from, to, step, dist) <= to,
        to < from ==> to <= axis_step(from, to, step, dist) <= from,
{
    let d = if to >= from {
        to - from
    } else {
        from - to
    };
    assert(0 <= d * step / dist <= d) by (nonlinear_arith)
        requires
            0 <= d,
            0 <= step < dist,
    ;
}

/// The world relation of one movement pass at `rate` ticks per second:
/// every record steps per `move_stepped`; players are untouched.
pub open spec fn movement_pass(w0: SimWorld, rate: u32, w1: SimWorld) -> bool {
    &&& w1.players@ == w0.players@
    &&& w1.entities@.len() == w0.entities@.len()
    &&& forall|k: int|
        0 <= k < w0.entities@.len() ==> w1.entities@[k] == move_stepped(
            #[trigger] w0.entities@[k],
            rate,
        )
}

/// Move every unit one tick toward its target.
pub fn movement_system(world: &mut SimWorld, rate: u32)
    requires
        world_wf(*old(world)),
        rate >= 1,
    ensures
        world_wf(*final(world)),
        movement_pass(*old(world), rate, *final(world)),
{
    let n = world.entities.len();
    let mut i: usize = 0;
    while i < n
        invariant
            i <= n,
            rate >= 1,
            n == world.entities@.len(),
            world.players@ == old(world).players@,
            world.entities@.len() == old(world).entities@.len(),
            forall|k: int|
                i <= k < world.entities@.len() ==> world.entities@[k] == old(
                    world,
                ).entities@[k],
            forall|k: int|
                0 <= k < i ==> world.entities@[k] == move_stepped(
                    #[trigger] old(world).entities@[k],
                    rate,
                ),
            world_wf(*world),
        decreases n - i,
    {
        let ghost prev = world.entities@[i as int];
        let has_both = world.entities[i].unit.is_some() && world.entities[i].move_target.is_some();
        if has_both {
            let (speed, tx, tz, stop) = {
                let rec = &world.entities[i];
                let u = rec.unit.as_ref().unwrap();
                let t = rec.move_target.as_ref().unwrap();
                (u.move_speed, t.x, t.z, t.stop_on_arrival)
            };
            let target = SimPosition { x: tx, y: world.entities[i].pos.y, z: tz };
            let d2 = world.entities[i].pos.distance_sq_xz(&target);
            if d2 < 10_000 {
                if stop {
                    let rec = &mut world.entities[i];
                    rec.move_target = None;
                }
            } else {
                let dist = isqrt64(d2);
                let step = ((speed as u64) / (rate as u64));
                proof {
                    assert(dist >= 100) by {
                        assert(is_isqrt(d2 as int, dist as int));
                        if dist < 100 {
                            assert((dist as int + 1) * (dist as int + 1) <= 100 * 100)
                                by (nonlinear_arith)
                                requires
                                    0 <= dist < 100,
                            ;
                        }
                    }
                }
                if step >= dist {
                    let rec = &mut world.entities[i];
                    rec.pos = target;
                } else {
                    let px = world.entities[i].pos.x;
                    let pz = world.entities[i].pos.z;
                    let nx = axis_step_exec(px, tx, step, dist);
                    let nz = axis_step_exec(pz, tz, step, dist);
                    proof {
                        lemma_axis_step_between(px as int, tx as int, step as int, dist as int);
                        lemma_axis_step_between(pz as int, tz as int, step as int, dist as int);
                    }
                    let rec = &mut world.entities[i];
                    rec.pos = SimPosition { x: nx, y: rec.pos.y, z: nz };
                }
            }
        }
        proof {
            assert(world.entities@[i as int] == move_stepped(prev, rate));
        }
        i = i + 1;
    }
}

/// The coordinate reached when moving `step` out of `dist` of the way
/// from `from` toward `to`.
fn axis_step_exec(from: i64, to: i64, step: u64, dist: u64) -> (r: i64)
    requires
        step < dist,
        -crate::components::pos_limit() <= from <= crate::components::pos_limit(),
        -crate::components::pos_limit() <= to <= crate::components::pos_limit(),
    ensures
        r == axis_step(from as int, to as int, step as int, dist as int),
        from <= to ==> from <= r <= to,
        to < from ==> to <= r <= from,
{
    proof {
        lemma_axis_step_between(from as int, to as int, step as int, dist as int);
    }
    let d: u64 = if to >= from {
        (to - from) as u64
    } else {
        (from - to) as u64
    };
    proof {
        assert((d as int) * (step as int) <= (0xFFFF_FFFF_FFFF_FFFFint)
            * (0xFFFF_FFFF_FFFF_FFFFint)) by (nonlinear_arith)
            requires
                0 <= d <= u64::MAX,
                0 <= step <= u64::MAX,
        ;
    }
    let off128: u128 = (d as u128) * (step as u128) / (dist as u128);
    proof {
        assert((d as int) * (step as int) / (dist as int) <= d as int) by (nonlinear_arith)
            requires
                0 <= d,
                0 <= step < dist,
        ;
        assert((d as int) * (step as int) >= 0) by (nonlinear_arith)
            requires
                0 <= d,
                0 <= step,
        ;
    }
    let off: i64 = off128 as i64;
    if to >= from {
        from + off
    } else {
        from - off
    }
}

} // verus!
