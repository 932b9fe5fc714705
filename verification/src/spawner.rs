//! The spawner: each frame it creates exactly as many bunnies as the
//! population is short of its target, each with a random direction of
//! (approximately) unit length and a random speed factor.

use vstd::prelude::*;

verus! {

use crate::count::BunnyCount;
use crate::geom::div_trunc;
use crate::geom::is_isqrt;
use crate::geom::lemma_isqrt_unique;
use crate::geom::normalize;
use crate::geom::spec_isqrt;
use crate::geom::Vec2;
use crate::rng::new_rng;
use crate::rng::rng_range;
use crate::SCALE;
use crate::SPEED_FACTOR_MIN;
use crate::SPEED_FACTOR_MAX;

/// One moving sprite: a position and a direction in milli-units, and the
/// per-bunny speed factor in thousandths, fixed at creation.
pub struct Bunny {
    pub pos: Vec2,
    pub dir: Vec2,
    pub speed_factor: i64,
}

impl Bunny {
    /// Direction components stay within one milli-unit length and the speed
    /// factor within its sampling range.
    pub open spec fn wf(self) -> bool {
        &&& -SCALE <= self.dir.x <= SCALE
        &&& -SCALE <= self.dir.y <= SCALE
        &&& SPEED_FACTOR_MIN <= self.speed_factor < SPEED_FACTOR_MAX
    }
}

/// `d` is the fixed-point normalization of some admissible direction
/// sample: in particular no spawned bunny stands still.
pub open spec fn unit_heading(d: Vec2) -> bool {
    exists|rx: int, ry: int|
        #![trigger spec_isqrt(rx * rx + ry * ry)]
        {
            &&& -SCALE <= rx < SCALE
            &&& -SCALE <= ry < SCALE
            &&& !(rx == 0 && ry == 0)
            &&& d.x == div_trunc(rx * SCALE, spec_isqrt(rx * rx + ry * ry))
            &&& d.y == div_trunc(ry * SCALE, spec_isqrt(rx * rx + ry * ry))
        }
}

/// Create one bunny at the origin with a freshly sampled heading and speed
/// factor. A zero sample for both direction components, which has no
/// heading to scale, falls back to pointing along the positive x axis.
fn spawn_one(rng: &mut rand::rngs::ThreadRng) -> (b: Bunny)
    ensures
        b.wf(),
        b.pos.x == 0,
        b.pos.y == 0,
        unit_heading(b.dir),
{
    let rx = rng_range(rng, -SCALE, SCALE);
    let ry = rng_range(rng, -SCALE, SCALE);
    let dir = if rx == 0 && ry == 0 {
        // A zero sample has no heading to scale: point along positive x,
        // which is the normalization of (500, 0).
        proof {
            assert(is_isqrt(250_000, 500));
            assert(is_isqrt(250_000, spec_isqrt(250_000)));
            lemma_isqrt_unique(250_000, 500, spec_isqrt(250_000));
            assert(spec_isqrt(500int * 500 + 0int * 0) == 500);
        }
        Vec2 { x: SCALE, y: 0 }
    } else {
        normalize(rx, ry)
    };
    proof {
        if rx == 0 && ry == 0 {
            assert(dir.x == div_trunc(500 * SCALE, spec_isqrt(500int * 500 + 0int * 0)));
            assert(dir.y == div_trunc(0 * SCALE, spec_isqrt(500int * 500 + 0int * 0)));
        } else {
            assert(dir.x == div_trunc(rx * SCALE, spec_isqrt(rx * rx + ry * ry)));
        }
        assert(unit_heading(dir));
    }
    let speed_factor = rng_range(rng, SPEED_FACTOR_MIN, SPEED_FACTOR_MAX);
    Bunny { pos: Vec2 { x: 0, y: 0 }, dir, speed_factor }
}

/// One spawner pass: create exactly `desired - current` bunnies and account
/// for each, so that the population leaves saturated (`current == desired`)
/// with the target untouched.
pub fn run_spawner(count: &mut BunnyCount) -> (spawned: Vec<Bunny>)
    requires
        old(count).wf(),
    ensures
        final(count).desired == old(count).desired,
        final(count).current == final(count).desired,
        final(count).wf(),
        spawned@.len() == old(count).desired - old(count).current,
        forall|i: int|
            0 <= i < spawned@.len() ==> {
                &&& (#[trigger] spawned@[i]).wf()
                &&& spawned@[i].pos.x == 0
                &&& spawned@[i].pos.y == 0
                &&& unit_heading(spawned@[i].dir)
            },
{
    let mut spawned: Vec<Bunny> = Vec::new();
    let mut rng = new_rng();
    while count.current < count.desired
        invariant
            count.wf(),
            count.desired == old(count).desired,
            old(count).current <= count.current,
            spawned@.len() == count.current - old(count).current,
            forall|i: int|
                0 <= i < spawned@.len() ==> {
                    &&& (#[trigger] spawned@[i]).wf()
                    &&& spawned@[i].pos.x == 0
                    &&& spawned@[i].pos.y == 0
                    &&& unit_heading(spawned@[i].dir)
                },
        decreases count.desired - count.current,
    {
        let b = spawn_one(&mut rng);
        spawned.push(b);
        count.current = count.current + 1;
    }
    spawned
}

} // verus!
