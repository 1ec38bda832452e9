//! The update kernel contract: per particle, accumulate the gravitational,
//! spring (Hookean) and damping forces, then integrate velocity and
//! position by one time step. The kernel finds a particle's springs by
//! scanning the whole spring list; each particle of the next state is a
//! pure function of the previous state, the spring list and the parameter
//! block, so the per-particle work can run in any order or in parallel.

use crate::limits::{
    COORD_LIMIT, DAMPING_LIMIT, DT_LIMIT, GRAVITY_LIMIT, MASS_LIMIT, REST_LENGTH_LIMIT, SCALE,
    STIFFNESS_LIMIT,
};
use crate::math::{
    clamp_i128, div_toward_zero, isqrt_u128, lemma_abs_mul_bound,
    lemma_div_toward_zero_bound, lemma_div_toward_zero_neg, lemma_div_toward_zero_of0,
    sqrt_floor, tdiv_i128,
};
use crate::limits::{MAX_DISPLACEMENT, MAX_GRID_SIZE, MAX_HALF_SPACING};
use crate::topology::{
    grid_springs, initial_particle, is_initial_lattice, lemma_grid_springs_at_rest,
    particle_views, spring_views, spring_at_rest, spring_wf, GridModel, Particle, ParticleG,
    Spring, SpringG,
};
use crate::vec3::{
    lemma_component_sq_le_norm_sq, lemma_norm_sq_nonneg, lemma_norm_sq_sub_symmetric, norm_sq, v3,
    v3_add, v3_clamp, v3_in_range, v3_neg, v3_scale, v3_sub, v3_zero, Force3, Vec3, Vec3g,
};
use vstd::prelude::*;

verus! {

/// Largest magnitude a single spring-force component can reach under the
/// admissible bounds.
pub const FORCE_TERM_LIMIT: i128 = 0x4000_0000_0000_0000;

/// Largest admissible spring-list length for one kernel invocation.
pub const MAX_SPRINGS: usize = 0x800_0000;

/// The read-only parameter block of the kernel: gravity acceleration,
/// damping coefficient and time step in `SCALE` units, particle mass.
/// Mutable only by the host between ticks.
#[derive(Clone, Copy, Debug, PartialEq, Eq, Structural)]
pub struct SimParams {
    pub gravity: Vec3,
    pub damping: i64,
    pub mass: i64,
    pub dt: i64,
}

impl SimParams {
    /// The admissible parameter ranges.
    pub open spec fn wf(self) -> bool {
        &&& v3_in_range(self.gravity@, GRAVITY_LIMIT as int)
        &&& 0 <= self.damping <= DAMPING_LIMIT
        &&& 1 <= self.mass <= MASS_LIMIT
        &&& 0 <= self.dt <= DT_LIMIT
    }
}

/// Position and velocity both within the representable coordinate range.
pub open spec fn particle_in_range(p: ParticleG) -> bool {
    &&& v3_in_range(p.position, COORD_LIMIT as int)
    &&& v3_in_range(p.velocity, COORD_LIMIT as int)
}

/// Every particle within range.
pub open spec fn particles_wf(ps: Seq<ParticleG>) -> bool {
    forall|k: int| 0 <= k < ps.len() ==> particle_in_range(#[trigger] ps[k])
}

/// Every spring well formed for `count` particles.
pub open spec fn springs_wf(ss: Seq<SpringG>, count: int) -> bool {
    forall|k: int| 0 <= k < ss.len() ==> spring_wf(#[trigger] ss[k], count)
}

/// Hookean force the spring `(pa, pb)` exerts on its `pa` end:
/// `stiffness * (measured_length - rest_length)` along the unit vector
/// toward `pb`, so a stretched spring pulls its ends together and a
/// compressed one pushes them apart. When the endpoints coincide the
/// direction is undefined and the force is zero.
pub open spec fn spec_spring_force(pa: Vec3g, pb: Vec3g, stiffness: int, rest_length: int) -> Vec3g {
    let d = v3_sub(pb, pa);
    let l = sqrt_floor(norm_sq(d) as nat) as int;
    if l == 0 {
        v3_zero()
    } else {
        let m = stiffness * (l - rest_length);
        v3(
            div_toward_zero(m * d.x, l),
            div_toward_zero(m * d.y, l),
            div_toward_zero(m * d.z, l),
        )
    }
}

/// What spring `s` contributes to the force on particle `i`: its Hookean
/// force if `i` is one of its ends, nothing otherwise.
pub open spec fn spec_force_from_spring(ps: Seq<ParticleG>, i: int, s: SpringG) -> Vec3g {
    if s.particle_a == i {
        spec_spring_force(ps[i].position, ps[s.particle_b].position, s.stiffness, s.rest_length)
    } else if s.particle_b == i {
        spec_spring_force(ps[i].position, ps[s.particle_a].position, s.stiffness, s.rest_length)
    } else {
        v3_zero()
    }
}

/// Sum of all spring contributions to the force on particle `i`, in scan
/// order over the spring list.
pub open spec fn spec_net_spring_force(ps: Seq<ParticleG>, i: int, ss: Seq<SpringG>) -> Vec3g
    decreases ss.len(),
{
    if ss.len() == 0 {
        v3_zero()
    } else {
        v3_add(
            spec_net_spring_force(ps, i, ss.drop_last()),
            spec_force_from_spring(ps, i, ss.last()),
        )
    }
}

/// Velocity damping: `damping * velocity`, in `SCALE` units.
pub open spec fn spec_damping_force(vel: Vec3g, damping: int) -> Vec3g {
    v3(
        div_toward_zero(damping * vel.x, SCALE as int),
        div_toward_zero(damping * vel.y, SCALE as int),
        div_toward_zero(damping * vel.z, SCALE as int),
    )
}

/// Total force on particle `i`: gravity scaled by mass, plus the net
/// spring force, minus velocity damping.
pub open spec fn spec_total_force(
    ps: Seq<ParticleG>,
    i: int,
    ss: Seq<SpringG>,
    pr: SimParams,
) -> Vec3g {
    v3_sub(
        v3_add(v3_scale(pr.gravity@, pr.mass as int), spec_net_spring_force(ps, i, ss)),
        spec_damping_force(ps[i].velocity, pr.damping as int),
    )
}

/// One integration step for particle `i`:
/// `velocity' = velocity + (force / mass) * dt` and
/// `position' = position + velocity' * dt`, every scalar division rounded
/// toward zero and both results clamped into the coordinate range.
pub open spec fn spec_step_particle(
    ps: Seq<ParticleG>,
    i: int,
    ss: Seq<SpringG>,
    pr: SimParams,
) -> ParticleG {
    let f = spec_total_force(ps, i, ss, pr);
    let divisor = pr.mass * (SCALE as int);
    let dv = v3(
        div_toward_zero(f.x * pr.dt, divisor),
        div_toward_zero(f.y * pr.dt, divisor),
        div_toward_zero(f.z * pr.dt, divisor),
    );
    let vel2 = v3_clamp(v3_add(ps[i].velocity, dv), COORD_LIMIT as int);
    let dp = v3(
        div_toward_zero(vel2.x * pr.dt, SCALE as int),
        div_toward_zero(vel2.y * pr.dt, SCALE as int),
        div_toward_zero(vel2.z * pr.dt, SCALE as int),
    );
    let pos2 = v3_clamp(v3_add(ps[i].position, dp), COORD_LIMIT as int);
    ParticleG { position: pos2, velocity: vel2 }
}

/// Computes the Hookean force of one spring on its `pa` end.
pub fn spring_force(pa: &Vec3, pb: &Vec3, stiffness: i64, rest_length: i64) -> (f: Force3)
    requires
        v3_in_range(pa@, COORD_LIMIT as int),
        v3_in_range(pb@, COORD_LIMIT as int),
        0 <= stiffness <= STIFFNESS_LIMIT,
        0 < rest_length <= REST_LENGTH_LIMIT,
    ensures
        f@ == spec_spring_force(pa@, pb@, stiffness as int, rest_length as int),
        v3_in_range(f@, FORCE_TERM_LIMIT as int),
{
    let dx: i128 = pb.x as i128 - pa.x as i128;
    let dy: i128 = pb.y as i128 - pa.y as i128;
    let dz: i128 = pb.z as i128 - pa.z as i128;
    let ghost d = v3_sub(pb@, pa@);
    assert(dx == d.x && dy == d.y && dz == d.z);

    proof {
        lemma_abs_mul_bound(dx as int, dx as int, 2 * COORD_LIMIT as int, 2 * COORD_LIMIT as int);
        lemma_abs_mul_bound(dy as int, dy as int, 2 * COORD_LIMIT as int, 2 * COORD_LIMIT as int);
        lemma_abs_mul_bound(dz as int, dz as int, 2 * COORD_LIMIT as int, 2 * COORD_LIMIT as int);
        lemma_norm_sq_nonneg(d);
    }
    let ns: i128 = dx * dx + dy * dy + dz * dz;
    assert(ns == norm_sq(d));
    let lw: u128 = isqrt_u128(ns as u128);
    assert(lw == sqrt_floor(norm_sq(d) as nat));
    assert(lw * lw <= ns);
    assert(lw <= 4 * COORD_LIMIT as int) by (nonlinear_arith)
        requires
            lw * lw <= ns,
            ns <= 3 * (2 * COORD_LIMIT as int) * (2 * COORD_LIMIT as int),
            lw >= 0,
            COORD_LIMIT == 0x100_0000_0000i64,
    ;
    let l: i128 = lw as i128;
    if l == 0 {
        Force3 { x: 0, y: 0, z: 0 }
    } else {
        proof {
            lemma_abs_mul_bound(
                stiffness as int,
                l as int - rest_length as int,
                STIFFNESS_LIMIT as int,
                4 * COORD_LIMIT as int + REST_LENGTH_LIMIT as int,
            );
        }
        let m: i128 = (stiffness as i128) * (l - rest_length as i128);
        let mabs: i128 = if m >= 0 { m } else { -m };
        // each delta component is no longer than the measured length
        proof {
            lemma_component_sq_le_norm_sq(d);
            crate::math::lemma_abs_le_sqrt_floor(d.x, norm_sq(d));
            crate::math::lemma_abs_le_sqrt_floor(d.y, norm_sq(d));
            crate::math::lemma_abs_le_sqrt_floor(d.z, norm_sq(d));
            assert(-(l as int) <= d.x <= l as int);
            assert(-(l as int) <= d.y <= l as int);
            assert(-(l as int) <= d.z <= l as int);
            lemma_abs_mul_bound(m as int, d.x, mabs as int, l as int);
            lemma_abs_mul_bound(m as int, d.y, mabs as int, l as int);
            lemma_abs_mul_bound(m as int, d.z, mabs as int, l as int);
            assert(mabs * l
                <= (STIFFNESS_LIMIT as int) * (4 * COORD_LIMIT as int + REST_LENGTH_LIMIT as int)
                    * (4 * COORD_LIMIT as int)) by (nonlinear_arith)
                requires
                    0 <= mabs <= (STIFFNESS_LIMIT as int)
                        * (4 * COORD_LIMIT as int + REST_LENGTH_LIMIT as int),
                    0 < l <= 4 * COORD_LIMIT as int,
            ;
            lemma_div_toward_zero_bound(m as int * d.x, l as int, mabs as int);
            lemma_div_toward_zero_bound(m as int * d.y, l as int, mabs as int);
            lemma_div_toward_zero_bound(m as int * d.z, l as int, mabs as int);
        }
        let fx: i128 = tdiv_i128(m * dx, l);
        let fy: i128 = tdiv_i128(m * dy, l);
        let fz: i128 = tdiv_i128(m * dz, l);
        Force3 { x: fx, y: fy, z: fz }
    }
}

/// Splitting the scanned prefix one spring later adds that spring's
/// contribution.
pub proof fn lemma_net_take_step(ps: Seq<ParticleG>, i: int, ss: Seq<SpringG>, t: int)
    requires
        0 <= t < ss.len(),
    ensures
        spec_net_spring_force(ps, i, ss.take(t + 1)) == v3_add(
            spec_net_spring_force(ps, i, ss.take(t)),
            spec_force_from_spring(ps, i, ss[t]),
        ),
{
    let a = ss.take(t + 1);
    assert(a.drop_last() =~= ss.take(t));
    assert(a.last() == ss[t]);
}

/// Computes the next state of particle `i` from the previous state of all
/// particles, the spring list and the parameter block. This is the whole
/// per-particle kernel: it writes nothing and reads only prior-tick data,
/// which is what makes a parallel dispatch of it race-free.
#[verifier::loop_isolation(false)]
pub fn step_particle(ps: &Vec<Particle>, i: usize, springs: &Vec<Spring>, params: &SimParams) -> (r: Particle)
    requires
        i < ps@.len(),
        particles_wf(particle_views(ps@)),
        springs_wf(spring_views(springs@), ps@.len() as int),
        springs@.len() <= MAX_SPRINGS,
        params.wf(),
    ensures
        r@ == spec_step_particle(particle_views(ps@), i as int, spring_views(springs@), *params),
        particle_in_range(r@),
{
    let ghost pv = particle_views(ps@);
    let ghost sv = spring_views(springs@);
    assert(pv.len() == ps@.len());
    assert(sv.len() == springs@.len());
    assert(pv[i as int] == ps@[i as int]@);

    let mut acc_x: i128 = 0;
    let mut acc_y: i128 = 0;
    let mut acc_z: i128 = 0;
    let mut idx: usize = 0;
    assert(sv.take(0) =~= Seq::<SpringG>::empty());
    while idx < springs.len()
        invariant
            idx <= springs@.len(),
            v3(acc_x as int, acc_y as int, acc_z as int)
                == spec_net_spring_force(pv, i as int, sv.take(idx as int)),
            -(idx as int) * (FORCE_TERM_LIMIT as int) <= acc_x <= (idx as int) * (FORCE_TERM_LIMIT as int),
            -(idx as int) * (FORCE_TERM_LIMIT as int) <= acc_y <= (idx as int) * (FORCE_TERM_LIMIT as int),
            -(idx as int) * (FORCE_TERM_LIMIT as int) <= acc_z <= (idx as int) * (FORCE_TERM_LIMIT as int),
        decreases springs@.len() - idx,
    {
        let s = springs[idx];
        assert(s@ == sv[idx as int]);
        assert(spring_wf(sv[idx as int], ps@.len() as int));
        proof {
            lemma_net_take_step(pv, i as int, sv, idx as int);
            assert((idx as int) * (FORCE_TERM_LIMIT as int) + FORCE_TERM_LIMIT as int
                <= (MAX_SPRINGS as int) * (FORCE_TERM_LIMIT as int)) by (nonlinear_arith)
                requires idx as int + 1 <= MAX_SPRINGS as int;
        }
        if s.particle_a as usize == i {
            let f = spring_force(
                &ps[i].position,
                &ps[s.particle_b as usize].position,
                s.stiffness,
                s.rest_length,
            );
            assert(f@ == spec_force_from_spring(pv, i as int, sv[idx as int]));
            acc_x = acc_x + f.x;
            acc_y = acc_y + f.y;
            acc_z = acc_z + f.z;
        } else if s.particle_b as usize == i {
            let f = spring_force(
                &ps[i].position,
                &ps[s.particle_a as usize].position,
                s.stiffness,
                s.rest_length,
            );
            assert(f@ == spec_force_from_spring(pv, i as int, sv[idx as int]));
            acc_x = acc_x + f.x;
            acc_y = acc_y + f.y;
            acc_z = acc_z + f.z;
        } else {
            assert(spec_force_from_spring(pv, i as int, sv[idx as int]) == v3_zero());
        }
        idx = idx + 1;
    }
    assert(sv.take(sv.len() as int) =~= sv);
    let ghost net = spec_net_spring_force(pv, i as int, sv);
    assert(v3(acc_x as int, acc_y as int, acc_z as int) == net);
    let ghost accbound = (MAX_SPRINGS as int) * (FORCE_TERM_LIMIT as int);
    proof {
        vstd::arithmetic::mul::lemma_mul_inequality(idx as int, MAX_SPRINGS as int, FORCE_TERM_LIMIT as int);
        assert(-accbound <= acc_x <= accbound);
        assert(-accbound <= acc_y <= accbound);
        assert(-accbound <= acc_z <= accbound);
    }

    let p = ps[i];
    proof {
        lemma_abs_mul_bound(params.gravity.x as int, params.mass as int, GRAVITY_LIMIT as int, MASS_LIMIT as int);
        lemma_abs_mul_bound(params.gravity.y as int, params.mass as int, GRAVITY_LIMIT as int, MASS_LIMIT as int);
        lemma_abs_mul_bound(params.gravity.z as int, params.mass as int, GRAVITY_LIMIT as int, MASS_LIMIT as int);
        lemma_abs_mul_bound(params.damping as int, p.velocity.x as int, DAMPING_LIMIT as int, COORD_LIMIT as int);
        lemma_abs_mul_bound(params.damping as int, p.velocity.y as int, DAMPING_LIMIT as int, COORD_LIMIT as int);
        lemma_abs_mul_bound(params.damping as int, p.velocity.z as int, DAMPING_LIMIT as int, COORD_LIMIT as int);
        lemma_div_toward_zero_bound(
            params.damping as int * p.velocity.x as int,
            SCALE as int,
            DAMPING_LIMIT as int * COORD_LIMIT as int,
        );
        lemma_div_toward_zero_bound(
            params.damping as int * p.velocity.y as int,
            SCALE as int,
            DAMPING_LIMIT as int * COORD_LIMIT as int,
        );
        lemma_div_toward_zero_bound(
            params.damping as int * p.velocity.z as int,
            SCALE as int,
            DAMPING_LIMIT as int * COORD_LIMIT as int,
        );
    }
    let gx: i128 = (params.gravity.x as i128) * (params.mass as i128);
    let gy: i128 = (params.gravity.y as i128) * (params.mass as i128);
    let gz: i128 = (params.gravity.z as i128) * (params.mass as i128);
    let dmp_x: i128 = tdiv_i128((params.damping as i128) * (p.velocity.x as i128), SCALE as i128);
    let dmp_y: i128 = tdiv_i128((params.damping as i128) * (p.velocity.y as i128), SCALE as i128);
    let dmp_z: i128 = tdiv_i128((params.damping as i128) * (p.velocity.z as i128), SCALE as i128);

    let fx: i128 = gx + acc_x - dmp_x;
    let fy: i128 = gy + acc_y - dmp_y;
    let fz: i128 = gz + acc_z - dmp_z;
    let ghost f = spec_total_force(pv, i as int, sv, *params);
    assert(f == v3(fx as int, fy as int, fz as int));

    let ghost fbound = accbound + GRAVITY_LIMIT as int * MASS_LIMIT as int
        + DAMPING_LIMIT as int * COORD_LIMIT as int;
    assert(-fbound <= fx <= fbound);
    assert(-fbound <= fy <= fbound);
    assert(-fbound <= fz <= fbound);
    let divisor: i128 = (params.mass as i128) * (SCALE as i128);
    assert(0 < divisor <= MASS_LIMIT as int * SCALE as int) by (nonlinear_arith)
        requires 1 <= params.mass <= MASS_LIMIT, divisor == params.mass as int * SCALE as int;
    let ghost dvbound = fbound * DT_LIMIT as int;
    proof {
        lemma_abs_mul_bound(fx as int, params.dt as int, fbound, DT_LIMIT as int);
        lemma_abs_mul_bound(fy as int, params.dt as int, fbound, DT_LIMIT as int);
        lemma_abs_mul_bound(fz as int, params.dt as int, fbound, DT_LIMIT as int);
        assert(dvbound <= dvbound * (divisor as int)) by (nonlinear_arith)
            requires dvbound >= 0, divisor >= 1;
        lemma_div_toward_zero_bound(fx as int * params.dt as int, divisor as int, dvbound);
        lemma_div_toward_zero_bound(fy as int * params.dt as int, divisor as int, dvbound);
        lemma_div_toward_zero_bound(fz as int * params.dt as int, divisor as int, dvbound);
    }
    let dvx: i128 = tdiv_i128(fx * (params.dt as i128), divisor);
    let dvy: i128 = tdiv_i128(fy * (params.dt as i128), divisor);
    let dvz: i128 = tdiv_i128(fz * (params.dt as i128), divisor);

    let v2x: i64 = clamp_i128((p.velocity.x as i128) + dvx, COORD_LIMIT);
    let v2y: i64 = clamp_i128((p.velocity.y as i128) + dvy, COORD_LIMIT);
    let v2z: i64 = clamp_i128((p.velocity.z as i128) + dvz, COORD_LIMIT);

    let ghost dpbound = COORD_LIMIT as int * DT_LIMIT as int;
    proof {
        lemma_abs_mul_bound(v2x as int, params.dt as int, COORD_LIMIT as int, DT_LIMIT as int);
        lemma_abs_mul_bound(v2y as int, params.dt as int, COORD_LIMIT as int, DT_LIMIT as int);
        lemma_abs_mul_bound(v2z as int, params.dt as int, COORD_LIMIT as int, DT_LIMIT as int);
        assert(dpbound <= dpbound * SCALE as int) by (nonlinear_arith)
            requires dpbound >= 0, SCALE as int >= 1;
        lemma_div_toward_zero_bound(v2x as int * params.dt as int, SCALE as int, dpbound);
        lemma_div_toward_zero_bound(v2y as int * params.dt as int, SCALE as int, dpbound);
        lemma_div_toward_zero_bound(v2z as int * params.dt as int, SCALE as int, dpbound);
    }
    let dpx: i128 = tdiv_i128((v2x as i128) * (params.dt as i128), SCALE as i128);
    let dpy: i128 = tdiv_i128((v2y as i128) * (params.dt as i128), SCALE as i128);
    let dpz: i128 = tdiv_i128((v2z as i128) * (params.dt as i128), SCALE as i128);

    let p2x: i64 = clamp_i128((p.position.x as i128) + dpx, COORD_LIMIT);
    let p2y: i64 = clamp_i128((p.position.y as i128) + dpy, COORD_LIMIT);
    let p2z: i64 = clamp_i128((p.position.z as i128) + dpz, COORD_LIMIT);

    let r = Particle {
        position: Vec3 { x: p2x, y: p2y, z: p2z },
        velocity: Vec3 { x: v2x, y: v2y, z: v2z },
    };
    assert(r@ == spec_step_particle(pv, i as int, sv, *params));
    r
}

/// Computes the complete next particle array: every particle written
/// exactly once, each from the same previous state.
#[verifier::loop_isolation(false)]
pub fn step_all(ps: &Vec<Particle>, springs: &Vec<Spring>, params: &SimParams) -> (r: Vec<Particle>)
    requires
        particles_wf(particle_views(ps@)),
        springs_wf(spring_views(springs@), ps@.len() as int),
        springs@.len() <= MAX_SPRINGS,
        params.wf(),
    ensures
        r@.len() == ps@.len(),
        forall|k: int|
            0 <= k < r@.len() ==> #[trigger] r@[k]@ == spec_step_particle(
                particle_views(ps@),
                k,
                spring_views(springs@),
                *params,
            ),
        particles_wf(particle_views(r@)),
{
    let mut out: Vec<Particle> = Vec::new();
    let mut k: usize = 0;
    while k < ps.len()
        invariant
            k <= ps@.len(),
            out@.len() == k,
            forall|t: int|
                0 <= t < k ==> #[trigger] out@[t]@ == spec_step_particle(
                    particle_views(ps@),
                    t,
                    spring_views(springs@),
                    *params,
                ),
            forall|t: int| 0 <= t < k ==> particle_in_range(#[trigger] out@[t]@),
        decreases ps@.len() - k,
    {
        let next = step_particle(ps, k, springs, params);
        out.push(next);
        k = k + 1;
    }
    assert forall|t: int| 0 <= t < out@.len() implies particle_in_range(
        #[trigger] particle_views(out@)[t],
    ) by {
        assert(particle_views(out@)[t] == out@[t]@);
    }
    out
}

/// A spring whose endpoints are held at measured distance exactly its rest
/// length contributes zero force.
pub proof fn lemma_spring_at_rest_zero_force(pa: Vec3g, pb: Vec3g, stiffness: int, rest_length: int)
    requires
        sqrt_floor(norm_sq(v3_sub(pb, pa)) as nat) == rest_length,
    ensures
        spec_spring_force(pa, pb, stiffness, rest_length) == v3_zero(),
{
    let d = v3_sub(pb, pa);
    let l = sqrt_floor(norm_sq(d) as nat) as int;
    if l != 0 {
        let m = stiffness * (l - rest_length);
        assert(m == 0) by (nonlinear_arith)
            requires m == stiffness * (l - rest_length), l == rest_length;
        assert(m * d.x == 0) by (nonlinear_arith)
            requires m == 0;
        assert(m * d.y == 0) by (nonlinear_arith)
            requires m == 0;
        assert(m * d.z == 0) by (nonlinear_arith)
            requires m == 0;
        lemma_div_toward_zero_of0(l);
    }
}

/// A spring whose endpoints are exactly `rest_length` apart (their squared
/// distance is the square of the rest length) contributes zero force.
pub proof fn lemma_spring_at_exact_rest_zero_force(
    pa: Vec3g,
    pb: Vec3g,
    stiffness: int,
    rest_length: int,
)
    requires
        rest_length >= 0,
        norm_sq(v3_sub(pb, pa)) == rest_length * rest_length,
    ensures
        spec_spring_force(pa, pb, stiffness, rest_length) == v3_zero(),
{
    assert(norm_sq(v3_sub(pb, pa)) as nat == (rest_length as nat) * (rest_length as nat));
    crate::math::lemma_sqrt_floor_of_square(rest_length as nat);
    lemma_spring_at_rest_zero_force(pa, pb, stiffness, rest_length);
}

/// Newton's third law for one spring: the force on one end is exactly the
/// negation of the force on the other end, component for component.
pub proof fn lemma_spring_force_antisymmetric(pa: Vec3g, pb: Vec3g, stiffness: int, rest_length: int)
    ensures
        spec_spring_force(pb, pa, stiffness, rest_length)
            == v3_neg(spec_spring_force(pa, pb, stiffness, rest_length)),
{
    let d = v3_sub(pb, pa);
    let e = v3_sub(pa, pb);
    lemma_norm_sq_sub_symmetric(pa, pb);
    assert(norm_sq(e) == norm_sq(d));
    let l = sqrt_floor(norm_sq(d) as nat) as int;
    if l != 0 {
        let m = stiffness * (l - rest_length);
        assert(m * e.x == -(m * d.x)) by (nonlinear_arith)
            requires e.x == -d.x;
        assert(m * e.y == -(m * d.y)) by (nonlinear_arith)
            requires e.y == -d.y;
        assert(m * e.z == -(m * d.z)) by (nonlinear_arith)
            requires e.z == -d.z;
        lemma_div_toward_zero_neg(m * d.x, l);
        lemma_div_toward_zero_neg(m * d.y, l);
        lemma_div_toward_zero_neg(m * d.z, l);
    }
}

/// Newton's third law for a two-particle system joined by one spring, with
/// gravity and damping off: at every tick the two total forces are equal
/// in magnitude and opposite in direction.
pub proof fn lemma_newton_third_law_pair(ps: Seq<ParticleG>, s: SpringG, pr: SimParams)
    requires
        ps.len() == 2,
        s.particle_a == 0,
        s.particle_b == 1,
        pr.gravity@ == v3_zero(),
        pr.damping == 0,
    ensures
        spec_total_force(ps, 0, seq![s], pr)
            == v3_neg(spec_total_force(ps, 1, seq![s], pr)),
{
    let ss = seq![s];
    assert(ss.drop_last() =~= Seq::<SpringG>::empty());
    assert(ss.last() == s);
    reveal_with_fuel(spec_net_spring_force, 3);
    assert(spec_net_spring_force(ps, 0, ss)
        == v3_add(v3_zero(), spec_force_from_spring(ps, 0, s)));
    assert(spec_net_spring_force(ps, 1, ss)
        == v3_add(v3_zero(), spec_force_from_spring(ps, 1, s)));
    let f0 = spec_force_from_spring(ps, 0, s);
    let f1 = spec_force_from_spring(ps, 1, s);
    assert(f0 == spec_spring_force(ps[0].position, ps[1].position, s.stiffness, s.rest_length));
    assert(f1 == spec_spring_force(ps[1].position, ps[0].position, s.stiffness, s.rest_length));
    lemma_spring_force_antisymmetric(ps[0].position, ps[1].position, s.stiffness, s.rest_length);
    assert(0 * (pr.mass as int) == 0) by (nonlinear_arith);
    assert(0 * ps[0].velocity.x == 0) by (nonlinear_arith);
    assert(0 * ps[0].velocity.y == 0) by (nonlinear_arith);
    assert(0 * ps[0].velocity.z == 0) by (nonlinear_arith);
    assert(0 * ps[1].velocity.x == 0) by (nonlinear_arith);
    assert(0 * ps[1].velocity.y == 0) by (nonlinear_arith);
    assert(0 * ps[1].velocity.z == 0) by (nonlinear_arith);
    lemma_div_toward_zero_of0(SCALE as int);
}

/// Conservation at the step level: two equal particles at rest joined by
/// one spring, with gravity and damping off, leave a tick with exactly
/// opposite velocities, whatever the spring's displacement.
pub proof fn lemma_conservation_pair_step(ps: Seq<ParticleG>, s: SpringG, pr: SimParams)
    requires
        ps.len() == 2,
        s.particle_a == 0,
        s.particle_b == 1,
        pr.gravity@ == v3_zero(),
        pr.damping == 0,
        pr.mass >= 1,
        ps[0].velocity == v3_zero(),
        ps[1].velocity == v3_zero(),
    ensures
        spec_step_particle(ps, 0, seq![s], pr).velocity
            == v3_neg(spec_step_particle(ps, 1, seq![s], pr).velocity),
{
    lemma_newton_third_law_pair(ps, s, pr);
    let f0 = spec_total_force(ps, 0, seq![s], pr);
    let f1 = spec_total_force(ps, 1, seq![s], pr);
    assert(f1 == v3_neg(f0));
    let divisor = pr.mass * (SCALE as int);
    assert(divisor > 0) by (nonlinear_arith)
        requires pr.mass >= 1, divisor == pr.mass * (SCALE as int);
    assert(f1.x * pr.dt == -(f0.x * pr.dt)) by (nonlinear_arith)
        requires f1.x == -f0.x;
    assert(f1.y * pr.dt == -(f0.y * pr.dt)) by (nonlinear_arith)
        requires f1.y == -f0.y;
    assert(f1.z * pr.dt == -(f0.z * pr.dt)) by (nonlinear_arith)
        requires f1.z == -f0.z;
    lemma_div_toward_zero_neg(f0.x * pr.dt, divisor);
    lemma_div_toward_zero_neg(f0.y * pr.dt, divisor);
    lemma_div_toward_zero_neg(f0.z * pr.dt, divisor);
    crate::math::lemma_clamp_neg(div_toward_zero(f0.x * pr.dt, divisor), COORD_LIMIT as int);
    crate::math::lemma_clamp_neg(div_toward_zero(f0.y * pr.dt, divisor), COORD_LIMIT as int);
    crate::math::lemma_clamp_neg(div_toward_zero(f0.z * pr.dt, divisor), COORD_LIMIT as int);
}

/// With every spring at rest the net spring force vanishes.
pub proof fn lemma_net_force_zero_at_rest(ps: Seq<ParticleG>, i: int, ss: Seq<SpringG>)
    requires
        forall|j: int| 0 <= j < ss.len() ==> spring_at_rest(#[trigger] ss[j], ps),
    ensures
        spec_net_spring_force(ps, i, ss) == v3_zero(),
    decreases ss.len(),
{
    if ss.len() > 0 {
        assert(forall|j: int|
            0 <= j < ss.drop_last().len() ==> #[trigger] ss.drop_last()[j] == ss[j]);
        lemma_net_force_zero_at_rest(ps, i, ss.drop_last());
        let s = ss.last();
        assert(spring_at_rest(s, ps));
        if s.particle_a == i {
            lemma_spring_at_rest_zero_force(
                ps[i].position,
                ps[s.particle_b].position,
                s.stiffness,
                s.rest_length,
            );
        } else if s.particle_b == i {
            lemma_norm_sq_sub_symmetric(ps[s.particle_a].position, ps[s.particle_b].position);
            lemma_spring_at_rest_zero_force(
                ps[i].position,
                ps[s.particle_a].position,
                s.stiffness,
                s.rest_length,
            );
        }
        assert(spec_force_from_spring(ps, i, s) == v3_zero());
    }
}

/// Every particle of the initial lattice is within the representable
/// coordinate range.
pub proof fn lemma_initial_lattice_in_range(ps: Seq<ParticleG>, n: int, h: int, disp: int)
    requires
        is_initial_lattice(ps, n, h, disp),
        2 <= n <= MAX_GRID_SIZE,
        0 < h <= MAX_HALF_SPACING,
        -MAX_DISPLACEMENT <= disp <= MAX_DISPLACEMENT,
    ensures
        particles_wf(ps),
{
    assert forall|k: int| 0 <= k < ps.len() implies particle_in_range(#[trigger] ps[k]) by {
        let r = k / n;
        let c = k % n;
        assert(k < n * n);
        vstd::arithmetic::div_mod::lemma_multiply_divide_lt(k, n, n);
        vstd::arithmetic::div_mod::lemma_div_pos_is_pos(k, n);
        vstd::arithmetic::div_mod::lemma_mod_division_less_than_divisor(k, n);
        assert(ps[k] == initial_particle(n, h, disp, r, c));
        lemma_abs_mul_bound(2 * c - n, h, MAX_GRID_SIZE as int, MAX_HALF_SPACING as int);
        lemma_abs_mul_bound(2 * r - n, h, MAX_GRID_SIZE as int, MAX_HALF_SPACING as int);
    }
}

/// An entire freshly generated grid is in equilibrium: with gravity and
/// damping off, one tick leaves every particle's position and velocity
/// unchanged, because every generated spring starts exactly at its rest
/// length and every velocity starts at zero.
pub proof fn lemma_initial_grid_equilibrium(g: GridModel, ps: Seq<ParticleG>, disp: int, pr: SimParams)
    requires
        g.wf(),
        is_initial_lattice(ps, g.n, g.h, disp),
        -MAX_DISPLACEMENT <= disp <= MAX_DISPLACEMENT,
        pr.gravity@ == v3_zero(),
        pr.damping == 0,
        pr.mass >= 1,
    ensures
        forall|i: int|
            0 <= i < ps.len() ==> spec_step_particle(ps, i, grid_springs(g), pr) == ps[i],
{
    lemma_grid_springs_at_rest(g, ps, disp);
    lemma_initial_lattice_in_range(ps, g.n, g.h, disp);
    assert forall|i: int|
        0 <= i < ps.len() implies spec_step_particle(ps, i, grid_springs(g), pr) == ps[i] by {
        vstd::arithmetic::div_mod::lemma_div_pos_is_pos(i, g.n);
        vstd::arithmetic::div_mod::lemma_mod_division_less_than_divisor(i, g.n);
        assert(ps[i] == initial_particle(g.n, g.h, disp, i / g.n, i % g.n));
        assert(ps[i].velocity == v3_zero());
        assert(particle_in_range(ps[i]));
        lemma_equilibrium_step(ps, i, grid_springs(g), pr);
    }
}

/// Equilibrium is stable: a particle at rest, with gravity and damping off
/// and all springs at their rest length, does not move in a tick.
pub proof fn lemma_equilibrium_step(ps: Seq<ParticleG>, i: int, ss: Seq<SpringG>, pr: SimParams)
    requires
        0 <= i < ps.len(),
        pr.gravity@ == v3_zero(),
        pr.damping == 0,
        pr.mass >= 1,
        ps[i].velocity == v3_zero(),
        v3_in_range(ps[i].position, COORD_LIMIT as int),
        forall|j: int| 0 <= j < ss.len() ==> spring_at_rest(#[trigger] ss[j], ps),
    ensures
        spec_step_particle(ps, i, ss, pr) == ps[i],
{
    lemma_net_force_zero_at_rest(ps, i, ss);
    assert(0 * (pr.mass as int) == 0) by (nonlinear_arith);
    assert(0 * pr.dt as int == 0) by (nonlinear_arith);
    lemma_div_toward_zero_of0(SCALE as int);
    let f = spec_total_force(ps, i, ss, pr);
    assert(f == v3_zero());
    let divisor = pr.mass * (SCALE as int);
    assert(divisor > 0) by (nonlinear_arith)
        requires pr.mass >= 1, divisor == pr.mass * (SCALE as int);
    lemma_div_toward_zero_of0(divisor);
    let stepped = spec_step_particle(ps, i, ss, pr);
    assert(stepped.velocity == ps[i].velocity);
    assert(stepped.position == ps[i].position);
}

} // verus!
