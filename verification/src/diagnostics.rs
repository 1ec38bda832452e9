//! The diagnostics channel: a fixed-size force breakdown for one
//! designated particle, produced beside a tick for inspection. It is
//! strictly best-effort observability: the simulation itself never depends
//! on it, and the per-spring contribution list is capped at
//! `DIAG_CAPACITY` entries — contributions past the cap are deliberately
//! not recorded, while the summed spring force is always the full sum.

use crate::forces::{
    particles_wf, spec_force_from_spring, spec_net_spring_force,
    spec_total_force, spring_force, springs_wf, SimParams, FORCE_TERM_LIMIT, MAX_SPRINGS,
};
use crate::limits::{
    COORD_LIMIT, DAMPING_LIMIT, DIAG_CAPACITY, GRAVITY_LIMIT, MASS_LIMIT, SCALE,
};
use crate::math::{lemma_abs_mul_bound, lemma_div_toward_zero_bound, tdiv_i128};
use crate::topology::{particle_views, spring_views, Particle, ParticleG, Spring, SpringG};
use crate::vec3::{v3, v3_scale, v3_zero, Force3, Vec3g};
use vstd::prelude::*;

verus! {

/// The force breakdown of one particle during one tick: the gravity
/// force, the first `DIAG_CAPACITY` per-spring contributions in scan
/// order, the full summed spring force, and the final (damped) force.
#[derive(Clone, Debug)]
pub struct DiagnosticRecord {
    pub gravity_force: Force3,
    pub spring_contributions: Vec<Force3>,
    pub spring_total: Force3,
    pub final_force: Force3,
}

/// The mathematical value of a diagnostic record.
pub struct DiagnosticRecordG {
    pub gravity_force: Vec3g,
    pub spring_contributions: Seq<Vec3g>,
    pub spring_total: Vec3g,
    pub final_force: Vec3g,
}

impl View for DiagnosticRecord {
    type V = DiagnosticRecordG;

    open spec fn view(&self) -> DiagnosticRecordG {
        DiagnosticRecordG {
            gravity_force: self.gravity_force@,
            spring_contributions: self.spring_contributions@.map_values(|f: Force3| f@),
            spring_total: self.spring_total@,
            final_force: self.final_force@,
        }
    }
}

/// The first `cap` spring contributions to particle `i`, in scan order
/// over the spring list; contributions past the cap are dropped.
pub open spec fn spec_diag_contributions(
    ps: Seq<ParticleG>,
    i: int,
    ss: Seq<SpringG>,
    cap: int,
) -> Seq<Vec3g>
    decreases ss.len(),
{
    if ss.len() == 0 {
        Seq::empty()
    } else {
        let pre = spec_diag_contributions(ps, i, ss.drop_last(), cap);
        let s = ss.last();
        if (s.particle_a == i || s.particle_b == i) && pre.len() < cap {
            pre.push(spec_force_from_spring(ps, i, s))
        } else {
            pre
        }
    }
}

/// The complete diagnostic record of particle `i` for one tick.
pub open spec fn spec_diag_record(
    ps: Seq<ParticleG>,
    i: int,
    ss: Seq<SpringG>,
    pr: SimParams,
) -> DiagnosticRecordG {
    DiagnosticRecordG {
        gravity_force: v3_scale(pr.gravity@, pr.mass as int),
        spring_contributions: spec_diag_contributions(ps, i, ss, DIAG_CAPACITY as int),
        spring_total: spec_net_spring_force(ps, i, ss),
        final_force: spec_total_force(ps, i, ss, pr),
    }
}

/// Splitting the scanned prefix one spring later extends the capped
/// contribution list by at most that spring's contribution.
proof fn lemma_diag_take_step(ps: Seq<ParticleG>, i: int, ss: Seq<SpringG>, cap: int, t: int)
    requires
        0 <= t < ss.len(),
    ensures
        ({
            let pre = spec_diag_contributions(ps, i, ss.take(t), cap);
            spec_diag_contributions(ps, i, ss.take(t + 1), cap)
                == if (ss[t].particle_a == i || ss[t].particle_b == i) && pre.len() < cap {
                pre.push(spec_force_from_spring(ps, i, ss[t]))
            } else {
                pre
            }
        }),
{
    let a = ss.take(t + 1);
    assert(a.drop_last() =~= ss.take(t));
    assert(a.last() == ss[t]);
}

/// Computes the diagnostic record of particle `i`: the same scan and the
/// same force formulas as the kernel, plus the capped contribution list.
#[verifier::loop_isolation(false)]
pub fn diagnostic_record(
    ps: &Vec<Particle>,
    i: usize,
    springs: &Vec<Spring>,
    params: &SimParams,
) -> (r: DiagnosticRecord)
    requires
        i < ps@.len(),
        particles_wf(particle_views(ps@)),
        springs_wf(spring_views(springs@), ps@.len() as int),
        springs@.len() <= MAX_SPRINGS,
        params.wf(),
    ensures
        r@ == spec_diag_record(particle_views(ps@), i as int, spring_views(springs@), *params),
{
    let ghost pv = particle_views(ps@);
    let ghost sv = spring_views(springs@);
    assert(pv[i as int] == ps@[i as int]@);

    let mut contributions: Vec<Force3> = Vec::new();
    let mut acc_x: i128 = 0;
    let mut acc_y: i128 = 0;
    let mut acc_z: i128 = 0;
    let mut idx: usize = 0;
    assert(sv.take(0) =~= Seq::<SpringG>::empty());
    while idx < springs.len()
        invariant
            idx <= springs@.len(),
            v3(acc_x as int, acc_y as int, acc_z as int)
                == spec_net_spring_force(pv, i as int, sv.take(idx as int)),
            contributions@.map_values(|f: Force3| f@)
                == spec_diag_contributions(pv, i as int, sv.take(idx as int), DIAG_CAPACITY as int),
            contributions@.len() <= DIAG_CAPACITY,
            -(idx as int) * (FORCE_TERM_LIMIT as int) <= acc_x <= (idx as int) * (FORCE_TERM_LIMIT as int),
            -(idx as int) * (FORCE_TERM_LIMIT as int) <= acc_y <= (idx as int) * (FORCE_TERM_LIMIT as int),
            -(idx as int) * (FORCE_TERM_LIMIT as int) <= acc_z <= (idx as int) * (FORCE_TERM_LIMIT as int),
        decreases springs@.len() - idx,
    {
        let s = springs[idx];
        assert(s@ == sv[idx as int]);
        proof {
            crate::forces::lemma_net_take_step(pv, i as int, sv, idx as int);
            lemma_diag_take_step(pv, i as int, sv, DIAG_CAPACITY as int, idx as int);
            assert((idx as int) * (FORCE_TERM_LIMIT as int) + FORCE_TERM_LIMIT as int
                <= (MAX_SPRINGS as int) * (FORCE_TERM_LIMIT as int)) by (nonlinear_arith)
                requires idx as int + 1 <= MAX_SPRINGS as int;
        }
        let incident_other: Option<usize> = if s.particle_a as usize == i {
            Some(s.particle_b as usize)
        } else if s.particle_b as usize == i {
            Some(s.particle_a as usize)
        } else {
            None
        };
        match incident_other {
            Some(other) => {
                let f = spring_force(&ps[i].position, &ps[other].position, s.stiffness, s.rest_length);
                assert(f@ == spec_force_from_spring(pv, i as int, sv[idx as int]));
                acc_x = acc_x + f.x;
                acc_y = acc_y + f.y;
                acc_z = acc_z + f.z;
                if contributions.len() < DIAG_CAPACITY {
                    contributions.push(f);
                    assert(contributions@.map_values(|ff: Force3| ff@) =~= spec_diag_contributions(
                        pv,
                        i as int,
                        sv.take(idx as int + 1),
                        DIAG_CAPACITY as int,
                    ));
                }
            },
            None => {
                assert(spec_force_from_spring(pv, i as int, sv[idx as int]) == v3_zero());
            },
        }
        idx = idx + 1;
    }
    assert(sv.take(sv.len() as int) =~= sv);

    let p = ps[i];
    proof {
        lemma_abs_mul_bound(params.gravity.x as int, params.mass as int, GRAVITY_LIMIT as int, MASS_LIMIT as int);
        lemma_abs_mul_bound(params.gravity.y as int, params.mass as int, GRAVITY_LIMIT as int, MASS_LIMIT as int);
        lemma_abs_mul_bound(params.gravity.z as int, params.mass as int, GRAVITY_LIMIT as int, MASS_LIMIT as int);
        lemma_abs_mul_bound(params.damping as int, p.velocity.x as int, DAMPING_LIMIT as int, COORD_LIMIT as int);
        lemma_abs_mul_bound(params.damping as int, p.velocity.y as int, DAMPING_LIMIT as int, COORD_LIMIT as int);
        lemma_abs_mul_bound(params.damping as int, p.velocity.z as int, DAMPING_LIMIT as int, COORD_LIMIT as int);
        lemma_div_toward_zero_bound(
            params.damping as int * p.velocity.x as int,
            SCALE as int,
            DAMPING_LIMIT as int * COORD_LIMIT as int,
        );
        lemma_div_toward_zero_bound(
            params.damping as int * p.velocity.y as int,
            SCALE as int,
            DAMPING_LIMIT as int * COORD_LIMIT as int,
        );
        lemma_div_toward_zero_bound(
            params.damping as int * p.velocity.z as int,
            SCALE as int,
            DAMPING_LIMIT as int * COORD_LIMIT as int,
        );
        vstd::arithmetic::mul::lemma_mul_inequality(
            idx as int,
            MAX_SPRINGS as int,
            FORCE_TERM_LIMIT as int,
        );
    }
    let gx: i128 = (params.gravity.x as i128) * (params.mass as i128);
    let gy: i128 = (params.gravity.y as i128) * (params.mass as i128);
    let gz: i128 = (params.gravity.z as i128) * (params.mass as i128);
    let dmp_x: i128 = tdiv_i128((params.damping as i128) * (p.velocity.x as i128), SCALE as i128);
    let dmp_y: i128 = tdiv_i128((params.damping as i128) * (p.velocity.y as i128), SCALE as i128);
    let dmp_z: i128 = tdiv_i128((params.damping as i128) * (p.velocity.z as i128), SCALE as i128);

    let r = DiagnosticRecord {
        gravity_force: Force3 { x: gx, y: gy, z: gz },
        spring_contributions: contributions,
        spring_total: Force3 { x: acc_x, y: acc_y, z: acc_z },
        final_force: Force3 {
            x: gx + acc_x - dmp_x,
            y: gy + acc_y - dmp_y,
            z: gz + acc_z - dmp_z,
        },
    };
    assert(r@.spring_contributions == spec_diag_contributions(pv, i as int, sv, DIAG_CAPACITY as int));
    r
}

} // verus!
