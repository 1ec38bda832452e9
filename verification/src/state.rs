//! The simulation state store: two interchangeable particle buffers with a
//! single "current" tag, the immutable spring list, and the parameter
//! block. A tick reads the current buffer and writes the complete other
//! buffer, then flips the tag — a metadata update, never a data copy — so
//! the buffer that was current before the tick is never a write target
//! during it.

use crate::config::{spec_validate, validate, ConfigError, SimConfig};
use crate::forces::{
    particles_wf, spec_step_particle, springs_wf, step_all, SimParams, MAX_SPRINGS,
};

use crate::topology::{
    generate_particles, generate_springs, grid_springs, initial_particle, is_initial_lattice,
    particle_views, spring_views, Particle, Spring,
};
use vstd::arithmetic::div_mod::lemma_fundamental_div_mod;
use vstd::prelude::*;

verus! {

/// The double-buffered simulation state.
pub struct SimState {
    config: SimConfig,
    buf_a: Vec<Particle>,
    buf_b: Vec<Particle>,
    springs: Vec<Spring>,
    params: SimParams,
    current: usize,
}

impl SimState {
    /// Which buffer is current: the most recently completed one, the
    /// render source and the next tick's read source.
    pub closed spec fn cur(self) -> int {
        self.current as int
    }

    /// The contents of buffer 0 or buffer 1.
    pub closed spec fn buffer(self, which: int) -> Seq<Particle> {
        if which == 0 {
            self.buf_a@
        } else {
            self.buf_b@
        }
    }

    /// The immutable spring list.
    pub closed spec fn springs_seq(self) -> Seq<Spring> {
        self.springs@
    }

    /// The parameter block.
    pub closed spec fn params_spec(self) -> SimParams {
        self.params
    }

    /// The configuration the state was built from.
    pub closed spec fn config_spec(self) -> SimConfig {
        self.config
    }

    /// The store's invariant: a valid configuration, two equally sized
    /// in-range buffers, a well-formed spring list and a well-formed
    /// parameter block.
    pub closed spec fn wf(self) -> bool {
        &&& self.config.valid()
        &&& self.current == 0 || self.current == 1
        &&& self.buf_a@.len() == self.config.particle_count()
        &&& self.buf_b@.len() == self.config.particle_count()
        &&& particles_wf(particle_views(self.buf_a@))
        &&& particles_wf(particle_views(self.buf_b@))
        &&& springs_wf(spring_views(self.springs@), self.config.particle_count())
        &&& self.springs@.len() <= MAX_SPRINGS
        &&& self.params.wf()
    }

    /// Builds the initial state from a configuration: both buffers seeded
    /// with the same freshly generated particle lattice (generation is
    /// deterministic, so generating twice gives identical copies), the
    /// spring network, the parameter block, and buffer 0 current. Rejects
    /// exactly the invalid configurations, naming the first violated
    /// bound.
    pub fn new(config: &SimConfig) -> (r: Result<SimState, ConfigError>)
        ensures
            r is Ok <==> config.valid(),
            r is Err ==> Result::<(), ConfigError>::Err(r->Err_0) == spec_validate(*config),
            r is Ok ==> ({
                let s = r->Ok_0;
                &&& s.wf()
                &&& s.config_spec() == *config
                &&& s.cur() == 0
                &&& is_initial_lattice(
                    particle_views(s.buffer(0)),
                    config.grid_size as int,
                    config.half_spacing as int,
                    config.displacement as int,
                )
                &&& s.buffer(1) == s.buffer(0)
                &&& spring_views(s.springs_seq()) == grid_springs(config.grid_model())
                &&& s.params_spec() == config.spec_params()
            }),
    {
        match validate(config) {
            Err(e) => Err(e),
            Ok(()) => {
                let ghost g = config.grid_model();
                let n = config.grid_size;
                let buf_a = generate_particles(n, config.half_spacing, config.displacement);
                let buf_b = generate_particles(n, config.half_spacing, config.displacement);
                proof {
                    assert forall|k: int| 0 <= k < particle_views(buf_a@).len() implies
                        #[trigger] particle_views(buf_a@)[k] == initial_particle(
                            n as int,
                            config.half_spacing as int,
                            config.displacement as int,
                            k / (n as int),
                            k % (n as int),
                        ) by {
                        assert(particle_views(buf_a@)[k] == buf_a@[k]@);
                    }
                    assert forall|k: int| 0 <= k < particle_views(buf_b@).len() implies
                        #[trigger] particle_views(buf_b@)[k] == initial_particle(
                            n as int,
                            config.half_spacing as int,
                            config.displacement as int,
                            k / (n as int),
                            k % (n as int),
                        ) by {
                        assert(particle_views(buf_b@)[k] == buf_b@[k]@);
                    }
                    crate::topology::lemma_particle_generation_deterministic(
                        buf_a@,
                        buf_b@,
                        n as int,
                        config.half_spacing as int,
                        config.displacement as int,
                    );
                    crate::forces::lemma_initial_lattice_in_range(
                        particle_views(buf_a@),
                        n as int,
                        config.half_spacing as int,
                        config.displacement as int,
                    );
                }
                let springs = generate_springs(
                    n,
                    config.half_spacing,
                    config.stiffness_structural,
                    config.stiffness_shear,
                    config.stiffness_bend,
                );
                proof {
                    crate::topology::lemma_grid_springs_wf(g);
                    crate::spring_count::lemma_spring_count(g);
                    assert(2 * g.n * (g.n - 1) + 2 * (g.n - 1) * (g.n - 1) + 2 * g.n * (g.n - 2)
                        <= MAX_SPRINGS as int) by (nonlinear_arith)
                        requires 2 <= g.n <= 4096;
                    assert(spring_views(springs@).len() == springs@.len());
                }
                let params = config.params();
                Ok(SimState {
                    config: *config,
                    buf_a,
                    buf_b,
                    springs,
                    params,
                    current: 0,
                })
            },
        }
    }

    /// Advances the simulation by one tick: the kernel reads the current
    /// buffer, the spring list and the parameters, writes the complete
    /// other buffer — the buffer that was current is never a write target —
    /// and the current tag flips, which atomically retargets both the
    /// render source and the next tick's read source.
    pub fn tick(&mut self)
        requires
            old(self).wf(),
        ensures
            final(self).wf(),
            tick_relation(*old(self), *final(self)),
    {
        let next = if self.current == 0 {
            step_all(&self.buf_a, &self.springs, &self.params)
        } else {
            step_all(&self.buf_b, &self.springs, &self.params)
        };
        if self.current == 0 {
            self.buf_b = next;
            self.current = 1;
        } else {
            self.buf_a = next;
            self.current = 0;
        }
    }

    /// The current (render-visible) particle buffer.
    pub fn current_particles(&self) -> (r: &Vec<Particle>)
        requires
            self.wf(),
        ensures
            r@ == self.buffer(self.cur()),
    {
        if self.current == 0 {
            &self.buf_a
        } else {
            &self.buf_b
        }
    }

    /// Read-only view of buffer 0 or buffer 1, for rendering and
    /// inspection.
    pub fn buffer_at(&self, which: usize) -> (r: &Vec<Particle>)
        requires
            which <= 1,
        ensures
            r@ == self.buffer(which as int),
    {
        if which == 0 {
            &self.buf_a
        } else {
            &self.buf_b
        }
    }

    /// Which buffer is current, 0 or 1.
    pub fn current_index(&self) -> (r: usize)
        requires
            self.wf(),
        ensures
            r as int == self.cur(),
            r == 0 || r == 1,
    {
        self.current
    }

    /// The immutable spring list.
    pub fn spring_list(&self) -> (r: &Vec<Spring>)
        ensures
            r@ == self.springs_seq(),
    {
        &self.springs
    }

    /// The parameter block.
    pub fn params(&self) -> (r: SimParams)
        ensures
            r == self.params_spec(),
    {
        self.params
    }

    /// The configuration the state was built from.
    pub fn config(&self) -> (r: SimConfig)
        ensures
            r == self.config_spec(),
    {
        self.config
    }

    /// How many particles the grid holds.
    pub fn particle_count(&self) -> (r: u32)
        requires
            self.wf(),
        ensures
            r as int == self.config_spec().particle_count(),
    {
        assert(self.config.grid_size * self.config.grid_size
            <= crate::limits::MAX_GRID_SIZE * crate::limits::MAX_GRID_SIZE) by (nonlinear_arith)
            requires 2 <= self.config.grid_size <= crate::limits::MAX_GRID_SIZE;
        self.config.grid_size * self.config.grid_size
    }

    /// How many parallel groups one tick dispatches: the particle count is
    /// an exact multiple of the workgroup size, so nothing is rounded away.
    pub fn dispatch_count(&self) -> (r: u32)
        requires
            self.wf(),
        ensures
            r as int == self.config_spec().particle_count()
                / (self.config_spec().workgroup_size as int),
            r as int * (self.config_spec().workgroup_size as int)
                == self.config_spec().particle_count(),
    {
        let count = self.particle_count();
        let r = count / self.config.workgroup_size;
        proof {
            lemma_fundamental_div_mod(count as int, self.config.workgroup_size as int);
            assert((count as int) % (self.config.workgroup_size as int) == 0);
            assert((self.config.workgroup_size as int) * ((count as int) / (self.config.workgroup_size as int))
                == (count as int / (self.config.workgroup_size as int)) * (self.config.workgroup_size as int))
                by (nonlinear_arith);
        }
        r
    }

    /// Replaces the parameter block between ticks: the explicit
    /// parameter-update operation; nothing else about the state changes.
    pub fn set_params(&mut self, params: SimParams)
        requires
            old(self).wf(),
            params.wf(),
        ensures
            final(self).wf(),
            final(self).params_spec() == params,
            final(self).cur() == old(self).cur(),
            final(self).buffer(0) == old(self).buffer(0),
            final(self).buffer(1) == old(self).buffer(1),
            final(self).springs_seq() == old(self).springs_seq(),
            final(self).config_spec() == old(self).config_spec(),
    {
        self.params = params;
    }
}

/// Equilibrium is stable across a whole tick of the store: when the
/// current buffer holds the freshly generated lattice, the springs are the
/// generated network, and gravity and damping are off, the buffer written
/// by the tick is identical to the buffer read — every particle's position
/// and velocity are unchanged.
pub proof fn lemma_equilibrium_tick(pre: SimState, post: SimState)
    requires
        pre.wf(),
        tick_relation(pre, post),
        is_initial_lattice(
            particle_views(pre.buffer(pre.cur())),
            pre.config_spec().grid_size as int,
            pre.config_spec().half_spacing as int,
            pre.config_spec().displacement as int,
        ),
        spring_views(pre.springs_seq()) == grid_springs(pre.config_spec().grid_model()),
        pre.params_spec().gravity@ == crate::vec3::v3_zero(),
        pre.params_spec().damping == 0,
    ensures
        post.buffer(post.cur()) == pre.buffer(pre.cur()),
{
    let ps = particle_views(pre.buffer(pre.cur()));
    let g = pre.config_spec().grid_model();
    crate::forces::lemma_initial_grid_equilibrium(
        g,
        ps,
        pre.config_spec().displacement as int,
        pre.params_spec(),
    );
    let before = pre.buffer(pre.cur());
    let after = post.buffer(post.cur());
    assert forall|k: int| 0 <= k < after.len() implies after[k] == before[k] by {
        assert(ps[k] == before[k]@);
        assert(after[k]@ == spec_step_particle(ps, k, spring_views(pre.springs_seq()),
            pre.params_spec()));
        assert(after[k]@ == before[k]@);
    }
    assert(after =~= before);
}

/// What the store's invariant guarantees, spelled out for callers.
pub proof fn lemma_wf_facts(s: SimState)
    requires
        s.wf(),
    ensures
        s.config_spec().valid(),
        0 <= s.cur() <= 1,
        s.buffer(0).len() == s.config_spec().particle_count(),
        s.buffer(1).len() == s.config_spec().particle_count(),
        particles_wf(particle_views(s.buffer(0))),
        particles_wf(particle_views(s.buffer(1))),
        springs_wf(spring_views(s.springs_seq()), s.config_spec().particle_count()),
        s.springs_seq().len() <= MAX_SPRINGS,
        s.params_spec().wf(),
{
}

/// How one tick relates the state after to the state before: the tag
/// flips; the buffer that was current is untouched (it is never the
/// kernel's write target); the other buffer is completely rewritten, each
/// particle to its stepped value; springs, parameters and configuration
/// are unchanged.
pub open spec fn tick_relation(pre: SimState, post: SimState) -> bool {
    &&& post.cur() == 1 - pre.cur()
    &&& post.buffer(pre.cur()) == pre.buffer(pre.cur())
    &&& post.buffer(post.cur()).len() == pre.buffer(pre.cur()).len()
    &&& forall|k: int|
        0 <= k < post.buffer(post.cur()).len() ==> #[trigger] post.buffer(post.cur())[k]@
            == spec_step_particle(
            particle_views(pre.buffer(pre.cur())),
            k,
            spring_views(pre.springs_seq()),
            pre.params_spec(),
        )
    &&& post.springs_seq() == pre.springs_seq()
    &&& post.params_spec() == pre.params_spec()
    &&& post.config_spec() == pre.config_spec()
}

} // verus!
