//! The simulation driver: one cooperative entry point per frame that runs
//! the scheduler, and — when a tick is due — dispatches the kernel over the
//! state store, flips the buffers and records the tick time. Diagnostics,
//! when enabled, are produced beside the tick from the same pre-tick data
//! the kernel reads; the default path never produces them.

use crate::config::{spec_validate, ConfigError, SimConfig};
use crate::diagnostics::{diagnostic_record, spec_diag_record, DiagnosticRecord};
use crate::scheduler::{sched_step, tick_due, Scheduler};
use crate::state::{lemma_wf_facts, tick_relation, SimState};
use crate::topology::{grid_springs, is_initial_lattice, particle_views, spring_views, Particle};
use vstd::prelude::*;

verus! {

/// What one driver update did: nothing (the interval had not elapsed), one
/// tick, or one tick together with its diagnostic record.
#[derive(Clone, Debug)]
pub enum UpdateOutcome {
    Idle,
    Stepped,
    SteppedWithDiagnostics(DiagnosticRecord),
}

/// The simulation: the double-buffered state store and the step scheduler,
/// with the diagnostics switch fixed at construction.
pub struct Simulation {
    state: SimState,
    scheduler: Scheduler,
    diagnostics_enabled: bool,
}

impl Simulation {
    /// The state store.
    pub closed spec fn state_spec(self) -> SimState {
        self.state
    }

    /// The scheduler.
    pub closed spec fn scheduler_spec(self) -> Scheduler {
        self.scheduler
    }

    /// Whether ticks produce diagnostic records.
    pub closed spec fn diag_enabled_spec(self) -> bool {
        self.diagnostics_enabled
    }

    /// The driver's invariant.
    pub open spec fn wf(self) -> bool {
        self.state_spec().wf()
    }

    /// Builds the simulation from a configuration at clock time `now`:
    /// the validated state store, and a scheduler that counts its first
    /// interval from `now`.
    pub fn new(config: &SimConfig, now: u64) -> (r: Result<Simulation, ConfigError>)
        ensures
            r is Ok <==> config.valid(),
            r is Err ==> Result::<(), ConfigError>::Err(r->Err_0) == spec_validate(*config),
            r is Ok ==> ({
                let s = r->Ok_0;
                &&& s.wf()
                &&& s.state_spec().config_spec() == *config
                &&& s.state_spec().cur() == 0
                &&& is_initial_lattice(
                    particle_views(s.state_spec().buffer(0)),
                    config.grid_size as int,
                    config.half_spacing as int,
                    config.displacement as int,
                )
                &&& s.state_spec().buffer(1) == s.state_spec().buffer(0)
                &&& spring_views(s.state_spec().springs_seq()) == grid_springs(config.grid_model())
                &&& s.state_spec().params_spec() == config.spec_params()
                &&& s.scheduler_spec().interval == config.generation_interval
                &&& s.scheduler_spec().last_tick == now
                &&& s.diag_enabled_spec() == config.diagnostics_enabled
            }),
    {
        match SimState::new(config) {
            Err(e) => Err(e),
            Ok(state) => Ok(Simulation {
                state,
                scheduler: Scheduler::new(config.generation_interval, now),
                diagnostics_enabled: config.diagnostics_enabled,
            }),
        }
    }

    /// One per-frame update at clock time `now` (monotonic, so never
    /// before the recorded last tick). Idle exactly while the time since
    /// the last tick is within the generation interval; otherwise exactly
    /// one tick fires, the tick time is recorded, and — only when
    /// diagnostics are enabled — the tick's diagnostic record for particle
    /// 0, computed from the same pre-tick buffer the kernel read, is
    /// returned with it.
    pub fn update(&mut self, now: u64) -> (r: UpdateOutcome)
        requires
            old(self).wf(),
            old(self).scheduler_spec().last_tick <= now,
        ensures
            final(self).wf(),
            final(self).diag_enabled_spec() == old(self).diag_enabled_spec(),
            final(self).scheduler_spec().interval == old(self).scheduler_spec().interval,
            final(self).scheduler_spec().last_tick == sched_step(
                old(self).scheduler_spec().last_tick as int,
                old(self).scheduler_spec().interval as int,
                now as int,
            ),
            !tick_due(
                old(self).scheduler_spec().last_tick as int,
                old(self).scheduler_spec().interval as int,
                now as int,
            ) ==> {
                &&& r is Idle
                &&& final(self).state_spec() == old(self).state_spec()
            },
            tick_due(
                old(self).scheduler_spec().last_tick as int,
                old(self).scheduler_spec().interval as int,
                now as int,
            ) ==> {
                &&& tick_relation(old(self).state_spec(), final(self).state_spec())
                &&& !(r is Idle)
                &&& old(self).diag_enabled_spec() ==> (r matches
                    UpdateOutcome::SteppedWithDiagnostics(d) && d@ == spec_diag_record(
                    particle_views(old(self).state_spec().buffer(old(self).state_spec().cur())),
                    0,
                    spring_views(old(self).state_spec().springs_seq()),
                    old(self).state_spec().params_spec(),
                ))
                &&& !old(self).diag_enabled_spec() ==> r is Stepped
            },
    {
        let ticked = self.scheduler.update(now);
        if !ticked {
            return UpdateOutcome::Idle;
        }
        proof {
            lemma_wf_facts(self.state);
            assert(self.state.config_spec().particle_count() >= 1) by (nonlinear_arith)
                requires self.state.config_spec().grid_size >= 2;
        }
        if self.diagnostics_enabled {
            let params = self.state.params();
            let diag = {
                let current = self.state.current_particles();
                let springs = self.state.spring_list();
                diagnostic_record(current, 0, springs, &params)
            };
            self.state.tick();
            UpdateOutcome::SteppedWithDiagnostics(diag)
        } else {
            self.state.tick();
            UpdateOutcome::Stepped
        }
    }

    /// The current (render-visible) particle buffer.
    pub fn current_particles(&self) -> (r: &Vec<Particle>)
        requires
            self.wf(),
        ensures
            r@ == self.state_spec().buffer(self.state_spec().cur()),
    {
        self.state.current_particles()
    }

    /// The state store, for inspection.
    pub fn state(&self) -> (r: &SimState)
        ensures
            r == self.state_spec(),
    {
        &self.state
    }

    /// The scheduler, for inspection.
    pub fn scheduler(&self) -> (r: Scheduler)
        ensures
            r == self.scheduler_spec(),
    {
        self.scheduler
    }

    /// Whether ticks produce diagnostic records.
    pub fn diagnostics_enabled(&self) -> (r: bool)
        ensures
            r == self.diag_enabled_spec(),
    {
        self.diagnostics_enabled
    }
}

} // verus!
