//! The population controller: a fixed swarm of particles, an adaptive
//! inertia weight, and the best solution seen by any particle.

use vstd::prelude::*;
use vstd::arithmetic::div_mod::lemma_div_is_ordered;
use vstd::arithmetic::div_mod::lemma_div_is_ordered_by_denominator;
use vstd::arithmetic::div_mod::lemma_div_multiples_vanish;
use vstd::arithmetic::div_mod::lemma_div_pos_is_pos;
use crate::fixed::FX_SCALE;
use crate::fixed::fx_div;
use crate::fixed::fx_mul;
use crate::fixed::fx_mul_spec;
use crate::fixed::lemma_fx_mul_spec_bound;
use crate::ids::IdGenerator;
use crate::pso::particle::Particle;
use crate::pso::particle::MAPPING_THRESHOLD_RAW;
use crate::pso::particle::W_CAP_RAW;
use crate::simulation::data_center::DataCenter;
use crate::simulation::data_center::lemma_objective_positive;
use crate::simulation::workload::Workload;
use crate::utils::matrix::Matrix;

verus! {

/// Number of sequential iterations of one run.
pub const MAX_ITERATIONS: u32 = 200;

/// Number of particles in the swarm.
pub const N_PARTICLES: u32 = 20;

/// The inertia formula's first constant, 0.9 in fixed point.
pub const W1_RAW: i64 = 9_000_000;

/// The inertia formula's second constant, 0.4 in fixed point.
pub const W2_RAW: i64 = 4_000_000;

/// The success ratio is floored at one success out of `N_PARTICLES`
/// (0.05 in fixed point), so the inertia computation never divides by zero.
pub const P_S_FLOOR_RAW: i64 = 500_000;

/// A configuration the swarm must reject rather than score degenerately.
#[derive(Clone, Copy, PartialEq, Eq, Debug, Structural)]
pub enum ConfigError {
    EmptyWorkload,
    EmptyVirtualMachineFleet,
}

/// The adaptive inertia weight of one iteration, verbatim
/// `(W1-W2)/p_s + ((max_iterations-iteration)/max_iterations) * ((W1-(W1-W2))/p_s)`,
/// in fixed point with one rounding per division and per product.
pub open spec fn inertia_weight_spec(p_s: int, iteration: int) -> int {
    ((W1_RAW - W2_RAW) * FX_SCALE) / p_s + fx_mul_spec(
        ((MAX_ITERATIONS - iteration) * FX_SCALE) / (MAX_ITERATIONS as int),
        ((W1_RAW - (W1_RAW - W2_RAW)) * FX_SCALE) / p_s,
    )
}

/// How many of the first `n` particles strictly improved their personal
/// best between the two states.
pub open spec fn improved_count_upto(pre: Seq<Particle>, post: Seq<Particle>, n: int) -> int
    decreases n,
{
    if n <= 0 {
        0
    } else {
        improved_count_upto(pre, post, n - 1) + if post[n - 1].personal_best_objective > pre[n
            - 1].personal_best_objective {
            1int
        } else {
            0int
        }
    }
}

/// The improved count depends only on the first `n` entries of each state.
proof fn lemma_improved_count_congruence(
    pre: Seq<Particle>,
    a: Seq<Particle>,
    b: Seq<Particle>,
    n: int,
)
    requires
        forall|k: int| 0 <= k < n ==> #[trigger] a[k] == b[k],
    ensures
        improved_count_upto(pre, a, n) == improved_count_upto(pre, b, n),
    decreases n,
{
    if n > 0 {
        lemma_improved_count_congruence(pre, a, b, n - 1);
    }
}

pub struct PSOSwarm {
    pub max_iterations: u32,
    pub n_particles: u32,
    pub p_s: i64,
    pub w: i64,
    pub global_best_objective: i64,
    pub global_best_th: i64,
    pub global_best_tec: i128,
    pub global_best_position: Matrix,
    pub global_best_task_vm_mapping: Vec<(usize, usize)>,
    pub particles: Vec<Particle>,
    pub workload: Workload,
    pub data_center: DataCenter,
}

impl PSOSwarm {
    pub open spec fn n_tasks(self) -> int {
        self.workload.tasks@.len() as int
    }

    pub open spec fn n_vms(self) -> int {
        self.data_center.fleet_len()
    }

    pub open spec fn wf(self) -> bool {
        &&& self.workload.wf()
        &&& self.n_tasks() >= 1
        &&& self.data_center.wf()
        &&& self.n_vms() >= 1
        &&& self.max_iterations == MAX_ITERATIONS
        &&& self.n_particles == N_PARTICLES
        &&& self.particles@.len() == N_PARTICLES
        &&& forall|i: int|
            0 <= i < self.particles@.len() ==> (#[trigger] self.particles@[i]).wf()
                && self.particles@[i].position.nrows() == self.n_tasks()
                && self.particles@[i].position.ncols() == self.n_vms()
        &&& self.global_best_position.wf()
        &&& self.global_best_position.nrows() == self.n_tasks()
        &&& self.global_best_position.ncols() == self.n_vms()
        &&& self.global_best_position.all_rows_one_hot()
        &&& P_S_FLOOR_RAW <= self.p_s <= FX_SCALE
        &&& 0 <= self.w <= W_CAP_RAW
        &&& self.global_best_objective >= 0
    }

    /// The global best state equals particle `i`'s personal best.
    pub open spec fn global_best_matches(self, i: int) -> bool {
        &&& self.global_best_objective == self.particles@[i].personal_best_objective
        &&& self.global_best_th == self.particles@[i].personal_best_throughput
        &&& self.global_best_tec == self.particles@[i].personal_best_energy
        &&& forall|r: int, c: int|
            0 <= r < self.n_tasks() && 0 <= c < self.n_vms()
                ==> #[trigger] self.global_best_position.at(r, c)
                == self.particles@[i].personal_best_position.at(r, c)
    }

    /// Builds the swarm against one shared workload and evaluation context;
    /// an empty workload or an empty fleet is rejected with a descriptive
    /// error instead of producing degenerate objectives. All particles are
    /// constructed against the same mutable context, each construction
    /// resetting the ledger the previous one filled; the global best is
    /// seeded from particle 0 and then searched once.
    pub fn new(workload: Workload, data_center: DataCenter) -> (r: Result<PSOSwarm, ConfigError>)
        requires
            workload.wf(),
            data_center.wf(),
        ensures
            r is Ok <==> workload.tasks@.len() >= 1 && data_center.fleet_len() >= 1,
            workload.tasks@.len() == 0 ==> r == Result::<PSOSwarm, ConfigError>::Err(
                ConfigError::EmptyWorkload,
            ),
            workload.tasks@.len() >= 1 && data_center.fleet_len() == 0 ==> r == Result::<
                PSOSwarm,
                ConfigError,
            >::Err(ConfigError::EmptyVirtualMachineFleet),
            r is Ok ==> (r->Ok_0).wf() && (r->Ok_0).workload.tasks@ == workload.tasks@ && (
            r->Ok_0).data_center.virtual_machines@ == data_center.virtual_machines@ && (forall|
                i: int,
            |
                0 <= i < (r->Ok_0).particles@.len() ==> (r->Ok_0).global_best_objective >= (
                #[trigger] (r->Ok_0).particles@[i]).personal_best_objective) && (forall|i: int|
                0 <= i < (r->Ok_0).particles@.len() ==> (#[trigger] (
                r->Ok_0).particles@[i]).objective_history@.len() == 0),
            r is Ok ==> (r->Ok_0).p_s == FX_SCALE && (r->Ok_0).w == 0,
            r is Ok ==> (r->Ok_0).global_best_objective > 0,
            r is Ok ==> exists|i: int|
                0 <= i < (r->Ok_0).particles@.len() && (r->Ok_0).global_best_objective == (
                #[trigger] (r->Ok_0).particles@[i]).personal_best_objective,
    {
        if workload.tasks.len() == 0 {
            return Err(ConfigError::EmptyWorkload);
        }
        if data_center.virtual_machines.len() == 0 {
            return Err(ConfigError::EmptyVirtualMachineFleet);
        }
        let ghost dc0 = data_center;
        let ghost n = workload.tasks@.len() as int;
        let ghost m = data_center.fleet_len();
        let mut data_center = data_center;
        let mut pgen = IdGenerator::new();
        let mut particles: Vec<Particle> = Vec::new();
        let mut i: u32 = 0;
        while i < N_PARTICLES
            invariant
                workload.wf(),
                workload.tasks@.len() == n,
                n >= 1,
                data_center.wf(),
                data_center.virtual_machines@ == dc0.virtual_machines@,
                data_center.fleet_len() == m,
                m >= 1,
                i <= N_PARTICLES,
                pgen.next_id == i,
                particles@.len() == i,
                forall|k: int|
                    0 <= k < i ==> (#[trigger] particles@[k]).wf() && particles@[k].position.nrows()
                        == n && particles@[k].position.ncols() == m
                        && particles@[k].objective_history@.len() == 0
                        && particles@[k].personal_best_objective > 0,
            decreases N_PARTICLES - i,
        {
            let p = Particle::new(&mut pgen, &workload, &mut data_center);
            proof {
                lemma_objective_positive(data_center);
            }
            particles.push(p);
            i = i + 1;
        }
        let first = &particles[0];
        let global_best_position = first.position.duplicate();
        proof {
            assert forall|r: int|
                0 <= r < n implies #[trigger] global_best_position.one_hot_row(r) by {
                assert(particles@[0].position.one_hot_row(r));
                let jr = choose|jr: int| particles@[0].position.is_one_hot_row_at(r, jr);
                assert(global_best_position.is_one_hot_row_at(r, jr));
            }
        }
        let mut swarm = PSOSwarm {
            max_iterations: MAX_ITERATIONS,
            n_particles: N_PARTICLES,
            p_s: FX_SCALE,
            w: 0,
            global_best_objective: 0,
            global_best_th: 0,
            global_best_tec: 0,
            global_best_position,
            global_best_task_vm_mapping: Vec::new(),
            particles,
            workload,
            data_center,
        };
        swarm.find_global_best();
        proof {
            assert(swarm.global_best_objective >= swarm.particles@[0].personal_best_objective);
            assert(swarm.global_best_objective > 0);
        }
        Ok(swarm)
    }

    /// Adopts the personal best of any particle whose objective strictly
    /// exceeds the current global best; ties keep the earlier-found best.
    /// The global best objective never decreases.
    pub fn find_global_best(&mut self)
        requires
            old(self).wf(),
        ensures
            final(self).wf(),
            final(self).global_best_objective >= old(self).global_best_objective,
            forall|i: int|
                0 <= i < final(self).particles@.len() ==> final(self).global_best_objective >= (
                #[trigger] final(self).particles@[i]).personal_best_objective,
            final(self).global_best_objective > old(self).global_best_objective ==> exists|i: int|
                0 <= i < final(self).particles@.len() && final(self).global_best_matches(i),
            final(self).global_best_objective == old(self).global_best_objective ==> final(self).global_best_position == old(self).global_best_position && final(self).global_best_th
                == old(self).global_best_th && final(self).global_best_tec == old(self).global_best_tec,
            final(self).particles@ == old(self).particles@,
            final(self).workload == old(self).workload,
            final(self).data_center == old(self).data_center,
            final(self).p_s == old(self).p_s,
            final(self).w == old(self).w,
            final(self).global_best_task_vm_mapping@ == old(self).global_best_task_vm_mapping@,
    {
        let count = self.particles.len();
        let mut i: usize = 0;
        while i < count
            invariant
                old(self).wf(),
                self.workload == old(self).workload,
                self.data_center == old(self).data_center,
                self.particles@ == old(self).particles@,
                self.p_s == old(self).p_s,
                self.w == old(self).w,
                self.max_iterations == old(self).max_iterations,
                self.n_particles == old(self).n_particles,
                self.global_best_task_vm_mapping@ == old(self).global_best_task_vm_mapping@,
                self.particles@.len() == count,
                i <= count,
                self.global_best_objective >= old(self).global_best_objective,
                self.global_best_objective >= 0,
                self.global_best_position.wf(),
                self.global_best_position.nrows() == self.n_tasks(),
                self.global_best_position.ncols() == self.n_vms(),
                self.global_best_position.all_rows_one_hot(),
                forall|k: int|
                    0 <= k < i ==> self.global_best_objective >= (
                    #[trigger] self.particles@[k]).personal_best_objective,
                self.global_best_objective > old(self).global_best_objective ==> exists|k: int|
                    0 <= k < count && self.global_best_matches(k),
                self.global_best_objective == old(self).global_best_objective ==> (
                self.global_best_position == old(self).global_best_position && self.global_best_th
                    == old(self).global_best_th && self.global_best_tec == old(self).global_best_tec),
            decreases count - i,
        {
            let candidate = self.particles[i].personal_best_objective;
            if candidate > self.global_best_objective {
                self.global_best_objective = candidate;
                self.global_best_th = self.particles[i].personal_best_throughput;
                self.global_best_tec = self.particles[i].personal_best_energy;
                let copy = self.particles[i].personal_best_position.duplicate();
                proof {
                    assert forall|r: int|
                        0 <= r < copy.nrows() implies #[trigger] copy.one_hot_row(r) by {
                        assert(self.particles@[i as int].wf());
                        assert(self.particles@[i as int].personal_best_position.one_hot_row(r));
                        let jr = choose|jr: int|
                            self.particles@[i as int].personal_best_position.is_one_hot_row_at(
                                r,
                                jr,
                            );
                        assert(copy.is_one_hot_row_at(r, jr));
                    }
                }
                self.global_best_position = copy;
                proof {
                    assert(self.global_best_matches(i as int));
                }
            }
            i = i + 1;
        }
    }

    /// One swarm iteration: recompute the inertia weight from the success
    /// ratio, run every particle sequentially against the shared context,
    /// refresh the global best, and update the success ratio (floored so the
    /// next inertia computation stays defined).
    fn run_iteration(&mut self, iteration: u32)
        requires
            old(self).wf(),
            iteration < MAX_ITERATIONS,
        ensures
            final(self).wf(),
            final(self).global_best_objective >= old(self).global_best_objective,
            final(self).workload == old(self).workload,
            final(self).data_center.virtual_machines@ == old(self).data_center.virtual_machines@,
            final(self).particles@.len() == old(self).particles@.len(),
            forall|k: int|
                0 <= k < final(self).particles@.len() ==> (#[trigger] final(self).particles@[k]).objective_history@.len() == old(self).particles@[k].objective_history@.len() + 1,
            forall|k: int|
                0 <= k < final(self).particles@.len() ==> final(self).global_best_objective >= (
                #[trigger] final(self).particles@[k]).personal_best_objective,
            final(self).global_best_task_vm_mapping@ == old(self).global_best_task_vm_mapping@,
            final(self).w == inertia_weight_spec(old(self).p_s as int, iteration as int),
            improved_count_upto(old(self).particles@, final(self).particles@, N_PARTICLES as int)
                == 0 ==> final(self).p_s == FX_SCALE,
            improved_count_upto(old(self).particles@, final(self).particles@, N_PARTICLES as int)
                >= 1 ==> final(self).p_s == (improved_count_upto(
                old(self).particles@,
                final(self).particles@,
                N_PARTICLES as int,
            ) * FX_SCALE) / (N_PARTICLES as int),
    {
        let dw = W1_RAW - W2_RAW;
        let term1 = fx_div(dw, self.p_s);
        let base = fx_div(W1_RAW - dw, self.p_s);
        proof {
            lemma_div_is_ordered_by_denominator(
                dw as int * FX_SCALE,
                P_S_FLOOR_RAW as int,
                self.p_s as int,
            );
            lemma_div_is_ordered_by_denominator(
                (W1_RAW - dw) as int * FX_SCALE,
                P_S_FLOOR_RAW as int,
                self.p_s as int,
            );
        }
        let frac: i64 = (((self.max_iterations - iteration) as u64 * (FX_SCALE as u64)) / (
        self.max_iterations as u64)) as i64;
        proof {
            lemma_div_is_ordered(
                (self.max_iterations - iteration) as int * FX_SCALE,
                MAX_ITERATIONS as int * FX_SCALE,
                MAX_ITERATIONS as int,
            );
            lemma_div_multiples_vanish(FX_SCALE as int, MAX_ITERATIONS as int);
            lemma_div_pos_is_pos(
                (self.max_iterations - iteration) as int * FX_SCALE,
                MAX_ITERATIONS as int,
            );
            assert(MAX_ITERATIONS as int * FX_SCALE == FX_SCALE as int * MAX_ITERATIONS);
        }
        let term2 = fx_mul(frac, base);
        proof {
            lemma_fx_mul_spec_bound(frac as int, base as int, 1, 8);
            assert(0 <= frac as int * base as int) by (nonlinear_arith)
                requires
                    0 <= frac,
                    0 <= base,
            ;
            assert(fx_mul_spec(frac as int, base as int) == (frac as int * base as int) / (
            FX_SCALE as int));
            lemma_div_pos_is_pos(frac as int * base as int, FX_SCALE as int);
        }
        self.w = term1 + term2;
        let w = self.w;
        let count = self.particles.len();
        let mut ss: u32 = 0;
        let mut i: usize = 0;
        while i < count
            invariant
                old(self).wf(),
                self.workload == old(self).workload,
                self.workload.wf(),
                self.n_tasks() >= 1,
                self.data_center.wf(),
                self.data_center.virtual_machines@ == old(self).data_center.virtual_machines@,
                self.data_center.fleet_len() == old(self).n_vms(),
                self.n_vms() >= 1,
                self.max_iterations == MAX_ITERATIONS,
                self.n_particles == N_PARTICLES,
                self.particles@.len() == count,
                count == N_PARTICLES,
                self.global_best_position == old(self).global_best_position,
                self.global_best_position.wf(),
                self.global_best_position.nrows() == self.n_tasks(),
                self.global_best_position.ncols() == self.n_vms(),
                self.global_best_position.all_rows_one_hot(),
                self.global_best_objective == old(self).global_best_objective,
                self.global_best_objective >= 0,
                self.global_best_th == old(self).global_best_th,
                self.global_best_tec == old(self).global_best_tec,
                self.global_best_task_vm_mapping@ == old(self).global_best_task_vm_mapping@,
                P_S_FLOOR_RAW <= self.p_s <= FX_SCALE,
                self.p_s == old(self).p_s,
                0 <= w <= W_CAP_RAW,
                self.w == w,
                self.w == inertia_weight_spec(old(self).p_s as int, iteration as int),
                i <= count,
                ss <= i,
                ss == improved_count_upto(
                    old(self).particles@,
                    self.particles@.subrange(count - i as int, count as int),
                    i as int,
                ),
                forall|k: int|
                    0 <= k < count - i ==> #[trigger] self.particles@[k] == old(self).particles@[i + k],
                forall|k: int|
                    count - i <= k < count ==> (#[trigger] self.particles@[k]).wf()
                        && self.particles@[k].position.nrows() == self.n_tasks()
                        && self.particles@[k].position.ncols() == self.n_vms()
                        && self.particles@[k].objective_history@.len() == old(self).particles@[k - (count - i)].objective_history@.len() + 1,
            decreases count - i,
        {
            let ghost entry = self.particles@;
            let mut p = self.particles.remove(0);
            proof {
                assert(p == old(self).particles@[i as int]);
                assert(old(self).particles@[i as int].wf());
            }
            let improved = p.run_iteration(
                &self.workload,
                &mut self.data_center,
                w,
                &self.global_best_position,
            );
            self.particles.push(p);
            if improved {
                ss = ss + 1;
            }
            proof {
                assert forall|k: int|
                    0 <= k < count - (i + 1) implies #[trigger] self.particles@[k] == old(self).particles@[i + 1 + k] by {
                    assert(self.particles@[k] == entry[k + 1]);
                }
                assert forall|k: int|
                    count - (i + 1) <= k < count implies (#[trigger] self.particles@[k]).wf()
                    && self.particles@[k].position.nrows() == self.n_tasks()
                    && self.particles@[k].position.ncols() == self.n_vms()
                    && self.particles@[k].objective_history@.len() == old(self).particles@[k - (count - (i + 1))].objective_history@.len() + 1 by {
                    if k < count - 1 {
                        assert(self.particles@[k] == entry[k + 1]);
                        assert(entry[k + 1].wf());
                    } else {
                        assert(self.particles@[k] == p);
                    }
                }
                let pre_seq = old(self).particles@;
                let blk_prev = entry.subrange(count - i as int, count as int);
                let blk_next = self.particles@.subrange(count - (i + 1) as int, count as int);
                assert forall|k: int| 0 <= k < i implies #[trigger] blk_next[k] == blk_prev[k] by {
                    assert(blk_next[k] == self.particles@[count - (i + 1) + k]);
                    assert(self.particles@[count - (i + 1) + k] == entry[count - i + k]);
                }
                lemma_improved_count_congruence(pre_seq, blk_next, blk_prev, i as int);
                assert(blk_next[i as int] == p);
                assert(old(self).particles@[i as int].wf());
                assert(p.personal_best_objective > pre_seq[i as int].personal_best_objective
                    <==> improved);
                assert(improved_count_upto(pre_seq, blk_next, i + 1) == improved_count_upto(
                    pre_seq,
                    blk_prev,
                    i as int,
                ) + (if improved {
                    1int
                } else {
                    0int
                }));
            }
            i = i + 1;
        }
        proof {
            assert(self.particles@.subrange(0, count as int) =~= self.particles@);
        }
        let ghost post_loop_particles = self.particles@;
        self.find_global_best();
        proof {
            assert(self.particles@ == post_loop_particles);
        }
        let ps: i64 = if ss == 0 {
            FX_SCALE
        } else {
            proof {
                lemma_div_is_ordered(
                    ss as int * FX_SCALE,
                    N_PARTICLES as int * FX_SCALE,
                    N_PARTICLES as int,
                );
                lemma_div_is_ordered(
                    1 * FX_SCALE as int,
                    ss as int * FX_SCALE,
                    N_PARTICLES as int,
                );
                lemma_div_multiples_vanish(FX_SCALE as int, N_PARTICLES as int);
                assert(N_PARTICLES as int * FX_SCALE == FX_SCALE as int * N_PARTICLES);
            }
            ((ss as u64 * (FX_SCALE as u64)) / (N_PARTICLES as u64)) as i64
        };
        self.p_s = ps;
    }

    /// Runs the fixed iteration budget, then materializes the final sparse
    /// task-to-machine mapping of the global best position.
    pub fn run_pso_algorithm(&mut self)
        requires
            old(self).wf(),
        ensures
            final(self).wf(),
            final(self).global_best_objective >= old(self).global_best_objective,
            final(self).workload == old(self).workload,
            final(self).data_center.virtual_machines@ == old(self).data_center.virtual_machines@,
            forall|k: int|
                0 <= k < final(self).particles@.len() ==> (#[trigger] final(self).particles@[k]).objective_history@.len() == old(self).particles@[k].objective_history@.len() + MAX_ITERATIONS,
            forall|k: int|
                0 <= k < final(self).particles@.len() ==> final(self).global_best_objective >= (
                #[trigger] final(self).particles@[k]).personal_best_objective,
            forall|p: (usize, usize)|
                #[trigger] final(self).global_best_task_vm_mapping@.contains(p) <==> p.0 < final(self).n_tasks() && p.1 < final(self).n_vms() && final(self).global_best_position.at(
                    p.0 as int,
                    p.1 as int,
                ) > MAPPING_THRESHOLD_RAW,
    {
        let mut iteration: u32 = 0;
        while iteration < self.max_iterations
            invariant
                self.wf(),
                self.max_iterations == MAX_ITERATIONS,
                iteration <= MAX_ITERATIONS,
                self.global_best_objective >= old(self).global_best_objective,
                self.workload == old(self).workload,
                self.data_center.virtual_machines@ == old(self).data_center.virtual_machines@,
                self.particles@.len() == old(self).particles@.len(),
                forall|k: int|
                    0 <= k < self.particles@.len() ==> (#[trigger] self.particles@[k]).objective_history@.len()
                        == old(self).particles@[k].objective_history@.len() + iteration,
                iteration > 0 ==> forall|k: int|
                    0 <= k < self.particles@.len() ==> self.global_best_objective >= (
                    #[trigger] self.particles@[k]).personal_best_objective,
            decreases MAX_ITERATIONS - iteration,
        {
            self.run_iteration(iteration);
            iteration = iteration + 1;
        }
        self.update_task_vm_mapping();
    }

    /// Materializes the sparse global mapping: exactly the cells of the
    /// global best position strictly above the 0.9 threshold.
    pub fn update_task_vm_mapping(&mut self)
        requires
            old(self).wf(),
        ensures
            final(self).wf(),
            final(self).global_best_position == old(self).global_best_position,
            final(self).global_best_objective == old(self).global_best_objective,
            final(self).particles@ == old(self).particles@,
            final(self).workload == old(self).workload,
            final(self).data_center == old(self).data_center,
            forall|p: (usize, usize)|
                #[trigger] final(self).global_best_task_vm_mapping@.contains(p) <==> p.0 < old(self).n_tasks() && p.1 < old(self).n_vms() && old(self).global_best_position.at(
                    p.0 as int,
                    p.1 as int,
                ) > MAPPING_THRESHOLD_RAW,
            forall|k1: int, k2: int|
                0 <= k1 < k2 < final(self).global_best_task_vm_mapping@.len() ==> #[trigger] final(self).global_best_task_vm_mapping@[k1] != #[trigger] final(self).global_best_task_vm_mapping@[k2],
    {
        self.global_best_task_vm_mapping = self.global_best_position.cells_above(
            MAPPING_THRESHOLD_RAW,
        );
    }

    /// The per-particle best-so-far trajectories as a fixed
    /// `N_PARTICLES x MAX_ITERATIONS` grid, padded with zeros where a
    /// history is shorter.
    pub fn get_particle_objective_history(&self) -> (r: Vec<Vec<i64>>)
        requires
            self.wf(),
        ensures
            r@.len() == self.particles@.len(),
            forall|i: int| 0 <= i < r@.len() ==> (#[trigger] r@[i])@.len() == MAX_ITERATIONS,
            forall|i: int, j: int|
                0 <= i < r@.len() && 0 <= j < MAX_ITERATIONS ==> #[trigger] r@[i]@[j] == (if j
                    < self.particles@[i].objective_history@.len() {
                    self.particles@[i].objective_history@[j]
                } else {
                    0
                }),
    {
        let count = self.particles.len();
        let mut grid: Vec<Vec<i64>> = Vec::new();
        let mut i: usize = 0;
        while i < count
            invariant
                self.wf(),
                self.particles@.len() == count,
                i <= count,
                grid@.len() == i,
                forall|k: int| 0 <= k < i ==> (#[trigger] grid@[k])@.len() == MAX_ITERATIONS,
                forall|k: int, j: int|
                    0 <= k < i && 0 <= j < MAX_ITERATIONS ==> #[trigger] grid@[k]@[j] == (if j
                        < self.particles@[k].objective_history@.len() {
                        self.particles@[k].objective_history@[j]
                    } else {
                        0
                    }),
            decreases count - i,
        {
            let history = &self.particles[i].objective_history;
            let hlen = history.len();
            let mut row: Vec<i64> = Vec::new();
            let mut j: usize = 0;
            while j < MAX_ITERATIONS as usize
                invariant
                    self.wf(),
                    self.particles@.len() == count,
                    i < count,
                    history@ == self.particles@[i as int].objective_history@,
                    hlen == history@.len(),
                    j <= MAX_ITERATIONS,
                    row@.len() == j,
                    forall|c: int|
                        0 <= c < j ==> #[trigger] row@[c] == (if c < history@.len() {
                            history@[c]
                        } else {
                            0
                        }),
                decreases MAX_ITERATIONS - j,
            {
                if j < hlen {
                    let v = history[j];
                    row.push(v);
                } else {
                    row.push(0i64);
                }
                j = j + 1;
            }
            grid.push(row);
            i = i + 1;
        }
        grid
    }
}

} // verus!
