//! A candidate solution: a one-hot assignment matrix, a continuous velocity
//! matrix, and the best objective this particle has achieved.

use vstd::prelude::*;
use crate::fixed::FX_SCALE;
use crate::fixed::FX_CAP;
use crate::fixed::fx_mul;
use crate::fixed::fx_mul_spec;
use crate::fixed::lemma_fx_mul_spec_bound;
use crate::ids::IdGenerator;
use crate::simulation::data_center::DataCenter;
use crate::simulation::task::Task;
use crate::simulation::workload::Workload;
use crate::simulation::workload::MAX_WORKLOAD_TASKS;
use crate::simulation::workload::task_mi_of;
use crate::simulation::workload::tasks_sum;
use crate::simulation::workload::tasks_sum_upto;
use crate::simulation::workload::tasks_total_mi;
use crate::simulation::workload::lemma_tasks_sum_fn_congruence;
use crate::simulation::workload::lemma_tasks_sum_permutation;
use crate::utils::matrix::Matrix;
use crate::utils::matrix::first_max_col;
use crate::utils::matrix::lemma_one_hot_cells_bounded;
use crate::utils::matrix::lemma_one_hot_row_sums_to_one;
use crate::utils::matrix::row_sum;
use crate::utils::utilities::get_random_float;
use crate::utils::utilities::get_random_integer;

verus! {

/// The cognitive acceleration coefficient, 2.0 in fixed point.
pub const C1_RAW: i64 = 20_000_000;

/// The social acceleration coefficient, 1.49455 in fixed point.
pub const C2_RAW: i64 = 14_945_500;

/// The velocity bound, 10.0 in fixed point: any cell leaving `[-10, 10]` is
/// replaced by a fresh uniform sample from `[0, 10)`.
pub const MAX_ABS_VELOCITY_RAW: i64 = 100_000_000;

/// The sparse-mapping threshold, 0.9 in fixed point: only cells strictly
/// above it count as an assignment.
pub const MAPPING_THRESHOLD_RAW: i64 = 9_000_000;

/// Largest inertia weight the update rules accept, 20.0 in fixed point.
pub const W_CAP_RAW: i64 = 200_000_000;

/// The chance of assigning a task to a random machine during construction:
/// 0.25 in fixed point.
pub const RANDOM_ASSIGNMENT_CHANCE_RAW: i64 = 2_500_000;

pub struct Particle {
    pub id: usize,
    pub position: Matrix,
    pub velocity: Matrix,
    pub task_vm_mapping: Vec<(usize, usize)>,
    pub personal_best_position: Matrix,
    pub personal_best_objective: i64,
    pub personal_best_throughput: i64,
    pub personal_best_energy: i128,
    pub objective_history: Vec<i64>,
}

/// Some id among the first `k` of `s` equals `r`.
pub open spec fn id_in_prefix(s: Seq<Task>, k: int, r: int) -> bool {
    exists|k2: int| 0 <= k2 < k && (#[trigger] s[k2]).id == r
}

/// Millions of instructions that task rows `0..n` send to machine `v` when
/// every task goes to the first maximum column of its velocity row.
pub open spec fn replay_mi_upto(tasks: Seq<Task>, vel: Matrix, v: int, n: int) -> int
    decreases n,
{
    if n <= 0 {
        0
    } else {
        replay_mi_upto(tasks, vel, v, n - 1) + if first_max_col(vel, n - 1) == v {
            tasks[n - 1].millions_of_instructions as int
        } else {
            0
        }
    }
}

/// A task's contribution to machine `v` under the one-hot position `pos`:
/// its instructions where its row is hot at column `v`, else nothing.
pub open spec fn machine_load_of(pos: Matrix, v: int) -> spec_fn(Task) -> int {
    |t: Task|
        if pos.at(t.id as int, v) == FX_SCALE {
            t.millions_of_instructions as int
        } else {
            0int
        }
}

/// Millions of instructions the one-hot position `pos` sends to machine `v`.
pub open spec fn position_load(tasks: Seq<Task>, pos: Matrix, v: int) -> int {
    tasks_sum(tasks, machine_load_of(pos, v))
}

/// Cell `(i, j)` of `post_vel` is the blend of `pre`'s state with the two
/// folded random scalars wherever that blend lies within the velocity
/// bound, and otherwise a fresh sample from `[0, bound)`.
pub open spec fn velocity_cell_updated(
    pre: Particle,
    post_vel: Matrix,
    gbp: Matrix,
    w: int,
    c1r1: int,
    c2r2: int,
    i: int,
    j: int,
) -> bool {
    let b = velocity_blend_spec(
        pre.velocity.at(i, j),
        w,
        pre.personal_best_position.at(i, j),
        pre.position.at(i, j),
        gbp.at(i, j),
        c1r1,
        c2r2,
    );
    if -MAX_ABS_VELOCITY_RAW <= b <= MAX_ABS_VELOCITY_RAW {
        post_vel.at(i, j) == b
    } else {
        0 <= post_vel.at(i, j) < MAX_ABS_VELOCITY_RAW
    }
}

/// Every cell of `post_vel` was produced from `pre` by one velocity step
/// with the same pair of folded random scalars.
pub open spec fn velocity_updated_with(
    pre: Particle,
    post_vel: Matrix,
    gbp: Matrix,
    w: int,
    c1r1: int,
    c2r2: int,
) -> bool {
    forall|i: int, j: int|
        0 <= i < pre.velocity.nrows() && 0 <= j < pre.velocity.ncols()
            ==> #[trigger] velocity_cell_updated(pre, post_vel, gbp, w, c1r1, c2r2, i, j)
}

impl Particle {
    /// The three matrices share one tasks-by-machines shape.
    pub open spec fn shape_ok(self) -> bool {
        &&& self.position.wf()
        &&& self.velocity.wf()
        &&& self.personal_best_position.wf()
        &&& self.velocity.nrows() == self.position.nrows()
        &&& self.velocity.ncols() == self.position.ncols()
        &&& self.personal_best_position.nrows() == self.position.nrows()
        &&& self.personal_best_position.ncols() == self.position.ncols()
    }

    /// Every position row is one-hot, velocities are within the bound, and
    /// the personal best is a valid position with a non-negative objective.
    pub open spec fn wf(self) -> bool {
        &&& self.shape_ok()
        &&& self.position.all_rows_one_hot()
        &&& self.personal_best_position.all_rows_one_hot()
        &&& self.velocity.cells_bounded_by(MAX_ABS_VELOCITY_RAW as int)
        &&& self.personal_best_objective >= 0
    }

    /// Builds a particle against the shared evaluation context: tasks are
    /// taken largest-first; each is assigned either to a uniformly random
    /// machine (with chance 0.25) or to the one finishing it earliest, and
    /// recorded at once so later tasks see the updated load.
    pub fn new(gen: &mut IdGenerator, workload: &Workload, data_center: &mut DataCenter) -> (p:
        Particle)
        requires
            old(gen).next_id < usize::MAX,
            workload.wf(),
            workload.tasks@.len() >= 1,
            old(data_center).wf(),
            old(data_center).fleet_len() >= 1,
        ensures
            final(gen).next_id == old(gen).next_id + 1,
            p.id == old(gen).next_id,
            p.wf(),
            p.position.nrows() == workload.tasks@.len(),
            p.position.ncols() == old(data_center).fleet_len(),
            final(data_center).wf(),
            final(data_center).id == old(data_center).id,
            final(data_center).virtual_machines@ == old(data_center).virtual_machines@,
            final(data_center).task_count == workload.tasks@.len(),
            final(data_center).total_millions_of_instructions == tasks_total_mi(workload.tasks@),
            forall|v: int|
                0 <= v < old(data_center).fleet_len() ==> final(data_center).assigned(v)
                    == position_load(workload.tasks@, p.position, v),
            p.personal_best_objective == final(data_center).objective_spec(),
            p.personal_best_throughput == final(data_center).throughput_fx_spec(),
            p.personal_best_energy == final(data_center).energy_kwh_fx_spec(),
            p.objective_history@.len() == 0,
            forall|i: int, j: int|
                0 <= i < p.position.nrows() && 0 <= j < p.position.ncols()
                    ==> 0 <= #[trigger] p.velocity.at(i, j) < FX_SCALE,
            forall|i: int, j: int|
                0 <= i < p.position.nrows() && 0 <= j < p.position.ncols()
                    ==> #[trigger] p.personal_best_position.at(i, j) == p.position.at(i, j),
    {
        let n = workload.tasks.len();
        let m = data_center.virtual_machines.len();
        data_center.reset_virtual_machine_ready_time();
        let sorted = workload.get_sorted_tasks();
        proof {
            lemma_sorted_tasks_facts(workload.tasks@, sorted@);
        }
        let mut position = Matrix::zeros(n, m);
        let mut k: usize = 0;
        while k < n
            invariant
                workload.wf(),
                workload.tasks@.len() == n,
                1 <= n <= MAX_WORKLOAD_TASKS,
                sorted@.len() == n,
                forall|k2: int|
                    0 <= k2 < n ==> 0 <= (#[trigger] sorted@[k2]).id < n && sorted@[k2].wf(),
                forall|k1: int, k2: int|
                    0 <= k1 < n && 0 <= k2 < n && k1 != k2 ==> (#[trigger] sorted@[k1]).id != (
                    #[trigger] sorted@[k2]).id,
                k <= n,
                data_center.wf(),
                data_center.id == old(data_center).id,
                data_center.virtual_machines@ == old(data_center).virtual_machines@,
                data_center.fleet_len() == m,
                m >= 1,
                data_center.task_count == k,
                data_center.total_millions_of_instructions == tasks_sum_upto(
                    sorted@,
                    task_mi_of(),
                    k as int,
                ),
                forall|v: int|
                    0 <= v < m ==> data_center.assigned(v) == tasks_sum_upto(
                        sorted@,
                        machine_load_of(position, v),
                        k as int,
                    ),
                position.wf(),
                position.nrows() == n,
                position.ncols() == m,
                forall|r: int|
                    0 <= r < n && id_in_prefix(sorted@, k as int, r) ==> #[trigger
                ] position.one_hot_row(r),
                forall|r: int, c: int|
                    0 <= r < n && 0 <= c < m && !id_in_prefix(sorted@, k as int, r)
                        ==> #[trigger] position.at(r, c) == 0,
            decreases n - k,
        {
            let t = sorted[k];
            proof {
                assert(sorted@[k as int].id == t.id);
                assert(!id_in_prefix(sorted@, k as int, t.id as int));
            }
            let coin = get_random_float(0, FX_SCALE);
            let vm_id: usize = if coin < RANDOM_ASSIGNMENT_CHANCE_RAW {
                get_random_integer(0, m)
            } else {
                data_center.get_min_eet_virtual_machine(&t)
            };
            let ghost pos_pre = position;
            position.set(t.id, vm_id, FX_SCALE);
            data_center.add_execution_time_to_virtual_machine(&t, vm_id);
            proof {
                assert(task_mi_of()(sorted@[k as int]) == t.millions_of_instructions);
                assert forall|v: int|
                    0 <= v < m implies data_center.assigned(v) == tasks_sum_upto(
                    sorted@,
                    machine_load_of(position, v),
                    k + 1,
                ) by {
                    let fcur = machine_load_of(position, v);
                    let fpre = machine_load_of(pos_pre, v);
                    assert forall|j: int| 0 <= j < k implies fcur(#[trigger] sorted@[j]) == fpre(
                        sorted@[j],
                    ) by {
                        assert(sorted@[j].id != t.id);
                        assert(position.at(sorted@[j].id as int, v) == pos_pre.at(
                            sorted@[j].id as int,
                            v,
                        ));
                    }
                    lemma_tasks_sum_fn_congruence(sorted@, fcur, fpre, k as int);
                    if v == vm_id {
                        assert(position.at(t.id as int, v) == FX_SCALE);
                        assert(fcur(sorted@[k as int]) == t.millions_of_instructions);
                    } else {
                        assert(position.at(t.id as int, v) == pos_pre.at(t.id as int, v));
                        assert(!id_in_prefix(sorted@, k as int, t.id as int));
                        assert(pos_pre.at(t.id as int, v) == 0);
                        assert(fcur(sorted@[k as int]) == 0);
                    }
                }
                assert(position.is_one_hot_row_at(t.id as int, vm_id as int));
                assert forall|r: int|
                    0 <= r < n && id_in_prefix(sorted@, k + 1, r) implies #[trigger
                ] position.one_hot_row(r) by {
                    if r == t.id {
                        assert(position.is_one_hot_row_at(r, vm_id as int));
                    } else {
                        let k2 = choose|k2: int|
                            0 <= k2 < k + 1 && (#[trigger] sorted@[k2]).id == r;
                        assert(k2 < k);
                        assert(id_in_prefix(sorted@, k as int, r));
                        assert(pos_pre.one_hot_row(r));
                        let jr = choose|jr: int| pos_pre.is_one_hot_row_at(r, jr);
                        assert(position.is_one_hot_row_at(r, jr));
                    }
                }
                assert forall|r: int, c: int|
                    0 <= r < n && 0 <= c < m && !id_in_prefix(sorted@, k + 1, r) implies #[trigger
                ] position.at(r, c) == 0 by {
                    assert(!id_in_prefix(sorted@, k as int, r));
                    assert(r != t.id) by {
                        if r == t.id {
                            assert(sorted@[k as int].id == r);
                            assert(id_in_prefix(sorted@, k + 1, r));
                        }
                    }
                }
            }
            k = k + 1;
        }
        proof {
            assert forall|r: int| 0 <= r < n implies #[trigger] position.one_hot_row(r) by {
                assert(id_in_prefix(sorted@, n as int, r));
            }
            lemma_tasks_sum_permutation(sorted@, workload.tasks@, task_mi_of());
            assert forall|v: int|
                0 <= v < m implies data_center.assigned(v) == position_load(
                workload.tasks@,
                position,
                v,
            ) by {
                lemma_tasks_sum_permutation(sorted@, workload.tasks@, machine_load_of(position, v));
            }
        }
        let velocity = Matrix::random_velocity_init(n, m, 0, FX_SCALE);
        let personal_best_position = position.duplicate();
        proof {
            assert forall|r: int|
                0 <= r < n implies #[trigger] personal_best_position.one_hot_row(r) by {
                assert(position.one_hot_row(r));
                let jr = choose|jr: int| position.is_one_hot_row_at(r, jr);
                assert(personal_best_position.is_one_hot_row_at(r, jr));
            }
        }
        let personal_best_objective = data_center.compute_objective();
        let personal_best_throughput = data_center.compute_throughput();
        let personal_best_energy = data_center.compute_energy_consumption_kwh();
        Particle {
            id: gen.next(),
            position,
            velocity,
            task_vm_mapping: Vec::new(),
            personal_best_position,
            personal_best_objective,
            personal_best_throughput,
            personal_best_energy,
            objective_history: Vec::new(),
        }
    }

    /// One velocity step: blend the previous velocity (damped by the inertia
    /// weight) with attraction towards the personal and global bests, with
    /// one pair of random scalars per call; then re-randomize any cell whose
    /// magnitude exceeds the velocity bound.
    pub fn update_velocity(&mut self, w: i64, global_best_position: &Matrix)
        requires
            old(self).wf(),
            0 <= w <= W_CAP_RAW,
            global_best_position.wf(),
            global_best_position.nrows() == old(self).position.nrows(),
            global_best_position.ncols() == old(self).position.ncols(),
            global_best_position.all_rows_one_hot(),
        ensures
            final(self).wf(),
            final(self).position == old(self).position,
            final(self).personal_best_position == old(self).personal_best_position,
            final(self).personal_best_objective == old(self).personal_best_objective,
            final(self).personal_best_throughput == old(self).personal_best_throughput,
            final(self).personal_best_energy == old(self).personal_best_energy,
            final(self).objective_history@ == old(self).objective_history@,
            final(self).task_vm_mapping@ == old(self).task_vm_mapping@,
            final(self).id == old(self).id,
            final(self).velocity.nrows() == old(self).velocity.nrows(),
            final(self).velocity.ncols() == old(self).velocity.ncols(),
            final(self).velocity.cells_bounded_by(MAX_ABS_VELOCITY_RAW as int),
            exists|c1r1: int, c2r2: int|
                0 <= c1r1 <= 2 * FX_SCALE && 0 <= c2r2 <= 2 * FX_SCALE && velocity_updated_with(
                    *old(self),
                    final(self).velocity,
                    *global_best_position,
                    w as int,
                    c1r1,
                    c2r2,
                ),
    {
        let rows = self.velocity.n_rows();
        let cols = self.velocity.n_cols();
        let r1 = get_random_float(0, FX_SCALE);
        let r2 = get_random_float(0, FX_SCALE);
        let c1r1 = fx_mul(C1_RAW, r1);
        let c2r2 = fx_mul(C2_RAW, r2);
        proof {
            lemma_fx_mul_spec_bound(C1_RAW as int, r1 as int, 2, 1);
            lemma_fx_mul_spec_bound(C2_RAW as int, r2 as int, 2, 1);
            assert(0 <= C1_RAW as int * r1 && 0 <= C2_RAW as int * r2) by (nonlinear_arith)
                requires
                    0 <= r1,
                    0 <= r2,
                    C1_RAW == 20_000_000i64,
                    C2_RAW == 14_945_500i64,
            ;
            vstd::arithmetic::div_mod::lemma_div_pos_is_pos(C1_RAW as int * r1, FX_SCALE as int);
            vstd::arithmetic::div_mod::lemma_div_pos_is_pos(C2_RAW as int * r2, FX_SCALE as int);
            lemma_one_hot_cells_bounded(old(self).position);
            lemma_one_hot_cells_bounded(old(self).personal_best_position);
            lemma_one_hot_cells_bounded(*global_best_position);
        }
        let mut i: usize = 0;
        while i < rows
            invariant
                self.position == old(self).position,
                self.personal_best_position == old(self).personal_best_position,
                self.personal_best_objective == old(self).personal_best_objective,
                self.personal_best_throughput == old(self).personal_best_throughput,
                self.personal_best_energy == old(self).personal_best_energy,
                self.objective_history@ == old(self).objective_history@,
                self.task_vm_mapping@ == old(self).task_vm_mapping@,
                self.id == old(self).id,
                old(self).wf(),
                self.velocity.wf(),
                self.velocity.nrows() == rows,
                self.velocity.ncols() == cols,
                self.position.nrows() == rows,
                self.position.ncols() == cols,
                global_best_position.wf(),
                global_best_position.nrows() == rows,
                global_best_position.ncols() == cols,
                0 <= w <= W_CAP_RAW,
                0 <= c1r1 <= 2 * FX_SCALE,
                0 <= c2r2 <= 2 * FX_SCALE,
                forall|r: int, c: int|
                    0 <= r < rows && 0 <= c < cols ==> 0 <= #[trigger] self.position.at(r, c)
                        <= FX_SCALE,
                forall|r: int, c: int|
                    0 <= r < rows && 0 <= c < cols ==> 0 <= #[trigger
                    ] self.personal_best_position.at(r, c) <= FX_SCALE,
                forall|r: int, c: int|
                    0 <= r < rows && 0 <= c < cols ==> 0 <= #[trigger] global_best_position.at(
                        r,
                        c,
                    ) <= FX_SCALE,
                i <= rows,
                forall|r: int, c: int|
                    0 <= r < i && 0 <= c < cols ==> -MAX_ABS_VELOCITY_RAW <= #[trigger
                    ] self.velocity.at(r, c) <= MAX_ABS_VELOCITY_RAW,
                forall|r: int, c: int|
                    0 <= r < i && 0 <= c < cols ==> #[trigger] velocity_cell_updated(
                        *old(self),
                        self.velocity,
                        *global_best_position,
                        w as int,
                        c1r1 as int,
                        c2r2 as int,
                        r,
                        c,
                    ),
                forall|r: int, c: int|
                    i <= r < rows && 0 <= c < cols ==> #[trigger] self.velocity.at(r, c) == old(
                        self,
                    ).velocity.at(r, c),
            decreases rows - i,
        {
            let mut j: usize = 0;
            while j < cols
                invariant
                    self.position == old(self).position,
                    self.personal_best_position == old(self).personal_best_position,
                    self.personal_best_objective == old(self).personal_best_objective,
                    self.personal_best_throughput == old(self).personal_best_throughput,
                    self.personal_best_energy == old(self).personal_best_energy,
                    self.objective_history@ == old(self).objective_history@,
                    self.task_vm_mapping@ == old(self).task_vm_mapping@,
                    self.id == old(self).id,
                    old(self).wf(),
                    self.velocity.wf(),
                    self.velocity.nrows() == rows,
                    self.velocity.ncols() == cols,
                    self.position.nrows() == rows,
                    self.position.ncols() == cols,
                    global_best_position.wf(),
                    global_best_position.nrows() == rows,
                    global_best_position.ncols() == cols,
                    0 <= w <= W_CAP_RAW,
                    0 <= c1r1 <= 2 * FX_SCALE,
                    0 <= c2r2 <= 2 * FX_SCALE,
                    forall|r: int, c: int|
                        0 <= r < rows && 0 <= c < cols ==> 0 <= #[trigger] self.position.at(r, c)
                            <= FX_SCALE,
                    forall|r: int, c: int|
                        0 <= r < rows && 0 <= c < cols ==> 0 <= #[trigger
                        ] self.personal_best_position.at(r, c) <= FX_SCALE,
                    forall|r: int, c: int|
                        0 <= r < rows && 0 <= c < cols ==> 0 <= #[trigger] global_best_position.at(
                            r,
                            c,
                        ) <= FX_SCALE,
                    i < rows,
                    j <= cols,
                    forall|r: int, c: int|
                        0 <= r < i && 0 <= c < cols ==> -MAX_ABS_VELOCITY_RAW <= #[trigger
                        ] self.velocity.at(r, c) <= MAX_ABS_VELOCITY_RAW,
                    forall|c: int|
                        0 <= c < j ==> -MAX_ABS_VELOCITY_RAW <= #[trigger] self.velocity.at(
                            i as int,
                            c,
                        ) <= MAX_ABS_VELOCITY_RAW,
                    forall|r: int, c: int|
                        0 <= r < i && 0 <= c < cols ==> #[trigger] velocity_cell_updated(
                            *old(self),
                            self.velocity,
                            *global_best_position,
                            w as int,
                            c1r1 as int,
                            c2r2 as int,
                            r,
                            c,
                        ),
                    forall|c: int|
                        0 <= c < j ==> #[trigger] velocity_cell_updated(
                            *old(self),
                            self.velocity,
                            *global_best_position,
                            w as int,
                            c1r1 as int,
                            c2r2 as int,
                            i as int,
                            c,
                        ),
                    forall|r: int, c: int|
                        i < r < rows && 0 <= c < cols ==> #[trigger] self.velocity.at(r, c) == old(
                            self,
                        ).velocity.at(r, c),
                    forall|c: int|
                        j <= c < cols ==> #[trigger] self.velocity.at(i as int, c) == old(
                            self,
                        ).velocity.at(i as int, c),
                decreases cols - j,
            {
                let v = self.velocity.get(i, j);
                let pb = self.personal_best_position.get(i, j);
                let pos = self.position.get(i, j);
                let gb = global_best_position.get(i, j);
                let nv = blend_velocity_cell(v, w, pb, pos, gb, c1r1, c2r2);
                let bounded = rebound_velocity_cell(nv);
                let ghost vel_pre = self.velocity;
                self.velocity.set(i, j, bounded);
                proof {
                    assert(velocity_cell_updated(
                        *old(self),
                        self.velocity,
                        *global_best_position,
                        w as int,
                        c1r1 as int,
                        c2r2 as int,
                        i as int,
                        j as int,
                    ));
                    assert forall|r: int, c: int|
                        0 <= r < i && 0 <= c < cols implies #[trigger] velocity_cell_updated(
                        *old(self),
                        self.velocity,
                        *global_best_position,
                        w as int,
                        c1r1 as int,
                        c2r2 as int,
                        r,
                        c,
                    ) by {
                        assert(velocity_cell_updated(
                            *old(self),
                            vel_pre,
                            *global_best_position,
                            w as int,
                            c1r1 as int,
                            c2r2 as int,
                            r,
                            c,
                        ));
                        assert(self.velocity.at(r, c) == vel_pre.at(r, c));
                    }
                    assert forall|c: int|
                        0 <= c < j + 1 implies #[trigger] velocity_cell_updated(
                        *old(self),
                        self.velocity,
                        *global_best_position,
                        w as int,
                        c1r1 as int,
                        c2r2 as int,
                        i as int,
                        c,
                    ) by {
                        if c < j {
                            assert(velocity_cell_updated(
                                *old(self),
                                vel_pre,
                                *global_best_position,
                                w as int,
                                c1r1 as int,
                                c2r2 as int,
                                i as int,
                                c,
                            ));
                            assert(self.velocity.at(i as int, c) == vel_pre.at(i as int, c));
                        }
                    }
                }
                j = j + 1;
            }
            i = i + 1;
        }
        proof {
            assert(velocity_updated_with(
                *old(self),
                self.velocity,
                *global_best_position,
                w as int,
                c1r1 as int,
                c2r2 as int,
            ));
        }
    }

    /// One position step: each task row becomes one-hot at the column with
    /// the row's maximum velocity (ties to the lowest column index), and the
    /// choice is recorded against the freshly reset evaluation context
    /// before the next row is decided.
    pub fn update_position_and_data_center(
        &mut self,
        workload: &Workload,
        data_center: &mut DataCenter,
    )
        requires
            old(self).wf(),
            workload.wf(),
            workload.tasks@.len() == old(self).position.nrows(),
            old(self).position.nrows() >= 1,
            old(data_center).wf(),
            old(data_center).fleet_len() == old(self).position.ncols(),
            old(self).position.ncols() >= 1,
        ensures
            final(self).wf(),
            final(self).velocity == old(self).velocity,
            final(self).personal_best_position == old(self).personal_best_position,
            final(self).personal_best_objective == old(self).personal_best_objective,
            final(self).personal_best_throughput == old(self).personal_best_throughput,
            final(self).personal_best_energy == old(self).personal_best_energy,
            final(self).objective_history@ == old(self).objective_history@,
            final(self).task_vm_mapping@ == old(self).task_vm_mapping@,
            final(self).id == old(self).id,
            final(self).position.nrows() == old(self).position.nrows(),
            final(self).position.ncols() == old(self).position.ncols(),
            forall|i: int|
                0 <= i < final(self).position.nrows() ==> #[trigger] final(self).position.is_one_hot_row_at(i, first_max_col(final(self).velocity, i)),
            final(data_center).wf(),
            final(data_center).id == old(data_center).id,
            final(data_center).virtual_machines@ == old(data_center).virtual_machines@,
            final(data_center).task_count == workload.tasks@.len(),
            forall|v: int|
                0 <= v < final(data_center).fleet_len() ==> final(data_center).assigned(v)
                    == replay_mi_upto(
                    workload.tasks@,
                    final(self).velocity,
                    v,
                    workload.tasks@.len() as int,
                ),
    {
        let n = self.position.n_rows();
        let m = self.position.n_cols();
        data_center.reset_virtual_machine_ready_time();
        let mut i: usize = 0;
        while i < n
            invariant
                self.velocity == old(self).velocity,
                self.personal_best_position == old(self).personal_best_position,
                self.personal_best_objective == old(self).personal_best_objective,
                self.personal_best_throughput == old(self).personal_best_throughput,
                self.personal_best_energy == old(self).personal_best_energy,
                self.objective_history@ == old(self).objective_history@,
                self.task_vm_mapping@ == old(self).task_vm_mapping@,
                self.id == old(self).id,
                old(self).wf(),
                workload.wf(),
                workload.tasks@.len() == n,
                self.position.wf(),
                self.position.nrows() == n,
                self.position.ncols() == m,
                self.velocity.wf(),
                self.velocity.nrows() == n,
                self.velocity.ncols() == m,
                1 <= n <= MAX_WORKLOAD_TASKS,
                m >= 1,
                i <= n,
                data_center.wf(),
                data_center.id == old(data_center).id,
                data_center.virtual_machines@ == old(data_center).virtual_machines@,
                data_center.fleet_len() == m,
                data_center.task_count == i,
                forall|v: int|
                    0 <= v < m ==> data_center.assigned(v) == replay_mi_upto(
                        workload.tasks@,
                        self.velocity,
                        v,
                        i as int,
                    ),
                forall|r: int|
                    0 <= r < i ==> #[trigger] self.position.is_one_hot_row_at(
                        r,
                        first_max_col(self.velocity, r),
                    ),
                forall|r: int, c: int|
                    i <= r < n && 0 <= c < m ==> #[trigger] self.position.at(r, c) == old(self).position.at(r, c),
            decreases n - i,
        {
            let c = self.velocity.get_index_of_maximum_col_for_row(i);
            let ghost pos_pre = self.position;
            let mut j: usize = 0;
            while j < m
                invariant
                    self.velocity == old(self).velocity,
                    self.personal_best_position == old(self).personal_best_position,
                    self.personal_best_objective == old(self).personal_best_objective,
                    self.personal_best_throughput == old(self).personal_best_throughput,
                    self.personal_best_energy == old(self).personal_best_energy,
                    self.objective_history@ == old(self).objective_history@,
                    self.task_vm_mapping@ == old(self).task_vm_mapping@,
                    self.id == old(self).id,
                    self.position.wf(),
                    self.position.nrows() == n,
                    self.position.ncols() == m,
                    i < n,
                    j <= m,
                    forall|r: int, c2: int|
                        0 <= r < n && r != i && 0 <= c2 < m ==> #[trigger] self.position.at(r, c2)
                            == pos_pre.at(r, c2),
                    forall|c2: int| 0 <= c2 < j ==> #[trigger] self.position.at(i as int, c2) == 0,
                decreases m - j,
            {
                self.position.set(i, j, 0i64);
                j = j + 1;
            }
            self.position.set(i, c, FX_SCALE);
            let t = workload.tasks[i];
            data_center.add_execution_time_to_virtual_machine(&t, c);
            proof {
                assert(self.position.is_one_hot_row_at(i as int, c as int));
                assert forall|r: int|
                    0 <= r < i + 1 implies #[trigger] self.position.is_one_hot_row_at(
                    r,
                    first_max_col(self.velocity, r),
                ) by {
                    if r < i {
                        let jr = first_max_col(self.velocity, r);
                        assert(pos_pre.is_one_hot_row_at(r, jr));
                        assert(self.position.at(r, jr) == pos_pre.at(r, jr));
                        assert forall|c2: int|
                            0 <= c2 < m && c2 != jr implies #[trigger] self.position.at(r, c2)
                            == 0 by {
                            assert(self.position.at(r, c2) == pos_pre.at(r, c2));
                        }
                    }
                }
                assert forall|r: int, c2: int|
                    i + 1 <= r < n && 0 <= c2 < m implies #[trigger] self.position.at(r, c2)
                    == old(self).position.at(r, c2) by {
                    assert(self.position.at(r, c2) == pos_pre.at(r, c2));
                }
            }
            i = i + 1;
        }
        proof {
            assert forall|r: int| 0 <= r < n implies #[trigger] self.position.one_hot_row(r) by {
                assert(self.position.is_one_hot_row_at(r, first_max_col(self.velocity, r)));
            }
        }
    }

    /// One full iteration: update velocity, update position, replay the
    /// assignment, and track the personal best. Returns whether the new
    /// objective strictly improved it; the history always records the
    /// best-so-far objective, improved or not.
    pub fn run_iteration(
        &mut self,
        workload: &Workload,
        data_center: &mut DataCenter,
        w: i64,
        global_best_position: &Matrix,
    ) -> (improved: bool)
        requires
            old(self).wf(),
            workload.wf(),
            workload.tasks@.len() == old(self).position.nrows(),
            old(self).position.nrows() >= 1,
            old(data_center).wf(),
            old(data_center).fleet_len() == old(self).position.ncols(),
            old(self).position.ncols() >= 1,
            0 <= w <= W_CAP_RAW,
            global_best_position.wf(),
            global_best_position.nrows() == old(self).position.nrows(),
            global_best_position.ncols() == old(self).position.ncols(),
            global_best_position.all_rows_one_hot(),
        ensures
            final(self).wf(),
            final(self).id == old(self).id,
            final(self).position.nrows() == old(self).position.nrows(),
            final(self).position.ncols() == old(self).position.ncols(),
            final(data_center).wf(),
            final(data_center).id == old(data_center).id,
            final(data_center).virtual_machines@ == old(data_center).virtual_machines@,
            final(data_center).task_count == workload.tasks@.len(),
            forall|v: int|
                0 <= v < final(data_center).fleet_len() ==> final(data_center).assigned(v)
                    == replay_mi_upto(
                    workload.tasks@,
                    final(self).velocity,
                    v,
                    workload.tasks@.len() as int,
                ),
            improved == (final(data_center).objective_spec() > old(self).personal_best_objective),
            improved ==> final(self).personal_best_objective == final(data_center).objective_spec()
                && final(self).personal_best_throughput == final(data_center).throughput_fx_spec()
                && final(self).personal_best_energy == final(data_center).energy_kwh_fx_spec()
                && (forall|i: int, j: int|
                0 <= i < final(self).position.nrows() && 0 <= j < final(self).position.ncols()
                    ==> #[trigger] final(self).personal_best_position.at(i, j) == final(self).position.at(i, j)),
            !improved ==> final(self).personal_best_objective == old(self).personal_best_objective
                && final(self).personal_best_position == old(self).personal_best_position
                && final(self).personal_best_throughput == old(self).personal_best_throughput
                && final(self).personal_best_energy == old(self).personal_best_energy,
            final(self).personal_best_objective >= old(self).personal_best_objective,
            final(self).objective_history@ == old(self).objective_history@.push(
                final(self).personal_best_objective,
            ),
            final(self).task_vm_mapping@ == old(self).task_vm_mapping@,
    {
        self.update_velocity(w, global_best_position);
        self.update_position_and_data_center(workload, data_center);
        let objective = data_center.compute_objective();
        if objective > self.personal_best_objective {
            self.personal_best_objective = objective;
            self.personal_best_throughput = data_center.compute_throughput();
            self.personal_best_energy = data_center.compute_energy_consumption_kwh();
            let copy = self.position.duplicate();
            proof {
                assert forall|r: int|
                    0 <= r < copy.nrows() implies #[trigger] copy.one_hot_row(r) by {
                    assert(self.position.one_hot_row(r));
                    let jr = choose|jr: int| self.position.is_one_hot_row_at(r, jr);
                    assert(copy.is_one_hot_row_at(r, jr));
                }
            }
            self.personal_best_position = copy;
            self.objective_history.push(objective);
            true
        } else {
            let best = self.personal_best_objective;
            self.objective_history.push(best);
            false
        }
    }

    /// Materializes the sparse task-to-machine mapping: exactly the cells
    /// strictly above the 0.9 threshold.
    pub fn update_task_vm_mapping(&mut self)
        requires
            old(self).position.wf(),
        ensures
            final(self).position == old(self).position,
            final(self).velocity == old(self).velocity,
            final(self).personal_best_position == old(self).personal_best_position,
            final(self).personal_best_objective == old(self).personal_best_objective,
            final(self).personal_best_throughput == old(self).personal_best_throughput,
            final(self).personal_best_energy == old(self).personal_best_energy,
            final(self).objective_history@ == old(self).objective_history@,
            final(self).id == old(self).id,
            forall|p: (usize, usize)|
                #[trigger] final(self).task_vm_mapping@.contains(p) <==> p.0 < old(self).position.nrows() && p.1 < old(self).position.ncols() && old(self).position.at(
                    p.0 as int,
                    p.1 as int,
                ) > MAPPING_THRESHOLD_RAW,
            forall|k1: int, k2: int|
                0 <= k1 < k2 < final(self).task_vm_mapping@.len() ==> #[trigger] final(self).task_vm_mapping@[k1] != #[trigger] final(self).task_vm_mapping@[k2],
    {
        self.task_vm_mapping = self.position.cells_above(MAPPING_THRESHOLD_RAW);
    }
}

/// The blended velocity of one cell before re-randomization:
/// `w*v + c1*r1*(pbest - pos) + c2*r2*(gbest - pos)`, with the two random
/// scalars already folded into the factors `c1r1` and `c2r2`.
pub open spec fn velocity_blend_spec(
    v: int,
    w: int,
    pb: int,
    pos: int,
    gb: int,
    c1r1: int,
    c2r2: int,
) -> int {
    fx_mul_spec(v, w) + fx_mul_spec(c1r1, pb - pos) + fx_mul_spec(c2r2, gb - pos)
}

/// One cell of the velocity update rule, exactly as the blend spec states
/// it, for a bounded previous velocity, inertia weight, and one-hot
/// position cells.
pub fn blend_velocity_cell(
    v: i64,
    w: i64,
    pb: i64,
    pos: i64,
    gb: i64,
    c1r1: i64,
    c2r2: i64,
) -> (r: i64)
    requires
        -MAX_ABS_VELOCITY_RAW <= v <= MAX_ABS_VELOCITY_RAW,
        0 <= w <= W_CAP_RAW,
        0 <= pb <= FX_SCALE,
        0 <= pos <= FX_SCALE,
        0 <= gb <= FX_SCALE,
        -2 * FX_SCALE <= c1r1 <= 2 * FX_SCALE,
        -2 * FX_SCALE <= c2r2 <= 2 * FX_SCALE,
    ensures
        r == velocity_blend_spec(
            v as int,
            w as int,
            pb as int,
            pos as int,
            gb as int,
            c1r1 as int,
            c2r2 as int,
        ),
        -204 * FX_SCALE <= r <= 204 * FX_SCALE,
{
    let vw = fx_mul(v, w);
    proof {
        lemma_fx_mul_spec_bound(v as int, w as int, 10, 20);
    }
    let tp = fx_mul(c1r1, pb - pos);
    let tg = fx_mul(c2r2, gb - pos);
    proof {
        lemma_fx_mul_spec_bound(c1r1 as int, pb as int - pos as int, 2, 1);
        lemma_fx_mul_spec_bound(c2r2 as int, gb as int - pos as int, 2, 1);
    }
    vw + tp + tg
}

/// Any blended velocity cell within the bound passes through unchanged; one
/// whose magnitude exceeds the bound is replaced by a fresh uniform sample
/// from `[0, bound)` — re-randomization, not clamping.
pub fn rebound_velocity_cell(v: i64) -> (r: i64)
    requires
        -FX_CAP <= v <= FX_CAP,
    ensures
        -MAX_ABS_VELOCITY_RAW <= v <= MAX_ABS_VELOCITY_RAW ==> r == v,
        v < -MAX_ABS_VELOCITY_RAW || v > MAX_ABS_VELOCITY_RAW ==> 0 <= r
            < MAX_ABS_VELOCITY_RAW,
        -MAX_ABS_VELOCITY_RAW <= r <= MAX_ABS_VELOCITY_RAW,
{
    if v > MAX_ABS_VELOCITY_RAW || v < -MAX_ABS_VELOCITY_RAW {
        get_random_float(0, MAX_ABS_VELOCITY_RAW)
    } else {
        v
    }
}

/// Every position row of a well-formed particle sums to exactly the
/// fixed-point one: each task is assigned to exactly one virtual machine,
/// for any workload and fleet size. This holds of freshly constructed
/// particles and is preserved by every update, since both establish `wf`.
pub proof fn lemma_particle_rows_sum_to_one(p: Particle)
    requires
        p.wf(),
    ensures
        forall|i: int|
            0 <= i < p.position.nrows() ==> #[trigger] row_sum(p.position, i) == FX_SCALE,
{
    assert forall|i: int|
        0 <= i < p.position.nrows() implies #[trigger] row_sum(p.position, i) == FX_SCALE by {
        assert(p.position.one_hot_row(i));
        lemma_one_hot_row_sums_to_one(p.position, i);
    }
}

/// Facts about a rearrangement of a dense-id task sequence: every element
/// is one of the workload's tasks, ids never repeat, and every id is
/// covered.
proof fn lemma_sorted_tasks_facts(tasks: Seq<Task>, sorted: Seq<Task>)
    requires
        sorted.to_multiset() == tasks.to_multiset(),
        forall|i: int| 0 <= i < tasks.len() ==> (#[trigger] tasks[i]).id == i,
        forall|i: int| 0 <= i < tasks.len() ==> (#[trigger] tasks[i]).wf(),
    ensures
        sorted.len() == tasks.len(),
        forall|k: int|
            0 <= k < sorted.len() ==> 0 <= (#[trigger] sorted[k]).id < tasks.len()
                && sorted[k].wf() && sorted[k] == tasks[sorted[k].id as int],
        forall|k1: int, k2: int|
            0 <= k1 < sorted.len() && 0 <= k2 < sorted.len() && k1 != k2 ==> (
            #[trigger] sorted[k1]).id != (#[trigger] sorted[k2]).id,
        forall|r: int|
            0 <= r < tasks.len() ==> #[trigger] id_in_prefix(sorted, sorted.len() as int, r),
{
    broadcast use vstd::seq_lib::group_to_multiset_ensures;

    assert(sorted.len() == tasks.len()) by {
        sorted.to_multiset_ensures();
        tasks.to_multiset_ensures();
        assert(sorted.to_multiset().len() == tasks.to_multiset().len());
    }
    assert forall|k: int|
        0 <= k < sorted.len() implies 0 <= (#[trigger] sorted[k]).id < tasks.len()
        && sorted[k].wf() && sorted[k] == tasks[sorted[k].id as int] by {
        assert(sorted.contains(sorted[k]));
        assert(tasks.to_multiset().count(sorted[k]) > 0);
        assert(tasks.contains(sorted[k]));
        let i = choose|i: int| 0 <= i < tasks.len() && tasks[i] == sorted[k];
        assert(tasks[i].id == i);
    }
    assert(tasks.no_duplicates()) by {
        assert forall|a: int, b: int|
            0 <= a < tasks.len() && 0 <= b < tasks.len() && a != b implies tasks[a]
            != tasks[b] by {
            assert(tasks[a].id == a && tasks[b].id == b);
        }
    }
    tasks.lemma_multiset_has_no_duplicates();
    assert forall|x: Task| sorted.to_multiset().contains(x) implies sorted.to_multiset().count(x)
        == 1 by {
        assert(tasks.to_multiset().count(x) > 0);
    }
    sorted.lemma_multiset_has_no_duplicates_conv();
    assert forall|k1: int, k2: int|
        0 <= k1 < sorted.len() && 0 <= k2 < sorted.len() && k1 != k2 implies (
    #[trigger] sorted[k1]).id != (#[trigger] sorted[k2]).id by {
        assert(sorted[k1] != sorted[k2]);
        if sorted[k1].id == sorted[k2].id {
            assert(sorted[k1] == tasks[sorted[k1].id as int]);
            assert(sorted[k2] == tasks[sorted[k2].id as int]);
        }
    }
    assert forall|r: int| 0 <= r < tasks.len() implies #[trigger] id_in_prefix(
        sorted,
        sorted.len() as int,
        r,
    ) by {
        assert(tasks.contains(tasks[r]));
        assert(sorted.to_multiset().count(tasks[r]) > 0);
        assert(sorted.contains(tasks[r]));
        let k = choose|k: int| 0 <= k < sorted.len() && sorted[k] == tasks[r];
        assert(sorted[k].id == r);
    }
}

} // verus!
