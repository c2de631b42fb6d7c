//! The evaluation context: a fleet of virtual machines and the exact cost
//! model that scores a candidate assignment.
//!
//! Ready times are held exactly: the ledger records, for every machine, the
//! total millions of instructions assigned to it, so a machine's ready time
//! is the rational `assigned / throughput` and all comparisons are exact
//! cross-multiplications. Only the final read-outs (makespan, energy,
//! objective) are rounded once, into fixed point.

use vstd::prelude::*;
use vstd::arithmetic::div_mod::lemma_div_is_ordered;
use vstd::arithmetic::div_mod::lemma_div_is_ordered_by_denominator;
use vstd::arithmetic::div_mod::lemma_div_multiples_vanish;
use vstd::arithmetic::div_mod::lemma_div_nonincreasing;
use vstd::arithmetic::div_mod::lemma_div_pos_is_pos;
use vstd::arithmetic::mul::lemma_mul_upper_bound;
use crate::fixed::FX_SCALE;
use crate::fixed::rat_le;
use crate::fixed::rat_lt;
use crate::fixed::rat_eq;
use crate::fixed::rat_lt_exec;
use crate::fixed::rat_eq_exec;
use crate::fixed::ratio_to_fx;
use crate::fixed::lemma_rat_le_trans;
use crate::fixed::lemma_rat_lt_le_trans;
use crate::fixed::lemma_rat_le_lt_trans;
use crate::ids::IdGenerator;
use crate::simulation::task::Task;
use crate::simulation::task::MAX_TASK_MI;
use crate::simulation::virtual_machine::VirtualMachine;
use crate::simulation::workload::MAX_WORKLOAD_TASKS;

verus! {

/// Largest fleet the exact integer cost model accepts without overflow.
pub const MAX_FLEET_VMS: usize = 100_000;

/// Joules per kilowatt-hour.
pub const JOULES_PER_KWH: u64 = 3_600_000;

pub struct DataCenter {
    pub id: usize,
    pub virtual_machines: Vec<VirtualMachine>,
    pub task_count: u32,
    /// The ready-time ledger: total millions of instructions assigned to
    /// each machine, indexed like `virtual_machines`.
    pub virtual_machine_assigned_mi: Vec<u64>,
    pub total_millions_of_instructions: u64,
}

impl DataCenter {
    pub open spec fn fleet_len(self) -> int {
        self.virtual_machines@.len() as int
    }

    /// Millions of instructions assigned to machine `v`.
    pub open spec fn assigned(self, v: int) -> int {
        self.virtual_machine_assigned_mi@[v] as int
    }

    pub open spec fn mips(self, v: int) -> int {
        self.virtual_machines@[v].millions_of_instructions_per_second as int
    }

    pub open spec fn active(self, v: int) -> int {
        self.virtual_machines@[v].active_state_joules_per_million_instructions as int
    }

    pub open spec fn idle(self, v: int) -> int {
        self.virtual_machines@[v].idle_state_joules_per_million_instructions as int
    }

    pub open spec fn sum_assigned_upto(self, n: int) -> int
        decreases n,
    {
        if n <= 0 {
            0
        } else {
            self.sum_assigned_upto(n - 1) + self.assigned(n - 1)
        }
    }

    pub open spec fn wf(self) -> bool {
        &&& self.virtual_machine_assigned_mi@.len() == self.fleet_len()
        &&& self.fleet_len() <= MAX_FLEET_VMS
        &&& forall|v: int| 0 <= v < self.fleet_len() ==> (#[trigger] self.virtual_machines@[v]).wf()
        &&& forall|a: int, b: int|
            0 <= a < b < self.fleet_len() ==> (#[trigger] self.virtual_machines@[a]).id != (
            #[trigger] self.virtual_machines@[b]).id
        &&& self.task_count <= MAX_WORKLOAD_TASKS
        &&& self.total_millions_of_instructions == self.sum_assigned_upto(self.fleet_len())
        &&& self.total_millions_of_instructions <= self.task_count * MAX_TASK_MI
        &&& self.task_count <= self.total_millions_of_instructions
    }

    /// Machine `v`'s ready time is at most machine `w`'s.
    pub open spec fn ready_le(self, v: int, w: int) -> bool {
        rat_le(self.assigned(v), self.mips(v), self.assigned(w), self.mips(w))
    }

    /// The first machine whose ready time is maximal among `0..n`.
    pub open spec fn max_ready_idx_upto(self, n: int) -> int
        decreases n,
    {
        if n <= 1 {
            0
        } else {
            let b = self.max_ready_idx_upto(n - 1);
            if rat_lt(self.assigned(b), self.mips(b), self.assigned(n - 1), self.mips(n - 1)) {
                n - 1
            } else {
                b
            }
        }
    }

    /// Numerator of the makespan: instructions assigned to the busiest machine.
    pub open spec fn makespan_num(self) -> int {
        if self.fleet_len() == 0 {
            0
        } else {
            self.assigned(self.max_ready_idx_upto(self.fleet_len()))
        }
    }

    /// Denominator of the makespan: throughput of the busiest machine.
    pub open spec fn makespan_den(self) -> int {
        if self.fleet_len() == 0 {
            1
        } else {
            self.mips(self.max_ready_idx_upto(self.fleet_len()))
        }
    }

    /// The makespan in fixed point, rounded down.
    pub open spec fn makespan_fx_spec(self) -> int {
        (self.makespan_num() * FX_SCALE) / self.makespan_den()
    }

    /// Sum over machines of `assigned * (active - idle)`.
    pub open spec fn coeff_a_upto(self, n: int) -> int
        decreases n,
    {
        if n <= 0 {
            0
        } else {
            self.coeff_a_upto(n - 1) + self.assigned(n - 1) * (self.active(n - 1) - self.idle(
                n - 1,
            ))
        }
    }

    /// Sum over machines of `idle * throughput`.
    pub open spec fn coeff_b_upto(self, n: int) -> int
        decreases n,
    {
        if n <= 0 {
            0
        } else {
            self.coeff_b_upto(n - 1) + self.idle(n - 1) * self.mips(n - 1)
        }
    }

    /// Total fleet energy in joules, multiplied by `makespan_den`: each
    /// machine spends `assigned * active` joules busy and
    /// `(makespan - ready) * idle * throughput` joules idle.
    pub open spec fn energy_num(self) -> int {
        self.coeff_a_upto(self.fleet_len()) * self.makespan_den() + self.makespan_num()
            * self.coeff_b_upto(self.fleet_len())
    }

    /// Fleet energy in kilowatt-hours, in fixed point, rounded down.
    pub open spec fn energy_kwh_fx_spec(self) -> int {
        (self.energy_num() * FX_SCALE) / (self.makespan_den() * JOULES_PER_KWH)
    }

    /// Throughput `task_count / makespan` in fixed point; 0 when nothing has
    /// been recorded.
    pub open spec fn throughput_fx_spec(self) -> int {
        if self.makespan_num() == 0 {
            0
        } else {
            (self.task_count * self.makespan_den() * FX_SCALE) / self.makespan_num()
        }
    }

    /// The objective `throughput + 0.1 / (Wh per task)` in fixed point, with
    /// both summands rounded down; the defined sentinel 0 when no tasks are
    /// recorded or the makespan is zero. With watt-hours
    /// `E / 3600` and the energy weight `0.1`, the second summand is
    /// `360 * task_count / E` for total joules `E = energy_num / makespan_den`.
    pub open spec fn objective_spec(self) -> int {
        if self.task_count == 0 || self.makespan_num() == 0 {
            0
        } else {
            (self.task_count * self.makespan_den() * FX_SCALE) / self.makespan_num() + (360
                * self.task_count * self.makespan_den() * FX_SCALE) / self.energy_num()
        }
    }

    /// Expected completion time numerator of `task_mi` more instructions on
    /// machine `v` (denominator is `mips(v)`).
    pub open spec fn eet_num(self, task_mi: int, v: int) -> int {
        self.assigned(v) + task_mi
    }

    /// `r` is the machine minimizing the expected completion time of a task
    /// of `task_mi` instructions, ties resolved to the lowest machine id.
    pub open spec fn is_min_eet_choice(self, task_mi: int, r: int) -> bool {
        &&& 0 <= r < self.fleet_len()
        &&& forall|v: int|
            0 <= v < self.fleet_len() ==> rat_le(
                self.eet_num(task_mi, r),
                self.mips(r),
                #[trigger] self.eet_num(task_mi, v),
                self.mips(v),
            )
        &&& forall|v: int|
            0 <= v < self.fleet_len() && v != r && rat_eq(
                #[trigger] self.eet_num(task_mi, v),
                self.mips(v),
                self.eet_num(task_mi, r),
                self.mips(r),
            ) ==> self.virtual_machines@[r].id < self.virtual_machines@[v].id
    }

    pub fn new(gen: &mut IdGenerator) -> (dc: DataCenter)
        requires
            old(gen).next_id < usize::MAX,
        ensures
            dc.id == old(gen).next_id,
            final(gen).next_id == old(gen).next_id + 1,
            dc.wf(),
            dc.fleet_len() == 0,
            dc.task_count == 0,
            dc.total_millions_of_instructions == 0,
    {
        DataCenter {
            id: gen.next(),
            virtual_machines: Vec::new(),
            task_count: 0,
            virtual_machine_assigned_mi: Vec::new(),
            total_millions_of_instructions: 0,
        }
    }

    /// Appends a machine, binds it to this data center, and starts its ready
    /// time at zero. Ids must be unique within the fleet.
    pub fn add_virtual_machine(&mut self, vm: VirtualMachine)
        requires
            old(self).wf(),
            vm.wf(),
            old(self).fleet_len() < MAX_FLEET_VMS,
            forall|v: int|
                0 <= v < old(self).fleet_len() ==> (#[trigger] old(self).virtual_machines@[v]).id
                    != vm.id,
        ensures
            final(self).wf(),
            final(self).id == old(self).id,
            final(self).fleet_len() == old(self).fleet_len() + 1,
            final(self).virtual_machines@ == old(self).virtual_machines@.push(
                VirtualMachine { data_center_id: old(self).id, ..vm },
            ),
            final(self).assigned(old(self).fleet_len()) == 0,
            forall|v: int|
                0 <= v < old(self).fleet_len() ==> final(self).assigned(v) == old(self).assigned(
                    v,
                ),
            final(self).task_count == old(self).task_count,
            final(self).total_millions_of_instructions == old(
                self,
            ).total_millions_of_instructions,
    {
        let ghost pre = *self;
        let bound = VirtualMachine { data_center_id: self.id, ..vm };
        self.virtual_machines.push(bound);
        self.virtual_machine_assigned_mi.push(0u64);
        proof {
            lemma_sum_assigned_congruence(pre, *self, pre.fleet_len());
            assert(self.sum_assigned_upto(self.fleet_len()) == pre.sum_assigned_upto(
                pre.fleet_len(),
            ));
        }
    }

    /// Clears every ready time to zero and zeroes the task and instruction
    /// counters; called before replaying any candidate assignment.
    pub fn reset_virtual_machine_ready_time(&mut self)
        requires
            old(self).wf(),
        ensures
            final(self).wf(),
            final(self).id == old(self).id,
            final(self).virtual_machines@ == old(self).virtual_machines@,
            final(self).fleet_len() == old(self).fleet_len(),
            forall|v: int| 0 <= v < final(self).fleet_len() ==> final(self).assigned(v) == 0,
            final(self).task_count == 0,
            final(self).total_millions_of_instructions == 0,
    {
        let n = self.virtual_machine_assigned_mi.len();
        let mut v: usize = 0;
        while v < n
            invariant
                self.virtual_machine_assigned_mi@.len() == n,
                self.virtual_machines@ == old(self).virtual_machines@,
                self.id == old(self).id,
                self.task_count == old(self).task_count,
                self.total_millions_of_instructions == old(self).total_millions_of_instructions,
                v <= n,
                forall|k: int| 0 <= k < v ==> #[trigger] self.virtual_machine_assigned_mi@[k] == 0,
            decreases n - v,
        {
            self.virtual_machine_assigned_mi[v] = 0;
            v = v + 1;
        }
        self.task_count = 0;
        self.total_millions_of_instructions = 0;
        proof {
            lemma_sum_assigned_zero(*self, self.fleet_len());
        }
    }

    /// Records one task on the machine at `vm_id`: its ready time grows by
    /// `instructions / throughput`, exactly.
    pub fn add_execution_time_to_virtual_machine(&mut self, task: &Task, vm_id: usize)
        requires
            old(self).wf(),
            task.wf(),
            vm_id < old(self).fleet_len(),
            old(self).task_count < MAX_WORKLOAD_TASKS,
        ensures
            final(self).wf(),
            final(self).id == old(self).id,
            final(self).virtual_machines@ == old(self).virtual_machines@,
            final(self).fleet_len() == old(self).fleet_len(),
            final(self).assigned(vm_id as int) == old(self).assigned(vm_id as int)
                + task.millions_of_instructions,
            forall|v: int|
                0 <= v < old(self).fleet_len() && v != vm_id ==> final(self).assigned(v) == old(
                    self,
                ).assigned(v),
            final(self).task_count == old(self).task_count + 1,
            final(self).total_millions_of_instructions == old(
                self,
            ).total_millions_of_instructions + task.millions_of_instructions,
    {
        let ghost pre = *self;
        proof {
            lemma_assigned_le_sum(*self, vm_id as int, self.fleet_len());
            lemma_mul_upper_bound(
                self.task_count as int,
                MAX_WORKLOAD_TASKS as int,
                MAX_TASK_MI as int,
                MAX_TASK_MI as int,
            );
        }
        let cur = self.virtual_machine_assigned_mi[vm_id];
        self.virtual_machine_assigned_mi[vm_id] = cur + (task.millions_of_instructions as u64);
        self.task_count = self.task_count + 1;
        self.total_millions_of_instructions = self.total_millions_of_instructions
            + (task.millions_of_instructions as u64);
        proof {
            lemma_sum_assigned_update(
                pre,
                *self,
                vm_id as int,
                task.millions_of_instructions as int,
                self.fleet_len(),
            );
            lemma_mul_upper_bound(
                pre.task_count as int,
                MAX_WORKLOAD_TASKS as int - 1,
                MAX_TASK_MI as int,
                MAX_TASK_MI as int,
            );
            assert((pre.task_count + 1) * MAX_TASK_MI == pre.task_count * MAX_TASK_MI
                + MAX_TASK_MI) by (nonlinear_arith);
        }
    }

    /// The first machine with maximal ready time; callers read the makespan
    /// off it.
    fn max_ready_index(&self) -> (r: usize)
        requires
            self.wf(),
            self.fleet_len() >= 1,
        ensures
            r == self.max_ready_idx_upto(self.fleet_len()),
            r < self.fleet_len(),
            forall|v: int| 0 <= v < self.fleet_len() ==> self.ready_le(v, r as int),
            self.makespan_num() == self.assigned(r as int),
            self.makespan_den() == self.mips(r as int),
    {
        let n = self.virtual_machines.len();
        let mut best: usize = 0;
        let mut j: usize = 1;
        while j < n
            invariant
                self.wf(),
                self.fleet_len() == n,
                n >= 1,
                1 <= j <= n,
                best < j,
                best == self.max_ready_idx_upto(j as int),
                forall|v: int| 0 <= v < j ==> self.ready_le(v, best as int),
            decreases n - j,
        {
            let ghost prev = best as int;
            let swap = rat_lt_exec(
                self.virtual_machine_assigned_mi[best],
                self.virtual_machines[best].millions_of_instructions_per_second as u64,
                self.virtual_machine_assigned_mi[j],
                self.virtual_machines[j].millions_of_instructions_per_second as u64,
            );
            if swap {
                best = j;
                proof {
                    assert forall|v: int| 0 <= v < j + 1 implies self.ready_le(v, best as int) by {
                        if v < j {
                            assert(self.ready_le(v, prev));
                            lemma_rat_le_lt_trans(
                                self.assigned(v),
                                self.mips(v),
                                self.assigned(prev),
                                self.mips(prev),
                                self.assigned(j as int),
                                self.mips(j as int),
                            );
                        }
                    }
                }
            }
            j = j + 1;
        }
        best
    }

    /// The makespan: the largest ready time across the fleet, 0 when the
    /// fleet is empty or nothing has been recorded.
    pub fn compute_makespan(&self) -> (r: i64)
        requires
            self.wf(),
        ensures
            r == self.makespan_fx_spec(),
            r >= 0,
            self.makespan_num() == 0 ==> r == 0,
    {
        if self.virtual_machines.len() == 0 {
            return 0;
        }
        let best = self.max_ready_index();
        let num = self.virtual_machine_assigned_mi[best];
        let den = self.virtual_machines[best].millions_of_instructions_per_second as u64;
        proof {
            lemma_assigned_le_sum(*self, best as int, self.fleet_len());
            lemma_mul_upper_bound(
                self.task_count as int,
                MAX_WORKLOAD_TASKS as int,
                MAX_TASK_MI as int,
                MAX_TASK_MI as int,
            );
            assert(num * FX_SCALE <= i64::MAX * den) by (nonlinear_arith)
                requires
                    num <= 100_000i64 * 1_000_000,
                    den >= 1,
            ;
            lemma_div_pos_is_pos(num * FX_SCALE, den as int);
        }
        ratio_to_fx(num, den)
    }

    /// Both energy sums of the fleet: `sum assigned * (active - idle)` and
    /// `sum idle * throughput`.
    fn energy_coefficients(&self) -> (r: (u128, u128))
        requires
            self.wf(),
        ensures
            r.0 == self.coeff_a_upto(self.fleet_len()),
            r.1 == self.coeff_b_upto(self.fleet_len()),
            r.0 <= self.total_millions_of_instructions * 1_000_000,
            r.1 <= self.fleet_len() * 1_000_000_000_000,
    {
        let n = self.virtual_machines.len();
        let mut a: u128 = 0;
        let mut b: u128 = 0;
        let mut v: usize = 0;
        while v < n
            invariant
                self.wf(),
                self.fleet_len() == n,
                v <= n,
                a == self.coeff_a_upto(v as int),
                b == self.coeff_b_upto(v as int),
                a <= self.sum_assigned_upto(v as int) * 1_000_000,
                b <= v * 1_000_000_000_000,
            decreases n - v,
        {
            let vm = &self.virtual_machines[v];
            let assigned = self.virtual_machine_assigned_mi[v];
            let diff = (vm.active_state_joules_per_million_instructions
                - vm.idle_state_joules_per_million_instructions) as u64;
            proof {
                lemma_assigned_le_sum(*self, v as int, self.fleet_len());
                lemma_sum_assigned_nonneg(*self, v as int);
                lemma_sum_assigned_nonneg(*self, v as int + 1);
                lemma_sum_assigned_prefix_le(*self, v as int, self.fleet_len());
                lemma_sum_assigned_prefix_le(*self, v as int + 1, self.fleet_len());
                lemma_mul_upper_bound(
                    self.task_count as int,
                    MAX_WORKLOAD_TASKS as int,
                    MAX_TASK_MI as int,
                    MAX_TASK_MI as int,
                );
                lemma_mul_upper_bound(
                    self.sum_assigned_upto(v as int),
                    100_000_000_000,
                    1_000_000,
                    1_000_000,
                );
                assert(self.assigned(v as int) * diff <= self.assigned(v as int) * 1_000_000
                    && self.assigned(v as int) * diff >= 0 && self.assigned(v as int) * 1_000_000
                    <= 100_000_000_000_000_000) by (nonlinear_arith)
                    requires
                        0 <= diff <= 1_000_000,
                        0 <= self.assigned(v as int) <= 100_000_000_000,
                ;
                assert(self.sum_assigned_upto(v as int) * 1_000_000 + self.assigned(v as int)
                    * 1_000_000 == (self.sum_assigned_upto(v as int) + self.assigned(v as int))
                    * 1_000_000) by (nonlinear_arith);
                lemma_mul_upper_bound(
                    self.sum_assigned_upto(v as int + 1),
                    100_000_000_000,
                    1_000_000,
                    1_000_000,
                );
                assert(self.idle(v as int) * self.mips(v as int) <= 1_000_000_000_000
                    && self.idle(v as int) * self.mips(v as int) >= 0) by (nonlinear_arith)
                    requires
                        0 <= self.idle(v as int) <= 1_000_000,
                        0 <= self.mips(v as int) <= 1_000_000,
                ;
            }
            a = a + (assigned as u128) * (diff as u128);
            b = b + (vm.idle_state_joules_per_million_instructions as u128)
                * (vm.millions_of_instructions_per_second as u128);
            v = v + 1;
        }
        (a, b)
    }

    /// Fleet energy over the current makespan, in kilowatt-hours (fixed
    /// point, rounded down).
    pub fn compute_energy_consumption_kwh(&self) -> (r: i128)
        requires
            self.wf(),
        ensures
            r == self.energy_kwh_fx_spec(),
            r >= 0,
    {
        if self.virtual_machines.len() == 0 {
            proof {
                lemma_div_pos_is_pos(0, JOULES_PER_KWH as int);
            }
            return 0;
        }
        let best = self.max_ready_index();
        let m_num = self.virtual_machine_assigned_mi[best];
        let m_den = self.virtual_machines[best].millions_of_instructions_per_second as u64;
        let (a, b) = self.energy_coefficients();
        proof {
            self.lemma_cost_bounds(best as int, a as int, b as int);
        }
        let e_num: u128 = a * (m_den as u128) + (m_num as u128) * b;
        proof {
            assert(m_den * JOULES_PER_KWH <= 1_000_000i64 * 3_600_000) by (nonlinear_arith)
                requires
                    0 <= m_den <= 1_000_000,
                    JOULES_PER_KWH == 3_600_000u64,
            ;
        }
        let num: u128 = e_num * (FX_SCALE as u128);
        let den: u128 = (m_den as u128) * (JOULES_PER_KWH as u128);
        let q = num / den;
        proof {
            lemma_div_pos_is_pos(num as int, den as int);
            lemma_div_nonincreasing(num as int, den as int);
        }
        q as i128
    }

    /// Bounds used by the energy and objective read-outs; `best` is the
    /// busiest machine, `a`/`b` the two energy sums.
    proof fn lemma_cost_bounds(&self, best: int, a: int, b: int)
        requires
            self.wf(),
            0 <= best < self.fleet_len(),
            0 <= a <= self.total_millions_of_instructions * 1_000_000,
            0 <= b <= self.fleet_len() * 1_000_000_000_000,
        ensures
            self.assigned(best) <= 100_000_000_000,
            a <= 100_000_000_000_000_000,
            b <= 100_000_000_000_000_000,
            0 <= a * self.mips(best) + self.assigned(best) * b
                <= 20_000_000_000_000_000_000_000_000_000,
            (a * self.mips(best) + self.assigned(best) * b) * FX_SCALE
                <= 200_000_000_000_000_000_000_000_000_000_000_000,
    {
        lemma_assigned_le_sum(*self, best, self.fleet_len());
        lemma_mul_upper_bound(
            self.task_count as int,
            MAX_WORKLOAD_TASKS as int,
            MAX_TASK_MI as int,
            MAX_TASK_MI as int,
        );
        lemma_mul_upper_bound(
            self.total_millions_of_instructions as int,
            100_000_000_000,
            1_000_000,
            1_000_000,
        );
        let e = a * self.mips(best) + self.assigned(best) * b;
        assert(0 <= a * self.mips(best) <= 100_000_000_000_000_000 * 1_000_000)
            by (nonlinear_arith)
            requires
                0 <= a <= 100_000_000_000_000_000,
                0 <= self.mips(best) <= 1_000_000,
        ;
        assert(0 <= self.assigned(best) * b <= 100_000_000_000 * 100_000_000_000_000_000)
            by (nonlinear_arith)
            requires
                0 <= self.assigned(best) <= 100_000_000_000,
                0 <= b <= 100_000_000_000_000_000,
        ;
        assert(e * FX_SCALE <= 20_000_000_000_000_000_000_000_000_000 * FX_SCALE
            && e * FX_SCALE >= 0) by (nonlinear_arith)
            requires
                0 <= e <= 20_000_000_000_000_000_000_000_000_000,
                FX_SCALE == 10_000_000i64,
        ;
    }

    /// Throughput `task_count / makespan` in fixed point; 0 when nothing has
    /// been recorded.
    pub fn compute_throughput(&self) -> (r: i64)
        requires
            self.wf(),
        ensures
            r == self.throughput_fx_spec(),
            r >= 0,
    {
        if self.virtual_machines.len() == 0 {
            return 0;
        }
        let best = self.max_ready_index();
        let m_num = self.virtual_machine_assigned_mi[best];
        if m_num == 0 {
            return 0;
        }
        let m_den = self.virtual_machines[best].millions_of_instructions_per_second as u64;
        proof {
            assert(0 <= self.task_count * m_den <= 100_000i64 * 1_000_000 && self.task_count
                * m_den * FX_SCALE <= 100_000i64 * 1_000_000 * FX_SCALE && self.task_count * m_den
                * FX_SCALE >= 0) by (nonlinear_arith)
                requires
                    0 <= self.task_count <= 100_000i64,
                    0 <= m_den <= 1_000_000,
                    FX_SCALE == 10_000_000i64,
            ;
        }
        let num: u128 = (self.task_count as u128) * (m_den as u128) * (FX_SCALE as u128);
        proof {
            lemma_div_pos_is_pos(num as int, m_num as int);
            lemma_div_nonincreasing(num as int, m_num as int);
        }
        let q = num / (m_num as u128);
        q as i64
    }

    /// The fleet's energy per task, per the stated cost model, never yields
    /// less than one joule per recorded instruction, so the objective's
    /// energy summand is bounded.
    proof fn lemma_energy_num_lower(&self, n: int)
        requires
            self.wf(),
            self.fleet_len() >= 1,
            0 <= n <= self.fleet_len(),
            forall|v: int| 0 <= v < self.fleet_len() ==> self.ready_le(
                v,
                self.max_ready_idx_upto(self.fleet_len()),
            ),
        ensures
            self.coeff_a_upto(n) * self.makespan_den() + self.makespan_num() * self.coeff_b_upto(
                n,
            ) >= self.sum_assigned_upto(n) * self.makespan_den(),
        decreases n,
    {
        if n > 0 {
            self.lemma_energy_num_lower(n - 1);
            let v = n - 1;
            let md = self.makespan_den();
            let mn = self.makespan_num();
            lemma_max_ready_idx_in_range(*self, self.fleet_len());
            let mx = self.max_ready_idx_upto(self.fleet_len());
            assert(self.virtual_machines@[mx].wf());
            assert(self.virtual_machines@[v].wf());
            assert(self.ready_le(v, mx));
            assert(self.assigned(v) * md <= mn * self.mips(v));
            assert(self.coeff_a_upto(n) * md + mn * self.coeff_b_upto(n) >= self.sum_assigned_upto(
                n,
            ) * md) by (nonlinear_arith)
                requires
                    self.coeff_a_upto(n) == self.coeff_a_upto(n - 1) + self.assigned(n - 1) * (
                    self.active(n - 1) - self.idle(n - 1)),
                    self.coeff_b_upto(n) == self.coeff_b_upto(n - 1) + self.idle(n - 1) * self.mips(
                        n - 1,
                    ),
                    self.sum_assigned_upto(n) == self.sum_assigned_upto(n - 1) + self.assigned(
                        n - 1,
                    ),
                    self.coeff_a_upto(n - 1) * md + mn * self.coeff_b_upto(n - 1)
                        >= self.sum_assigned_upto(n - 1) * md,
                    self.assigned(n - 1) * md <= mn * self.mips(n - 1),
                    self.active(n - 1) >= 1,
                    self.idle(n - 1) >= 0,
                    self.active(n - 1) >= self.idle(n - 1),
                    self.assigned(n - 1) >= 0,
                    md >= 1,
                    mn >= 0,
            ;
        }
    }

    /// The objective `throughput + 0.1 / (Wh per task)`, guarded: 0 when no
    /// tasks are recorded or the makespan is zero, never a division by zero.
    pub fn compute_objective(&self) -> (r: i64)
        requires
            self.wf(),
        ensures
            r == self.objective_spec(),
            r >= 0,
            self.task_count == 0 || self.makespan_num() == 0 ==> r == 0,
    {
        if self.task_count == 0 {
            return 0;
        }
        if self.virtual_machines.len() == 0 {
            return 0;
        }
        let best = self.max_ready_index();
        let m_num = self.virtual_machine_assigned_mi[best];
        if m_num == 0 {
            return 0;
        }
        let m_den = self.virtual_machines[best].millions_of_instructions_per_second as u64;
        proof {
            assert(0 <= self.task_count * m_den <= 100_000i64 * 1_000_000 && self.task_count
                * m_den * FX_SCALE <= 100_000i64 * 1_000_000 * FX_SCALE && self.task_count * m_den
                * FX_SCALE >= 0) by (nonlinear_arith)
                requires
                    0 <= self.task_count <= 100_000i64,
                    0 <= m_den <= 1_000_000,
                    FX_SCALE == 10_000_000i64,
            ;
        }
        let tnum: u128 = (self.task_count as u128) * (m_den as u128) * (FX_SCALE as u128);
        proof {
            lemma_div_pos_is_pos(tnum as int, m_num as int);
            lemma_div_nonincreasing(tnum as int, m_num as int);
        }
        let obj1: u128 = tnum / (m_num as u128);
        let (a, b) = self.energy_coefficients();
        proof {
            self.lemma_cost_bounds(best as int, a as int, b as int);
        }
        let e_num: u128 = a * (m_den as u128) + (m_num as u128) * b;
        proof {
            self.lemma_energy_num_lower(self.fleet_len());
            assert(self.total_millions_of_instructions * m_den >= self.task_count * m_den)
                by (nonlinear_arith)
                requires
                    self.total_millions_of_instructions >= self.task_count,
                    m_den >= 1,
            ;
            assert(self.task_count * m_den >= 1) by (nonlinear_arith)
                requires
                    self.task_count >= 1,
                    m_den >= 1,
            ;
        }
        let onum: u128 = 360 * tnum;
        proof {
            assert(360 * (self.task_count * (m_den as int) * FX_SCALE) == 360 * self.task_count * (
            m_den as int) * FX_SCALE) by (nonlinear_arith);
            lemma_div_pos_is_pos(onum as int, e_num as int);
            lemma_div_is_ordered_by_denominator(
                onum as int,
                self.task_count as int * m_den as int,
                e_num as int,
            );
            assert(onum as int == (self.task_count * m_den) * (360 * FX_SCALE))
                by (nonlinear_arith)
                requires
                    onum == 360 * (self.task_count * m_den * FX_SCALE),
            ;
            lemma_div_multiples_vanish(360 * FX_SCALE, self.task_count as int * m_den as int);
        }
        let obj2: u128 = onum / e_num;
        (obj1 as i64) + (obj2 as i64)
    }

    /// The machine minimizing `ready_time + instructions / throughput` for
    /// the given task; ties are resolved to the lowest machine id,
    /// deterministically.
    pub fn get_min_eet_virtual_machine(&self, task: &Task) -> (r: usize)
        requires
            self.wf(),
            task.wf(),
            self.fleet_len() >= 1,
        ensures
            self.is_min_eet_choice(task.millions_of_instructions as int, r as int),
    {
        let n = self.virtual_machines.len();
        let t = task.millions_of_instructions as u64;
        let ghost tmi = task.millions_of_instructions as int;
        let mut best: usize = 0;
        let mut j: usize = 1;
        proof {
            lemma_assigned_le_sum(*self, 0, self.fleet_len());
            lemma_mul_upper_bound(
                self.task_count as int,
                MAX_WORKLOAD_TASKS as int,
                MAX_TASK_MI as int,
                MAX_TASK_MI as int,
            );
        }
        while j < n
            invariant
                self.wf(),
                task.wf(),
                self.fleet_len() == n,
                n >= 1,
                tmi == task.millions_of_instructions as int,
                t == task.millions_of_instructions as u64,
                1 <= j <= n,
                best < j,
                forall|v: int|
                    0 <= v < j ==> rat_le(
                        self.eet_num(tmi, best as int),
                        self.mips(best as int),
                        #[trigger] self.eet_num(tmi, v),
                        self.mips(v),
                    ),
                forall|v: int|
                    0 <= v < j && v != best && rat_eq(
                        #[trigger] self.eet_num(tmi, v),
                        self.mips(v),
                        self.eet_num(tmi, best as int),
                        self.mips(best as int),
                    ) ==> self.virtual_machines@[best as int].id < self.virtual_machines@[v].id,
            decreases n - j,
        {
            proof {
                lemma_assigned_le_sum(*self, j as int, self.fleet_len());
                lemma_assigned_le_sum(*self, best as int, self.fleet_len());
                lemma_mul_upper_bound(
                    self.task_count as int,
                    MAX_WORKLOAD_TASKS as int,
                    MAX_TASK_MI as int,
                    MAX_TASK_MI as int,
                );
            }
            let ghost prev = best as int;
            let ej = self.virtual_machine_assigned_mi[j] + t;
            let eb = self.virtual_machine_assigned_mi[best] + t;
            let dj = self.virtual_machines[j].millions_of_instructions_per_second as u64;
            let db = self.virtual_machines[best].millions_of_instructions_per_second as u64;
            let closer = rat_lt_exec(ej, dj, eb, db);
            let tie = rat_eq_exec(ej, dj, eb, db);
            if closer {
                best = j;
                proof {
                    assert forall|v: int|
                        0 <= v < j + 1 implies rat_le(
                        self.eet_num(tmi, best as int),
                        self.mips(best as int),
                        #[trigger] self.eet_num(tmi, v),
                        self.mips(v),
                    ) by {
                        if v < j {
                            lemma_rat_lt_le_trans(
                                self.eet_num(tmi, j as int),
                                self.mips(j as int),
                                self.eet_num(tmi, prev),
                                self.mips(prev),
                                self.eet_num(tmi, v),
                                self.mips(v),
                            );
                        }
                    }
                    assert forall|v: int|
                        0 <= v < j + 1 && v != best as int && rat_eq(
                            #[trigger] self.eet_num(tmi, v),
                            self.mips(v),
                            self.eet_num(tmi, best as int),
                            self.mips(best as int),
                        ) implies self.virtual_machines@[best as int].id
                        < self.virtual_machines@[v].id by {
                        lemma_rat_lt_le_trans(
                            self.eet_num(tmi, j as int),
                            self.mips(j as int),
                            self.eet_num(tmi, prev),
                            self.mips(prev),
                            self.eet_num(tmi, v),
                            self.mips(v),
                        );
                    }
                }
            } else if tie && self.virtual_machines[j].id < self.virtual_machines[best].id {
                best = j;
                proof {
                    assert forall|v: int|
                        0 <= v < j + 1 implies rat_le(
                        self.eet_num(tmi, best as int),
                        self.mips(best as int),
                        #[trigger] self.eet_num(tmi, v),
                        self.mips(v),
                    ) by {
                        if v < j {
                            lemma_rat_le_trans(
                                self.eet_num(tmi, j as int),
                                self.mips(j as int),
                                self.eet_num(tmi, prev),
                                self.mips(prev),
                                self.eet_num(tmi, v),
                                self.mips(v),
                            );
                        }
                    }
                    assert forall|v: int|
                        0 <= v < j + 1 && v != best as int && rat_eq(
                            #[trigger] self.eet_num(tmi, v),
                            self.mips(v),
                            self.eet_num(tmi, best as int),
                            self.mips(best as int),
                        ) implies self.virtual_machines@[best as int].id
                        < self.virtual_machines@[v].id by {
                        if v < j {
                            lemma_rat_eq_trans(
                                self.eet_num(tmi, v),
                                self.mips(v),
                                self.eet_num(tmi, j as int),
                                self.mips(j as int),
                                self.eet_num(tmi, prev),
                                self.mips(prev),
                            );
                        }
                    }
                }
            } else {
                proof {
                    assert forall|v: int|
                        0 <= v < j + 1 && v != best as int && rat_eq(
                            #[trigger] self.eet_num(tmi, v),
                            self.mips(v),
                            self.eet_num(tmi, best as int),
                            self.mips(best as int),
                        ) implies self.virtual_machines@[best as int].id
                        < self.virtual_machines@[v].id by {
                        if v == j {
                            assert(self.virtual_machines@[best as int].id
                                != self.virtual_machines@[j as int].id);
                        }
                    }
                }
            }
            j = j + 1;
        }
        best
    }
}

/// The min-EET choice is unique: repeated calls on the same state pick the
/// same machine, and any two machines satisfying the choice predicate are
/// one and the same.
pub proof fn lemma_min_eet_choice_unique(dc: DataCenter, task_mi: int, r1: int, r2: int)
    requires
        dc.wf(),
        dc.is_min_eet_choice(task_mi, r1),
        dc.is_min_eet_choice(task_mi, r2),
    ensures
        r1 == r2,
{
    if r1 != r2 {
        assert(rat_le(dc.eet_num(task_mi, r1), dc.mips(r1), dc.eet_num(task_mi, r2), dc.mips(r2)));
        assert(rat_le(dc.eet_num(task_mi, r2), dc.mips(r2), dc.eet_num(task_mi, r1), dc.mips(r1)));
        assert(rat_eq(dc.eet_num(task_mi, r1), dc.mips(r1), dc.eet_num(task_mi, r2), dc.mips(r2)));
        assert(dc.virtual_machines@[r1].id < dc.virtual_machines@[r2].id);
        assert(dc.virtual_machines@[r2].id < dc.virtual_machines@[r1].id);
    }
}

/// A data center whose ready times are all zero has makespan zero: the spec
/// behind `compute_makespan` returning 0 right after a reset.
pub proof fn lemma_makespan_zero_when_unloaded(dc: DataCenter)
    requires
        dc.wf(),
        forall|v: int| 0 <= v < dc.fleet_len() ==> dc.assigned(v) == 0,
    ensures
        dc.makespan_num() == 0,
        dc.makespan_fx_spec() == 0,
{
    if dc.fleet_len() > 0 {
        lemma_max_ready_idx_in_range(dc, dc.fleet_len());
    }
    lemma_div_pos_is_pos(0, dc.makespan_den());
    lemma_div_nonincreasing(0, dc.makespan_den());
}

/// The first-maximum index is in range.
proof fn lemma_max_ready_idx_in_range(dc: DataCenter, n: int)
    requires
        n >= 1,
    ensures
        0 <= dc.max_ready_idx_upto(n) < n,
    decreases n,
{
    if n > 1 {
        lemma_max_ready_idx_in_range(dc, n - 1);
    }
}

/// The busiest machine's ready time dominates every machine's.
proof fn lemma_max_ready_is_max(dc: DataCenter, n: int)
    requires
        dc.wf(),
        1 <= n <= dc.fleet_len(),
    ensures
        0 <= dc.max_ready_idx_upto(n) < n,
        forall|v: int| 0 <= v < n ==> dc.ready_le(v, dc.max_ready_idx_upto(n)),
    decreases n,
{
    if n == 1 {
        assert(dc.ready_le(0, 0));
    } else {
        lemma_max_ready_is_max(dc, n - 1);
        let b = dc.max_ready_idx_upto(n - 1);
        assert(dc.virtual_machines@[b].wf());
        assert(dc.virtual_machines@[n - 1].wf());
        if rat_lt(dc.assigned(b), dc.mips(b), dc.assigned(n - 1), dc.mips(n - 1)) {
            assert forall|v: int| 0 <= v < n implies dc.ready_le(v, dc.max_ready_idx_upto(n)) by {
                if v < n - 1 {
                    assert(dc.ready_le(v, b));
                    assert(dc.virtual_machines@[v].wf());
                    lemma_rat_le_lt_trans(
                        dc.assigned(v),
                        dc.mips(v),
                        dc.assigned(b),
                        dc.mips(b),
                        dc.assigned(n - 1),
                        dc.mips(n - 1),
                    );
                } else {
                    assert(dc.ready_le(n - 1, n - 1));
                }
            }
        } else {
            assert forall|v: int| 0 <= v < n implies dc.ready_le(v, dc.max_ready_idx_upto(n)) by {
                if v < n - 1 {
                    assert(dc.ready_le(v, b));
                } else {
                    assert(dc.ready_le(n - 1, b));
                }
            }
        }
    }
}

/// With at least one recorded task the objective is strictly positive: the
/// makespan numerator is positive, so the throughput summand alone is at
/// least ten raw units, and the energy summand cannot be negative.
pub proof fn lemma_objective_positive(dc: DataCenter)
    requires
        dc.wf(),
        dc.task_count >= 1,
    ensures
        dc.objective_spec() > 0,
        dc.makespan_num() >= 1,
        dc.fleet_len() >= 1,
{
    let len = dc.fleet_len();
    if len == 0 {
        assert(dc.sum_assigned_upto(0) == 0);
        assert(false);
    }
    assert(!(forall|v: int| 0 <= v < len ==> dc.assigned(v) == 0)) by {
        if forall|v: int| 0 <= v < len ==> dc.assigned(v) == 0 {
            lemma_sum_assigned_zero(dc, len);
        }
    }
    let v0 = choose|v: int| !(0 <= v < len ==> dc.assigned(v) == 0);
    assert(0 <= v0 < len && dc.assigned(v0) >= 1);
    lemma_max_ready_is_max(dc, len);
    let mx = dc.max_ready_idx_upto(len);
    let mn = dc.makespan_num();
    let md = dc.makespan_den();
    assert(dc.virtual_machines@[mx].wf());
    assert(dc.virtual_machines@[v0].wf());
    assert(dc.ready_le(v0, mx));
    assert(mn >= 1) by (nonlinear_arith)
        requires
            dc.assigned(v0) * dc.mips(mx) <= mn * dc.mips(v0),
            dc.assigned(v0) >= 1,
            dc.mips(mx) >= 1,
            dc.mips(v0) >= 1,
            mn >= 0,
    ;
    lemma_assigned_le_sum(dc, mx, len);
    lemma_mul_upper_bound(
        dc.task_count as int,
        MAX_WORKLOAD_TASKS as int,
        MAX_TASK_MI as int,
        MAX_TASK_MI as int,
    );
    let num = dc.task_count * md * FX_SCALE;
    assert(10 * mn <= num) by (nonlinear_arith)
        requires
            mn <= dc.task_count * 1_000_000,
            md >= 1,
            dc.task_count >= 1,
            num == dc.task_count * md * FX_SCALE,
            FX_SCALE == 10_000_000i64,
    ;
    lemma_div_is_ordered(10 * mn, num, mn);
    lemma_div_multiples_vanish(10, mn);
    assert(num / mn >= 10);
    dc.lemma_energy_num_lower(len);
    let e = dc.energy_num();
    assert(e >= dc.total_millions_of_instructions * md >= 1) by (nonlinear_arith)
        requires
            e >= dc.sum_assigned_upto(len) * md,
            dc.total_millions_of_instructions == dc.sum_assigned_upto(len),
            dc.total_millions_of_instructions >= 1,
            md >= 1,
    ;
    assert(360 * dc.task_count * md * FX_SCALE >= 0) by (nonlinear_arith)
        requires
            dc.task_count >= 1,
            md >= 1,
            FX_SCALE == 10_000_000i64,
    ;
    lemma_div_pos_is_pos(360 * dc.task_count * md * FX_SCALE, e);
}

proof fn lemma_rat_eq_trans(n1: int, d1: int, n2: int, d2: int, n3: int, d3: int)
    by (nonlinear_arith)
    requires
        d1 > 0,
        d2 > 0,
        d3 > 0,
        rat_eq(n1, d1, n2, d2),
        rat_eq(n2, d2, n3, d3),
    ensures
        rat_eq(n1, d1, n3, d3),
{
}

/// Partial ready-time sums agree on data centers whose ledgers agree.
proof fn lemma_sum_assigned_congruence(a: DataCenter, b: DataCenter, n: int)
    requires
        forall|v: int| 0 <= v < n ==> a.assigned(v) == b.assigned(v),
    ensures
        a.sum_assigned_upto(n) == b.sum_assigned_upto(n),
    decreases n,
{
    if n > 0 {
        lemma_sum_assigned_congruence(a, b, n - 1);
    }
}

/// Updating one ledger entry moves the sum by exactly the delta.
proof fn lemma_sum_assigned_update(pre: DataCenter, post: DataCenter, idx: int, delta: int, n: int)
    requires
        0 <= idx < n,
        post.assigned(idx) == pre.assigned(idx) + delta,
        forall|v: int| 0 <= v < n && v != idx ==> post.assigned(v) == pre.assigned(v),
    ensures
        post.sum_assigned_upto(n) == pre.sum_assigned_upto(n) + delta,
    decreases n,
{
    if idx == n - 1 {
        lemma_sum_assigned_congruence(pre, post, n - 1);
    } else {
        lemma_sum_assigned_update(pre, post, idx, delta, n - 1);
    }
}

/// An all-zero ledger sums to zero.
proof fn lemma_sum_assigned_zero(dc: DataCenter, n: int)
    requires
        forall|v: int| 0 <= v < n ==> dc.assigned(v) == 0,
    ensures
        dc.sum_assigned_upto(n) == 0,
    decreases n,
{
    if n > 0 {
        lemma_sum_assigned_zero(dc, n - 1);
    }
}

/// Every ledger entry is at most the sum of all of them.
proof fn lemma_assigned_le_sum(dc: DataCenter, v: int, n: int)
    requires
        0 <= v < n,
        forall|k: int| 0 <= k < n ==> dc.assigned(k) >= 0,
    ensures
        dc.assigned(v) <= dc.sum_assigned_upto(n),
        dc.sum_assigned_upto(n) >= 0,
    decreases n,
{
    if v == n - 1 {
        lemma_sum_assigned_nonneg(dc, n - 1);
    } else {
        lemma_assigned_le_sum(dc, v, n - 1);
    }
}

proof fn lemma_sum_assigned_nonneg(dc: DataCenter, n: int)
    requires
        forall|k: int| 0 <= k < n ==> dc.assigned(k) >= 0,
    ensures
        dc.sum_assigned_upto(n) >= 0,
    decreases n,
{
    if n > 0 {
        lemma_sum_assigned_nonneg(dc, n - 1);
    }
}

/// A prefix sum is at most the full sum.
proof fn lemma_sum_assigned_prefix_le(dc: DataCenter, n: int, m: int)
    requires
        0 <= n <= m,
        forall|k: int| 0 <= k < m ==> dc.assigned(k) >= 0,
    ensures
        dc.sum_assigned_upto(n) <= dc.sum_assigned_upto(m),
    decreases m,
{
    if n < m {
        lemma_sum_assigned_prefix_le(dc, n, m - 1);
    }
}

} // verus!
