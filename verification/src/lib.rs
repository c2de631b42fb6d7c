//! A particle-swarm scheduler: searches for a task-to-virtual-machine
//! assignment that maximizes a combined throughput/energy objective over a
//! simulated compute fleet.
//!
//! Continuous quantities (velocities, the inertia weight, objectives) are
//! fixed-point numbers at scale `fixed::FX_SCALE`; the ready-time ledger of
//! the cost model is exact integer arithmetic. The scenario builders below
//! construct the reference workloads and fleets the scheduler is exercised
//! against.

pub mod fixed;
pub mod ids;
pub mod pso;
pub mod simulation;
pub mod utils;

use vstd::prelude::*;
use crate::ids::IdGenerator;
use crate::pso::pso_swarm::ConfigError;
use crate::pso::pso_swarm::PSOSwarm;
use crate::pso::pso_swarm::MAX_ITERATIONS;
use crate::pso::particle::MAPPING_THRESHOLD_RAW;
use crate::simulation::data_center::DataCenter;
use crate::simulation::task::Task;
use crate::simulation::virtual_machine::VirtualMachine;
use crate::simulation::workload::Workload;
use crate::utils::utilities::get_random_integer;

verus! {

/// Builds the swarm and runs the full iteration budget, handing back the
/// final swarm state: the global best mapping, objective, secondary
/// metrics, and per-particle histories.
pub fn run_pso_algorithm(workload: Workload, data_center: DataCenter) -> (r: Result<
    PSOSwarm,
    ConfigError,
>)
    requires
        workload.wf(),
        data_center.wf(),
    ensures
        r is Ok <==> workload.tasks@.len() >= 1 && data_center.fleet_len() >= 1,
        workload.tasks@.len() == 0 ==> r == Result::<PSOSwarm, ConfigError>::Err(
            ConfigError::EmptyWorkload,
        ),
        workload.tasks@.len() >= 1 && data_center.fleet_len() == 0 ==> r == Result::<
            PSOSwarm,
            ConfigError,
        >::Err(ConfigError::EmptyVirtualMachineFleet),
        r is Ok ==> (r->Ok_0).wf() && (r->Ok_0).workload.tasks@ == workload.tasks@ && (forall|
            i: int,
        |
            0 <= i < (r->Ok_0).particles@.len() ==> (#[trigger] (
            r->Ok_0).particles@[i]).objective_history@.len() == MAX_ITERATIONS) && (forall|
            p: (usize, usize),
        |
            #[trigger] (r->Ok_0).global_best_task_vm_mapping@.contains(p) <==> p.0 < (
            r->Ok_0).n_tasks() && p.1 < (r->Ok_0).n_vms() && (r->Ok_0).global_best_position.at(
                p.0 as int,
                p.1 as int,
            ) > MAPPING_THRESHOLD_RAW),
        r is Ok ==> (r->Ok_0).data_center.virtual_machines@ == data_center.virtual_machines@,
        r is Ok ==> (r->Ok_0).global_best_objective > 0,
{
    match PSOSwarm::new(workload, data_center) {
        Ok(mut swarm) => {
            swarm.run_pso_algorithm();
            Ok(swarm)
        },
        Err(e) => Err(e),
    }
}

/// Resets the id generator used for a workload's tasks, for isolation
/// between independent runs.
pub fn reset_workload_id_counter(gen: &mut IdGenerator)
    ensures
        final(gen).next_id == 0,
{
    gen.reset();
}

/// Resets the id generator used for a fleet's virtual machines, for
/// isolation between independent runs.
pub fn reset_data_center_id_counter(gen: &mut IdGenerator)
    ensures
        final(gen).next_id == 0,
{
    gen.reset();
}

/// One machine of 100 MIPS.
pub fn build_test1_data_center() -> (dc: DataCenter)
    ensures
        dc.wf(),
        dc.fleet_len() == 1,
        dc.task_count == 0,
        dc.mips(0) == 100,
        dc.active(0) == 500,
        dc.idle(0) == 250,
        dc.assigned(0) == 0,
        dc.virtual_machines@[0].id == 0,
{
    let mut gen = IdGenerator::new();
    let mut data_center = DataCenter::new(&mut gen);
    let mut vm_gen = IdGenerator::new();
    let vm = VirtualMachine::new(&mut vm_gen, 100, 500, 250);
    data_center.add_virtual_machine(vm);
    data_center
}

/// One task of 10 MI.
pub fn build_test1_workload() -> (w: Workload)
    ensures
        w.wf(),
        w.tasks@.len() == 1,
        w.tasks@[0].millions_of_instructions == 10,
{
    let mut gen = IdGenerator::new();
    let mut task_gen = IdGenerator::new();
    let mut workload = Workload::new(&mut gen);
    let task = Task::new(&mut task_gen, 10);
    workload.add_task(task);
    workload
}

/// Two machines of 50 and 100 MIPS.
pub fn build_test2_data_center() -> (dc: DataCenter)
    ensures
        dc.wf(),
        dc.fleet_len() == 2,
        dc.task_count == 0,
        dc.mips(0) == 50,
        dc.mips(1) == 100,
        dc.active(0) == 500,
        dc.idle(0) == 250,
        dc.active(1) == 500,
        dc.idle(1) == 250,
        dc.virtual_machines@[0].id == 0,
        dc.virtual_machines@[1].id == 1,
{
    let mut gen = IdGenerator::new();
    let mut data_center = DataCenter::new(&mut gen);
    let mut vm_gen = IdGenerator::new();
    let vm1 = VirtualMachine::new(&mut vm_gen, 50, 500, 250);
    let vm2 = VirtualMachine::new(&mut vm_gen, 100, 500, 250);
    data_center.add_virtual_machine(vm1);
    data_center.add_virtual_machine(vm2);
    data_center
}

pub fn build_test2_workload() -> (w: Workload)
    ensures
        w.wf(),
        w.tasks@.len() == 1,
{
    build_test1_workload()
}

/// 36 machines of 50 MIPS, with one (at a random position) of 100 MIPS.
pub fn build_test3_data_center() -> (dc: DataCenter)
    ensures
        dc.wf(),
        dc.fleet_len() == 36,
        dc.task_count == 0,
        exists|hi: int|
            0 <= hi < 36 && #[trigger] dc.mips(hi) == 100 && (forall|v: int|
                0 <= v < 36 && v != hi ==> dc.mips(v) == 50),
        forall|v: int| 0 <= v < 36 ==> #[trigger] dc.active(v) == 500 && dc.idle(v) == 250,
{
    let n_vms: usize = 36;
    let vm_mips_high: u32 = 100;
    let vm_mips_low: u32 = 50;
    let vm_high_id: usize = get_random_integer(0, n_vms);
    let mut gen = IdGenerator::new();
    let mut data_center = DataCenter::new(&mut gen);
    let mut vm_gen = IdGenerator::new();
    let mut i: usize = 0;
    while i < n_vms
        invariant
            data_center.wf(),
            data_center.fleet_len() == i,
            data_center.task_count == 0,
            n_vms == 36,
            vm_mips_high == 100,
            vm_mips_low == 50,
            vm_high_id < 36,
            i <= n_vms,
            vm_gen.next_id == i,
            forall|v: int| 0 <= v < i ==> (#[trigger] data_center.virtual_machines@[v]).id == v,
            forall|v: int|
                0 <= v < i && v == vm_high_id ==> #[trigger] data_center.mips(v) == 100,
            forall|v: int|
                0 <= v < i && v != vm_high_id ==> #[trigger] data_center.mips(v) == 50,
            forall|v: int|
                0 <= v < i ==> #[trigger] data_center.active(v) == 500 && data_center.idle(v)
                    == 250,
        decreases n_vms - i,
    {
        let mips = if i == vm_high_id {
            vm_mips_high
        } else {
            vm_mips_low
        };
        let vm = VirtualMachine::new(&mut vm_gen, mips, 500, 250);
        let ghost pre = data_center;
        data_center.add_virtual_machine(vm);
        proof {
            assert forall|v: int|
                0 <= v < i + 1 && v == vm_high_id implies #[trigger] data_center.mips(v)
                == 100 by {
                if v < i {
                    assert(data_center.virtual_machines@[v] == pre.virtual_machines@[v]);
                    assert(pre.mips(v) == 100);
                }
            }
            assert forall|v: int|
                0 <= v < i + 1 && v != vm_high_id implies #[trigger] data_center.mips(v)
                == 50 by {
                if v < i {
                    assert(data_center.virtual_machines@[v] == pre.virtual_machines@[v]);
                    assert(pre.mips(v) == 50);
                }
            }
            assert forall|v: int|
                0 <= v < i + 1 implies #[trigger] data_center.active(v) == 500
                && data_center.idle(v) == 250 by {
                if v < i {
                    assert(data_center.virtual_machines@[v] == pre.virtual_machines@[v]);
                    assert(pre.active(v) == 500);
                    assert(pre.idle(v) == 250);
                }
            }
        }
        i = i + 1;
    }
    proof {
        assert(data_center.mips(vm_high_id as int) == 100);
        assert forall|v: int|
            0 <= v < 36 && v != vm_high_id implies data_center.mips(v) == 50 by {}
    }
    data_center
}

pub fn build_test3_workload() -> (w: Workload)
    ensures
        w.wf(),
        w.tasks@.len() == 1,
{
    build_test1_workload()
}

/// 36 machines with uniformly random throughput from `[20, 100)` MIPS.
pub fn build_test4_data_center() -> (dc: DataCenter)
    ensures
        dc.wf(),
        dc.fleet_len() == 36,
        dc.task_count == 0,
        forall|v: int|
            0 <= v < 36 ==> 20 <= #[trigger] dc.mips(v) < 100 && dc.active(v) == 500 && dc.idle(
                v,
            ) == 250,
{
    let n_vms: usize = 36;
    let vm_mips_high: usize = 100;
    let vm_mips_low: usize = 20;
    let mut gen = IdGenerator::new();
    let mut data_center = DataCenter::new(&mut gen);
    let mut vm_gen = IdGenerator::new();
    let mut i: usize = 0;
    while i < n_vms
        invariant
            data_center.wf(),
            data_center.fleet_len() == i,
            data_center.task_count == 0,
            n_vms == 36,
            vm_mips_low == 20,
            vm_mips_high == 100,
            i <= n_vms,
            vm_gen.next_id == i,
            forall|v: int| 0 <= v < i ==> (#[trigger] data_center.virtual_machines@[v]).id == v,
            forall|v: int|
                0 <= v < i ==> 20 <= #[trigger] data_center.mips(v) < 100 && data_center.active(v)
                    == 500 && data_center.idle(v) == 250,
        decreases n_vms - i,
    {
        let mips = get_random_integer(vm_mips_low, vm_mips_high) as u32;
        let vm = VirtualMachine::new(&mut vm_gen, mips, 500, 250);
        let ghost pre = data_center;
        data_center.add_virtual_machine(vm);
        proof {
            assert forall|v: int|
                0 <= v < i + 1 implies 20 <= #[trigger] data_center.mips(v) < 100
                && data_center.active(v) == 500 && data_center.idle(v) == 250 by {
                if v < i {
                    assert(data_center.virtual_machines@[v] == pre.virtual_machines@[v]);
                    assert(20 <= pre.mips(v) < 100);
                }
            }
        }
        i = i + 1;
    }
    data_center
}

pub fn build_test4_workload() -> (w: Workload)
    ensures
        w.wf(),
        w.tasks@.len() == 1,
{
    build_test1_workload()
}

pub fn build_test5_data_center() -> (dc: DataCenter)
    ensures
        dc.wf(),
        dc.fleet_len() == 36,
        dc.task_count == 0,
        forall|v: int|
            0 <= v < 36 ==> 20 <= #[trigger] dc.mips(v) < 100 && dc.active(v) == 500 && dc.idle(
                v,
            ) == 250,
{
    build_test4_data_center()
}

/// Five tasks of 10 MI each.
pub fn build_test5_workload() -> (w: Workload)
    ensures
        w.wf(),
        w.tasks@.len() == 5,
        forall|i: int| 0 <= i < 5 ==> (#[trigger] w.tasks@[i]).millions_of_instructions == 10,
{
    let n_tasks: usize = 5;
    let task_mi: u32 = 10;
    let mut gen = IdGenerator::new();
    let mut task_gen = IdGenerator::new();
    let mut workload = Workload::new(&mut gen);
    let mut i: usize = 0;
    while i < n_tasks
        invariant
            workload.wf(),
            workload.tasks@.len() == i,
            n_tasks == 5,
            task_mi == 10,
            i <= n_tasks,
            task_gen.next_id == i,
            forall|k: int|
                0 <= k < i ==> (#[trigger] workload.tasks@[k]).millions_of_instructions == 10,
        decreases n_tasks - i,
    {
        let task = Task::new(&mut task_gen, task_mi);
        workload.add_task(task);
        i = i + 1;
    }
    workload
}

/// 100 machines with random throughput from `[1000, 5000)` MIPS and a
/// random active coefficient from `[200, 1000)` J/MI, idling at half of it.
pub fn build_test11_data_center() -> (dc: DataCenter)
    ensures
        dc.wf(),
        dc.fleet_len() == 100,
        dc.task_count == 0,
        forall|v: int|
            0 <= v < 100 ==> 1000 <= #[trigger] dc.mips(v) < 5000 && 200 <= dc.active(v) < 1000
                && dc.idle(v) == dc.active(v) / 2,
{
    let n_vms: usize = 100;
    let vm_mips_low: usize = 1000;
    let vm_mips_high: usize = 5000;
    let active_joules_low: usize = 200;
    let active_joules_high: usize = 1000;
    let mut gen = IdGenerator::new();
    let mut data_center = DataCenter::new(&mut gen);
    let mut vm_gen = IdGenerator::new();
    let mut i: usize = 0;
    while i < n_vms
        invariant
            data_center.wf(),
            data_center.fleet_len() == i,
            data_center.task_count == 0,
            n_vms == 100,
            vm_mips_low == 1000,
            vm_mips_high == 5000,
            active_joules_low == 200,
            active_joules_high == 1000,
            i <= n_vms,
            vm_gen.next_id == i,
            forall|v: int| 0 <= v < i ==> (#[trigger] data_center.virtual_machines@[v]).id == v,
            forall|v: int|
                0 <= v < i ==> 1000 <= #[trigger] data_center.mips(v) < 5000 && 200
                    <= data_center.active(v) < 1000 && data_center.idle(v) == data_center.active(
                    v,
                ) / 2,
        decreases n_vms - i,
    {
        let mips = get_random_integer(vm_mips_low, vm_mips_high) as u32;
        let active = get_random_integer(active_joules_low, active_joules_high) as u32;
        let idle = active / 2;
        let vm = VirtualMachine::new(&mut vm_gen, mips, active, idle);
        let ghost pre = data_center;
        data_center.add_virtual_machine(vm);
        proof {
            assert forall|v: int|
                0 <= v < i + 1 implies 1000 <= #[trigger] data_center.mips(v) < 5000 && 200
                <= data_center.active(v) < 1000 && data_center.idle(v) == data_center.active(v)
                / 2 by {
                if v < i {
                    assert(data_center.virtual_machines@[v] == pre.virtual_machines@[v]);
                    assert(1000 <= pre.mips(v) < 5000 && 200 <= pre.active(v) < 1000 && pre.idle(
                        v,
                    ) == pre.active(v) / 2);
                }
            }
        }
        i = i + 1;
    }
    data_center
}

/// 800 tasks with random sizes from `[1000, 4000)` MI.
pub fn build_test11_workload() -> (w: Workload)
    ensures
        w.wf(),
        w.tasks@.len() == 800,
        forall|i: int|
            0 <= i < 800 ==> 1000 <= (#[trigger] w.tasks@[i]).millions_of_instructions < 4000,
{
    let n_tasks: usize = 800;
    let task_mi_low: usize = 1000;
    let task_mi_high: usize = 4000;
    let mut gen = IdGenerator::new();
    let mut task_gen = IdGenerator::new();
    let mut workload = Workload::new(&mut gen);
    let mut i: usize = 0;
    while i < n_tasks
        invariant
            workload.wf(),
            workload.tasks@.len() == i,
            n_tasks == 800,
            task_mi_low == 1000,
            task_mi_high == 4000,
            i <= n_tasks,
            task_gen.next_id == i,
            forall|k: int|
                0 <= k < i ==> 1000 <= (#[trigger] workload.tasks@[k]).millions_of_instructions
                    < 4000,
        decreases n_tasks - i,
    {
        let mi = get_random_integer(task_mi_low, task_mi_high) as u32;
        let task = Task::new(&mut task_gen, mi);
        workload.add_task(task);
        i = i + 1;
    }
    workload
}

/// Two tasks of 500 and 600 MI.
pub fn build_basic_workload() -> (w: Workload)
    ensures
        w.wf(),
        w.tasks@.len() == 2,
        w.tasks@[0].millions_of_instructions == 500,
        w.tasks@[1].millions_of_instructions == 600,
{
    let mut gen = IdGenerator::new();
    let mut task_gen = IdGenerator::new();
    let t = Task::new(&mut task_gen, 500);
    let t2 = Task::new(&mut task_gen, 600);
    let mut wk = Workload::new(&mut gen);
    wk.add_task(t);
    wk.add_task(t2);
    wk
}

/// Two machines: 200 MIPS at 300 J/MI and 400 MIPS at 500 J/MI.
pub fn build_basic_data_center() -> (dc: DataCenter)
    ensures
        dc.wf(),
        dc.fleet_len() == 2,
        dc.task_count == 0,
        dc.mips(0) == 200,
        dc.active(0) == 300,
        dc.idle(0) == 150,
        dc.mips(1) == 400,
        dc.active(1) == 500,
        dc.idle(1) == 250,
        dc.assigned(0) == 0,
        dc.assigned(1) == 0,
        dc.virtual_machines@[0].id == 0,
        dc.virtual_machines@[1].id == 1,
{
    let mut gen = IdGenerator::new();
    let mut vm_gen = IdGenerator::new();
    let vm = VirtualMachine::new(&mut vm_gen, 200, 300, 150);
    let vm2 = VirtualMachine::new(&mut vm_gen, 400, 500, 250);
    let mut dc = DataCenter::new(&mut gen);
    dc.add_virtual_machine(vm);
    dc.add_virtual_machine(vm2);
    dc
}

} // verus!
