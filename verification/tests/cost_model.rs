//! Exercises the data-center cost model on concrete scenarios.

use psoscheduler::fixed::FX_SCALE;
use psoscheduler::ids::IdGenerator;
use psoscheduler::simulation::data_center::DataCenter;
use psoscheduler::simulation::task::Task;
use psoscheduler::simulation::virtual_machine::VirtualMachine;
use psoscheduler::build_test1_data_center;
use psoscheduler::build_test1_workload;
use psoscheduler::build_basic_data_center;
use psoscheduler::build_basic_workload;

#[test]
fn scenario_single_task_single_machine_makespan() {
    // 1 VM at 100 MIPS, 1 task of 10 MI: the makespan is 0.1 s.
    let mut dc = build_test1_data_center();
    let wl = build_test1_workload();
    dc.reset_virtual_machine_ready_time();
    dc.add_execution_time_to_virtual_machine(&wl.tasks[0], 0);
    assert_eq!(dc.compute_makespan(), FX_SCALE / 10);
    assert_eq!(dc.task_count, 1);
    assert_eq!(dc.total_millions_of_instructions, 10);
}

#[test]
fn scenario_single_task_single_machine_objective() {
    // throughput = 1 / 0.1 s = 10.0; energy = 10 MI * 500 J/MI = 5000 J,
    // i.e. 5000/3600 Wh per task, and 0.1 / (Wh per task) = 0.072.
    let mut dc = build_test1_data_center();
    let wl = build_test1_workload();
    dc.reset_virtual_machine_ready_time();
    dc.add_execution_time_to_virtual_machine(&wl.tasks[0], 0);
    assert_eq!(dc.compute_throughput(), 10 * FX_SCALE);
    let objective = dc.compute_objective();
    assert_eq!(objective, 100_720_000);
    assert!(objective > 0);
}

#[test]
fn scenario_single_task_single_machine_energy() {
    // 5000 J = 0.0013888.. kWh, rounded down at the 10^-7 scale.
    let mut dc = build_test1_data_center();
    let wl = build_test1_workload();
    dc.reset_virtual_machine_ready_time();
    dc.add_execution_time_to_virtual_machine(&wl.tasks[0], 0);
    assert_eq!(dc.compute_energy_consumption_kwh(), 13_888i128);
}

#[test]
fn makespan_zero_right_after_reset() {
    let mut dc = build_basic_data_center();
    let wl = build_basic_workload();
    dc.add_execution_time_to_virtual_machine(&wl.tasks[0], 0);
    dc.add_execution_time_to_virtual_machine(&wl.tasks[1], 1);
    assert!(dc.compute_makespan() > 0);
    dc.reset_virtual_machine_ready_time();
    assert_eq!(dc.compute_makespan(), 0);
    assert_eq!(dc.task_count, 0);
    assert_eq!(dc.total_millions_of_instructions, 0);
}

#[test]
fn objective_sentinel_when_nothing_recorded() {
    // No recorded tasks: the guarded read-outs return the sentinel 0
    // instead of dividing by zero.
    let dc = build_basic_data_center();
    assert_eq!(dc.compute_objective(), 0);
    assert_eq!(dc.compute_throughput(), 0);
    assert_eq!(dc.compute_makespan(), 0);
    assert_eq!(dc.compute_energy_consumption_kwh(), 0);
}

#[test]
fn objective_sentinel_on_empty_fleet() {
    let mut gen = IdGenerator::new();
    let dc = DataCenter::new(&mut gen);
    assert_eq!(dc.compute_objective(), 0);
    assert_eq!(dc.compute_makespan(), 0);
    assert_eq!(dc.compute_energy_consumption_kwh(), 0);
}

#[test]
fn min_eet_tie_resolves_to_lowest_vm_id() {
    // Two identical machines, equal ready times and execution times: the
    // tie goes to the machine with the lower id, on every call.
    let mut gen = IdGenerator::new();
    let mut vm_gen = IdGenerator::new();
    let mut dc = DataCenter::new(&mut gen);
    let vm0 = VirtualMachine::new(&mut vm_gen, 100, 500, 250);
    let vm1 = VirtualMachine::new(&mut vm_gen, 100, 500, 250);
    dc.add_virtual_machine(vm0);
    dc.add_virtual_machine(vm1);
    let mut task_gen = IdGenerator::new();
    let task = Task::new(&mut task_gen, 40);
    for _ in 0..10 {
        assert_eq!(dc.get_min_eet_virtual_machine(&task), 0);
    }
}

#[test]
fn min_eet_prefers_earlier_completion() {
    // After loading machine 0, machine 1 finishes the next task earlier.
    let mut gen = IdGenerator::new();
    let mut vm_gen = IdGenerator::new();
    let mut dc = DataCenter::new(&mut gen);
    let vm0 = VirtualMachine::new(&mut vm_gen, 100, 500, 250);
    let vm1 = VirtualMachine::new(&mut vm_gen, 100, 500, 250);
    dc.add_virtual_machine(vm0);
    dc.add_virtual_machine(vm1);
    let mut task_gen = IdGenerator::new();
    let heavy = Task::new(&mut task_gen, 900);
    let light = Task::new(&mut task_gen, 10);
    dc.add_execution_time_to_virtual_machine(&heavy, 0);
    assert_eq!(dc.get_min_eet_virtual_machine(&light), 1);
}

#[test]
fn min_eet_weighs_throughput() {
    // A faster machine wins even against an equally idle slow one.
    let mut dc = build_basic_data_center();
    let wl = build_basic_workload();
    assert_eq!(dc.get_min_eet_virtual_machine(&wl.tasks[0]), 1);
    // Loading the fast machine flips the choice once the slow one finishes
    // the next task earlier.
    let mut task_gen = IdGenerator::new();
    let heavy = Task::new(&mut task_gen, 4_000);
    dc.add_execution_time_to_virtual_machine(&heavy, 1);
    assert_eq!(dc.get_min_eet_virtual_machine(&wl.tasks[0]), 0);
}

#[test]
fn ready_time_accumulates_per_machine() {
    let mut dc = build_basic_data_center();
    let mut task_gen = IdGenerator::new();
    let t0 = Task::new(&mut task_gen, 100);
    let t1 = Task::new(&mut task_gen, 300);
    dc.add_execution_time_to_virtual_machine(&t0, 0);
    dc.add_execution_time_to_virtual_machine(&t1, 0);
    // 400 MI on a 200 MIPS machine: 2 seconds.
    assert_eq!(dc.compute_makespan(), 2 * FX_SCALE);
    assert_eq!(dc.task_count, 2);
    assert_eq!(dc.total_millions_of_instructions, 400);
}

#[test]
fn largest_task_on_slowest_machine() {
    // A task at the size cap on a 1 MIPS machine: one million seconds,
    // exactly representable in fixed point.
    let mut gen = IdGenerator::new();
    let mut vm_gen = IdGenerator::new();
    let mut dc = DataCenter::new(&mut gen);
    let vm = VirtualMachine::new(&mut vm_gen, 1, 1, 0);
    dc.add_virtual_machine(vm);
    let mut task_gen = IdGenerator::new();
    let task = Task::new(&mut task_gen, 1_000_000);
    dc.add_execution_time_to_virtual_machine(&task, 0);
    assert_eq!(dc.compute_makespan(), 1_000_000 * FX_SCALE);
    assert!(dc.compute_objective() > 0);
}
