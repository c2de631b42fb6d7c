//! The random-sampling primitives, the id generators, the workload sort,
//! and the scenario builders.

use psoscheduler::fixed::FX_SCALE;
use psoscheduler::ids::IdGenerator;
use psoscheduler::simulation::task::Task;
use psoscheduler::simulation::workload::Workload;
use psoscheduler::utils::utilities::get_random_float;
use psoscheduler::utils::utilities::get_random_integer;
use psoscheduler::build_basic_data_center;
use psoscheduler::build_basic_workload;
use psoscheduler::build_test11_data_center;
use psoscheduler::build_test11_workload;
use psoscheduler::build_test1_data_center;
use psoscheduler::build_test1_workload;
use psoscheduler::build_test2_data_center;
use psoscheduler::build_test2_workload;
use psoscheduler::build_test3_data_center;
use psoscheduler::build_test3_workload;
use psoscheduler::build_test4_data_center;
use psoscheduler::build_test4_workload;
use psoscheduler::build_test5_data_center;
use psoscheduler::build_test5_workload;
use psoscheduler::reset_data_center_id_counter;
use psoscheduler::reset_workload_id_counter;

#[test]
fn random_integer_stays_in_range() {
    for _ in 0..200 {
        let r = get_random_integer(3, 10);
        assert!(3 <= r && r < 10);
    }
    // A one-element range can only produce its single value.
    assert_eq!(get_random_integer(5, 6), 5);
}

#[test]
fn random_integer_empty_range_yields_zero() {
    assert_eq!(get_random_integer(7, 7), 0);
    assert_eq!(get_random_integer(9, 2), 0);
}

#[test]
fn random_integer_covers_the_range() {
    let mut saw_zero = false;
    let mut saw_one = false;
    for _ in 0..300 {
        match get_random_integer(0, 2) {
            0 => saw_zero = true,
            1 => saw_one = true,
            _ => panic!("sample out of range"),
        }
    }
    assert!(saw_zero && saw_one);
}

#[test]
fn random_float_stays_in_range() {
    for _ in 0..200 {
        let r = get_random_float(0, FX_SCALE);
        assert!(0 <= r && r < FX_SCALE);
    }
    assert_eq!(get_random_float(FX_SCALE, FX_SCALE), 0);
    assert_eq!(get_random_float(FX_SCALE, 0), 0);
}

#[test]
fn id_generator_hands_out_dense_ids() {
    let mut gen = IdGenerator::new();
    assert_eq!(gen.next(), 0);
    assert_eq!(gen.next(), 1);
    assert_eq!(gen.next(), 2);
    gen.reset();
    assert_eq!(gen.next(), 0);
}

#[test]
fn reset_counters_start_ids_over() {
    let mut task_gen = IdGenerator::new();
    let t0 = Task::new(&mut task_gen, 10);
    assert_eq!(t0.id, 0);
    reset_workload_id_counter(&mut task_gen);
    let t1 = Task::new(&mut task_gen, 10);
    assert_eq!(t1.id, 0);
    let mut vm_gen = IdGenerator::new();
    vm_gen.next();
    vm_gen.next();
    reset_data_center_id_counter(&mut vm_gen);
    assert_eq!(vm_gen.next_id, 0);
}

#[test]
fn add_task_binds_the_workload_id() {
    let mut gen = IdGenerator::new();
    gen.next();
    let mut task_gen = IdGenerator::new();
    let mut wl = Workload::new(&mut gen);
    let t = Task::new(&mut task_gen, 10);
    assert_eq!(t.workload_id, 0);
    wl.add_task(t);
    assert_eq!(wl.tasks[0].workload_id, wl.id);
    assert_eq!(wl.id, 1);
}

#[test]
fn sorted_tasks_are_descending_largest_first() {
    let mut gen = IdGenerator::new();
    let mut task_gen = IdGenerator::new();
    let mut wl = Workload::new(&mut gen);
    for mi in [10u32, 50, 20, 50, 5] {
        let t = Task::new(&mut task_gen, mi);
        wl.add_task(t);
    }
    let sorted = wl.get_sorted_tasks();
    let sizes: Vec<u32> = sorted.iter().map(|t| t.millions_of_instructions).collect();
    assert_eq!(sizes, vec![50, 50, 20, 10, 5]);
    // The sorted view is a rearrangement: all five distinct ids appear.
    let mut ids: Vec<usize> = sorted.iter().map(|t| t.id).collect();
    ids.sort();
    assert_eq!(ids, vec![0, 1, 2, 3, 4]);
}

#[test]
fn basic_builders_match_their_reference_configuration() {
    let wl = build_basic_workload();
    assert_eq!(wl.tasks.len(), 2);
    assert_eq!(wl.tasks[0].millions_of_instructions, 500);
    assert_eq!(wl.tasks[1].millions_of_instructions, 600);
    assert_eq!(wl.tasks[0].id, 0);
    assert_eq!(wl.tasks[1].id, 1);
    let dc = build_basic_data_center();
    assert_eq!(dc.virtual_machines.len(), 2);
    assert_eq!(dc.virtual_machines[0].millions_of_instructions_per_second, 200);
    assert_eq!(dc.virtual_machines[0].active_state_joules_per_million_instructions, 300);
    assert_eq!(
        dc.virtual_machines[0].get_idle_state_joules_per_million_instructions(),
        150
    );
    assert_eq!(dc.virtual_machines[1].millions_of_instructions_per_second, 400);
    assert_eq!(dc.virtual_machines[1].active_state_joules_per_million_instructions, 500);
}

#[test]
fn numbered_builders_match_their_reference_shapes() {
    assert_eq!(build_test1_data_center().virtual_machines.len(), 1);
    assert_eq!(build_test1_workload().tasks.len(), 1);
    assert_eq!(build_test1_workload().tasks[0].millions_of_instructions, 10);
    let dc2 = build_test2_data_center();
    assert_eq!(dc2.virtual_machines.len(), 2);
    assert_eq!(dc2.virtual_machines[0].millions_of_instructions_per_second, 50);
    assert_eq!(dc2.virtual_machines[1].millions_of_instructions_per_second, 100);
    assert_eq!(build_test2_workload().tasks.len(), 1);
    let dc3 = build_test3_data_center();
    assert_eq!(dc3.virtual_machines.len(), 36);
    let fast = dc3
        .virtual_machines
        .iter()
        .filter(|vm| vm.millions_of_instructions_per_second == 100)
        .count();
    assert_eq!(fast, 1);
    assert_eq!(build_test3_workload().tasks.len(), 1);
    let dc4 = build_test4_data_center();
    assert_eq!(dc4.virtual_machines.len(), 36);
    for vm in dc4.virtual_machines.iter() {
        assert!(20 <= vm.millions_of_instructions_per_second);
        assert!(vm.millions_of_instructions_per_second < 100);
    }
    assert_eq!(build_test4_workload().tasks.len(), 1);
    assert_eq!(build_test5_data_center().virtual_machines.len(), 36);
    let wl5 = build_test5_workload();
    assert_eq!(wl5.tasks.len(), 5);
    for t in wl5.tasks.iter() {
        assert_eq!(t.millions_of_instructions, 10);
    }
}

#[test]
fn test11_builders_sample_the_documented_ranges() {
    let dc = build_test11_data_center();
    assert_eq!(dc.virtual_machines.len(), 100);
    for vm in dc.virtual_machines.iter() {
        assert!(1000 <= vm.millions_of_instructions_per_second);
        assert!(vm.millions_of_instructions_per_second < 5000);
        assert!(200 <= vm.active_state_joules_per_million_instructions);
        assert!(vm.active_state_joules_per_million_instructions < 1000);
        assert!(
            vm.idle_state_joules_per_million_instructions
                <= vm.active_state_joules_per_million_instructions
        );
    }
    let wl = build_test11_workload();
    assert_eq!(wl.tasks.len(), 800);
    for (i, t) in wl.tasks.iter().enumerate() {
        assert_eq!(t.id, i);
        assert!(1000 <= t.millions_of_instructions);
        assert!(t.millions_of_instructions < 4000);
    }
}
