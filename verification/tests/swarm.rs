//! End-to-end swarm runs and the particle update rules.

use psoscheduler::fixed::FX_SCALE;
use psoscheduler::ids::IdGenerator;
use psoscheduler::pso::particle::blend_velocity_cell;
use psoscheduler::pso::particle::rebound_velocity_cell;
use psoscheduler::pso::particle::Particle;
use psoscheduler::pso::particle::MAX_ABS_VELOCITY_RAW;
use psoscheduler::pso::pso_swarm::ConfigError;
use psoscheduler::pso::pso_swarm::PSOSwarm;
use psoscheduler::simulation::data_center::DataCenter;
use psoscheduler::simulation::workload::Workload;
use psoscheduler::utils::matrix::Matrix;
use psoscheduler::build_basic_data_center;
use psoscheduler::build_basic_workload;
use psoscheduler::build_test1_data_center;
use psoscheduler::build_test1_workload;
use psoscheduler::run_pso_algorithm;

#[test]
fn scenario_a_full_run_maps_task_to_the_only_machine() {
    // 1 VM (100 MIPS), 1 task (10 MI): the final mapping assigns the task
    // to that machine and the objective is finite and positive.
    let swarm = run_pso_algorithm(build_test1_workload(), build_test1_data_center()).unwrap();
    assert_eq!(swarm.global_best_task_vm_mapping, vec![(0usize, 0usize)]);
    // Every assignment is the same here, so the best objective is exact.
    assert_eq!(swarm.global_best_objective, 100_720_000);
    assert!(swarm.global_best_objective > 0);
}

#[test]
fn scenario_b_full_run_beats_arrival_order_greedy() {
    // 2 tasks (500, 600 MI), 2 VMs (200, 400 MIPS): a full run maps both
    // tasks and strictly beats the naive greedy assignment that takes the
    // tasks in arrival order (which stacks both on the fast machine).
    let wl = build_basic_workload();
    let mut greedy_dc = build_basic_data_center();
    greedy_dc.reset_virtual_machine_ready_time();
    for task in wl.tasks.iter() {
        let vm = greedy_dc.get_min_eet_virtual_machine(task);
        greedy_dc.add_execution_time_to_virtual_machine(task, vm);
    }
    let naive_objective = greedy_dc.compute_objective();
    assert_eq!(naive_objective, 7_284_110);

    let mut swarm = PSOSwarm::new(build_basic_workload(), build_basic_data_center()).unwrap();
    swarm.run_pso_algorithm();
    let mapping = &swarm.global_best_task_vm_mapping;
    assert_eq!(mapping.len(), 2);
    let tasks_mapped: Vec<usize> = mapping.iter().map(|p| p.0).collect();
    assert!(tasks_mapped.contains(&0));
    assert!(tasks_mapped.contains(&1));
    assert!(swarm.global_best_objective > naive_objective);
    // The best of the four possible assignments (600 MI on the fast
    // machine, 500 MI on the slow one) scores 0.8 + 0.0013090.
    assert!(swarm.global_best_objective <= 8_013_090);
}

#[test]
fn global_best_is_non_decreasing() {
    let mut swarm = PSOSwarm::new(build_basic_workload(), build_basic_data_center()).unwrap();
    let mut previous = swarm.global_best_objective;
    swarm.find_global_best();
    assert!(swarm.global_best_objective >= previous);
    previous = swarm.global_best_objective;
    swarm.run_pso_algorithm();
    assert!(swarm.global_best_objective >= previous);
    previous = swarm.global_best_objective;
    swarm.find_global_best();
    assert!(swarm.global_best_objective >= previous);
}

#[test]
fn empty_workload_is_rejected() {
    let mut gen = IdGenerator::new();
    let workload = Workload::new(&mut gen);
    let dc = build_basic_data_center();
    assert!(matches!(PSOSwarm::new(workload, dc), Err(ConfigError::EmptyWorkload)));
}

#[test]
fn empty_fleet_is_rejected() {
    let workload = build_basic_workload();
    let mut gen = IdGenerator::new();
    let dc = DataCenter::new(&mut gen);
    assert!(matches!(PSOSwarm::new(workload, dc), Err(ConfigError::EmptyVirtualMachineFleet)));
}

#[test]
fn run_pso_algorithm_reports_config_errors() {
    let mut gen = IdGenerator::new();
    let workload = Workload::new(&mut gen);
    assert!(matches!(
        run_pso_algorithm(workload, build_basic_data_center()),
        Err(ConfigError::EmptyWorkload)
    ));
    let mut gen2 = IdGenerator::new();
    let dc = DataCenter::new(&mut gen2);
    assert!(matches!(
        run_pso_algorithm(build_basic_workload(), dc),
        Err(ConfigError::EmptyVirtualMachineFleet)
    ));
}

#[test]
fn objective_history_grid_is_full() {
    let mut swarm = PSOSwarm::new(build_basic_workload(), build_basic_data_center()).unwrap();
    swarm.run_pso_algorithm();
    let grid = swarm.get_particle_objective_history();
    assert_eq!(grid.len(), 20);
    for row in grid.iter() {
        assert_eq!(row.len(), 200);
        // The history tracks the best-so-far objective, which never drops.
        for pair in row.windows(2) {
            assert!(pair[1] >= pair[0]);
        }
        assert!(row[0] > 0);
    }
}

#[test]
fn construction_records_the_whole_workload() {
    // After building a particle, the shared context holds exactly the
    // workload's instructions, distributed as the position says.
    let wl = build_basic_workload();
    let mut dc = build_basic_data_center();
    let mut gen = IdGenerator::new();
    let p = Particle::new(&mut gen, &wl, &mut dc);
    assert_eq!(dc.task_count, 2);
    assert_eq!(dc.total_millions_of_instructions, 1100);
    for v in 0..2usize {
        let mut expected: u64 = 0;
        for r in 0..2usize {
            if p.position.get(r, v) == FX_SCALE {
                expected += wl.tasks[r].millions_of_instructions as u64;
            }
        }
        assert_eq!(dc.virtual_machine_assigned_mi[v], expected);
    }
}

#[test]
fn success_ratio_stays_in_its_floored_range() {
    let mut swarm = PSOSwarm::new(build_basic_workload(), build_basic_data_center()).unwrap();
    assert_eq!(swarm.p_s, FX_SCALE);
    assert_eq!(swarm.w, 0);
    swarm.run_pso_algorithm();
    assert!(FX_SCALE / 20 <= swarm.p_s && swarm.p_s <= FX_SCALE);
    assert!(0 <= swarm.w && swarm.w <= 20 * FX_SCALE);
}

#[test]
fn constructed_particle_rows_sum_to_one() {
    // Every position row of a freshly constructed particle is one-hot:
    // it sums to exactly the fixed-point one.
    let wl = build_basic_workload();
    let mut dc = build_basic_data_center();
    let mut gen = IdGenerator::new();
    let p = Particle::new(&mut gen, &wl, &mut dc);
    for i in 0..p.position.n_rows() {
        let mut sum: i64 = 0;
        for j in 0..p.position.n_cols() {
            sum += p.position.get(i, j);
        }
        assert_eq!(sum, FX_SCALE);
    }
}

#[test]
fn updated_particle_rows_sum_to_one() {
    let wl = build_basic_workload();
    let mut dc = build_basic_data_center();
    let mut gen = IdGenerator::new();
    let mut p = Particle::new(&mut gen, &wl, &mut dc);
    let gbp = p.position.duplicate();
    for _ in 0..5 {
        p.run_iteration(&wl, &mut dc, 5_000_000, &gbp);
        for i in 0..p.position.n_rows() {
            let mut sum: i64 = 0;
            for j in 0..p.position.n_cols() {
                sum += p.position.get(i, j);
            }
            assert_eq!(sum, FX_SCALE);
        }
    }
}

#[test]
fn particle_best_objective_never_drops() {
    let wl = build_basic_workload();
    let mut dc = build_basic_data_center();
    let mut gen = IdGenerator::new();
    let mut p = Particle::new(&mut gen, &wl, &mut dc);
    let gbp = p.position.duplicate();
    let mut best = p.personal_best_objective;
    for _ in 0..20 {
        let improved = p.run_iteration(&wl, &mut dc, 5_000_000, &gbp);
        assert!(p.personal_best_objective >= best);
        if improved {
            assert!(p.personal_best_objective > best);
        } else {
            assert_eq!(p.personal_best_objective, best);
        }
        best = p.personal_best_objective;
        assert_eq!(*p.objective_history.last().unwrap(), best);
    }
    assert_eq!(p.objective_history.len(), 20);
}

#[test]
fn velocity_rebound_replaces_out_of_bound_cells() {
    // Cells beyond the bound are re-randomized into [0, 10), not clamped;
    // cells within the bound pass through unchanged.
    for _ in 0..50 {
        let high = rebound_velocity_cell(15 * FX_SCALE);
        assert!(high >= 0 && high < MAX_ABS_VELOCITY_RAW);
        let low = rebound_velocity_cell(-15 * FX_SCALE);
        assert!(low >= 0 && low < MAX_ABS_VELOCITY_RAW);
    }
    assert_eq!(rebound_velocity_cell(MAX_ABS_VELOCITY_RAW), MAX_ABS_VELOCITY_RAW);
    assert_eq!(rebound_velocity_cell(-MAX_ABS_VELOCITY_RAW), -MAX_ABS_VELOCITY_RAW);
    assert_eq!(rebound_velocity_cell(-5_000_000), -5_000_000);
    assert_eq!(rebound_velocity_cell(0), 0);
}

#[test]
fn velocity_blend_matches_the_update_rule() {
    // 0.5 * 10.0 + 2.0 * (1 - 0) + 1.0 * (0 - 0) = 7.0.
    assert_eq!(
        blend_velocity_cell(
            10 * FX_SCALE,
            FX_SCALE / 2,
            FX_SCALE,
            0,
            0,
            2 * FX_SCALE,
            FX_SCALE
        ),
        7 * FX_SCALE
    );
    // Truncation towards zero: 0.0000003 * 0.5 contributes one raw unit;
    // both attraction terms pull a full -1.0 each.
    assert_eq!(
        blend_velocity_cell(3, FX_SCALE / 2, 0, FX_SCALE, 0, FX_SCALE, FX_SCALE),
        1 - 2 * FX_SCALE
    );
    // A zero weight and equal positions leave the cell at rest.
    assert_eq!(blend_velocity_cell(5_000_000, 0, FX_SCALE, FX_SCALE, FX_SCALE, FX_SCALE, FX_SCALE), 0);
}

#[test]
fn velocity_update_keeps_cells_within_bound() {
    let wl = build_basic_workload();
    let mut dc = build_basic_data_center();
    let mut gen = IdGenerator::new();
    let mut p = Particle::new(&mut gen, &wl, &mut dc);
    let gbp = p.position.duplicate();
    // A large inertia weight pushes cells out of range, which must trigger
    // re-randomization into the bound.
    for _ in 0..10 {
        p.update_velocity(180_000_000, &gbp);
        for i in 0..p.velocity.n_rows() {
            for j in 0..p.velocity.n_cols() {
                let v = p.velocity.get(i, j);
                assert!(-MAX_ABS_VELOCITY_RAW <= v && v <= MAX_ABS_VELOCITY_RAW);
            }
        }
    }
}

#[test]
fn mapping_threshold_is_strict_at_nine_tenths() {
    // A cell of exactly 0.9 is excluded; one raw unit above it (0.9000001)
    // is included.
    let exactly = 9_000_000i64;
    let just_above = 9_000_001i64;
    let position = Matrix::new(vec![vec![exactly, 0], vec![just_above, 0], vec![0, FX_SCALE]]);
    let mut p = Particle {
        id: 0,
        position,
        velocity: Matrix::zeros(3, 2),
        task_vm_mapping: Vec::new(),
        personal_best_position: Matrix::zeros(3, 2),
        personal_best_objective: 0,
        personal_best_throughput: 0,
        personal_best_energy: 0,
        objective_history: Vec::new(),
    };
    p.update_task_vm_mapping();
    assert!(!p.task_vm_mapping.contains(&(0, 0)));
    assert!(p.task_vm_mapping.contains(&(1, 0)));
    assert!(p.task_vm_mapping.contains(&(2, 1)));
    assert_eq!(p.task_vm_mapping.len(), 2);
}

#[test]
fn swarm_mapping_uses_the_same_threshold() {
    let mut swarm = PSOSwarm::new(build_test1_workload(), build_test1_data_center()).unwrap();
    swarm.update_task_vm_mapping();
    // The seeded global best position is one-hot, so its single cell (the
    // fixed-point one) clears the 0.9 threshold.
    assert_eq!(swarm.global_best_task_vm_mapping, vec![(0usize, 0usize)]);
}
