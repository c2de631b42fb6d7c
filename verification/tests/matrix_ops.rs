//! The fixed-point matrix utilities.

use psoscheduler::fixed::FX_SCALE;
use psoscheduler::utils::matrix::Matrix;
use psoscheduler::utils::matrix::NEAR_ZERO_RAW;

#[test]
fn zeros_and_set_and_get() {
    let mut m = Matrix::zeros(2, 3);
    assert_eq!(m.n_rows(), 2);
    assert_eq!(m.n_cols(), 3);
    for i in 0..2 {
        for j in 0..3 {
            assert_eq!(m.get(i, j), 0);
        }
    }
    m.set(1, 2, 42);
    assert_eq!(m.get(1, 2), 42);
    assert_eq!(m.get(0, 2), 0);
}

#[test]
fn new_takes_row_data() {
    let m = Matrix::new(vec![vec![1, 2, 3], vec![4, 5, 6]]);
    assert_eq!(m.n_rows(), 2);
    assert_eq!(m.n_cols(), 3);
    assert_eq!(m.get(0, 1), 2);
    assert_eq!(m.get(1, 0), 4);
}

#[test]
fn mul_scales_cells_in_fixed_point() {
    // 2.0 * 0.5 = 1.0; -3.0 * 0.5 = -1.5.
    let mut m = Matrix::new(vec![vec![2 * FX_SCALE, -3 * FX_SCALE]]);
    m.mul(FX_SCALE / 2);
    assert_eq!(m.get(0, 0), FX_SCALE);
    assert_eq!(m.get(0, 1), -FX_SCALE - FX_SCALE / 2);
}

#[test]
fn mul_truncates_towards_zero() {
    // 0.0000003 * 0.5 = 0.00000015, which truncates to 0.0000001 raw; the
    // negated product truncates towards zero as well.
    let mut m = Matrix::new(vec![vec![3, -3]]);
    m.mul(FX_SCALE / 2);
    assert_eq!(m.get(0, 0), 1);
    assert_eq!(m.get(0, 1), -1);
}

#[test]
fn add_and_sub_are_cellwise() {
    let mut m = Matrix::new(vec![vec![10, 20], vec![30, 40]]);
    let other = Matrix::new(vec![vec![1, 2], vec![3, 4]]);
    m.add(&other);
    assert_eq!(m.get(0, 0), 11);
    assert_eq!(m.get(1, 1), 44);
    m.sub(&other);
    m.sub(&other);
    assert_eq!(m.get(0, 0), 9);
    assert_eq!(m.get(1, 0), 27);
}

#[test]
fn zero_out_clears_every_cell() {
    let mut m = Matrix::new(vec![vec![7, -7], vec![9, -9]]);
    m.zero_out();
    for i in 0..2 {
        for j in 0..2 {
            assert_eq!(m.get(i, j), 0);
        }
    }
}

#[test]
fn enforce_elementwise_bound_rerandomizes() {
    let bound = 10 * FX_SCALE;
    let mut m = Matrix::new(vec![vec![5, 25 * FX_SCALE, -12 * FX_SCALE, bound]]);
    m.enforce_elementwise_bound(bound);
    // A small cell is untouched; cells at or beyond the bound are replaced
    // by samples from [0, bound).
    assert_eq!(m.get(0, 0), 5);
    for j in 1..4 {
        let v = m.get(0, j);
        assert!(v >= 0 && v < bound);
    }
}

#[test]
fn maximum_column_ties_go_left() {
    let m = Matrix::new(vec![vec![3, 9, 9, 1], vec![-5, -5, -7, -7]]);
    assert_eq!(m.get_index_of_maximum_col_for_row(0), 1);
    assert_eq!(m.get_index_of_maximum_col_for_row(1), 0);
}

#[test]
fn first_non_zero_column_skips_near_zero_cells() {
    let m = Matrix::new(vec![vec![0, NEAR_ZERO_RAW, 2_000, FX_SCALE]]);
    // 0 and the near-zero magnitude are skipped; 0.0002 is the first hit.
    assert_eq!(m.get_index_of_first_non_zero_column_for_row(0), 2);
    let neg = Matrix::new(vec![vec![-900, -2_000]]);
    assert_eq!(neg.get_index_of_first_non_zero_column_for_row(0), 1);
}

#[test]
fn random_velocity_init_samples_in_range() {
    let m = Matrix::random_velocity_init(4, 5, 0, FX_SCALE);
    for i in 0..4 {
        for j in 0..5 {
            let v = m.get(i, j);
            assert!(0 <= v && v < FX_SCALE);
        }
    }
}

#[test]
fn random_position_init_rows_are_one_hot() {
    let m = Matrix::random_position_init(6, 4);
    for i in 0..6 {
        let mut ones = 0;
        let mut sum: i64 = 0;
        for j in 0..4 {
            let v = m.get(i, j);
            sum += v;
            if v == FX_SCALE {
                ones += 1;
            } else {
                assert_eq!(v, 0);
            }
        }
        assert_eq!(ones, 1);
        assert_eq!(sum, FX_SCALE);
    }
}

#[test]
fn duplicate_copies_every_cell() {
    let m = Matrix::new(vec![vec![1, -2], vec![3, -4]]);
    let copy = m.duplicate();
    assert_eq!(copy.n_rows(), 2);
    assert_eq!(copy.n_cols(), 2);
    for i in 0..2 {
        for j in 0..2 {
            assert_eq!(copy.get(i, j), m.get(i, j));
        }
    }
}

#[test]
fn cells_above_lists_strictly_larger_cells() {
    let m = Matrix::new(vec![vec![5, 6], vec![7, 4]]);
    let cells = m.cells_above(5);
    assert!(cells.contains(&(0, 1)));
    assert!(cells.contains(&(1, 0)));
    assert_eq!(cells.len(), 2);
}
