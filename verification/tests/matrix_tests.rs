use microbench::matrix::{
    benchmark, benchmark_with, corner, filled, multiply, BENCH_LEFT, BENCH_RIGHT, BENCH_SIZE,
};

fn identity(n: usize) -> Vec<Vec<i32>> {
    let mut m = filled(n, 0);
    for i in 0..n {
        m[i][i] = 1;
    }
    m
}

#[test]
fn filled_has_the_requested_shape_and_value() {
    let m = filled(4, -7);
    assert_eq!(m.len(), 4);
    for row in &m {
        assert_eq!(row, &vec![-7, -7, -7, -7]);
    }
}

#[test]
fn filled_with_dimension_zero_is_empty() {
    let m = filled(0, 9);
    assert!(m.is_empty());
}

#[test]
fn multiply_empty_matrices_gives_empty() {
    let a = filled(0, 1);
    let b = filled(0, 2);
    assert!(multiply(&a, &b).is_empty());
}

#[test]
fn multiply_two_by_two() {
    let a = vec![vec![1, 2], vec![3, 4]];
    let b = vec![vec![5, 6], vec![7, 8]];
    assert_eq!(multiply(&a, &b), vec![vec![19, 22], vec![43, 50]]);
    assert_eq!(multiply(&b, &a), vec![vec![23, 34], vec![31, 46]]);
}

#[test]
fn multiply_three_by_three_with_negative_entries() {
    let a = vec![vec![1, -2, 3], vec![0, 4, -5], vec![-6, 7, 8]];
    let b = vec![vec![9, 8, -7], vec![6, -5, 4], vec![-3, 2, 1]];
    let want = vec![vec![-12, 24, -12], vec![39, -30, 11], vec![-36, -67, 78]];
    assert_eq!(multiply(&a, &b), want);
}

#[test]
fn multiply_by_identity_changes_nothing() {
    let a = vec![vec![2, -3, 5], vec![7, 11, -13], vec![17, 19, 23]];
    let id = identity(3);
    assert_eq!(multiply(&a, &id), a);
    assert_eq!(multiply(&id, &a), a);
}

#[test]
fn multiply_leaves_its_arguments_alone() {
    let a = vec![vec![1, 2], vec![3, 4]];
    let b = vec![vec![0, 1], vec![1, 0]];
    let c = multiply(&a, &b);
    assert_eq!(a, vec![vec![1, 2], vec![3, 4]]);
    assert_eq!(b, vec![vec![0, 1], vec![1, 0]]);
    assert_eq!(c, vec![vec![2, 1], vec![4, 3]]);
}

#[test]
fn multiply_benchmark_inputs_every_entry_is_300() {
    let a = filled(150, 1);
    let b = filled(150, 2);
    let c = multiply(&a, &b);
    assert_eq!(c.len(), 150);
    for row in &c {
        assert_eq!(row.len(), 150);
        for entry in row {
            assert_eq!(*entry, 300);
        }
    }
    assert_eq!(c[149][149], 300);
}

#[test]
fn multiply_constant_matrices_gives_n_p_q_everywhere() {
    let cases: [(usize, i32, i32); 6] =
        [(1, 1, 2), (2, 3, 4), (5, -2, 7), (8, -3, -9), (6, 0, 11), (17, 1000, 1000)];
    for (n, p, q) in cases {
        let c = multiply(&filled(n, p), &filled(n, q));
        let want = i32::try_from(n).unwrap() * p * q;
        assert_eq!(c, filled(n, want), "n={} p={} q={}", n, p, q);
    }
}

#[test]
fn corner_reads_the_bottom_right_entry() {
    let m = vec![vec![1, 2, 3], vec![4, 5, 6], vec![7, 8, 9]];
    assert_eq!(corner(&m), 9);
    assert_eq!(corner(&vec![vec![-4]]), -4);
}

#[test]
fn benchmark_returns_300() {
    assert_eq!(BENCH_SIZE, 150);
    assert_eq!(BENCH_LEFT, 1);
    assert_eq!(BENCH_RIGHT, 2);
    assert_eq!(benchmark(), 300);
}

#[test]
fn benchmark_with_dimension_one_returns_two() {
    assert_eq!(benchmark_with(1, 1, 2), 2);
}

#[test]
fn benchmark_with_gives_n_p_q() {
    assert_eq!(benchmark_with(150, 1, 2), 300);
    assert_eq!(benchmark_with(7, -3, 5), -105);
    assert_eq!(benchmark_with(12, -4, -6), 288);
    assert_eq!(benchmark_with(9, 0, 5), 0);
}

#[test]
fn benchmark_with_reaches_both_ends_of_the_range() {
    assert_eq!(benchmark_with(1, i32::MIN, 1), i32::MIN);
    assert_eq!(benchmark_with(1, i32::MAX, 1), i32::MAX);
    assert_eq!(benchmark_with(2, 1073741823, 1), 2147483646);
    assert_eq!(benchmark_with(2, -1073741824, 1), i32::MIN);
}
