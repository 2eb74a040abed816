use delve::engine::{distribute_rows_over_threads, partition_start_rows};

#[test]
fn rows_split_round_robin_with_remainder_first() {
    assert_eq!(distribute_rows_over_threads(10, 4), vec![3, 3, 2, 2]);
}

#[test]
fn rows_split_evenly() {
    assert_eq!(distribute_rows_over_threads(12, 3), vec![4, 4, 4]);
}

#[test]
fn fewer_rows_than_threads_gives_one_row_each() {
    assert_eq!(distribute_rows_over_threads(3, 8), vec![1, 1, 1]);
}

#[test]
fn no_rows_gives_one_empty_partition() {
    assert_eq!(distribute_rows_over_threads(0, 8), vec![0]);
}

#[test]
fn zero_threads_still_gives_one_partition() {
    assert_eq!(distribute_rows_over_threads(5, 0), vec![5]);
}

#[test]
fn all_rows_are_assigned_and_balanced() {
    for rows in [0u16, 1, 7, 50, 333, 1000] {
        for threads in [0u16, 1, 2, 3, 8, 16] {
            let counts = distribute_rows_over_threads(rows, threads);
            let total: u32 = counts.iter().map(|&c| c as u32).sum();
            assert_eq!(total, rows as u32);
            let max = *counts.iter().max().unwrap();
            let min = *counts.iter().min().unwrap();
            assert!(max - min <= 1);
            assert!(counts.windows(2).all(|w| w[0] >= w[1]));
            if rows > 0 {
                assert!(min >= 1);
            }
        }
    }
}

#[test]
fn large_row_count() {
    let counts = distribute_rows_over_threads(u16::MAX, 7);
    assert_eq!(counts.len(), 7);
    assert_eq!(counts.iter().map(|&c| c as u32).sum::<u32>(), u16::MAX as u32);
}

#[test]
fn start_rows_are_running_totals() {
    assert_eq!(partition_start_rows(&vec![3, 3, 2, 2]), vec![0, 3, 6, 8]);
    assert_eq!(partition_start_rows(&vec![]), Vec::<u16>::new());
    let counts = distribute_rows_over_threads(50, 8);
    let starts = partition_start_rows(&counts);
    let last = counts.len() - 1;
    assert_eq!(starts[last] + counts[last], 50);
}
