use heart::points::{
    can_run, percentage_points, power_of_ten, transaction_shape_points, transaction_size_points,
    SweepPoint,
};

fn point(write_percentage: i32, transaction_size: usize, transaction_count: usize) -> SweepPoint {
    SweepPoint { write_percentage, transaction_size, transaction_count }
}

#[test]
fn powers_of_ten() {
    assert_eq!(power_of_ten(0), 1);
    assert_eq!(power_of_ten(1), 10);
    assert_eq!(power_of_ten(2), 100);
    assert_eq!(power_of_ten(7), 10_000_000);
    assert_eq!(power_of_ten(9), 1_000_000_000);
}

#[test]
fn percentage_sweep_has_ten_points() {
    let points = percentage_points(100000, 100);
    let expected: Vec<SweepPoint> = (0..10).map(|i| point(10 * i, 100000, 100)).collect();
    assert_eq!(points, expected);
}

#[test]
fn percentage_sweep_keeps_the_configured_shape() {
    for (size, count) in [(1, 1), (7, 3), (0, 0), (12345, 678)] {
        let points = percentage_points(size, count);
        assert_eq!(points.len(), 10);
        for (i, p) in points.iter().enumerate() {
            assert_eq!(*p, point(10 * i as i32, size, count));
        }
    }
}

#[test]
fn shape_sweep_with_power_seven() {
    let points = transaction_shape_points(10, 7, 2, 6);
    assert_eq!(
        points,
        [
            point(10, 100, 100000),
            point(10, 1000, 10000),
            point(10, 10000, 1000),
            point(10, 100000, 100),
            point(10, 1000000, 10),
        ]
    );
    for (k, p) in points.iter().enumerate() {
        let i = 2 + k as u32;
        assert_eq!(p.transaction_size, 10usize.pow(i));
        assert_eq!(p.transaction_count, 10usize.pow(7 - i));
        assert_eq!(p.transaction_size * p.transaction_count, 10_000_000);
    }
}

#[test]
fn shape_sweeps_of_other_ranges() {
    assert_eq!(transaction_shape_points(10, 7, 2, 5).len(), 4);
    assert_eq!(transaction_shape_points(55, 4, 0, 4), [
        point(55, 1, 10000),
        point(55, 10, 1000),
        point(55, 100, 100),
        point(55, 1000, 10),
        point(55, 10000, 1),
    ]);
    assert_eq!(transaction_shape_points(10, 3, 3, 3), [point(10, 1000, 1)]);
    assert_eq!(transaction_shape_points(10, 0, 0, 0), [point(10, 1, 1)]);
}

#[test]
fn size_sweep_keeps_the_count() {
    assert_eq!(
        transaction_size_points(10, 4, 7, 100),
        [
            point(10, 10000, 100),
            point(10, 100000, 100),
            point(10, 1000000, 100),
            point(10, 10000000, 100),
        ]
    );
    assert_eq!(transaction_size_points(20, 0, 0, 5), [point(20, 1, 5)]);
}

#[test]
fn points_with_a_valid_percentage_and_a_countable_total_can_run() {
    assert!(can_run(&point(0, 0, 0)));
    assert!(can_run(&point(100, 100000, 100)));
    assert!(can_run(&point(50, usize::MAX, 1)));
    assert!(can_run(&point(50, 1, usize::MAX)));
    assert!(can_run(&point(10, usize::MAX, 0)));
}

#[test]
fn points_with_an_invalid_percentage_cannot_run() {
    assert!(!can_run(&point(-1, 10, 10)));
    assert!(!can_run(&point(101, 10, 10)));
    assert!(!can_run(&point(i32::MIN, 0, 0)));
    assert!(!can_run(&point(i32::MAX, 0, 0)));
}

#[test]
fn points_with_too_many_operations_cannot_run() {
    assert!(!can_run(&point(50, usize::MAX, 2)));
    assert!(!can_run(&point(50, usize::MAX / 2 + 1, 2)));
    assert!(!can_run(&point(50, usize::MAX, usize::MAX)));
}

#[test]
fn the_standard_points_can_run() {
    for p in percentage_points(100000, 100) {
        assert!(can_run(&p));
    }
    for p in transaction_shape_points(10, 7, 2, 6) {
        assert!(can_run(&p));
    }
    for p in transaction_size_points(10, 4, 7, 100) {
        assert!(can_run(&p));
    }
}
