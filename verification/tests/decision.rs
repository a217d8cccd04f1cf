use heart::decision::{decide, is_valid_percentage, with_percentage_true};

#[test]
fn zero_percent_is_never_true() {
    for _ in 0..10_000 {
        assert!(!with_percentage_true(0));
    }
}

#[test]
fn hundred_percent_is_always_true() {
    for _ in 0..10_000 {
        assert!(with_percentage_true(100));
    }
}

#[test]
fn fifty_percent_gives_both_outcomes() {
    let mut trues = 0;
    let trials = 10_000;
    for _ in 0..trials {
        if with_percentage_true(50) {
            trues += 1;
        }
    }
    assert!(trues > 0);
    assert!(trues < trials);
    // Within ten standard deviations of the mean.
    assert!(trues > 4_500 && trues < 5_500, "{} of {}", trues, trials);
}

#[test]
fn ten_percent_is_rarely_true() {
    let mut trues = 0;
    for _ in 0..10_000 {
        if with_percentage_true(10) {
            trues += 1;
        }
    }
    assert!(trues > 700 && trues < 1_300, "{}", trues);
}

#[test]
fn decide_compares_draw_with_percentage() {
    assert!(decide(50, 49));
    assert!(!decide(50, 50));
    assert!(!decide(50, 99));
    assert!(decide(1, 0));
    assert!(!decide(1, 1));
}

#[test]
fn decide_at_the_extremes() {
    for draw in 0..100 {
        assert!(!decide(0, draw));
        assert!(decide(100, draw));
    }
}

#[test]
fn decide_counts_percentage_many_draws() {
    for percentage in 0..=100 {
        let trues = (0..100).filter(|&draw| decide(percentage, draw)).count();
        assert_eq!(trues, percentage as usize);
    }
}

#[test]
fn percentages_from_zero_to_hundred_are_valid() {
    assert!(is_valid_percentage(0));
    assert!(is_valid_percentage(1));
    assert!(is_valid_percentage(99));
    assert!(is_valid_percentage(100));
    assert!(!is_valid_percentage(-1));
    assert!(!is_valid_percentage(101));
    assert!(!is_valid_percentage(i32::MIN));
    assert!(!is_valid_percentage(i32::MAX));
}
