use arraylist::get_next_pow2;

#[test]
fn next_pow2_of_zero_is_one() {
    assert_eq!(get_next_pow2(0), 1);
}

#[test]
fn next_pow2_is_strictly_greater() {
    assert_eq!(get_next_pow2(1), 2);
    assert_eq!(get_next_pow2(2), 4);
    assert_eq!(get_next_pow2(3), 4);
    assert_eq!(get_next_pow2(4), 8);
    assert_eq!(get_next_pow2(5), 8);
    assert_eq!(get_next_pow2(7), 8);
    assert_eq!(get_next_pow2(8), 16);
    assert_eq!(get_next_pow2(1023), 1024);
    assert_eq!(get_next_pow2(1024), 2048);
    assert_eq!(get_next_pow2(1025), 2048);
}

#[test]
fn next_pow2_of_pinned_examples() {
    assert_eq!(get_next_pow2(0), 1);
    assert_eq!(get_next_pow2(1), 2);
    assert_eq!(get_next_pow2(5), 8);
    assert_eq!(get_next_pow2(8), 16);
}

#[test]
fn next_pow2_at_the_largest_argument() {
    let half = usize::MAX / 2;
    assert_eq!(get_next_pow2(half), half + 1);
    assert_eq!(get_next_pow2(half - 1), half + 1);
    assert_eq!(get_next_pow2(half / 2), half / 2 + 1);
}

#[test]
fn next_pow2_is_least_power_of_two_above() {
    for n in 0usize..5000 {
        let p = get_next_pow2(n);
        assert!(p.is_power_of_two());
        assert!(p > n);
        assert!(p / 2 <= n);
    }
}
