use fast_log10::log10_floor;

fn digits_minus_one(x: u16) -> u8 {
    (x.to_string().len() - 1) as u8
}

fn by_division(x: u16) -> u8 {
    let mut rest = x;
    let mut log = 0u8;
    while rest >= 10 {
        rest /= 10;
        log += 1;
    }
    log
}

#[test]
#[should_panic]
fn test0() {
    assert_eq!(log10_floor(0), 0);
}

#[test]
fn test1() {
    assert_eq!(log10_floor(1), 0);
    assert_eq!(log10_floor(9), 0);
    assert_eq!(log10_floor(10), 1);
    assert_eq!(log10_floor(99), 1);
    assert_eq!(log10_floor(100), 2);
    assert_eq!(log10_floor(999), 2);
    assert_eq!(log10_floor(1_000), 3);
    assert_eq!(log10_floor(9_999), 3);
    assert_eq!(log10_floor(10_000), 4);
    assert_eq!(log10_floor(u16::MAX), 4);
}

#[test]
fn every_positive_input_matches_the_digit_count() {
    for x in 1..=u16::MAX {
        assert_eq!(log10_floor(x), digits_minus_one(x), "x = {}", x);
        assert_eq!(log10_floor(x), by_division(x), "x = {}", x);
    }
}

#[test]
fn result_never_decreases() {
    let mut last = log10_floor(1);
    for x in 2..=u16::MAX {
        let now = log10_floor(x);
        assert!(last <= now, "x = {}", x);
        last = now;
    }
    assert!(log10_floor(7) <= log10_floor(12_345));
    assert!(log10_floor(4_096) <= log10_floor(4_097));
}

#[test]
fn decade_edges_are_exact() {
    let mut power: u16 = 1;
    for k in 0u8..5 {
        assert_eq!(log10_floor(power), k);
        if k >= 1 {
            assert_eq!(log10_floor(power - 1), k - 1);
        }
        if k < 4 {
            power *= 10;
        }
    }
}

#[test]
fn every_binary_logarithm_is_served() {
    for k in 0u32..16 {
        let low: u16 = 1 << k;
        let high: u16 = low | (low - 1);
        assert_eq!(low.leading_zeros(), 15 - k);
        assert_eq!(log10_floor(low), by_division(low));
        assert_eq!(log10_floor(high), by_division(high));
    }
}

#[test]
fn guesses_that_need_the_correction() {
    assert_eq!(log10_floor(8), 0);
    assert_eq!(log10_floor(15), 1);
    assert_eq!(log10_floor(64), 1);
    assert_eq!(log10_floor(127), 2);
    assert_eq!(log10_floor(512), 2);
    assert_eq!(log10_floor(1_023), 3);
    assert_eq!(log10_floor(8_192), 3);
    assert_eq!(log10_floor(16_383), 4);
}
