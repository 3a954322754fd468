use fast_log10::{log10_floor, log10_u32};

fn by_division(x: u32) -> u32 {
    let mut rest = x;
    let mut log = 0u32;
    while rest >= 10 {
        rest /= 10;
        log += 1;
    }
    log
}

#[test]
fn zero_gives_zero() {
    assert_eq!(log10_u32(0), 0);
}

#[test]
fn small_values() {
    assert_eq!(log10_u32(1), 0);
    assert_eq!(log10_u32(9), 0);
    assert_eq!(log10_u32(10), 1);
    assert_eq!(log10_u32(99), 1);
    assert_eq!(log10_u32(100), 2);
    assert_eq!(log10_u32(65_535), 4);
    assert_eq!(log10_u32(65_536), 4);
}

#[test]
fn largest_values() {
    assert_eq!(log10_u32(999_999_999), 8);
    assert_eq!(log10_u32(1_000_000_000), 9);
    assert_eq!(log10_u32(u32::MAX), 9);
    assert_eq!(log10_u32(u32::MAX - 1), 9);
    assert_eq!(log10_u32(1 << 31), 9);
}

#[test]
fn wide_decade_edges_are_exact() {
    let mut power: u32 = 1;
    for k in 0u32..10 {
        assert_eq!(log10_u32(power), k);
        if k >= 1 {
            assert_eq!(log10_u32(power - 1), k - 1);
        }
        assert_eq!(log10_u32(power + 1), if power == 1 { 0 } else { k });
        if k < 9 {
            power *= 10;
        }
    }
}

#[test]
fn every_bit_length_is_served() {
    for b in 1u32..=32 {
        let low: u32 = 1 << (b - 1);
        let high: u32 = low | (low - 1);
        assert_eq!(32 - low.leading_zeros(), b);
        assert_eq!(log10_u32(low), by_division(low), "x = {}", low);
        assert_eq!(log10_u32(high), by_division(high), "x = {}", high);
    }
}

#[test]
fn agrees_with_the_guided_routine() {
    for x in 1..=u16::MAX {
        assert_eq!(log10_u32(x as u32), log10_floor(x) as u32, "x = {}", x);
    }
}

#[test]
fn matches_repeated_division_on_a_sample() {
    for x in 0u32..200_000 {
        assert_eq!(log10_u32(x), by_division(x), "x = {}", x);
    }
    let mut x: u32 = 1;
    for _ in 0..200_000 {
        x = x.wrapping_mul(1_664_525).wrapping_add(1_013_904_223);
        assert_eq!(log10_u32(x), by_division(x), "x = {}", x);
    }
}

#[test]
fn wide_result_never_decreases_on_a_sample() {
    let mut last = log10_u32(0);
    let mut x: u32 = 0;
    while x < u32::MAX - 40_000 {
        x += 39_989;
        let now = log10_u32(x);
        assert!(last <= now, "x = {}", x);
        last = now;
    }
}
