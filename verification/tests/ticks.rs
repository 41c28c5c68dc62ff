use tm4c_hal::ticks::{reload_values, ticks_for_us};

/// The intermediate products of the three-term decomposition for `us`
/// microseconds at `freq` Hz all fit a 32-bit accumulator.
fn fits(us: u32, freq: u32) -> bool {
    let us64: u64 = us as u64;
    let f64: u64 = freq as u64;
    let max: u64 = u32::MAX as u64;
    let t1: u64 = us64 * (f64 / 1_000_000);
    let p2: u64 = us64 * ((f64 % 1_000_000) / 1_000);
    let p3: u64 = us64 * (f64 % 1_000);
    t1 <= max && p2 <= max && p3 <= max && t1 + p2 / 1_000 + p3 / 1_000_000 <= max
}

#[test]
fn ticks_match_ideal_over_representative_range() {
    let us_cases: [u32; 7] = [0, 1, 999, 1_000, 16_777_215, 16_777_216, 4_000_000_000];
    let freq_cases: [u32; 3] = [1_000_000, 16_000_000, 120_000_000];
    let mut checked: u32 = 0;
    for &us in us_cases.iter() {
        for &freq in freq_cases.iter() {
            if fits(us, freq) {
                let ticks: u32 = ticks_for_us(us, freq);
                let ideal: u64 = (us as u64) * (freq as u64) / 1_000_000;
                assert!(ticks as u64 <= ideal);
                assert!(ideal - ticks as u64 <= 1);
                checked += 1;
            }
        }
    }
    // Only the two largest-product pairs overflow 32 bits and are excluded.
    assert_eq!(checked, 19);
}

#[test]
fn ticks_exact_at_16mhz() {
    assert_eq!(ticks_for_us(1_000, 16_000_000), 16_000);
    assert_eq!(ticks_for_us(1, 16_000_000), 16);
    assert_eq!(ticks_for_us(0, 16_000_000), 0);
}

#[test]
fn ticks_exact_at_120mhz() {
    assert_eq!(ticks_for_us(200_000, 120_000_000), 24_000_000);
    assert_eq!(ticks_for_us(999, 120_000_000), 119_880);
}

#[test]
fn ticks_exact_at_1mhz() {
    assert_eq!(ticks_for_us(4_000_000_000, 1_000_000), 4_000_000_000);
    assert_eq!(ticks_for_us(999, 1_000_000), 999);
}

#[test]
fn ticks_truncate_fractional_frequency() {
    // 1_500_500 Hz: the two low-order terms each truncate.
    assert_eq!(ticks_for_us(3, 1_500_500), 4); // ideal 4.5015
    assert_eq!(ticks_for_us(1_001, 1_000_999), 1_001); // ideal 1001.999999
}

#[test]
fn reload_plan_single_wait() {
    // 1000 us at 16 MHz: 16_000 ticks, one sub-range wait.
    let ticks: u32 = ticks_for_us(1_000, 16_000_000);
    assert_eq!(reload_values(ticks), vec![16_000]);
}

#[test]
fn reload_plan_one_full_chunk_plus_remainder() {
    // 200_000 us at 120 MHz: 24_000_000 ticks, one full-range wait then the
    // remainder.
    let ticks: u32 = ticks_for_us(200_000, 120_000_000);
    assert_eq!(reload_values(ticks), vec![16_777_215, 7_222_784]);
}

#[test]
fn reload_plan_chunking_boundaries() {
    assert_eq!(reload_values(0), vec![0]);
    assert_eq!(reload_values(16_777_215), vec![16_777_215]);
    assert_eq!(reload_values(16_777_216), vec![16_777_215, 0]);
    assert_eq!(reload_values(16_777_217), vec![16_777_215, 1]);
    assert_eq!(reload_values(50_331_650), vec![16_777_215, 16_777_215, 16_777_215, 2]);
}

#[test]
fn reload_plan_largest_request() {
    let plan: Vec<u32> = reload_values(u32::MAX);
    assert_eq!(plan.len(), 256);
    for i in 0..255 {
        assert_eq!(plan[i], 16_777_215);
    }
    assert_eq!(plan[255], 16_777_215);
    assert!(*plan.last().unwrap() < (1 << 24));
}

#[test]
fn equal_requests_give_equal_reload_sequences() {
    let first: Vec<u32> = reload_values(ticks_for_us(200_000, 120_000_000));
    let second: Vec<u32> = reload_values(ticks_for_us(200_000, 120_000_000));
    assert_eq!(first, second);
}
