use postoffice::ieee::{is_finite_double, narrow_double, widen_single};

fn narrow_reference(bits: u64) -> u32 {
    (f64::from_bits(bits) as f32).to_bits()
}

fn widen_reference(bits: u32) -> u64 {
    (f32::from_bits(bits) as f64).to_bits()
}

fn next(state: &mut u64) -> u64 {
    *state ^= *state << 13;
    *state ^= *state >> 7;
    *state ^= *state << 17;
    *state
}

fn check_narrow(bits: u64) {
    let ours = narrow_double(bits);
    if f64::from_bits(bits).is_nan() {
        assert!(f32::from_bits(ours).is_nan(), "{bits:#x}");
        assert_eq!(ours >> 31, (bits >> 63) as u32);
    } else {
        assert_eq!(ours, narrow_reference(bits), "{bits:#x}");
    }
}

fn check_widen(bits: u32) {
    let ours = widen_single(bits);
    if f32::from_bits(bits).is_nan() {
        assert!(f64::from_bits(ours).is_nan(), "{bits:#x}");
        assert_eq!(ours >> 63, (bits >> 31) as u64);
    } else {
        assert_eq!(ours, widen_reference(bits), "{bits:#x}");
    }
}

#[test]
fn narrow_exact_values() {
    assert_eq!(narrow_double(2.5f64.to_bits()), 2.5f32.to_bits());
    assert_eq!(narrow_double(1.0f64.to_bits()), 0x3f80_0000);
    assert_eq!(narrow_double((-2.0f64).to_bits()), 0xc000_0000);
    assert_eq!(narrow_double(0.0f64.to_bits()), 0);
    assert_eq!(narrow_double((-0.0f64).to_bits()), 0x8000_0000);
    assert_eq!(narrow_double(0.1f64.to_bits()), 0x3dcc_cccd);
    assert_eq!(narrow_double(f64::INFINITY.to_bits()), 0x7f80_0000);
    assert_eq!(narrow_double(f64::NEG_INFINITY.to_bits()), 0xff80_0000);
}

#[test]
fn narrow_rounds_ties_to_even() {
    // 1 + 2^-24 lies half way between 1 and the next single: down to the even one.
    assert_eq!(narrow_double(0x3ff0_0000_1000_0000), 0x3f80_0000);
    // 1 + 3 * 2^-24 lies half way between two singles: up to the even one.
    assert_eq!(narrow_double(0x3ff0_0000_3000_0000), 0x3f80_0002);
    // just above and just below the half
    assert_eq!(narrow_double(0x3ff0_0000_1000_0001), 0x3f80_0001);
    assert_eq!(narrow_double(0x3ff0_0000_0fff_ffff), 0x3f80_0000);
}

#[test]
fn narrow_overflows_to_infinity() {
    assert_eq!(narrow_double(1e39f64.to_bits()), f32::INFINITY.to_bits());
    assert_eq!(narrow_double((-1e39f64).to_bits()), f32::NEG_INFINITY.to_bits());
    assert_eq!(narrow_double((f32::MAX as f64).to_bits()), f32::MAX.to_bits());
    // the largest single plus half a unit in the last place rounds up to infinity
    assert_eq!(narrow_double(0x47ef_ffff_f000_0000), 0x7f80_0000);
    assert_eq!(narrow_double(0x47ef_ffff_efff_ffff), 0x7f7f_ffff);
    assert_eq!(narrow_double(f64::MAX.to_bits()), 0x7f80_0000);
}

#[test]
fn narrow_handles_subnormal_results() {
    let smallest = f32::from_bits(1) as f64;
    assert_eq!(narrow_double(smallest.to_bits()), 1);
    assert_eq!(narrow_double((smallest / 2.0).to_bits()), 0);
    assert_eq!(narrow_double((smallest * 0.75).to_bits()), 1);
    assert_eq!(narrow_double((smallest * 1.5).to_bits()), 2);
    assert_eq!(narrow_double((smallest * 2.5).to_bits()), 2);
    assert_eq!(narrow_double((smallest / 4.0).to_bits()), 0);
    assert_eq!(narrow_double((-smallest / 4.0).to_bits()), 0x8000_0000);
    assert_eq!(narrow_double((f32::MIN_POSITIVE as f64).to_bits()), f32::MIN_POSITIVE.to_bits());
    assert_eq!(narrow_double(f64::MIN_POSITIVE.to_bits()), 0);
    assert_eq!(narrow_double(1), 0);
    for k in 0..60u64 {
        check_narrow(smallest.to_bits() + (1 << k));
        check_narrow(smallest.to_bits() - (1 << k));
        check_narrow((f32::MIN_POSITIVE as f64).to_bits() - (1 << k));
    }
}

#[test]
fn narrow_keeps_nan_a_nan() {
    for bits in [f64::NAN.to_bits(), 0x7ff0_0000_0000_0001, 0xfff8_0000_0000_0000, 0x7ff4_0000_0000_0000] {
        check_narrow(bits);
    }
}

#[test]
fn narrow_agrees_with_the_machine() {
    let mut state = 0x1234_5678_9abc_def1u64;
    for _ in 0..200_000 {
        check_narrow(next(&mut state));
        let exp = 850 + next(&mut state) % 320;
        let bits = (next(&mut state) & 0x800f_ffff_ffff_ffff) | (exp << 52);
        check_narrow(bits);
        let tie = (bits & 0xffff_ffff_e000_0000) | 0x1000_0000;
        check_narrow(tie);
        check_narrow(tie - 1);
        check_narrow(tie + 1);
    }
}

#[test]
fn widen_exact_values() {
    assert_eq!(widen_single(2.5f32.to_bits()), 2.5f64.to_bits());
    assert_eq!(widen_single(1.0f32.to_bits()), 0x3ff0_0000_0000_0000);
    assert_eq!(widen_single(0), 0);
    assert_eq!(widen_single(0x8000_0000), 0x8000_0000_0000_0000);
    assert_eq!(widen_single(f32::INFINITY.to_bits()), f64::INFINITY.to_bits());
    assert_eq!(widen_single(f32::NEG_INFINITY.to_bits()), f64::NEG_INFINITY.to_bits());
    assert_eq!(widen_single(f32::MAX.to_bits()), (f32::MAX as f64).to_bits());
    assert_eq!(widen_single(f32::MIN_POSITIVE.to_bits()), (f32::MIN_POSITIVE as f64).to_bits());
    assert_eq!(widen_single(1), (f32::from_bits(1) as f64).to_bits());
    assert_eq!(widen_single(0x007f_ffff), (f32::from_bits(0x007f_ffff) as f64).to_bits());
}

#[test]
fn widen_agrees_with_the_machine() {
    let mut state = 0x0fed_cba9_8765_4321u64;
    for _ in 0..200_000 {
        let bits: u32 = (next(&mut state) >> 32) as u32;
        check_widen(bits);
        check_widen(bits & 0x807f_ffff);
        check_widen(bits | 0x7f80_0000);
    }
    for shift in 0..23 {
        check_widen(1 << shift);
        check_widen(0x8000_0000 | (1 << shift));
    }
}

#[test]
fn widen_then_narrow_gives_the_single_back() {
    let mut state = 0x0bad_cafe_dead_beefu64;
    for _ in 0..100_000 {
        let bits: u32 = (next(&mut state) >> 16) as u32;
        if !f32::from_bits(bits).is_nan() {
            assert_eq!(narrow_double(widen_single(bits)), bits);
        }
    }
}

#[test]
fn finiteness() {
    assert!(is_finite_double(0));
    assert!(is_finite_double(f64::MAX.to_bits()));
    assert!(is_finite_double(f64::MIN_POSITIVE.to_bits()));
    assert!(!is_finite_double(f64::INFINITY.to_bits()));
    assert!(!is_finite_double(f64::NEG_INFINITY.to_bits()));
    assert!(!is_finite_double(f64::NAN.to_bits()));
    for bits in [0, 1, f32::MAX.to_bits(), f32::MIN_POSITIVE.to_bits(), (-1.5f32).to_bits()] {
        assert!(is_finite_double(widen_single(bits)));
    }
    for bits in [f32::INFINITY.to_bits(), f32::NEG_INFINITY.to_bits(), f32::NAN.to_bits()] {
        assert!(!is_finite_double(widen_single(bits)));
    }
}
