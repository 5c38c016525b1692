use enginesound_gui::engine::{rebalance, Engine, Muffler};
use enginesound_gui::number::{greater, lesser, ratio, unit};

fn engine(intake: f32, exhaust: f32, vibrations: f32) -> Engine<f32, (), ()> {
    Engine {
        rpm: 1000.0,
        intake_volume: intake,
        exhaust_volume: exhaust,
        engine_vibrations_volume: vibrations,
        engine_vibration_filter: (),
        intake_noise_factor: 0.0,
        intake_noise_lp: (),
        intake_valve_shift: 0.0,
        exhaust_valve_shift: 0.0,
        crankshaft_fluctuation: 0.0,
        crankshaft_fluctuation_lp: (),
        muffler: Muffler {
            straight_pipe: enginesound_gui::engine::WaveGuide {
                delay: 1,
                alpha: 0.0,
                beta: 0.0,
                line: (),
            },
            muffler_elements: Vec::new(),
        },
        cylinders: Vec::new(),
    }
}

fn volumes(e: &Engine<f32, (), ()>) -> (f32, f32, f32) {
    (e.intake_volume, e.exhaust_volume, e.engine_vibrations_volume)
}

#[test]
fn lesser_and_greater_follow_the_float_methods() {
    let values = [0.0f32, 1.0, -1.0, 0.5, f32::INFINITY, f32::NEG_INFINITY, 1e-30];
    for a in values {
        for b in values {
            assert_eq!(lesser(a, b), a.min(b));
            assert_eq!(greater(a, b), a.max(b));
        }
        assert_eq!(lesser(a, f32::NAN), a);
        assert_eq!(lesser(f32::NAN, a), a);
        assert_eq!(greater(a, f32::NAN), a);
        assert_eq!(greater(f32::NAN, a), a);
    }
    assert!(lesser(f32::NAN, f32::NAN).is_nan());
}

#[test]
fn ratio_gives_the_decimal() {
    assert_eq!(ratio::<f32>(1, 2), 0.5);
    assert_eq!(ratio::<f32>(7, 100), 0.07);
    assert_eq!(ratio::<f32>(325, 1000), 0.325);
    assert_eq!(ratio::<f32>(10010, 1000), 10.01);
    assert_eq!(ratio::<f32>(1, 1000), 1e-3);
}

#[test]
fn unit_holds_between_zero_and_one() {
    assert_eq!(unit(-3.0f32), 0.0);
    assert_eq!(unit(0.25f32), 0.25);
    assert_eq!(unit(7.0f32), 1.0);
    assert_eq!(unit(f32::NAN), 1.0);
}

#[test]
fn smaller_volume_gives_up_half_of_the_change() {
    // 0.25 more: the smaller gives up 0.125, the larger the rest.
    assert_eq!(rebalance(0.25f32, 0.5, 0.25, 0.5), (0.125, 0.375));
    assert_eq!(rebalance(0.25f32, 0.5, 0.5, 0.25), (0.375, 0.125));
}

#[test]
fn smaller_volume_gives_up_no_more_than_it_has() {
    assert_eq!(rebalance(0.0f32, 0.5, 0.125, 0.875), (0.0, 0.5));
}

#[test]
fn equal_volumes_share_the_change() {
    assert_eq!(rebalance(0.0f32, 0.5, 0.5, 0.5), (0.25, 0.25));
    assert_eq!(rebalance(0.5f32, 0.0, 0.25, 0.25), (0.5, 0.5));
}

#[test]
fn rebalanced_volumes_stay_in_the_unit_interval() {
    assert_eq!(rebalance(1.0f32, 0.0, 0.75, 1.0), (1.0, 1.0));
    assert_eq!(rebalance(0.0f32, 1.0, 0.0, 0.25), (0.0, 0.0));
}

#[test]
fn intake_volume_pushes_exhaust_and_vibrations() {
    let mut e = engine(0.25, 0.25, 0.5);
    e.set_intake_volume(0.5);
    assert_eq!(volumes(&e), (0.5, 0.125, 0.375));
    assert_eq!(e.rpm, 1000.0);
}

#[test]
fn exhaust_volume_pushes_intake_and_vibrations() {
    let mut e = engine(0.25, 0.25, 0.5);
    e.set_exhaust_volume(0.5);
    assert_eq!(volumes(&e), (0.125, 0.5, 0.375));
}

#[test]
fn vibrations_volume_pushes_exhaust_and_intake() {
    let mut e = engine(0.5, 0.25, 0.25);
    e.set_engine_vibrations_volume(0.5);
    assert_eq!(volumes(&e), (0.375, 0.125, 0.5));
}

#[test]
fn moving_a_volume_keeps_the_mix_whole() {
    let mut e = engine(0.25, 0.25, 0.5);
    for value in [1.0, 0.0, 0.5, 0.75] {
        e.set_exhaust_volume(value);
        let (a, b, c) = volumes(&e);
        assert_eq!(a + b + c, 1.0);
    }
}

#[test]
fn raising_a_volume_raises_no_other() {
    let mut e = engine(0.125, 0.375, 0.5);
    e.set_intake_volume(0.625);
    assert_eq!(volumes(&e), (0.625, 0.125, 0.25));
    e.set_intake_volume(0.125);
    assert_eq!(volumes(&e), (0.125, 0.375, 0.5));
    // The smaller one has nothing left to give up.
    e.set_engine_vibrations_volume(1.0);
    assert_eq!(volumes(&e), (0.0, 0.0, 1.0));
    e.set_engine_vibrations_volume(0.25);
    assert_eq!(volumes(&e), (0.375, 0.375, 0.25));
}

#[test]
fn rounding_leads_the_mix_little_astray() {
    // A small error of single precision.
    let small = 4.0 * f32::EPSILON / 2.0;
    let mut e = engine(0.1, 0.2, 0.7);
    for value in [0.3, 0.9, 0.1, 0.0, 0.77, 0.4] {
        e.set_intake_volume(value);
        let (a, b, c) = volumes(&e);
        assert!((a as f64 + b as f64 + c as f64 - 1.0).abs() <= 6.0 * 16.0 * small as f64);
        assert!((0.0..=1.0).contains(&b) && (0.0..=1.0).contains(&c));
    }
    let mut e = engine(0.9, 0.7, 0.3);
    e.normalize_mix();
    let (a, b, c) = volumes(&e);
    assert!((a as f64 + b as f64 + c as f64 - 1.0).abs() <= 3.0 * small as f64);
    assert!((a / b - 0.9 / 0.7).abs() <= 1e-6);
    e.normalize_mix();
    let (x, y, z) = volumes(&e);
    assert!((x - a).abs() <= 4.0 * small && (y - b).abs() <= 4.0 * small);
    assert!((z - c).abs() <= 4.0 * small);
}

#[test]
fn moving_a_volume_never_silences_the_mix() {
    let mut e = engine(0.5, 0.0, 0.0);
    e.set_intake_volume(0.0);
    assert_eq!(volumes(&e), (0.0, 0.25, 0.25));
    e.normalize_mix();
    assert_eq!(volumes(&e), (0.0, 0.5, 0.5));
}

#[test]
fn raising_a_volume_raises_no_other_with_rounding() {
    let values = [0.0f32, 0.1, 0.2, 0.3, 0.37, 0.5, 0.7, 0.9, 1.0, 1e-30];
    for previous in values {
        for value in values {
            for one in values {
                for two in values {
                    let (a, b) = rebalance(previous, value, one, two);
                    if previous <= value {
                        assert!(a <= one && b <= two);
                    }
                    if value <= previous {
                        assert!(one <= a && two <= b);
                    }
                }
            }
        }
    }
}

#[test]
fn large_and_small_mixes_are_normalized() {
    for factor in [1e30f32, 1000.0, 3.0, 1e-30] {
        let mut e = engine(factor, 2.0 * factor, 5.0 * factor);
        e.normalize_mix();
        let (a, b, c) = volumes(&e);
        assert!((a - 0.125).abs() <= 1e-6 && (b - 0.25).abs() <= 1e-6);
        assert!((a + b + c - 1.0).abs() <= 1e-6);
    }
}

#[test]
fn smallest_volume_never_silences_the_mix() {
    let smallest = f32::from_bits(1);
    let mut e = engine(smallest, 0.0, 0.0);
    e.set_intake_volume(0.0);
    let (a, b, c) = volumes(&e);
    assert_eq!(a, 0.0);
    assert!(b + c > 0.0);
}

#[test]
fn normalizing_divides_by_the_sum() {
    let mut e = engine(1.0, 2.0, 1.0);
    e.normalize_mix();
    assert_eq!(volumes(&e), (0.25, 0.5, 0.25));
    e.normalize_mix();
    assert_eq!(volumes(&e), (0.25, 0.5, 0.25));
}
