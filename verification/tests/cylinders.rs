use enginesound_gui::cylinders::reshape;
use enginesound_gui::engine::{Cylinder, WaveGuide};

fn guide(delay: usize, line: u8) -> WaveGuide<f32, Vec<u8>> {
    WaveGuide { delay, alpha: 0.5, beta: 0.25, line: vec![line] }
}

fn cylinder(tag: u8) -> Cylinder<f32, Vec<u8>> {
    let t = tag as f32;
    Cylinder {
        crank_offset: t / 8.0,
        intake_open_refl: t,
        intake_closed_refl: t,
        exhaust_open_refl: t,
        exhaust_closed_refl: t,
        piston_motion_factor: t,
        ignition_factor: t,
        ignition_time: t,
        intake_waveguide: guide(10 + tag as usize, tag),
        exhaust_waveguide: guide(20 + tag as usize, tag),
        extractor_waveguide: guide(30 + tag as usize, tag),
    }
}

fn model() -> Cylinder<f32, Vec<u8>> {
    let mut m = cylinder(9);
    m.intake_waveguide.beta = -0.5;
    m.exhaust_waveguide.beta = -0.625;
    m.extractor_waveguide.beta = -0.75;
    m
}

fn shares_model(c: &Cylinder<f32, Vec<u8>>) -> bool {
    c.intake_open_refl == 9.0
        && c.intake_closed_refl == 9.0
        && c.exhaust_open_refl == 9.0
        && c.exhaust_closed_refl == 9.0
        && c.piston_motion_factor == 9.0
        && c.ignition_factor == 9.0
        && c.ignition_time == 9.0
        && c.intake_waveguide.beta == -0.5
        && c.extractor_waveguide.beta == -0.75
}

fn keeps_its_own(c: &Cylinder<f32, Vec<u8>>, tag: u8) -> bool {
    c.crank_offset == tag as f32 / 8.0
        && c.intake_waveguide.delay == 10 + tag as usize
        && c.intake_waveguide.alpha == 0.5
        && c.intake_waveguide.line == vec![tag]
        && c.exhaust_waveguide.delay == 20 + tag as usize
        && c.exhaust_waveguide.beta == 0.25
        && c.exhaust_waveguide.line == vec![tag]
        && c.extractor_waveguide.delay == 30 + tag as usize
        && c.extractor_waveguide.line == vec![tag]
}

#[test]
fn same_number_takes_the_shared_settings_over() {
    let mut c = vec![cylinder(1), cylinder(2)];
    reshape(&mut c, 2, &model(), |n: usize| n as f32);
    assert_eq!(c.len(), 2);
    assert!(shares_model(&c[0]) && keeps_its_own(&c[0], 1));
    assert!(shares_model(&c[1]) && keeps_its_own(&c[1], 2));
}

#[test]
fn fewer_cylinders_drop_the_last() {
    let mut c = vec![cylinder(1), cylinder(2), cylinder(3)];
    reshape(&mut c, 1, &model(), |n: usize| n as f32);
    assert_eq!(c.len(), 1);
    assert!(shares_model(&c[0]) && keeps_its_own(&c[0], 1));
}

#[test]
fn more_cylinders_copy_the_model_at_one_offset() {
    let mut c = vec![cylinder(1), cylinder(2)];
    reshape(&mut c, 4, &model(), |n: usize| n as f32);
    assert_eq!(c.len(), 4);
    assert!(shares_model(&c[0]) && keeps_its_own(&c[0], 1));
    assert!(shares_model(&c[1]) && keeps_its_own(&c[1], 2));
    for added in &c[2..] {
        assert!(shares_model(added));
        assert_eq!(added.crank_offset, 0.75);
        assert_eq!(added.intake_waveguide.delay, 19);
        assert_eq!(added.exhaust_waveguide.beta, -0.625);
        assert_eq!(added.exhaust_waveguide.line, vec![9]);
    }
}

#[test]
fn no_cylinders_are_possible() {
    let mut c = vec![cylinder(1)];
    reshape(&mut c, 0, &model(), |n: usize| n as f32);
    assert!(c.is_empty());
}
