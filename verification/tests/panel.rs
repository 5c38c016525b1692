use enginesound_gui::buttons::RecordClick;
use enginesound_gui::controls::{Bound, Control, Face, Piece};
use enginesound_gui::engine::{Cylinder, Engine, Generator, Muffler, WaveGuide};
use enginesound_gui::panel::{
    guide, pipe_length, pipe_samples, replace_filter, replace_guide, Move, Pass, Reading,
};

type TestGenerator = Generator<f32, u8, u16, &'static str>;

fn pipe(delay: usize) -> WaveGuide<f32, u8> {
    WaveGuide { delay, alpha: 0.125, beta: 0.25, line: 1 }
}

fn cylinder(tag: usize) -> Cylinder<f32, u8> {
    Cylinder {
        crank_offset: tag as f32 / 4.0,
        intake_open_refl: 0.1,
        intake_closed_refl: 0.2,
        exhaust_open_refl: 0.3,
        exhaust_closed_refl: 0.4,
        piston_motion_factor: 0.5,
        ignition_factor: 0.6,
        ignition_time: 0.7,
        intake_waveguide: pipe(100 + tag),
        exhaust_waveguide: pipe(200 + tag),
        extractor_waveguide: pipe(300 + tag),
    }
}

fn generator() -> TestGenerator {
    Generator {
        engine: Engine {
            rpm: 800.0,
            intake_volume: 0.25,
            exhaust_volume: 0.25,
            engine_vibrations_volume: 0.5,
            engine_vibration_filter: 11,
            intake_noise_factor: 1.5,
            intake_noise_lp: 12,
            intake_valve_shift: 0.0625,
            exhaust_valve_shift: -0.0625,
            crankshaft_fluctuation: 0.75,
            crankshaft_fluctuation_lp: 13,
            muffler: Muffler {
                straight_pipe: pipe(50),
                muffler_elements: vec![pipe(60), pipe(61)],
            },
            cylinders: vec![cylinder(0), cylinder(1), cylinder(2)],
        },
        volume: 0.1,
        samples_per_second: 48000,
        recorder: None,
        recording_currently_clipping: false,
        waveguides_dampened: false,
    }
}

fn text(pieces: &[Piece<f32>]) -> String {
    let mut out = String::new();
    for piece in pieces {
        match piece {
            Piece::Text(t) => out.push_str(t),
            Piece::Count(n) => out.push_str(&n.to_string()),
            Piece::Number { value, digits } => {
                out.push_str(&format!("{:.*}", *digits as usize, value))
            }
        }
    }
    out
}

fn column(mufflers: usize, cylinders: usize) -> Vec<Control> {
    let mut controls = vec![Control::first()];
    while let Some(below) = controls[controls.len() - 1].next(mufflers, cylinders) {
        controls.push(below);
    }
    controls
}

fn range(control: Control) -> (f32, f32) {
    match control.face() {
        Face::Slider { low, high, .. } => {
            (low.resolve(48000.0, 16.0), high.resolve(48000.0, 16.0))
        }
        Face::Heading { .. } => panic!("a heading has no range"),
    }
}

fn stored(pass: &Pass<f32, u8>, control: Control, g: &TestGenerator) -> f32 {
    match pass.reading(control, g) {
        Reading::Stored(value) => value,
        _ => panic!("not stored"),
    }
}

/// One pass over the panel with the movements that `movement` makes.
fn run(g: &mut TestGenerator, movement: impl Fn(Control) -> Move<f32, u8, u16>) -> Vec<Control> {
    let mut pass = Pass::begin(&g.engine);
    let mut controls = Vec::new();
    let mut below = Some(Control::first());
    while let Some(control) = below {
        controls.push(control);
        pass.step(control, movement(control), g, |n: usize| n as f32);
        let engine = &g.engine;
        below = control.next(engine.muffler.muffler_elements.len(), engine.cylinders.len());
    }
    controls
}

#[test]
fn every_control_comes_once() {
    let controls = column(2, 3);
    assert_eq!(controls.len(), 30 + 2 + 4 * 3);
    for (i, a) in controls.iter().enumerate() {
        for b in &controls[..i] {
            assert_ne!(a, b);
        }
    }
    assert_eq!(controls[0], Control::MixHeading);
    assert_eq!(controls[19], Control::MufflerLength(0));
    assert_eq!(controls[20], Control::MufflerLength(1));
    assert_eq!(controls[21], Control::CylinderHeading);
    assert_eq!(
        controls[32..37],
        [
            Control::IntakeLength(0),
            Control::ExhaustLength(0),
            Control::ExtractorLength(0),
            Control::CrankOffset(0),
            Control::IntakeLength(1),
        ]
    );
    assert_eq!(controls[43], Control::CrankOffset(2));
    assert_eq!(column(0, 0).len(), 30);
}

#[test]
fn labels_read_as_they_should() {
    let label = |c: Control, v: f32, n: usize| text(&c.label(v, n, 343.0));
    assert_eq!(label(Control::MixHeading, 0.0, 0), "Mix");
    assert_eq!(label(Control::Rpm, 1234.5, 0), "Engine RPM 1234.50 (20.6 hz)");
    assert_eq!(label(Control::MasterVolume, 0.1, 0), "Master volume 10%");
    assert_eq!(label(Control::IntakeVolume, 0.25, 0), "Intake volume 25%");
    assert_eq!(label(Control::ExhaustVolume, 0.5, 0), "Exhaust volume 50%");
    assert_eq!(label(Control::EngineVibrationsVolume, 1.0, 0), "Engine vibrations volume 100%");
    assert_eq!(label(Control::EngineHeading, 0.0, 0), "Engine parameters");
    assert_eq!(
        label(Control::EngineVibrationFilter, 110.0, 0),
        "Engine vibrations Lowpass-Filter Frequency 110.00hz"
    );
    assert_eq!(label(Control::IntakeNoise, 1.5, 0), "Intake noise volume 1.50");
    assert_eq!(
        label(Control::IntakeNoiseFilter, 99.5, 0),
        "Intake noise Lowpass-Filter Frequency 99.50hz"
    );
    assert_eq!(label(Control::IntakeValveShift, 0.25, 0), "Intake valve cam shift -0.25 cycles");
    assert_eq!(
        label(Control::ExhaustValveShift, -0.25, 0),
        "Exhaust valve cam shift 0.25 cycles"
    );
    assert_eq!(
        label(Control::CrankshaftFluctuation, 2.0, 0),
        "Crankshaft fluctuation factor 2.00x"
    );
    assert_eq!(
        label(Control::CrankshaftFluctuationFilter, 10.0, 0),
        "Crankshaft fluctuation noise Lowpass-Filter frequency 10.00hz"
    );
    assert_eq!(label(Control::MufflerHeading, 0.0, 0), "Muffler parameters");
    assert_eq!(
        label(Control::PipeAlpha, -0.5, 0),
        "Straight Pipe extractor-side reflectivity -0.50"
    );
    assert_eq!(label(Control::PipeBeta, 0.5, 0), "Straight Pipe muffler-side reflectivity 0.50");
    assert_eq!(
        label(Control::PipeLength, 2.0, 0),
        "Straight Pipe length 2.00m (343.0hz sine peak)"
    );
    assert_eq!(
        label(Control::MufflerBeta, 0.5, 0),
        "Muffler elements output-side (exhaust) reflectivity 0.50x"
    );
    assert_eq!(
        label(Control::MufflerLength(1), 0.5, 0),
        "2 / Muffler cavity length 0.50m (1372.0hz sine peak)"
    );
    assert_eq!(label(Control::CylinderHeading, 0.0, 0), "Cylinder parameters");
    assert_eq!(label(Control::CylinderCount, 0.0, 12), "Cylinder count 12");
    assert_eq!(
        label(Control::IntakeOpen, 0.0, 0),
        "Opened intake valve intake-cavity reflectivity 0.00"
    );
    assert_eq!(
        label(Control::IntakeClosed, 0.0, 0),
        "Closed intake valve intake-cavity reflectivity 0.00"
    );
    assert_eq!(
        label(Control::ExhaustOpen, 0.0, 0),
        "Opened exhaust valve exhaust-cavity reflectivity 0.00"
    );
    assert_eq!(
        label(Control::ExhaustClosed, 0.0, 0),
        "Closed exhaust valve exhaust-cavity reflectivity 0.00"
    );
    assert_eq!(label(Control::IntakeBeta, 0.0, 0), "Intake-cavity open end reflectivity 0.00");
    assert_eq!(
        label(Control::ExtractorBeta, 0.0, 0),
        "Extractor-cavity straight pipe side reflectivity 0.00"
    );
    assert_eq!(label(Control::PistonMotion, 2.5, 0), "Piston motion volume 2.50");
    assert_eq!(label(Control::IgnitionFactor, 2.5, 0), "Ignition volume 2.50");
    assert_eq!(label(Control::IgnitionTime, 0.25, 0), "Ignition time 0.25");
    assert_eq!(label(Control::IntakeLength(0), 0.5, 0), "1 / Intake-cavity length 0.50m");
    assert_eq!(label(Control::ExhaustLength(1), 0.5, 0), "2 / Exhaust-cavity length 0.50m");
    assert_eq!(label(Control::ExtractorLength(9), 0.5, 0), "10 / Extractor-cavity length 0.50m");
    assert_eq!(label(Control::CrankOffset(2), 0.125, 0), "3 / Crank offset 0.125 cycles");
}

#[test]
fn sliders_reach_as_far_as_they_should() {
    assert_eq!(range(Control::Rpm), (300.0, 13000.0));
    assert_eq!(range(Control::MasterVolume), (0.0, 3.0));
    assert_eq!(range(Control::IntakeVolume), (0.0, 1.0));
    assert_eq!(range(Control::ExhaustVolume), (0.0, 1.0));
    assert_eq!(range(Control::EngineVibrationsVolume), (0.0, 1.0));
    assert_eq!(range(Control::EngineVibrationFilter), (10.0, 24000.0));
    assert_eq!(range(Control::IntakeNoise), (0.0, 3.0));
    assert_eq!(range(Control::IntakeNoiseFilter), (10.0, 24000.0));
    assert_eq!(range(Control::IntakeValveShift), (-0.5, 0.5));
    assert_eq!(range(Control::ExhaustValveShift), (-0.5, 0.5));
    assert_eq!(range(Control::CrankshaftFluctuation), (0.0, 2.5));
    assert_eq!(range(Control::CrankshaftFluctuationFilter), (10.0, 24000.0));
    assert_eq!(range(Control::PipeAlpha), (-1.0, 1.0));
    assert_eq!(range(Control::PipeBeta), (-1.0, 1.0));
    assert_eq!(range(Control::PipeLength), (0.1, 3.0));
    assert_eq!(range(Control::MufflerBeta), (-1.0, 0.3));
    assert_eq!(range(Control::MufflerLength(0)), (0.001, 0.6));
    assert_eq!(range(Control::CylinderCount), (1.0, 16.0));
    assert_eq!(range(Control::IntakeOpen), (-1.0, 1.0));
    assert_eq!(range(Control::ExtractorBeta), (-1.0, 1.0));
    assert_eq!(range(Control::PistonMotion), (0.0, 20.0));
    assert_eq!(range(Control::IgnitionFactor), (0.0, 20.0));
    assert_eq!(range(Control::IgnitionTime), (0.0, 0.3));
    assert_eq!(range(Control::IntakeLength(0)), (0.0, 1.0));
    assert_eq!(range(Control::ExhaustLength(0)), (0.0, 1.7));
    assert_eq!(range(Control::ExtractorLength(0)), (0.0, 10.0));
    assert_eq!(range(Control::CrankOffset(0)), (0.0, 1.0));
    let below = Bound::Ratio { negative: true, numerator: 3, denominator: 4 };
    assert_eq!(below.resolve(0.0f32, 0.0), -0.75);
}

#[test]
fn moved_sliders_stand_where_they_were_moved() {
    let mut g = generator();
    for control in column(2, 3) {
        let mut pass = Pass::begin(&g.engine);
        if let Reading::Stored(_) = pass.reading(control, &g) {
            pass.change(control, 0.375, &mut g);
            assert_eq!(stored(&pass, control, &g), 0.375);
        }
    }
}

#[test]
fn moving_a_slider_leaves_the_others() {
    let controls = column(2, 3);
    let mix =
        [Control::IntakeVolume, Control::ExhaustVolume, Control::EngineVibrationsVolume];
    for moved in &controls {
        let mut g = generator();
        let before = generator();
        let mut pass = Pass::begin(&g.engine);
        let untouched = Pass::begin(&before.engine);
        if !matches!(pass.reading(*moved, &g), Reading::Stored(_)) {
            continue;
        }
        pass.change(*moved, 0.875, &mut g);
        for other in &controls {
            if other == moved || (mix.contains(moved) && mix.contains(other)) {
                continue;
            }
            match (pass.reading(*other, &g), untouched.reading(*other, &before)) {
                (Reading::Stored(a), Reading::Stored(b)) => assert_eq!(a, b),
                (Reading::Delay(a), Reading::Delay(b)) => assert_eq!(a, b),
                (Reading::Count(a), Reading::Count(b)) => assert_eq!(a, b),
                (Reading::Filter(a), Reading::Filter(b)) => assert_eq!(a, b),
                (Reading::Nothing, Reading::Nothing) => {}
                _ => panic!("another kind of reading"),
            }
        }
    }
}

#[test]
fn readings_of_a_pass() {
    let g = generator();
    let pass = Pass::begin(&g.engine);
    assert!(matches!(pass.reading(Control::MixHeading, &g), Reading::Nothing));
    assert_eq!(stored(&pass, Control::Rpm, &g), 800.0);
    assert_eq!(stored(&pass, Control::MasterVolume, &g), 0.1);
    assert_eq!(stored(&pass, Control::MufflerBeta, &g), 0.25);
    assert_eq!(stored(&pass, Control::IgnitionFactor, &g), 0.6);
    assert_eq!(stored(&pass, Control::CrankOffset(2), &g), 0.5);
    assert!(matches!(pass.reading(Control::PipeLength, &g), Reading::Delay(50)));
    assert!(matches!(pass.reading(Control::MufflerLength(1), &g), Reading::Delay(61)));
    assert!(matches!(pass.reading(Control::IntakeLength(1), &g), Reading::Delay(101)));
    assert!(matches!(pass.reading(Control::ExhaustLength(1), &g), Reading::Delay(201)));
    assert!(matches!(pass.reading(Control::ExtractorLength(2), &g), Reading::Delay(302)));
    assert!(matches!(pass.reading(Control::CylinderCount, &g), Reading::Count(3)));
    assert!(matches!(pass.reading(Control::EngineVibrationFilter, &g), Reading::Filter(11)));
    assert!(matches!(pass.reading(Control::IntakeNoiseFilter, &g), Reading::Filter(12)));
    assert!(matches!(
        pass.reading(Control::CrankshaftFluctuationFilter, &g),
        Reading::Filter(13)
    ));
}

#[test]
fn unmoved_pass_changes_only_mix_and_muffler() {
    let mut g = generator();
    g.engine.intake_volume = 0.5;
    g.engine.exhaust_volume = 0.5;
    g.engine.engine_vibrations_volume = 1.0;
    g.engine.muffler.muffler_elements[1].beta = -0.5;
    assert_eq!(run(&mut g, |_| Move::Still), column(2, 3));
    assert_eq!(g.engine.intake_volume, 0.25);
    assert_eq!(g.engine.engine_vibrations_volume, 0.5);
    assert_eq!(g.engine.muffler.muffler_elements[1].beta, 0.25);
    assert_eq!(g.engine.muffler.muffler_elements[1].delay, 61);
    assert_eq!(g.engine.cylinders.len(), 3);
    assert_eq!(g.engine.rpm, 800.0);
}

#[test]
fn every_pass_makes_the_mix_whole() {
    let mut g = generator();
    for value in [1.0, 0.0, 0.5, 0.25] {
        run(&mut g, |control| match control {
            Control::IntakeVolume => Move::Value(value),
            Control::EngineVibrationsVolume => Move::Value(1.0 - value),
            _ => Move::Still,
        });
        let e = &g.engine;
        let sum = e.intake_volume + e.exhaust_volume + e.engine_vibrations_volume;
        assert!((sum - 1.0).abs() <= 1e-6);
        assert!(e.intake_volume >= 0.0 && e.exhaust_volume >= 0.0);
    }
}

#[test]
fn movements_of_a_pass_are_made() {
    let mut g = generator();
    let controls = run(&mut g, |control| match control {
        Control::Rpm => Move::Value(1200.0),
        Control::IntakeNoiseFilter => Move::Filter(99),
        Control::PipeLength => Move::Guide(pipe(77)),
        Control::MufflerBeta => Move::Value(-0.5),
        Control::MufflerLength(1) => Move::Guide(pipe(88)),
        Control::CylinderCount => Move::Count(2),
        Control::IgnitionFactor => Move::Value(0.9),
        Control::CrankOffset(1) => Move::Value(0.75),
        _ => Move::Still,
    });
    assert_eq!(controls, column(2, 2));
    assert_eq!(g.engine.rpm, 1200.0);
    assert_eq!(g.engine.intake_noise_lp, 99);
    assert_eq!(g.engine.muffler.straight_pipe.delay, 77);
    assert_eq!(g.engine.muffler.straight_pipe.beta, 0.25);
    assert_eq!(g.engine.muffler.muffler_elements.len(), 2);
    assert_eq!(g.engine.muffler.muffler_elements[1].delay, 88);
    assert!(g.engine.muffler.muffler_elements.iter().all(|e| e.beta == -0.5));
    assert_eq!(g.engine.cylinders.len(), 2);
    assert!(g.engine.cylinders.iter().all(|c| c.ignition_factor == 0.9));
    assert_eq!(g.engine.cylinders[0].crank_offset, 0.0);
    assert_eq!(g.engine.cylinders[1].crank_offset, 0.75);
    assert_eq!(run(&mut g, |_| Move::Still), column(2, 2));
    assert_eq!(g.engine.cylinders[1].crank_offset, 0.75);
}

#[test]
fn muffler_elements_take_the_first_or_the_moved_reflectivity() {
    let betas = |g: &TestGenerator| -> Vec<f32> {
        g.engine.muffler.muffler_elements.iter().map(|e| e.beta).collect()
    };
    let mut g = generator();
    g.engine.muffler.muffler_elements[0].beta = -0.125;
    run(&mut g, |_| Move::Still);
    assert_eq!(betas(&g), [-0.125, -0.125]);
    run(&mut g, |control| match control {
        Control::MufflerBeta => Move::Value(0.125),
        Control::MufflerLength(0) => Move::Guide(pipe(5)),
        _ => Move::Still,
    });
    assert_eq!(betas(&g), [0.125, 0.125]);
    assert_eq!(g.engine.muffler.muffler_elements[0].delay, 5);
}

#[test]
fn muffler_elements_share_one_reflectivity() {
    let mut g = generator();
    let mut pass = Pass::begin(&g.engine);
    pass.change(Control::MufflerBeta, -0.75, &mut g);
    for i in 0..2 {
        pass.settle(Control::MufflerLength(i), &mut g.engine, |n: usize| n as f32);
    }
    assert!(g.engine.muffler.muffler_elements.iter().all(|e| e.beta == -0.75));
}

#[test]
fn shared_settings_reach_all_cylinders() {
    let mut g = generator();
    let mut pass = Pass::begin(&g.engine);
    pass.change(Control::IntakeBeta, -0.5, &mut g);
    pass.change(Control::IgnitionTime, 0.05, &mut g);
    pass.change_count(3);
    assert_eq!(g.engine.cylinders[1].ignition_time, 0.7);
    pass.settle(Control::IgnitionTime, &mut g.engine, |n: usize| n as f32);
    assert_eq!(g.engine.cylinders.len(), 3);
    for (i, c) in g.engine.cylinders.iter().enumerate() {
        assert_eq!(c.ignition_time, 0.05);
        assert_eq!(c.intake_waveguide.beta, -0.5);
        assert_eq!(c.crank_offset, i as f32 / 4.0);
    }
}

#[test]
fn number_of_cylinders_changes_at_the_end_of_the_section() {
    let mut g = generator();
    let mut pass = Pass::begin(&g.engine);
    pass.change_count(3);
    assert!(!pass.changed);
    pass.change_count(5);
    assert!(pass.changed);
    pass.settle(Control::CylinderCount, &mut g.engine, |n: usize| n as f32);
    assert_eq!(g.engine.cylinders.len(), 3);
    pass.settle(Control::IgnitionTime, &mut g.engine, |n: usize| n as f32);
    assert_eq!(g.engine.cylinders.len(), 5);
    assert_eq!(g.engine.cylinders[4].crank_offset, 0.8);
}

#[test]
fn waveguides_and_filters_are_replaced() {
    let mut g = generator();
    for control in column(2, 3) {
        let delay = match guide(control, &g.engine) {
            Some(found) => found.delay,
            None => continue,
        };
        replace_guide(control, &mut g.engine, None);
        assert_eq!(guide(control, &g.engine).unwrap().delay, delay);
        replace_guide(control, &mut g.engine, Some(pipe(delay + 1000)));
        assert_eq!(guide(control, &g.engine).unwrap().delay, delay + 1000);
    }
    assert_eq!(g.engine.cylinders[2].exhaust_waveguide.delay, 1202);
    replace_filter(Control::IntakeNoiseFilter, &mut g.engine, None);
    replace_filter(Control::EngineVibrationFilter, &mut g.engine, Some(21));
    replace_filter(Control::CrankshaftFluctuationFilter, &mut g.engine, Some(23));
    assert_eq!(g.engine.engine_vibration_filter, 21);
    assert_eq!(g.engine.intake_noise_lp, 12);
    assert_eq!(g.engine.crankshaft_fluctuation_lp, 23);
    replace_filter(Control::IntakeNoiseFilter, &mut g.engine, Some(22));
    assert_eq!(g.engine.intake_noise_lp, 22);
}

#[test]
fn pipe_length_and_samples_undo_each_other() {
    assert_eq!(pipe_length(128.0f32, 512.0, 65536.0), 1.0);
    assert_eq!(pipe_samples(1.0f32, 512.0, 65536.0), 128.0);
}

#[test]
fn recording_button_follows_the_recorder() {
    let mut g = generator();
    let button = g.record_button(false, 0.0, 48000.0);
    assert_eq!(text(&button.label), "Start recording");
    assert!(!button.repaint);
    assert_eq!(g.record_click(), RecordClick::Start);

    g.start_recording("tape");
    g.recording_currently_clipping = true;
    let button = g.record_button(true, 72000.0, 48000.0);
    assert_eq!(
        text(&button.label),
        "Stop recording [1.500 sec recorded]   !!Recording clipping!! (decrease master volume)"
    );
    assert!(button.repaint);
    assert_eq!(g.recorder, Some("tape"));
    assert_eq!(g.record_click(), RecordClick::Stop);

    g.recording_currently_clipping = false;
    let button = g.record_button(false, 72000.0, 48000.0);
    assert_eq!(text(&button.label), "Start recording");
    assert_eq!(g.recorder, None);
    assert_eq!(g.record_click(), RecordClick::Start);
}

#[test]
fn panic_button_warns_and_quietens() {
    let mut g = generator();
    assert_eq!(text(&g.panic_label()), "Panic!");
    g.waveguides_dampened = true;
    assert_eq!(
        text(&g.panic_label()),
        "Panic!   !!Resonances dampened!! (change parameters)"
    );
    g.quieten();
    assert_eq!(g.volume, 0.01);
    g.volume = 0.005;
    g.quieten();
    assert_eq!(g.volume, 0.005);
}
