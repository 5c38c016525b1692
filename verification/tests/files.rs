use enginesound_gui::engine::{Engine, Generator, Muffler, WaveGuide};
use enginesound_gui::files::{
    cancel_report, filters, finish_load, is_json, load_request, save_format, save_report,
    ConfigFormat, SaveOutcome,
};
use enginesound_gui::waterfall::Purpose;

fn engine(rpm: f32) -> Engine<f32, (), ()> {
    Engine {
        rpm,
        intake_volume: 0.0,
        exhaust_volume: 0.0,
        engine_vibrations_volume: 0.0,
        engine_vibration_filter: (),
        intake_noise_factor: 0.0,
        intake_noise_lp: (),
        intake_valve_shift: 0.0,
        exhaust_valve_shift: 0.0,
        crankshaft_fluctuation: 0.0,
        crankshaft_fluctuation_lp: (),
        muffler: Muffler {
            straight_pipe: WaveGuide { delay: 1, alpha: 0.0, beta: 0.0, line: () },
            muffler_elements: Vec::new(),
        },
        cylinders: Vec::new(),
    }
}

fn generator() -> Generator<f32, (), (), ()> {
    Generator {
        engine: engine(1.0),
        volume: 0.5,
        samples_per_second: 44100,
        recorder: None,
        recording_currently_clipping: false,
        waveguides_dampened: false,
    }
}

#[test]
fn json_is_told_by_the_end_of_the_path() {
    for path in ["", "json", "on", "a.json", "a.jsonx", "xjson", "a.JSON", "\u{e4}json", "jso"] {
        assert_eq!(is_json(path), path.ends_with("json"));
        let request = load_request(path.to_string(), 22050);
        assert_eq!(request.path, path);
        assert_eq!(request.sample_rate, 22050);
        assert_eq!(request.json, path.ends_with("json"));
    }
}

#[test]
fn format_is_told_by_the_extension() {
    assert_eq!(save_format(Some("json")), ConfigFormat::Json);
    assert_eq!(save_format(Some("xjson")), ConfigFormat::Ron);
    assert_eq!(save_format(Some("esc")), ConfigFormat::Ron);
    assert_eq!(save_format(Some("")), ConfigFormat::Ron);
    assert_eq!(save_format(None), ConfigFormat::Ron);
}

#[test]
fn loaded_engine_replaces_the_old_one() {
    let mut g = generator();
    let report = finish_load(&mut g, "v8.esc", Ok(engine(2.0)));
    assert_eq!(report.text, "Successfully loaded engine config \"v8.esc\"");
    assert!(!report.error);
    assert_eq!(g.engine.rpm, 2.0);
    assert_eq!(g.volume, 0.5);
}

#[test]
fn failed_load_leaves_the_engine() {
    let mut g = generator();
    let report = finish_load(&mut g, "v8.esc", Err("no such file".to_string()));
    assert_eq!(report.text, "Failed to load engine config \"v8.esc\": no such file");
    assert!(report.error);
    assert_eq!(g.engine.rpm, 1.0);
}

#[test]
fn last_load_that_succeeds_wins() {
    let mut g = generator();
    let failed = || Err("no such file".to_string());
    for loaded in [failed(), Ok(engine(2.0)), failed(), Ok(engine(3.0)), failed()] {
        finish_load(&mut g, "v8.esc", loaded);
    }
    assert_eq!(g.engine.rpm, 3.0);
    assert_eq!(g.volume, 0.5);
    for loaded in [failed(), failed()] {
        finish_load(&mut g, "v8.esc", loaded);
    }
    assert_eq!(g.engine.rpm, 3.0);
}

#[test]
fn saving_is_reported() {
    let saved = save_report("v8.esc", &SaveOutcome::Saved);
    assert_eq!(saved.text, "Successfully saved engine config \"v8.esc\"");
    assert!(!saved.error);
    let failed = save_report("v8.esc", &SaveOutcome::NotSerialized("deep".to_string()));
    assert_eq!(failed.text, "Failed to save engine config: deep");
    assert!(failed.error);
    let refused = save_report("v8.esc", &SaveOutcome::NotCreated("full".to_string()));
    assert_eq!(refused.text, "Failed to create file for saving engine config: full");
    assert!(refused.error);
}

#[test]
fn cancelled_dialogs_are_reported() {
    assert_eq!(cancel_report(Purpose::SaveRecording).text, "Aborted recording");
    assert_eq!(cancel_report(Purpose::SaveConfig).text, "Cancelled saving");
    assert_eq!(cancel_report(Purpose::LoadConfig).text, "Cancelled file loading dialog");
    assert!(!cancel_report(Purpose::LoadConfig).error);
}

#[test]
fn dialogs_offer_their_kinds_of_file() {
    let kinds = |purpose: Purpose| -> Vec<(&'static str, Vec<&'static str>)> {
        filters(purpose).into_iter().map(|f| (f.description, f.extensions)).collect()
    };
    assert_eq!(kinds(Purpose::SaveRecording), vec![("MONO Wave Audio file", vec!["wav"])]);
    assert_eq!(
        kinds(Purpose::LoadConfig),
        vec![
            ("Engine sound configuration files", vec!["esc", "es"]),
            ("All files", vec!["*"]),
        ]
    );
    assert_eq!(
        kinds(Purpose::SaveConfig),
        vec![
            ("Engine sound RON file", vec!["esc", "ron"]),
            ("Engine sound JSON file", vec!["json"]),
        ]
    );
}
