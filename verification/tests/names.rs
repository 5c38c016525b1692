use chrono::{Datelike, Local};
use enginesound_gui::clock::{
    config_name, config_name_at, recording_name, recording_name_at, Moment,
};

fn moment(day: u32, month: u32, year: i32, hour: u32, minute: u32, second: u32) -> Moment {
    Moment { day, month, year, hour, minute, second }
}

#[test]
fn names_carry_the_moment() {
    let m = moment(3, 11, 2021, 7, 5, 59);
    assert_eq!(recording_name_at(&m), "enginesound_03112021-070559.wav");
    assert_eq!(config_name_at(&m), "enginesound_03112021-070559.esc");
}

#[test]
fn names_agree_with_the_formatter_on_odd_years() {
    for year in [0, 7, 42, 999, 1970, 9999, 10000, 262142, -1, -44, -999, -1000, -262143, i32::MIN] {
        let m = moment(31, 12, year, 23, 59, 0);
        let expected = format!(
            "enginesound_{:02}{:02}{:04}-{:02}{:02}{:02}.wav",
            31, 12, year, 23, 59, 0
        );
        assert_eq!(recording_name_at(&m), expected);
    }
}

#[test]
fn different_moments_have_different_names() {
    let a = moment(1, 1, 2020, 0, 0, 0);
    let b = moment(1, 1, 2020, 0, 0, 1);
    assert_ne!(recording_name_at(&a), recording_name_at(&b));
    assert_ne!(config_name_at(&a), config_name_at(&b));
}

#[test]
fn names_of_a_moment_differ_in_the_ending_only() {
    let m = moment(1, 2, 2003, 4, 5, 6);
    assert_eq!(
        recording_name_at(&m).trim_end_matches(".wav"),
        config_name_at(&m).trim_end_matches(".esc")
    );
}

#[test]
fn names_of_now_show_the_local_date() {
    let before = Local::now();
    let recording = recording_name();
    let config = config_name();
    let after = Local::now();
    let stamps: Vec<String> = [before, after]
        .iter()
        .map(|t| format!("enginesound_{:02}{:02}{:04}-", t.day(), t.month(), t.year()))
        .collect();
    assert!(stamps.iter().any(|s| recording.starts_with(s.as_str())));
    assert!(stamps.iter().any(|s| config.starts_with(s.as_str())));
    assert!(recording.ends_with(".wav") && config.ends_with(".esc"));
    assert_eq!(recording.len(), 31);
}
