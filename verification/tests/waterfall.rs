use crossbeam_channel::unbounded;
use enginesound_gui::app::{EngineSoundApp, TextureUpdate};
use enginesound_gui::color::{gradient, gradient_color, mix, waterfall_color};
use enginesound_gui::waterfall::{
    read_row, sample_points, GUIState, Purpose, SamplePoint, ShortLine, WATERFALL_HEIGHT,
    WATERFALL_WIDTH,
};
use std::path::PathBuf;

const WIDTH: usize = WATERFALL_WIDTH as usize;
const HEIGHT: usize = WATERFALL_HEIGHT as usize;

fn points() -> Vec<SamplePoint<f32>> {
    sample_points(&|x: f32| x.log2(), &|x: f32| x.floor() as usize, &|x: f32| x.fract())
}

fn straight_points() -> Vec<SamplePoint<f32>> {
    (0..WIDTH).map(|index| SamplePoint { index, fraction: 1.0 }).collect()
}

fn pixels(state: &GUIState<f32>) -> Vec<[u8; 4]> {
    let image = state.waterfall_image(&|x: f32| x as u8).unwrap();
    assert_eq!((image.width, image.height), (512, 50));
    image.pixels
}

fn color(x: f32) -> [u8; 3] {
    waterfall_color(x, &|x: f32| x as u8).unwrap()
}

fn pixel(x: f32) -> [u8; 4] {
    let [r, g, b] = color(x);
    [r, g, b, 255]
}

#[test]
fn colors_of_the_stops() {
    assert_eq!(color(0.0), [0, 0, 0]);
    assert_eq!(color(0.21), [0, 51, 58]);
    assert_eq!(color(0.325), [0, 76, 153]);
    assert_eq!(color(0.44), [130, 91, 255]);
    assert_eq!(color(0.69), [255, 140, 0]);
    assert_eq!(color(0.85), [255, 219, 175]);
    assert_eq!(color(1.0), [255, 255, 255]);
}

#[test]
fn every_value_has_a_color() {
    assert_eq!(color(-5.0), [0, 0, 0]);
    assert_eq!(color(f32::NAN), [0, 0, 0]);
    assert_eq!(color(f32::NEG_INFINITY), [0, 0, 0]);
    assert_eq!(color(10.0), [255, 255, 255]);
    assert_eq!(color(1e30), [255, 255, 255]);
    assert_eq!(color(f32::INFINITY), [255, 255, 255]);
}

#[test]
fn colors_between_stops_are_mixed() {
    let [r, g, b] = mix(0.105f32, &gradient()).unwrap();
    assert_eq!(r, 0.0);
    assert!((g - 0.1).abs() < 1e-6);
    assert!((b - 0.115).abs() < 1e-6);
}

#[test]
fn nothing_outside_of_the_gradient() {
    assert!(mix(-0.1f32, &gradient()).is_none());
    assert!(mix(10.01f32, &gradient()).is_none());
    assert!(mix(f32::NAN, &gradient()).is_none());
    assert!(mix(0.5f32, &[]).is_none());
    assert!(gradient_color(0.5f32, &[], &|x: f32| x as u8).is_none());
    assert_eq!(gradient_color(1.0f32, &gradient(), &|x: f32| x as u8), Some([255; 3]));
    let (_sender, receiver) = unbounded();
    let state: GUIState<f32> = GUIState::new(receiver);
    assert!(state.image_in(&[], &|x: f32| x as u8).is_none());
}

#[test]
fn sample_points_follow_the_logarithm() {
    let width = WATERFALL_WIDTH;
    let p = points();
    assert_eq!(p.len(), WIDTH);
    for i in 0..WIDTH {
        let new = ((1.0 - (i + 1) as f32 / (width + 1) as f32).log2()
            / (width as f32).recip().log2()
            * (width - 1) as f32)
            .max(1e-3);
        assert_eq!(p[i].index, new.floor() as usize);
        assert_eq!(p[i].fraction, new.fract());
        assert!(p[i].index < WIDTH);
    }
    assert_eq!(p[0].index, 0);
}

#[test]
fn rows_blend_neighbouring_bins() {
    let p = vec![
        SamplePoint { index: 0, fraction: 0.25f32 },
        SamplePoint { index: 1, fraction: 0.25 },
        SamplePoint { index: 2, fraction: 0.5 },
    ];
    assert_eq!(read_row(&p, &[4.0, 8.0, 16.0]), Ok(vec![4.0, 5.0, 12.0]));
}

#[test]
fn short_lines_are_refused() {
    let p = vec![SamplePoint { index: 2, fraction: 0.5f32 }];
    assert_eq!(read_row(&p, &[4.0, 8.0]), Err(ShortLine));
    let (_sender, receiver) = unbounded();
    let mut state = GUIState::new(receiver);
    assert_eq!(state.absorb(&straight_points(), Some(vec![1.0; WIDTH - 1])), Err(ShortLine));
    assert_eq!(pixels(&state), vec![pixel(0.07); WIDTH * HEIGHT]);
}

#[test]
fn new_waterfall_is_at_rest() {
    let (_sender, receiver) = unbounded();
    let state: GUIState<f32> = GUIState::new(receiver);
    assert_eq!(pixels(&state), vec![pixel(0.07); WIDTH * HEIGHT]);
    for purpose in [Purpose::SaveRecording, Purpose::SaveConfig, Purpose::LoadConfig] {
        assert!(state.directory(purpose).is_none());
    }
}

#[test]
fn lines_scroll_in_from_the_top() {
    let (_sender, receiver) = unbounded();
    let mut state = GUIState::new(receiver);
    state.add_line(&vec![1.0f32; WIDTH]);
    let mut second = vec![0.0f32; WIDTH];
    second[WIDTH - 1] = 0.69;
    state.add_line(&second);
    let p = pixels(&state);
    assert_eq!(p.len(), WIDTH * HEIGHT);
    assert!(p[..WIDTH - 1].iter().all(|x| *x == [0, 0, 0, 255]));
    assert_eq!(p[WIDTH - 1], [255, 140, 0, 255]);
    assert!(p[WIDTH..2 * WIDTH].iter().all(|x| *x == [255, 255, 255, 255]));
    assert!(p[2 * WIDTH..].iter().all(|x| *x == pixel(0.07)));
}

#[test]
fn waterfall_shows_the_latest_rows() {
    let (_sender, receiver) = unbounded();
    let mut state = GUIState::new(receiver);
    for i in 0..60 {
        state.add_line(&vec![i as f32 / 60.0; WIDTH]);
    }
    let p = pixels(&state);
    for k in 0..HEIGHT {
        assert_eq!(p[k * WIDTH], pixel((59 - k) as f32 / 60.0));
        assert_eq!(p[(k + 1) * WIDTH - 1], pixel((59 - k) as f32 / 60.0));
    }
}

#[test]
fn feeding_takes_everything_that_waits() {
    let (sender, receiver) = unbounded();
    let mut state = GUIState::new(receiver);
    let points = straight_points();
    assert_eq!(state.feed(&points), Ok(false));
    sender.send(vec![1.0f32; WIDTH]).unwrap();
    sender.send(vec![0.0f32; WIDTH]).unwrap();
    assert_eq!(state.feed(&points), Ok(true));
    assert_eq!(state.feed(&points), Ok(false));
    let p = pixels(&state);
    assert_eq!(p[0], [0, 0, 0, 255]);
    assert_eq!(p[WIDTH], [255, 255, 255, 255]);
    assert_eq!(p[2 * WIDTH], pixel(0.07));
    drop(sender);
    assert_eq!(state.feed(&points), Ok(false));
}

#[test]
fn feeding_stops_at_a_short_line() {
    let (sender, receiver) = unbounded();
    let mut state = GUIState::new(receiver);
    let points = straight_points();
    sender.send(vec![1.0f32; WIDTH]).unwrap();
    sender.send(vec![0.0f32; 3]).unwrap();
    sender.send(vec![0.69f32; WIDTH]).unwrap();
    assert_eq!(state.feed(&points), Err(ShortLine));
    assert_eq!(pixels(&state)[0], [255, 255, 255, 255]);
    assert_eq!(state.feed(&points), Ok(true));
    assert_eq!(pixels(&state)[0], [255, 140, 0, 255]);
}

fn update(state: &mut GUIState<f32>) -> Result<bool, ShortLine> {
    state.update(&|x: f32| x.log2(), &|x: f32| x.floor() as usize, &|x: f32| x.fract())
}

#[test]
fn update_reads_rows_on_a_logarithmic_scale() {
    let (sender, receiver) = unbounded();
    let mut state = GUIState::new(receiver);
    assert_eq!(update(&mut state), Ok(false));
    let first: Vec<f32> = (0..WIDTH).map(|i| i as f32 / WIDTH as f32).collect();
    let second: Vec<f32> = (0..WIDTH).map(|i| 1.0 - i as f32 / WIDTH as f32).collect();
    sender.send(first.clone()).unwrap();
    sender.send(second.clone()).unwrap();
    assert_eq!(update(&mut state), Ok(true));
    let top: Vec<[u8; 4]> =
        read_row(&points(), &second).unwrap().into_iter().map(pixel).collect();
    let below: Vec<[u8; 4]> =
        read_row(&points(), &first).unwrap().into_iter().map(pixel).collect();
    let p = pixels(&state);
    assert_eq!(p[..WIDTH], top[..]);
    assert_eq!(p[WIDTH..2 * WIDTH], below[..]);
    assert_eq!(p[2 * WIDTH], pixel(0.07));
    sender.send(vec![1.0; WIDTH - 1]).unwrap();
    assert_eq!(update(&mut state), Err(ShortLine));
    assert_eq!(pixels(&state), p);
    assert_eq!(update(&mut state), Ok(false));
}

#[test]
fn spectra_may_come_one_by_one() {
    let lines: Vec<Vec<f32>> =
        (0..60).map(|n| (0..WIDTH).map(|i| ((n + i) % 60) as f32 / 60.0).collect()).collect();
    let (sender, receiver) = unbounded();
    let mut together = GUIState::new(receiver);
    for line in &lines {
        sender.send(line.clone()).unwrap();
    }
    assert_eq!(update(&mut together), Ok(true));
    assert_eq!(update(&mut together), Ok(false));
    let (sender, receiver) = unbounded();
    let mut alone = GUIState::new(receiver);
    for line in &lines {
        sender.send(line.clone()).unwrap();
        assert_eq!(update(&mut alone), Ok(true));
    }
    assert_eq!(pixels(&together), pixels(&alone));
    let row: Vec<[u8; 4]> =
        read_row(&points(), &lines[59 - 7]).unwrap().into_iter().map(pixel).collect();
    assert_eq!(pixels(&together)[7 * WIDTH..8 * WIDTH], row[..]);
}

#[test]
fn short_spectra_are_taken_and_later_ones_stay() {
    let (sender, receiver) = unbounded();
    let mut state = GUIState::new(receiver);
    sender.send(vec![1.0f32; WIDTH]).unwrap();
    sender.send(vec![0.0; WIDTH - 1]).unwrap();
    sender.send(vec![0.0; 2 * WIDTH]).unwrap();
    drop(sender);
    assert_eq!(update(&mut state), Err(ShortLine));
    assert_eq!(pixels(&state)[..WIDTH], vec![[255; 4]; WIDTH][..]);
    assert_eq!(pixels(&state)[WIDTH], pixel(0.07));
    assert_eq!(update(&mut state), Ok(true));
    assert_eq!(pixels(&state)[0], [0, 0, 0, 255]);
    assert_eq!(pixels(&state)[WIDTH], [255; 4]);
    assert_eq!(update(&mut state), Ok(false));
}

#[test]
fn rows_show_the_bins_that_are_read() {
    let points = points();
    let line: Vec<f32> = (0..WIDTH).map(|i| (i % 7) as f32).collect();
    let mut longer = line.clone();
    longer.extend([9.0, f32::NAN, -3.0]);
    assert_eq!(read_row(&points, &line), read_row(&points, &longer));
}

#[test]
fn rows_are_as_strong_as_the_spectrum() {
    let points = points();
    let line: Vec<f32> = (0..WIDTH).map(|i| (i % 7) as f32 / 8.0).collect();
    let doubled: Vec<f32> = line.iter().map(|x| x * 2.0).collect();
    let row = read_row(&points, &line).unwrap();
    let expected: Vec<f32> = row.iter().map(|x| x * 2.0).collect();
    assert_eq!(read_row(&points, &doubled), Ok(expected));
}

#[test]
fn picture_scrolls_with_the_waterfall() {
    let (_sender, receiver) = unbounded();
    let mut state = GUIState::new(receiver);
    for i in 0..7 {
        state.add_line(&vec![i as f32 / 7.0; WIDTH]);
    }
    let before = pixels(&state);
    let line: Vec<f32> = (0..WIDTH).map(|i| i as f32 / WIDTH as f32).collect();
    state.add_line(&line);
    let after = pixels(&state);
    for i in 0..WIDTH {
        assert_eq!(after[i], pixel(line[i]));
    }
    assert_eq!(after[WIDTH..], before[..WIDTH * (HEIGHT - 1)]);
}

#[test]
fn red_and_green_never_fall() {
    let mut last = color(0.0);
    for i in 0..=10000 {
        let now = color(i as f32 / 8000.0);
        assert!(last[0] <= now[0] && last[1] <= now[1]);
        last = now;
    }
    // Blue does fall.
    assert!(color(0.44)[2] > color(0.69)[2]);
}

#[test]
fn colors_end_at_zero_and_one() {
    for x in [-1e9, -0.001, 0.0, 0.3, 0.999, 1.0, 1.001, 5.0, 9.999, 10.0, 1e9] {
        assert_eq!(color(x), color(x.max(0.0).min(1.0)));
    }
    assert_eq!(color(f32::NAN), color(0.0));
}

#[test]
fn directories_are_remembered_by_purpose() {
    let (_sender, receiver) = unbounded();
    let mut state: GUIState<f32> = GUIState::new(receiver);
    state.set_directory(Purpose::SaveConfig, Some(PathBuf::from("/a")));
    state.set_directory(Purpose::LoadConfig, Some(PathBuf::from("/b")));
    assert_eq!(*state.directory(Purpose::SaveRecording), None);
    assert_eq!(*state.directory(Purpose::SaveConfig), Some(PathBuf::from("/a")));
    assert_eq!(*state.directory(Purpose::LoadConfig), Some(PathBuf::from("/b")));
    state.set_directory(Purpose::SaveConfig, None);
    assert_eq!(*state.directory(Purpose::SaveConfig), None);
}

#[test]
fn texture_is_loaded_once_and_replaced_on_updates() {
    let (_sender, receiver) = unbounded::<Vec<f32>>();
    let mut app: EngineSoundApp<f32, (), u8, ()> =
        EngineSoundApp::new((), receiver, (), 48000, true);
    assert_eq!(app.texture_update(false), TextureUpdate::Load);
    assert_eq!(app.texture_update(true), TextureUpdate::Load);
    app.keep_texture(1);
    assert_eq!(app.waterfall_texture, Some(1));
    assert_eq!(app.sample_rate, 48000);
    assert_eq!(app.texture_update(false), TextureUpdate::Keep);
    assert_eq!(app.texture_update(true), TextureUpdate::Replace);
    assert_eq!(app.texture_update(true), TextureUpdate::Replace);
    assert_eq!(app.texture_update(false), TextureUpdate::Keep);
}

#[test]
fn dropped_files_load_in_order() {
    let (_sender, receiver) = unbounded::<Vec<f32>>();
    let mut app: EngineSoundApp<f32, (), u8, ()> =
        EngineSoundApp::new((), receiver, (), 48000, true);
    let files = vec![Some("a.json".to_string()), None, Some("b.esc".to_string())];
    let requests = app.dropped(&files);
    assert_eq!(requests.len(), 2);
    assert_eq!(requests[0].path, "a.json");
    assert!(requests[0].json);
    assert_eq!(requests[0].sample_rate, 48000);
    assert_eq!(requests[1].path, "b.esc");
    assert!(!requests[1].json);
    app.allow_drag_drop = false;
    assert!(app.dropped(&files).is_empty());
}
