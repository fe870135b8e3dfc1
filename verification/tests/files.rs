use audio_calculator::app::{AudioCalculatorApp, ScannedPath, UiEvent};
use audio_calculator::audio::{
    get_audio_duration, shell_duration_from_units, shell_duration_settles, timing_from_probe, AudioFileInfo,
    TrackTiming,
};
use audio_calculator::duration::Duration;
use audio_calculator::formats::{extension_is_counted, is_supported_extension};
use audio_calculator::listing::{contains_path, total_duration_of};
use audio_calculator::order::sort_files;
use audio_calculator::scan::{files_in_walk, paths_from_targets, ArgTarget, WalkEntry};

fn scanned(path: &str, ext: Option<&str>, name: &str, secs: Option<u64>) -> ScannedPath {
    ScannedPath {
        path: path.to_string(),
        exists: true,
        extension: ext.map(|e| e.to_string()),
        file_name: name.to_string(),
        duration: secs.map(Duration::from_secs),
    }
}

fn file(path: &str, name: &str, secs: u64) -> AudioFileInfo {
    AudioFileInfo { file_path: path.to_string(), file_name: name.to_string(), duration: Duration::from_secs(secs) }
}

fn names(app: &AudioCalculatorApp) -> Vec<String> {
    app.audio_files().iter().map(|f| f.file_name.clone()).collect()
}

#[test]
fn supported_extensions_ignore_case() {
    assert!(is_supported_extension("mp3"));
    assert!(is_supported_extension("MP3"));
    assert!(is_supported_extension("Flac"));
    assert!(is_supported_extension("mkv"));
    assert!(!is_supported_extension("txt"));
    assert!(!is_supported_extension(""));
    assert!(!is_supported_extension("mp33"));
    assert!(!extension_is_counted(&None));
    assert!(extension_is_counted(&Some("OPUS".to_string())));
}

#[test]
fn sort_files_by_lowercase_name_stably() {
    let v = vec![file("/1", "b.mp3", 1), file("/2", "A.mp3", 2), file("/3", "a.mp3", 3), file("/4", "C.wav", 4)];
    let sorted = sort_files(v);
    let got: Vec<&str> = sorted.iter().map(|f| f.file_path.as_str()).collect();
    assert_eq!(got, vec!["/2", "/3", "/1", "/4"]);
}

#[test]
fn total_and_contains() {
    let v = vec![file("/a", "a", 10), file("/b", "b", 20)];
    assert_eq!(total_duration_of(&v).as_secs(), 30);
    assert!(contains_path(&v, &"/b".to_string()));
    assert!(!contains_path(&v, &"/c".to_string()));
}

#[test]
fn new_app_state() {
    let app = AudioCalculatorApp::new();
    assert!(app.audio_files().is_empty());
    assert!(app.total_duration().is_zero());
    assert_eq!(app.price_input(), "100");
    assert!(!app.use_minute());
}

#[test]
fn add_files_filters_and_sorts() {
    let mut app = AudioCalculatorApp::new();
    let mut missing = scanned("/m.mp3", Some("mp3"), "m.mp3", Some(5));
    missing.exists = false;
    app.add_files(vec![
        scanned("/z.mp3", Some("mp3"), "z.mp3", Some(60)),
        scanned("/note.txt", Some("txt"), "note.txt", Some(5)),
        missing,
        scanned("/B.WAV", Some("WAV"), "B.WAV", Some(30)),
        scanned("/z.mp3", Some("mp3"), "z.mp3", Some(60)),
        scanned("/broken.flac", Some("flac"), "broken.flac", None),
        scanned("/noext", None, "noext", Some(5)),
        scanned("/a.ogg", Some("ogg"), "a.ogg", Some(10)),
    ]);
    assert_eq!(names(&app), vec!["a.ogg", "B.WAV", "z.mp3"]);
    assert_eq!(app.total_duration().as_secs(), 100);
    assert_eq!(AudioCalculatorApp::format_duration(app.total_duration()), "00:01:40");
}

#[test]
fn add_files_skips_listed_paths_and_resorts() {
    let mut app = AudioCalculatorApp::new();
    app.add_files(vec![scanned("/c.mp3", Some("mp3"), "c.mp3", Some(1))]);
    app.add_files(vec![
        scanned("/c.mp3", Some("mp3"), "c.mp3", Some(1)),
        scanned("/a.mp3", Some("mp3"), "a.mp3", Some(2)),
    ]);
    assert_eq!(names(&app), vec!["a.mp3", "c.mp3"]);
    assert_eq!(app.total_duration().as_secs(), 3);
}

#[test]
fn add_same_batch_twice_changes_nothing() {
    let batch = || {
        vec![
            scanned("/x.mp3", Some("mp3"), "x.mp3", Some(7)),
            scanned("/y.mp3", Some("mp3"), "Y.mp3", Some(8)),
            scanned("/x.mp3", Some("mp3"), "x.mp3", Some(7)),
        ]
    };
    let mut app = AudioCalculatorApp::new();
    app.add_files(batch());
    let once = names(&app);
    let total = app.total_duration();
    app.add_files(batch());
    assert_eq!(names(&app), once);
    assert_eq!(app.total_duration(), total);
}

#[test]
fn try_add_files_refuses_overflow() {
    let mut app = AudioCalculatorApp::new();
    let mut big = scanned("/big.mp3", Some("mp3"), "big.mp3", None);
    big.duration = Some(Duration::new(u64::MAX, 0));
    assert!(app.try_add_files(vec![big]));
    assert_eq!(app.audio_files().len(), 1);
    let refused = app.try_add_files(vec![scanned("/one.mp3", Some("mp3"), "one.mp3", Some(1))]);
    assert!(!refused);
    assert_eq!(names(&app), vec!["big.mp3"]);
    assert_eq!(app.total_duration().as_secs(), u64::MAX);
}

#[test]
fn clear_and_events() {
    let mut app = AudioCalculatorApp::new();
    app.add_files(vec![scanned("/a.mp3", Some("mp3"), "a.mp3", Some(2))]);
    app.apply(UiEvent::PriceEdited("12.5".to_string()));
    app.apply(UiEvent::UnitChosen(true));
    assert_eq!(app.price_input(), "12.5");
    assert!(app.use_minute());
    app.apply(UiEvent::ClearRequested);
    assert!(app.audio_files().is_empty());
    assert!(app.total_duration().is_zero());
    assert_eq!(app.price_input(), "12.5");
    assert!(app.take_message().is_none());
    app.apply(UiEvent::ContextMenuAdded(Ok(())));
    assert_eq!(app.take_message(), Some(("已添加到右键菜单！".to_string(), true)));
    assert!(app.take_message().is_none());
    app.apply(UiEvent::ContextMenuRemoved(Err("denied".to_string())));
    assert_eq!(app.take_message(), Some(("denied".to_string(), false)));
    app.apply(UiEvent::ScreenshotFailed("无法加载字体".to_string()));
    assert_eq!(app.take_message(), Some(("截图失败: 无法加载字体".to_string(), false)));
    app.apply(UiEvent::ClipboardWritten(true));
    assert_eq!(app.take_message(), Some(("截图已复制到剪贴板！".to_string(), true)));
    app.apply(UiEvent::ClipboardWritten(false));
    assert_eq!(app.take_message(), Some(("复制到剪贴板失败".to_string(), false)));
    app.apply(UiEvent::ContextMenuRemoved(Ok(())));
    assert_eq!(app.take_message(), Some(("已移除右键菜单！".to_string(), true)));
}

#[test]
fn shell_duration_preferred_when_positive() {
    let shell = Some(Duration::from_secs(3));
    let decoded = Some(Duration::from_secs(4));
    assert_eq!(get_audio_duration(shell, decoded), shell);
    assert_eq!(get_audio_duration(Some(Duration::zero()), decoded), decoded);
    assert_eq!(get_audio_duration(None, decoded), decoded);
    assert_eq!(get_audio_duration(None, None), None);
    assert!(shell_duration_settles(&shell));
    assert!(!shell_duration_settles(&Some(Duration::zero())));
}

#[test]
fn timing_needs_frames_and_time_base() {
    assert_eq!(
        timing_from_probe(Some((Some(10), Some((1, 5))))),
        Some(TrackTiming { n_frames: 10, numer: 1, denom: 5 })
    );
    assert_eq!(timing_from_probe(Some((None, Some((1, 5))))), None);
    assert_eq!(timing_from_probe(Some((Some(10), None))), None);
    assert_eq!(timing_from_probe(None), None);
}

#[test]
fn shell_units_become_hundreds_of_nanoseconds() {
    assert_eq!(shell_duration_from_units(Some(5)), Some(Duration::from_nanos(500)));
    assert_eq!(shell_duration_from_units(Some(12_345_678)), Some(Duration::new(1, 234_567_800)));
    assert_eq!(shell_duration_from_units(Some(0)), None);
    assert_eq!(shell_duration_from_units(Some(-7)), None);
    assert_eq!(shell_duration_from_units(None), None);
}

#[test]
fn walk_keeps_counted_files() {
    let e = |p: &str, f: bool, x: Option<&str>| WalkEntry { path: p.to_string(), is_file: f, extension: x.map(|s| s.to_string()) };
    let got = files_in_walk(vec![e("/d/a.MP3", true, Some("MP3")), e("/d/sub", false, None), e("/d/b.txt", true, Some("txt")), e("/d/c.mkv", true, Some("mkv")), e("/d/dir.mp3", false, Some("mp3"))]);
    assert_eq!(got, vec!["/d/a.MP3".to_string(), "/d/c.mkv".to_string()]);
    let all = paths_from_targets(vec![
        ArgTarget::File("/x.txt".to_string()),
        ArgTarget::Other,
        ArgTarget::Directory(vec![e("/d/a.wav", true, Some("wav"))]),
        ArgTarget::File("/y.mp3".to_string()),
    ]);
    assert_eq!(all, vec!["/x.txt".to_string(), "/d/a.wav".to_string(), "/y.mp3".to_string()]);
}
