use audio_calculator::audio::AudioFileInfo;
use audio_calculator::duration::Duration;
use audio_calculator::listing::total_duration_of;
use audio_calculator::order::sort_files;
use audio_calculator::text::{decimal_string, format_duration};
use audio_calculator::shell::{context_menu_key_paths, context_menu_plan, RegistryStep};

fn file(path: &str, name: &str, secs: u64) -> AudioFileInfo {
    AudioFileInfo { file_path: path.to_string(), file_name: name.to_string(), duration: Duration::from_secs(secs) }
}

fn paths(v: &[AudioFileInfo]) -> Vec<String> {
    v.iter().map(|f| f.file_path.clone()).collect()
}

#[test]
fn sorting_sorted_list_keeps_it() {
    let v = vec![file("/1", "alpha", 1), file("/2", "Beta", 2), file("/3", "beta", 3), file("/4", "gamma", 4)];
    let once = sort_files(v);
    let order = paths(&once);
    let twice = sort_files(once);
    assert_eq!(paths(&twice), order);
}

#[test]
fn sorting_keeps_members_and_total() {
    let v = vec![file("/1", "d", 5), file("/2", "C", 7), file("/3", "b", 11), file("/4", "A", 13)];
    let before = total_duration_of(&v);
    let mut before_paths = paths(&v);
    let sorted = sort_files(v);
    assert_eq!(total_duration_of(&sorted), before);
    let mut after_paths = paths(&sorted);
    before_paths.sort();
    after_paths.sort();
    assert_eq!(before_paths, after_paths);
    assert_eq!(paths(&sorted), vec!["/4", "/3", "/2", "/1"]);
}

#[test]
fn equal_names_keep_their_order() {
    let v = vec![file("/first", "Song", 1), file("/x", "a", 1), file("/second", "song", 1), file("/third", "SONG", 1)];
    let sorted = sort_files(v);
    assert_eq!(paths(&sorted), vec!["/x", "/first", "/second", "/third"]);
}

#[test]
fn decimal_reads_back() {
    for n in [0u64, 7, 10, 99, 100, 4096, 1_000_000_007, u64::MAX] {
        let s = decimal_string(n);
        assert_eq!(s.parse::<u64>().unwrap(), n);
        assert!(n == 0 || !s.starts_with('0'));
    }
}

#[test]
fn clock_fields_add_back() {
    for secs in [0u64, 59, 60, 3599, 3600, 86399, 360000 + 3599] {
        let text = format_duration(Duration::from_secs(secs));
        let parts: Vec<u64> = text.split(':').map(|p| p.parse().unwrap()).collect();
        assert_eq!(parts.len(), 3);
        assert!(parts[1] < 60 && parts[2] < 60);
        assert_eq!(parts[0] * 3600 + parts[1] * 60 + parts[2], secs);
        let fields: Vec<&str> = text.split(':').collect();
        assert_eq!(fields[1].len(), 2);
        assert_eq!(fields[2].len(), 2);
        assert!(fields[0].len() >= 2);
    }
}

#[test]
fn removal_covers_every_created_key() {
    let keys = context_menu_key_paths();
    let mut created = 0;
    for step in context_menu_plan("C:\\Tools\\calc.exe") {
        if let RegistryStep::CreateKey { path, .. } = step {
            created += 1;
            assert!(keys.iter().any(|k| path == *k || path.starts_with(&format!("{}\\", k))));
        }
    }
    assert_eq!(created, 4);
}
