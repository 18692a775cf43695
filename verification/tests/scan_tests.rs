//! Behavioral tests for the scanner: directory listing, audio
//! classification, root selection and duration filtering.

use music_library::scan::{
    accept_song, collect_audio_paths, effective_min_duration_ms, effective_skip_short,
    existing_roots, filter_scanned_songs, get_lyrics, get_music_metadata, is_audio_file,
    list_directories, DirectoryEntry, ScanOptions, ScannedSong, WalkedFile,
};
use music_library::text::{path_ext_lower, path_stem};

fn dir_entry(name: &str, is_dir: bool) -> DirectoryEntry {
    DirectoryEntry {
        name: String::from(name),
        path: format!("/root/{}", name),
        is_dir,
    }
}

fn song(path: &str, duration_ms: u64) -> ScannedSong {
    ScannedSong {
        path: String::from(path),
        duration_ms,
        title: None,
        artist: None,
        album: None,
    }
}

#[test]
fn list_directories_filters_and_sorts() {
    let entries = vec![
        dir_entry("beta", true),
        dir_entry(".hidden", true),
        dir_entry("Alpha", true),
        dir_entry("track.mp3", false),
    ];
    let r = list_directories("/root", true, true, &entries).unwrap();
    let names: Vec<&str> = r.iter().map(|e| e.name.as_str()).collect();
    assert_eq!(names, vec!["Alpha", "beta"]);
    assert!(r.iter().all(|e| e.is_dir));
    assert_eq!(r[0].path, "/root/Alpha");
}

#[test]
fn list_directories_sorts_case_insensitively() {
    let entries = vec![dir_entry("Beta", true), dir_entry("alpha", true)];
    let r = list_directories("/root", true, true, &entries).unwrap();
    let names: Vec<&str> = r.iter().map(|e| e.name.as_str()).collect();
    assert_eq!(names, vec!["alpha", "Beta"]);
}

#[test]
fn list_directories_missing_path_is_an_error() {
    let entries: Vec<DirectoryEntry> = Vec::new();
    let r = list_directories("/nope", false, false, &entries);
    assert_eq!(r.unwrap_err(), "Path does not exist: /nope");
}

#[test]
fn list_directories_non_directory_is_an_error() {
    let entries: Vec<DirectoryEntry> = Vec::new();
    let r = list_directories("/a/file.txt", true, false, &entries);
    assert_eq!(r.unwrap_err(), "Path is not a directory: /a/file.txt");
}

#[test]
fn audio_classification_goes_by_folded_extension() {
    assert!(is_audio_file("/music/a.mp3"));
    assert!(is_audio_file("/music/b.FLAC"));
    assert!(is_audio_file("c.Ogg"));
    assert!(is_audio_file("d.m4a"));
    assert!(!is_audio_file("/music/readme.txt"));
    assert!(!is_audio_file("/music/noextension"));
    assert!(!is_audio_file("/music/.mp3"));
    assert!(!is_audio_file("/music.mp3/cover"));
    assert!(!is_audio_file("/music/trailingdot."));
}

#[test]
fn collect_audio_paths_keeps_audio_files_in_order() {
    let walked = vec![
        WalkedFile { path: String::from("/m"), is_file: false },
        WalkedFile { path: String::from("/m/a.mp3"), is_file: true },
        WalkedFile { path: String::from("/m/cover.png"), is_file: true },
        WalkedFile { path: String::from("/m/sub"), is_file: false },
        WalkedFile { path: String::from("/m/sub/b.flac"), is_file: true },
        WalkedFile { path: String::from("/m/fake.mp3"), is_file: false },
    ];
    assert_eq!(
        collect_audio_paths(&walked),
        vec![String::from("/m/a.mp3"), String::from("/m/sub/b.flac")]
    );
}

#[test]
fn missing_roots_contribute_nothing() {
    let dirs = vec![String::from("/music"), String::from("/gone")];
    let found = vec![true, false];
    assert_eq!(existing_roots(&dirs, &found), vec![String::from("/music")]);
    let none = vec![false, false];
    assert!(existing_roots(&dirs, &none).is_empty());
}

#[test]
fn scan_option_defaults() {
    let opts = ScanOptions {
        directories: Vec::new(),
        skip_short_audio: None,
        min_duration_ms: None,
    };
    assert!(!effective_skip_short(&opts));
    assert_eq!(effective_min_duration_ms(&opts), 30000);
    let set = ScanOptions {
        directories: Vec::new(),
        skip_short_audio: Some(true),
        min_duration_ms: Some(5000),
    };
    assert!(effective_skip_short(&set));
    assert_eq!(effective_min_duration_ms(&set), 5000);
}

#[test]
fn duration_boundary_is_inclusive() {
    let below = accept_song(Some(song("a.mp3", 29999)), true, 30000);
    assert!(below.is_none());
    let exact = accept_song(Some(song("b.mp3", 30000)), true, 30000);
    assert_eq!(exact.unwrap().duration_ms, 30000);
    let ignored = accept_song(Some(song("c.mp3", 1)), false, 30000);
    assert_eq!(ignored.unwrap().duration_ms, 1);
    assert!(accept_song(None, false, 30000).is_none());
}

#[test]
fn filter_scanned_songs_drops_failures_and_short_tracks() {
    let results = vec![
        Some(song("a.mp3", 29999)),
        None,
        Some(song("b.mp3", 30000)),
        Some(song("c.mp3", 180000)),
    ];
    let kept = filter_scanned_songs(results, true, 30000);
    let paths: Vec<&str> = kept.iter().map(|s| s.path.as_str()).collect();
    assert_eq!(paths, vec!["b.mp3", "c.mp3"]);
}

#[test]
fn metadata_query_degrades_to_not_found() {
    assert!(get_music_metadata("/m/a.mp3", false, false, Some(song("a", 1))).is_none());
    assert!(get_music_metadata("/m/a.mp3", true, false, Some(song("a", 1))).is_none());
    assert!(get_music_metadata("/m/notes.txt", true, true, Some(song("a", 1))).is_none());
    assert!(get_music_metadata("/m/a.mp3", true, true, None).is_none());
    let found = get_music_metadata("/m/a.mp3", true, true, Some(song("/m/a.mp3", 42)));
    assert_eq!(found.unwrap().duration_ms, 42);
}

#[test]
fn lyrics_query_degrades_to_not_found() {
    assert!(get_lyrics(false, false, Some(String::from("la la"))).is_none());
    assert!(get_lyrics(true, false, Some(String::from("la la"))).is_none());
    assert!(get_lyrics(true, true, None).is_none());
    assert_eq!(
        get_lyrics(true, true, Some(String::from("la la"))),
        Some(String::from("la la"))
    );
}

#[test]
fn path_helpers_split_stem_and_extension() {
    assert_eq!(path_stem("/c/mid/ab/abcd1234.jpg"), "abcd1234");
    assert_eq!(path_stem("/c/mid/ab/noext"), "noext");
    assert_eq!(path_stem("archive.tar.gz"), "archive.tar");
    assert_eq!(path_stem("/a.b/plain"), "plain");
    assert_eq!(path_ext_lower("/m/Song.MP3"), Some(String::from("mp3")));
    assert_eq!(path_ext_lower("/m/.hidden"), None);
    assert_eq!(path_ext_lower("/m/none"), None);
}
