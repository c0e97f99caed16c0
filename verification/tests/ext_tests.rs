//! The audio-extension allow-list, both ways, and the path rules behind it.

use songsearch::ext::{file_name, is_audio_path};

#[test]
fn accepted_extensions() {
    assert!(is_audio_path("/music/song.flac"));
    assert!(is_audio_path("/music/song.mp3"));
    assert!(is_audio_path("/music/song.wav"));
    assert!(is_audio_path("song.opus"));
    assert!(is_audio_path("a/b/c.ogg"));
    assert!(is_audio_path("x.ape"));
    assert!(is_audio_path("x.mka"));
    assert!(is_audio_path("x.webm"));
    assert!(is_audio_path("x.aac"));
    assert!(is_audio_path("x.alac"));
    assert!(is_audio_path("x.m4a"));
    assert!(is_audio_path("x.caf"));
    assert!(is_audio_path("x.wma"));
}

#[test]
fn rejected_extensions() {
    assert!(!is_audio_path("/music/cover.jpg"));
    assert!(!is_audio_path("/music/notes.txt"));
    assert!(!is_audio_path("/music/archive.tar.gz"));
}

#[test]
fn extension_match_is_case_sensitive() {
    assert!(!is_audio_path("/music/song.FLAC"));
    assert!(!is_audio_path("/music/song.Mp3"));
    assert!(!is_audio_path("/music/song.WAV"));
    assert!(is_audio_path("/music/SONG.flac"));
}

#[test]
fn paths_without_extension() {
    assert!(!is_audio_path("/music/Makefile"));
    assert!(!is_audio_path(""));
    assert!(!is_audio_path("/music/"));
    assert!(!is_audio_path("/music/.flac"));
    assert!(!is_audio_path("/dir.mp3/file"));
    assert!(is_audio_path("/dir/.hidden.flac"));
}

#[test]
fn file_name_is_last_segment() {
    assert_eq!(file_name("/a/b/c.mp3"), "c.mp3");
    assert_eq!(file_name("c.mp3"), "c.mp3");
    assert_eq!(file_name("/a/b/"), "");
}
