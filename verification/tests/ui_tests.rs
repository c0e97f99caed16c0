//! The rendered hit lines, hyperlink escapes and per-variant result caps.

use songsearch::record::AudioFile;
use songsearch::ui::{CursiveUI, Hyperlink, RustylineUI};

#[test]
fn hyperlink_render_wraps_in_osc8() {
    let h = Hyperlink::new("file://host/m/a.mp3".to_string(), "label".to_string());
    assert_eq!(
        h.render(),
        "\x1b]8;;file://host/m/a.mp3\x1b\\label\x1b]8;;\x1b\\"
    );
}

#[test]
fn hyperlink_for_record_points_at_file_url() {
    let mut rec = AudioFile::new("/m/a.mp3".to_string());
    rec.place("title", "Go".to_string());
    let h = Hyperlink::for_record("myhost", &rec);
    assert_eq!(h.hyperlink, "file://myhost/m/a.mp3");
    assert_eq!(h.text, "\x1b[37ma.mp3: \x1b[92mGo\x1b[0m");
}

#[test]
fn display_line_full_record() {
    let mut rec = AudioFile::new("/m/f.flac".to_string());
    rec.place("title", "T".to_string());
    rec.place("artist", "A".to_string());
    rec.place("album", "AL".to_string());
    rec.place("track", "7".to_string());
    rec.place("date", "1999".to_string());
    assert_eq!(
        rec.display_line(),
        "\x1b[37mf.flac: \x1b[92mT - \x1b[92mA \x1b[37m- \x1b[94mAL\x1b[94m #7\x1b[32m (1999)\x1b[0m"
    );
}

#[test]
fn display_line_omits_absent_fields() {
    let rec = AudioFile::new("/m/bare.wav".to_string());
    assert_eq!(rec.display_line(), "\x1b[37mbare.wav\x1b[0m");
}

#[test]
fn display_line_prefers_artist_over_album_artist() {
    let mut rec = AudioFile::new("/m/x.mp3".to_string());
    rec.place("album_artist", "Fallback".to_string());
    assert_eq!(rec.display_line(), "\x1b[37mx.mp3 - \x1b[92mFallback\x1b[0m");
    rec.place("artist", "Primary".to_string());
    assert_eq!(rec.display_line(), "\x1b[37mx.mp3 - \x1b[92mPrimary\x1b[0m");
}

#[test]
fn display_line_renders_large_track_numbers() {
    let mut rec = AudioFile::new("/m/n.mp3".to_string());
    rec.place("track", "1234567890".to_string());
    assert_eq!(rec.display_line(), "\x1b[37mn.mp3\x1b[94m #1234567890\x1b[0m");
}

#[test]
fn result_limits_per_variant() {
    assert_eq!(RustylineUI.result_limit(), 15);
    assert_eq!(CursiveUI.result_limit(), 20);
}
