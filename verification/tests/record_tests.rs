//! Tag placement, track parsing and record construction.

use songsearch::record::{parse_track, AudioFile};

fn fresh(path: &str) -> AudioFile {
    AudioFile::new(path.to_string())
}

#[test]
fn placement_is_case_insensitive() {
    let mut a = fresh("/m/a.flac");
    let mut b = fresh("/m/a.flac");
    let mut c = fresh("/m/a.flac");
    a.place("Artist", "Kraftwerk".to_string());
    b.place("ARTIST", "Kraftwerk".to_string());
    c.place("artist", "Kraftwerk".to_string());
    assert_eq!(a.artist.as_deref(), Some("Kraftwerk"));
    assert_eq!(a, b);
    assert_eq!(b, c);
}

#[test]
fn placement_routes_every_canonical_key() {
    let mut r = fresh("/m/a.flac");
    r.place("Album_Artist", "Various".to_string());
    r.place("ALBUM", "TEE".to_string());
    r.place("Title", "Autobahn".to_string());
    r.place("TRACK", "1".to_string());
    r.place("Date", "1974".to_string());
    assert_eq!(r.album_artist.as_deref(), Some("Various"));
    assert_eq!(r.album.as_deref(), Some("TEE"));
    assert_eq!(r.title.as_deref(), Some("Autobahn"));
    assert_eq!(r.track, Some(1));
    assert_eq!(r.date.as_deref(), Some("1974"));
}

#[test]
fn unknown_keys_land_in_extras_lowercased() {
    let mut r = fresh("/m/a.flac");
    r.place("Genre", "Electronic".to_string());
    r.place("GENRE", "Ambient".to_string());
    r.place("Composer", "Someone".to_string());
    assert_eq!(
        r.extras,
        vec![
            ("genre".to_string(), "Ambient".to_string()),
            ("composer".to_string(), "Someone".to_string()),
        ]
    );
}

#[test]
fn track_plain_number() {
    let mut r = fresh("/m/a.flac");
    r.place("track", "5".to_string());
    assert_eq!(r.track, Some(5));
}

#[test]
fn track_number_of_total() {
    let mut r = fresh("/m/a.flac");
    r.place("track", "5/12".to_string());
    assert_eq!(r.track, Some(5));
}

#[test]
fn track_unparsable_stays_unset() {
    let mut r = fresh("/m/a.flac");
    r.place("track", "five".to_string());
    assert_eq!(r.track, None);
    r.place("title", "Still Here".to_string());
    assert_eq!(r.title.as_deref(), Some("Still Here"));
}

#[test]
fn track_failed_parse_keeps_earlier_value() {
    let mut r = fresh("/m/a.flac");
    r.place("track", "9".to_string());
    r.place("track", "x".to_string());
    assert_eq!(r.track, Some(9));
}

#[test]
fn parse_track_edges() {
    assert_eq!(parse_track("5"), Some(5));
    assert_eq!(parse_track("5/12"), Some(5));
    assert_eq!(parse_track("five"), None);
    assert_eq!(parse_track(""), None);
    assert_eq!(parse_track("/7"), None);
    assert_eq!(parse_track("+5"), Some(5));
    assert_eq!(parse_track("+"), None);
    assert_eq!(parse_track("007"), Some(7));
    assert_eq!(parse_track("3/4/5"), Some(3));
    assert_eq!(parse_track("5 "), None);
    assert_eq!(parse_track("18446744073709551615"), Some(u64::MAX));
    assert_eq!(parse_track("18446744073709551616"), None);
    assert_eq!(parse_track("99999999999999999999999"), None);
}

#[test]
fn from_kv_is_idempotent() {
    let kv = vec![
        ("Artist".to_string(), "Boards of Canada".to_string()),
        ("title".to_string(), "Roygbiv".to_string()),
        ("Genre".to_string(), "IDM".to_string()),
        ("track".to_string(), "4/23".to_string()),
    ];
    let a = AudioFile::from_kv_and_path("/m/r.mp3".to_string(), &kv);
    let b = AudioFile::from_kv_and_path("/m/r.mp3".to_string(), &kv);
    assert_eq!(a, b);
    assert_eq!(a.file_path, "/m/r.mp3");
    assert_eq!(a.artist.as_deref(), Some("Boards of Canada"));
    assert_eq!(a.title.as_deref(), Some("Roygbiv"));
    assert_eq!(a.track, Some(4));
    assert_eq!(a.extras, vec![("genre".to_string(), "IDM".to_string())]);
}
