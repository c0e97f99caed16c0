//! The index pipeline end to end: round trip, n-gram retrieval, the
//! conjunction toggle, snapshot visibility, and the empty query.

use songsearch::index::SongIndex;
use songsearch::record::AudioFile;

fn record(path: &str, tags: &[(&str, &str)]) -> AudioFile {
    let kv: Vec<(String, String)> =
        tags.iter().map(|(k, v)| (k.to_string(), v.to_string())).collect();
    AudioFile::from_kv_and_path(path.to_string(), &kv)
}

#[test]
fn round_trip_reproduces_canonical_fields() {
    let rec = record(
        "/music/avril.flac",
        &[
            ("Artist", "Aphex Twin"),
            ("Album", "Drukqs"),
            ("Title", "Avril Quatorze"),
            ("Track", "2/30"),
            ("Date", "2001"),
            ("Genre", "Electronic"),
            ("Comment", "quiet"),
        ],
    );
    let mut idx = SongIndex::new().expect("in-memory index");
    assert!(idx.add_record(&rec));
    assert!(idx.commit());
    let snap = idx.snapshot().expect("snapshot");
    let hits = snap.search("Quatorze", 15, true);
    assert_eq!(hits.len(), 1);
    let got = &hits[0];
    assert_eq!(got.file_path, "/music/avril.flac");
    assert_eq!(got.artist.as_deref(), Some("Aphex Twin"));
    assert_eq!(got.album.as_deref(), Some("Drukqs"));
    assert_eq!(got.title.as_deref(), Some("Avril Quatorze"));
    assert_eq!(got.track, Some(2));
    assert_eq!(got.date.as_deref(), Some("2001"));
    // extras and the item type are write-only: they do not come back
    assert!(got.extras.is_empty());
    assert_eq!(got.album_artist, None);
}

#[test]
fn round_trip_uses_album_artist_fallback() {
    let rec = record(
        "/music/va.mp3",
        &[("Album_Artist", "Various"), ("Title", "Opener")],
    );
    let mut idx = SongIndex::new().expect("in-memory index");
    assert!(idx.add_record(&rec));
    assert!(idx.commit());
    let snap = idx.snapshot().expect("snapshot");
    let hits = snap.search("Opener", 15, true);
    assert_eq!(hits.len(), 1);
    // the record is indexed under the fallback, so it reads back as artist
    assert_eq!(hits[0].artist.as_deref(), Some("Various"));
}

#[test]
fn ngram_substring_retrieval() {
    let rec = record("/music/i.flac", &[("Title", "Interstellar")]);
    let mut idx = SongIndex::new().expect("in-memory index");
    assert!(idx.add_record(&rec));
    assert!(idx.commit());
    let snap = idx.snapshot().expect("snapshot");
    let hits = snap.search("stel", 20, true);
    assert_eq!(hits.len(), 1);
    assert_eq!(hits[0].file_path, "/music/i.flac");
}

#[test]
fn extras_are_searchable() {
    let rec = record(
        "/music/g.flac",
        &[("Title", "Untitled"), ("Genre", "shoegaze")],
    );
    let mut idx = SongIndex::new().expect("in-memory index");
    assert!(idx.add_record(&rec));
    assert!(idx.commit());
    let snap = idx.snapshot().expect("snapshot");
    let hits = snap.search("shoegaze", 15, true);
    assert_eq!(hits.len(), 1);
}

#[test]
fn conjunction_mode_requires_every_term() {
    let both = record("/m/one.wav", &[("Title", "alpha beta")]);
    let single = record("/m/two.wav", &[("Title", "alpha")]);
    let mut idx = SongIndex::new().expect("in-memory index");
    assert!(idx.add_record(&both));
    assert!(idx.add_record(&single));
    assert!(idx.commit());
    let snap = idx.snapshot().expect("snapshot");

    let strict = snap.search("alpha beta", 20, true);
    assert_eq!(strict.len(), 1);
    assert_eq!(strict[0].file_path, "/m/one.wav");

    let loose = snap.search("alpha beta", 20, false);
    assert_eq!(loose.len(), 2);
}

#[test]
fn snapshot_before_commit_sees_nothing() {
    let rec = record("/m/x.ogg", &[("Title", "Hidden Gem")]);
    let mut idx = SongIndex::new().expect("in-memory index");
    let early = idx.snapshot().expect("snapshot");
    assert!(idx.add_record(&rec));
    let before = idx.snapshot().expect("snapshot");
    assert_eq!(before.search("Hidden", 15, true).len(), 0);
    assert!(idx.commit());
    let after = idx.snapshot().expect("snapshot");
    assert_eq!(after.search("Hidden", 15, true).len(), 1);
    // snapshots taken before the commit stay bound to what they saw
    assert_eq!(early.search("Hidden", 15, true).len(), 0);
    assert_eq!(before.search("Hidden", 15, true).len(), 0);
}

#[test]
fn empty_query_returns_no_hits() {
    let rec = record("/m/y.mp3", &[("Title", "Anything")]);
    let mut idx = SongIndex::new().expect("in-memory index");
    assert!(idx.add_record(&rec));
    assert!(idx.commit());
    let snap = idx.snapshot().expect("snapshot");
    assert_eq!(snap.search("", 15, true).len(), 0);
    assert_eq!(snap.search("", 15, false).len(), 0);
}

#[test]
fn result_cap_limits_hits() {
    let mut idx = SongIndex::new().expect("in-memory index");
    for i in 0..30 {
        let path = format!("/m/track{i}.mp3");
        let rec = record(&path, &[("Title", "same words here")]);
        assert!(idx.add_record(&rec));
    }
    assert!(idx.commit());
    let snap = idx.snapshot().expect("snapshot");
    assert_eq!(snap.search("same words", 15, true).len(), 15);
    assert_eq!(snap.search("same words", 20, true).len(), 20);
}

#[test]
fn repeated_search_is_deterministic() {
    let mut idx = SongIndex::new().expect("in-memory index");
    for i in 0..8 {
        let path = format!("/m/d{i}.flac");
        let rec = record(&path, &[("Title", "delta echo"), ("Track", "3")]);
        assert!(idx.add_record(&rec));
    }
    assert!(idx.commit());
    let snap = idx.snapshot().expect("snapshot");
    let first = snap.search("delta", 5, true);
    let second = snap.search("delta", 5, true);
    assert_eq!(first, second);
    assert_eq!(first.len(), 5);
}

#[test]
fn lenient_parsing_never_fails() {
    let rec = record("/m/z.flac", &[("Title", "Edge Case")]);
    let mut idx = SongIndex::new().expect("in-memory index");
    assert!(idx.add_record(&rec));
    assert!(idx.commit());
    let snap = idx.snapshot().expect("snapshot");
    // unbalanced operators degrade to plain terms instead of erroring
    let hits = snap.search("\"Edge AND (", 15, true);
    assert!(hits.len() <= 15);
}
