//! The normalized metadata record for one audio file, and the rule that
//! folds raw (key, value) tag pairs into it.
//!
//! Tag keys are compared case-insensitively: the comparison key is the
//! lowercased key. Six canonical keys land in named fields; every other key
//! is kept, lowercased, in `extras`, where the last write to a key wins.

use vstd::prelude::*;
use vstd::string::StringExecFns;

use crate::text::{digit_val, is_digit, lower_of, lowercase};

verus! {

/// The mathematical value of an [`AudioFile`]: every text field as its
/// character sequence.
pub struct RecView {
    pub file_path: Seq<char>,
    pub album_artist: Option<Seq<char>>,
    pub artist: Option<Seq<char>>,
    pub album: Option<Seq<char>>,
    pub title: Option<Seq<char>>,
    pub track: Option<u64>,
    pub date: Option<Seq<char>>,
    pub extras: Seq<(Seq<char>, Seq<char>)>,
}

/// Normalized metadata for one audio file.
#[derive(Debug, PartialEq)]
pub struct AudioFile {
    /// Canonical path of the file; the record's identity.
    pub file_path: String,
    /// Display and index fallback used only when `artist` is absent.
    pub album_artist: Option<String>,
    pub artist: Option<String>,
    pub album: Option<String>,
    pub title: Option<String>,
    /// Track number within an album, parsed from `"N"` or `"N/total"`.
    pub track: Option<u64>,
    pub date: Option<String>,
    /// Remaining tags, keyed by lowercased tag key; last write wins.
    pub extras: Vec<(String, String)>,
}

impl View for AudioFile {
    type V = RecView;

    open spec fn view(&self) -> RecView {
        RecView {
            file_path: self.file_path@,
            album_artist: self.album_artist.deep_view(),
            artist: self.artist.deep_view(),
            album: self.album.deep_view(),
            title: self.title.deep_view(),
            track: self.track,
            date: self.date.deep_view(),
            extras: self.extras.deep_view(),
        }
    }
}

/// The record a fresh path starts from: only the path is set.
pub open spec fn empty_rec(path: Seq<char>) -> RecView {
    RecView {
        file_path: path,
        album_artist: None,
        artist: None,
        album: None,
        title: None,
        track: None,
        date: None,
        extras: Seq::empty(),
    }
}

/// The portion of a tag value before the first '/', or the whole value when
/// it has none.
pub open spec fn track_prefix(s: Seq<char>) -> Seq<char>
    decreases s.len(),
{
    if s.len() == 0 {
        s
    } else if s[0] == '/' {
        Seq::empty()
    } else {
        seq![s[0]] + track_prefix(s.subrange(1, s.len() as int))
    }
}

/// A number with an optional leading '+' stripped, as `u64` parsing reads it.
pub open spec fn plus_stripped(s: Seq<char>) -> Seq<char> {
    if s.len() > 0 && s[0] == '+' {
        s.subrange(1, s.len() as int)
    } else {
        s
    }
}

pub open spec fn all_digits(s: Seq<char>) -> bool {
    forall|j: int| 0 <= j < s.len() ==> is_digit(s[j])
}

/// The value of a digit string read most significant first.
pub open spec fn digits_value(s: Seq<char>) -> int
    decreases s.len(),
{
    if s.len() == 0 {
        0
    } else {
        digits_value(s.drop_last()) * 10 + digit_val(s.last())
    }
}

/// What `u64` decimal parsing returns on a prefix: a value when the input is
/// an optional '+' followed by one or more digits and the value fits, and
/// nothing otherwise.
pub open spec fn parse_u64_spec(p: Seq<char>) -> Option<u64> {
    let b = plus_stripped(p);
    if b.len() > 0 && all_digits(b) && digits_value(b) <= u64::MAX as int {
        Some(digits_value(b) as u64)
    } else {
        None
    }
}

/// Track extraction: the portion before '/' parsed as a `u64`.
pub open spec fn parse_track_spec(s: Seq<char>) -> Option<u64> {
    parse_u64_spec(track_prefix(s))
}

/// Last-write-wins insertion into the extras list: an existing key keeps its
/// position and takes the new value; a new key is appended.
pub open spec fn extras_put(
    es: Seq<(Seq<char>, Seq<char>)>,
    k: Seq<char>,
    v: Seq<char>,
) -> Seq<(Seq<char>, Seq<char>)>
    decreases es.len(),
{
    if es.len() == 0 {
        seq![(k, v)]
    } else if es[0].0 == k {
        seq![(k, v)] + es.subrange(1, es.len() as int)
    } else {
        seq![es[0]] + extras_put(es.subrange(1, es.len() as int), k, v)
    }
}

/// Where one raw tag goes: the placement rule of the record model. Routing
/// compares the lowercased key; a `track` value that does not parse leaves
/// the field as it was; an unrecognized key lands in `extras` lowercased.
pub open spec fn place_spec(r: RecView, key: Seq<char>, value: Seq<char>) -> RecView {
    let k = lower_of(key);
    if k == "album_artist"@ {
        RecView { album_artist: Some(value), ..r }
    } else if k == "artist"@ {
        RecView { artist: Some(value), ..r }
    } else if k == "album"@ {
        RecView { album: Some(value), ..r }
    } else if k == "title"@ {
        RecView { title: Some(value), ..r }
    } else if k == "track"@ {
        match parse_track_spec(value) {
            Some(n) => RecView { track: Some(n), ..r },
            None => r,
        }
    } else if k == "date"@ {
        RecView { date: Some(value), ..r }
    } else {
        RecView { extras: extras_put(r.extras, k, value), ..r }
    }
}

/// A whole tag list folded into a fresh record, first pair first.
pub open spec fn from_kv_spec(path: Seq<char>, kv: Seq<(Seq<char>, Seq<char>)>) -> RecView
    decreases kv.len(),
{
    if kv.len() == 0 {
        empty_rec(path)
    } else {
        place_spec(from_kv_spec(path, kv.drop_last()), kv.last().0, kv.last().1)
    }
}

/// Tag-key placement is case-insensitive: two keys with one lowercase form
/// place a value identically, whatever their casing.
pub proof fn lemma_place_case_insensitive(
    r: RecView,
    k1: Seq<char>,
    k2: Seq<char>,
    v: Seq<char>,
)
    requires
        lower_of(k1) == lower_of(k2),
    ensures
        place_spec(r, k1, v) == place_spec(r, k2, v),
{
}

impl AudioFile {
    /// A record holding nothing but its path.
    pub fn new(path: String) -> (r: AudioFile)
        ensures
            r@ == empty_rec(path@),
    {
        let r = AudioFile {
            file_path: path,
            album_artist: None,
            artist: None,
            album: None,
            title: None,
            track: None,
            date: None,
            extras: Vec::new(),
        };
        proof {
            assert(r@.extras =~= empty_rec(r.file_path@).extras);
        }
        r
    }

    /// Files one raw tag into the record by the placement rule. For an
    /// all-ASCII key the comparison key is pinned down exactly: it is the
    /// per-character ASCII case fold.
    pub fn place(&mut self, key: &str, value: String)
        ensures
            final(self)@ == place_spec(old(self)@, key@, value@),
            vstd::utf8::is_ascii_chars(key@) ==> lower_of(key@) == crate::text::ascii_lower(key@),
    {
        let k = lowercase(key);
        if k == String::from_str("album_artist") {
            self.album_artist = Some(value);
        } else if k == String::from_str("artist") {
            self.artist = Some(value);
        } else if k == String::from_str("album") {
            self.album = Some(value);
        } else if k == String::from_str("title") {
            self.title = Some(value);
        } else if k == String::from_str("track") {
            match parse_track(value.as_str()) {
                Some(n) => {
                    self.track = Some(n);
                },
                None => {},
            }
        } else if k == String::from_str("date") {
            self.date = Some(value);
        } else {
            self.extras_insert(k, value);
        }
    }

    /// Last-write-wins insertion into `extras`.
    fn extras_insert(&mut self, k: String, v: String)
        ensures
            final(self)@ == (RecView { extras: extras_put(old(self)@.extras, k@, v@), ..old(self)@ }),
    {
        let mut i: usize = 0;
        let n = self.extras.len();
        while i < n
            invariant
                n == self.extras@.len(),
                i <= n,
                *self == *old(self),
                forall|j: int| 0 <= j < i ==> (#[trigger] old(self)@.extras[j]).0 != k@,
            decreases n - i,
        {
            if self.extras[i].0 == k {
                self.extras.remove(i);
                self.extras.insert(i, (k, v));
                proof {
                    lemma_extras_put_found(old(self)@.extras, k@, v@, i as int);
                    assert(self@.extras =~= old(self)@.extras.update(i as int, (k@, v@)));
                }
                return ;
            }
            i = i + 1;
        }
        self.extras.push((k, v));
        proof {
            lemma_extras_put_absent(old(self)@.extras, k@, v@);
            assert(self@.extras =~= old(self)@.extras.push((k@, v@)));
        }
    }

    /// A record built from a path and its raw tag pairs, first pair first.
    /// Building is deterministic: the same pairs give the same record.
    pub fn from_kv_and_path(path: String, kv: &Vec<(String, String)>) -> (r: AudioFile)
        ensures
            r@ == from_kv_spec(path@, kv.deep_view()),
    {
        let ghost pathv = path@;
        let ghost kvv = kv.deep_view();
        let mut this = AudioFile::new(path);
        let mut i: usize = 0;
        proof {
            assert(kvv.take(0) =~= Seq::<(Seq<char>, Seq<char>)>::empty());
        }
        while i < kv.len()
            invariant
                i <= kv@.len(),
                kvv == kv.deep_view(),
                this@ == from_kv_spec(pathv, kvv.take(i as int)),
            decreases kv@.len() - i,
        {
            this.place(kv[i].0.as_str(), kv[i].1.clone());
            i = i + 1;
            proof {
                assert(kvv.take(i as int).drop_last() =~= kvv.take(i - 1));
                assert(kvv[i - 1] == (kv@[i - 1].0@, kv@[i - 1].1@));
            }
        }
        proof {
            assert(kvv.take(kvv.len() as int) =~= kvv);
        }
        this
    }
}

/// When the first `cut` characters hold no '/', and the cut is the end or a
/// '/', the track prefix is exactly those characters.
proof fn lemma_track_prefix_cut(s: Seq<char>, cut: int)
    requires
        0 <= cut <= s.len(),
        forall|j: int| 0 <= j < cut ==> s[j] != '/',
        cut == s.len() || s[cut] == '/',
    ensures
        track_prefix(s) == s.take(cut),
    decreases s.len(),
{
    if s.len() == 0 {
        assert(s.take(0) =~= s);
    } else if s[0] == '/' {
        assert(s.take(0) =~= Seq::<char>::empty());
    } else {
        let t = s.subrange(1, s.len() as int);
        lemma_track_prefix_cut(t, cut - 1);
        assert(t.take(cut - 1) =~= s.take(cut).subrange(1, cut));
        assert(seq![s[0]] + s.take(cut).subrange(1, cut) =~= s.take(cut));
    }
}

/// A key present at `i` (and nowhere earlier) is updated in place.
proof fn lemma_extras_put_found(
    es: Seq<(Seq<char>, Seq<char>)>,
    k: Seq<char>,
    v: Seq<char>,
    i: int,
)
    requires
        0 <= i < es.len(),
        es[i].0 == k,
        forall|j: int| 0 <= j < i ==> es[j].0 != k,
    ensures
        extras_put(es, k, v) == es.update(i, (k, v)),
    decreases es.len(),
{
    if i == 0 {
        assert(seq![(k, v)] + es.subrange(1, es.len() as int) =~= es.update(0, (k, v)));
    } else {
        let t = es.subrange(1, es.len() as int);
        lemma_extras_put_found(t, k, v, i - 1);
        assert(seq![es[0]] + t.update(i - 1, (k, v)) =~= es.update(i, (k, v)));
    }
}

/// A key that is absent is appended.
proof fn lemma_extras_put_absent(es: Seq<(Seq<char>, Seq<char>)>, k: Seq<char>, v: Seq<char>)
    requires
        forall|j: int| 0 <= j < es.len() ==> es[j].0 != k,
    ensures
        extras_put(es, k, v) == es.push((k, v)),
    decreases es.len(),
{
    if es.len() == 0 {
        assert(extras_put(es, k, v) =~= es.push((k, v)));
    } else {
        let t = es.subrange(1, es.len() as int);
        lemma_extras_put_absent(t, k, v);
        assert(seq![es[0]] + t.push((k, v)) =~= es.push((k, v)));
    }
}

/// Parses a track value: the portion before the first '/', read as a
/// decimal `u64`. Failure returns nothing and rejects nothing.
pub fn parse_track(value: &str) -> (r: Option<u64>)
    ensures
        r == parse_track_spec(value@),
{
    let n = value.unicode_len();
    let mut cut: usize = 0;
    while cut < n && value.get_char(cut) != '/'
        invariant
            n == value@.len(),
            cut <= n,
            forall|j: int| 0 <= j < cut ==> value@[j] != '/',
        decreases n - cut,
    {
        cut = cut + 1;
    }
    proof {
        lemma_track_prefix_cut(value@, cut as int);
    }
    parse_u64_prefix(value, cut)
}

/// Parses `value[..cut]` as a decimal `u64`, as `str::parse` reads it: an
/// optional leading '+', then one or more digits, rejecting overflow.
fn parse_u64_prefix(value: &str, cut: usize) -> (r: Option<u64>)
    requires
        cut <= value@.len(),
    ensures
        r == parse_u64_spec(value@.take(cut as int)),
{
    let ghost p = value@.take(cut as int);
    let start: usize = if cut > 0 && value.get_char(0) == '+' {
        1
    } else {
        0
    };
    let ghost b = plus_stripped(p);
    proof {
        assert(b =~= value@.subrange(start as int, cut as int));
    }
    if start >= cut {
        return None;
    }
    let mut acc: u64 = 0;
    let mut j: usize = start;
    proof {
        assert(value@.subrange(start as int, start as int) =~= Seq::<char>::empty());
    }
    while j < cut
        invariant
            start <= j <= cut <= value@.len(),
            b == plus_stripped(value@.take(cut as int)),
            b =~= value@.subrange(start as int, cut as int),
            all_digits(value@.subrange(start as int, j as int)),
            acc as int == digits_value(value@.subrange(start as int, j as int)),
        decreases cut - j,
    {
        let c = value.get_char(j);
        let cu = c as u32;
        if !(48 <= cu && cu <= 57) {
            proof {
                assert(b[j - start] == c);
                assert(!is_digit(c));
                assert(!all_digits(b));
            }
            return None;
        }
        let d: u64 = (cu - 48) as u64;
        let ghost sofar = value@.subrange(start as int, j as int);
        let ghost next = value@.subrange(start as int, j as int + 1);
        proof {
            assert(next.drop_last() =~= sofar);
            assert(next.last() == c);
            assert(all_digits(next));
            lemma_digits_value_nonneg(sofar);
            assert(digits_value(next) == acc as int * 10 + d);
        }
        if acc > (u64::MAX - d) / 10 {
            proof {
                assert(acc as int * 10 + d > u64::MAX as int) by (nonlinear_arith)
                    requires
                        acc as int > (u64::MAX as int - d) / 10,
                        0 <= d <= 9,
                        acc as int >= 0,
                ;
                if all_digits(b) {
                    assert(b.take(j + 1 - start) =~= next);
                    lemma_digits_value_mono(b, j + 1 - start);
                }
            }
            return None;
        }
        acc = acc * 10 + d;
        j = j + 1;
    }
    proof {
        assert(value@.subrange(start as int, cut as int) =~= b);
    }
    Some(acc)
}

/// A digit string has a non-negative value.
proof fn lemma_digits_value_nonneg(s: Seq<char>)
    requires
        all_digits(s),
    ensures
        digits_value(s) >= 0,
    decreases s.len(),
{
    if s.len() > 0 {
        assert(all_digits(s.drop_last()));
        lemma_digits_value_nonneg(s.drop_last());
    }
}

/// A digit string is worth at least any of its prefixes.
proof fn lemma_digits_value_mono(s: Seq<char>, k: int)
    requires
        all_digits(s),
        0 <= k <= s.len(),
    ensures
        digits_value(s.take(k)) <= digits_value(s),
    decreases s.len(),
{
    if k < s.len() {
        assert(all_digits(s.drop_last()));
        assert(s.drop_last().take(k) =~= s.take(k));
        lemma_digits_value_mono(s.drop_last(), k);
        lemma_digits_value_nonneg(s.drop_last());
    } else {
        assert(s.take(k) =~= s);
    }
}

} // verus!
