//! The indexed representation of a record: an ordered list of (field name,
//! value) pairs laid out per the fixed schema, and the inverse reading that
//! rebuilds a record from the stored fields of a retrieved document.

use vstd::prelude::*;
use vstd::seq_lib::*;
use vstd::string::StringExecFns;

use crate::record::{empty_rec, AudioFile, RecView};

verus! {

/// A field value: every schema field is text except `track`.
pub enum FieldVal {
    Text(String),
    Num(u64),
}

/// The mathematical value of a [`FieldVal`].
pub enum FieldValV {
    Text(Seq<char>),
    Num(u64),
}

impl View for FieldVal {
    type V = FieldValV;

    open spec fn view(&self) -> FieldValV {
        match self {
            FieldVal::Text(s) => FieldValV::Text(s@),
            FieldVal::Num(n) => FieldValV::Num(*n),
        }
    }
}

/// One (field name, value) pair of a document.
pub struct DocEntry {
    pub name: String,
    pub value: FieldVal,
}

/// The mathematical value of a [`DocEntry`].
pub struct DocEntryV {
    pub name: Seq<char>,
    pub value: FieldValV,
}

impl View for DocEntry {
    type V = DocEntryV;

    open spec fn view(&self) -> DocEntryV {
        DocEntryV { name: self.name@, value: self.value@ }
    }
}

/// A document: the schema-shaped image of one record, ordered as written.
pub struct Doc {
    pub entries: Vec<DocEntry>,
}

impl View for Doc {
    type V = Seq<DocEntryV>;

    open spec fn view(&self) -> Seq<DocEntryV> {
        self.entries@.map_values(|e: DocEntry| e@)
    }
}

/// The artist a record is indexed and displayed under: `artist`, or
/// `album_artist` when `artist` is absent.
pub open spec fn artist_of(r: RecView) -> Option<Seq<char>> {
    if r.artist is Some {
        r.artist
    } else {
        r.album_artist
    }
}

/// The extras values space-joined into one searchable blob.
pub open spec fn join_vals(es: Seq<(Seq<char>, Seq<char>)>) -> Seq<char>
    decreases es.len(),
{
    if es.len() == 0 {
        Seq::empty()
    } else if es.len() == 1 {
        es[0].1
    } else {
        join_vals(es.drop_last()) + seq![' '] + es.last().1
    }
}

/// Zero or one text entries, for an optional field.
pub open spec fn opt_text(name: Seq<char>, v: Option<Seq<char>>) -> Seq<DocEntryV> {
    match v {
        Some(s) => seq![DocEntryV { name: name, value: FieldValV::Text(s) }],
        None => Seq::empty(),
    }
}

/// The document a record is stored as: path, artist (with the
/// `album_artist` fallback), album, title, track and date when present, the
/// extras blob, and the constant item type discriminator, in that order.
pub open spec fn doc_spec(r: RecView) -> Seq<DocEntryV> {
    seq![DocEntryV { name: "path"@, value: FieldValV::Text(r.file_path) }] + opt_text(
        "artist"@,
        artist_of(r),
    ) + opt_text("album"@, r.album) + opt_text("title"@, r.title) + (match r.track {
        Some(n) => seq![DocEntryV { name: "track"@, value: FieldValV::Num(n) }],
        None => Seq::empty(),
    }) + opt_text("date"@, r.date) + seq![
        DocEntryV { name: "extras"@, value: FieldValV::Text(join_vals(r.extras)) },
    ] + seq![DocEntryV { name: "type"@, value: FieldValV::Text("song"@) }]
}

/// An entry the schema admits: one of the eight field names, text everywhere
/// but `track`, which is an integer.
pub open spec fn entry_valid(e: DocEntryV) -> bool {
    if e.name == "track"@ {
        e.value is Num
    } else {
        (e.name == "path"@ || e.name == "artist"@ || e.name == "album"@ || e.name == "title"@
            || e.name == "date"@ || e.name == "extras"@ || e.name == "type"@) && e.value is Text
    }
}

/// A document every entry of which the schema admits.
pub open spec fn doc_valid(d: Seq<DocEntryV>) -> bool {
    forall|i: int| 0 <= i < d.len() ==> entry_valid(#[trigger] d[i])
}

/// Every document a record converts to is admitted by the schema.
pub proof fn lemma_doc_spec_valid(r: RecView)
    ensures
        doc_valid(doc_spec(r)),
{
    proof_distinct_names();
    let d = doc_spec(r);
    assert forall|i: int| 0 <= i < d.len() implies entry_valid(#[trigger] d[i]) by {
        assert(entry_valid(d[i]));
    }
}

/// The fields of a document that the index stores and hands back: all but
/// the `extras` blob, which is indexed only.
pub open spec fn stored_spec(d: Seq<DocEntryV>) -> Seq<DocEntryV> {
    d.filter(|e: DocEntryV| e.name != "extras"@)
}

/// One stored field read back into a record. A canonical name takes the
/// value when the value has the field's type; the item type is ignored.
///
/// A deliberate decision: an entry whose value type does not match its
/// field — text under `track`, or an integer under a text field — would be
/// a programming error elsewhere, since no document of this schema carries
/// one (`doc_valid` holds of everything written, and the store hands fields
/// back as written). Rather than refuse such an entry, reading ignores it
/// and stays total: readback never fails.
pub open spec fn store_field_spec(r: RecView, e: DocEntryV) -> RecView {
    if e.name == "path"@ {
        match e.value {
            FieldValV::Text(s) => RecView { file_path: s, ..r },
            FieldValV::Num(_) => r,
        }
    } else if e.name == "artist"@ {
        match e.value {
            FieldValV::Text(s) => RecView { artist: Some(s), ..r },
            FieldValV::Num(_) => r,
        }
    } else if e.name == "album"@ {
        match e.value {
            FieldValV::Text(s) => RecView { album: Some(s), ..r },
            FieldValV::Num(_) => r,
        }
    } else if e.name == "title"@ {
        match e.value {
            FieldValV::Text(s) => RecView { title: Some(s), ..r },
            FieldValV::Num(_) => r,
        }
    } else if e.name == "track"@ {
        match e.value {
            FieldValV::Text(_) => r,
            FieldValV::Num(n) => RecView { track: Some(n), ..r },
        }
    } else if e.name == "date"@ {
        match e.value {
            FieldValV::Text(s) => RecView { date: Some(s), ..r },
            FieldValV::Num(_) => r,
        }
    } else {
        r
    }
}

/// Stored fields folded into a record, first entry first.
pub open spec fn recall_go(r: RecView, entries: Seq<DocEntryV>) -> RecView
    decreases entries.len(),
{
    if entries.len() == 0 {
        r
    } else {
        recall_go(store_field_spec(r, entries[0]), entries.drop_first())
    }
}

/// The record a retrieved document reads back as.
pub open spec fn recall_spec(entries: Seq<DocEntryV>) -> RecView {
    recall_go(empty_rec(Seq::empty()), entries)
}

impl AudioFile {
    /// Converts the record into its index document.
    pub fn to_doc(&self) -> (d: Doc)
        ensures
            d@ == doc_spec(self@),
    {
        let mut entries: Vec<DocEntry> = Vec::new();
        entries.push(
            DocEntry {
                name: String::from_str("path"),
                value: FieldVal::Text(self.file_path.clone()),
            },
        );
        match &self.artist {
            Some(a) => entries.push(
                DocEntry { name: String::from_str("artist"), value: FieldVal::Text(a.clone()) },
            ),
            None => match &self.album_artist {
                Some(a) => entries.push(
                    DocEntry {
                        name: String::from_str("artist"),
                        value: FieldVal::Text(a.clone()),
                    },
                ),
                None => {},
            },
        }
        match &self.album {
            Some(a) => entries.push(
                DocEntry { name: String::from_str("album"), value: FieldVal::Text(a.clone()) },
            ),
            None => {},
        }
        match &self.title {
            Some(t) => entries.push(
                DocEntry { name: String::from_str("title"), value: FieldVal::Text(t.clone()) },
            ),
            None => {},
        }
        match self.track {
            Some(n) => entries.push(
                DocEntry { name: String::from_str("track"), value: FieldVal::Num(n) },
            ),
            None => {},
        }
        match &self.date {
            Some(dt) => entries.push(
                DocEntry { name: String::from_str("date"), value: FieldVal::Text(dt.clone()) },
            ),
            None => {},
        }
        entries.push(
            DocEntry { name: String::from_str("extras"), value: FieldVal::Text(self.join_extras()) },
        );
        entries.push(
            DocEntry {
                name: String::from_str("type"),
                value: FieldVal::Text(String::from_str("song")),
            },
        );
        let d = Doc { entries };
        proof {
            assert(d@ =~= doc_spec(self@));
        }
        d
    }

    /// The extras values space-joined, in insertion order.
    fn join_extras(&self) -> (s: String)
        ensures
            s@ == join_vals(self@.extras),
    {
        let mut s = String::new();
        let mut i: usize = 0;
        while i < self.extras.len()
            invariant
                i <= self.extras@.len(),
                s@ == join_vals(self@.extras.take(i as int)),
            decreases self.extras@.len() - i,
        {
            if i > 0 {
                s.append(" ");
                proof {
                    reveal_strlit(" ");
                }
            }
            s.append(self.extras[i].1.as_str());
            i = i + 1;
            proof {
                let tk = self@.extras.take(i as int);
                assert(tk.drop_last() =~= self@.extras.take(i - 1));
                assert(tk.last() == self@.extras[i - 1]);
                if i > 1 {
                    assert(" "@ =~= seq![' ']);
                }
            }
        }
        proof {
            assert(self@.extras.take(self.extras@.len() as int) =~= self@.extras);
        }
        s
    }

    /// Reads a retrieved document's stored fields back into a record.
    /// Reading is total by decision: an entry of the wrong value type,
    /// which no document of this schema carries, is ignored rather than
    /// refused (see [`store_field_spec`]).
    pub fn from_doc(d: &Doc) -> (r: AudioFile)
        ensures
            r@ == recall_spec(d@),
    {
        let mut r = AudioFile::new(String::new());
        let mut i: usize = 0;
        proof {
            assert(d@.skip(0) =~= d@);
        }
        while i < d.entries.len()
            invariant
                i <= d.entries@.len(),
                recall_go(r@, d@.skip(i as int)) == recall_spec(d@),
            decreases d.entries@.len() - i,
        {
            let ghost pre = d@.skip(i as int);
            r.store_field(&d.entries[i]);
            i = i + 1;
            proof {
                assert(pre[0] == d@[i - 1]);
                assert(pre.drop_first() =~= d@.skip(i as int));
            }
        }
        proof {
            assert(d@.skip(d.entries@.len() as int) =~= Seq::<DocEntryV>::empty());
        }
        r
    }

    /// Applies one stored field to the record.
    fn store_field(&mut self, e: &DocEntry)
        ensures
            final(self)@ == store_field_spec(old(self)@, e@),
    {
        if e.name == String::from_str("path") {
            match &e.value {
                FieldVal::Text(s) => {
                    self.file_path = s.clone();
                },
                FieldVal::Num(_) => {},
            }
        } else if e.name == String::from_str("artist") {
            match &e.value {
                FieldVal::Text(s) => {
                    self.artist = Some(s.clone());
                },
                FieldVal::Num(_) => {},
            }
        } else if e.name == String::from_str("album") {
            match &e.value {
                FieldVal::Text(s) => {
                    self.album = Some(s.clone());
                },
                FieldVal::Num(_) => {},
            }
        } else if e.name == String::from_str("title") {
            match &e.value {
                FieldVal::Text(s) => {
                    self.title = Some(s.clone());
                },
                FieldVal::Num(_) => {},
            }
        } else if e.name == String::from_str("track") {
            match &e.value {
                FieldVal::Text(_) => {},
                FieldVal::Num(n) => {
                    self.track = Some(*n);
                },
            }
        } else if e.name == String::from_str("date") {
            match &e.value {
                FieldVal::Text(s) => {
                    self.date = Some(s.clone());
                },
                FieldVal::Num(_) => {},
            }
        }
    }
}

/// Folding distributes over concatenation of stored-field lists.
proof fn lemma_recall_go_append(r: RecView, s: Seq<DocEntryV>, t: Seq<DocEntryV>)
    ensures
        recall_go(r, s + t) == recall_go(recall_go(r, s), t),
    decreases s.len(),
{
    if s.len() == 0 {
        assert(s + t =~= t);
    } else {
        assert((s + t)[0] == s[0]);
        assert((s + t).drop_first() =~= s.drop_first() + t);
        lemma_recall_go_append(store_field_spec(r, s[0]), s.drop_first(), t);
    }
}

/// Folding one entry applies it.
proof fn lemma_recall_go_one(r: RecView, e: DocEntryV)
    ensures
        recall_go(r, seq![e]) == store_field_spec(r, e),
{
    reveal_with_fuel(recall_go, 2);
    assert(seq![e].drop_first() =~= Seq::<DocEntryV>::empty());
}

/// A singleton list keeps or drops its entry under the stored-field filter.
proof fn lemma_stored_one(e: DocEntryV)
    ensures
        stored_spec(seq![e]) == if e.name != "extras"@ {
            seq![e]
        } else {
            Seq::<DocEntryV>::empty()
        },
{
    reveal_with_fuel(Seq::<_>::filter, 2);
    assert(seq![e].drop_last() =~= Seq::<DocEntryV>::empty());
}

/// Round trip: a record stored as a document and read back from the
/// document's stored fields reproduces every canonical field — path, artist,
/// album, title, track and date — exactly. Records whose `artist` is absent
/// while `album_artist` is set are excluded: such a record is indexed under
/// the fallback artist by design, and reads back with it.
pub proof fn lemma_round_trip(r: RecView)
    requires
        r.artist is Some || r.album_artist is None,
    ensures
        recall_spec(stored_spec(doc_spec(r))).file_path == r.file_path,
        recall_spec(stored_spec(doc_spec(r))).artist == r.artist,
        recall_spec(stored_spec(doc_spec(r))).album == r.album,
        recall_spec(stored_spec(doc_spec(r))).title == r.title,
        recall_spec(stored_spec(doc_spec(r))).track == r.track,
        recall_spec(stored_spec(doc_spec(r))).date == r.date,
{
    broadcast use Seq::filter_distributes_over_add;

    let keep = |e: DocEntryV| e.name != "extras"@;
    let e_path = seq![DocEntryV { name: "path"@, value: FieldValV::Text(r.file_path) }];
    let s_artist = opt_text("artist"@, artist_of(r));
    let s_album = opt_text("album"@, r.album);
    let s_title = opt_text("title"@, r.title);
    let s_track: Seq<DocEntryV> = match r.track {
        Some(n) => seq![DocEntryV { name: "track"@, value: FieldValV::Num(n) }],
        None => Seq::empty(),
    };
    let s_date = opt_text("date"@, r.date);
    let e_extras = seq![
        DocEntryV { name: "extras"@, value: FieldValV::Text(join_vals(r.extras)) },
    ];
    let e_type = seq![DocEntryV { name: "type"@, value: FieldValV::Text("song"@) }];

    proof_distinct_names();

    lemma_stored_opt(e_path, keep);
    lemma_stored_opt(s_artist, keep);
    lemma_stored_opt(s_album, keep);
    lemma_stored_opt(s_title, keep);
    lemma_stored_opt(s_track, keep);
    lemma_stored_opt(s_date, keep);
    assert(e_extras.filter(keep) =~= Seq::<DocEntryV>::empty()) by {
        lemma_stored_one(e_extras[0]);
        assert(seq![e_extras[0]] =~= e_extras);
    }
    lemma_stored_opt(e_type, keep);

    let stored = stored_spec(doc_spec(r));
    assert(stored =~= e_path + s_artist + s_album + s_title + s_track + s_date + e_type);

    let r0 = empty_rec(Seq::<char>::empty());
    lemma_recall_go_append(r0, e_path + s_artist + s_album + s_title + s_track + s_date, e_type);
    lemma_recall_go_append(r0, e_path + s_artist + s_album + s_title + s_track, s_date);
    lemma_recall_go_append(r0, e_path + s_artist + s_album + s_title, s_track);
    lemma_recall_go_append(r0, e_path + s_artist + s_album, s_title);
    lemma_recall_go_append(r0, e_path + s_artist, s_album);
    lemma_recall_go_append(r0, e_path, s_artist);
    assert(recall_go(r0, e_path) == store_field_spec(r0, e_path[0])) by {
        assert(e_path =~= seq![e_path[0]]);
        lemma_recall_go_one(r0, e_path[0]);
    }
    lemma_recall_opt(recall_go(r0, e_path), s_artist);
    lemma_recall_opt(recall_go(r0, e_path + s_artist), s_album);
    lemma_recall_opt(recall_go(r0, e_path + s_artist + s_album), s_title);
    lemma_recall_opt(recall_go(r0, e_path + s_artist + s_album + s_title), s_track);
    lemma_recall_opt(recall_go(r0, e_path + s_artist + s_album + s_title + s_track), s_date);
    lemma_recall_opt(
        recall_go(r0, e_path + s_artist + s_album + s_title + s_track + s_date),
        e_type,
    );
}

/// A zero-or-one-entry list passes the stored filter whole when its entry is
/// not the extras blob.
proof fn lemma_stored_opt(s: Seq<DocEntryV>, keep: spec_fn(DocEntryV) -> bool)
    requires
        s.len() <= 1,
        forall|i: int| 0 <= i < s.len() ==> keep(#[trigger] s[i]),
        keep == (|e: DocEntryV| e.name != "extras"@),
    ensures
        s.filter(keep) == s,
{
    reveal_with_fuel(Seq::<_>::filter, 2);
    if s.len() == 0 {
        assert(s.filter(keep) =~= s);
    } else {
        assert(s.drop_last() =~= Seq::<DocEntryV>::empty());
        assert(s.filter(keep) =~= s);
    }
}

/// Folding a zero-or-one-entry list.
proof fn lemma_recall_opt(r: RecView, s: Seq<DocEntryV>)
    requires
        s.len() <= 1,
    ensures
        recall_go(r, s) == if s.len() == 0 {
            r
        } else {
            store_field_spec(r, s[0])
        },
{
    if s.len() == 1 {
        assert(s =~= seq![s[0]]);
        lemma_recall_go_one(r, s[0]);
    }
}

/// The eight field names differ pairwise where the reading rule needs it.
proof fn proof_distinct_names()
    ensures
        "path"@ != "artist"@,
        "path"@ != "album"@,
        "path"@ != "title"@,
        "path"@ != "track"@,
        "path"@ != "date"@,
        "path"@ != "extras"@,
        "path"@ != "type"@,
        "artist"@ != "album"@,
        "artist"@ != "title"@,
        "artist"@ != "track"@,
        "artist"@ != "date"@,
        "artist"@ != "extras"@,
        "artist"@ != "type"@,
        "album"@ != "title"@,
        "album"@ != "track"@,
        "album"@ != "date"@,
        "album"@ != "extras"@,
        "album"@ != "type"@,
        "title"@ != "track"@,
        "title"@ != "date"@,
        "title"@ != "extras"@,
        "title"@ != "type"@,
        "track"@ != "date"@,
        "track"@ != "extras"@,
        "track"@ != "type"@,
        "date"@ != "extras"@,
        "date"@ != "type"@,
        "extras"@ != "type"@,
{
    reveal_strlit("path");
    reveal_strlit("artist");
    reveal_strlit("album");
    reveal_strlit("title");
    reveal_strlit("track");
    reveal_strlit("date");
    reveal_strlit("extras");
    reveal_strlit("type");
    assert("path"@.len() == 4);
    assert("artist"@.len() == 6);
    assert("album"@.len() == 5);
    assert("title"@.len() == 5);
    assert("track"@.len() == 5);
    assert("date"@.len() == 4);
    assert("extras"@.len() == 6);
    assert("type"@.len() == 4);
    assert("path"@[0] == 'p' && "date"@[0] == 'd' && "type"@[0] == 't');
    assert("title"@[0] == 't' && "track"@[0] == 't' && "album"@[0] == 'a');
    assert("title"@[1] == 'i' && "track"@[1] == 'r' && "album"@[1] == 'l');
    assert("artist"@[0] == 'a' && "extras"@[0] == 'e');
}

} // verus!
