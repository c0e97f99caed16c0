//! The search index: a single writer that buffers documents, a commit that
//! makes them visible, and read-only snapshots serving ranked queries.
//!
//! The index itself is tantivy's; this module states what the library relies
//! on. The model is two document sequences per index — what the writer has
//! buffered and what a commit has made visible — and one per snapshot. Both
//! change only through `&mut` calls on the handle that owns them, so they
//! live on opaque handle types of this crate.

use vstd::prelude::*;

use crate::doc::{
    doc_spec, doc_valid, lemma_doc_spec_valid, recall_spec, stored_spec, Doc, DocEntry, DocEntryV,
    FieldVal,
};
use crate::record::AudioFile;

use tantivy::collector::TopDocs;
use tantivy::query::QueryParser;
use tantivy::schema::{
    Field, IndexRecordOption, Schema, TextFieldIndexing, TextOptions, Value, INDEXED, STORED,
};
use tantivy::tokenizer::{LowerCaser, NgramTokenizer, TextAnalyzer};

verus! {

#[verifier::external_type_specification]
#[verifier::external_body]
pub struct ExSchema(Schema);

#[verifier::external_type_specification]
#[verifier::external_body]
pub struct ExTantivyDocument(tantivy::TantivyDocument);

/// The in-memory index together with its single writer. All document
/// submissions funnel through one value of this type, and callers serialize
/// `add` and `commit` through its `&mut` methods.
#[verifier::external_body]
pub struct SongIndex {
    index: tantivy::Index,
    writer: tantivy::IndexWriter,
}

/// A read-only view of the index bound to the commits that preceded it.
/// Snapshots never change: searching is `&self`, and what a snapshot holds
/// is fixed when it is taken.
#[verifier::external_body]
pub struct Snapshot {
    searcher: tantivy::Searcher,
}

/// The documents the writer has buffered since the last commit, oldest
/// first: not yet visible to any snapshot.
pub uninterp spec fn index_pending(i: &SongIndex) -> Seq<Seq<DocEntryV>>;

/// The documents commits have made visible, oldest first: what a snapshot
/// taken now would hold.
pub uninterp spec fn index_committed(i: &SongIndex) -> Seq<Seq<DocEntryV>>;

/// The committed documents a snapshot is bound to, oldest first.
pub uninterp spec fn snap_docs(s: &Snapshot) -> Seq<Seq<DocEntryV>>;

/// The (field name, value) list of one retrieved document, in stored order.
pub uninterp spec fn doc_rep(d: &tantivy::TantivyDocument) -> Seq<DocEntryV>;

/// The ranked result list of one search: the stored-field lists of the
/// documents a top-`limit` search returns for this query under this mode,
/// best first. The snapshot is an immutable in-memory structure and the
/// collection is single-threaded, ordered by score and then document
/// address, so the list is a function of these arguments alone.
pub uninterp spec fn ranked_reps(
    s: &Snapshot,
    q: Seq<char>,
    limit: int,
    conjunction: bool,
) -> Seq<Seq<DocEntryV>>;

/// `rep` is the stored part of some document the snapshot holds.
pub open spec fn from_snapshot(s: &Snapshot, rep: Seq<DocEntryV>) -> bool {
    exists|j: int|
        0 <= j < snap_docs(s).len() && rep == stored_spec(#[trigger] snap_docs(s)[j])
}

/// `r` reads back from the stored part of some document the snapshot holds:
/// what every search hit is.
pub open spec fn hit_from(s: &Snapshot, r: crate::record::RecView) -> bool {
    exists|j: int|
        0 <= j < snap_docs(s).len() && r == recall_spec(stored_spec(#[trigger] snap_docs(s)[j]))
}

/// Relies on tantivy's `SchemaBuilder`: the fixed field layout — `path`,
/// `artist`, `album`, `title`, `date` and `type` as stored text, `track` as
/// a stored integer, `extras` as indexed-only text — with every text field
/// tokenized by the `ngram3` analyzer registered at index creation.
#[verifier::external_body]
fn audio_schema() -> Schema {
    let mut b = Schema::builder();
    let indexing = TextFieldIndexing::default().set_tokenizer("ngram3").set_index_option(
        IndexRecordOption::WithFreqsAndPositions,
    );
    let text = TextOptions::default().set_indexing_options(indexing);
    let stored = text.clone() | STORED;
    b.add_text_field("path", stored.clone());
    b.add_text_field("artist", stored.clone());
    b.add_text_field("album", stored.clone());
    b.add_text_field("title", stored.clone());
    b.add_u64_field("track", INDEXED | STORED);
    b.add_text_field("date", stored.clone());
    b.add_text_field("extras", text);
    b.add_text_field("type", stored);
    b.build()
}

impl SongIndex {
    /// Relies on `Index::create_in_ram` and `Index::writer`: a fresh
    /// in-memory index holds no documents and its fresh writer buffers none.
    /// The `ngram3` analyzer is a lowercasing 1..=3 character n-gram
    /// tokenizer; the writer gets a 20 MB buffer budget.
    #[verifier::external_body]
    fn raw_open(schema: Schema) -> (r: Option<SongIndex>)
        ensures
            (r matches Some(i) ==> index_pending(&i) == Seq::<Seq<DocEntryV>>::empty()
                && index_committed(&i) == Seq::<Seq<DocEntryV>>::empty()),
    {
        let index = tantivy::Index::create_in_ram(schema);
        let grams = NgramTokenizer::new(1, 3, false).ok()?;
        let tok = TextAnalyzer::builder(grams).filter(LowerCaser).build();
        index.tokenizers().register("ngram3", tok);
        let writer = index.writer(20_000_000).ok()?;
        Some(SongIndex { index, writer })
    }

    /// An empty index over the fixed schema: nothing buffered, nothing
    /// visible. Creation is owed nothing: the backing store decides.
    pub fn new() -> (r: Option<SongIndex>)
        ensures
            (r matches Some(i) ==> index_pending(&i) == Seq::<Seq<DocEntryV>>::empty()
                && index_committed(&i) == Seq::<Seq<DocEntryV>>::empty()),
    {
        SongIndex::raw_open(audio_schema())
    }

    /// Relies on `IndexWriter::add_document`: an accepted document is
    /// appended to the write buffer and stays invisible until a commit;
    /// visibility never changes here, accepted or not.
    #[verifier::external_body]
    fn raw_add(&mut self, d: &Doc) -> (ok: bool)
        requires
            doc_valid(d@),
        ensures
            ok ==> index_pending(final(self)) == index_pending(old(self)).push(d@),
            index_committed(final(self)) == index_committed(old(self)),
    {
        let schema = self.index.schema();
        let mut doc = tantivy::TantivyDocument::new();
        for e in d.entries.iter() {
            let f = schema.get_field(&e.name).unwrap();
            match &e.value {
                FieldVal::Text(s) => doc.add_text(f, s),
                FieldVal::Num(n) => doc.add_u64(f, *n),
            }
        }
        self.writer.add_document(doc).is_ok()
    }

    /// Buffers one record's document. On acceptance the document joins the
    /// pending sequence; what is visible never changes here.
    pub fn add_record(&mut self, rec: &AudioFile) -> (ok: bool)
        ensures
            ok ==> index_pending(final(self)) == index_pending(old(self)).push(doc_spec(rec@)),
            index_committed(final(self)) == index_committed(old(self)),
    {
        let d = rec.to_doc();
        proof {
            lemma_doc_spec_valid(rec@);
        }
        self.raw_add(&d)
    }

    /// Relies on `IndexWriter::commit`: on success everything buffered
    /// becomes visible to snapshots taken afterward, in order, and the
    /// buffer empties.
    #[verifier::external_body]
    fn raw_commit(&mut self) -> (ok: bool)
        ensures
            ok ==> index_committed(final(self)) == index_committed(old(self)) + index_pending(
                old(self),
            ) && index_pending(final(self)) == Seq::<Seq<DocEntryV>>::empty(),
    {
        self.writer.commit().is_ok()
    }

    /// Atomically publishes the buffered documents: the one transition that
    /// changes what new snapshots see. Failure is fatal to the caller's run.
    pub fn commit(&mut self) -> (ok: bool)
        ensures
            ok ==> index_committed(final(self)) == index_committed(old(self)) + index_pending(
                old(self),
            ) && index_pending(final(self)) == Seq::<Seq<DocEntryV>>::empty(),
    {
        self.raw_commit()
    }

    /// Relies on `Index::reader` and `IndexReader::searcher`: a fresh
    /// reader's searcher is bound to exactly the documents committed so far.
    #[verifier::external_body]
    fn raw_snapshot(&self) -> (r: Option<Snapshot>)
        ensures
            (r matches Some(s) ==> snap_docs(&s) == index_committed(self)),
    {
        let reader = self.index.reader().ok()?;
        Some(Snapshot { searcher: reader.searcher() })
    }

    /// A read-only snapshot of what is committed now: later buffering or
    /// commits never reach it.
    pub fn snapshot(&self) -> (r: Option<Snapshot>)
        ensures
            (r matches Some(s) ==> snap_docs(&s) == index_committed(self)),
    {
        self.raw_snapshot()
    }
}

impl Snapshot {
    /// Relies on `QueryParser::parse_query_lenient`, `Searcher::search` with
    /// a top-K collector, and `Searcher::doc`: parsing never fails, at most
    /// `limit` hits come back, and every hit is the stored part of some
    /// document this snapshot holds. Which documents the ranking picks, and
    /// their order, depends on this snapshot, the query, the cap and the
    /// mode alone — the snapshot is immutable and in memory, collection is
    /// single-threaded, ties break by document address — so the result is
    /// exactly the named ranked list.
    #[verifier::external_body]
    fn raw_search(&self, query: &str, limit: usize, conjunction: bool) -> (docs: Vec<
        tantivy::TantivyDocument,
    >)
        requires
            limit >= 1,
        ensures
            docs@.len() <= limit,
            docs@.len() == ranked_reps(self, query@, limit as int, conjunction).len(),
            forall|i: int|
                0 <= i < docs@.len() ==> doc_rep(&#[trigger] docs@[i]) == ranked_reps(
                    self,
                    query@,
                    limit as int,
                    conjunction,
                )[i],
            forall|i: int|
                0 <= i < docs@.len() ==> from_snapshot(self, doc_rep(&#[trigger] docs@[i])),
    {
        let index = self.searcher.index();
        let schema = index.schema();
        let fields: Vec<Field> = schema.fields().map(|(f, _)| f).collect();
        let mut qp = QueryParser::for_index(index, fields);
        if conjunction { qp.set_conjunction_by_default(); }
        let q = qp.parse_query_lenient(query).0;
        let mut docs = Vec::new();
        if let Ok(top) = self.searcher.search(&q, &TopDocs::with_limit(limit).order_by_score()) {
            for (_score, addr) in top {
                if let Ok(doc) = self.searcher.doc::<tantivy::TantivyDocument>(addr) { docs.push(doc); }
            }
        }
        docs
    }

    /// Relies on `TantivyDocument::field_values` and the schema's field
    /// names: the (name, value) pairs of one document retrieved from this
    /// snapshot, in stored order, with text and integer values carried over
    /// one for one.
    #[verifier::external_body]
    fn doc_entries(&self, d: &tantivy::TantivyDocument) -> (r: Vec<DocEntry>)
        requires
            from_snapshot(self, doc_rep(d)),
        ensures
            r@.map_values(|e: DocEntry| e@) == doc_rep(d),
    {
        let schema = self.searcher.index().schema();
        let mut out = Vec::new();
        for (f, v) in d.field_values() {
            let name = schema.get_field_name(f).to_string();
            if let Some(s) = v.as_str() {
                out.push(DocEntry { name, value: FieldVal::Text(s.to_string()) });
            } else if let Some(u) = v.as_u64() {
                out.push(DocEntry { name, value: FieldVal::Num(u) });
            }
        }
        out
    }

    /// Ranked search over this snapshot. An empty query returns no hits
    /// without touching the parser or the ranking. Otherwise the hits are
    /// exactly the ranked result list for this query, cap and mode, in
    /// order, each the record read back from the stored fields of a
    /// document this snapshot holds — so a snapshot holding nothing returns
    /// nothing, whatever the query.
    pub fn search(&self, query: &str, limit: usize, conjunction: bool) -> (hits: Vec<AudioFile>)
        requires
            1 <= limit,
        ensures
            hits@.len() <= limit,
            forall|i: int| 0 <= i < hits@.len() ==> hit_from(self, (#[trigger] hits@[i])@),
            query@.len() == 0 ==> hits@.len() == 0,
            query@.len() > 0 ==> hits@.len() == ranked_reps(
                self,
                query@,
                limit as int,
                conjunction,
            ).len(),
            query@.len() > 0 ==> (forall|i: int|
                0 <= i < hits@.len() ==> (#[trigger] hits@[i])@ == recall_spec(
                    ranked_reps(self, query@, limit as int, conjunction)[i],
                )),
            snap_docs(self).len() == 0 ==> hits@.len() == 0,
    {
        if query.is_empty() {
            return Vec::new();
        }
        let ghost rr = ranked_reps(self, query@, limit as int, conjunction);
        let docs = self.raw_search(query, limit, conjunction);
        let mut hits: Vec<AudioFile> = Vec::new();
        let mut k: usize = 0;
        while k < docs.len()
            invariant
                k <= docs@.len(),
                hits@.len() == k,
                docs@.len() <= limit,
                rr == ranked_reps(self, query@, limit as int, conjunction),
                docs@.len() == rr.len(),
                forall|i: int|
                    0 <= i < docs@.len() ==> doc_rep(&#[trigger] docs@[i]) == rr[i],
                forall|i: int|
                    0 <= i < docs@.len() ==> from_snapshot(self, doc_rep(&#[trigger] docs@[i])),
                forall|i: int| 0 <= i < k ==> hit_from(self, (#[trigger] hits@[i])@),
                forall|i: int|
                    0 <= i < k ==> (#[trigger] hits@[i])@ == recall_spec(rr[i]),
            decreases docs@.len() - k,
        {
            let ghost rep = doc_rep(&docs@[k as int]);
            let entries = self.doc_entries(&docs[k]);
            let d = Doc { entries };
            hits.push(AudioFile::from_doc(&d));
            k = k + 1;
            proof {
                let j = choose|j: int|
                    0 <= j < snap_docs(self).len() && rep == stored_spec(
                        #[trigger] snap_docs(self)[j],
                    );
                assert(hits@[k - 1]@ == recall_spec(stored_spec(snap_docs(self)[j])));
                assert(hit_from(self, hits@[k - 1]@));
                assert(hits@[k - 1]@ == recall_spec(rr[k - 1]));
            }
        }
        proof {
            if snap_docs(self).len() == 0 && hits@.len() > 0 {
                assert(hit_from(self, hits@[0]@));
                assert(false);
            }
        }
        hits
    }
}

} // verus!
