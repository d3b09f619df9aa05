//! The persistence mapper: the only code path that translates between the
//! runtime document model and the flat, storable tuple form, in both
//! directions, losing none of the fields persistence is responsible for.

use crate::document::{Document, DocumentChunk};
use crate::fill::{ensure_filled, missing_summaries, Capabilities, FillError};
use std::collections::HashMap;
use vstd::prelude::*;

verus! {

/// Flat, storable mirror of a document: identity, synopsis, and the
/// synopsis's embedding vector.
#[derive(Debug)]
pub struct DBDocument {
    pub url: String,
    pub summary: String,
    pub summary_embedding: Vec<u32>,
}

/// Flat, storable mirror of one chunk, joined to its document by
/// `parent_url`.  Chunk sequence position plus `range` distinguish chunks
/// within a document; no separate chunk identifier exists.
#[derive(Debug)]
pub struct DBDocumentChunk {
    pub parent_url: String,
    pub content: String,
    pub content_embedding: Vec<u32>,
    pub summary: String,
    pub summary_embedding: Vec<u32>,
    pub range: (usize, usize),
}

/// A document's persisted representation: its own flat mirror and the flat
/// mirrors of its chunks, in chunk sequence order.
pub type DBDocumentTuple = (DBDocument, Vec<DBDocumentChunk>);

/// The stored chunk `sc` mirrors the runtime chunk `ch` of the document
/// identified by `url`, embeddings aside.
pub open spec fn chunk_stored(url: String, ch: DocumentChunk, sc: DBDocumentChunk) -> bool {
    &&& sc.parent_url == url
    &&& sc.content == ch.content
    &&& ch.summary == Some(sc.summary)
    &&& sc.range == ch.range
}

/// The stored tuple `(sd, scs)` mirrors the runtime document `d`: same
/// identity and synopsis, and one stored chunk per runtime chunk, in order.
pub open spec fn stored_tuple_matches(d: Document, sd: DBDocument, scs: Seq<
    DBDocumentChunk,
>) -> bool {
    &&& sd.url == d.url
    &&& d.summary == Some(sd.summary)
    &&& scs.len() == d.chunks@.len()
    &&& forall|i: int| 0 <= i < scs.len() ==> chunk_stored(d.url, d.chunks@[i], #[trigger] scs[i])
}

/// Every embedding vector of the stored tuple has length `dim`.
pub open spec fn stored_dims_ok(sd: DBDocument, scs: Seq<DBDocumentChunk>, dim: nat) -> bool {
    &&& sd.summary_embedding@.len() == dim
    &&& forall|i: int|
        0 <= i < scs.len() ==> (#[trigger] scs[i]).content_embedding@.len() == dim
            && scs[i].summary_embedding@.len() == dim
}

/// The runtime document `r` is the reconstruction of the stored tuple
/// `(sd, scs)`: same identity and synopsis, chunks rebuilt in the given
/// sequence order with their stored content, summary and range, and with an
/// empty set of pending edits.
pub open spec fn restored_from(sd: DBDocument, scs: Seq<DBDocumentChunk>, r: Document) -> bool {
    &&& r.url == sd.url
    &&& r.summary == Some(sd.summary)
    &&& r.chunks@.len() == scs.len()
    &&& forall|i: int|
        0 <= i < scs.len() ==> {
            &&& (#[trigger] r.chunks@[i]).content == scs[i].content
            &&& r.chunks@[i].summary == Some(scs[i].summary)
            &&& r.chunks@[i].range == scs[i].range
            &&& r.chunks@[i].changes@ == Map::<u64, String>::empty()
        }
}

impl Document {
    /// Reconstructs a runtime document from its persisted representation.
    /// Pure and total: chunks are rebuilt in the stored sequence order, every
    /// reconstructed summary is present, and the pending-edit sets are
    /// recreated empty.  Embeddings are not carried back into the runtime
    /// model: they exist solely for external retrieval.
    pub fn from_db_tuple(tuple: DBDocumentTuple) -> (r: Document)
        ensures
            restored_from(tuple.0, tuple.1@, r),
    {
        let (dbdoc, dbdoc_chunks) = tuple;
        let ghost scs = dbdoc_chunks@;
        let mut chunks: Vec<DocumentChunk> = Vec::new();
        let n = dbdoc_chunks.len();
        let mut i: usize = 0;
        while i < n
            invariant
                i <= n,
                n == scs.len(),
                dbdoc_chunks@ == scs,
                chunks@.len() == i,
                forall|k: int|
                    0 <= k < i ==> {
                        &&& (#[trigger] chunks@[k]).content == scs[k].content
                        &&& chunks@[k].summary == Some(scs[k].summary)
                        &&& chunks@[k].range == scs[k].range
                        &&& chunks@[k].changes@ == Map::<u64, String>::empty()
                    },
            decreases n - i,
        {
            let ch = &dbdoc_chunks[i];
            chunks.push(
                DocumentChunk {
                    range: ch.range,
                    content: ch.content.clone(),
                    summary: Some(ch.summary.clone()),
                    changes: HashMap::new(),
                },
            );
            i += 1;
        }
        Document { url: dbdoc.url, chunks, summary: Some(dbdoc.summary) }
    }
}

/// Assembles the persisted representation of `doc`.  First fills every
/// missing summary through the capability, then computes every embedding
/// fresh -- embeddings are never cached on the runtime model -- and lays the
/// result out flat.  Fails, rather than persist a document with missing
/// summaries or embeddings, by surfacing the capability's error.
pub fn doc_as_db_tuple<C: Capabilities>(doc: &mut Document, cap: &mut C) -> (r: Result<
    DBDocumentTuple,
    FillError,
>)
    ensures
        // identity, ranges, contents and pending edits are untouched
        final(doc).url == old(doc).url,
        final(doc).chunks@.len() == old(doc).chunks@.len(),
        forall|i: int|
            0 <= i < old(doc).chunks@.len() ==> {
                &&& (#[trigger] final(doc).chunks@[i]).range == old(doc).chunks@[i].range
                &&& final(doc).chunks@[i].content == old(doc).chunks@[i].content
                &&& final(doc).chunks@[i].changes == old(doc).chunks@[i].changes
            },
        // summaries already present are kept verbatim
        old(doc).summary is Some ==> final(doc).summary == old(doc).summary,
        forall|i: int|
            0 <= i < old(doc).chunks@.len() && old(doc).chunks@[i].summary is Some ==> (
            #[trigger] final(doc).chunks@[i]).summary == old(doc).chunks@[i].summary,
        // the stored tuple mirrors the filled document, with every embedding
        // vector of the deployment's fixed dimensionality
        r is Ok ==> final(doc).is_filled() && stored_tuple_matches(
            *final(doc),
            r->Ok_0.0,
            r->Ok_0.1@,
        ) && stored_dims_ok(r->Ok_0.0, r->Ok_0.1@, old(cap).dim()),
        // summaries survive an embedding failure: a retry redoes no summary
        r is Err && r->Err_0 is Embedding ==> final(doc).is_filled(),
        // an error only ever comes out of an actual capability call, and a
        // summarization failure keeps exactly the summaries computed so far
        r is Err ==> final(cap).calls() > old(cap).calls(),
        r is Err && r->Err_0 is Summarization ==> missing_summaries(*final(doc))
            == missing_summaries(*old(doc)) - (final(cap).calls() - old(cap).calls() - 1),
        // embeddings are computed fresh on every successful persist: one
        // capability call per missing summary, then one per embedding
        r is Ok ==> final(cap).calls() == old(cap).calls() + missing_summaries(*old(doc)) + 1 + 2
            * old(doc).chunks@.len(),
        final(cap).dim() == old(cap).dim(),
        // the range invariant survives the persist
        old(doc).ranges_ok() ==> final(doc).ranges_ok(),
{
    let ghost chunks0 = old(doc).chunks@;
    match ensure_filled(doc, cap) {
        Ok(()) => {},
        Err(e) => {
            return Err(e);
        },
    }
    let summary = doc.summary.as_ref().unwrap().clone();
    let summary_embedding = match cap.embed(summary.as_str()) {
        Ok(v) => v,
        Err(e) => {
            return Err(FillError::Embedding(e));
        },
    };
    let dbdoc = DBDocument { url: doc.url.clone(), summary, summary_embedding };
    let ghost filled_doc = *doc;
    let ghost base_calls = cap.calls();
    let ghost dim = cap.dim();
    let mut dbdoc_chunks: Vec<DBDocumentChunk> = Vec::new();
    let n = doc.chunks.len();
    let mut i: usize = 0;
    while i < n
        invariant
            i <= n,
            n == doc.chunks@.len(),
            *doc == filled_doc,
            doc.is_filled(),
            doc.url == old(doc).url,
            doc.chunks@.len() == old(doc).chunks@.len(),
            forall|k: int|
                0 <= k < old(doc).chunks@.len() ==> {
                    &&& (#[trigger] doc.chunks@[k]).range == old(doc).chunks@[k].range
                    &&& doc.chunks@[k].content == old(doc).chunks@[k].content
                    &&& doc.chunks@[k].changes == old(doc).chunks@[k].changes
                },
            old(doc).summary is Some ==> doc.summary == old(doc).summary,
            forall|k: int|
                0 <= k < old(doc).chunks@.len() && old(doc).chunks@[k].summary is Some ==> (
                #[trigger] doc.chunks@[k]).summary == old(doc).chunks@[k].summary,
            base_calls == old(cap).calls() + missing_summaries(*old(doc)) + 1,
            old(cap).dim() == dim,
            dbdoc.url == doc.url,
            doc.summary == Some(dbdoc.summary),
            dbdoc.summary_embedding@.len() == dim,
            dbdoc_chunks@.len() == i,
            forall|k: int|
                0 <= k < i ==> chunk_stored(doc.url, doc.chunks@[k], #[trigger] dbdoc_chunks@[k]),
            forall|k: int|
                0 <= k < i ==> (#[trigger] dbdoc_chunks@[k]).content_embedding@.len() == dim
                    && dbdoc_chunks@[k].summary_embedding@.len() == dim,
            cap.calls() == base_calls + 2 * i,
            cap.dim() == dim,
        decreases n - i,
    {
        let ch_summary = doc.chunks[i].summary.as_ref().unwrap().clone();
        let summary_embedding = match cap.embed(ch_summary.as_str()) {
            Ok(v) => v,
            Err(e) => {
                return Err(FillError::Embedding(e));
            },
        };
        let content_embedding = match cap.embed(doc.chunks[i].content.as_str()) {
            Ok(v) => v,
            Err(e) => {
                return Err(FillError::Embedding(e));
            },
        };
        let dbchunk = DBDocumentChunk {
            parent_url: doc.url.clone(),
            content: doc.chunks[i].content.clone(),
            content_embedding,
            summary: ch_summary,
            summary_embedding,
            range: doc.chunks[i].range,
        };
        dbdoc_chunks.push(dbchunk);
        i += 1;
    }
    Ok((dbdoc, dbdoc_chunks))
}

/// Round-trip identity: reconstructing a stored tuple that mirrors a filled
/// document reproduces that document's identity, synopsis, and every chunk's
/// content, summary and range, in order.  Pending edits and embeddings are
/// excluded from this identity by design: edits are recreated empty, and
/// embeddings live only in the stored form.  The range invariant survives
/// the trip with everything else.
pub proof fn lemma_round_trip(d: Document, sd: DBDocument, scs: Seq<DBDocumentChunk>, r: Document)
    requires
        stored_tuple_matches(d, sd, scs),
        restored_from(sd, scs, r),
    ensures
        r.url == d.url,
        r.summary == d.summary,
        r.chunks@.len() == d.chunks@.len(),
        forall|i: int|
            0 <= i < d.chunks@.len() ==> {
                &&& (#[trigger] r.chunks@[i]).content == d.chunks@[i].content
                &&& r.chunks@[i].summary == d.chunks@[i].summary
                &&& r.chunks@[i].range == d.chunks@[i].range
            },
        d.ranges_ok() ==> r.ranges_ok(),
{
    assert forall|i: int| 0 <= i < d.chunks@.len() implies {
        &&& (#[trigger] r.chunks@[i]).content == d.chunks@[i].content
        &&& r.chunks@[i].summary == d.chunks@[i].summary
        &&& r.chunks@[i].range == d.chunks@[i].range
    } by {
        assert(chunk_stored(d.url, d.chunks@[i], scs[i]));
    }
}

} // verus!
