//! The lazy fill pipeline: guarantees that a document and every one of its
//! chunks carry a summary before the document is persisted.  Summaries are
//! written once, never overwritten, so a retry after a partial failure only
//! redoes the fields that are still missing.

use crate::document::{Document, DocumentChunk};
use vstd::prelude::*;

verus! {

/// Failure of the external summarization capability.
#[derive(Debug, Clone, PartialEq, Eq)]
pub struct SummarizationError {
    pub message: String,
}

/// Failure of the external embedding capability.
#[derive(Debug, Clone, PartialEq, Eq)]
pub struct EmbeddingError {
    pub message: String,
}

/// Why a fill or persist operation failed: the error of whichever external
/// capability refused, surfaced verbatim to the caller.
#[derive(Debug, Clone, PartialEq, Eq)]
pub enum FillError {
    Summarization(SummarizationError),
    Embedding(EmbeddingError),
}

/// The external summarization and embedding capabilities, consumed as black
/// boxes.  Implementations live outside this crate (a language-model backend,
/// or a counting stub in tests).
///
/// `calls` abstracts the length of the implementation's call log; every
/// invocation of either capability extends it by exactly one, which is what
/// lets contracts state that an already-computed field is never re-requested.
/// `dim` is the deployment's fixed embedding dimensionality: every vector the
/// capability produces has that length, and it never changes between calls.
pub trait Capabilities {
    /// How many capability invocations have been made so far.  A backend
    /// verified against this trait gives the counter its own meaning; the
    /// default stands for backends that keep no observable log.
    open spec fn calls(&self) -> nat {
        0
    }

    /// The fixed embedding dimensionality of this deployment.
    open spec fn dim(&self) -> nat {
        0
    }

    /// Produce a natural-language synopsis of `text`.  The synopsis itself is
    /// whatever the backend answers; nothing more is promised of it.
    fn summarize(&mut self, text: &str) -> (r: Result<String, SummarizationError>)
        ensures
            final(self).calls() == old(self).calls() + 1,
            final(self).dim() == old(self).dim(),
    ;

    /// Produce the embedding vector of `text`.  Vector components are carried
    /// as opaque 32-bit words; the core never inspects them, only their count.
    fn embed(&mut self, text: &str) -> (r: Result<Vec<u32>, EmbeddingError>)
        ensures
            final(self).calls() == old(self).calls() + 1,
            final(self).dim() == old(self).dim(),
            r is Ok ==> r->Ok_0@.len() == old(self).dim(),
    ;
}

/// The concatenation of the chunk contents of `chunks[k..]`.
pub open spec fn content_from(chunks: Seq<DocumentChunk>, k: int) -> Seq<char>
    decreases chunks.len() - k,
{
    if k < 0 || k >= chunks.len() {
        Seq::empty()
    } else {
        chunks[k].content@ + content_from(chunks, k + 1)
    }
}

/// How many summaries among `chunks[k..]` are still missing.
pub open spec fn missing_from(chunks: Seq<DocumentChunk>, k: int) -> nat
    decreases chunks.len() - k,
{
    if k < 0 || k >= chunks.len() {
        0
    } else {
        (if chunks[k].summary is None {
            1nat
        } else {
            0nat
        }) + missing_from(chunks, k + 1)
    }
}

/// How many summaries `doc` is still missing: one for the document itself if
/// unset, plus one per chunk whose summary is unset.
pub open spec fn missing_summaries(doc: Document) -> nat {
    (if doc.summary is None {
        1nat
    } else {
        0nat
    }) + missing_from(doc.chunks@, 0)
}

proof fn lemma_missing_from_bounds(chunks: Seq<DocumentChunk>, k: int)
    requires
        0 <= k <= chunks.len(),
    ensures
        missing_from(chunks, k) <= chunks.len() - k,
    decreases chunks.len() - k,
{
    if k < chunks.len() {
        lemma_missing_from_bounds(chunks, k + 1);
    }
}

/// The missing count can only shrink when counting starts further right.
proof fn lemma_missing_from_monotone(chunks: Seq<DocumentChunk>, j: int, i: int)
    requires
        0 <= j <= i <= chunks.len(),
    ensures
        missing_from(chunks, j) >= missing_from(chunks, i),
    decreases i - j,
{
    if j < i {
        lemma_missing_from_monotone(chunks, j + 1, i);
    }
}

/// Chunks with a summary contribute nothing to the missing count.
proof fn lemma_missing_from_skip_filled(chunks: Seq<DocumentChunk>, j: int, i: int)
    requires
        0 <= j <= i <= chunks.len(),
        forall|k: int| j <= k < i ==> (#[trigger] chunks[k]).summary is Some,
    ensures
        missing_from(chunks, j) == missing_from(chunks, i),
    decreases i - j,
{
    if j < i {
        lemma_missing_from_skip_filled(chunks, j + 1, i);
    }
}

/// The missing count reads only the summaries.
proof fn lemma_missing_from_same_summaries(s: Seq<DocumentChunk>, s0: Seq<DocumentChunk>, k: int)
    requires
        s.len() == s0.len(),
        0 <= k <= s.len(),
        forall|m: int| k <= m < s.len() ==> (#[trigger] s[m]).summary == s0[m].summary,
    ensures
        missing_from(s, k) == missing_from(s0, k),
    decreases s.len() - k,
{
    if k < s.len() {
        lemma_missing_from_same_summaries(s, s0, k + 1);
    }
}

impl Document {
    /// The document's full content: the concatenation of its chunk contents,
    /// in chunk order.  This is the aggregate handed to the summarization
    /// capability when the document's own summary is computed.
    pub open spec fn full_content_spec(self) -> Seq<char> {
        content_from(self.chunks@, 0)
    }

    /// Assembles the document's full content as a fresh string.
    pub fn full_content(&self) -> (r: String)
        ensures
            r@ == self.full_content_spec(),
    {
        let mut r = String::new();
        let n = self.chunks.len();
        let mut i: usize = 0;
        proof {
            assert(r@ + content_from(self.chunks@, 0) == content_from(self.chunks@, 0));
        }
        while i < n
            invariant
                i <= n,
                n == self.chunks@.len(),
                r@ + content_from(self.chunks@, i as int) == self.full_content_spec(),
            decreases n - i,
        {
            r.append(self.chunks[i].content.as_str());
            i += 1;
        }
        r
    }
}

/// Ensures that the document and every one of its chunks carry a summary,
/// invoking the summarization capability once per field that is still
/// missing, in sequence order, the document's own summary first.
///
/// Summaries already present are kept verbatim and cost no capability call,
/// which makes the pipeline idempotent: run on an already-filled document it
/// touches neither the document nor the capability.  On failure the fields
/// computed so far stay in place, so a retry only redoes what is still
/// missing.
pub fn ensure_filled<C: Capabilities>(doc: &mut Document, cap: &mut C) -> (r: Result<
    (),
    FillError,
>)
    ensures
        // identity, ranges, contents and pending edits are untouched
        final(doc).url == old(doc).url,
        final(doc).chunks@.len() == old(doc).chunks@.len(),
        forall|i: int|
            0 <= i < old(doc).chunks@.len() ==> {
                &&& (#[trigger] final(doc).chunks@[i]).range == old(doc).chunks@[i].range
                &&& final(doc).chunks@[i].content == old(doc).chunks@[i].content
                &&& final(doc).chunks@[i].changes == old(doc).chunks@[i].changes
            },
        // writes are monotonic: a summary already present is kept verbatim
        old(doc).summary is Some ==> final(doc).summary == old(doc).summary,
        forall|i: int|
            0 <= i < old(doc).chunks@.len() && old(doc).chunks@[i].summary is Some ==> (
            #[trigger] final(doc).chunks@[i]).summary == old(doc).chunks@[i].summary,
        // on success every summary is present
        r is Ok ==> final(doc).is_filled(),
        // only the summarization capability is consulted here
        r is Err ==> r->Err_0 is Summarization,
        // one capability call per missing field, and never one for a field
        // already computed -- a retry after a partial failure re-requests
        // only what is still missing
        r is Ok ==> final(cap).calls() == old(cap).calls() + missing_summaries(*old(doc)),
        r is Err ==> final(cap).calls() <= old(cap).calls() + missing_summaries(*old(doc)),
        // an error only ever comes out of an actual capability call, and every
        // successful call before the failing one filled one field that is
        // retained: the partial progress is exactly the calls that succeeded
        r is Err ==> final(cap).calls() > old(cap).calls() && missing_summaries(*final(doc))
            == missing_summaries(*old(doc)) - (final(cap).calls() - old(cap).calls() - 1),
        // a second invocation on a filled document changes nothing at all
        old(doc).is_filled() ==> r is Ok && *final(doc) == *old(doc) && *final(cap) == *old(
            cap,
        ),
        final(cap).dim() == old(cap).dim(),
        // the range invariant survives the fill
        old(doc).ranges_ok() ==> final(doc).ranges_ok(),
{
    let ghost chunks0 = old(doc).chunks@;
    if doc.summary.is_none() {
        let full = doc.full_content();
        match cap.summarize(full.as_str()) {
            Ok(s) => {
                doc.summary = Some(s);
            },
            Err(e) => {
                proof {
                    lemma_missing_from_bounds(chunks0, 0);
                }
                return Err(FillError::Summarization(e));
            },
        }
    }
    let n = doc.chunks.len();
    let mut i: usize = 0;
    while i < n
        invariant
            i <= n,
            n == doc.chunks@.len(),
            chunks0 == old(doc).chunks@,
            doc.chunks@.len() == chunks0.len(),
            doc.url == old(doc).url,
            doc.summary is Some,
            old(doc).summary is Some ==> doc.summary == old(doc).summary,
            forall|k: int|
                0 <= k < chunks0.len() ==> {
                    &&& (#[trigger] doc.chunks@[k]).range == chunks0[k].range
                    &&& doc.chunks@[k].content == chunks0[k].content
                    &&& doc.chunks@[k].changes == chunks0[k].changes
                },
            forall|k: int|
                0 <= k < i ==> (#[trigger] doc.chunks@[k]).summary is Some,
            forall|k: int|
                i <= k < chunks0.len() ==> (#[trigger] doc.chunks@[k]).summary == chunks0[k].summary,
            forall|k: int|
                0 <= k < chunks0.len() && chunks0[k].summary is Some ==> (
                #[trigger] doc.chunks@[k]).summary == chunks0[k].summary,
            cap.calls() == old(cap).calls() + missing_summaries(*old(doc)) - missing_from(
                chunks0,
                i as int,
            ),
            cap.dim() == old(cap).dim(),
            old(doc).is_filled() ==> *doc == *old(doc) && *cap == *old(cap),
        decreases n - i,
    {
        if doc.chunks[i].summary.is_none() {
            match cap.summarize(doc.chunks[i].content.as_str()) {
                Ok(s) => {
                    doc.chunks[i].summary = Some(s);
                },
                Err(e) => {
                    proof {
                        lemma_missing_from_bounds(chunks0, i as int);
                        lemma_missing_from_monotone(chunks0, 0, i as int);
                        lemma_missing_from_skip_filled(doc.chunks@, 0, i as int);
                        lemma_missing_from_same_summaries(doc.chunks@, chunks0, i as int);
                    }
                    return Err(FillError::Summarization(e));
                },
            }
        }
        i += 1;
    }
    proof {
        assert(missing_from(chunks0, n as int) == 0);
    }
    Ok(())
}

} // verus!
