//! The runtime document model: a document identified by a URL, split by an
//! external chunker into ordered, non-overlapping content chunks, each of
//! which may lazily acquire a natural-language summary.

use std::collections::HashMap;
use vstd::prelude::*;

verus! {

/// A contiguous, non-overlapping substring of a document treated as an
/// independently summarizable and embeddable unit.
pub struct DocumentChunk {
    /// Half-open `(start, end)` offset pair into the document's raw text.
    pub range: (usize, usize),
    /// The exact substring covered by `range`; captured explicitly and never
    /// recomputed from `range`.
    pub content: String,
    /// Synopsis of this chunk; `None` until computed by the fill pipeline.
    pub summary: Option<String>,
    /// Pending edits keyed by an identifier; reserved, never persisted.
    pub changes: HashMap<u64, String>,
}

/// A document held in memory: its identity, its ordered chunks, and an
/// optional synopsis of the whole text.
///
/// The fields are exposed so that contracts can speak of them directly, but
/// summaries are meant to be written only by the fill pipeline, which sets
/// each absent field once and never overwrites one; the chunk set itself is
/// fixed at construction, and a changed source text is handled by building a
/// fresh document rather than by patching ranges.
pub struct Document {
    /// Stable unique identifier (location/identity of the source text).
    pub url: String,
    /// Ordered chunk sequence; order matches the chunks' position in the text.
    pub chunks: Vec<DocumentChunk>,
    /// Synopsis of the whole document; `None` until computed.
    pub summary: Option<String>,
}

impl DocumentChunk {
    /// A chunk's range is a valid half-open interval.
    pub open spec fn range_ok(self) -> bool {
        self.range.0 <= self.range.1
    }

    /// Builds a fresh chunk as the external chunker hands it over: range and
    /// content assigned, no summary yet, no pending edits.
    pub fn new(range: (usize, usize), content: String) -> (c: DocumentChunk)
        requires
            range.0 <= range.1,
        ensures
            c.range == range,
            c.content == content,
            c.summary is None,
            c.changes@ == Map::<u64, String>::empty(),
    {
        DocumentChunk { range, content, summary: None, changes: HashMap::new() }
    }
}

/// The chunk ranges are pairwise non-overlapping and strictly increasing in
/// start offset, matching chunk sequence order.
pub open spec fn ranges_ok(chunks: Seq<DocumentChunk>) -> bool {
    &&& forall|i: int| 0 <= i < chunks.len() ==> (#[trigger] chunks[i]).range_ok()
    &&& forall|i: int, j: int|
        0 <= i < j < chunks.len() ==> (#[trigger] chunks[i]).range.1 <= (
        #[trigger] chunks[j]).range.0 && chunks[i].range.0 < chunks[j].range.0
}

impl Document {
    /// The chunk ranges satisfy the range invariant.
    pub open spec fn ranges_ok(self) -> bool {
        ranges_ok(self.chunks@)
    }

    /// The document and every chunk carry a summary.
    pub open spec fn is_filled(self) -> bool {
        &&& self.summary is Some
        &&& forall|i: int|
            0 <= i < self.chunks@.len() ==> (#[trigger] self.chunks@[i]).summary is Some
    }

    /// Builds a document from a URL and a pre-computed ordered chunk
    /// sequence, as produced by the external chunker.  The chunker is
    /// responsible for handing over non-overlapping, ordered ranges.
    pub fn new(url: String, chunks: Vec<DocumentChunk>) -> (d: Document)
        requires
            ranges_ok(chunks@),
        ensures
            d.url == url,
            d.chunks == chunks,
            d.summary is None,
            d.ranges_ok(),
    {
        Document { url, chunks, summary: None }
    }
}

/// Two documents with the range invariant have pairwise disjoint chunk
/// ranges: no offset lies inside two distinct chunks of the same document.
pub proof fn lemma_ranges_disjoint(d: Document, i: int, j: int)
    requires
        d.ranges_ok(),
        0 <= i < j < d.chunks@.len(),
    ensures
        d.chunks@[i].range.1 <= d.chunks@[j].range.0,
        d.chunks@[i].range.0 < d.chunks@[j].range.0,
{
}

} // verus!
