use espx_core::document::{Document, DocumentChunk};
use espx_core::fill::{ensure_filled, Capabilities, EmbeddingError, FillError, SummarizationError};
use espx_core::store::{doc_as_db_tuple, DBDocument, DBDocumentChunk};

/// Counting stub of the external capabilities: deterministic summaries and
/// embeddings, optional injected failures, and per-capability call counters.
struct StubCap {
    dim: usize,
    summarize_calls: usize,
    embed_calls: usize,
    fail_summarize_at: Option<usize>,
    fail_embed: bool,
}

impl StubCap {
    fn new(dim: usize) -> StubCap {
        StubCap { dim, summarize_calls: 0, embed_calls: 0, fail_summarize_at: None, fail_embed: false }
    }
}

impl Capabilities for StubCap {
    fn summarize(&mut self, text: &str) -> Result<String, SummarizationError> {
        self.summarize_calls += 1;
        if Some(self.summarize_calls) == self.fail_summarize_at {
            return Err(SummarizationError { message: String::from("backend refused") });
        }
        Ok(format!("synopsis[{}]", text.len()))
    }

    fn embed(&mut self, text: &str) -> Result<Vec<u32>, EmbeddingError> {
        self.embed_calls += 1;
        if self.fail_embed {
            return Err(EmbeddingError { message: String::from("backend refused") });
        }
        let mut v = vec![0u32; self.dim];
        for (i, b) in text.bytes().enumerate() {
            v[i % self.dim] = v[i % self.dim].wrapping_add(b as u32);
        }
        Ok(v)
    }
}

fn sample_doc() -> Document {
    let chunks = vec![
        DocumentChunk::new((0, 12), String::from("first chunk.")),
        DocumentChunk::new((12, 25), String::from("second chunk.")),
    ];
    Document::new(String::from("file:///notes/today.md"), chunks)
}

#[test]
fn fill_sets_every_summary() {
    let mut doc = sample_doc();
    let mut cap = StubCap::new(4);
    assert!(ensure_filled(&mut doc, &mut cap).is_ok());
    assert!(doc.summary.is_some());
    assert!(doc.chunks.iter().all(|c| c.summary.is_some()));
    // one call for the document, one per chunk, none for embeddings
    assert_eq!(3, cap.summarize_calls);
    assert_eq!(0, cap.embed_calls);
}

#[test]
fn fill_summarizes_full_content() {
    let mut doc = sample_doc();
    let mut cap = StubCap::new(4);
    ensure_filled(&mut doc, &mut cap).unwrap();
    // the document summary is computed over the concatenated chunk contents
    assert_eq!("synopsis[25]", doc.summary.as_ref().unwrap());
    assert_eq!("synopsis[12]", doc.chunks[0].summary.as_ref().unwrap());
    assert_eq!("synopsis[13]", doc.chunks[1].summary.as_ref().unwrap());
}

#[test]
fn fill_is_idempotent() {
    let mut doc = sample_doc();
    let mut cap = StubCap::new(4);
    ensure_filled(&mut doc, &mut cap).unwrap();
    let summary_before = doc.summary.clone();
    let chunk_summaries: Vec<Option<String>> =
        doc.chunks.iter().map(|c| c.summary.clone()).collect();
    let calls_before = cap.summarize_calls + cap.embed_calls;
    // the second invocation performs no capability call and changes nothing
    assert!(ensure_filled(&mut doc, &mut cap).is_ok());
    assert_eq!(calls_before, cap.summarize_calls + cap.embed_calls);
    assert_eq!(summary_before, doc.summary);
    for (before, chunk) in chunk_summaries.iter().zip(doc.chunks.iter()) {
        assert_eq!(*before, chunk.summary);
    }
}

#[test]
fn fill_keeps_partial_progress_and_resumes() {
    let mut doc = sample_doc();
    let mut cap = StubCap::new(4);
    // the third summarization (the second chunk's) fails
    cap.fail_summarize_at = Some(3);
    let err = ensure_filled(&mut doc, &mut cap).unwrap_err();
    assert!(matches!(err, FillError::Summarization(_)));
    assert!(doc.summary.is_some());
    assert!(doc.chunks[0].summary.is_some());
    assert!(doc.chunks[1].summary.is_none());
    // the retry re-requests only the field that is still missing
    cap.fail_summarize_at = None;
    let calls_before = cap.summarize_calls;
    assert!(ensure_filled(&mut doc, &mut cap).is_ok());
    assert_eq!(calls_before + 1, cap.summarize_calls);
    assert!(doc.chunks[1].summary.is_some());
}

#[test]
fn embed_failure_keeps_summaries() {
    let mut doc = sample_doc();
    let mut cap = StubCap::new(4);
    cap.fail_embed = true;
    let err = doc_as_db_tuple(&mut doc, &mut cap).unwrap_err();
    assert!(matches!(err, FillError::Embedding(_)));
    // every summary was set before the embedding failed...
    assert!(doc.summary.is_some());
    assert!(doc.chunks.iter().all(|c| c.summary.is_some()));
    // ...so a retried fill re-requests none of them
    let summarize_before = cap.summarize_calls;
    assert!(ensure_filled(&mut doc, &mut cap).is_ok());
    assert_eq!(summarize_before, cap.summarize_calls);
}

#[test]
fn round_trip_reproduces_the_document() {
    let mut doc = sample_doc();
    let mut cap = StubCap::new(4);
    let tuple = doc_as_db_tuple(&mut doc, &mut cap).unwrap();
    let restored = Document::from_db_tuple(tuple);
    assert_eq!(doc.url, restored.url);
    assert_eq!(doc.summary, restored.summary);
    assert_eq!(doc.chunks.len(), restored.chunks.len());
    for (a, b) in doc.chunks.iter().zip(restored.chunks.iter()) {
        assert_eq!(a.content, b.content);
        assert_eq!(a.summary, b.summary);
        assert_eq!(a.range, b.range);
        assert!(b.changes.is_empty());
    }
}

#[test]
fn stored_tuple_links_chunks_to_parent() {
    let mut doc = sample_doc();
    let mut cap = StubCap::new(4);
    let (dbdoc, dbchunks) = doc_as_db_tuple(&mut doc, &mut cap).unwrap();
    assert_eq!("file:///notes/today.md", dbdoc.url);
    assert_eq!(2, dbchunks.len());
    for (chunk, stored) in doc.chunks.iter().zip(dbchunks.iter()) {
        assert_eq!(dbdoc.url, stored.parent_url);
        assert_eq!(chunk.content, stored.content);
        assert_eq!(chunk.range, stored.range);
    }
    assert_eq!((0, 12), dbchunks[0].range);
    assert_eq!((12, 25), dbchunks[1].range);
}

#[test]
fn embeddings_share_one_dimensionality() {
    let mut cap = StubCap::new(7);
    let mut lengths: Vec<usize> = Vec::new();
    for url in ["file:///a.md", "file:///b.md"] {
        let chunks = vec![
            DocumentChunk::new((0, 5), String::from("alpha")),
            DocumentChunk::new((5, 9), String::from("beta")),
        ];
        let mut doc = Document::new(String::from(url), chunks);
        let (dbdoc, dbchunks) = doc_as_db_tuple(&mut doc, &mut cap).unwrap();
        lengths.push(dbdoc.summary_embedding.len());
        for c in dbchunks.iter() {
            lengths.push(c.content_embedding.len());
            lengths.push(c.summary_embedding.len());
        }
    }
    assert!(lengths.iter().all(|l| *l == 7));
}

#[test]
fn reconstruction_is_total() {
    // from_db_tuple never fails, whatever tuple it is handed
    let tuple = (
        DBDocument {
            url: String::from("file:///loose.md"),
            summary: String::from("a synopsis"),
            summary_embedding: vec![1, 2, 3],
        },
        vec![DBDocumentChunk {
            parent_url: String::from("file:///other.md"),
            content: String::from("text"),
            content_embedding: vec![],
            summary: String::from("chunk synopsis"),
            summary_embedding: vec![9],
            range: (4, 2),
        }],
    );
    let doc = Document::from_db_tuple(tuple);
    assert_eq!("file:///loose.md", doc.url);
    assert_eq!(Some(String::from("a synopsis")), doc.summary);
    assert_eq!(1, doc.chunks.len());
    assert_eq!("text", doc.chunks[0].content);
    assert_eq!((4, 2), doc.chunks[0].range);
    assert!(doc.chunks[0].changes.is_empty());
}

#[test]
fn persist_computes_embeddings_fresh() {
    let mut doc = sample_doc();
    let mut cap = StubCap::new(4);
    doc_as_db_tuple(&mut doc, &mut cap).unwrap();
    let embeds_after_first = cap.embed_calls;
    // one embedding for the document summary, two per chunk
    assert_eq!(5, embeds_after_first);
    doc_as_db_tuple(&mut doc, &mut cap).unwrap();
    // a second persist summarizes nothing but embeds everything again
    assert_eq!(3, cap.summarize_calls);
    assert_eq!(10, cap.embed_calls);
}
