//! Retrieval ingestion: the embedder settings and the page numbers given to
//! the chunks of a multi-page document.
use vstd::prelude::*;

use crate::contextualize::{heuristic_context, Contextualizer, HeuristicContextualizer};
use crate::llm::{guessed_mime, mime_type};
use crate::parser::{ParsedDoc, ParsedPage};
use crate::text::{byte_len, chars_of, extend_chars, join_strings, join_with, owned, str_byte_len, string_from, string_views};
use crate::wiki_plan::{file_name_of, path_file_name};

verus! {

/// Embedder settings (kept in the preferences table).
#[derive(Debug, Clone)]
pub struct EmbeddingConfig {
    /// `local` or `api`.
    pub mode: String,
    /// For `api`: the provider whose address and key are used.
    pub provider_id: Option<String>,
    /// For `api`: the embedding model name.
    pub model: Option<String>,
    /// For `api`: the expected embedding dimension.
    pub dim: Option<usize>,
}

impl Default for EmbeddingConfig {
    fn default() -> (r: Self)
        ensures
            r.mode@ == "local"@,
            r.provider_id is None,
            r.model is None,
            r.dim is None,
    {
        EmbeddingConfig { mode: owned("local"), provider_id: None, model: None, dim: None }
    }
}

/// Total number of characters of the texts.
pub open spec fn total_len(ts: Seq<Seq<char>>) -> nat
    decreases ts.len(),
{
    if ts.len() == 0 {
        0
    } else {
        total_len(ts.drop_last()) + ts.last().len()
    }
}

/// The texts of the pages.
pub open spec fn page_texts(pages: Seq<ParsedPage>) -> Seq<Seq<char>> {
    pages.map_values(|p: ParsedPage| p.text@)
}

/// The page holding character `start` of the document, looking at the
/// first `m` pages: the last of them whose text starts at or before it (the
/// first page when none does).
pub open spec fn page_upto(pages: Seq<ParsedPage>, start: nat, m: nat) -> u32
    decreases m,
{
    if m == 0 {
        pages[0].page_no
    } else {
        let k = (m - 1) as nat;
        if start >= total_len(page_texts(pages).take(k as int)) {
            pages[k as int].page_no
        } else {
            page_upto(pages, start, k)
        }
    }
}

/// The page range noted for each chunk: none for single-page documents;
/// otherwise the page where the chunk starts (chunks laid end to end).
pub open spec fn page_meta(pages: Seq<ParsedPage>, chunks: Seq<Seq<char>>) -> Seq<(Option<i32>, Option<i32>)> {
    Seq::new(
        chunks.len(),
        |i: int|
            if pages.len() < 2 {
                (None, None)
            } else {
                let p = page_upto(pages, total_len(chunks.take(i)), pages.len()) as i32;
                (Some(p), Some(p))
            },
    )
}

/// Number of characters of `s`.
fn char_count(s: &String) -> (n: usize)
    ensures
        n == s@.len(),
{
    chars_of(s.as_str()).len()
}

/// Notes the page range of each chunk of a document split into `pages`.
pub fn build_page_meta(pages: &Vec<ParsedPage>, chunks: &Vec<String>) -> (r: Vec<(Option<i32>, Option<i32>)>)
    requires
        total_len(page_texts(pages@)) <= usize::MAX,
        total_len(chunks@.map_values(|c: String| c@)) <= usize::MAX,
    ensures
        r@ == page_meta(pages@, chunks@.map_values(|c: String| c@)),
{
    let ghost texts = page_texts(pages@);
    let ghost cviews = chunks@.map_values(|c: String| c@);
    let mut out: Vec<(Option<i32>, Option<i32>)> = Vec::new();
    if pages.len() < 2 {
        let mut i: usize = 0;
        while i < chunks.len()
            invariant
                i <= chunks@.len(),
                pages@.len() < 2,
                cviews == chunks@.map_values(|c: String| c@),
                out@ == page_meta(pages@, cviews).take(i as int),
            decreases chunks@.len() - i,
        {
            out.push((None, None));
            assert(out@ =~= page_meta(pages@, cviews).take(i + 1));
            i += 1;
        }
        assert(page_meta(pages@, cviews).take(chunks@.len() as int) =~= page_meta(pages@, cviews));
        return out;
    }
    let mut offsets: Vec<usize> = Vec::new();
    let mut acc: usize = 0;
    let mut k: usize = 0;
    while k < pages.len()
        invariant
            k <= pages@.len(),
            texts == page_texts(pages@),
            total_len(texts) <= usize::MAX,
            acc == total_len(texts.take(k as int)),
            offsets@.len() == k,
            forall|j: int| 0 <= j < k ==> #[trigger] offsets@[j] == total_len(texts.take(j)),
        decreases pages@.len() - k,
    {
        proof {
            lemma_total_len_prefix(texts, k as int + 1);
            assert(texts.take(k + 1).drop_last() =~= texts.take(k as int));
            assert(texts[k as int] == pages@[k as int].text@);
        }
        offsets.push(acc);
        acc = acc + char_count(&pages[k].text);
        k += 1;
    }
    let mut cursor: usize = 0;
    let mut i: usize = 0;
    while i < chunks.len()
        invariant
            i <= chunks@.len(),
            pages@.len() >= 2,
            offsets@.len() == pages@.len(),
            forall|j: int| 0 <= j < pages@.len() ==> #[trigger] offsets@[j] == total_len(texts.take(j)),
            texts == page_texts(pages@),
            cviews == chunks@.map_values(|c: String| c@),
            total_len(cviews) <= usize::MAX,
            cursor == total_len(cviews.take(i as int)),
            out@ == page_meta(pages@, cviews).take(i as int),
        decreases chunks@.len() - i,
    {
        let start = cursor;
        proof {
            lemma_total_len_prefix(cviews, i as int + 1);
            assert(cviews.take(i + 1).drop_last() =~= cviews.take(i as int));
            assert(cviews[i as int] == chunks@[i as int]@);
        }
        cursor = cursor + char_count(&chunks[i]);
        let mut page = pages[0].page_no;
        let mut m: usize = 0;
        while m < pages.len()
            invariant
                m <= pages@.len(),
                pages@.len() >= 2,
                offsets@.len() == pages@.len(),
                forall|j: int| 0 <= j < pages@.len() ==> #[trigger] offsets@[j] == total_len(texts.take(j)),
                texts == page_texts(pages@),
                page == page_upto(pages@, start as nat, m as nat),
            decreases pages@.len() - m,
        {
            if start >= offsets[m] {
                page = pages[m].page_no;
            }
            m += 1;
        }
        out.push((Some(page as i32), Some(page as i32)));
        assert(out@ =~= page_meta(pages@, cviews).take(i + 1));
        i += 1;
    }
    assert(page_meta(pages@, cviews).take(chunks@.len() as int) =~= page_meta(pages@, cviews));
    out
}

/// A prefix's total length is at most the whole's.
proof fn lemma_total_len_prefix(ts: Seq<Seq<char>>, k: int)
    requires
        0 <= k <= ts.len(),
    ensures
        total_len(ts.take(k)) <= total_len(ts),
    decreases ts.len() - k,
{
    if k < ts.len() {
        lemma_total_len_prefix(ts, k + 1);
        assert(ts.take(k + 1).drop_last() =~= ts.take(k));
    } else {
        assert(ts.take(k) =~= ts);
    }
}

/// The text of a parsed document: its pages' texts separated by blank
/// lines.
pub open spec fn document_text(pages: Seq<ParsedPage>) -> Seq<char> {
    join_with(page_texts(pages), "\n\n"@)
}

/// `v` held between `lo` and `hi`.
pub open spec fn clamped(v: i64, lo: i64, hi: i64) -> i64 {
    if v < lo {
        lo
    } else if v > hi {
        hi
    } else {
        v
    }
}

/// What ingestion records of a file before chunking: the document text, the
/// file's name (`unknown` when the path has none), its MIME type, the text's
/// size in bytes, and the chunk size and overlap from the settings (held to
/// 200..=2000 and 0..=500).
#[derive(Debug, Clone)]
pub struct IngestPlan {
    pub content: String,
    pub file_name: String,
    pub mime: String,
    pub size: i64,
    pub chunk_size: usize,
    pub overlap: usize,
}

/// Prepares the ingestion of a parsed file.
pub fn ingest_plan(doc: &ParsedDoc, file_path: &str, chunk_size_setting: i64, overlap_setting: i64) -> (r: IngestPlan)
    ensures
        r.content@ == document_text(doc.pages@),
        r.file_name@ == if path_file_name(file_path@).len() == 0 {
            "unknown"@
        } else {
            path_file_name(file_path@)
        },
        r.mime@ == guessed_mime(file_path@),
        r.size == byte_len(r.content@) as i64,
        r.chunk_size == clamped(chunk_size_setting, 200, 2000),
        r.overlap == clamped(overlap_setting, 0, 500),
{
    let mut texts: Vec<String> = Vec::new();
    let mut i: usize = 0;
    while i < doc.pages.len()
        invariant
            i <= doc.pages@.len(),
            string_views(texts@) == page_texts(doc.pages@).take(i as int),
        decreases doc.pages@.len() - i,
    {
        let ghost before = texts@;
        let t = owned(doc.pages[i].text.as_str());
        texts.push(t);
        assert(string_views(texts@) =~= string_views(before).push(t@));
        assert(page_texts(doc.pages@).take(i + 1) =~= page_texts(doc.pages@).take(i as int).push(
            doc.pages@[i as int].text@,
        ));
        i += 1;
    }
    assert(page_texts(doc.pages@).take(doc.pages@.len() as int) =~= page_texts(doc.pages@));
    let content = string_from(&join_strings(&texts, "\n\n"));
    let name = file_name_of(file_path);
    let file_name = if name.as_str().is_empty() {
        owned("unknown")
    } else {
        name
    };
    let mime = mime_type(file_path);
    let size = str_byte_len(content.as_str()) as i64;
    let cs: i64 = if chunk_size_setting < 200 {
        200
    } else if chunk_size_setting > 2000 {
        2000
    } else {
        chunk_size_setting
    };
    let ov: i64 = if overlap_setting < 0 {
        0
    } else if overlap_setting > 500 {
        500
    } else {
        overlap_setting
    };
    let chunk_size = cs as usize;
    let overlap = ov as usize;
    IngestPlan { content, file_name, mime, size, chunk_size, overlap }
}

/// The texts to embed for the chunks of `content`: with contextual
/// retrieval on, each chunk preceded by its context note (from
/// [`HeuristicContextualizer`]) and a line break; else the chunks as they are.
pub fn embed_inputs(content: &str, chunks: &Vec<String>, contextual: bool) -> (r: Vec<String>)
    ensures
        r@.len() == chunks@.len(),
        forall|i: int|
            0 <= i < chunks@.len() ==> #[trigger] r@[i]@ == if contextual {
                heuristic_context(content@) + "\n"@ + chunks@[i]@
            } else {
                chunks@[i]@
            },
{
    let ctx = HeuristicContextualizer;
    let mut out: Vec<String> = Vec::new();
    let mut i: usize = 0;
    while i < chunks.len()
        invariant
            i <= chunks@.len(),
            out@.len() == i,
            forall|j: int|
                0 <= j < i ==> #[trigger] out@[j]@ == if contextual {
                    heuristic_context(content@) + "\n"@ + chunks@[j]@
                } else {
                    chunks@[j]@
                },
        decreases chunks@.len() - i,
    {
        if contextual {
            let note = ctx.contextualize(content, chunks[i].as_str());
            let mut v = chars_of(note.as_str());
            extend_chars(&mut v, &chars_of("\n"));
            extend_chars(&mut v, &chars_of(chunks[i].as_str()));
            out.push(string_from(&v));
        } else {
            out.push(owned(chunks[i].as_str()));
        }
        i += 1;
    }
    out
}

} // verus!
